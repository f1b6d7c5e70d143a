//! Escaping of text for XML character data, and the decoding that undoes it.

use vstd::prelude::*;

verus! {

/// The characters of an optional text.
pub open spec fn opt_view(o: Option<String>) -> Option<Seq<char>> {
    match o {
        Some(s) => Some(s@),
        None => None,
    }
}

pub open spec fn amp_entity() -> Seq<char> {
    seq!['&', 'a', 'm', 'p', ';']
}

pub open spec fn apos_entity() -> Seq<char> {
    seq!['&', 'a', 'p', 'o', 's', ';']
}

pub open spec fn quot_entity() -> Seq<char> {
    seq!['&', 'q', 'u', 'o', 't', ';']
}

pub open spec fn gt_entity() -> Seq<char> {
    seq!['&', 'g', 't', ';']
}

pub open spec fn lt_entity() -> Seq<char> {
    seq!['&', 'l', 't', ';']
}

/// What one character becomes in escaped text.
pub open spec fn escape_char(c: char) -> Seq<char> {
    if c == '&' {
        amp_entity()
    } else if c == '\'' {
        apos_entity()
    } else if c == '"' {
        quot_entity()
    } else if c == '>' {
        gt_entity()
    } else if c == '<' {
        lt_entity()
    } else {
        seq![c]
    }
}

/// The text `s` with each of `& ' " > <` replaced by its predefined entity.
pub open spec fn escaped(s: Seq<char>) -> Seq<char>
    decreases s.len(),
{
    if s.len() == 0 {
        Seq::empty()
    } else {
        escaped(s.drop_last()) + escape_char(s.last())
    }
}

/// Decoding of the five predefined entities, as an XML reader does it.
pub open spec fn unescaped(s: Seq<char>) -> Seq<char>
    decreases s.len(),
{
    if s.len() == 0 {
        Seq::empty()
    } else if s.len() >= 5 && s.subrange(0, 5) == amp_entity() {
        seq!['&'] + unescaped(s.skip(5))
    } else if s.len() >= 6 && s.subrange(0, 6) == apos_entity() {
        seq!['\''] + unescaped(s.skip(6))
    } else if s.len() >= 6 && s.subrange(0, 6) == quot_entity() {
        seq!['"'] + unescaped(s.skip(6))
    } else if s.len() >= 4 && s.subrange(0, 4) == gt_entity() {
        seq!['>'] + unescaped(s.skip(4))
    } else if s.len() >= 4 && s.subrange(0, 4) == lt_entity() {
        seq!['<'] + unescaped(s.skip(4))
    } else {
        seq![s[0]] + unescaped(s.skip(1))
    }
}

/// Returns `l` with `&`, `'`, `"`, `>` and `<` written as XML entities.
pub fn escape(l: &String) -> (r: String)
    ensures
        r@ == escaped(l@),
{
    let s = l.as_str();
    let n = s.unicode_len();
    let mut r = String::new();
    let mut i: usize = 0;
    proof {
        reveal_strlit("&amp;");
        reveal_strlit("&apos;");
        reveal_strlit("&quot;");
        reveal_strlit("&gt;");
        reveal_strlit("&lt;");
        assert("&amp;"@ =~= amp_entity());
        assert("&apos;"@ =~= apos_entity());
        assert("&quot;"@ =~= quot_entity());
        assert("&gt;"@ =~= gt_entity());
        assert("&lt;"@ =~= lt_entity());
        assert(l@.subrange(0, 0) =~= Seq::<char>::empty());
    }
    while i < n
        invariant
            s@ == l@,
            n == l@.len(),
            i <= n,
            r@ == escaped(l@.subrange(0, i as int)),
            "&amp;"@ == amp_entity(),
            "&apos;"@ == apos_entity(),
            "&quot;"@ == quot_entity(),
            "&gt;"@ == gt_entity(),
            "&lt;"@ == lt_entity(),
        decreases n - i,
    {
        let c = s.get_char(i);
        if c == '&' {
            r.append("&amp;");
        } else if c == '\'' {
            r.append("&apos;");
        } else if c == '"' {
            r.append("&quot;");
        } else if c == '>' {
            r.append("&gt;");
        } else if c == '<' {
            r.append("&lt;");
        } else {
            let one = s.substring_char(i, i + 1);
            assert(one@ =~= seq![c]);
            r.append(one);
        }
        proof {
            let next = l@.subrange(0, i + 1);
            assert(next.drop_last() =~= l@.subrange(0, i as int));
            assert(next.last() == c);
        }
        i = i + 1;
    }
    assert(l@.subrange(0, n as int) =~= l@);
    r
}

/// Escaping distributes over concatenation.
pub proof fn lemma_escaped_concat(a: Seq<char>, b: Seq<char>)
    ensures
        escaped(a + b) == escaped(a) + escaped(b),
    decreases b.len(),
{
    if b.len() == 0 {
        assert(a + b =~= a);
        assert(escaped(a) + escaped(b) =~= escaped(a));
    } else {
        lemma_escaped_concat(a, b.drop_last());
        assert((a + b).drop_last() =~= a + b.drop_last());
        assert((a + b).last() == b.last());
        assert(escaped(a) + escaped(b) =~= escaped(a) + escaped(b.drop_last()) + escape_char(
            b.last(),
        ));
    }
}

proof fn lemma_unescaped_entity(e: Seq<char>, c: char, rest: Seq<char>)
    requires
        e == escape_char(c),
    ensures
        unescaped(e + rest) == seq![c] + unescaped(rest),
{
    let s = e + rest;
    assert(s.len() > 0);
    if c == '&' {
        assert(s.subrange(0, 5) =~= amp_entity());
        assert(s.skip(5) =~= rest);
    } else if c == '\'' {
        assert(s.subrange(0, 5)[2] == 'p');
        assert(s.subrange(0, 6) =~= apos_entity());
        assert(s.skip(6) =~= rest);
    } else if c == '"' {
        assert(s.subrange(0, 5)[1] == 'q');
        assert(s.subrange(0, 6)[1] == 'q');
        assert(s.subrange(0, 6) =~= quot_entity());
        assert(s.skip(6) =~= rest);
    } else if c == '>' {
        if s.len() >= 5 {
            assert(s.subrange(0, 5)[1] == 'g');
        }
        if s.len() >= 6 {
            assert(s.subrange(0, 6)[1] == 'g');
        }
        assert(s.subrange(0, 4) =~= gt_entity());
        assert(s.skip(4) =~= rest);
    } else if c == '<' {
        if s.len() >= 5 {
            assert(s.subrange(0, 5)[1] == 'l');
        }
        if s.len() >= 6 {
            assert(s.subrange(0, 6)[1] == 'l');
        }
        assert(s.subrange(0, 4)[1] == 'l');
        assert(s.subrange(0, 4) =~= lt_entity());
        assert(s.skip(4) =~= rest);
    } else {
        if s.len() >= 4 {
            assert(s.subrange(0, 4)[0] == c);
        }
        if s.len() >= 5 {
            assert(s.subrange(0, 5)[0] == c);
        }
        if s.len() >= 6 {
            assert(s.subrange(0, 6)[0] == c);
        }
        assert(s[0] == c);
        assert(s.skip(1) =~= rest);
    }
}

/// Decoding the entities of escaped text gives back the text: what is
/// written escaped is read back unchanged.
pub proof fn unescape_escape(s: Seq<char>)
    ensures
        unescaped(escaped(s)) == s,
    decreases s.len(),
{
    if s.len() > 0 {
        let t = s.skip(1);
        assert(s =~= seq![s[0]] + t);
        lemma_escaped_concat(seq![s[0]], t);
        assert(seq![s[0]].drop_last() =~= Seq::<char>::empty());
        assert(seq![s[0]].last() == s[0]);
        assert(escaped(Seq::<char>::empty()) =~= Seq::<char>::empty());
        assert(escaped(seq![s[0]]) =~= escape_char(s[0]));
        lemma_unescaped_entity(escape_char(s[0]), s[0], escaped(t));
        unescape_escape(t);
    }
}

} // verus!
