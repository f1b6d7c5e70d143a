//! Conversion of a local file path into the public URL that serves it.

use vstd::prelude::*;

use crate::text::opt_view;

verus! {

/// Whether `f` begins with `prefix` and the prefix ends on a path boundary.
pub open spec fn has_path_prefix(f: Seq<char>, prefix: Seq<char>) -> bool {
    &&& prefix.len() <= f.len()
    &&& f.subrange(0, prefix.len() as int) == prefix
    &&& (prefix.len() == 0 || prefix.len() == f.len() || prefix.last() == '/' || f[prefix.len() as int]
        == '/')
}

/// `f` without `old_root` where it begins with it, else `f` as it is.
pub open spec fn stripped(f: Seq<char>, old_root: Option<Seq<char>>) -> Seq<char> {
    match old_root {
        Some(o) => if has_path_prefix(f, o) {
            f.skip(o.len() as int)
        } else {
            f
        },
        None => f,
    }
}

/// Index of the last `/` in `s`, or -1.
pub open spec fn last_slash(s: Seq<char>) -> int
    decreases s.len(),
{
    if s.len() == 0 {
        -1
    } else if s.last() == '/' {
        s.len() - 1
    } else {
        last_slash(s.drop_last())
    }
}

/// The final component of a path.
pub open spec fn final_name(s: Seq<char>) -> Seq<char> {
    s.skip(last_slash(s) + 1)
}

/// Everything before the final component, without the separator.
pub open spec fn parent(s: Seq<char>) -> Seq<char> {
    if last_slash(s) < 0 {
        Seq::empty()
    } else {
        s.subrange(0, last_slash(s))
    }
}

pub open spec fn index_word() -> Seq<char> {
    seq!['i', 'n', 'd', 'e', 'x']
}

/// Whether a file name, up to its first `.`, is `index`.
pub open spec fn is_index_name(n: Seq<char>) -> bool {
    n == index_word() || (n.len() > 5 && n.subrange(0, 5) == index_word() && n[5] == '.')
}

/// `s` without the `/` characters it begins with.
pub open spec fn without_leading_slashes(s: Seq<char>) -> Seq<char>
    decreases s.len(),
{
    if s.len() > 0 && s[0] == '/' {
        without_leading_slashes(s.skip(1))
    } else {
        s
    }
}

/// `root` as a text prefix, followed by the relative path `rel`.
pub open spec fn joined(root: Seq<char>, rel: Seq<char>) -> Seq<char> {
    let r = without_leading_slashes(rel);
    if r.len() == 0 {
        root
    } else if root.len() == 0 || root.last() == '/' {
        root + r
    } else {
        root + seq!['/'] + r
    }
}

/// The URL that `file_to_url` computes.
pub open spec fn url_of_file(
    file: Seq<char>,
    root: Seq<char>,
    old_root: Option<Seq<char>>,
    clean: bool,
) -> Seq<char> {
    let f = stripped(file, old_root);
    if clean && is_index_name(final_name(f)) {
        joined(root, parent(f))
    } else {
        joined(root, f)
    }
}

fn starts_with_path(f: &str, prefix: &str) -> (r: bool)
    ensures
        r == has_path_prefix(f@, prefix@),
{
    let n = f.unicode_len();
    let m = prefix.unicode_len();
    if m > n {
        return false;
    }
    let mut i: usize = 0;
    while i < m
        invariant
            m <= n,
            n == f@.len(),
            m == prefix@.len(),
            i <= m,
            forall|k: int| 0 <= k < i ==> f@[k] == prefix@[k],
        decreases m - i,
    {
        if f.get_char(i) != prefix.get_char(i) {
            assert(f@.subrange(0, m as int)[i as int] != prefix@[i as int]);
            return false;
        }
        i = i + 1;
    }
    assert(f@.subrange(0, m as int) =~= prefix@);
    m == 0 || m == n || prefix.get_char(m - 1) == '/' || f.get_char(m) == '/'
}

fn find_last_slash(s: &str) -> (r: Option<usize>)
    ensures
        match r {
            Some(k) => k as int == last_slash(s@) && k < s@.len(),
            None => last_slash(s@) == -1,
        },
{
    let mut i: usize = s.unicode_len();
    assert(s@.subrange(0, i as int) =~= s@);
    while i > 0
        invariant
            i <= s@.len(),
            last_slash(s@) == last_slash(s@.subrange(0, i as int)),
        decreases i,
    {
        assert(s@.subrange(0, i as int).drop_last() =~= s@.subrange(0, i - 1));
        if s.get_char(i - 1) == '/' {
            assert(s@.subrange(0, i as int).last() == '/');
            return Some(i - 1);
        }
        i = i - 1;
    }
    None
}

fn skip_leading_slashes(s: &str) -> (r: &str)
    ensures
        r@ == without_leading_slashes(s@),
{
    let n = s.unicode_len();
    let mut i: usize = 0;
    assert(s@.skip(0) =~= s@);
    while i < n && s.get_char(i) == '/'
        invariant
            n == s@.len(),
            i <= n,
            without_leading_slashes(s@) == without_leading_slashes(s@.skip(i as int)),
        decreases n - i,
    {
        assert(s@.skip(i as int).skip(1) =~= s@.skip(i + 1));
        i = i + 1;
    }
    s.substring_char(i, n)
}

fn is_index(name: &str) -> (r: bool)
    ensures
        r == is_index_name(name@),
{
    let n = name.unicode_len();
    if n < 5 {
        return false;
    }
    let ghost head = name@.subrange(0, 5);
    if !(name.get_char(0) == 'i' && name.get_char(1) == 'n' && name.get_char(2) == 'd'
        && name.get_char(3) == 'e' && name.get_char(4) == 'x') {
        proof {
            if name@ == index_word() || head == index_word() {
                assert(head[0] == 'i' && head[1] == 'n' && head[2] == 'd' && head[3] == 'e' && head[4]
                    == 'x');
            }
        }
        return false;
    }
    assert(head =~= index_word());
    if n == 5 {
        assert(name@ =~= index_word());
        return true;
    }
    assert(name@.len() != index_word().len());
    name.get_char(5) == '.'
}

/// Computes the URL under `root` for the file at `file`: `oldroot` is first
/// taken off the front of the path when the path begins with it, and with
/// `clean` a final component named `index` (with any extension) is dropped.
pub fn file_to_url(file: &String, root: String, oldroot: Option<String>, clean: bool) -> (r: String)
    ensures
        r@ == url_of_file(file@, root@, opt_view(oldroot), clean),
{
    let ghost old_view = opt_view(oldroot);
    let f = file.as_str();
    let rest: &str = match &oldroot {
        Some(o) => if starts_with_path(f, o.as_str()) {
            f.substring_char(o.as_str().unicode_len(), f.unicode_len())
        } else {
            f
        },
        None => f,
    };
    assert(rest@ == stripped(file@, old_view));
    let rel: &str = if clean {
        let rl = rest.unicode_len();
        let cut = find_last_slash(rest);
        let name = match cut {
            Some(k) => rest.substring_char(k + 1, rl),
            None => rest,
        };
        assert(name@ =~= final_name(rest@));
        if is_index(name) {
            match cut {
                Some(k) => rest.substring_char(0, k),
                None => rest.substring_char(0, 0),
            }
        } else {
            rest
        }
    } else {
        rest
    };
    assert(clean && is_index_name(final_name(rest@)) ==> rel@ =~= parent(rest@));
    assert(!(clean && is_index_name(final_name(rest@))) ==> rel@ == rest@);
    let tail = skip_leading_slashes(rel);
    if tail.unicode_len() == 0 {
        return root;
    }
    let mut url = root;
    let m = url.as_str().unicode_len();
    if m > 0 && url.as_str().get_char(m - 1) != '/' {
        url.append("/");
        proof {
            reveal_strlit("/");
        }
    }
    url.append(tail);
    url
}

} // verus!
