//! The sitemap as an ordered list of entries: removal, addition, and the
//! XML document that is written.

use vstd::prelude::*;

use crate::entry::{models, url_block, Url, UrlModel};

verus! {

/// Whether an entry of `s` has the location `loc`.
pub open spec fn has_loc(s: Seq<UrlModel>, loc: Seq<char>) -> bool {
    exists|i: int| 0 <= i < s.len() && #[trigger] s[i].loc == loc
}

/// Whether `i` is the first position of `s` that holds the location `loc`.
pub open spec fn is_first(s: Seq<UrlModel>, loc: Seq<char>, i: int) -> bool {
    &&& 0 <= i < s.len()
    &&& s[i].loc == loc
    &&& forall|j: int| 0 <= j < i ==> #[trigger] s[j].loc != loc
}

/// `s` without its first entry at `loc`; `s` itself where there is none.
pub open spec fn removed(s: Seq<UrlModel>, loc: Seq<char>) -> Seq<UrlModel> {
    if has_loc(s, loc) {
        s.remove(choose|i: int| is_first(s, loc, i))
    } else {
        s
    }
}

/// `s` with `u` at the end, unless an entry at `u`'s location is there.
pub open spec fn added(s: Seq<UrlModel>, u: UrlModel) -> Seq<UrlModel> {
    if has_loc(s, u.loc) {
        s
    } else {
        s.push(u)
    }
}

pub open spec fn header() -> Seq<char> {
    "<?xml version=\"1.0\" encoding=\"UTF-8\"?>\n<urlset xmlns=\"http://www.sitemaps.org/schemas/sitemap/0.9\">\n"@
}

pub open spec fn footer() -> Seq<char> {
    "</urlset>\n"@
}

/// The `url` blocks of the entries, in order, each followed by a blank line.
pub open spec fn blocks(s: Seq<UrlModel>) -> Seq<char>
    decreases s.len(),
{
    if s.len() == 0 {
        Seq::empty()
    } else {
        blocks(s.drop_last()) + url_block(s.last()) + "\n"@
    }
}

/// The sitemap document of the entries `s`.
pub open spec fn document(s: Seq<UrlModel>) -> Seq<char> {
    header() + blocks(s) + footer()
}

/// The first position of a location is the one that `removed` takes out.
pub proof fn lemma_first_unique(s: Seq<UrlModel>, loc: Seq<char>, i: int)
    requires
        is_first(s, loc, i),
    ensures
        has_loc(s, loc),
        (choose|k: int| is_first(s, loc, k)) == i,
{
    assert(s[i].loc == loc);
    let k = choose|k: int| is_first(s, loc, k);
    assert(is_first(s, loc, k));
    if k < i {
        assert(s[k].loc != loc);
    } else if k > i {
        assert(s[i].loc != loc);
    }
}

/// Deletes the first entry whose location is exactly `loc`; does nothing
/// where no entry has it.
pub fn remove_url(urls: &mut Vec<Url>, loc: &String)
    ensures
        models(final(urls)@) == removed(models(old(urls)@), loc@),
{
    let ghost s = models(urls@);
    let n = urls.len();
    let mut i: usize = 0;
    while i < n
        invariant
            n == urls@.len(),
            urls@ == old(urls)@,
            s == models(urls@),
            i <= n,
            forall|j: int| 0 <= j < i ==> #[trigger] s[j].loc != loc@,
        decreases n - i,
    {
        if urls[i].loc == *loc {
            proof {
                assert(s[i as int].loc == loc@);
                assert(is_first(s, loc@, i as int));
                lemma_first_unique(s, loc@, i as int);
            }
            urls.remove(i);
            assert(models(urls@) =~= s.remove(i as int));
            return;
        }
        i = i + 1;
    }
}

/// Appends `url` unless an entry with the same location is already there,
/// in which case the list is left as it is.
pub fn add_url(urls: &mut Vec<Url>, url: Url)
    ensures
        models(final(urls)@) == added(models(old(urls)@), url@),
{
    let ghost s = models(urls@);
    let n = urls.len();
    let mut i: usize = 0;
    while i < n
        invariant
            n == urls@.len(),
            urls@ == old(urls)@,
            s == models(urls@),
            i <= n,
            forall|j: int| 0 <= j < i ==> #[trigger] s[j].loc != url.loc@,
        decreases n - i,
    {
        if urls[i].loc == url.loc {
            assert(s[i as int].loc == url.loc@);
            return;
        }
        i = i + 1;
    }
    let ghost u = url@;
    urls.push(url);
    assert(models(urls@) =~= s.push(u));
}

/// The sitemap document: the XML declaration and the opening `urlset`, a
/// `url` block for each entry in order, and the closing `urlset`.
pub fn serialize(urls: &Vec<Url>) -> (r: String)
    ensures
        r@ == document(models(urls@)),
{
    let ghost s = models(urls@);
    let mut out = String::from_str(
        "<?xml version=\"1.0\" encoding=\"UTF-8\"?>\n<urlset xmlns=\"http://www.sitemaps.org/schemas/sitemap/0.9\">\n",
    );
    assert(s.subrange(0, 0) =~= Seq::<UrlModel>::empty());
    assert(out@ =~= header() + blocks(s.subrange(0, 0)));
    let mut i: usize = 0;
    while i < urls.len()
        invariant
            s == models(urls@),
            i <= urls@.len(),
            out@ == header() + blocks(s.subrange(0, i as int)),
        decreases urls@.len() - i,
    {
        let block = urls[i].to_string();
        out.append(block.as_str());
        out.append("\n");
        assert(s.subrange(0, i + 1).drop_last() =~= s.subrange(0, i as int));
        assert(out@ =~= header() + blocks(s.subrange(0, i + 1)));
        i = i + 1;
    }
    assert(s.subrange(0, urls@.len() as int) =~= s);
    out.append("</urlset>\n");
    out
}

} // verus!
