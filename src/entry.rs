//! One `url` record of a sitemap, and its XML form.

use vstd::prelude::*;

use crate::text::{escape, escaped, opt_view};

verus! {

/// A sitemap entry: a location with optional metadata, all held as the
/// plain (unescaped) text.
#[derive(Debug, Clone, PartialEq)]
pub struct Url {
    pub loc: String,
    pub lastmod: Option<String>,
    pub changefreq: Option<String>,
    pub priority: Option<String>,
}

/// The value of a `Url`, as characters.
pub struct UrlModel {
    pub loc: Seq<char>,
    pub lastmod: Option<Seq<char>>,
    pub changefreq: Option<Seq<char>>,
    pub priority: Option<Seq<char>>,
}

impl View for Url {
    type V = UrlModel;

    open spec fn view(&self) -> UrlModel {
        UrlModel {
            loc: self.loc@,
            lastmod: opt_view(self.lastmod),
            changefreq: opt_view(self.changefreq),
            priority: opt_view(self.priority),
        }
    }
}

/// The values of a list of entries.
pub open spec fn models(urls: Seq<Url>) -> Seq<UrlModel> {
    urls.map_values(|u: Url| u@)
}

/// The element `<name>text</name>` at the leaf indentation, with the
/// opening and closing tags given.
pub open spec fn leaf(open: Seq<char>, close: Seq<char>, text: Seq<char>) -> Seq<char> {
    open + escaped(text) + close
}

pub open spec fn optional_leaf(open: Seq<char>, close: Seq<char>, text: Option<Seq<char>>) -> Seq<
    char,
> {
    match text {
        Some(t) => leaf(open, close, t),
        None => Seq::empty(),
    }
}

/// The `url` block of an entry: `loc`, then whichever of `lastmod`,
/// `changefreq` and `priority` are set, each escaped.
pub open spec fn url_block(u: UrlModel) -> Seq<char> {
    "    <url>\n"@ + leaf("        <loc>"@, "</loc>\n"@, u.loc) + optional_leaf(
        "        <lastmod>"@,
        "</lastmod>\n"@,
        u.lastmod,
    ) + optional_leaf("        <changefreq>"@, "</changefreq>\n"@, u.changefreq) + optional_leaf(
        "        <priority>"@,
        "</priority>\n"@,
        u.priority,
    ) + "    </url>\n"@
}

fn push_leaf(out: &mut String, open: &str, close: &str, text: &String)
    ensures
        final(out)@ == old(out)@ + leaf(open@, close@, text@),
{
    out.append(open);
    let e = escape(text);
    out.append(e.as_str());
    out.append(close);
}

fn push_optional_leaf(out: &mut String, open: &str, close: &str, text: &Option<String>)
    ensures
        final(out)@ == old(out)@ + optional_leaf(open@, close@, opt_view(*text)),
{
    match text {
        Some(t) => push_leaf(out, open, close, t),
        None => {
            assert(old(out)@ + Seq::<char>::empty() =~= old(out)@);
        },
    }
}

impl Url {
    /// An entry for `loc` with no metadata.
    pub fn new(loc: String) -> (r: Self)
        ensures
            r.loc == loc,
            r.lastmod is None,
            r.changefreq is None,
            r.priority is None,
    {
        Self { loc, lastmod: None, changefreq: None, priority: None }
    }

    /// The XML `url` block of this entry.
    pub fn to_string(&self) -> (r: String)
        ensures
            r@ == url_block(self@),
    {
        let mut out = String::from_str("    <url>\n");
        push_leaf(&mut out, "        <loc>", "</loc>\n", &self.loc);
        push_optional_leaf(&mut out, "        <lastmod>", "</lastmod>\n", &self.lastmod);
        push_optional_leaf(&mut out, "        <changefreq>", "</changefreq>\n", &self.changefreq);
        push_optional_leaf(&mut out, "        <priority>", "</priority>\n", &self.priority);
        out.append("    </url>\n");
        out
    }
}

} // verus!
