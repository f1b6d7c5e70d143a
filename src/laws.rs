//! Properties that relate several operations of the library.

use vstd::prelude::*;

use crate::entry::UrlModel;
use crate::reader::{close_url, progress, run_from, start, step, take_text, EventModel, Progress};
use crate::text::{escaped, unescape_escape, unescaped};
use crate::session::{edited, start_entries, Options};
use crate::sitemap::{
    added, blocks, document, footer, has_loc, header, is_first, lemma_first_unique, removed,
};

verus! {

/// Reading `a` and then `b` is reading `a + b`.
pub proof fn lemma_run_concat(p: Progress, a: Seq<EventModel>, b: Seq<EventModel>)
    ensures
        run_from(p, a + b) == run_from(run_from(p, a), b),
    decreases b.len(),
{
    if b.len() == 0 {
        assert(a + b =~= a);
    } else {
        lemma_run_concat(p, a, b.drop_last());
        assert((a + b).drop_last() =~= a + b.drop_last());
        assert((a + b).last() == b.last());
    }
}

/// Once an error was met, further events change nothing.
pub proof fn lemma_run_after_fault(p: Progress, b: Seq<EventModel>)
    requires
        p.fault is Some,
    ensures
        run_from(p, b) == p,
    decreases b.len(),
{
    if b.len() > 0 {
        lemma_run_after_fault(p, b.drop_last());
    }
}

/// A reading that meets an error keeps the entries assembled before it,
/// whatever follows the error.
pub proof fn fault_keeps_entries_before_it(a: Seq<EventModel>, m: Seq<char>, b: Seq<EventModel>)
    ensures
        progress(a + seq![EventModel::Fault(m)] + b).entries == progress(a).entries,
        progress(a + seq![EventModel::Fault(m)] + b).fault is Some,
{
    let f = seq![EventModel::Fault(m)];
    lemma_run_concat(start(), a + f, b);
    lemma_run_concat(start(), a, f);
    assert(f.drop_last() =~= Seq::<EventModel>::empty());
    assert(f.last() == EventModel::Fault(m));
    assert(run_from(progress(a), f) == step(run_from(progress(a), f.drop_last()), f.last()));
    let q = run_from(start(), a + f);
    assert(q == step(progress(a), EventModel::Fault(m)));
    lemma_run_after_fault(q, b);
}

/// With no file and so no entries, the document written is the header and
/// the closing tag, with no `url` in between.
pub proof fn no_file_gives_empty_document(clean: bool)
    ensures
        start_entries(clean, None) == Seq::<UrlModel>::empty(),
        document(start_entries(clean, None)) == header() + footer(),
{
    assert(header() + blocks(Seq::<UrlModel>::empty()) =~= header());
}

/// In clean mode the existing file has no bearing on what is written.
pub proof fn clean_ignores_existing(o: Options, existing: Option<Seq<u8>>)
    requires
        o.clean,
    ensures
        start_entries(o.clean, existing) == Seq::<UrlModel>::empty(),
        document(edited(o, start_entries(o.clean, existing))) == document(
            edited(o, Seq::empty()),
        ),
{
}

/// Adding at a location that is already present changes nothing: a second
/// addition at the same location keeps the first one's entry.
pub proof fn add_twice_keeps_first(s: Seq<UrlModel>, u: UrlModel, v: UrlModel)
    requires
        u.loc == v.loc,
    ensures
        added(added(s, u), v) == added(s, u),
        !has_loc(s, u.loc) ==> added(s, u) == s.push(u),
{
    if !has_loc(s, u.loc) {
        let t = s.push(u);
        assert(t[s.len() as int].loc == v.loc);
    }
}

/// Removing a location and then adding an entry at it leaves that entry,
/// with its own attributes, as the only one at the location (given at most
/// one entry held it before).
pub proof fn remove_then_add_replaces(s: Seq<UrlModel>, u: UrlModel)
    requires
        forall|i: int, j: int|
            0 <= i < j < s.len() && #[trigger] s[i].loc == u.loc ==> #[trigger] s[j].loc != u.loc,
    ensures
        !has_loc(removed(s, u.loc), u.loc),
        added(removed(s, u.loc), u) == removed(s, u.loc).push(u),
{
    let r = removed(s, u.loc);
    if has_loc(s, u.loc) {
        let w = choose|w: int| 0 <= w < s.len() && #[trigger] s[w].loc == u.loc;
        assert forall|j: int| 0 <= j < w implies #[trigger] s[j].loc != u.loc by {
            if s[j].loc == u.loc {
                assert(s[w].loc != u.loc);
            }
        }
        lemma_first_unique(s, u.loc, w);
        assert(r == s.remove(w));
        assert forall|k: int| 0 <= k < r.len() implies #[trigger] r[k].loc != u.loc by {
            if k >= w {
                assert(r[k] == s[k + 1]);
                assert(s[w].loc == u.loc);
            }
        }
    }
}

/// Whether a text is all white space, which a reader reports as no text.
pub open spec fn is_blank(t: Seq<char>) -> bool {
    forall|i: int| 0 <= i < t.len() ==> #[trigger] t[i] == ' ' || t[i] == '\t' || t[i] == '\n' || t[i] == '\r'
}

/// The event that a reader reports for the escaped text `t` of a leaf:
/// the decoded text, or nothing of note where it is blank.
pub open spec fn text_event(t: Seq<char>) -> EventModel {
    if is_blank(t) {
        EventModel::Other
    } else {
        EventModel::Text(unescaped(escaped(t)))
    }
}

/// The events of a leaf element and the white space before it.
pub open spec fn leaf_events(name: Seq<char>, t: Seq<char>) -> Seq<EventModel> {
    seq![EventModel::Other, EventModel::Open(name), text_event(t), EventModel::Close(name)]
}

pub open spec fn optional_leaf_events(name: Seq<char>, t: Option<Seq<char>>) -> Seq<EventModel> {
    match t {
        Some(t) => leaf_events(name, t),
        None => Seq::empty(),
    }
}

/// The events of the `url` block of an entry.
pub open spec fn url_events(u: UrlModel) -> Seq<EventModel> {
    seq![EventModel::Other, EventModel::Open("url"@)] + leaf_events("loc"@, u.loc)
        + optional_leaf_events("lastmod"@, u.lastmod) + optional_leaf_events(
        "changefreq"@,
        u.changefreq,
    ) + optional_leaf_events("priority"@, u.priority) + seq![
        EventModel::Other,
        EventModel::Close("url"@),
    ]
}

pub open spec fn entries_events(s: Seq<UrlModel>) -> Seq<EventModel>
    decreases s.len(),
{
    if s.len() == 0 {
        Seq::empty()
    } else {
        entries_events(s.drop_last()) + url_events(s.last())
    }
}

/// The events that a reader reports for `document(s)`: the declaration,
/// the `urlset`, each entry's block, and the white space between them.
pub open spec fn document_events(s: Seq<UrlModel>) -> Seq<EventModel> {
    seq![EventModel::Other, EventModel::Open("urlset"@)] + entries_events(s) + seq![
        EventModel::Other,
        EventModel::Close("urlset"@),
        EventModel::Other,
    ]
}

/// Whether every field of the entry holds text that is not blank.
pub open spec fn readable(u: UrlModel) -> bool {
    &&& !is_blank(u.loc)
    &&& (u.lastmod matches Some(t) ==> !is_blank(t))
    &&& (u.changefreq matches Some(t) ==> !is_blank(t))
    &&& (u.priority matches Some(t) ==> !is_blank(t))
}

proof fn lemma_run_push(p: Progress, evs: Seq<EventModel>, e: EventModel)
    ensures
        run_from(p, evs.push(e)) == step(run_from(p, evs), e),
{
    assert(evs.push(e).drop_last() =~= evs);
}

proof fn lemma_names_differ()
    ensures
        "url"@ != "loc"@,
        "url"@ != "lastmod"@,
        "url"@ != "changefreq"@,
        "url"@ != "priority"@,
        "url"@ != "urlset"@,
        "loc"@ != "lastmod"@,
        "loc"@ != "changefreq"@,
        "loc"@ != "priority"@,
        "lastmod"@ != "changefreq"@,
        "lastmod"@ != "priority"@,
        "changefreq"@ != "priority"@,
{
    reveal_strlit("url");
    reveal_strlit("loc");
    reveal_strlit("lastmod");
    reveal_strlit("changefreq");
    reveal_strlit("priority");
    reveal_strlit("urlset");
    assert("url"@[0] != "loc"@[0]);
    assert("url"@.len() != "lastmod"@.len());
    assert("url"@.len() != "changefreq"@.len());
    assert("url"@.len() != "priority"@.len());
    assert("url"@.len() != "urlset"@.len());
    assert("loc"@.len() != "lastmod"@.len());
    assert("loc"@.len() != "changefreq"@.len());
    assert("loc"@.len() != "priority"@.len());
    assert("lastmod"@.len() != "changefreq"@.len());
    assert("lastmod"@.len() != "priority"@.len());
    assert("changefreq"@.len() != "priority"@.len());
}

proof fn lemma_leaf(p: Progress, name: Seq<char>, t: Seq<char>)
    requires
        p.fault is None,
        name != "url"@,
        !is_blank(t),
    ensures
        run_from(p, leaf_events(name, t)) == (Progress {
            open: p.open,
            ..take_text(Progress { open: p.open.push(name), ..p }, t)
        }),
{
    unescape_escape(t);
    let e0 = Seq::<EventModel>::empty();
    let e1 = e0.push(EventModel::Other);
    let e2 = e1.push(EventModel::Open(name));
    let e3 = e2.push(text_event(t));
    let e4 = e3.push(EventModel::Close(name));
    assert(leaf_events(name, t) =~= e4);
    lemma_run_push(p, e0, EventModel::Other);
    lemma_run_push(p, e1, EventModel::Open(name));
    lemma_run_push(p, e2, text_event(t));
    lemma_run_push(p, e3, EventModel::Close(name));
    let p1 = Progress { open: p.open.push(name), ..p };
    assert(run_from(p, e2) == p1);
    let p2 = take_text(p1, t);
    assert(run_from(p, e3) == p2);
    assert(p2.open == p1.open);
    assert(p1.open.drop_last() =~= p.open);
}

/// A reading at the `urlset` level, with no field pending.
pub open spec fn at_urlset(e: Seq<UrlModel>) -> Progress {
    Progress {
        open: seq!["urlset"@],
        loc: None,
        lastmod: None,
        changefreq: None,
        priority: None,
        entries: e,
        fault: None,
    }
}

proof fn lemma_optional_leaf(p: Progress, name: Seq<char>, t: Option<Seq<char>>)
    requires
        p.fault is None,
        name != "url"@,
        t matches Some(x) ==> !is_blank(x),
    ensures
        run_from(p, optional_leaf_events(name, t)) == match t {
            Some(x) => Progress {
                open: p.open,
                ..take_text(Progress { open: p.open.push(name), ..p }, x)
            },
            None => p,
        },
{
    match t {
        Some(x) => lemma_leaf(p, name, x),
        None => {},
    }
}

proof fn lemma_url(e: Seq<UrlModel>, u: UrlModel)
    requires
        readable(u),
    ensures
        run_from(at_urlset(e), url_events(u)) == at_urlset(e.push(u)),
{
    lemma_names_differ();
    let p = at_urlset(e);
    let a = seq![EventModel::Other, EventModel::Open("url"@)];
    let b = leaf_events("loc"@, u.loc);
    let c = optional_leaf_events("lastmod"@, u.lastmod);
    let d = optional_leaf_events("changefreq"@, u.changefreq);
    let g = optional_leaf_events("priority"@, u.priority);
    let f = seq![EventModel::Other, EventModel::Close("url"@)];
    assert(a =~= Seq::<EventModel>::empty().push(EventModel::Other).push(EventModel::Open("url"@)));
    lemma_run_push(p, Seq::<EventModel>::empty(), EventModel::Other);
    lemma_run_push(p, Seq::<EventModel>::empty().push(EventModel::Other), EventModel::Open("url"@));
    let pa = run_from(p, a);
    assert(pa == Progress { open: p.open.push("url"@), ..p });
    lemma_leaf(pa, "loc"@, u.loc);
    lemma_run_concat(p, a, b);
    let pb = run_from(p, a + b);
    assert(pb == Progress { loc: Some(u.loc), ..pa });
    lemma_optional_leaf(pb, "lastmod"@, u.lastmod);
    lemma_run_concat(p, a + b, c);
    let pc = run_from(p, a + b + c);
    assert(pc == Progress { lastmod: u.lastmod, ..pb });
    lemma_optional_leaf(pc, "changefreq"@, u.changefreq);
    lemma_run_concat(p, a + b + c, d);
    let pd = run_from(p, a + b + c + d);
    assert(pd == Progress { changefreq: u.changefreq, ..pc });
    lemma_optional_leaf(pd, "priority"@, u.priority);
    lemma_run_concat(p, a + b + c + d, g);
    let pg = run_from(p, a + b + c + d + g);
    assert(pg == Progress { priority: u.priority, ..pd });
    assert(f =~= Seq::<EventModel>::empty().push(EventModel::Other).push(EventModel::Close("url"@)));
    lemma_run_push(pg, Seq::<EventModel>::empty(), EventModel::Other);
    lemma_run_push(pg, Seq::<EventModel>::empty().push(EventModel::Other), EventModel::Close("url"@));
    lemma_run_concat(p, a + b + c + d + g, f);
    assert(url_events(u) == a + b + c + d + g + f);
    let closed = close_url(pg);
    assert(closed.entries == e.push(u));
    assert(closed.open.drop_last() =~= seq!["urlset"@]);
}

proof fn lemma_entries(e: Seq<UrlModel>, s: Seq<UrlModel>)
    requires
        forall|i: int| 0 <= i < s.len() ==> readable(#[trigger] s[i]),
    ensures
        run_from(at_urlset(e), entries_events(s)) == at_urlset(e + s),
    decreases s.len(),
{
    if s.len() == 0 {
        assert(e + s =~= e);
    } else {
        lemma_entries(e, s.drop_last());
        lemma_run_concat(at_urlset(e), entries_events(s.drop_last()), url_events(s.last()));
        lemma_url(e + s.drop_last(), s.last());
        assert((e + s.drop_last()).push(s.last()) =~= e + s);
    }
}

/// Reading what a reader reports for the document of a list gives the list
/// back, entry for entry and in order, and meets no error: the fields are
/// written escaped and decoded on reading. Only text that is not blank is
/// reported by a reader, so every field holds some.
pub proof fn document_reads_back(s: Seq<UrlModel>)
    requires
        forall|i: int| 0 <= i < s.len() ==> readable(#[trigger] s[i]),
    ensures
        progress(document_events(s)).entries == s,
        progress(document_events(s)).fault is None,
{
    lemma_names_differ();
    let a = seq![EventModel::Other, EventModel::Open("urlset"@)];
    let f = seq![EventModel::Other, EventModel::Close("urlset"@), EventModel::Other];
    assert(a =~= Seq::<EventModel>::empty().push(EventModel::Other).push(EventModel::Open("urlset"@)));
    lemma_run_push(start(), Seq::<EventModel>::empty(), EventModel::Other);
    lemma_run_push(start(), Seq::<EventModel>::empty().push(EventModel::Other), EventModel::Open("urlset"@));
    assert(run_from(start(), a) == at_urlset(Seq::empty())) by {
        assert(Seq::<Seq<char>>::empty().push("urlset"@) =~= seq!["urlset"@]);
    }
    lemma_entries(Seq::empty(), s);
    assert(Seq::<UrlModel>::empty() + s =~= s);
    lemma_run_concat(start(), a, entries_events(s));
    let q = at_urlset(s);
    let f1 = Seq::<EventModel>::empty().push(EventModel::Other);
    let f2 = f1.push(EventModel::Close("urlset"@));
    assert(f =~= f2.push(EventModel::Other));
    lemma_run_push(q, Seq::<EventModel>::empty(), EventModel::Other);
    lemma_run_push(q, f1, EventModel::Close("urlset"@));
    lemma_run_push(q, f2, EventModel::Other);
    lemma_run_concat(start(), a + entries_events(s), f);
}

} // verus!
