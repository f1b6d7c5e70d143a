//! Reading a sitemap: the XML reader's events are folded into entries.

use vstd::prelude::*;

use crate::entry::{models, Url, UrlModel};
use crate::text::opt_view;

verus! {

/// One event of an XML reader, reduced to what a sitemap needs: element
/// names are local names, and text is already decoded.
pub enum Event {
    Open(String),
    Close(String),
    Text(String),
    Other,
    Fault(String),
}

pub enum EventModel {
    Open(Seq<char>),
    Close(Seq<char>),
    Text(Seq<char>),
    Other,
    Fault(Seq<char>),
}

impl View for Event {
    type V = EventModel;

    open spec fn view(&self) -> EventModel {
        match self {
            Event::Open(n) => EventModel::Open(n@),
            Event::Close(n) => EventModel::Close(n@),
            Event::Text(t) => EventModel::Text(t@),
            Event::Other => EventModel::Other,
            Event::Fault(m) => EventModel::Fault(m@),
        }
    }
}

pub open spec fn event_models(evs: Seq<Event>) -> Seq<EventModel> {
    evs.map_values(|e: Event| e@)
}

/// The events that xml-rs reports for the document `doc`, up to and
/// including the first error.
pub uninterp spec fn xml_events_of(doc: Seq<u8>) -> Seq<EventModel>;

/// Relies on xml-rs's `EventReader` with its default configuration: the
/// events it yields for a document depend on the document's bytes alone.
/// Each is converted one for one; the reader stops after an error.
#[verifier::external_body]
fn read_events(doc: &[u8]) -> (r: Vec<Event>)
    ensures
        event_models(r@) == xml_events_of(doc@),
{
    let mut out = Vec::new();
    for e in xml::reader::EventReader::new(doc) {
        out.push(match e {
            Ok(xml::reader::XmlEvent::StartElement { name, .. }) => Event::Open(name.local_name),
            Ok(xml::reader::XmlEvent::EndElement { name }) => Event::Close(name.local_name),
            Ok(xml::reader::XmlEvent::Characters(data)) => Event::Text(data),
            Ok(_) => Event::Other,
            Err(err) => Event::Fault(err.to_string()),
        });
    }
    out
}

/// Where a reading stands: the names of the open elements, the fields
/// seen in the current `url`, the entries assembled, and the error that
/// stopped the reading, if any.
pub struct Progress {
    pub open: Seq<Seq<char>>,
    pub loc: Option<Seq<char>>,
    pub lastmod: Option<Seq<char>>,
    pub changefreq: Option<Seq<char>>,
    pub priority: Option<Seq<char>>,
    pub entries: Seq<UrlModel>,
    pub fault: Option<Seq<char>>,
}

pub open spec fn start() -> Progress {
    Progress {
        open: Seq::empty(),
        loc: None,
        lastmod: None,
        changefreq: None,
        priority: None,
        entries: Seq::empty(),
        fault: None,
    }
}

/// Closing a `url`: an entry is assembled when a location was seen, and the
/// fields start over either way.
pub open spec fn close_url(p: Progress) -> Progress {
    Progress {
        loc: None,
        lastmod: None,
        changefreq: None,
        priority: None,
        entries: match p.loc {
            Some(l) => p.entries.push(
                UrlModel {
                    loc: l,
                    lastmod: p.lastmod,
                    changefreq: p.changefreq,
                    priority: p.priority,
                },
            ),
            None => p.entries,
        },
        ..p
    }
}

/// Text is kept only where the innermost open element is one of the fields.
pub open spec fn take_text(p: Progress, t: Seq<char>) -> Progress {
    if p.open.len() == 0 {
        p
    } else {
        let top = p.open.last();
        if top == "loc"@ {
            Progress { loc: Some(t), ..p }
        } else if top == "lastmod"@ {
            Progress { lastmod: Some(t), ..p }
        } else if top == "changefreq"@ {
            Progress { changefreq: Some(t), ..p }
        } else if top == "priority"@ {
            Progress { priority: Some(t), ..p }
        } else {
            p
        }
    }
}

/// The effect of one event. Nothing changes once an error was met.
pub open spec fn step(p: Progress, e: EventModel) -> Progress {
    if p.fault is Some {
        p
    } else {
        match e {
            EventModel::Open(n) => Progress { open: p.open.push(n), ..p },
            EventModel::Close(n) => {
                let q = if n == "url"@ {
                    close_url(p)
                } else {
                    p
                };
                Progress {
                    open: if q.open.len() > 0 {
                        q.open.drop_last()
                    } else {
                        q.open
                    },
                    ..q
                }
            },
            EventModel::Text(t) => take_text(p, t),
            EventModel::Other => p,
            EventModel::Fault(m) => Progress { fault: Some(m), ..p },
        }
    }
}

/// Where a reading that stood at `p` stands after the events `evs`.
pub open spec fn run_from(p: Progress, evs: Seq<EventModel>) -> Progress
    decreases evs.len(),
{
    if evs.len() == 0 {
        p
    } else {
        step(run_from(p, evs.drop_last()), evs.last())
    }
}

/// Where a reading stands after the events `evs`.
pub open spec fn progress(evs: Seq<EventModel>) -> Progress {
    run_from(start(), evs)
}

/// What a reading yields: the entries in document order, and the reader's
/// error message where the document was malformed.
pub struct Loaded {
    pub entries: Vec<Url>,
    pub fault: Option<String>,
}

struct Reading {
    open: Vec<String>,
    loc: Option<String>,
    lastmod: Option<String>,
    changefreq: Option<String>,
    priority: Option<String>,
    urls: Vec<Url>,
    fault: Option<String>,
}

impl View for Reading {
    type V = Progress;

    closed spec fn view(&self) -> Progress {
        Progress {
            open: self.open@.map_values(|s: String| s@),
            loc: opt_view(self.loc),
            lastmod: opt_view(self.lastmod),
            changefreq: opt_view(self.changefreq),
            priority: opt_view(self.priority),
            entries: models(self.urls@),
            fault: opt_view(self.fault),
        }
    }
}

impl Reading {
    fn close_url(&mut self)
        ensures
            final(self)@ == close_url(old(self)@),
            final(self).open@ == old(self).open@,
            final(self).fault == old(self).fault,
    {
        let loc = self.loc.take();
        let lastmod = self.lastmod.take();
        let changefreq = self.changefreq.take();
        let priority = self.priority.take();
        match loc {
            Some(l) => {
                let u = Url { loc: l, lastmod, changefreq, priority };
                self.urls.push(u);
                assert(models(self.urls@) =~= models(old(self).urls@).push(u@));
            },
            None => {},
        }
    }

    fn take_text(&mut self, t: &String)
        ensures
            final(self)@ == take_text(old(self)@, t@),
    {
        let k = self.open.len();
        if k > 0 {
            let top = &self.open[k - 1];
            assert(old(self)@.open.last() == top@);
            if *top == String::from_str("loc") {
                self.loc = Some(t.clone());
            } else if *top == String::from_str("lastmod") {
                self.lastmod = Some(t.clone());
            } else if *top == String::from_str("changefreq") {
                self.changefreq = Some(t.clone());
            } else if *top == String::from_str("priority") {
                self.priority = Some(t.clone());
            }
        }
    }

    fn feed(&mut self, e: &Event)
        ensures
            final(self)@ == step(old(self)@, e@),
    {
        if self.fault.is_some() {
            return;
        }
        match e {
            Event::Open(n) => {
                self.open.push(n.clone());
                assert(self@.open =~= old(self)@.open.push(n@));
            },
            Event::Close(n) => {
                if *n == String::from_str("url") {
                    self.close_url();
                }
                let ghost before = self.open@;
                self.open.pop();
                assert(before.len() > 0 ==> self@.open =~= before.map_values(|s: String| s@).drop_last());
            },
            Event::Text(t) => self.take_text(t),
            Event::Other => {},
            Event::Fault(m) => {
                self.fault = Some(m.clone());
            },
        }
    }
}

/// Folds the events of a document into its entries: text inside `loc`,
/// `lastmod`, `changefreq` and `priority` fills the current entry, which is
/// kept at the end of its `url` if it has a location. Entries that share a
/// location are all kept. An error ends the reading and keeps what was
/// assembled before it.
pub fn read_entries(events: &Vec<Event>) -> (r: Loaded)
    ensures
        models(r.entries@) == progress(event_models(events@)).entries,
        opt_view(r.fault) == progress(event_models(events@)).fault,
{
    let mut st = Reading {
        open: Vec::new(),
        loc: None,
        lastmod: None,
        changefreq: None,
        priority: None,
        urls: Vec::new(),
        fault: None,
    };
    assert(st@.open =~= Seq::<Seq<char>>::empty());
    assert(st@.entries =~= Seq::<UrlModel>::empty());
    assert(event_models(events@).subrange(0, 0) =~= Seq::<EventModel>::empty());
    let mut i: usize = 0;
    while i < events.len()
        invariant
            i <= events@.len(),
            st@ == progress(event_models(events@).subrange(0, i as int)),
        decreases events@.len() - i,
    {
        st.feed(&events[i]);
        assert(event_models(events@).subrange(0, i + 1).drop_last() =~= event_models(
            events@,
        ).subrange(0, i as int));
        i = i + 1;
    }
    assert(event_models(events@).subrange(0, events@.len() as int) =~= event_models(events@));
    Loaded { entries: st.urls, fault: st.fault }
}

/// Reads the entries of the sitemap document `doc`.
pub fn load(doc: &[u8]) -> (r: Loaded)
    ensures
        models(r.entries@) == progress(xml_events_of(doc@)).entries,
        opt_view(r.fault) == progress(xml_events_of(doc@)).fault,
{
    let events = read_events(doc);
    read_entries(&events)
}

} // verus!
