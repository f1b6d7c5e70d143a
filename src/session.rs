//! One invocation of the tool, from its options and the current file
//! contents to the document that replaces them.

use vstd::prelude::*;

use crate::entry::{models, Url, UrlModel};
use crate::path::{file_to_url, url_of_file};
use crate::reader::{load, progress, xml_events_of};
use crate::sitemap::{add_url, added, document, remove_url, removed, serialize};
use crate::text::opt_view;

verus! {

/// What an invocation asks for.
pub struct Options {
    /// Start from an empty sitemap, whatever the file holds.
    pub clean: bool,
    /// The location to add, or the file path to convert into one.
    pub add: Option<String>,
    pub lastmod: Option<String>,
    pub changefreq: Option<String>,
    pub priority: Option<String>,
    /// The exact location to remove.
    pub remove: Option<String>,
    /// Treat `add` as a file path under `old_root`, published under `root`.
    pub to_url: bool,
    pub root: Option<String>,
    pub old_root: Option<String>,
    /// Drop a final `index.*` component when converting.
    pub clean_url: bool,
}

/// Options that cannot be acted on.
#[derive(Debug, Clone, Copy, PartialEq, Eq)]
pub enum OptionError {
    /// A path is to be converted but no root was given.
    MissingRoot,
}

/// The outcome of an invocation: the document to write, and the reader's
/// error where the existing file was malformed.
pub struct Update {
    pub document: String,
    pub fault: Option<String>,
}

pub open spec fn opt_bytes(d: Option<&[u8]>) -> Option<Seq<u8>> {
    match d {
        Some(b) => Some(b@),
        None => None,
    }
}

/// Whether the options can be acted on.
pub open spec fn options_valid(o: Options) -> bool {
    !(o.to_url && o.root is None)
}

/// The entries an invocation starts from: none in clean mode or where there
/// is no file, else those read from the file.
pub open spec fn start_entries(clean: bool, existing: Option<Seq<u8>>) -> Seq<UrlModel> {
    if clean {
        Seq::empty()
    } else {
        match existing {
            Some(d) => progress(xml_events_of(d)).entries,
            None => Seq::empty(),
        }
    }
}

pub open spec fn start_fault(clean: bool, existing: Option<Seq<u8>>) -> Option<Seq<char>> {
    if clean {
        None
    } else {
        match existing {
            Some(d) => progress(xml_events_of(d)).fault,
            None => None,
        }
    }
}

/// The entry that the options add, if any.
pub open spec fn new_entry(o: Options) -> Option<UrlModel> {
    match o.add {
        Some(a) => Some(
            UrlModel {
                loc: if o.to_url {
                    url_of_file(a@, o.root.unwrap()@, opt_view(o.old_root), o.clean_url)
                } else {
                    a@
                },
                lastmod: opt_view(o.lastmod),
                changefreq: opt_view(o.changefreq),
                priority: opt_view(o.priority),
            },
        ),
        None => None,
    }
}

/// The entries after the options' removal, then their addition.
pub open spec fn edited(o: Options, s: Seq<UrlModel>) -> Seq<UrlModel> {
    let r = match o.remove {
        Some(l) => removed(s, l@),
        None => s,
    };
    match new_entry(o) {
        Some(u) => added(r, u),
        None => r,
    }
}

fn clone_opt(o: &Option<String>) -> (r: Option<String>)
    ensures
        r == *o,
{
    match o {
        Some(s) => Some(s.clone()),
        None => None,
    }
}

impl Options {
    /// Refuses a conversion to a URL that has no root.
    pub fn check(&self) -> (r: Result<(), OptionError>)
        ensures
            r is Ok <==> options_valid(*self),
            r is Err ==> r == Err::<(), OptionError>(OptionError::MissingRoot),
    {
        if self.to_url && self.root.is_none() {
            Err(OptionError::MissingRoot)
        } else {
            Ok(())
        }
    }

    /// The entry to add, with the location converted where asked.
    pub fn entry(&self) -> (r: Option<Url>)
        requires
            options_valid(*self),
        ensures
            match r {
                Some(u) => new_entry(*self) == Some(u@),
                None => new_entry(*self) is None,
            },
    {
        match &self.add {
            Some(a) => {
                let loc = if self.to_url {
                    match &self.root {
                        Some(root) => file_to_url(a, root.clone(), clone_opt(&self.old_root), self.clean_url),
                        None => a.clone(),
                    }
                } else {
                    a.clone()
                };
                let mut u = Url::new(loc);
                u.lastmod = clone_opt(&self.lastmod);
                u.changefreq = clone_opt(&self.changefreq);
                u.priority = clone_opt(&self.priority);
                Some(u)
            },
            None => None,
        }
    }
}

/// Applies the options to the sitemap whose file holds `existing` (`None`
/// where there is no file): the existing entries are read unless in clean
/// mode, the removal is applied before the addition, and the result is
/// serialized.
pub fn update(opts: &Options, existing: Option<&[u8]>) -> (r: Result<Update, OptionError>)
    ensures
        r is Err <==> !options_valid(*opts),
        r is Err ==> r == Err::<Update, OptionError>(OptionError::MissingRoot),
        r matches Ok(u) ==> u.document@ == document(
            edited(*opts, start_entries(opts.clean, opt_bytes(existing))),
        ) && opt_view(u.fault) == start_fault(opts.clean, opt_bytes(existing)),
{
    match opts.check() {
        Err(e) => {
            return Err(e);
        },
        Ok(()) => {},
    }
    let mut urls: Vec<Url> = Vec::new();
    let mut fault: Option<String> = None;
    if !opts.clean {
        match existing {
            Some(doc) => {
                let loaded = load(doc);
                urls = loaded.entries;
                fault = loaded.fault;
            },
            None => {},
        }
    }
    assert(models(urls@) == start_entries(opts.clean, opt_bytes(existing))) by {
        if opts.clean || existing is None {
            assert(models(urls@) =~= Seq::<UrlModel>::empty());
        }
    }
    match &opts.remove {
        Some(l) => remove_url(&mut urls, l),
        None => {},
    }
    match opts.entry() {
        Some(u) => add_url(&mut urls, u),
        None => {},
    }
    Ok(Update { document: serialize(&urls), fault })
}

} // verus!
