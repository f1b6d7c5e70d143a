use onsite::entry::Url;
use onsite::path::file_to_url;
use onsite::reader::{load, read_entries, Event};
use onsite::session::{update, OptionError, Options};
use onsite::sitemap::{add_url, remove_url, serialize};
use onsite::text::escape;

const HEADER: &str = "<?xml version=\"1.0\" encoding=\"UTF-8\"?>\n<urlset xmlns=\"http://www.sitemaps.org/schemas/sitemap/0.9\">\n";

fn s(t: &str) -> String {
    t.to_string()
}

fn entry(loc: &str, lastmod: Option<&str>, changefreq: Option<&str>, priority: Option<&str>) -> Url {
    Url {
        loc: s(loc),
        lastmod: lastmod.map(s),
        changefreq: changefreq.map(s),
        priority: priority.map(s),
    }
}

fn no_options() -> Options {
    Options {
        clean: false,
        add: None,
        lastmod: None,
        changefreq: None,
        priority: None,
        remove: None,
        to_url: false,
        root: None,
        old_root: None,
        clean_url: false,
    }
}

#[test]
fn convert_clean_drops_index() {
    let r = file_to_url(&s("docs/index.html"), s("https://ex.com/"), None, true);
    assert_eq!(r, "https://ex.com/docs");
}

#[test]
fn convert_without_clean_keeps_index() {
    let r = file_to_url(&s("docs/index.html"), s("https://ex.com/"), None, false);
    assert_eq!(r, "https://ex.com/docs/index.html");
}

#[test]
fn convert_strips_old_root() {
    let r = file_to_url(&s("/build/out/page.html"), s("https://ex.com/"), Some(s("/build/out")), false);
    assert_eq!(r, "https://ex.com/page.html");
}

#[test]
fn convert_keeps_path_when_old_root_does_not_match() {
    let r = file_to_url(&s("site/a.html"), s("https://ex.com/"), Some(s("/build")), false);
    assert_eq!(r, "https://ex.com/site/a.html");
}

#[test]
fn convert_old_root_only_on_component_boundary() {
    let r = file_to_url(&s("/build/outer/a.html"), s("https://ex.com"), Some(s("/build/out")), false);
    assert_eq!(r, "https://ex.com/build/outer/a.html");
}

#[test]
fn convert_adds_separator_after_root() {
    let r = file_to_url(&s("a/b.html"), s("https://ex.com"), None, false);
    assert_eq!(r, "https://ex.com/a/b.html");
}

#[test]
fn convert_clean_top_level_index_gives_root() {
    let r = file_to_url(&s("index.htm"), s("https://ex.com/"), None, true);
    assert_eq!(r, "https://ex.com/");
}

#[test]
fn convert_clean_keeps_other_names() {
    let r = file_to_url(&s("a/b/indexes.html"), s("https://ex.com/"), None, true);
    assert_eq!(r, "https://ex.com/a/b/indexes.html");
    let r = file_to_url(&s("a/b/index"), s("https://ex.com/"), None, true);
    assert_eq!(r, "https://ex.com/a/b");
}

#[test]
fn escape_replaces_the_five_characters() {
    assert_eq!(escape(&s("a&b\"c'd<e>f")), "a&amp;b&quot;c&apos;d&lt;e&gt;f");
    assert_eq!(escape(&s("&amp;")), "&amp;amp;");
    assert_eq!(escape(&s("")), "");
    assert_eq!(escape(&s("plain é")), "plain é");
}

#[test]
fn url_block_lists_fields_in_order() {
    let u = entry("https://x/a?b&c", Some("2024-01-02"), Some("daily"), Some("0.5"));
    assert_eq!(
        u.to_string(),
        "    <url>\n        <loc>https://x/a?b&amp;c</loc>\n        <lastmod>2024-01-02</lastmod>\n        <changefreq>daily</changefreq>\n        <priority>0.5</priority>\n    </url>\n"
    );
    let v = Url::new(s("https://x/"));
    assert_eq!(v.to_string(), "    <url>\n        <loc>https://x/</loc>\n    </url>\n");
}

#[test]
fn serialize_empty_list_is_minimal_document() {
    let doc = serialize(&Vec::new());
    assert_eq!(doc, format!("{}</urlset>\n", HEADER));
}

#[test]
fn serialize_then_load_round_trips() {
    let urls = vec![
        entry("https://ex.com/", Some("2024-05-01"), Some("weekly"), Some("1.0")),
        entry("https://ex.com/b", None, Some("never"), None),
        entry("https://ex.com/c", Some("2023"), None, Some("0.1")),
    ];
    let doc = serialize(&urls);
    let loaded = load(doc.as_bytes());
    assert!(loaded.fault.is_none());
    assert_eq!(loaded.entries, urls);
}

#[test]
fn escaped_location_loads_back_unescaped() {
    let urls = vec![Url::new(s("a&b\"c'd<e>f"))];
    let doc = serialize(&urls);
    assert!(doc.contains("<loc>a&amp;b&quot;c&apos;d&lt;e&gt;f</loc>"));
    let loaded = load(doc.as_bytes());
    assert_eq!(loaded.entries.len(), 1);
    assert_eq!(loaded.entries[0].loc, "a&b\"c'd<e>f");
}

#[test]
fn load_decodes_entities() {
    let doc = "<urlset><url><loc>https://x/?a=1&amp;b=2</loc></url></urlset>";
    let loaded = load(doc.as_bytes());
    assert_eq!(loaded.entries, vec![Url::new(s("https://x/?a=1&b=2"))]);
}

#[test]
fn add_twice_keeps_first_entry() {
    let mut urls = Vec::new();
    add_url(&mut urls, entry("https://x/y", Some("first"), None, None));
    add_url(&mut urls, entry("https://x/y", Some("second"), Some("daily"), None));
    assert_eq!(urls, vec![entry("https://x/y", Some("first"), None, None)]);
}

#[test]
fn add_appends_new_location() {
    let mut urls = vec![Url::new(s("https://x/a"))];
    add_url(&mut urls, Url::new(s("https://x/b")));
    assert_eq!(urls, vec![Url::new(s("https://x/a")), Url::new(s("https://x/b"))]);
}

#[test]
fn remove_takes_first_match_only() {
    let mut urls = vec![
        entry("https://x/a", Some("1"), None, None),
        entry("https://x/b", None, None, None),
        entry("https://x/a", Some("2"), None, None),
    ];
    remove_url(&mut urls, &s("https://x/a"));
    assert_eq!(urls, vec![entry("https://x/b", None, None, None), entry("https://x/a", Some("2"), None, None)]);
    remove_url(&mut urls, &s("https://x/zzz"));
    assert_eq!(urls.len(), 2);
    remove_url(&mut urls, &s("https://x/B"));
    assert_eq!(urls.len(), 2);
}

#[test]
fn remove_then_add_same_location_replaces_attributes() {
    let existing = serialize(&vec![entry("https://x/y", Some("old"), Some("daily"), None)]);
    let mut opts = no_options();
    opts.remove = Some(s("https://x/y"));
    opts.add = Some(s("https://x/y"));
    opts.lastmod = Some(s("new"));
    let out = update(&opts, Some(existing.as_bytes())).unwrap();
    let expected = serialize(&vec![entry("https://x/y", Some("new"), None, None)]);
    assert_eq!(out.document, expected);
    assert!(out.fault.is_none());
}

#[test]
fn missing_file_gives_empty_document() {
    let out = update(&no_options(), None).unwrap();
    assert_eq!(out.document, format!("{}</urlset>\n", HEADER));
    assert!(out.fault.is_none());
}

#[test]
fn clean_discards_existing_entries() {
    let existing = serialize(&vec![Url::new(s("https://x/a")), Url::new(s("https://x/b"))]);
    let mut opts = no_options();
    opts.clean = true;
    let out = update(&opts, Some(existing.as_bytes())).unwrap();
    assert_eq!(out.document, format!("{}</urlset>\n", HEADER));
    let out = update(&opts, Some(b"not xml at all <<<".as_slice())).unwrap();
    assert_eq!(out.document, format!("{}</urlset>\n", HEADER));
    assert!(out.fault.is_none());
}

#[test]
fn malformed_tail_keeps_complete_entries() {
    let doc = "<?xml version=\"1.0\"?>\n<urlset>\n<url><loc>https://x/a</loc><priority>0.3</priority></url>\n<url><loc>https://x/b</loc";
    let loaded = load(doc.as_bytes());
    assert_eq!(loaded.entries, vec![entry("https://x/a", None, None, Some("0.3"))]);
    assert!(loaded.fault.is_some());
}

#[test]
fn url_without_location_is_dropped() {
    let doc = "<urlset><url><lastmod>x</lastmod></url><url><loc>https://x/a</loc></url></urlset>";
    let loaded = load(doc.as_bytes());
    assert_eq!(loaded.entries, vec![Url::new(s("https://x/a"))]);
}

#[test]
fn text_outside_fields_is_ignored() {
    let doc = "<urlset><url><loc>https://x/a</loc><image><title>pic</title></image>note</url></urlset>";
    let loaded = load(doc.as_bytes());
    assert_eq!(loaded.entries, vec![Url::new(s("https://x/a"))]);
}

#[test]
fn duplicate_locations_survive_loading() {
    let doc = "<urlset><url><loc>a</loc></url><url><loc>a</loc></url></urlset>";
    let loaded = load(doc.as_bytes());
    assert_eq!(loaded.entries.len(), 2);
}

#[test]
fn read_entries_folds_events() {
    let events = vec![
        Event::Open(s("urlset")),
        Event::Open(s("url")),
        Event::Open(s("loc")),
        Event::Text(s("https://x/a")),
        Event::Close(s("loc")),
        Event::Open(s("changefreq")),
        Event::Text(s("hourly")),
        Event::Close(s("changefreq")),
        Event::Close(s("url")),
        Event::Fault(s("broken")),
        Event::Open(s("url")),
        Event::Open(s("loc")),
        Event::Text(s("https://x/b")),
        Event::Close(s("loc")),
        Event::Close(s("url")),
    ];
    let r = read_entries(&events);
    assert_eq!(r.entries, vec![entry("https://x/a", None, Some("hourly"), None)]);
    assert_eq!(r.fault, Some(s("broken")));
}

#[test]
fn to_url_without_root_is_refused() {
    let mut opts = no_options();
    opts.add = Some(s("docs/index.html"));
    opts.to_url = true;
    assert!(matches!(update(&opts, None), Err(OptionError::MissingRoot)));
    assert_eq!(opts.check(), Err(OptionError::MissingRoot));
}

#[test]
fn to_url_adds_converted_location() {
    let mut opts = no_options();
    opts.add = Some(s("/build/out/docs/index.html"));
    opts.to_url = true;
    opts.root = Some(s("https://ex.com/"));
    opts.old_root = Some(s("/build/out"));
    opts.clean_url = true;
    opts.priority = Some(s("0.8"));
    let out = update(&opts, None).unwrap();
    let expected = serialize(&vec![entry("https://ex.com/docs", None, None, Some("0.8"))]);
    assert_eq!(out.document, expected);
}
