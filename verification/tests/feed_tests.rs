use siterender::feed::{feed_mtime_hrefs, write_feed};
use siterender::model::{Config, Date, Index, IndexEntry, IndexTyp, Stamp};

fn test_config() -> Config {
    Config {
        stylesheet: String::from("s.css"),
        blog_name: String::from("Blog"),
        id: String::from("https://example.org/blog"),
        author: String::from("Ann"),
        x_head: String::new(),
        x_body_ph1: String::new(),
        x_nav: String::new(),
        web_root_url: String::from("https://example.org"),
    }
}

fn ent(y: u16, m: u8, d: u8, href: &str, title: &str) -> IndexEntry {
    IndexEntry {
        cdate: Date { year: y, month: m, day: d },
        href: String::from(href),
        title: String::from(title),
        author: String::new(),
        authors: vec![String::from("Ann")],
    }
}

fn noon(y: u16, m: u8, d: u8) -> Stamp {
    Stamp { year: y, month: m, day: d, hour: 12, minute: 0, second: 0 }
}

fn dir_index(ents: Vec<IndexEntry>) -> Index {
    Index { typ: IndexTyp::Directory, oidxrefs: Vec::new(), ents }
}

fn xml_string(config: &Config, data: &Index, now: Stamp, mtimes: Vec<Option<Stamp>>) -> String {
    let fr = write_feed(config, data, &now, &mtimes);
    assert_eq!(fr.path, "feed.atom");
    String::from_utf8(fr.xml).expect("feed is valid UTF-8")
}

#[test]
fn absolute_href_resolves_id_against_web_root() {
    // href starting with `/blog/post`: id is the web-root URL plus the href
    // verbatim, updated is the creation date at midnight, whatever the
    // filesystem holds
    let config = test_config();
    let data = dir_index(vec![ent(2024, 3, 5, "/blog/post", "P")]);
    let xml = xml_string(&config, &data, noon(2026, 1, 1), vec![None]);
    assert!(xml.contains("<id>https://example.org/blog/post</id>"));
    assert!(xml.contains("<updated>2024-03-05T00:00:00+00:00</updated>"));
}

#[test]
fn scheme_href_kept_verbatim() {
    let config = test_config();
    let data = dir_index(vec![ent(2024, 3, 5, "https://other.example/x", "P")]);
    let xml = xml_string(&config, &data, noon(2026, 1, 1), vec![None]);
    assert!(xml.contains("<id>https://other.example/x</id>"));
    assert!(xml.contains("<updated>2024-03-05T00:00:00+00:00</updated>"));
}

#[test]
fn missing_mtime_falls_back_to_creation_date() {
    // relative-link entry whose target file is absent: the entry is still
    // produced and its update time is the creation date at midnight
    let config = test_config();
    let data = dir_index(vec![ent(2024, 1, 2, "post.html", "P")]);
    let xml = xml_string(&config, &data, noon(2026, 1, 1), vec![None]);
    assert!(xml.contains("<id>https://example.org/blog/post.html</id>"));
    assert!(xml.contains("<updated>2024-01-02T00:00:00+00:00</updated>"));
}

#[test]
fn present_mtime_used_for_relative_href() {
    let config = test_config();
    let data = dir_index(vec![ent(2024, 1, 2, "post.html", "P")]);
    let mtime = Stamp { year: 2025, month: 6, day: 7, hour: 8, minute: 9, second: 10 };
    let xml = xml_string(&config, &data, noon(2026, 1, 1), vec![Some(mtime)]);
    assert!(xml.contains("<updated>2025-06-07T08:09:10+00:00</updated>"));
}

#[test]
fn feed_metadata_present() {
    let config = test_config();
    let data = dir_index(vec![ent(2024, 1, 2, "post.html", "P")]);
    let xml = xml_string(&config, &data, noon(2026, 5, 4), vec![None]);
    assert!(xml.contains("<title>Blog</title>"));
    assert!(xml.contains("<id>https://example.org/blog</id>"));
    assert!(xml.contains("<updated>2026-05-04T12:00:00+00:00</updated>"));
    assert!(xml.contains("https://example.org/blog/feed.atom"));
    assert!(xml.contains("<name>Ann</name>"));
}

#[test]
fn feed_limited_to_twenty_newest_first() {
    let config = test_config();
    let mut ents = Vec::new();
    for i in 0..25u16 {
        ents.push(ent(2024, 1, (i + 1) as u8, &format!("p{}.html", i), &format!("t{}", i)));
    }
    let data = dir_index(ents);
    let mtimes: Vec<Option<Stamp>> = (0..20).map(|_| None).collect();
    let xml = xml_string(&config, &data, noon(2026, 1, 1), mtimes);
    assert_eq!(xml.matches("<entry>").count(), 20);
    // the newest entry (t24) comes first, the 20th-newest (t5) last
    assert!(xml.contains("<title>t24</title>"));
    assert!(xml.contains("<title>t5</title>"));
    assert!(!xml.contains("<title>t4</title>"));
    let pos24 = xml.find("<title>t24</title>").unwrap();
    let pos5 = xml.find("<title>t5</title>").unwrap();
    assert!(pos24 < pos5);
}

#[test]
fn title_needing_escape_wrapped_in_cdata() {
    let config = test_config();
    let data = dir_index(vec![ent(2024, 1, 2, "post.html", "a<b")]);
    let xml = xml_string(&config, &data, noon(2026, 1, 1), vec![None]);
    // the CDATA wrapper this crate builds is serialized as escaped text by
    // the feed library
    assert!(xml.contains("&lt;![CDATA[ a&lt;b ]]&gt;"));
}

#[test]
fn plain_title_used_verbatim() {
    let config = test_config();
    let data = dir_index(vec![ent(2024, 1, 2, "post.html", "plain title")]);
    let xml = xml_string(&config, &data, noon(2026, 1, 1), vec![None]);
    assert!(xml.contains("<title>plain title</title>"));
}

#[test]
fn mtime_hrefs_mark_relative_entries() {
    let data = dir_index(vec![
        ent(2024, 1, 1, "old.html", "Old"),
        ent(2024, 1, 2, "/abs", "Abs"),
        ent(2024, 1, 3, "new.html", "New"),
    ]);
    let hrefs = feed_mtime_hrefs(&data);
    assert_eq!(hrefs.len(), 3);
    // newest first: relative, absolute, relative
    assert_eq!(hrefs[0].as_deref(), Some("new.html"));
    assert_eq!(hrefs[1], None);
    assert_eq!(hrefs[2].as_deref(), Some("old.html"));
}

#[test]
fn write_feed_produces_feed_file() {
    let config = test_config();
    let data = dir_index(vec![ent(2024, 1, 2, "/p", "P")]);
    let fr = write_feed(&config, &data, &noon(2026, 1, 1), &vec![None]);
    assert_eq!(fr.path, "feed.atom");
    let xml = String::from_utf8(fr.xml).expect("feed is valid UTF-8");
    assert!(xml.contains("<id>https://example.org/p</id>"));
}
