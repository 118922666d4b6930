use siterender::index_page::write_index;
use siterender::model::{Config, Date, Index, IndexEntry, IndexRef, IndexTyp};

fn test_config() -> Config {
    Config {
        stylesheet: String::from("s.css"),
        blog_name: String::from("Blog"),
        id: String::from("https://example.org/blog"),
        author: String::from("Ann"),
        x_head: String::new(),
        x_body_ph1: String::new(),
        x_nav: String::new(),
        web_root_url: String::from("https://example.org"),
    }
}

fn ent(y: u16, m: u8, d: u8, href: &str, title: &str) -> IndexEntry {
    IndexEntry {
        cdate: Date { year: y, month: m, day: d },
        href: String::from(href),
        title: String::from(title),
        author: String::new(),
        authors: Vec::new(),
    }
}

#[test]
fn root_index_scenario() {
    // root directory index: no breadcrumb, Atom link advertised, dated
    // entries newest first
    let config = test_config();
    let data = Index {
        typ: IndexTyp::Directory,
        oidxrefs: Vec::new(),
        ents: vec![ent(2024, 1, 1, "a.html", "A"), ent(2024, 2, 1, "b.html", "B")],
    };
    let r = write_index(&config, "", &data);
    assert_eq!(r.path, "index.html");
    assert!(r.doc.contains(
        "    <link rel=\"alternate\" type=\"application/atom+xml\" title=\"Atom feed\" href=\"feed.atom\" />\n"
    ));
    assert!(!r.doc.contains("Ordner: "));
    assert!(!r.doc.contains("&mdash;"));
    assert!(r.doc.contains("<title>Blog</title>"));
    assert!(r.doc.contains(
        "01.02.2024: <a href=\"b.html\">B</a><br />\n01.01.2024: <a href=\"a.html\">A</a><br />\n"
    ));
}

#[test]
fn tag_index_full_document() {
    let config = test_config();
    let data = Index {
        typ: IndexTyp::Tag,
        oidxrefs: vec![IndexRef { name: String::from("r&d"), typ: IndexTyp::Tag }],
        ents: vec![IndexEntry {
            cdate: Date { year: 2024, month: 1, day: 1 },
            href: String::from("x.html"),
            title: String::from("X"),
            author: String::from("Ann"),
            authors: vec![String::from("Ann")],
        }],
    };
    let r = write_index(&config, "rust", &data);
    assert_eq!(r.path, "rust.html");
    let expected = "<!doctype html>\n<html lang=\"de\" dir=\"ltr\">\n  <head>\n    <meta charset=\"utf-8\" />\n    <meta name=\"viewport\" content=\"width=device-width, initial-scale=1.0\" />\n    <link rel=\"stylesheet\" href=\"s.css\" type=\"text/css\" />\n\n    <title>Tag: rust &mdash; Blog</title>\n  </head>\n  <body>\n    <h1>Tag: rust &mdash; Blog</h1>\n\n<tt>\n<a href=\"index.html\">[Hauptseite]</a><br />\n<a href=\"r&amp;d.html\">r&d</a><br />\n01.01.2024: <a href=\"x.html\">X</a> <span class=\"authorspec\">by Ann</span><br />\n</tt>\n  </body>\n</html>\n";
    assert_eq!(r.doc, expected);
}

#[test]
fn ampersand_escaped_once_in_href_only() {
    let config = test_config();
    let data = Index {
        typ: IndexTyp::Directory,
        oidxrefs: vec![IndexRef { name: String::from("a&b"), typ: IndexTyp::Directory }],
        ents: Vec::new(),
    };
    let r = write_index(&config, "sub", &data);
    assert!(r.doc.contains("<a href=\"a&amp;b/index.html\">a&b</a>"));
    assert!(!r.doc.contains("&amp;amp;"));
}

#[test]
fn directory_index_breadcrumb_and_path() {
    let config = test_config();
    let data = Index { typ: IndexTyp::Directory, oidxrefs: Vec::new(), ents: Vec::new() };
    let r = write_index(&config, "sub", &data);
    assert_eq!(r.path, "sub/index.html");
    assert!(r.doc.contains("<title>Ordner: sub &mdash; Blog</title>"));
    assert!(r.doc.contains("<a href=\"..\">[Übergeordneter Ordner]</a><br />\n"));
    assert!(!r.doc.contains("feed.atom"));
}

#[test]
fn reflines_wrap_under_budget() {
    // two 60-character names cannot share a 100-character line: the newest
    // is flushed alone and the older one starts a new line
    let config = test_config();
    let older = "a".repeat(60);
    let newer = "b".repeat(60);
    let data = Index {
        typ: IndexTyp::Directory,
        oidxrefs: vec![
            IndexRef { name: older.clone(), typ: IndexTyp::Tag },
            IndexRef { name: newer.clone(), typ: IndexTyp::Tag },
        ],
        ents: Vec::new(),
    };
    let r = write_index(&config, "sub", &data);
    let expected_refs = format!(
        "<a href=\"{n}.html\">{n}</a><br />\n<a href=\"{o}.html\">{o}</a><br />\n",
        n = newer,
        o = older,
    );
    assert!(r.doc.contains(&expected_refs));
    assert!(!r.doc.contains("</a> - <a"));
}

#[test]
fn reflines_share_line_with_separator() {
    let config = test_config();
    let data = Index {
        typ: IndexTyp::Directory,
        oidxrefs: vec![
            IndexRef { name: String::from("one"), typ: IndexTyp::Tag },
            IndexRef { name: String::from("two"), typ: IndexTyp::Directory },
        ],
        ents: Vec::new(),
    };
    let r = write_index(&config, "sub", &data);
    assert!(r.doc.contains(
        "<a href=\"two/index.html\">two</a> - <a href=\"one.html\">one</a><br />\n"
    ));
}

#[test]
fn empty_root_index_exact_document() {
    let config = test_config();
    let data = Index { typ: IndexTyp::Directory, oidxrefs: Vec::new(), ents: Vec::new() };
    let r = write_index(&config, "", &data);
    let expected = "<!doctype html>\n<html lang=\"de\" dir=\"ltr\">\n  <head>\n    <meta charset=\"utf-8\" />\n    <meta name=\"viewport\" content=\"width=device-width, initial-scale=1.0\" />\n    <link rel=\"stylesheet\" href=\"s.css\" type=\"text/css\" />\n    <link rel=\"alternate\" type=\"application/atom+xml\" title=\"Atom feed\" href=\"feed.atom\" />\n\n    <title>Blog</title>\n  </head>\n  <body>\n    <h1>Blog</h1>\n\n<tt>\n</tt>\n  </body>\n</html>\n";
    assert_eq!(r.doc, expected);
}

#[test]
fn early_year_zero_padded() {
    let config = test_config();
    let data = Index {
        typ: IndexTyp::Directory,
        oidxrefs: Vec::new(),
        ents: vec![ent(987, 1, 1, "a.html", "A")],
    };
    let r = write_index(&config, "", &data);
    assert!(r.doc.contains("01.01.0987: <a href=\"a.html\">A</a><br />\n"));
}

#[test]
fn dotted_tag_name_extension_forced() {
    // the tag file path forces the extension: an existing one is replaced
    let config = test_config();
    let data = Index { typ: IndexTyp::Tag, oidxrefs: Vec::new(), ents: Vec::new() };
    let r = write_index(&config, "v1.2", &data);
    assert_eq!(r.path, "v1.html");
    // the displayed name keeps its dot
    assert!(r.doc.contains("<title>Tag: v1.2 &mdash; Blog</title>"));
}

#[test]
fn leading_dot_tag_name_keeps_its_name() {
    // a name whose only dot opens its final component has no extension
    let config = test_config();
    let data = Index { typ: IndexTyp::Tag, oidxrefs: Vec::new(), ents: Vec::new() };
    let r = write_index(&config, ".hidden", &data);
    assert_eq!(r.path, ".hidden.html");
}
