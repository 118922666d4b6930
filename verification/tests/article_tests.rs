use siterender::article::write_article_page;
use siterender::model::{Config, Post, Segment};

fn test_config() -> Config {
    Config {
        stylesheet: String::from("s.css"),
        blog_name: String::from("Blog"),
        id: String::from("https://example.org/blog"),
        author: String::from("Ann"),
        x_head: String::new(),
        x_body_ph1: String::new(),
        x_nav: String::new(),
        web_root_url: String::from("https://example.org"),
    }
}

fn plain_post(title: &str) -> Post {
    Post {
        title: String::from(title),
        author: String::new(),
        x_head: String::new(),
        x_nav: String::new(),
    }
}

#[test]
fn mangled_then_plain_segments() {
    // content sequence [(true, "x"), (false, "y")]: the first segment opens
    // with a bare indented line break, the later unmangled segment gets no
    // indentation and no extra break
    let config = test_config();
    let post = plain_post("T");
    let segs = vec![
        Segment { mangled: true, text: String::from("x") },
        Segment { mangled: false, text: String::from("y") },
    ];
    let doc = write_article_page(&config, "../index.html", &post, &segs);
    let expected = "<!doctype html>\n<html lang=\"de\" dir=\"ltr\">\n  <head>\n    <meta charset=\"utf-8\" />\n    <meta name=\"viewport\" content=\"width=device-width, initial-scale=1.0\" />\n    <link rel=\"stylesheet\" href=\"s.css\" type=\"text/css\" />\n    <title>T &mdash; Blog</title>\n  </head>\n  <body>\n    <h1>T</h1>\n    <a href=\"#\" onclick=\"window.history.back()\">Zur&uuml;ck zur vorherigen Seite</a> - <a href=\"../index.html\">Zur&uuml;ck zur Hauptseite</a>\n<br />\n    x\ny\n  </body>\n</html>\n";
    assert_eq!(doc, expected);
}

#[test]
fn first_segment_unmangled_gets_break_tag() {
    let config = test_config();
    let post = plain_post("T");
    let segs = vec![
        Segment { mangled: false, text: String::from("y") },
        Segment { mangled: true, text: String::from("z") },
    ];
    let doc = write_article_page(&config, "index.html", &post, &segs);
    assert!(doc.contains("<br /><br />\ny\n    z\n"));
}

#[test]
fn empty_content_renders_document() {
    let config = test_config();
    let post = plain_post("Empty");
    let segs: Vec<Segment> = Vec::new();
    let doc = write_article_page(&config, "index.html", &post, &segs);
    assert!(doc.contains("<title>Empty &mdash; Blog</title>"));
    assert!(doc.ends_with("</a>\n<br />  </body>\n</html>\n"));
}

#[test]
fn author_and_nav_lines_present() {
    let config = test_config();
    let post = Post {
        title: String::from("T"),
        author: String::from("Bob"),
        x_head: String::from("<!-- per-post head -->\n"),
        x_nav: String::from("<a href=\"tag.html\">tag</a>"),
    };
    let segs = vec![Segment { mangled: false, text: String::from("hello") }];
    let doc = write_article_page(&config, "index.html", &post, &segs);
    assert!(doc.contains("<!-- per-post head -->\n"));
    assert!(doc.contains("Hauptseite</a>\n - <a href=\"tag.html\">tag</a><br />"));
    assert!(doc.contains("    <p>Autor: Bob</p>\n"));
}
