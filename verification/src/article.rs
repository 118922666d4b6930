//! The article page renderer: one post plus its mangled content segments
//! become a standalone HTML document.

use crate::model::{Config, Post, Segment};
use vstd::prelude::*;

verus! {

/// What precedes a segment's text.  The first segment opens the content
/// block: a bare indented line break when mangled, an explicit break tag when
/// not.  Later segments are indented only when mangled.
pub open spec fn seg_prefix(first: bool, s: Segment) -> Seq<char> {
    if first {
        if s.mangled {
            "\n    "@
        } else {
            "<br />\n"@
        }
    } else {
        if s.mangled {
            "    "@
        } else {
            Seq::empty()
        }
    }
}

/// One rendered segment: its prefix, its text, a terminating newline.
pub open spec fn seg_block(first: bool, s: Segment) -> Seq<char> {
    seg_prefix(first, s) + s.text@ + "\n"@
}

/// The first `i` segments rendered in order.
pub open spec fn render_segs_upto(segs: Seq<Segment>, i: int) -> Seq<char>
    decreases i,
{
    if i <= 0 {
        Seq::empty()
    } else {
        render_segs_upto(segs, i - 1) + seg_block(i - 1 == 0, segs[i - 1])
    }
}

/// The whole mangled segment sequence rendered in order, consumed once.
pub open spec fn render_segs(segs: Seq<Segment>) -> Seq<char> {
    render_segs_upto(segs, segs.len() as int)
}

/// Document head, title block and link row of an article page.
pub open spec fn article_lead(c: Config, back: Seq<char>, p: Post) -> Seq<char> {
    "<!doctype html>\n<html lang=\"de\" dir=\"ltr\">\n  <head>\n    <meta charset=\"utf-8\" />\n    <meta name=\"viewport\" content=\"width=device-width, initial-scale=1.0\" />\n    <link rel=\"stylesheet\" href=\""@
        + c.stylesheet@ + "\" type=\"text/css\" />\n    <title>"@ + p.title@ + " &mdash; "@
        + c.blog_name@ + "</title>\n"@ + c.x_head@ + p.x_head@
        + "  </head>\n  <body>\n    <h1>"@ + p.title@ + "</h1>\n"@ + c.x_body_ph1@
        + "    <a href=\"#\" onclick=\"window.history.back()\">Zur&uuml;ck zur vorherigen Seite</a> - <a href=\""@
        + back + "\">Zur&uuml;ck zur Hauptseite</a>"@ + c.x_nav@ + "\n"@
}

/// The optional per-post trailing navigation link.
pub open spec fn nav_ext(p: Post) -> Seq<char> {
    if p.x_nav@.len() == 0 {
        Seq::empty()
    } else {
        " - "@ + p.x_nav@
    }
}

/// The optional attributed-author paragraph.
pub open spec fn author_line(p: Post) -> Seq<char> {
    if p.author@.len() == 0 {
        Seq::empty()
    } else {
        "    <p>Autor: "@ + p.author@ + "</p>\n"@
    }
}

/// The complete article document for a post, its back link and its content
/// segments.
pub open spec fn spec_article_page(
    c: Config,
    back: Seq<char>,
    p: Post,
    segs: Seq<Segment>,
) -> Seq<char> {
    article_lead(c, back, p) + nav_ext(p) + "<br />"@ + render_segs(segs) + author_line(p)
        + "  </body>\n</html>\n"@
}

/// Renders one article page.  `back_link` is the already computed relative
/// link to the enclosing index; `segs` is the mangled content, consumed once
/// in order.  The caller writes the returned document to its destination.
pub fn write_article_page(
    config: &Config,
    back_link: &str,
    post: &Post,
    segs: &Vec<Segment>,
) -> (out: String)
    ensures
        out@ == spec_article_page(*config, back_link@, *post, segs@),
{
    let mut out = String::from_str(
        "<!doctype html>\n<html lang=\"de\" dir=\"ltr\">\n  <head>\n    <meta charset=\"utf-8\" />\n    <meta name=\"viewport\" content=\"width=device-width, initial-scale=1.0\" />\n    <link rel=\"stylesheet\" href=\"",
    );
    out.append(config.stylesheet.as_str());
    out.append("\" type=\"text/css\" />\n    <title>");
    out.append(post.title.as_str());
    out.append(" &mdash; ");
    out.append(config.blog_name.as_str());
    out.append("</title>\n");
    out.append(config.x_head.as_str());
    out.append(post.x_head.as_str());
    out.append("  </head>\n  <body>\n    <h1>");
    out.append(post.title.as_str());
    out.append("</h1>\n");
    out.append(config.x_body_ph1.as_str());
    out.append(
        "    <a href=\"#\" onclick=\"window.history.back()\">Zur&uuml;ck zur vorherigen Seite</a> - <a href=\"",
    );
    out.append(back_link);
    out.append("\">Zur&uuml;ck zur Hauptseite</a>");
    out.append(config.x_nav.as_str());
    out.append("\n");
    let ghost lead = article_lead(*config, back_link@, *post);
    proof {
        assert(out@ == lead);
    }
    if !post.x_nav.as_str().is_empty() {
        out.append(" - ");
        out.append(post.x_nav.as_str());
    }
    proof {
        assert(out@ =~= lead + nav_ext(*post));
    }
    out.append("<br />");
    let ghost pre_segs = out@;
    let n = segs.len();
    let mut i: usize = 0;
    proof {
        assert(out@ =~= pre_segs + render_segs_upto(segs@, 0));
    }
    while i < n
        invariant
            i <= n,
            n == segs@.len(),
            pre_segs == (lead + nav_ext(*post)) + "<br />"@,
            out@ == pre_segs + render_segs_upto(segs@, i as int),
        decreases n - i,
    {
        let sg = &segs[i];
        if i == 0 {
            if sg.mangled {
                out.append("\n    ");
            } else {
                out.append("<br />\n");
            }
        } else {
            if sg.mangled {
                out.append("    ");
            }
        }
        out.append(sg.text.as_str());
        out.append("\n");
        proof {
            assert(out@ =~= pre_segs + render_segs_upto(segs@, i as int + 1));
        }
        i += 1;
    }
    if !post.author.as_str().is_empty() {
        out.append("    <p>Autor: ");
        out.append(post.author.as_str());
        out.append("</p>\n");
    }
    out.append("  </body>\n</html>\n");
    proof {
        assert(out@ =~= spec_article_page(*config, back_link@, *post, segs@));
    }
    out
}

} // verus!
