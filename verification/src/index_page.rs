//! The index page renderer: a directory- or tag-scoped listing becomes one
//! HTML document, with cross-references packed onto budget-bounded lines and
//! dated entries emitted newest first.

use crate::model::{Config, Index, IndexEntry, IndexRef, IndexTyp};
use crate::textutil::{date_string, escape_amp, escape_amp_str, fmt_date};
use vstd::prelude::*;

verus! {

/// The character budget of one cross-reference display line.
pub const OIDXREFS_LINE_MAXLEN: usize = 100;

/// One rendered cross-reference link: the href is the ampersand-escaped name,
/// suffixed `/index.html` for directory references and `.html` for tag
/// references; the link text is the raw name.
pub open spec fn render_ref(r: IndexRef) -> Seq<char> {
    "<a href=\""@ + escape_amp(r.name@) + (if r.typ is Directory {
        "/index"@
    } else {
        Seq::empty()
    }) + ".html\">"@ + r.name@ + "</a>"@
}

/// The summed name lengths of a line's entries.
pub open spec fn names_len(g: Seq<IndexRef>) -> nat
    decreases g.len(),
{
    if g.len() == 0 {
        0
    } else {
        names_len(g.drop_last()) + g.last().name@.len()
    }
}

/// The running length the wrapper accounts to a line: each entry's name
/// length plus a 3-character separator reservation for all but the first.
pub open spec fn line_metric(g: Seq<IndexRef>) -> int {
    if g.len() == 0 {
        0
    } else {
        names_len(g) + 3 * (g.len() - 1)
    }
}

/// Packs cross-references onto lines exactly as the renderer does: before an
/// entry is appended, a line whose metric plus the entry's projected cost
/// would cross the budget is flushed first (even when it is still empty).
pub open spec fn wrap_rec(refs: Seq<IndexRef>, cur: Seq<IndexRef>) -> Seq<Seq<IndexRef>>
    decreases refs.len(),
{
    if refs.len() == 0 {
        if cur.len() == 0 {
            Seq::empty()
        } else {
            seq![cur]
        }
    } else {
        let il = refs[0].name@.len() as int;
        if line_metric(cur) + il + 3 > OIDXREFS_LINE_MAXLEN {
            seq![cur] + wrap_rec(refs.skip(1), seq![refs[0]])
        } else {
            wrap_rec(refs.skip(1), cur.push(refs[0]))
        }
    }
}

/// The display lines of the newest-first cross-reference list.
pub open spec fn wrap_groups(refs: Seq<IndexRef>) -> Seq<Seq<IndexRef>> {
    wrap_rec(refs, Seq::empty())
}

/// One display line: its entries joined by the literal separator.
pub open spec fn render_group(g: Seq<IndexRef>) -> Seq<char>
    decreases g.len(),
{
    if g.len() == 0 {
        Seq::empty()
    } else if g.len() == 1 {
        render_ref(g[0])
    } else {
        render_group(g.drop_last()) + " - "@ + render_ref(g.last())
    }
}

/// All display lines, each terminated by a break tag and newline.
pub open spec fn render_groups(gs: Seq<Seq<IndexRef>>) -> Seq<char>
    decreases gs.len(),
{
    if gs.len() == 0 {
        Seq::empty()
    } else {
        render_groups(gs.drop_last()) + render_group(gs.last()) + "<br />\n"@
    }
}

/// The optional attributed-author span of a dated entry line.
pub open spec fn author_span(e: IndexEntry) -> Seq<char> {
    if e.author@.len() == 0 {
        Seq::empty()
    } else {
        " <span class=\"authorspec\">by "@ + e.author@ + "</span>"@
    }
}

/// One dated entry line: date, link, optional author span, line break.
pub open spec fn render_ent(e: IndexEntry) -> Seq<char> {
    fmt_date(e.cdate) + ": <a href=\""@ + e.href@ + "\">"@ + e.title@ + "</a>"@ + author_span(
        e,
    ) + "<br />\n"@
}

/// A list of dated entries rendered in the given order.
pub open spec fn render_list(l: Seq<IndexEntry>) -> Seq<char>
    decreases l.len(),
{
    if l.len() == 0 {
        Seq::empty()
    } else {
        render_ent(l[0]) + render_list(l.skip(1))
    }
}

/// The dated entries rendered newest first: the stored (ascending) list in
/// reverse.
pub open spec fn render_dated(ents: Seq<IndexEntry>) -> Seq<char> {
    render_list(ents.reverse())
}

/// The site-root listing: a directory index with an empty name.  It alone
/// carries no breadcrumb and advertises the Atom feed in its head.
pub open spec fn is_root(typ: IndexTyp, name: Seq<char>) -> bool {
    typ is Directory && name.len() == 0
}

/// The breadcrumb label prefix of the title and heading.
pub open spec fn idx_pre(typ: IndexTyp, name: Seq<char>) -> Seq<char> {
    if is_root(typ, name) {
        Seq::empty()
    } else if typ is Directory {
        "Ordner: "@
    } else {
        "Tag: "@
    }
}

/// The separator between breadcrumb prefix and blog name, present exactly
/// when the prefix is.
pub open spec fn idx_postsep(typ: IndexTyp, name: Seq<char>) -> Seq<char> {
    if is_root(typ, name) {
        Seq::empty()
    } else {
        " &mdash; "@
    }
}

/// The feed advertisement line, present only on the site root.
pub open spec fn idx_feed_line(typ: IndexTyp, name: Seq<char>) -> Seq<char> {
    if is_root(typ, name) {
        "    <link rel=\"alternate\" type=\"application/atom+xml\" title=\"Atom feed\" href=\"feed.atom\" />\n"@
    } else {
        Seq::empty()
    }
}

/// The parent link row above the listing, absent only on the site root.
pub open spec fn idx_up_block(typ: IndexTyp, name: Seq<char>) -> Seq<char> {
    if is_root(typ, name) {
        Seq::empty()
    } else if typ is Directory {
        "<a href=\"..\">[Übergeordneter Ordner]</a><br />\n"@
    } else {
        "<a href=\"index.html\">[Hauptseite]</a><br />\n"@
    }
}

/// The greatest index below `i` holding a path separator, or -1.
pub open spec fn last_slash_before(s: Seq<char>, i: int) -> int
    decreases i,
{
    if i <= 0 {
        -1
    } else if s[i - 1] == '/' {
        i - 1
    } else {
        last_slash_before(s, i - 1)
    }
}

/// The greatest dot index below `i` and strictly after `start`, or -1: a
/// dot opening the final path component names no extension.
pub open spec fn last_dot_after(s: Seq<char>, start: int, i: int) -> int
    decreases i,
{
    if i <= 0 || i <= start + 1 {
        -1
    } else if s[i - 1] == '.' {
        i - 1
    } else {
        last_dot_after(s, start, i - 1)
    }
}

/// `s` with the extension of its final path component removed, as forcing a
/// new extension does; nothing is removed when that component holds no dot
/// past its first character.
pub open spec fn strip_ext(s: Seq<char>) -> Seq<char> {
    let cs = last_slash_before(s, s.len() as int) + 1;
    let d = last_dot_after(s, cs, s.len() as int);
    if d < 0 {
        s
    } else {
        s.take(d)
    }
}

/// The output path of a listing relative to the output directory root:
/// `<name>/index.html` for directory indexes; for tag indexes the name with
/// its extension forced to `.html`.
pub open spec fn spec_index_path(typ: IndexTyp, name: Seq<char>) -> Seq<char> {
    if typ is Directory {
        if name.len() == 0 {
            "index.html"@
        } else {
            name + "/index.html"@
        }
    } else {
        strip_ext(name) + ".html"@
    }
}

/// Document head, title block and opening of the listing body.
pub open spec fn spec_index_head(c: Config, typ: IndexTyp, name: Seq<char>) -> Seq<char> {
    "<!doctype html>\n<html lang=\"de\" dir=\"ltr\">\n  <head>\n    <meta charset=\"utf-8\" />\n    <meta name=\"viewport\" content=\"width=device-width, initial-scale=1.0\" />\n    <link rel=\"stylesheet\" href=\""@
        + c.stylesheet@ + "\" type=\"text/css\" />\n"@ + idx_feed_line(typ, name)
        + "\n    <title>"@ + idx_pre(typ, name) + name + idx_postsep(typ, name) + c.blog_name@
        + "</title>\n"@ + c.x_head@ + "  </head>\n  <body>\n    <h1>"@ + idx_pre(typ, name)
        + name + idx_postsep(typ, name) + c.blog_name@ + "</h1>\n"@ + c.x_body_ph1@
        + "\n<tt>\n"@
}

/// The complete listing document.
pub open spec fn spec_index_doc(c: Config, name: Seq<char>, idx: Index) -> Seq<char> {
    spec_index_head(c, idx.typ, name) + idx_up_block(idx.typ, name) + render_groups(
        wrap_groups(idx.oidxrefs@.reverse()),
    ) + render_dated(idx.ents@) + "</tt>\n  </body>\n</html>\n"@
}

/// A rendered listing: where it goes (relative to the output root) and the
/// document text.
pub struct IndexRender {
    pub path: String,
    pub doc: String,
}

/// A rendered line of a nonempty group is never empty (it at least opens a
/// link tag).
proof fn lemma_render_group_nonempty(g: Seq<IndexRef>)
    requires
        g.len() > 0,
    ensures
        render_group(g).len() > 0,
    decreases g.len(),
{
    reveal_strlit("<a href=\"");
    if g.len() == 1 {
    } else {
        lemma_render_group_nonempty(g.drop_last());
    }
}

/// Appending an entry to a line adds its name length, plus the separator
/// reservation when the line already has an entry.
proof fn lemma_push_metric(g: Seq<IndexRef>, r: IndexRef)
    ensures
        g.len() == 0 ==> line_metric(g.push(r)) == r.name@.len(),
        g.len() > 0 ==> line_metric(g.push(r)) == line_metric(g) + 3 + r.name@.len(),
{
    assert(g.push(r).drop_last() =~= g);
    assert(g.push(r).last() == r);
    assert(names_len(g.push(r)) == names_len(g.push(r).drop_last()) + g.push(
        r,
    ).last().name@.len());
    assert(names_len(g.push(r)) == names_len(g) + r.name@.len());
    if g.len() == 0 {
        assert(line_metric(g.push(r)) == r.name@.len());
    } else {
        assert(line_metric(g.push(r)) == line_metric(g) + 3 + r.name@.len());
    }
}

proof fn lemma_wrap_rec_budget(refs: Seq<IndexRef>, cur: Seq<IndexRef>)
    requires
        forall|i: int| 0 <= i < refs.len() ==> (#[trigger] refs[i]).name@.len() + 3 <= 100,
        line_metric(cur) <= 100,
    ensures
        forall|k: int|
            0 <= k < wrap_rec(refs, cur).len() ==> line_metric(
                #[trigger] wrap_rec(refs, cur)[k],
            ) <= 100,
    decreases refs.len(),
{
    if refs.len() == 0 {
        if cur.len() > 0 {
            assert(wrap_rec(refs, cur) == seq![cur]);
            assert(wrap_rec(refs, cur)[0] == cur);
        }
    } else {
        let r = refs[0];
        let il = r.name@.len() as int;
        let rest = refs.skip(1);
        assert(forall|i: int|
            0 <= i < rest.len() ==> (#[trigger] rest[i]).name@.len() + 3 <= 100) by {
            assert(forall|i: int| 0 <= i < rest.len() ==> rest[i] == refs[i + 1]);
        }
        lemma_push_metric(cur, r);
        if line_metric(cur) + il + 3 > OIDXREFS_LINE_MAXLEN {
            assert(line_metric(seq![r]) == il) by {
                assert(seq![r].drop_last() =~= Seq::<IndexRef>::empty());
                assert(seq![r].last() == r);
                assert(names_len(seq![r]) == names_len(seq![r].drop_last()) + seq![
                    r,
                ].last().name@.len());
                assert(names_len(Seq::<IndexRef>::empty()) == 0);
            }
            lemma_wrap_rec_budget(rest, seq![r]);
            assert(wrap_rec(refs, cur) == seq![cur] + wrap_rec(rest, seq![r]));
            assert(wrap_rec(refs, cur)[0] == cur);
            assert(forall|k: int|
                1 <= k < wrap_rec(refs, cur).len() ==> wrap_rec(refs, cur)[k]
                    == #[trigger] wrap_rec(rest, seq![r])[k - 1]);
        } else {
            lemma_wrap_rec_budget(rest, cur.push(r));
            assert(wrap_rec(refs, cur) == wrap_rec(rest, cur.push(r)));
            assert(forall|k: int|
                0 <= k < wrap_rec(refs, cur).len() ==> wrap_rec(refs, cur)[k]
                    == #[trigger] wrap_rec(rest, cur.push(r))[k]);
        }
    }
}

/// Reference-line budget law: when every cross-reference name fits a line
/// together with its 3-character separator reservation, no flushed display
/// line's accounted length (names plus separator reservations for all but
/// the first entry) exceeds the 100-character budget.
pub proof fn lemma_refline_budget(refs: Seq<IndexRef>)
    requires
        forall|i: int| 0 <= i < refs.len() ==> (#[trigger] refs[i]).name@.len() + 3 <= 100,
    ensures
        forall|k: int|
            0 <= k < wrap_groups(refs).len() ==> line_metric(
                #[trigger] wrap_groups(refs)[k],
            ) <= 100,
{
    lemma_wrap_rec_budget(refs, Seq::empty());
}

/// Newest-first law: dated entries render strictly in reverse of their
/// stored ascending order, independent of the index type — the first
/// rendered line belongs to the last stored entry, and the rest is the
/// rendering of the remaining entries, again newest first.
pub proof fn lemma_dated_newest_first(ents: Seq<IndexEntry>)
    ensures
        ents.len() > 0 ==> render_dated(ents) == render_ent(ents.last()) + render_dated(
            ents.drop_last(),
        ),
        ents.len() == 0 ==> render_dated(ents) == Seq::<char>::empty(),
{
    if ents.len() > 0 {
        let rev = ents.reverse();
        assert(rev[0] == ents.last());
        assert(rev.skip(1) =~= ents.drop_last().reverse());
    }
}

/// The final path component's extension removed, as forcing a new one does.
fn strip_ext_str(name: &str) -> (r: String)
    ensures
        r@ == strip_ext(name@),
{
    let n = name.unicode_len();
    let mut cs: usize = 0;
    let mut i: usize = 0;
    while i < n
        invariant
            i <= n,
            n == name@.len(),
            cs as int == last_slash_before(name@, i as int) + 1,
            cs <= i,
        decreases n - i,
    {
        if name.get_char(i) == '/' {
            cs = i + 1;
        }
        i += 1;
    }
    let mut d: usize = 0;
    let mut has_d = false;
    let mut j: usize = 0;
    while j < n
        invariant
            j <= n,
            n == name@.len(),
            cs as int == last_slash_before(name@, n as int) + 1,
            (if has_d {
                d as int
            } else {
                -1
            }) == last_dot_after(name@, cs as int, j as int),
            has_d ==> d < n,
        decreases n - j,
    {
        if j > cs && name.get_char(j) == '.' {
            d = j;
            has_d = true;
        }
        j += 1;
    }
    if has_d {
        let stem = name.substring_char(0, d);
        let out = stem.to_owned();
        proof {
            assert(out@ =~= strip_ext(name@));
        }
        out
    } else {
        let out = name.to_owned();
        proof {
            assert(out@ =~= strip_ext(name@));
        }
        out
    }
}

fn ref_string(r: &IndexRef) -> (out: String)
    ensures
        out@ == render_ref(*r),
{
    let mut out = String::from_str("<a href=\"");
    let esc = escape_amp_str(r.name.as_str());
    out.append(esc.as_str());
    if r.typ == IndexTyp::Directory {
        out.append("/index");
    }
    out.append(".html\">");
    out.append(r.name.as_str());
    out.append("</a>");
    proof {
        assert(out@ =~= render_ref(*r));
    }
    out
}

fn ent_string(e: &IndexEntry) -> (out: String)
    requires
        e.cdate.valid(),
    ensures
        out@ == render_ent(*e),
{
    let mut out = date_string(&e.cdate);
    out.append(": <a href=\"");
    out.append(e.href.as_str());
    out.append("\">");
    out.append(e.title.as_str());
    out.append("</a>");
    if !e.author.as_str().is_empty() {
        out.append(" <span class=\"authorspec\">by ");
        out.append(e.author.as_str());
        out.append("</span>");
    }
    out.append("<br />\n");
    proof {
        assert(out@ =~= render_ent(*e));
    }
    out
}

/// Renders one listing document and resolves its output path.  The caller
/// prints the progress line, writes `doc` to `path` under its output root
/// and syncs it.
pub fn write_index(config: &Config, idx_name: &str, data: &Index) -> (r: IndexRender)
    requires
        forall|i: int| 0 <= i < data.ents@.len() ==> (#[trigger] data.ents@[i]).cdate.valid(),
    ensures
        r.path@ == spec_index_path(data.typ, idx_name@),
        r.doc@ == spec_index_doc(*config, idx_name@, *data),
{
    let root = data.typ == IndexTyp::Directory && idx_name.is_empty();

    // output path
    let mut path = String::new();
    if data.typ == IndexTyp::Directory {
        if root {
            path.append("index.html");
        } else {
            path.append(idx_name);
            path.append("/index.html");
        }
    } else {
        let stem = strip_ext_str(idx_name);
        path.append(stem.as_str());
        path.append(".html");
    }
    proof {
        assert(path@ =~= spec_index_path(data.typ, idx_name@));
    }

    // document head
    let mut out = String::from_str(
        "<!doctype html>\n<html lang=\"de\" dir=\"ltr\">\n  <head>\n    <meta charset=\"utf-8\" />\n    <meta name=\"viewport\" content=\"width=device-width, initial-scale=1.0\" />\n    <link rel=\"stylesheet\" href=\"",
    );
    out.append(config.stylesheet.as_str());
    out.append("\" type=\"text/css\" />\n");
    if root {
        out.append(
            "    <link rel=\"alternate\" type=\"application/atom+xml\" title=\"Atom feed\" href=\"feed.atom\" />\n",
        );
    }
    out.append("\n    <title>");
    if !root {
        if data.typ == IndexTyp::Directory {
            out.append("Ordner: ");
        } else {
            out.append("Tag: ");
        }
    }
    out.append(idx_name);
    if !root {
        out.append(" &mdash; ");
    }
    out.append(config.blog_name.as_str());
    out.append("</title>\n");
    out.append(config.x_head.as_str());
    out.append("  </head>\n  <body>\n    <h1>");
    if !root {
        if data.typ == IndexTyp::Directory {
            out.append("Ordner: ");
        } else {
            out.append("Tag: ");
        }
    }
    out.append(idx_name);
    if !root {
        out.append(" &mdash; ");
    }
    out.append(config.blog_name.as_str());
    out.append("</h1>\n");
    out.append(config.x_body_ph1.as_str());
    out.append("\n<tt>\n");
    proof {
        assert(out@ =~= spec_index_head(*config, data.typ, idx_name@));
    }

    // parent link row
    if !root {
        if data.typ == IndexTyp::Directory {
            out.append("<a href=\"..\">[Übergeordneter Ordner]</a><br />\n");
        } else {
            out.append("<a href=\"index.html\">[Hauptseite]</a><br />\n");
        }
    }
    let ghost head_up = spec_index_head(*config, data.typ, idx_name@) + idx_up_block(
        data.typ,
        idx_name@,
    );
    proof {
        assert(out@ =~= head_up);
    }

    // cross-reference lines, newest first, packed under the line budget
    let ghost rrefs = data.oidxrefs@.reverse();
    let nrefs = data.oidxrefs.len();
    let mut refline = String::new();
    let mut refline_len: usize = 0;
    let ghost mut cur: Seq<IndexRef> = Seq::empty();
    let ghost mut gs: Seq<Seq<IndexRef>> = Seq::empty();
    let mut j: usize = 0;
    proof {
        assert(render_groups(gs) =~= Seq::<char>::empty());
        assert(out@ =~= head_up + render_groups(gs));
        assert(rrefs.skip(0) =~= rrefs);
        assert(gs + wrap_rec(rrefs, cur) =~= wrap_rec(rrefs, cur));
    }
    while j < nrefs
        invariant
            j <= nrefs,
            nrefs == data.oidxrefs@.len(),
            rrefs == data.oidxrefs@.reverse(),
            out@ == head_up + render_groups(gs),
            refline@ == render_group(cur),
            refline_len as int == line_metric(cur),
            cur.len() == 0 <==> refline@.len() == 0,
            wrap_groups(rrefs) == gs + wrap_rec(rrefs.skip(j as int), cur),
        decreases nrefs - j,
    {
        let r = &data.oidxrefs[nrefs - 1 - j];
        proof {
            assert(rrefs[j as int] == data.oidxrefs@[nrefs - 1 - j as int]);
            assert(rrefs.skip(j as int)[0] == rrefs[j as int]);
            assert(rrefs.skip(j as int).skip(1) =~= rrefs.skip(j as int + 1));
        }
        let ghost cur0 = cur;
        let ghost gs0 = gs;
        let il = r.name.as_str().unicode_len();
        let flush = il > OIDXREFS_LINE_MAXLEN - 3 || refline_len > OIDXREFS_LINE_MAXLEN - 3
            - il;
        proof {
            assert(flush == (line_metric(cur0) + r.name@.len() + 3 > OIDXREFS_LINE_MAXLEN));
        }
        if flush {
            out.append(refline.as_str());
            out.append("<br />\n");
            refline = String::new();
            refline_len = 0;
            proof {
                gs = gs0 + seq![cur0];
                cur = Seq::empty();
                assert((gs0 + seq![cur0]).drop_last() =~= gs0);
                assert(render_groups(gs) =~= render_groups(gs0) + render_group(cur0)
                    + "<br />\n"@);
                assert(out@ =~= head_up + render_groups(gs));
            }
        }
        let ghost cur1 = cur;
        if !refline.as_str().is_empty() {
            refline.append(" - ");
            refline_len = refline_len + 3;
        }
        let rs = ref_string(r);
        refline.append(rs.as_str());
        refline_len = refline_len + il;
        proof {
            cur = cur1.push(data.oidxrefs@[nrefs - 1 - j as int]);
            lemma_push_metric(cur1, data.oidxrefs@[nrefs - 1 - j as int]);
            if cur1.len() == 0 {
                assert(cur =~= seq![data.oidxrefs@[nrefs - 1 - j as int]]);
                assert(refline@ =~= render_group(cur));
            } else {
                lemma_render_group_nonempty(cur1);
                assert(cur.drop_last() =~= cur1);
                assert(refline@ =~= render_group(cur));
            }
            lemma_render_group_nonempty(cur);
            // the spec wrapper takes the same step
            if flush {
                assert(wrap_rec(rrefs.skip(j as int), cur0) == seq![cur0] + wrap_rec(
                    rrefs.skip(j as int + 1),
                    cur,
                ));
                assert(gs0 + (seq![cur0] + wrap_rec(rrefs.skip(j as int + 1), cur)) =~= (gs0
                    + seq![cur0]) + wrap_rec(rrefs.skip(j as int + 1), cur));
            } else {
                assert(wrap_rec(rrefs.skip(j as int), cur0) == wrap_rec(
                    rrefs.skip(j as int + 1),
                    cur,
                ));
            }
            assert(wrap_groups(rrefs) == gs + wrap_rec(rrefs.skip(j as int + 1), cur));
        }
        j += 1;
    }
    // final, possibly under-full, line
    if !refline.as_str().is_empty() {
        out.append(refline.as_str());
        out.append("<br />\n");
    }
    proof {
        assert(rrefs.skip(nrefs as int) =~= Seq::<IndexRef>::empty());
        if cur.len() == 0 {
            assert(wrap_groups(rrefs) =~= gs);
        } else {
            lemma_render_group_nonempty(cur);
            assert(wrap_groups(rrefs) =~= gs.push(cur));
            assert(gs.push(cur).drop_last() =~= gs);
        }
        assert(out@ =~= head_up + render_groups(wrap_groups(rrefs)));
    }
    let ghost pre_dated = head_up + render_groups(wrap_groups(rrefs));

    // dated entries, newest first
    let ghost rents = data.ents@.reverse();
    let nents = data.ents.len();
    let mut k: usize = 0;
    proof {
        assert(rents.skip(0) =~= rents);
    }
    while k < nents
        invariant
            k <= nents,
            nents == data.ents@.len(),
            rents == data.ents@.reverse(),
            forall|i: int| 0 <= i < data.ents@.len() ==> (#[trigger] data.ents@[i]).cdate.valid(),
            pre_dated == head_up + render_groups(wrap_groups(rrefs)),
            out@ + render_list(rents.skip(k as int)) == pre_dated + render_list(rents),
        decreases nents - k,
    {
        let e = &data.ents[nents - 1 - k];
        proof {
            assert(rents[k as int] == data.ents@[nents - 1 - k as int]);
            assert(rents.skip(k as int)[0] == rents[k as int]);
            assert(rents.skip(k as int).skip(1) =~= rents.skip(k as int + 1));
        }
        let ghost out0 = out@;
        let es = ent_string(e);
        out.append(es.as_str());
        proof {
            assert(out0 + (render_ent(rents[k as int]) + render_list(rents.skip(k as int + 1)))
                =~= out@ + render_list(rents.skip(k as int + 1)));
        }
        k += 1;
    }
    proof {
        assert(rents.skip(nents as int) =~= Seq::<IndexEntry>::empty());
        assert(out@ + render_list(rents.skip(nents as int)) =~= out@);
        assert(out@ =~= pre_dated + render_dated(data.ents@));
    }

    out.append("</tt>\n  </body>\n</html>\n");
    proof {
        assert(out@ =~= spec_index_doc(*config, idx_name@, *data));
    }
    IndexRender { path, doc: out }
}

} // verus!
