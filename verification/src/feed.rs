//! The feed renderer: the newest dated entries of a directory index become
//! an Atom document.  Entry ids and update times follow the href shape:
//! absolute links use the creation date, relative links use the target
//! file's modification time with the creation date as fallback.
//!
//! The feed itself is assembled and serialized by the `atom_syndication`
//! crate behind trusted wrappers; everything those wrappers are fed — entry
//! selection, title CDATA wrapping, id and timestamp resolution — is
//! computed and specified here.

use crate::model::{midnight, Config, Index, IndexEntry, Stamp};
use crate::textutil::{
    href_is_absolute, needs_html_escape, spec_href_is_absolute, spec_needs_html_escape,
};
use vstd::prelude::*;

verus! {

/// The abstract content of an `atom_syndication::Feed`'s metadata: its
/// title, id, single author, update time, and the hrefs of its `alternate`
/// and `self` links.
pub ghost struct FeedMetaV {
    pub title: Seq<char>,
    pub id: Seq<char>,
    pub author: Seq<char>,
    pub updated: Stamp,
    pub link_alternate: Seq<char>,
    pub link_self: Seq<char>,
}

/// The abstract content of one `atom_syndication::Entry`: its plain fields
/// as this crate sets them.
pub ghost struct FeedEntryV {
    pub title: Seq<char>,
    pub id: Seq<char>,
    pub link_href: Seq<char>,
    pub updated: Stamp,
    pub authors: Seq<Seq<char>>,
}

#[verifier::external_type_specification]
#[verifier::external_body]
pub struct ExFeed(atom_syndication::Feed);

/// The metadata a feed value carries.
pub uninterp spec fn feed_meta_of(f: atom_syndication::Feed) -> FeedMetaV;

/// The entries a feed value holds, in order.
pub uninterp spec fn feed_entries_of(f: atom_syndication::Feed) -> Seq<FeedEntryV>;

/// The Atom serialization of a feed with the given metadata and entries.
pub uninterp spec fn atom_xml_of(meta: FeedMetaV, entries: Seq<FeedEntryV>) -> Seq<u8>;

/// Relies on `atom_syndication::Feed::default` and its public fields: a
/// fresh feed carries the given title, id, single author and update time,
/// an `alternate` link at the id, a `self` link at `self_href`, and no
/// entries.
#[verifier::external_body]
fn feed_new(title: &String, id: &String, author: &String, updated: &Stamp, self_href: &String)
    -> (f: atom_syndication::Feed)
    requires
        updated.valid(),
    ensures
        feed_meta_of(f) == (FeedMetaV {
            title: title@,
            id: id@,
            author: author@,
            updated: *updated,
            link_alternate: id@,
            link_self: self_href@,
        }),
        feed_entries_of(f) == Seq::<FeedEntryV>::empty(),
{
    let mut f = atom_syndication::Feed::default();
    f.title = atom_syndication::Text::plain(title.clone());
    f.id = id.clone();
    f.updated = chrono::TimeZone::with_ymd_and_hms(&chrono::Utc, updated.year as i32,
        updated.month as u32, updated.day as u32, updated.hour as u32, updated.minute as u32,
        updated.second as u32).unwrap().fixed_offset();
    f.authors = vec![atom_syndication::Person { name: author.clone(), email: None, uri: None,
        extensions: Default::default() }];
    f.links = vec![atom_syndication::Link { href: id.clone(), rel: "alternate".to_string(),
        ..Default::default() }, atom_syndication::Link { href: self_href.clone(),
        rel: "self".to_string(), ..Default::default() }];
    f
}

/// Relies on `atom_syndication::Entry::default`, its public fields and
/// `Vec::push`: pushing appends exactly one entry holding the given plain
/// fields, an `alternate` link for `href`, and the authors as persons.
#[verifier::external_body]
fn feed_push_entry(
    f: &mut atom_syndication::Feed,
    title: &String,
    id: &String,
    href: &String,
    updated: &Stamp,
    authors: &Vec<String>,
)
    requires
        updated.valid(),
    ensures
        feed_meta_of(*final(f)) == feed_meta_of(*old(f)),
        feed_entries_of(*final(f)) == feed_entries_of(*old(f)).push(
            FeedEntryV {
                title: title@,
                id: id@,
                link_href: href@,
                updated: *updated,
                authors: authors.deep_view(),
            },
        ),
{
    let mut e = atom_syndication::Entry::default();
    e.title = atom_syndication::Text::plain(title.clone());
    e.id = id.clone();
    e.updated = chrono::TimeZone::with_ymd_and_hms(&chrono::Utc, updated.year as i32,
        updated.month as u32, updated.day as u32, updated.hour as u32, updated.minute as u32,
        updated.second as u32).unwrap().fixed_offset();
    e.links = vec![atom_syndication::Link { href: href.clone(), rel: "alternate".to_string(),
        ..Default::default() }];
    e.authors = authors.iter().map(|a| atom_syndication::Person { name: a.clone(), email: None,
        uri: None, extensions: Default::default() }).collect();
    f.entries.push(e);
}

/// Relies on `atom_syndication::Feed::write_to`: serialization writes a pure
/// function of the feed's content, and its only error path is the sink's
/// `io::Write` — writing into a `Vec` cannot fail, so it always succeeds.
/// Every feed reaching this private wrapper was built by the two
/// constructors above, so its content is exactly what [`feed_meta_of`] and
/// [`feed_entries_of`] name (all other fields stay at their defaults).
#[verifier::external_body]
fn feed_to_xml(f: &atom_syndication::Feed) -> (r: Option<Vec<u8>>)
    ensures
        r is Some,
        r matches Some(v) ==> v@ == atom_xml_of(feed_meta_of(*f), feed_entries_of(*f)),
{
    match f.write_to(Vec::new()) {
        Ok(v) => Some(v),
        Err(_) => None,
    }
}

/// How many dated entries the feed takes: at most 20.
pub open spec fn feed_sel_len(ents: Seq<IndexEntry>) -> int {
    if ents.len() < 20 {
        ents.len() as int
    } else {
        20
    }
}

/// The entries the feed lists: the newest end of the stored (ascending)
/// list, newest first.
pub open spec fn feed_selection(ents: Seq<IndexEntry>) -> Seq<IndexEntry> {
    ents.reverse().take(feed_sel_len(ents))
}

/// A feed entry's title: wrapped in a CDATA section when the raw title holds
/// characters requiring HTML escaping, verbatim otherwise.
pub open spec fn feed_title(title: Seq<char>) -> Seq<char> {
    if spec_needs_html_escape(title) {
        "<![CDATA[ "@ + title + " ]]>"@
    } else {
        title
    }
}

/// A feed entry's id: root-relative hrefs are rewritten against the
/// web-root URL, hrefs that already carry a scheme stand as they are, and
/// relative hrefs are resolved against the site id.
pub open spec fn feed_entry_id(c: Config, href: Seq<char>) -> Seq<char> {
    if href.len() > 0 && href[0] == '/' {
        c.web_root_url@ + href
    } else if spec_href_is_absolute(href) {
        href
    } else {
        c.id@ + "/"@ + href
    }
}

/// A feed entry's update time: absolute-link entries use their creation date
/// at midnight; relative-link entries use the target file's modification
/// time, falling back to the creation date at midnight when it could not be
/// read.
pub open spec fn feed_entry_updated(e: IndexEntry, mtime: Option<Stamp>) -> Stamp {
    if spec_href_is_absolute(e.href@) {
        midnight(e.cdate)
    } else {
        match mtime {
            Option::Some(t) => t,
            Option::None => midnight(e.cdate),
        }
    }
}

/// The abstract feed entry built for one dated entry.
pub open spec fn feed_entry_v(c: Config, e: IndexEntry, mtime: Option<Stamp>) -> FeedEntryV {
    FeedEntryV {
        title: feed_title(e.title@),
        id: feed_entry_id(c, e.href@),
        link_href: e.href@,
        updated: feed_entry_updated(e, mtime),
        authors: e.authors.deep_view(),
    }
}

/// All abstract feed entries, newest first, paired positionally with the
/// modification-time lookups.
pub open spec fn feed_entries_v(
    c: Config,
    ents: Seq<IndexEntry>,
    mtimes: Seq<Option<Stamp>>,
) -> Seq<FeedEntryV> {
    Seq::new(
        feed_sel_len(ents) as nat,
        |k: int| feed_entry_v(c, feed_selection(ents)[k], mtimes[k]),
    )
}

/// The feed's metadata for a run that observed `now` as the current time.
pub open spec fn feed_meta_v(c: Config, now: Stamp) -> FeedMetaV {
    FeedMetaV {
        title: c.blog_name@,
        id: c.id@,
        author: c.author@,
        updated: now,
        link_alternate: c.id@,
        link_self: c.id@ + "/feed.atom"@,
    }
}

/// Feed selection law: at most 20 entries are taken, exactly from the newest
/// end of the stored (ascending) list, in reverse storage order.
pub proof fn lemma_feed_selection(ents: Seq<IndexEntry>)
    ensures
        feed_selection(ents).len() == feed_sel_len(ents),
        feed_sel_len(ents) <= 20,
        feed_sel_len(ents) <= ents.len(),
        forall|k: int|
            0 <= k < feed_sel_len(ents) ==> #[trigger] feed_selection(ents)[k] == ents[ents.len()
                - 1 - k],
{
}

/// Feed order law: with entries stored ascending by creation date, the
/// selected entries' creation dates are descending.
pub proof fn lemma_feed_selection_descending(ents: Seq<IndexEntry>)
    requires
        forall|i: int, j: int|
            0 <= i <= j < ents.len() ==> crate::model::date_le(
                (#[trigger] ents[i]).cdate,
                (#[trigger] ents[j]).cdate,
            ),
    ensures
        forall|k1: int, k2: int|
            0 <= k1 <= k2 < feed_selection(ents).len() ==> crate::model::date_le(
                (#[trigger] feed_selection(ents)[k2]).cdate,
                (#[trigger] feed_selection(ents)[k1]).cdate,
            ),
{
    lemma_feed_selection(ents);
}

/// Feed content law: the feed holds exactly the newest min(20, n) stored
/// entries, its k-th entry built from the (n-1-k)-th stored one — strictly
/// newest first; entries older than the newest 20 contribute nothing.
pub proof fn lemma_feed_entries_v(c: Config, ents: Seq<IndexEntry>, mtimes: Seq<Option<Stamp>>)
    ensures
        feed_entries_v(c, ents, mtimes).len() == feed_sel_len(ents),
        feed_sel_len(ents) == (if ents.len() < 20 {
            ents.len() as int
        } else {
            20
        }),
        forall|k: int|
            0 <= k < feed_sel_len(ents) ==> #[trigger] feed_entries_v(c, ents, mtimes)[k]
                == feed_entry_v(c, ents[ents.len() - 1 - k], mtimes[k]),
{
    lemma_feed_selection(ents);
}

/// A rendered feed: the file name under the output directory and the Atom
/// document bytes.
pub struct FeedRender {
    pub path: String,
    pub xml: Vec<u8>,
}

/// For each feed-bound entry (newest first), the href whose modification
/// time the caller should look up: `Some` exactly for relative-link entries.
pub fn feed_mtime_hrefs(data: &Index) -> (r: Vec<Option<String>>)
    ensures
        r@.len() == feed_sel_len(data.ents@),
        forall|k: int|
            0 <= k < r@.len() ==> match #[trigger] r@[k] {
                Option::Some(h) => !spec_href_is_absolute(feed_selection(data.ents@)[k].href@)
                    && h@ == feed_selection(data.ents@)[k].href@,
                Option::None => spec_href_is_absolute(feed_selection(data.ents@)[k].href@),
            },
{
    proof {
        lemma_feed_selection(data.ents@);
    }
    let n = data.ents.len();
    let count = if n < 20 {
        n
    } else {
        20
    };
    let mut r: Vec<Option<String>> = Vec::new();
    let mut k: usize = 0;
    while k < count
        invariant
            k <= count,
            n == data.ents@.len(),
            count == feed_sel_len(data.ents@),
            r@.len() == k,
            forall|j: int|
                0 <= j < k ==> match #[trigger] r@[j] {
                    Option::Some(h) => !spec_href_is_absolute(
                        feed_selection(data.ents@)[j].href@,
                    ) && h@ == feed_selection(data.ents@)[j].href@,
                    Option::None => spec_href_is_absolute(feed_selection(data.ents@)[j].href@),
                },
        decreases count - k,
    {
        proof {
            lemma_feed_selection(data.ents@);
        }
        let e = &data.ents[n - 1 - k];
        if href_is_absolute(e.href.as_str()) {
            r.push(None);
        } else {
            r.push(Some(e.href.clone()));
        }
        k += 1;
    }
    r
}

/// Renders the Atom feed of a directory index: the newest (at most) 20
/// dated entries, newest first, with ids and update times resolved by href
/// shape.  `now` is the wall-clock time the caller observed, used as the
/// feed's own update stamp; `mtimes` are the modification-time lookups
/// aligned with [`feed_mtime_hrefs`].  The caller prints the progress line
/// and writes the returned bytes to `feed.atom` under its output directory.
pub fn write_feed(config: &Config, data: &Index, now: &Stamp, mtimes: &Vec<Option<Stamp>>) -> (r:
    FeedRender)
    requires
        data.typ is Directory,
        now.valid(),
        mtimes@.len() == feed_sel_len(data.ents@),
        forall|i: int| 0 <= i < data.ents@.len() ==> (#[trigger] data.ents@[i]).cdate.valid(),
        forall|k: int|
            0 <= k < mtimes@.len() ==> (#[trigger] mtimes@[k] matches Option::Some(t) ==> t.valid()),
    ensures
        r.path@ == "feed.atom"@,
        r.xml@ == atom_xml_of(
            feed_meta_v(*config, *now),
            feed_entries_v(*config, data.ents@, mtimes@),
        ),
{
    let ghost entries_v = feed_entries_v(*config, data.ents@, mtimes@);
    let mut self_href = config.id.clone();
    self_href.append("/feed.atom");
    let mut feed = feed_new(&config.blog_name, &config.id, &config.author, now, &self_href);
    let n = data.ents.len();
    let count = if n < 20 {
        n
    } else {
        20
    };
    proof {
        lemma_feed_selection(data.ents@);
        assert(feed_entries_of(feed) =~= entries_v.take(0));
    }
    let mut k: usize = 0;
    while k < count
        invariant
            k <= count,
            n == data.ents@.len(),
            count == feed_sel_len(data.ents@),
            mtimes@.len() == feed_sel_len(data.ents@),
            entries_v == feed_entries_v(*config, data.ents@, mtimes@),
            forall|i: int| 0 <= i < data.ents@.len() ==> (#[trigger] data.ents@[i]).cdate.valid(),
            forall|j: int|
                0 <= j < mtimes@.len() ==> (#[trigger] mtimes@[j] matches Option::Some(t)
                    ==> t.valid()),
            feed_meta_of(feed) == feed_meta_v(*config, *now),
            feed_entries_of(feed) == entries_v.take(k as int),
        decreases count - k,
    {
        proof {
            lemma_feed_selection(data.ents@);
        }
        let e = &data.ents[n - 1 - k];
        let title = if needs_html_escape(e.title.as_str()) {
            let mut t = String::from_str("<![CDATA[ ");
            t.append(e.title.as_str());
            t.append(" ]]>");
            t
        } else {
            e.title.clone()
        };
        let absolute = href_is_absolute(e.href.as_str());
        let id = if absolute {
            if e.href.as_str().unicode_len() > 0 && e.href.as_str().get_char(0) == '/' {
                let mut s = config.web_root_url.clone();
                s.append(e.href.as_str());
                s
            } else {
                e.href.clone()
            }
        } else {
            let mut s = config.id.clone();
            s.append("/");
            s.append(e.href.as_str());
            s
        };
        let updated = if absolute {
            e.cdate.at_midnight()
        } else {
            match mtimes[k] {
                Some(t) => t,
                None => e.cdate.at_midnight(),
            }
        };
        feed_push_entry(&mut feed, &title, &id, &e.href, &updated, &e.authors);
        proof {
            let sel = feed_selection(data.ents@)[k as int];
            assert(title@ == feed_title(sel.title@));
            assert(id@ == feed_entry_id(*config, sel.href@));
            assert(updated == feed_entry_updated(sel, mtimes@[k as int]));
            assert(feed_entries_of(feed) =~= entries_v.take(k as int + 1));
        }
        k += 1;
    }
    proof {
        assert(entries_v.take(count as int) =~= entries_v);
    }
    let xml = feed_to_xml(&feed).unwrap();
    FeedRender { path: String::from_str("feed.atom"), xml }
}

} // verus!
