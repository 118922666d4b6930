//! The shared data model: site configuration, article metadata, listing
//! records, calendar dates and timestamps.

use vstd::prelude::*;

verus! {

/// Discriminates the two kinds of listing pages.  Directory listings and tag
/// listings differ in output path, breadcrumb policy and feed eligibility.
#[derive(Clone, Copy, PartialEq, Eq, Structural)]
pub enum IndexTyp {
    Directory,
    Tag,
}

/// A calendar date in the proleptic Gregorian calendar.
#[derive(Clone, Copy, PartialEq, Eq, Structural)]
pub struct Date {
    pub year: u16,
    pub month: u8,
    pub day: u8,
}

pub open spec fn leap_year(y: int) -> bool {
    (y % 4 == 0 && y % 100 != 0) || y % 400 == 0
}

pub open spec fn days_in_month(y: int, m: int) -> int {
    if m == 2 {
        if leap_year(y) {
            29
        } else {
            28
        }
    } else if m == 4 || m == 6 || m == 9 || m == 11 {
        30
    } else {
        31
    }
}

impl Date {
    /// The dates a driver can hand over are exactly the valid calendar dates
    /// (the year range keeps the rendered year at four digits).
    pub open spec fn valid(self) -> bool {
        &&& 1 <= self.year <= 9999
        &&& 1 <= self.month <= 12
        &&& 1 <= self.day <= days_in_month(self.year as int, self.month as int)
    }

    /// The timestamp of this date's midnight, the fallback update time of
    /// feed entries whose modification time is not available.
    pub fn at_midnight(&self) -> (s: Stamp)
        ensures
            s == midnight(*self),
    {
        Stamp {
            year: self.year,
            month: self.month,
            day: self.day,
            hour: 0,
            minute: 0,
            second: 0,
        }
    }
}

/// `true` when `a` is no later than `b`.
pub open spec fn date_le(a: Date, b: Date) -> bool {
    if a.year != b.year {
        a.year < b.year
    } else if a.month != b.month {
        a.month < b.month
    } else {
        a.day <= b.day
    }
}

/// A point in time with one-second resolution, in UTC.
#[derive(Clone, Copy, PartialEq, Eq, Structural)]
pub struct Stamp {
    pub year: u16,
    pub month: u8,
    pub day: u8,
    pub hour: u8,
    pub minute: u8,
    pub second: u8,
}

impl Stamp {
    pub open spec fn valid(self) -> bool {
        &&& (Date { year: self.year, month: self.month, day: self.day }).valid()
        &&& self.hour < 24
        &&& self.minute < 60
        &&& self.second < 60
    }
}

pub open spec fn midnight(d: Date) -> Stamp {
    Stamp { year: d.year, month: d.month, day: d.day, hour: 0, minute: 0, second: 0 }
}

/// Site-level constants, read-only for a whole generation run.
pub struct Config {
    /// Path of the stylesheet referenced by every page head.
    pub stylesheet: String,
    /// Display name of the site, appended to every title.
    pub blog_name: String,
    /// Site id and base URL, also the feed id.
    pub id: String,
    /// Feed-level author name.
    pub author: String,
    /// HTML fragment injected verbatim into every page `<head>`.
    pub x_head: String,
    /// HTML fragment injected verbatim at the top of every page body.
    pub x_body_ph1: String,
    /// Site-wide navigation fragment appended to the article link row.
    pub x_nav: String,
    /// Web-root URL used to resolve root-relative feed links.
    pub web_root_url: String,
}

/// One article's render-time metadata.
pub struct Post {
    pub title: String,
    pub author: String,
    /// Per-article `<head>` fragment, injected after the site-wide one.
    pub x_head: String,
    /// Optional trailing back-to-section link; empty means absent.
    pub x_nav: String,
}

/// A cross-reference from one listing to a sibling directory or tag listing.
pub struct IndexRef {
    pub name: String,
    pub typ: IndexTyp,
}

/// One dated content entry of a listing.
pub struct IndexEntry {
    pub cdate: Date,
    pub href: String,
    pub title: String,
    pub author: String,
    pub authors: Vec<String>,
}

/// One listing: its kind, its cross-references and its dated entries, both
/// stored ascending so that renderers emit them newest first.
pub struct Index {
    pub typ: IndexTyp,
    pub oidxrefs: Vec<IndexRef>,
    pub ents: Vec<IndexEntry>,
}

/// One tagged segment of mangled article content: `mangled` marks text that
/// gets the indented line treatment.
pub struct Segment {
    pub mangled: bool,
    pub text: String,
}

} // verus!
