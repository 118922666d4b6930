//! Small text helpers shared by the renderers: ampersand escaping for hrefs,
//! detection of characters that need HTML escaping, absolute-link detection,
//! and fixed-width decimal date formatting.

use crate::model::Date;
use vstd::prelude::*;

verus! {

/// What one character contributes to an ampersand-escaped string.
pub open spec fn escape_char(c: char) -> Seq<char> {
    if c == '&' {
        "&amp;"@
    } else {
        seq![c]
    }
}

/// `s` with every `&` replaced by `&amp;`, the escaping applied to link
/// targets of cross-reference lines.
pub open spec fn escape_amp(s: Seq<char>) -> Seq<char>
    decreases s.len(),
{
    if s.len() == 0 {
        Seq::empty()
    } else {
        escape_char(s[0]) + escape_amp(s.skip(1))
    }
}

/// The inverse reading of [`escape_amp`]: every `&amp;` collapses back to `&`.
pub open spec fn unescape_amp(s: Seq<char>) -> Seq<char>
    decreases s.len(),
{
    if s.len() == 0 {
        Seq::empty()
    } else if s.len() >= 5 && s.subrange(0, 5) == "&amp;"@ {
        seq!['&'] + unescape_amp(s.skip(5))
    } else {
        seq![s[0]] + unescape_amp(s.skip(1))
    }
}

pub proof fn lemma_escape_amp_snoc(s: Seq<char>, c: char)
    ensures
        escape_amp(s.push(c)) == escape_amp(s) + escape_char(c),
    decreases s.len(),
{
    assert(s.push(c)[s.len() as int] == c);
    if s.len() == 0 {
        assert(s.push(c).skip(1) =~= Seq::<char>::empty());
        assert(escape_amp(s.push(c)) == escape_char(c) + escape_amp(Seq::<char>::empty()));
        assert(escape_amp(s.push(c)) =~= escape_amp(s) + escape_char(c));
    } else {
        assert(s.push(c)[0] == s[0]);
        assert(s.push(c).skip(1) =~= s.skip(1).push(c));
        lemma_escape_amp_snoc(s.skip(1), c);
        assert(escape_amp(s.push(c)) == escape_char(s[0]) + (escape_amp(s.skip(1))
            + escape_char(c)));
        assert(escape_amp(s.push(c)) =~= escape_amp(s) + escape_char(c));
    }
}

/// Escaping an `&` produces `&amp;` and nothing is escaped twice: collapsing
/// every `&amp;` of the escaped text recovers the original text exactly.
pub proof fn lemma_escape_amp_roundtrip(s: Seq<char>)
    ensures
        unescape_amp(escape_amp(s)) == s,
    decreases s.len(),
{
    reveal_strlit("&amp;");
    if s.len() == 0 {
    } else {
        let c = s[0];
        let rest = s.skip(1);
        lemma_escape_amp_roundtrip(rest);
        if c == '&' {
            let e = "&amp;"@ + escape_amp(rest);
            assert(escape_amp(s) == e);
            assert(e.len() >= 5);
            assert(e.subrange(0, 5) =~= "&amp;"@);
            assert(e.skip(5) =~= escape_amp(rest));
            assert(seq!['&'] + rest =~= s);
        } else {
            let e = seq![c] + escape_amp(rest);
            assert(escape_amp(s) == e);
            assert(e[0] == c);
            if e.len() >= 5 && e.subrange(0, 5) == "&amp;"@ {
                assert(e.subrange(0, 5)[0] == e[0]);
                assert(false);
            }
            assert(e.skip(1) =~= escape_amp(rest));
            assert(seq![c] + rest =~= s);
        }
    }
}

/// `s` with every `&` replaced by `&amp;`.
pub fn escape_amp_str(s: &str) -> (r: String)
    ensures
        r@ == escape_amp(s@),
{
    let n = s.unicode_len();
    let mut out = String::new();
    let mut i: usize = 0;
    proof {
        assert(s@.subrange(0, 0) =~= Seq::<char>::empty());
        assert(out@ =~= escape_amp(s@.subrange(0, 0)));
    }
    while i < n
        invariant
            i <= n,
            n == s@.len(),
            out@ == escape_amp(s@.subrange(0, i as int)),
        decreases n - i,
    {
        let c = s.get_char(i);
        if c == '&' {
            out.append("&amp;");
        } else {
            let piece = s.substring_char(i, i + 1);
            proof {
                assert(s@.subrange(i as int, i as int + 1) =~= seq![s@[i as int]]);
            }
            out.append(piece);
        }
        proof {
            lemma_escape_amp_snoc(s@.subrange(0, i as int), s@[i as int]);
            assert(s@.subrange(0, i as int).push(s@[i as int]) =~= s@.subrange(
                0,
                i as int + 1,
            ));
        }
        i += 1;
    }
    proof {
        assert(s@.subrange(0, n as int) =~= s@);
    }
    out
}

/// The characters whose presence in a title makes it require HTML escaping.
pub open spec fn html_special(c: char) -> bool {
    c == '&' || c == '<' || c == '>' || c == '"' || c == '\''
}

pub open spec fn spec_needs_html_escape(s: Seq<char>) -> bool {
    exists|i: int| 0 <= i < s.len() && html_special(s[i])
}

/// Whether `s` holds a character requiring HTML escaping; such feed titles
/// are wrapped in a CDATA section instead of being used verbatim.
pub fn needs_html_escape(s: &str) -> (b: bool)
    ensures
        b == spec_needs_html_escape(s@),
{
    let n = s.unicode_len();
    let mut i: usize = 0;
    while i < n
        invariant
            i <= n,
            n == s@.len(),
            forall|j: int| 0 <= j < i ==> !html_special(s@[j]),
        decreases n - i,
    {
        let c = s.get_char(i);
        if c == '&' || c == '<' || c == '>' || c == '"' || c == '\'' {
            return true;
        }
        i += 1;
    }
    false
}

/// Whether `s` holds the scheme separator `://` anywhere.
pub open spec fn contains_scheme(s: Seq<char>) -> bool {
    exists|i: int|
        0 <= i && i + 3 <= s.len() && #[trigger] s[i] == ':' && s[i + 1] == '/' && s[i + 2]
            == '/'
}

/// An href is absolute when it is root-relative (leading `/`) or carries a
/// scheme separator; such feed entries use the creation date as timestamp.
pub open spec fn spec_href_is_absolute(s: Seq<char>) -> bool {
    (s.len() > 0 && s[0] == '/') || contains_scheme(s)
}

pub fn href_is_absolute(s: &str) -> (b: bool)
    ensures
        b == spec_href_is_absolute(s@),
{
    let n = s.unicode_len();
    if n > 0 && s.get_char(0) == '/' {
        return true;
    }
    if n < 3 {
        return false;
    }
    let mut i: usize = 0;
    while i <= n - 3
        invariant
            n == s@.len(),
            3 <= n,
            i <= n - 2,
            forall|j: int|
                0 <= j < i ==> !(#[trigger] s@[j] == ':' && s@[j + 1] == '/' && s@[j + 2]
                    == '/'),
            !(s@.len() > 0 && s@[0] == '/'),
        decreases n - i,
    {
        if s.get_char(i) == ':' && s.get_char(i + 1) == '/' && s.get_char(i + 2) == '/' {
            proof {
                assert(0 <= i as int && i as int + 3 <= s@.len() && s@[i as int] == ':'
                    && s@[i as int + 1] == '/' && s@[i as int + 2] == '/');
            }
            return true;
        }
        i += 1;
    }
    false
}

/// The decimal digit `d` as a character.
pub open spec fn digit_char(d: int) -> char {
    if d == 0 {
        '0'
    } else if d == 1 {
        '1'
    } else if d == 2 {
        '2'
    } else if d == 3 {
        '3'
    } else if d == 4 {
        '4'
    } else if d == 5 {
        '5'
    } else if d == 6 {
        '6'
    } else if d == 7 {
        '7'
    } else if d == 8 {
        '8'
    } else {
        '9'
    }
}

/// `n` zero-padded to two decimal digits.
pub open spec fn two_digits(n: int) -> Seq<char> {
    seq![digit_char(n / 10), digit_char(n % 10)]
}

/// `n` zero-padded to four decimal digits.
pub open spec fn four_digits(n: int) -> Seq<char> {
    seq![
        digit_char(n / 1000),
        digit_char((n / 100) % 10),
        digit_char((n / 10) % 10),
        digit_char(n % 10),
    ]
}

/// A date rendered in the fixed day-month-year pattern of index lines.
pub open spec fn fmt_date(d: Date) -> Seq<char> {
    two_digits(d.day as int) + "."@ + two_digits(d.month as int) + "."@ + four_digits(
        d.year as int,
    )
}

fn digit_str(d: u8) -> (r: &'static str)
    requires
        d < 10,
    ensures
        r@ == seq![digit_char(d as int)],
{
    proof {
        reveal_strlit("0");
        reveal_strlit("1");
        reveal_strlit("2");
        reveal_strlit("3");
        reveal_strlit("4");
        reveal_strlit("5");
        reveal_strlit("6");
        reveal_strlit("7");
        reveal_strlit("8");
        reveal_strlit("9");
    }
    let r = if d == 0 {
        "0"
    } else if d == 1 {
        "1"
    } else if d == 2 {
        "2"
    } else if d == 3 {
        "3"
    } else if d == 4 {
        "4"
    } else if d == 5 {
        "5"
    } else if d == 6 {
        "6"
    } else if d == 7 {
        "7"
    } else if d == 8 {
        "8"
    } else {
        "9"
    };
    proof {
        assert(r@ =~= seq![digit_char(d as int)]);
    }
    r
}

fn push_two_digits(out: &mut String, n: u8)
    requires
        n < 100,
    ensures
        final(out)@ == old(out)@ + two_digits(n as int),
{
    out.append(digit_str(n / 10));
    out.append(digit_str(n % 10));
    proof {
        assert(out@ =~= old(out)@ + two_digits(n as int));
    }
}

fn push_four_digits(out: &mut String, n: u16)
    requires
        n < 10000,
    ensures
        final(out)@ == old(out)@ + four_digits(n as int),
{
    out.append(digit_str((n / 1000) as u8));
    out.append(digit_str(((n / 100) % 10) as u8));
    out.append(digit_str(((n / 10) % 10) as u8));
    out.append(digit_str((n % 10) as u8));
    proof {
        assert(out@ =~= old(out)@ + four_digits(n as int));
    }
}

/// The date rendered as `dd.mm.yyyy`.
pub fn date_string(d: &Date) -> (r: String)
    requires
        d.valid(),
    ensures
        r@ == fmt_date(*d),
{
    let mut out = String::new();
    push_two_digits(&mut out, d.day);
    out.append(".");
    push_two_digits(&mut out, d.month);
    out.append(".");
    push_four_digits(&mut out, d.year);
    proof {
        assert(out@ =~= fmt_date(*d));
    }
    out
}

} // verus!
