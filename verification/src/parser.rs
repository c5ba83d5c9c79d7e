//! The recognition engine: an exact-match grammar for the recognized date
//! phrases, and a token-scanning search that locates the first phrase that
//! stands as a whole word inside arbitrary text.
//!
//! All matching works on bytes, so the reported ranges are byte offsets
//! into the input. Case-insensitivity and whitespace handling are
//! ASCII-only: bytes outside ASCII never match a phrase, never count as
//! whitespace, and pass through lowercasing unchanged, which keeps every
//! byte offset valid for the original input.

use vstd::prelude::*;
use vstd::string::StringSliceAdditionalSpecFns;

use crate::FlexibleDate;
use crate::Parsed;
use crate::Weekday;

verus! {

/// An ASCII whitespace byte. Tokens are maximal runs of bytes that are not
/// whitespace, and the whole-token boundary rule accepts exactly these.
pub open spec fn is_wsp(b: u8) -> bool {
    b == 32 || 9 <= b <= 13
}

/// ASCII lowercasing of one byte; every other byte is left unchanged.
pub open spec fn lower(b: u8) -> u8 {
    if 65 <= b <= 90 {
        (b + 32) as u8
    } else {
        b
    }
}

/// ASCII lowercasing of a byte sequence; the length never changes.
pub open spec fn lower_bytes(s: Seq<u8>) -> Seq<u8> {
    Seq::new(s.len(), |i: int| lower(s[i]))
}

pub open spec fn lit3_at(s: Seq<u8>, pos: int, c0: char, c1: char, c2: char) -> bool {
    &&& pos + 3 <= s.len()
    &&& s[pos] == c0 as u8
    &&& s[pos + 1] == c1 as u8
    &&& s[pos + 2] == c2 as u8
}

pub open spec fn lit4_at(s: Seq<u8>, pos: int, c0: char, c1: char, c2: char, c3: char) -> bool {
    &&& lit3_at(s, pos, c0, c1, c2)
    &&& pos + 4 <= s.len()
    &&& s[pos + 3] == c3 as u8
}

pub open spec fn lit5_at(
    s: Seq<u8>,
    pos: int,
    c0: char,
    c1: char,
    c2: char,
    c3: char,
    c4: char,
) -> bool {
    &&& lit4_at(s, pos, c0, c1, c2, c3)
    &&& pos + 5 <= s.len()
    &&& s[pos + 4] == c4 as u8
}

pub open spec fn lit6_at(
    s: Seq<u8>,
    pos: int,
    c0: char,
    c1: char,
    c2: char,
    c3: char,
    c4: char,
    c5: char,
) -> bool {
    &&& lit5_at(s, pos, c0, c1, c2, c3, c4)
    &&& pos + 6 <= s.len()
    &&& s[pos + 5] == c5 as u8
}

pub open spec fn lit7_at(
    s: Seq<u8>,
    pos: int,
    c0: char,
    c1: char,
    c2: char,
    c3: char,
    c4: char,
    c5: char,
    c6: char,
) -> bool {
    &&& lit6_at(s, pos, c0, c1, c2, c3, c4, c5)
    &&& pos + 7 <= s.len()
    &&& s[pos + 6] == c6 as u8
}

pub open spec fn lit8_at(
    s: Seq<u8>,
    pos: int,
    c0: char,
    c1: char,
    c2: char,
    c3: char,
    c4: char,
    c5: char,
    c6: char,
    c7: char,
) -> bool {
    &&& lit7_at(s, pos, c0, c1, c2, c3, c4, c5, c6)
    &&& pos + 8 <= s.len()
    &&& s[pos + 7] == c7 as u8
}

pub open spec fn lit9_at(
    s: Seq<u8>,
    pos: int,
    c0: char,
    c1: char,
    c2: char,
    c3: char,
    c4: char,
    c5: char,
    c6: char,
    c7: char,
    c8: char,
) -> bool {
    &&& lit8_at(s, pos, c0, c1, c2, c3, c4, c5, c6, c7)
    &&& pos + 9 <= s.len()
    &&& s[pos + 8] == c8 as u8
}

fn lit3(s: &[u8], pos: usize, c0: char, c1: char, c2: char) -> (r: bool)
    requires
        pos <= s@.len(),
    ensures
        r == lit3_at(s@, pos as int, c0, c1, c2),
{
    s.len() - pos >= 3 && s[pos] == c0 as u8 && s[pos + 1] == c1 as u8 && s[pos + 2] == c2 as u8
}

fn lit4(s: &[u8], pos: usize, c0: char, c1: char, c2: char, c3: char) -> (r: bool)
    requires
        pos <= s@.len(),
    ensures
        r == lit4_at(s@, pos as int, c0, c1, c2, c3),
{
    lit3(s, pos, c0, c1, c2) && s.len() - pos >= 4 && s[pos + 3] == c3 as u8
}

fn lit5(s: &[u8], pos: usize, c0: char, c1: char, c2: char, c3: char, c4: char) -> (r: bool)
    requires
        pos <= s@.len(),
    ensures
        r == lit5_at(s@, pos as int, c0, c1, c2, c3, c4),
{
    lit4(s, pos, c0, c1, c2, c3) && s.len() - pos >= 5 && s[pos + 4] == c4 as u8
}

fn lit6(
    s: &[u8],
    pos: usize,
    c0: char,
    c1: char,
    c2: char,
    c3: char,
    c4: char,
    c5: char,
) -> (r: bool)
    requires
        pos <= s@.len(),
    ensures
        r == lit6_at(s@, pos as int, c0, c1, c2, c3, c4, c5),
{
    lit5(s, pos, c0, c1, c2, c3, c4) && s.len() - pos >= 6 && s[pos + 5] == c5 as u8
}

fn lit7(
    s: &[u8],
    pos: usize,
    c0: char,
    c1: char,
    c2: char,
    c3: char,
    c4: char,
    c5: char,
    c6: char,
) -> (r: bool)
    requires
        pos <= s@.len(),
    ensures
        r == lit7_at(s@, pos as int, c0, c1, c2, c3, c4, c5, c6),
{
    lit6(s, pos, c0, c1, c2, c3, c4, c5) && s.len() - pos >= 7 && s[pos + 6] == c6 as u8
}

fn lit8(
    s: &[u8],
    pos: usize,
    c0: char,
    c1: char,
    c2: char,
    c3: char,
    c4: char,
    c5: char,
    c6: char,
    c7: char,
) -> (r: bool)
    requires
        pos <= s@.len(),
    ensures
        r == lit8_at(s@, pos as int, c0, c1, c2, c3, c4, c5, c6, c7),
{
    lit7(s, pos, c0, c1, c2, c3, c4, c5, c6) && s.len() - pos >= 8 && s[pos + 7] == c7 as u8
}

fn lit9(
    s: &[u8],
    pos: usize,
    c0: char,
    c1: char,
    c2: char,
    c3: char,
    c4: char,
    c5: char,
    c6: char,
    c7: char,
    c8: char,
) -> (r: bool)
    requires
        pos <= s@.len(),
    ensures
        r == lit9_at(s@, pos as int, c0, c1, c2, c3, c4, c5, c6, c7, c8),
{
    lit8(s, pos, c0, c1, c2, c3, c4, c5, c6, c7) && s.len() - pos >= 9 && s[pos + 8] == c8 as u8
}

/// Grammar of the "today" phrase class: `today` or `tod` as a literal
/// prefix at `pos`, with the longer form tried first.
pub open spec fn match_today_at(s: Seq<u8>, pos: int) -> Option<(usize, FlexibleDate)> {
    if lit5_at(s, pos, 't', 'o', 'd', 'a', 'y') {
        Some((5usize, FlexibleDate::Today))
    } else if lit3_at(s, pos, 't', 'o', 'd') {
        Some((3usize, FlexibleDate::Today))
    } else {
        None
    }
}

/// Grammar of the "tomorrow" phrase class: `tomorrow`, `tom` or `tmrw`.
pub open spec fn match_tomorrow_at(s: Seq<u8>, pos: int) -> Option<(usize, FlexibleDate)> {
    if lit8_at(s, pos, 't', 'o', 'm', 'o', 'r', 'r', 'o', 'w') {
        Some((8usize, FlexibleDate::Tomorrow))
    } else if lit3_at(s, pos, 't', 'o', 'm') {
        Some((3usize, FlexibleDate::Tomorrow))
    } else if lit4_at(s, pos, 't', 'm', 'r', 'w') {
        Some((4usize, FlexibleDate::Tomorrow))
    } else {
        None
    }
}

/// Grammar of the weekday phrase class: each full weekday name and its
/// accepted abbreviation, Sunday through Saturday.
pub open spec fn match_weekday_at(s: Seq<u8>, pos: int) -> Option<(usize, FlexibleDate)> {
    if lit6_at(s, pos, 's', 'u', 'n', 'd', 'a', 'y') {
        Some((6usize, FlexibleDate::Weekday(Weekday::Sunday)))
    } else if lit3_at(s, pos, 's', 'u', 'n') {
        Some((3usize, FlexibleDate::Weekday(Weekday::Sunday)))
    } else if lit6_at(s, pos, 'm', 'o', 'n', 'd', 'a', 'y') {
        Some((6usize, FlexibleDate::Weekday(Weekday::Monday)))
    } else if lit3_at(s, pos, 'm', 'o', 'n') {
        Some((3usize, FlexibleDate::Weekday(Weekday::Monday)))
    } else if lit7_at(s, pos, 't', 'u', 'e', 's', 'd', 'a', 'y') {
        Some((7usize, FlexibleDate::Weekday(Weekday::Tuesday)))
    } else if lit3_at(s, pos, 't', 'u', 'e') {
        Some((3usize, FlexibleDate::Weekday(Weekday::Tuesday)))
    } else if lit9_at(s, pos, 'w', 'e', 'd', 'n', 'e', 's', 'd', 'a', 'y') {
        Some((9usize, FlexibleDate::Weekday(Weekday::Wednesday)))
    } else if lit3_at(s, pos, 'w', 'e', 'd') {
        Some((3usize, FlexibleDate::Weekday(Weekday::Wednesday)))
    } else if lit8_at(s, pos, 't', 'h', 'u', 'r', 's', 'd', 'a', 'y') {
        Some((8usize, FlexibleDate::Weekday(Weekday::Thursday)))
    } else if lit5_at(s, pos, 't', 'h', 'u', 'r', 's') {
        Some((5usize, FlexibleDate::Weekday(Weekday::Thursday)))
    } else if lit6_at(s, pos, 'f', 'r', 'i', 'd', 'a', 'y') {
        Some((6usize, FlexibleDate::Weekday(Weekday::Friday)))
    } else if lit3_at(s, pos, 'f', 'r', 'i') {
        Some((3usize, FlexibleDate::Weekday(Weekday::Friday)))
    } else if lit8_at(s, pos, 's', 'a', 't', 'u', 'r', 'd', 'a', 'y') {
        Some((8usize, FlexibleDate::Weekday(Weekday::Saturday)))
    } else if lit3_at(s, pos, 's', 'a', 't') {
        Some((3usize, FlexibleDate::Weekday(Weekday::Saturday)))
    } else {
        None
    }
}

/// The whole recognizer grammar: the phrase classes tried in their fixed
/// priority order — today, tomorrow, weekday.
pub open spec fn match_exact_at(s: Seq<u8>, pos: int) -> Option<(usize, FlexibleDate)> {
    match match_today_at(s, pos) {
        Some(r) => Some(r),
        None => match match_tomorrow_at(s, pos) {
            Some(r) => Some(r),
            None => match_weekday_at(s, pos),
        },
    }
}

/// A successful match consumes between 3 and 9 bytes and never runs past
/// the end of the input.
pub proof fn lemma_match_exact_len(s: Seq<u8>, pos: int)
    ensures
        match match_exact_at(s, pos) {
            Some((n, d)) => 3 <= n <= 9 && pos + n <= s.len(),
            None => true,
        },
{
}

fn match_today(s: &[u8], pos: usize) -> (r: Option<(usize, FlexibleDate)>)
    requires
        pos <= s@.len(),
    ensures
        r == match_today_at(s@, pos as int),
{
    if lit5(s, pos, 't', 'o', 'd', 'a', 'y') {
        Some((5, FlexibleDate::Today))
    } else if lit3(s, pos, 't', 'o', 'd') {
        Some((3, FlexibleDate::Today))
    } else {
        None
    }
}

fn match_tomorrow(s: &[u8], pos: usize) -> (r: Option<(usize, FlexibleDate)>)
    requires
        pos <= s@.len(),
    ensures
        r == match_tomorrow_at(s@, pos as int),
{
    if lit8(s, pos, 't', 'o', 'm', 'o', 'r', 'r', 'o', 'w') {
        Some((8, FlexibleDate::Tomorrow))
    } else if lit3(s, pos, 't', 'o', 'm') {
        Some((3, FlexibleDate::Tomorrow))
    } else if lit4(s, pos, 't', 'm', 'r', 'w') {
        Some((4, FlexibleDate::Tomorrow))
    } else {
        None
    }
}

fn match_weekday(s: &[u8], pos: usize) -> (r: Option<(usize, FlexibleDate)>)
    requires
        pos <= s@.len(),
    ensures
        r == match_weekday_at(s@, pos as int),
{
    if lit6(s, pos, 's', 'u', 'n', 'd', 'a', 'y') {
        Some((6, FlexibleDate::Weekday(Weekday::Sunday)))
    } else if lit3(s, pos, 's', 'u', 'n') {
        Some((3, FlexibleDate::Weekday(Weekday::Sunday)))
    } else if lit6(s, pos, 'm', 'o', 'n', 'd', 'a', 'y') {
        Some((6, FlexibleDate::Weekday(Weekday::Monday)))
    } else if lit3(s, pos, 'm', 'o', 'n') {
        Some((3, FlexibleDate::Weekday(Weekday::Monday)))
    } else if lit7(s, pos, 't', 'u', 'e', 's', 'd', 'a', 'y') {
        Some((7, FlexibleDate::Weekday(Weekday::Tuesday)))
    } else if lit3(s, pos, 't', 'u', 'e') {
        Some((3, FlexibleDate::Weekday(Weekday::Tuesday)))
    } else if lit9(s, pos, 'w', 'e', 'd', 'n', 'e', 's', 'd', 'a', 'y') {
        Some((9, FlexibleDate::Weekday(Weekday::Wednesday)))
    } else if lit3(s, pos, 'w', 'e', 'd') {
        Some((3, FlexibleDate::Weekday(Weekday::Wednesday)))
    } else if lit8(s, pos, 't', 'h', 'u', 'r', 's', 'd', 'a', 'y') {
        Some((8, FlexibleDate::Weekday(Weekday::Thursday)))
    } else if lit5(s, pos, 't', 'h', 'u', 'r', 's') {
        Some((5, FlexibleDate::Weekday(Weekday::Thursday)))
    } else if lit6(s, pos, 'f', 'r', 'i', 'd', 'a', 'y') {
        Some((6, FlexibleDate::Weekday(Weekday::Friday)))
    } else if lit3(s, pos, 'f', 'r', 'i') {
        Some((3, FlexibleDate::Weekday(Weekday::Friday)))
    } else if lit8(s, pos, 's', 'a', 't', 'u', 'r', 'd', 'a', 'y') {
        Some((8, FlexibleDate::Weekday(Weekday::Saturday)))
    } else if lit3(s, pos, 's', 'a', 't') {
        Some((3, FlexibleDate::Weekday(Weekday::Saturday)))
    } else {
        None
    }
}

fn match_exact(s: &[u8], pos: usize) -> (r: Option<(usize, FlexibleDate)>)
    requires
        pos <= s@.len(),
    ensures
        r == match_exact_at(s@, pos as int),
{
    match match_today(s, pos) {
        Some(r) => Some(r),
        None => match match_tomorrow(s, pos) {
            Some(r) => Some(r),
            None => match_weekday(s, pos),
        },
    }
}

/// Matches the "today" phrase class against the start of `s`; the input is
/// expected to be lowercase already. Returns the consumed byte count and
/// the recognized value.
pub fn parse_today(s: &str) -> (r: Option<(usize, FlexibleDate)>)
    ensures
        r == match_today_at(s.spec_bytes(), 0),
{
    match_today(s.as_bytes(), 0)
}

/// Matches the "tomorrow" phrase class against the start of `s`; the input
/// is expected to be lowercase already.
pub fn parse_tomorrow(s: &str) -> (r: Option<(usize, FlexibleDate)>)
    ensures
        r == match_tomorrow_at(s.spec_bytes(), 0),
{
    match_tomorrow(s.as_bytes(), 0)
}

/// Matches the weekday phrase class against the start of `s`; the input is
/// expected to be lowercase already.
pub fn parse_weekday(s: &str) -> (r: Option<(usize, FlexibleDate)>)
    ensures
        r == match_weekday_at(s.spec_bytes(), 0),
{
    match_weekday(s.as_bytes(), 0)
}

/// Matches any recognized phrase against the start of `s`, trying the
/// phrase classes in their fixed priority order; the input is expected to
/// be lowercase already.
pub fn parse_flex_date_exact(s: &str) -> (r: Option<(usize, FlexibleDate)>)
    ensures
        r == match_exact_at(s.spec_bytes(), 0),
{
    match_exact(s.as_bytes(), 0)
}

/// The byte after a match is a valid whole-token boundary: end of input or
/// ASCII whitespace.
pub open spec fn boundary_ok(s: Seq<u8>, end: int) -> bool
    recommends
        0 <= end <= s.len(),
{
    end == s.len() || is_wsp(s[end])
}

/// A recognized phrase at `pos` that is a complete token, not a prefix of
/// a longer word.
pub open spec fn match_token_at(s: Seq<u8>, pos: int) -> Option<(usize, FlexibleDate)> {
    match match_exact_at(s, pos) {
        Some((n, d)) => if boundary_ok(s, pos + n) {
            Some((n, d))
        } else {
            None
        },
        None => None,
    }
}

fn match_token(s: &[u8], pos: usize) -> (r: Option<(usize, FlexibleDate)>)
    requires
        pos <= s@.len(),
    ensures
        r == match_token_at(s@, pos as int),
{
    let total = s.len();
    match match_exact(s, pos) {
        Some((n, d)) => {
            proof {
                lemma_match_exact_len(s@, pos as int);
            }
            if pos + n == total || is_wsp_byte(s[pos + n]) {
                Some((n, d))
            } else {
                None
            }
        },
        None => None,
    }
}

fn is_wsp_byte(b: u8) -> (r: bool)
    ensures
        r == is_wsp(b),
{
    b == 32 || (9 <= b && b <= 13)
}

/// End of the token that starts at `pos`: the first position at or after
/// `pos` that is the end of input or a whitespace byte.
pub open spec fn token_end(s: Seq<u8>, pos: int) -> int
    recommends
        0 <= pos <= s.len(),
    decreases s.len() - pos
        when 0 <= pos <= s.len()
{
    if pos >= s.len() || is_wsp(s[pos]) {
        pos
    } else {
        token_end(s, pos + 1)
    }
}

/// End of the run of whitespace bytes that starts at `pos`.
pub open spec fn wsp_end(s: Seq<u8>, pos: int) -> int
    recommends
        0 <= pos <= s.len(),
    decreases s.len() - pos
        when 0 <= pos <= s.len()
{
    if pos >= s.len() || !is_wsp(s[pos]) {
        pos
    } else {
        wsp_end(s, pos + 1)
    }
}

proof fn lemma_token_end(s: Seq<u8>, pos: int)
    requires
        0 <= pos <= s.len(),
    ensures
        pos <= token_end(s, pos) <= s.len(),
        token_end(s, pos) == s.len() || is_wsp(s[token_end(s, pos)]),
        pos < s.len() && !is_wsp(s[pos]) ==> token_end(s, pos) > pos,
    decreases s.len() - pos,
{
    if pos >= s.len() || is_wsp(s[pos]) {
    } else {
        lemma_token_end(s, pos + 1);
    }
}

proof fn lemma_wsp_end(s: Seq<u8>, pos: int)
    requires
        0 <= pos <= s.len(),
    ensures
        pos <= wsp_end(s, pos) <= s.len(),
        pos < s.len() && is_wsp(s[pos]) ==> wsp_end(s, pos) > pos,
    decreases s.len() - pos,
{
    if pos >= s.len() || !is_wsp(s[pos]) {
    } else {
        lemma_wsp_end(s, pos + 1);
    }
}

/// The token-scanning search, starting at `pos`, which must sit at a token
/// boundary. If a whole-token phrase match starts exactly at `pos`, that
/// is the result; otherwise one whitespace-delimited token and the
/// whitespace run after it are skipped and the scan continues. The scan
/// fails on input that ends, or runs out of whitespace separators, before
/// a clean match.
pub open spec fn scan_from(s: Seq<u8>, pos: int) -> Option<(int, int, FlexibleDate)>
    recommends
        0 <= pos <= s.len(),
    decreases s.len() - pos
        when 0 <= pos <= s.len()
        via scan_from_dec
{
    match match_token_at(s, pos) {
        Some((n, d)) => Some((pos, pos + n, d)),
        None => {
            if pos == s.len() {
                None
            } else if is_wsp(s[pos]) {
                None
            } else {
                let te = token_end(s, pos);
                if te == s.len() {
                    None
                } else {
                    scan_from(s, wsp_end(s, te))
                }
            }
        },
    }
}

#[via_fn]
proof fn scan_from_dec(s: Seq<u8>, pos: int) {
    if 0 <= pos <= s.len() && match_token_at(s, pos) is None && pos < s.len() && !is_wsp(
        s[pos],
    ) {
        lemma_token_end(s, pos);
        let te = token_end(s, pos);
        if te < s.len() {
            lemma_wsp_end(s, te);
        }
    }
}

fn scan(s: &[u8]) -> (r: Option<(usize, usize, FlexibleDate)>)
    ensures
        match scan_from(s@, 0) {
            Some((a, b, d)) => r matches Some(t) && t.0 == a && t.1 == b && t.2 == d,
            None => r is None,
        },
{
    let n = s.len();
    let mut pos: usize = 0;
    loop
        invariant
            pos <= n,
            n == s@.len(),
            scan_from(s@, 0) == scan_from(s@, pos as int),
        decreases n - pos,
    {
        match match_token(s, pos) {
            Some((k, d)) => {
                proof {
                    lemma_match_exact_len(s@, pos as int);
                }
                return Some((pos, pos + k, d));
            },
            None => {},
        }
        if pos == n {
            return None;
        }
        if is_wsp_byte(s[pos]) {
            return None;
        }
        let ghost start = pos as int;
        while pos < n && !(s[pos] == 32 || (9 <= s[pos] && s[pos] <= 13))
            invariant
                start <= pos <= n,
                n == s@.len(),
                token_end(s@, start) == token_end(s@, pos as int),
            decreases n - pos,
        {
            pos = pos + 1;
        }
        assert(pos == token_end(s@, start));
        if pos == n {
            return None;
        }
        let ghost te = pos as int;
        while pos < n && (s[pos] == 32 || (9 <= s[pos] && s[pos] <= 13))
            invariant
                te <= pos <= n,
                n == s@.len(),
                wsp_end(s@, te) == wsp_end(s@, pos as int),
            decreases n - pos,
        {
            pos = pos + 1;
        }
        assert(pos == wsp_end(s@, te));
    }
}

fn to_lower_vec(s: &[u8]) -> (r: Vec<u8>)
    ensures
        r@ == lower_bytes(s@),
{
    let mut v: Vec<u8> = Vec::new();
    let mut i: usize = 0;
    while i < s.len()
        invariant
            i <= s@.len(),
            v@.len() == i,
            forall|j: int| 0 <= j < i ==> v@[j] == lower(s@[j]),
        decreases s@.len() - i,
    {
        let b = s[i];
        if 65 <= b && b <= 90 {
            v.push(b + 32);
        } else {
            v.push(b);
        }
        i = i + 1;
    }
    proof {
        assert(v@ =~= lower_bytes(s@));
    }
    v
}

/// Law: a successful scan always reports a well-formed range — it starts
/// no earlier than where the scan began, it is non-empty, it ends within
/// the input, and a whole-token phrase match with the reported value
/// stands exactly at its start.
pub proof fn lemma_scan_from_range(s: Seq<u8>, pos: int)
    requires
        0 <= pos <= s.len(),
    ensures
        match scan_from(s, pos) {
            Some((a, b, d)) => pos <= a && a < b && b <= s.len() && match_token_at(s, a)
                == Some((((b - a) as usize), d)),
            None => true,
        },
    decreases s.len() - pos,
{
    match match_token_at(s, pos) {
        Some(_) => {
            lemma_match_exact_len(s, pos);
        },
        None => {
            if pos == s.len() || is_wsp(s[pos]) {
            } else {
                lemma_token_end(s, pos);
                let te = token_end(s, pos);
                if te < s.len() {
                    lemma_wsp_end(s, te);
                    lemma_scan_from_range(s, wsp_end(s, te));
                }
            }
        },
    }
}

/// Locates and recognizes the first relative-date phrase that stands as a
/// whole token anywhere in `input`. Matching is done against an ASCII
/// lowercasing of the input; the returned range is in byte offsets of the
/// original input and excludes any trailing whitespace.
pub fn parse_flex_date(input: &str) -> (r: Option<Parsed<FlexibleDate>>)
    ensures
        match scan_from(lower_bytes(input.spec_bytes()), 0) {
            Some((a, b, d)) => r matches Some(p) && p.data == d && p.range.start == a
                && p.range.end == b,
            None => r is None,
        },
        r matches Some(p) ==> p.range.start < p.range.end <= input.spec_bytes().len()
            && match_token_at(lower_bytes(input.spec_bytes()), p.range.start as int) == Some(
            (((p.range.end - p.range.start) as usize), p.data),
        ),
{
    proof {
        lemma_scan_from_range(lower_bytes(input.spec_bytes()), 0);
    }
    let low = to_lower_vec(input.as_bytes());
    match scan(low.as_slice()) {
        Some((a, b, d)) => Some(Parsed { data: d, range: core::ops::Range { start: a, end: b } }),
        None => None,
    }
}

/// First position at or after `pos` that does not hold ASCII whitespace.
pub open spec fn first_non_wsp(s: Seq<u8>, pos: int) -> int
    recommends
        0 <= pos <= s.len(),
    decreases s.len() - pos
        when 0 <= pos <= s.len()
{
    if pos >= s.len() || !is_wsp(s[pos]) {
        pos
    } else {
        first_non_wsp(s, pos + 1)
    }
}

/// First position at or below `pos` with no ASCII whitespace just before
/// it.
pub open spec fn trimmed_end(s: Seq<u8>, pos: int) -> int
    recommends
        0 <= pos <= s.len(),
    decreases pos
        when 0 <= pos <= s.len()
{
    if pos <= 0 || !is_wsp(s[pos - 1]) {
        pos
    } else {
        trimmed_end(s, pos - 1)
    }
}

/// The input with ASCII whitespace removed from both ends.
pub open spec fn trimmed(s: Seq<u8>) -> Seq<u8> {
    let lo = first_non_wsp(s, 0);
    let hi = trimmed_end(s, s.len() as int);
    if lo <= hi {
        s.subrange(lo, hi)
    } else {
        Seq::empty()
    }
}

/// What exact parsing yields: the whole trimmed input, lowercased, must be
/// exactly one recognized phrase.
pub open spec fn parse_exact_spec(s: Seq<u8>) -> Option<FlexibleDate> {
    let t = lower_bytes(trimmed(s));
    match match_exact_at(t, 0) {
        Some((n, d)) => if n == t.len() {
            Some(d)
        } else {
            None
        },
        None => None,
    }
}

/// Recognizes `text` as one relative-date phrase standing alone:
/// whitespace around the phrase is ignored, case is not significant, and
/// any other surrounding text makes the parse fail.
pub(crate) fn parse_exact_str(text: &str) -> (r: Option<FlexibleDate>)
    ensures
        r == parse_exact_spec(text.spec_bytes()),
{
    let b = text.as_bytes();
    let n = b.len();
    let mut lo: usize = 0;
    while lo < n && (b[lo] == 32 || (9 <= b[lo] && b[lo] <= 13))
        invariant
            0 <= lo <= n,
            n == b@.len(),
            first_non_wsp(b@, 0) == first_non_wsp(b@, lo as int),
        decreases n - lo,
    {
        lo = lo + 1;
    }
    assert(lo == first_non_wsp(b@, 0));
    let mut hi: usize = n;
    while hi > 0 && (b[hi - 1] == 32 || (9 <= b[hi - 1] && b[hi - 1] <= 13))
        invariant
            0 <= hi <= n,
            n == b@.len(),
            trimmed_end(b@, n as int) == trimmed_end(b@, hi as int),
        decreases hi,
    {
        hi = hi - 1;
    }
    assert(hi == trimmed_end(b@, n as int));
    if lo >= hi {
        proof {
            assert(trimmed(b@).len() == 0);
            assert(lower_bytes(trimmed(b@)).len() == 0);
        }
        return None;
    }
    let mut low: Vec<u8> = Vec::new();
    let mut i: usize = lo;
    while i < hi
        invariant
            lo <= i <= hi <= n,
            n == b@.len(),
            low@.len() == i - lo,
            forall|j: int| 0 <= j < i - lo ==> low@[j] == lower(b@[lo + j]),
        decreases hi - i,
    {
        let c = b[i];
        if 65 <= c && c <= 90 {
            low.push(c + 32);
        } else {
            low.push(c);
        }
        i = i + 1;
    }
    proof {
        assert(trimmed(b@) =~= b@.subrange(lo as int, hi as int));
        assert(low@ =~= lower_bytes(trimmed(b@)));
    }
    match match_exact(low.as_slice(), 0) {
        Some((k, d)) => {
            if k == low.len() {
                Some(d)
            } else {
                None
            }
        },
        None => None,
    }
}

proof fn lemma_token_end_all(s: Seq<u8>, pos: int)
    requires
        0 <= pos <= s.len(),
        forall|i: int| pos <= i < s.len() ==> !is_wsp(s[i]),
    ensures
        token_end(s, pos) == s.len(),
    decreases s.len() - pos,
{
    if pos < s.len() {
        lemma_token_end_all(s, pos + 1);
    }
}

/// Law: scanning is case-insensitive — two inputs whose ASCII lowercasings
/// agree are scanned to the same value and the same range.
pub proof fn lemma_scan_case_insensitive(s: Seq<u8>, t: Seq<u8>)
    requires
        lower_bytes(s) == lower_bytes(t),
    ensures
        scan_from(lower_bytes(s), 0) == scan_from(lower_bytes(t), 0),
{
}

/// Law: a recognized phrase standing alone — an input that the recognizer
/// matches in full — is found by the scan as a match that spans the whole
/// input and carries the recognized value.
pub proof fn lemma_find_whole_literal(s: Seq<u8>, n: usize, d: FlexibleDate)
    requires
        match_exact_at(s, 0) == Some((n, d)),
        n == s.len(),
    ensures
        scan_from(lower_bytes(s), 0) == Some((0int, s.len() as int, d)),
{
    assert(lower_bytes(s) =~= s);
    assert(boundary_ok(s, n as int));
    assert(match_token_at(s, 0) == Some((n, d)));
}

/// Law: on a single bare token — a non-empty input with no whitespace —
/// exact parsing and scanning agree: either both fail, or exact parsing
/// recognizes the token and the scan finds the same value as a match that
/// spans the whole input.
pub proof fn lemma_exact_find_agree(s: Seq<u8>)
    requires
        s.len() > 0,
        forall|i: int| 0 <= i < s.len() ==> !is_wsp(s[i]),
    ensures
        match parse_exact_spec(s) {
            Some(d) => scan_from(lower_bytes(s), 0) == Some((0int, s.len() as int, d)),
            None => scan_from(lower_bytes(s), 0) is None,
        },
{
    assert(trimmed(s) =~= s);
    let low = lower_bytes(s);
    assert(forall|i: int| 0 <= i < low.len() ==> !is_wsp(#[trigger] low[i]));
    match match_exact_at(low, 0) {
        Some((n, d)) => {
            lemma_match_exact_len(low, 0);
            if n == low.len() {
                assert(boundary_ok(low, n as int));
            } else {
                assert(!boundary_ok(low, n as int));
                assert(match_token_at(low, 0) is None);
                lemma_token_end_all(low, 0);
            }
        },
        None => {
            lemma_token_end_all(low, 0);
        },
    }
}

} // verus!
