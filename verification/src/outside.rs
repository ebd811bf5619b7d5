//! What comes from the machine: the clock and random identifiers.

use crate::text;
use vstd::prelude::*;

verus! {

/// Whether `c` is a lower-case hexadecimal digit.
pub open spec fn is_hex(c: char) -> bool {
    '0' <= c <= '9' || 'a' <= c <= 'f'
}

/// Whether `s` is 32 lower-case hexadecimal digits.
pub open spec fn is_simple_uuid(s: Seq<char>) -> bool {
    s.len() == 32 && forall|i: int| 0 <= i < s.len() ==> is_hex(#[trigger] s[i])
}

/// `uuid::Uuid::new_v4` in its simple form: a random identifier, 32 lower-case
/// hexadecimal digits. Which digits is left to chance.
#[verifier::external_body]
pub(crate) fn new_simple_uuid() -> (r: String)
    ensures
        is_simple_uuid(r@),
{
    uuid::Uuid::new_v4().simple().to_string()
}

/// `std::time::SystemTime::now` as whole seconds since 1970, or 0 where the
/// clock stands before that. Which moment it is, nothing says.
#[verifier::external_body]
pub(crate) fn clock_secs() -> (r: u64) {
    std::time::SystemTime::now().duration_since(std::time::UNIX_EPOCH).map(|d| d.as_secs()).unwrap_or(0)
}

/// `chrono::Utc::now` written by `to_rfc3339`. Which moment it is, nothing says.
#[verifier::external_body]
pub(crate) fn clock_text() -> (r: String) {
    chrono::Utc::now().to_rfc3339()
}

/// The form with hyphens of 32 digits.
pub open spec fn hyphenated(s: Seq<char>) -> Seq<char> {
    s.take(8) + seq!['-'] + s.subrange(8, 12) + seq!['-'] + s.subrange(12, 16) + seq!['-']
        + s.subrange(16, 20) + seq!['-'] + s.skip(20)
}

/// Whether `s` is an identifier in its form with hyphens: 32 lower-case
/// hexadecimal digits in groups of 8, 4, 4, 4 and 12.
pub open spec fn is_uuid(s: Seq<char>) -> bool {
    &&& s.len() == 36
    &&& forall|i: int|
        0 <= i < 36 ==> if i == 8 || i == 13 || i == 18 || i == 23 {
            #[trigger] s[i] == '-'
        } else {
            is_hex(s[i])
        }
}

/// A random identifier in its form with hyphens.
pub(crate) fn new_uuid() -> (r: String)
    ensures
        is_uuid(r@),
{
    let s = new_simple_uuid();
    let a = text::take(&s, 8);
    let b = text::take(&text::skip(&s, 8), 4);
    let c = text::take(&text::skip(&s, 12), 4);
    let d = text::take(&text::skip(&s, 16), 4);
    let e = text::skip(&s, 20);
    let front = text::concat3(&a, "-", &b);
    let middle = text::concat3(&c, "-", &d);
    let tail = text::concat2("-", &e);
    proof {
        reveal_strlit("-");
    }
    let r = text::concat2(&text::concat3(&front, "-", &middle), &tail);
    assert(r@ =~= hyphenated(s@));
    r
}

/// The form with hyphens of the identifier that a text writes; none where it
/// writes none. A text writes one, in letters of either case, as its 32 digits, in
/// its form with hyphens, in that form between braces, or in that form after
/// `urn:uuid:`.
pub open spec fn uuid_of(s: Seq<char>) -> Option<Seq<char>> {
    let l = text::ascii_lower(s);
    if is_simple_uuid(l) {
        Some(hyphenated(l))
    } else if is_uuid(l) {
        Some(l)
    } else if l.len() == 38 && l[0] == '{' && l[37] == '}' && is_uuid(l.subrange(1, 37)) {
        Some(l.subrange(1, 37))
    } else if l.len() == 45 && l.take(9) == "urn:uuid:"@ && is_uuid(l.skip(9)) {
        Some(l.skip(9))
    } else {
        None
    }
}

/// `uuid::Uuid::parse_str`, and the form with hyphens of what it returns: the
/// identifier that `s` writes in one of the four forms.
#[verifier::external_body]
pub(crate) fn parse_uuid(s: &str) -> (r: Option<String>)
    ensures
        text::opt_view(r) == uuid_of(s@),
{
    uuid::Uuid::parse_str(s).ok().map(|u| u.to_string())
}

/// What a text writes is an identifier in its form with hyphens, and such an
/// identifier writes itself.
pub proof fn law_uuid_is_hyphenated(s: Seq<char>)
    ensures
        uuid_of(s) matches Some(u) ==> is_uuid(u),
        is_uuid(s) ==> uuid_of(s) == Some(s),
{
    let l = text::ascii_lower(s);
    if is_simple_uuid(l) {
        let h = hyphenated(l);
        assert(h.len() == 36);
        assert forall|i: int| 0 <= i < 36 implies if i == 8 || i == 13 || i == 18 || i == 23 {
            #[trigger] h[i] == '-'
        } else {
            is_hex(h[i])
        } by {
            if i < 8 {
                assert(h[i] == l[i]);
            } else if 8 < i < 13 {
                assert(h[i] == l[i - 1]);
            } else if 13 < i < 18 {
                assert(h[i] == l[i - 2]);
            } else if 18 < i < 23 {
                assert(h[i] == l[i - 3]);
            } else if 23 < i {
                assert(h[i] == l[i - 4]);
            }
        }
    }
    if is_uuid(s) {
        assert forall|i: int| 0 <= i < 36 implies l[i] == s[i] by {
            assert(s[i] == '-' || is_hex(s[i]));
        }
        assert(l =~= s);
    }
}

/// `n` random identifiers.
pub(crate) fn new_simple_uuids(n: usize) -> (r: Vec<String>)
    ensures
        r@.len() == n,
        forall|i: int| 0 <= i < n ==> is_simple_uuid((#[trigger] r@[i])@),
{
    let mut out: Vec<String> = Vec::new();
    for i in 0..n
        invariant
            out@.len() == i,
            forall|k: int| 0 <= k < i ==> is_simple_uuid((#[trigger] out@[k])@),
    {
        out.push(new_simple_uuid());
    }
    out
}

} // verus!
