//! Text helpers: searching, trimming, splitting, and reading and writing
//! numbers, with every result stated over the characters of the text.

use vstd::prelude::*;

verus! {

/// `std::string::String::push` appends one character to the end.
pub assume_specification[ std::string::String::push ](s: &mut String, c: char)
    ensures
        final(s)@ == old(s)@.push(c),
;

/// What `std::string::String::from_utf8` says of bytes that are not UTF-8.
pub uninterp spec fn utf8_fault(bytes: Seq<u8>) -> Seq<char>;

/// `std::string::String::from_utf8`: the text that the bytes encode, or, where
/// they are not UTF-8, the words of its error, which only the bytes decide.
#[verifier::external_body]
pub(crate) fn utf8_text(bytes: Vec<u8>) -> (r: Result<String, String>)
    ensures
        match r {
            Ok(s) => vstd::utf8::valid_utf8(bytes@) && s@ == vstd::utf8::decode_utf8(bytes@),
            Err(m) => !vstd::utf8::valid_utf8(bytes@) && m@ == utf8_fault(bytes@),
        },
{
    String::from_utf8(bytes).map_err(|e| e.to_string())
}

/// The text that `std::string::String::from_utf8_lossy` makes of bytes that are
/// not UTF-8.
pub uninterp spec fn utf8_repaired(bytes: Seq<u8>) -> Seq<char>;

/// The text that bytes encode; where they are not UTF-8, as it is repaired.
pub open spec fn lossy(bytes: Seq<u8>) -> Seq<char> {
    if vstd::utf8::valid_utf8(bytes) {
        vstd::utf8::decode_utf8(bytes)
    } else {
        utf8_repaired(bytes)
    }
}

/// `std::string::String::from_utf8_lossy`: the text that the bytes encode, or,
/// where they are not UTF-8, what depends on the bytes alone.
#[verifier::external_body]
pub(crate) fn lossy_text(bytes: &[u8]) -> (r: String)
    ensures
        r@ == (if vstd::utf8::valid_utf8(bytes@) {
            vstd::utf8::decode_utf8(bytes@)
        } else {
            utf8_repaired(bytes@)
        }),
{
    String::from_utf8_lossy(bytes).into_owned()
}

/// Whether every character of `s` is one of ASCII.
pub open spec fn is_ascii(s: Seq<char>) -> bool {
    forall|i: int| 0 <= i < s.len() ==> (#[trigger] s[i] as u32) < 128
}

/// A text with characters beyond ASCII in upper case, by Unicode's rules.
pub uninterp spec fn uppercase(s: Seq<char>) -> Seq<char>;

/// A text with characters beyond ASCII in lower case, by Unicode's rules.
pub uninterp spec fn lowercase(s: Seq<char>) -> Seq<char>;

/// A text in upper case.
pub open spec fn upper(s: Seq<char>) -> Seq<char> {
    if is_ascii(s) {
        ascii_upper(s)
    } else {
        uppercase(s)
    }
}

/// A text in lower case.
pub open spec fn lower(s: Seq<char>) -> Seq<char> {
    if is_ascii(s) {
        ascii_lower(s)
    } else {
        lowercase(s)
    }
}

/// `str::to_uppercase`: of a text of ASCII alone, its letters in upper case; of
/// another, what depends on the text alone.
#[verifier::external_body]
pub(crate) fn to_upper(s: &str) -> (r: String)
    ensures
        r@ == (if is_ascii(s@) {
            ascii_upper(s@)
        } else {
            uppercase(s@)
        }),
{
    s.to_uppercase()
}

/// `str::to_lowercase`: of a text of ASCII alone, its letters in lower case; of
/// another, what depends on the text alone.
#[verifier::external_body]
pub(crate) fn to_lower(s: &str) -> (r: String)
    ensures
        r@ == (if is_ascii(s@) {
            ascii_lower(s@)
        } else {
            lowercase(s@)
        }),
{
    s.to_lowercase()
}

/// The characters of `s`, in order.
pub fn chars_of(s: &str) -> (r: Vec<char>)
    ensures
        r@ == s@,
{
    let mut out: Vec<char> = Vec::new();
    for c in it: s.chars()
        invariant
            it.seq() == s@,
            out@ == s@.take(it.index() as int),
    {
        out.push(c);
    }
    out
}

/// The text made of `cs`.
pub fn string_of(cs: &[char]) -> (r: String)
    ensures
        r@ == cs@,
{
    let mut out = String::new();
    for i in 0..cs.len()
        invariant
            out@ == cs@.take(i as int),
    {
        out.push(cs[i]);
    }
    assert(cs@.take(cs@.len() as int) =~= cs@);
    out
}

/// Whether two texts hold the same characters.
pub fn str_eq(a: &str, b: &str) -> (r: bool)
    ensures
        r == (a@ == b@),
{
    a.to_owned() == b.to_owned()
}

/// A copy of `s`.
pub fn copy(s: &str) -> (r: String)
    ensures
        r@ == s@,
{
    s.to_owned()
}

/// `a` followed by `b`.
pub fn concat2(a: &str, b: &str) -> (r: String)
    ensures
        r@ == a@ + b@,
{
    let mut out = copy(a);
    out.append(b);
    out
}

/// `a`, `b` and `c` in a row.
pub fn concat3(a: &str, b: &str, c: &str) -> (r: String)
    ensures
        r@ == a@ + b@ + c@,
{
    let mut out = concat2(a, b);
    out.append(c);
    out
}

/// The texts of a list, as character sequences.
pub open spec fn views(v: Seq<String>) -> Seq<Seq<char>> {
    v.map_values(|s: String| s@)
}

/// Appending to a list appends to its texts.
pub proof fn lemma_views_push(v: Seq<String>, s: String)
    ensures
        views(v.push(s)) == views(v).push(s@),
{
    assert(views(v.push(s)) =~= views(v).push(s@));
}

/// The text of an optional string.
pub open spec fn opt_view(o: Option<String>) -> Option<Seq<char>> {
    match o {
        Some(s) => Some(s@),
        None => None,
    }
}

/// A copy of an optional text.
pub fn copy_opt(o: &Option<String>) -> (r: Option<String>)
    ensures
        opt_view(r) == opt_view(*o),
{
    match o {
        Some(s) => Some(copy(s)),
        None => None,
    }
}

/// A copy of a list of texts.
pub fn copy_list(v: &Vec<String>) -> (r: Vec<String>)
    ensures
        views(r@) == views(v@),
{
    let mut out: Vec<String> = Vec::new();
    for i in 0..v.len()
        invariant
            views(out@) == views(v@).take(i as int),
    {
        let item = copy(&v[i]);
        proof {
            lemma_views_push(out@, item);
            assert(views(v@).take(i as int + 1) =~= views(v@).take(i as int).push(v@[i as int]@));
        }
        out.push(item);
    }
    assert(views(v@).take(v@.len() as int) =~= views(v@));
    out
}

/// Whether some text of `v` equals `s`.
pub fn list_has(v: &Vec<String>, s: &str) -> (r: bool)
    ensures
        r == views(v@).contains(s@),
{
    for i in 0..v.len()
        invariant
            forall|j: int| 0 <= j < i ==> views(v@)[j] != s@,
    {
        if str_eq(&v[i], s) {
            assert(views(v@)[i as int] == s@);
            return true;
        }
    }
    false
}

/// Unicode's `White_Space` characters.
pub open spec fn is_space(c: char) -> bool {
    let n = c as u32;
    ||| 9 <= n <= 13
    ||| n == 32
    ||| n == 0x85
    ||| n == 0xA0
    ||| n == 0x1680
    ||| 0x2000 <= n <= 0x200A
    ||| n == 0x2028
    ||| n == 0x2029
    ||| n == 0x202F
    ||| n == 0x205F
    ||| n == 0x3000
}

/// Whether `c` is one of Unicode's `White_Space` characters.
pub fn char_is_space(c: char) -> (r: bool)
    ensures
        r == is_space(c),
{
    let n: u32 = c as u32;
    (9 <= n && n <= 13) || n == 32 || n == 0x85 || n == 0xA0 || n == 0x1680 || (0x2000 <= n && n
        <= 0x200A) || n == 0x2028 || n == 0x2029 || n == 0x202F || n == 0x205F || n == 0x3000
}

/// `s` without its leading white space.
pub open spec fn trim_start(s: Seq<char>) -> Seq<char>
    decreases s.len(),
{
    if s.len() > 0 && is_space(s[0]) {
        trim_start(s.skip(1))
    } else {
        s
    }
}

/// `s` without its trailing white space.
pub open spec fn trim_end(s: Seq<char>) -> Seq<char>
    decreases s.len(),
{
    if s.len() > 0 && is_space(s.last()) {
        trim_end(s.drop_last())
    } else {
        s
    }
}

/// `s` without the white space around it.
pub open spec fn trimmed(s: Seq<char>) -> Seq<char> {
    trim_end(trim_start(s))
}

/// `s` without the white space around it.
pub fn trim(s: &str) -> (r: String)
    ensures
        r@ == trimmed(s@),
{
    let cs = chars_of(s);
    let mut lo: usize = 0;
    assert(cs@.skip(0) =~= cs@);
    while lo < cs.len() && char_is_space(cs[lo])
        invariant
            lo <= cs.len(),
            trim_start(cs@) == trim_start(cs@.skip(lo as int)),
        decreases cs.len() - lo,
    {
        assert(cs@.skip(lo as int).skip(1) =~= cs@.skip(lo as int + 1));
        lo += 1;
    }
    let ghost mid = cs@.skip(lo as int);
    assert(trim_start(cs@) == mid);
    let mut hi: usize = cs.len();
    while lo < hi && char_is_space(cs[hi - 1])
        invariant
            lo <= hi <= cs.len(),
            trim_end(mid) == trim_end(cs@.subrange(lo as int, hi as int)),
        decreases hi,
    {
        assert(cs@.subrange(lo as int, hi as int).drop_last() =~= cs@.subrange(
            lo as int,
            hi as int - 1,
        ));
        hi -= 1;
    }
    assert(trim_end(mid) == cs@.subrange(lo as int, hi as int));
    string_of(vstd::slice::slice_subrange(cs.as_slice(), lo, hi))
}

/// The lower-case form of an ASCII letter; any other character itself.
pub open spec fn ascii_lower_char(c: char) -> char {
    if 'A' <= c <= 'Z' {
        ((c as u32 + 32) as u32) as char
    } else {
        c
    }
}

/// `s` with its ASCII letters in lower case.
pub open spec fn ascii_lower(s: Seq<char>) -> Seq<char> {
    s.map_values(|c: char| ascii_lower_char(c))
}

/// `s` with its ASCII letters in lower case.
pub fn to_ascii_lower(s: &str) -> (r: String)
    ensures
        r@ == ascii_lower(s@),
{
    let cs = chars_of(s);
    let mut out = String::new();
    for i in 0..cs.len()
        invariant
            out@ == ascii_lower(cs@.take(i as int)),
    {
        let c = cs[i];
        if 'A' <= c && c <= 'Z' {
            out.push(((c as u8) + 32) as char);
        } else {
            out.push(c);
        }
        assert(out@ =~= ascii_lower(cs@.take(i as int + 1)));
    }
    assert(cs@.take(cs@.len() as int) =~= cs@);
    out
}

/// `c`, in upper case where it is an ASCII letter.
pub open spec fn ascii_upper_char(c: char) -> char {
    if 'a' <= c <= 'z' {
        (c as u32 - 32) as char
    } else {
        c
    }
}

/// `s` with its ASCII letters in upper case.
pub open spec fn ascii_upper(s: Seq<char>) -> Seq<char> {
    s.map_values(|c: char| ascii_upper_char(c))
}

/// `s` with its ASCII letters in upper case.
pub fn to_ascii_upper(s: &str) -> (r: String)
    ensures
        r@ == ascii_upper(s@),
{
    let cs = chars_of(s);
    let mut out = String::new();
    for i in 0..cs.len()
        invariant
            out@ == ascii_upper(cs@.take(i as int)),
    {
        let c = cs[i];
        if 'a' <= c && c <= 'z' {
            out.push(((c as u8) - 32) as char);
        } else {
            out.push(c);
        }
        assert(out@ =~= ascii_upper(cs@.take(i as int + 1)));
    }
    assert(cs@.take(cs@.len() as int) =~= cs@);
    out
}

/// Whether `a` and `b` differ at most in the case of their ASCII letters.
pub fn eq_ignore_ascii_case(a: &str, b: &str) -> (r: bool)
    ensures
        r == (ascii_lower(a@) == ascii_lower(b@)),
{
    str_eq(&to_ascii_lower(a), &to_ascii_lower(b))
}

/// Whether `n` stands in `h` at position `i`.
pub open spec fn match_at(h: Seq<char>, n: Seq<char>, i: int) -> bool {
    0 <= i && i + n.len() <= h.len() && h.subrange(i, i + n.len()) == n
}

/// Whether `n` stands anywhere in `h`.
pub open spec fn has(h: Seq<char>, n: Seq<char>) -> bool {
    exists|i: int| match_at(h, n, i)
}

/// Whether `i` is the first position, from `from` on, at which `n` stands in `h`.
pub open spec fn first_match(h: Seq<char>, n: Seq<char>, from: int, i: int) -> bool {
    &&& from <= i
    &&& match_at(h, n, i)
    &&& forall|j: int| from <= j < i ==> !match_at(h, n, j)
}

/// Whether `n` stands in `h` at position `i`.
pub fn matches_at(h: &[char], n: &[char], i: usize) -> (r: bool)
    ensures
        r == match_at(h@, n@, i as int),
{
    if i > h.len() || n.len() > h.len() - i {
        return false;
    }
    let mut k: usize = 0;
    while k < n.len()
        invariant
            k <= n.len(),
            i + n.len() <= h.len(),
            h@.subrange(i as int, i + k) == n@.take(k as int),
        decreases n.len() - k,
    {
        if h[i + k] != n[k] {
            assert(h@.subrange(i as int, i + n.len())[k as int] != n@[k as int]);
            return false;
        }
        assert(h@.subrange(i as int, i + k + 1) =~= n@.take(k as int + 1));
        k += 1;
    }
    assert(n@.take(k as int) =~= n@);
    true
}

/// The first position, from `from` on, at which `n` stands in `h`.
pub fn find_from(h: &[char], n: &[char], from: usize) -> (r: Option<usize>)
    ensures
        match r {
            Some(i) => first_match(h@, n@, from as int, i as int),
            None => forall|j: int| from <= j ==> !match_at(h@, n@, j),
        },
{
    let mut i: usize = from;
    while i <= h.len() && n.len() <= h.len() - i
        invariant
            from <= i,
            forall|j: int| from <= j < i ==> !match_at(h@, n@, j),
        decreases h.len() + 1 - i,
    {
        if matches_at(h, n, i) {
            return Some(i);
        }
        if i == h.len() {
            assert(forall|j: int| i < j ==> !match_at(h@, n@, j));
            return None;
        }
        i += 1;
    }
    None
}

/// Whether `n` stands anywhere in `h`.
pub fn contains(h: &str, n: &str) -> (r: bool)
    ensures
        r == has(h@, n@),
{
    let hc = chars_of(h);
    let nc = chars_of(n);
    match find_from(hc.as_slice(), nc.as_slice(), 0) {
        Some(i) => {
            assert(match_at(h@, n@, i as int));
            true
        },
        None => {
            assert(forall|j: int| match_at(h@, n@, j) ==> 0 <= j);
            false
        },
    }
}

/// Whether `s` begins with `p`.
pub open spec fn starts(s: Seq<char>, p: Seq<char>) -> bool {
    match_at(s, p, 0)
}

/// Whether `s` begins with `p`.
pub fn starts_with(s: &str, p: &str) -> (r: bool)
    ensures
        r == starts(s@, p@),
{
    matches_at(chars_of(s).as_slice(), chars_of(p).as_slice(), 0)
}

/// Whether `s` ends with `p`.
pub open spec fn ends(s: Seq<char>, p: Seq<char>) -> bool {
    match_at(s, p, s.len() - p.len())
}

/// Whether `s` ends with `p`.
pub fn ends_with(s: &str, p: &str) -> (r: bool)
    ensures
        r == ends(s@, p@),
{
    let sc = chars_of(s);
    let pc = chars_of(p);
    if pc.len() > sc.len() {
        return false;
    }
    matches_at(sc.as_slice(), pc.as_slice(), sc.len() - pc.len())
}

/// `s` from position `k` on.
pub fn skip(s: &str, k: usize) -> (r: String)
    requires
        k <= s@.len(),
    ensures
        r@ == s@.skip(k as int),
{
    let cs = chars_of(s);
    assert(cs@.subrange(k as int, cs@.len() as int) =~= s@.skip(k as int));
    string_of(vstd::slice::slice_subrange(cs.as_slice(), k, cs.len()))
}

/// `s` with `p` taken off its front as often as it stands there.
pub open spec fn strip_prefixes(s: Seq<char>, p: Seq<char>) -> Seq<char>
    decreases s.len(),
{
    if p.len() > 0 && starts(s, p) {
        strip_prefixes(s.skip(p.len() as int), p)
    } else {
        s
    }
}

/// `s` with `p` taken off its front as often as it stands there.
pub fn trim_start_matches(s: &str, p: &str) -> (r: String)
    ensures
        r@ == strip_prefixes(s@, p@),
{
    let sc = chars_of(s);
    let pc = chars_of(p);
    let mut lo: usize = 0;
    assert(sc@.skip(0) =~= sc@);
    while pc.len() > 0 && matches_at(sc.as_slice(), pc.as_slice(), lo)
        invariant
            lo <= sc.len(),
            pc@ == p@,
            strip_prefixes(sc@, p@) == strip_prefixes(sc@.skip(lo as int), p@),
        decreases sc.len() - lo,
    {
        proof {
            let rest = sc@.skip(lo as int);
            assert(rest.subrange(0, pc@.len() as int) =~= sc@.subrange(lo as int, lo + pc@.len()));
            assert(rest.skip(pc@.len() as int) =~= sc@.skip(lo + pc@.len()));
        }
        lo += pc.len();
    }
    proof {
        let rest = sc@.skip(lo as int);
        if pc@.len() > 0 && starts(rest, p@) {
            assert(rest.subrange(0, pc@.len() as int) =~= sc@.subrange(lo as int, lo + pc@.len()));
        }
        assert(sc@.subrange(lo as int, sc@.len() as int) =~= rest);
    }
    string_of(vstd::slice::slice_subrange(sc.as_slice(), lo, sc.len()))
}

/// `s` with `p` taken off its end as often as it stands there.
pub open spec fn strip_suffixes(s: Seq<char>, p: Seq<char>) -> Seq<char>
    decreases s.len(),
{
    if p.len() > 0 && ends(s, p) {
        strip_suffixes(s.take(s.len() - p.len()), p)
    } else {
        s
    }
}

/// `s` with `p` taken off its end as often as it stands there.
pub fn trim_end_matches(s: &str, p: &str) -> (r: String)
    ensures
        r@ == strip_suffixes(s@, p@),
{
    let sc = chars_of(s);
    let pc = chars_of(p);
    let mut hi: usize = sc.len();
    assert(sc@.take(hi as int) =~= sc@);
    while pc.len() > 0 && hi >= pc.len() && matches_at(sc.as_slice(), pc.as_slice(), hi - pc.len())
        invariant
            hi <= sc.len(),
            pc@ == p@,
            strip_suffixes(sc@, p@) == strip_suffixes(sc@.take(hi as int), p@),
        decreases hi,
    {
        proof {
            let rest = sc@.take(hi as int);
            assert(rest.subrange(hi - pc@.len(), hi as int) =~= sc@.subrange(
                hi - pc@.len(),
                hi as int,
            ));
            assert(rest.take(hi - pc@.len()) =~= sc@.take(hi - pc@.len()));
        }
        hi -= pc.len();
    }
    proof {
        let rest = sc@.take(hi as int);
        if pc@.len() > 0 && ends(rest, p@) {
            assert(rest.subrange(hi - pc@.len(), hi as int) =~= sc@.subrange(
                hi - pc@.len(),
                hi as int,
            ));
        }
        assert(sc@.subrange(0, hi as int) =~= rest);
    }
    string_of(vstd::slice::slice_subrange(sc.as_slice(), 0, hi))
}

/// `s` without its leading white space.
pub fn trim_front(s: &str) -> (r: String)
    ensures
        r@ == trim_start(s@),
{
    let cs = chars_of(s);
    let mut lo: usize = 0;
    assert(cs@.skip(0) =~= cs@);
    while lo < cs.len() && char_is_space(cs[lo])
        invariant
            lo <= cs.len(),
            trim_start(cs@) == trim_start(cs@.skip(lo as int)),
        decreases cs.len() - lo,
    {
        assert(cs@.skip(lo as int).skip(1) =~= cs@.skip(lo as int + 1));
        lo += 1;
    }
    assert(cs@.subrange(lo as int, cs@.len() as int) =~= cs@.skip(lo as int));
    string_of(vstd::slice::slice_subrange(cs.as_slice(), lo, cs.len()))
}

/// `s` without `p` at its front, where it begins with `p`.
pub open spec fn after_prefix(s: Seq<char>, p: Seq<char>) -> Option<Seq<char>> {
    if starts(s, p) {
        Some(s.skip(p.len() as int))
    } else {
        None
    }
}

/// `s` without `p` at its front, where it begins with `p`.
pub fn strip_prefix(s: &str, p: &str) -> (r: Option<String>)
    ensures
        opt_view(r) == after_prefix(s@, p@),
{
    let sc = chars_of(s);
    let pc = chars_of(p);
    if matches_at(sc.as_slice(), pc.as_slice(), 0) {
        assert(sc@.subrange(pc@.len() as int, sc@.len() as int) =~= sc@.skip(pc@.len() as int));
        Some(string_of(vstd::slice::slice_subrange(sc.as_slice(), pc.len(), sc.len())))
    } else {
        None
    }
}

/// The first position of `c` in `s`.
pub open spec fn char_index(s: Seq<char>, c: char) -> Option<int>
    decreases s.len(),
{
    if s.len() == 0 {
        None
    } else if s[0] == c {
        Some(0)
    } else {
        match char_index(s.skip(1), c) {
            Some(i) => Some(i + 1),
            None => None,
        }
    }
}

/// `char_index` finds the first occurrence.
pub proof fn lemma_char_index(s: Seq<char>, c: char)
    ensures
        match char_index(s, c) {
            Some(i) => 0 <= i < s.len() && s[i] == c && forall|j: int| 0 <= j < i ==> s[j] != c,
            None => forall|j: int| 0 <= j < s.len() ==> s[j] != c,
        },
    decreases s.len(),
{
    if s.len() > 0 && s[0] != c {
        let t = s.skip(1);
        lemma_char_index(t, c);
        assert(forall|j: int| 1 <= j < s.len() ==> s[j] == t[j - 1]);
    }
}

/// The first position of `c` in `s`.
pub fn find_char(s: &str, c: char) -> (r: Option<usize>)
    ensures
        match r {
            Some(i) => i < s@.len() && i < usize::MAX && char_index(s@, c) == Some(i as int),
            None => char_index(s@, c) is None,
        },
{
    let cs = chars_of(s);
    proof {
        lemma_char_index(s@, c);
    }
    for i in 0..cs.len()
        invariant
            cs@ == s@,
            forall|j: int| 0 <= j < i ==> s@[j] != c,
    {
        if cs[i] == c {
            proof {
                lemma_char_index(s@, c);
            }
            return Some(i);
        }
    }
    None
}

/// `s` up to position `k`.
pub fn take(s: &str, k: usize) -> (r: String)
    requires
        k <= s@.len(),
    ensures
        r@ == s@.take(k as int),
{
    let cs = chars_of(s);
    assert(cs@.subrange(0, k as int) =~= s@.take(k as int));
    string_of(vstd::slice::slice_subrange(cs.as_slice(), 0, k))
}

/// `s` with every trailing `c` taken off.
pub open spec fn strip_trailing(s: Seq<char>, c: char) -> Seq<char>
    decreases s.len(),
{
    if s.len() > 0 && s.last() == c {
        strip_trailing(s.drop_last(), c)
    } else {
        s
    }
}

/// `s` with every trailing `c` taken off.
pub fn trim_end_char(s: &str, c: char) -> (r: String)
    ensures
        r@ == strip_trailing(s@, c),
{
    let cs = chars_of(s);
    let mut hi: usize = cs.len();
    assert(cs@.take(hi as int) =~= cs@);
    while 0 < hi && cs[hi - 1] == c
        invariant
            hi <= cs.len(),
            strip_trailing(cs@, c) == strip_trailing(cs@.take(hi as int), c),
        decreases hi,
    {
        assert(cs@.take(hi as int).drop_last() =~= cs@.take(hi as int - 1));
        hi -= 1;
    }
    assert(cs@.subrange(0, hi as int) =~= cs@.take(hi as int));
    string_of(vstd::slice::slice_subrange(cs.as_slice(), 0, hi))
}

/// The pieces of `s` between its occurrences of `c`; at least one piece.
pub open spec fn split_on(s: Seq<char>, c: char) -> Seq<Seq<char>>
    decreases s.len(),
{
    if s.len() == 0 {
        seq![Seq::empty()]
    } else {
        let p = split_on(s.drop_last(), c);
        if s.last() == c {
            p.push(Seq::empty())
        } else {
            p.drop_last().push(p.last().push(s.last()))
        }
    }
}

/// The pieces of `s` between its occurrences of `c`.
pub fn split(s: &str, c: char) -> (r: Vec<String>)
    ensures
        views(r@) == split_on(s@, c),
        r@.len() > 0,
{
    let cs = chars_of(s);
    let mut out: Vec<String> = Vec::new();
    let mut cur = String::new();
    assert(views(out@).push(cur@) =~= split_on(cs@.take(0), c));
    for i in 0..cs.len()
        invariant
            views(out@).push(cur@) == split_on(cs@.take(i as int), c),
    {
        assert(cs@.take(i as int + 1).drop_last() =~= cs@.take(i as int));
        let ghost before = views(out@).push(cur@);
        if cs[i] == c {
            let ghost o = out@;
            out.push(cur);
            assert(views(out@) =~= before);
            cur = String::new();
        } else {
            let ghost old_cur = cur@;
            cur.push(cs[i]);
            assert(before.drop_last() =~= views(out@));
            assert(before.last() == old_cur);
        }
    }
    assert(cs@.take(cs@.len() as int) =~= cs@);
    let ghost before = views(out@).push(cur@);
    out.push(cur);
    assert(views(out@) =~= before);
    out
}

/// `l` without one trailing carriage return.
pub open spec fn strip_cr(l: Seq<char>) -> Seq<char> {
    if l.len() > 0 && l.last() == '\r' {
        l.drop_last()
    } else {
        l
    }
}

/// The lines of `s`: the pieces ended by a line feed, each without its line
/// end, and what follows the last line feed unless that is empty.
pub open spec fn lines_of(s: Seq<char>) -> Seq<Seq<char>> {
    let p = split_on(s, '\n');
    let ended = p.drop_last().map_values(|l: Seq<char>| strip_cr(l));
    if p.last().len() == 0 {
        ended
    } else {
        ended.push(p.last())
    }
}

/// `l` without one trailing carriage return.
fn without_cr(l: &str) -> (r: String)
    ensures
        r@ == strip_cr(l@),
{
    let cs = chars_of(l);
    let n: usize = cs.len();
    if n > 0 && cs[n - 1] == '\r' {
        assert(cs@.subrange(0, n as int - 1) =~= cs@.drop_last());
        string_of(vstd::slice::slice_subrange(cs.as_slice(), 0, n - 1))
    } else {
        copy(l)
    }
}

/// The lines of `s`.
pub fn lines(s: &str) -> (r: Vec<String>)
    ensures
        views(r@) == lines_of(s@),
{
    let p = split(s, '\n');
    let n: usize = p.len();
    let ghost pv = split_on(s@, '\n');
    let ghost ended = pv.drop_last().map_values(|l: Seq<char>| strip_cr(l));
    let mut out: Vec<String> = Vec::new();
    for i in 0..(n - 1)
        invariant
            n == p.len(),
            n > 0,
            views(p@) == pv,
            ended == pv.drop_last().map_values(|l: Seq<char>| strip_cr(l)),
            views(out@) == ended.take(i as int),
    {
        assert(pv[i as int] == p@[i as int]@);
        let line = without_cr(&p[i]);
        proof {
            lemma_views_push(out@, line);
            assert(ended.take(i as int + 1) =~= ended.take(i as int).push(line@));
        }
        out.push(line);
    }
    assert(ended.take(n - 1) =~= ended);
    assert(pv.last() == p@[n - 1]@);
    if !p[n - 1].as_str().is_empty() {
        out.push(copy(&p[n - 1]));
        assert(views(out@) =~= ended.push(pv.last()));
    }
    out
}

/// The texts of `parts` with `sep` between neighbours.
pub open spec fn joined(parts: Seq<Seq<char>>, sep: Seq<char>) -> Seq<char>
    decreases parts.len(),
{
    if parts.len() == 0 {
        Seq::empty()
    } else if parts.len() == 1 {
        parts[0]
    } else {
        joined(parts.drop_last(), sep) + sep + parts.last()
    }
}

/// The texts of `parts` with `sep` between neighbours.
pub fn join(parts: &Vec<String>, sep: &str) -> (r: String)
    ensures
        r@ == joined(views(parts@), sep@),
{
    let mut out = String::new();
    let ghost pv = views(parts@);
    for i in 0..parts.len()
        invariant
            pv == views(parts@),
            out@ == joined(pv.take(i as int), sep@),
    {
        assert(pv.take(i as int + 1).drop_last() =~= pv.take(i as int));
        assert(pv.take(i as int + 1).last() == parts@[i as int]@);
        if i > 0 {
            out.append(sep);
        }
        out.append(&parts[i]);
        if i == 0 {
            assert(out@ =~= pv.take(1)[0]);
        }
    }
    assert(pv.take(pv.len() as int) =~= pv);
    out
}

/// The decimal digit `d`.
pub open spec fn digit_char(d: nat) -> char {
    ((48 + d) as u32) as char
}

/// `n` written in decimal.
pub open spec fn dec(n: nat) -> Seq<char>
    decreases n,
{
    if n < 10 {
        seq![digit_char(n)]
    } else {
        dec(n / 10).push(digit_char(n % 10))
    }
}

/// `n` written in decimal.
pub fn dec_u64(n: u64) -> (r: String)
    ensures
        r@ == dec(n as nat),
    decreases n,
{
    let d: u8 = (n % 10) as u8;
    let ch: char = (48 + d) as char;
    assert(ch == digit_char((n % 10) as nat));
    if n < 10 {
        let mut out = String::new();
        out.push(ch);
        assert(out@ =~= dec(n as nat));
        out
    } else {
        let mut out = dec_u64(n / 10);
        out.push(ch);
        out
    }
}

/// The decimal digits of `n` write `n`.
pub proof fn lemma_dec_value(n: nat)
    ensures
        digits_value(dec(n)) == n,
        dec(n).len() > 0,
        forall|i: int| 0 <= i < dec(n).len() ==> is_digit(#[trigger] dec(n)[i]),
    decreases n,
{
    let d = dec(n);
    assert(digit_char(n % 10) as u32 == 48 + n % 10);
    if n < 10 {
        assert(d.drop_last() =~= Seq::empty());
        reveal_with_fuel(digits_value, 2);
    } else {
        lemma_dec_value(n / 10);
        assert(d.drop_last() =~= dec(n / 10));
    }
}

/// Whether `c` is a decimal digit.
pub open spec fn is_digit(c: char) -> bool {
    '0' <= c <= '9'
}

/// The number that the decimal digits `s` write.
pub open spec fn digits_value(s: Seq<char>) -> nat
    decreases s.len(),
{
    if s.len() == 0 {
        0
    } else {
        10 * digits_value(s.drop_last()) + (s.last() as u32 - 48) as nat
    }
}

/// `s` without one leading `+`.
pub open spec fn after_plus(s: Seq<char>) -> Seq<char> {
    if s.len() > 0 && s[0] == '+' {
        s.skip(1)
    } else {
        s
    }
}

/// The unsigned number up to `max` that `s` writes: decimal digits, at least
/// one, after an optional `+`.
pub open spec fn parsed(s: Seq<char>, max: nat) -> Option<nat> {
    let d = after_plus(s);
    if d.len() > 0 && (forall|i: int| 0 <= i < d.len() ==> is_digit(#[trigger] d[i])) && digits_value(
        d,
    ) <= max {
        Some(digits_value(d))
    } else {
        None
    }
}

proof fn lemma_digits_value_grows(s: Seq<char>, k: int)
    requires
        0 <= k <= s.len(),
    ensures
        digits_value(s.take(k)) <= digits_value(s),
    decreases s.len() - k,
{
    if k < s.len() {
        lemma_digits_value_grows(s, k + 1);
        assert(s.take(k + 1).drop_last() =~= s.take(k));
    } else {
        assert(s.take(k) =~= s);
    }
}

/// The unsigned number up to `max` that `s` writes.
pub fn parse_up_to(s: &str, max: u64) -> (r: Option<u64>)
    ensures
        r == (match parsed(s@, max as nat) {
            Some(v) => Some(v as u64),
            None => None,
        }),
{
    let cs = chars_of(s);
    let start: usize = if cs.len() > 0 && cs[0] == '+' {
        1
    } else {
        0
    };
    let ghost d = after_plus(s@);
    assert(d =~= cs@.skip(start as int));
    if start == cs.len() {
        return None;
    }
    let mut acc: u64 = 0;
    let mut i: usize = start;
    while i < cs.len()
        invariant
            start <= i <= cs.len(),
            d == cs@.skip(start as int),
            d == after_plus(s@),
            acc <= max,
            acc == digits_value(d.take(i - start)),
            forall|j: int| 0 <= j < i - start ==> is_digit(#[trigger] d[j]),
        decreases cs.len() - i,
    {
        let c = cs[i];
        assert(d[i - start] == c);
        if !('0' <= c && c <= '9') {
            return None;
        }
        let v: u64 = ((c as u8) - 48) as u64;
        proof {
            assert(d.take(i - start + 1).drop_last() =~= d.take(i - start));
            assert(digits_value(d.take(i - start + 1)) == 10 * acc + v);
            lemma_digits_value_grows(d, i - start + 1);
        }
        if acc > u64::MAX / 10 || acc * 10 > u64::MAX - v {
            return None;
        }
        if acc * 10 + v > max {
            return None;
        }
        acc = acc * 10 + v;
        i += 1;
    }
    assert(d.take(i - start) =~= d);
    Some(acc)
}

/// How many bytes `c` takes in UTF-8.
pub open spec fn utf8_width(c: char) -> nat {
    let n = c as u32;
    if n < 0x80 {
        1
    } else if n < 0x800 {
        2
    } else if n < 0x10000 {
        3
    } else {
        4
    }
}

/// How many bytes `s` takes in UTF-8.
pub open spec fn utf8_len(s: Seq<char>) -> nat
    decreases s.len(),
{
    if s.len() == 0 {
        0
    } else {
        utf8_len(s.drop_last()) + utf8_width(s.last())
    }
}

/// How many bytes `c` takes in UTF-8.
pub fn char_width(c: char) -> (r: usize)
    ensures
        r == utf8_width(c),
{
    let n: u32 = c as u32;
    if n < 0x80 {
        1
    } else if n < 0x800 {
        2
    } else if n < 0x10000 {
        3
    } else {
        4
    }
}

/// The number of whole characters at the front of `s` that fit in `max` bytes.
pub open spec fn fitting(s: Seq<char>, max: int) -> int
    decreases s.len(),
{
    if s.len() > 0 && utf8_width(s[0]) <= max {
        1 + fitting(s.skip(1), max - utf8_width(s[0]))
    } else {
        0
    }
}

/// `s` where it fits in `max` bytes, otherwise its front that fits and an
/// ellipsis.
pub open spec fn preview(s: Seq<char>, max: int) -> Seq<char> {
    if fitting(s, max) == s.len() {
        s
    } else {
        s.take(fitting(s, max)).push('\u{2026}')
    }
}

/// `s` where it fits in `max` bytes, otherwise its front that fits and an
/// ellipsis.
pub fn truncate_preview(s: &str, max: usize) -> (r: String)
    ensures
        r@ == preview(s@, max as int),
{
    let cs = chars_of(s);
    let mut used: usize = 0;
    let mut n: usize = 0;
    assert(cs@.skip(0) =~= cs@);
    while n < cs.len() && char_width(cs[n]) <= max - used
        invariant
            n <= cs.len(),
            used <= max,
            fitting(cs@, max as int) == n + fitting(cs@.skip(n as int), max - used),
        decreases cs.len() - n,
    {
        assert(cs@.skip(n as int).skip(1) =~= cs@.skip(n as int + 1));
        used += char_width(cs[n]);
        n += 1;
    }
    assert(fitting(cs@, max as int) == n);
    if n == cs.len() {
        return copy(s);
    }
    let mut out = take(s, n);
    out.push('\u{2026}');
    out
}

/// The first position, from `from` on, at which `n` stands in `h`.
pub open spec fn index_of(h: Seq<char>, n: Seq<char>, from: int) -> Option<int>
    decreases h.len() + 1 - from,
{
    if from < 0 || from + n.len() > h.len() {
        None
    } else if match_at(h, n, from) {
        Some(from)
    } else {
        index_of(h, n, from + 1)
    }
}

/// The first place of `n` in `h` from `from` on.
pub proof fn lemma_index_of(h: Seq<char>, n: Seq<char>, from: int)
    requires
        0 <= from,
    ensures
        match index_of(h, n, from) {
            Some(i) => first_match(h, n, from, i),
            None => forall|j: int| from <= j ==> !match_at(h, n, j),
        },
    decreases h.len() + 1 - from,
{
    if from + n.len() <= h.len() && !match_at(h, n, from) {
        lemma_index_of(h, n, from + 1);
    }
}

/// What follows the first occurrence of `n` in `h`.
pub open spec fn after_first(h: Seq<char>, n: Seq<char>) -> Option<Seq<char>> {
    match index_of(h, n, 0) {
        Some(i) => Some(h.skip(i + n.len())),
        None => None,
    }
}

/// The position of the first occurrence of `n` in `h`.
pub fn find(h: &str, n: &str) -> (r: Option<usize>)
    ensures
        match r {
            Some(i) => index_of(h@, n@, 0) == Some(i as int) && i + n@.len() <= h@.len()
                && i + n@.len() <= usize::MAX,
            None => index_of(h@, n@, 0) is None,
        },
{
    let hc = chars_of(h);
    let nc = chars_of(n);
    proof {
        lemma_index_of(h@, n@, 0);
    }
    match find_from(hc.as_slice(), nc.as_slice(), 0) {
        Some(i) => {
            assert(match_at(h@, n@, i as int));
            assert(i + nc@.len() <= hc.len());
            Some(i)
        },
        None => {
            assert(index_of(h@, n@, 0) is None);
            None
        },
    }
}

/// What follows the first occurrence of `n` in `h`.
pub fn rest_after(h: &str, n: &str) -> (r: Option<String>)
    ensures
        opt_view(r) == after_first(h@, n@),
{
    match find(h, n) {
        Some(i) => {
            let width: usize = chars_of(n).len();
            Some(skip(h, i + width))
        },
        None => None,
    }
}

/// How many characters at the front of `s` are no white space.
pub open spec fn word_len(s: Seq<char>) -> int
    decreases s.len(),
{
    if s.len() > 0 && !is_space(s[0]) {
        1 + word_len(s.skip(1))
    } else {
        0
    }
}

/// The first word of `s`, where it has one.
pub open spec fn first_word(s: Seq<char>) -> Option<Seq<char>> {
    let t = trim_start(s);
    if t.len() == 0 {
        None
    } else {
        Some(t.take(word_len(t)))
    }
}

/// The first word of `s`, where it has one.
pub fn word(s: &str) -> (r: Option<String>)
    ensures
        opt_view(r) == first_word(s@),
{
    let t = trim_front(s);
    let cs = chars_of(&t);
    if cs.len() == 0 {
        return None;
    }
    let mut n: usize = 0;
    assert(t@.skip(0) =~= t@);
    while n < cs.len() && !char_is_space(cs[n])
        invariant
            cs@ == t@,
            n <= cs.len(),
            word_len(t@) == n + word_len(t@.skip(n as int)),
        decreases cs.len() - n,
    {
        assert(t@.skip(n as int)[0] == cs@[n as int]);
        assert(t@.skip(n as int).skip(1) =~= t@.skip(n as int + 1));
        n += 1;
    }
    proof {
        if n < cs.len() {
            assert(t@.skip(n as int)[0] == cs@[n as int]);
        }
    }
    Some(take(&t, n))
}

/// The pieces of `s` between its occurrences of `c`, without white space around
/// them.
pub open spec fn fields_of(s: Seq<char>, c: char) -> Seq<Seq<char>> {
    split_on(s, c).map_values(|f: Seq<char>| trimmed(f))
}

/// The pieces of `s` between its occurrences of `c`, without white space around
/// them.
pub fn fields(s: &str, c: char) -> (r: Vec<String>)
    ensures
        views(r@) == fields_of(s@, c),
        r@.len() > 0,
{
    let p = split(s, c);
    let mut out: Vec<String> = Vec::new();
    let ghost f = fields_of(s@, c);
    for i in 0..p.len()
        invariant
            views(p@) == split_on(s@, c),
            f == fields_of(s@, c),
            views(out@) == f.take(i as int),
            out@.len() == i,
    {
        assert(views(p@)[i as int] == p@[i as int]@);
        let item = trim(&p[i]);
        proof {
            lemma_views_push(out@, item);
            assert(f.take(i as int + 1) =~= f.take(i as int).push(item@));
        }
        out.push(item);
    }
    assert(f.take(f.len() as int) =~= f);
    out
}

/// The lines of `s` that are not blank, without white space around them.
pub open spec fn filled_lines(lines: Seq<Seq<char>>) -> Seq<Seq<char>>
    decreases lines.len(),
{
    if lines.len() == 0 {
        Seq::empty()
    } else {
        let t = trimmed(lines.last());
        if t.len() == 0 {
            filled_lines(lines.drop_last())
        } else {
            filled_lines(lines.drop_last()).push(t)
        }
    }
}

/// The lines of `s` that are not blank, without white space around them.
pub open spec fn rows_of(s: Seq<char>) -> Seq<Seq<char>> {
    filled_lines(lines_of(s))
}

/// The lines of `s` that are not blank, without white space around them.
pub fn rows(s: &str) -> (r: Vec<String>)
    ensures
        views(r@) == rows_of(s@),
{
    let l = lines(s);
    let ghost lv = lines_of(s@);
    let mut out: Vec<String> = Vec::new();
    assert(views(out@) =~= filled_lines(lv.take(0)));
    for i in 0..l.len()
        invariant
            views(l@) == lv,
            views(out@) == filled_lines(lv.take(i as int)),
    {
        assert(lv.take(i as int + 1).drop_last() =~= lv.take(i as int));
        assert(lv.take(i as int + 1).last() == l@[i as int]@);
        let t = trim(&l[i]);
        if !t.as_str().is_empty() {
            proof {
                lemma_views_push(out@, t);
            }
            out.push(t);
        }
    }
    assert(lv.take(lv.len() as int) =~= lv);
    out
}

/// The first position of `id` in `ids`.
pub open spec fn position(ids: Seq<Seq<char>>, id: Seq<char>) -> Option<int>
    decreases ids.len(),
{
    if ids.len() == 0 {
        None
    } else if ids[0] == id {
        Some(0)
    } else {
        match position(ids.skip(1), id) {
            Some(i) => Some(i + 1),
            None => None,
        }
    }
}

/// What the first position of `id` in `ids` is.
pub proof fn lemma_position(ids: Seq<Seq<char>>, id: Seq<char>)
    ensures
        match position(ids, id) {
            Some(i) => 0 <= i < ids.len() && ids[i] == id && forall|j: int|
                0 <= j < i ==> #[trigger] ids[j] != id,
            None => forall|j: int| 0 <= j < ids.len() ==> #[trigger] ids[j] != id,
        },
    decreases ids.len(),
{
    if ids.len() > 0 && ids[0] != id {
        let rest = ids.skip(1);
        lemma_position(rest, id);
        assert forall|j: int|
            0 <= j < ids.len() && (position(rest, id) matches Some(i) ==> j < i + 1) implies
            #[trigger] ids[j] != id by {
            if j > 0 {
                assert(rest[j - 1] == ids[j]);
            }
        }
    }
}

/// Whether `a` comes before `b` in the order of their characters.
pub open spec fn before(a: Seq<char>, b: Seq<char>) -> bool
    decreases a.len(),
{
    if b.len() == 0 {
        false
    } else if a.len() == 0 {
        true
    } else if a[0] == b[0] {
        before(a.skip(1), b.skip(1))
    } else {
        a[0] < b[0]
    }
}

/// No text comes before itself.
pub proof fn lemma_before_self(a: Seq<char>)
    ensures
        !before(a, a),
    decreases a.len(),
{
    if a.len() > 0 {
        lemma_before_self(a.skip(1));
    }
}

/// Of two different texts, one comes before the other.
pub proof fn lemma_before_total(a: Seq<char>, b: Seq<char>)
    requires
        !before(a, b),
        !before(b, a),
    ensures
        a == b,
    decreases a.len(),
{
    if a.len() > 0 && b.len() > 0 {
        lemma_before_total(a.skip(1), b.skip(1));
        assert(a =~= seq![a[0]] + a.skip(1));
        assert(b =~= seq![b[0]] + b.skip(1));
    } else {
        assert(a =~= b);
    }
}

/// What comes before something comes before all that follows it.
pub proof fn lemma_before_chain(a: Seq<char>, b: Seq<char>, c: Seq<char>)
    requires
        before(a, b),
        before(b, c),
    ensures
        before(a, c),
    decreases a.len(),
{
    if a.len() > 0 && a[0] == b[0] && b[0] == c[0] {
        lemma_before_chain(a.skip(1), b.skip(1), c.skip(1));
    }
}

/// Whether `a` comes before `b` in the order of their characters.
pub fn is_before(a: &str, b: &str) -> (r: bool)
    ensures
        r == before(a@, b@),
{
    let x = chars_of(a);
    let y = chars_of(b);
    let mut i: usize = 0;
    assert(a@.skip(0) =~= a@);
    assert(b@.skip(0) =~= b@);
    while i < x.len() && i < y.len()
        invariant
            x@ == a@,
            y@ == b@,
            i <= x@.len(),
            i <= y@.len(),
            before(a@, b@) == before(a@.skip(i as int), b@.skip(i as int)),
        decreases x@.len() - i,
    {
        proof {
            assert(a@.skip(i as int)[0] == x@[i as int]);
            assert(b@.skip(i as int)[0] == y@[i as int]);
            assert(a@.skip(i as int).skip(1) =~= a@.skip(i as int + 1));
            assert(b@.skip(i as int).skip(1) =~= b@.skip(i as int + 1));
        }
        if x[i] != y[i] {
            return x[i] < y[i];
        }
        i += 1;
    }
    i < y.len()
}

/// Whether every character of `s` is white space.
pub open spec fn is_blank(s: Seq<char>) -> bool {
    forall|i: int| 0 <= i < s.len() ==> is_space(#[trigger] s[i])
}

/// Whether `s` is not empty and has no white space around it.
pub open spec fn is_tight(s: Seq<char>) -> bool {
    s.len() > 0 && !is_space(s[0]) && !is_space(s.last())
}

/// White space before a text is no part of it.
pub proof fn lemma_trim_start_blank(a: Seq<char>, s: Seq<char>)
    requires
        is_blank(a),
        s.len() > 0 ==> !is_space(s[0]),
    ensures
        trim_start(a + s) == s,
    decreases a.len(),
{
    if a.len() == 0 {
        assert(a + s =~= s);
    } else {
        assert((a + s).skip(1) =~= a.skip(1) + s);
        assert forall|i: int| 0 <= i < a.skip(1).len() implies is_space(
            #[trigger] a.skip(1)[i],
        ) by {
            assert(a.skip(1)[i] == a[i + 1]);
        }
        assert((a + s)[0] == a[0]);
        lemma_trim_start_blank(a.skip(1), s);
    }
}

proof fn lemma_trim_end_blank(s: Seq<char>, b: Seq<char>)
    requires
        is_blank(b),
        s.len() > 0 ==> !is_space(s.last()),
    ensures
        trim_end(s + b) == s,
    decreases b.len(),
{
    if b.len() == 0 {
        assert(s + b =~= s);
    } else {
        assert((s + b).drop_last() =~= s + b.drop_last());
        assert forall|i: int| 0 <= i < b.drop_last().len() implies is_space(
            #[trigger] b.drop_last()[i],
        ) by {
            assert(b.drop_last()[i] == b[i]);
        }
        assert((s + b).last() == b[b.len() - 1]);
        lemma_trim_end_blank(s, b.drop_last());
    }
}

/// Trimming takes off the white space around a text and nothing else; of white
/// space alone nothing is left.
pub proof fn law_trimming_takes_off_space(a: Seq<char>, s: Seq<char>, b: Seq<char>)
    requires
        is_blank(a),
        is_blank(b),
        s.len() == 0 || is_tight(s),
    ensures
        trimmed(a + s + b) == s,
{
    if s.len() > 0 {
        assert(a + s + b =~= a + (s + b));
        assert((s + b)[0] == s[0]);
        lemma_trim_start_blank(a, s + b);
        lemma_trim_end_blank(s, b);
    } else {
        assert(a + s + b =~= (a + b) + Seq::empty());
        assert forall|i: int| 0 <= i < (a + b).len() implies is_space(#[trigger] (a + b)[i]) by {
            if i < a.len() {
                assert((a + b)[i] == a[i]);
            } else {
                assert((a + b)[i] == b[i - a.len()]);
            }
        }
        lemma_trim_start_blank(a + b, Seq::empty());
    }
}

/// What follows the leading white space is the end of the text.
pub proof fn lemma_trim_start_is_suffix(s: Seq<char>)
    ensures
        trim_start(s).len() <= s.len(),
        trim_start(s) == s.skip(s.len() - trim_start(s).len()),
        is_blank(s.take(s.len() - trim_start(s).len())),
        trim_start(s).len() > 0 ==> !is_space(trim_start(s)[0]),
    decreases s.len(),
{
    if s.len() > 0 && is_space(s[0]) {
        let t = s.skip(1);
        lemma_trim_start_is_suffix(t);
        let k = t.len() - trim_start(t).len();
        assert(t.skip(k) =~= s.skip(k + 1));
        assert forall|i: int| 0 <= i < s.take(k + 1).len() implies is_space(
            #[trigger] s.take(k + 1)[i],
        ) by {
            if i > 0 {
                assert(t.take(k)[i - 1] == s[i]);
            }
        }
    } else {
        assert(s.skip(0) =~= s);
    }
}

proof fn lemma_trim_end_is_prefix(s: Seq<char>)
    ensures
        trim_end(s).len() <= s.len(),
        trim_end(s) == s.take(trim_end(s).len() as int),
        trim_end(s).len() > 0 ==> !is_space(trim_end(s).last()),
    decreases s.len(),
{
    if s.len() > 0 && is_space(s.last()) {
        let t = s.drop_last();
        lemma_trim_end_is_prefix(t);
        assert(t.take(trim_end(t).len() as int) =~= s.take(trim_end(t).len() as int));
    } else {
        assert(s.take(s.len() as int) =~= s);
    }
}

/// What trimming leaves stands in the text in one piece, with no white space
/// around it; a text that has none around it stays as it is.
pub proof fn law_trimmed_stands_in_the_text(s: Seq<char>)
    ensures
        trimmed(s).len() == 0 || is_tight(trimmed(s)),
        trimmed(trimmed(s)) == trimmed(s),
        is_tight(s) ==> trimmed(s) == s,
        exists|i: int, j: int|
            0 <= i <= j <= s.len() && trimmed(s) == #[trigger] s.subrange(i, j),
{
    let t = trim_start(s);
    lemma_trim_start_is_suffix(s);
    lemma_trim_end_is_prefix(t);
    let i = s.len() - t.len();
    let j = i + trimmed(s).len();
    assert(s.skip(i).take(trimmed(s).len() as int) =~= s.subrange(i, j));
    if trimmed(s).len() > 0 {
        assert(trimmed(s)[0] == t[0]);
        lemma_tight_stays(trimmed(s));
    }
    if is_tight(s) {
        lemma_tight_stays(s);
    }
}

/// A text with no white space around it stays as it is.
pub proof fn lemma_tight_stays(s: Seq<char>)
    requires
        is_tight(s),
    ensures
        trimmed(s) == s,
{
    let none = Seq::<char>::empty();
    law_trimming_takes_off_space(none, s, none);
    assert(none + s + none =~= s);
}

proof fn lemma_split(s: Seq<char>, c: char)
    ensures
        split_on(s, c).len() > 0,
        joined(split_on(s, c), seq![c]) == s,
        forall|i: int|
            0 <= i < split_on(s, c).len() ==> !(#[trigger] split_on(s, c)[i]).contains(c),
    decreases s.len(),
{
    let p = split_on(s, c);
    if s.len() == 0 {
        assert(p[0] =~= s);
    } else {
        let front = s.drop_last();
        let q = split_on(front, c);
        lemma_split(front, c);
        if s.last() == c {
            assert(p.drop_last() =~= q);
            assert(joined(p, seq![c]) =~= front + seq![c]);
            assert(s =~= front + seq![c]);
            assert forall|i: int| 0 <= i < p.len() implies !(#[trigger] p[i]).contains(c) by {
                if i < q.len() {
                    assert(p[i] == q[i]);
                }
            }
        } else {
            let piece = q.last().push(s.last());
            assert(p.drop_last() =~= q.drop_last());
            assert(p.last() == piece);
            if q.len() == 1 {
                assert(p[0] == piece);
                assert(joined(p, seq![c]) =~= front.push(s.last()));
            } else {
                assert(joined(p, seq![c]) =~= joined(q.drop_last(), seq![c]) + seq![c] + piece);
                assert(joined(q, seq![c]) =~= joined(q.drop_last(), seq![c]) + seq![c] + q.last());
                assert(joined(p, seq![c]) =~= front.push(s.last()));
            }
            assert(s =~= front.push(s.last()));
            assert forall|i: int| 0 <= i < p.len() implies !(#[trigger] p[i]).contains(c) by {
                if i < q.len() - 1 {
                    assert(p[i] == q[i]);
                } else {
                    assert(!q[q.len() - 1].contains(c));
                    if piece.contains(c) {
                        let k = choose|k: int| 0 <= k < piece.len() && piece[k] == c;
                        if k < q.last().len() {
                            assert(q.last()[k] == c);
                        }
                    }
                }
            }
        }
    }
}

/// Splitting loses nothing: the pieces, put together again with the separator
/// between them, are the text, and the separator stands in no piece.
pub proof fn law_pieces_make_the_text(s: Seq<char>, c: char)
    ensures
        joined(split_on(s, c), seq![c]) == s,
        forall|i: int|
            0 <= i < split_on(s, c).len() ==> !(#[trigger] split_on(s, c)[i]).contains(c),
{
    lemma_split(s, c);
}

/// A text without the separator adds to the last piece.
pub proof fn lemma_split_append(s: Seq<char>, c: char, l: Seq<char>)
    requires
        !l.contains(c),
    ensures
        split_on(s + l, c) == split_on(s, c).drop_last().push(split_on(s, c).last() + l),
    decreases l.len(),
{
    lemma_split(s, c);
    let p = split_on(s, c);
    if l.len() == 0 {
        assert(s + l =~= s);
        assert(p.last() + l =~= p.last());
        assert(p.drop_last().push(p.last()) =~= p);
    } else {
        let front = l.drop_last();
        assert(!front.contains(c)) by {
            if front.contains(c) {
                let k = choose|k: int| 0 <= k < front.len() && front[k] == c;
                assert(l[k] == c);
            }
        }
        assert(l[l.len() - 1] != c);
        lemma_split_append(s, c, front);
        assert((s + l).drop_last() =~= s + front);
        let q = split_on(s + front, c);
        assert(q.drop_last() =~= p.drop_last());
        assert(q.last().push(l.last()) =~= p.last() + l);
    }
}

/// A text that grows by a line and its line feed has one line more, that line,
/// whatever line ends the text uses: a carriage return before the line feed is no
/// part of the line.
pub proof fn law_line_is_added(s: Seq<char>, l: Seq<char>)
    requires
        !l.contains('\n'),
        s.len() == 0 || s.last() == '\n',
        l.len() == 0 || l.last() != '\r',
    ensures
        lines_of(s + l + seq!['\n']) == lines_of(s).push(l),
        lines_of(s + l + seq!['\r', '\n']) == lines_of(s).push(l),
        l.len() > 0 ==> lines_of(s + l) == lines_of(s).push(l),
        lines_of(Seq::<char>::empty()) == Seq::<Seq<char>>::empty(),
{
    let p = split_on(s, '\n');
    lemma_split(s, '\n');
    lemma_split_append(s, '\n', l);
    assert(p.last().len() == 0);
    assert(p.last() + l =~= l);
    let q = split_on(s + l, '\n');
    let ended = p.drop_last().map_values(|l: Seq<char>| strip_cr(l));
    assert(q.drop_last() =~= p.drop_last());
    assert(lines_of(s) == ended);
    let a = s + l + seq!['\n'];
    assert(a.drop_last() =~= s + l);
    assert(split_on(a, '\n') == q.push(Seq::empty()));
    assert(split_on(a, '\n').drop_last() =~= q);
    assert(q.map_values(|l: Seq<char>| strip_cr(l)) =~= ended.push(l));
    assert(lines_of(a) =~= lines_of(s).push(l));
    let r = l.push('\r');
    assert(!r.contains('\n')) by {
        if r.contains('\n') {
            let k = choose|k: int| 0 <= k < r.len() && r[k] == '\n';
            assert(l[k] == '\n');
        }
    }
    lemma_split_append(s, '\n', r);
    assert(p.last() + r =~= r);
    let u = split_on(s + r, '\n');
    let b = s + l + seq!['\r', '\n'];
    assert(b.drop_last() =~= s + r);
    assert(split_on(b, '\n') == u.push(Seq::empty()));
    assert(split_on(b, '\n').drop_last() =~= u);
    assert(r.drop_last() =~= l);
    assert(u.drop_last() =~= p.drop_last());
    assert(u.map_values(|l: Seq<char>| strip_cr(l)) =~= ended.push(l));
    assert(lines_of(b) =~= lines_of(s).push(l));
    if l.len() > 0 {
        assert(lines_of(s + l) =~= lines_of(s).push(l));
    }
    let none = Seq::<char>::empty();
    assert(split_on(none, '\n').drop_last() =~= Seq::<Seq<char>>::empty());
    assert(lines_of(none) =~= Seq::<Seq<char>>::empty());
}

/// A number is read back from its digits, up to the highest number that is asked
/// for.
pub proof fn law_number_is_read_back(n: nat, max: nat)
    ensures
        parsed(dec(n), max) == if n <= max {
            Some(n)
        } else {
            None
        },
{
    lemma_dec_value(n);
    assert(is_digit(dec(n)[0]));
}

/// What stands behind a prefix is read back; a text without the prefix has
/// nothing behind it.
pub proof fn law_prefix_is_taken_off(p: Seq<char>, s: Seq<char>, t: Seq<char>)
    ensures
        starts(p + s, p),
        after_prefix(p + s, p) == Some(s),
        ends(s + p, p),
        after_prefix(t, p) matches Some(rest) ==> t == p + rest,
        has(s + p + t, p),
{
    assert((p + s).subrange(0, p.len() as int) =~= p);
    assert((p + s).skip(p.len() as int) =~= s);
    assert((s + p).subrange(s.len() as int, (s + p).len() as int) =~= p);
    if after_prefix(t, p) is Some {
        assert(t =~= t.subrange(0, p.len() as int) + t.skip(p.len() as int));
    }
    assert((s + p + t).subrange(s.len() as int, (s.len() + p.len()) as int) =~= p);
    assert(match_at(s + p + t, p, s.len() as int));
}

proof fn lemma_utf8_len_skip(s: Seq<char>)
    requires
        s.len() > 0,
    ensures
        utf8_len(s) == utf8_width(s[0]) + utf8_len(s.skip(1)),
    decreases s.len(),
{
    if s.len() == 1 {
        assert(s.skip(1) =~= Seq::empty());
        assert(s.drop_last() =~= Seq::empty());
    } else {
        lemma_utf8_len_skip(s.drop_last());
        assert(s.drop_last().skip(1) =~= s.skip(1).drop_last());
        assert(s.skip(1).last() == s.last());
    }
}

proof fn lemma_fitting(s: Seq<char>, max: int)
    ensures
        0 <= fitting(s, max) <= s.len(),
        max >= 0 ==> utf8_len(s.take(fitting(s, max))) <= max,
        fitting(s, max) < s.len() ==> utf8_len(s.take(fitting(s, max) + 1)) > max,
        utf8_len(s) <= max ==> fitting(s, max) == s.len(),
    decreases s.len(),
{
    if s.len() > 0 && utf8_width(s[0]) <= max {
        let t = s.skip(1);
        let k = fitting(t, max - utf8_width(s[0]));
        lemma_fitting(t, max - utf8_width(s[0]));
        lemma_utf8_len_skip(s.take(k + 1));
        assert(s.take(k + 1).skip(1) =~= t.take(k));
        if k < t.len() {
            lemma_utf8_len_skip(s.take(k + 2));
            assert(s.take(k + 2).skip(1) =~= t.take(k + 1));
        }
        lemma_utf8_len_skip(s);
    } else {
        assert(s.take(0) =~= Seq::empty());
        if s.len() > 0 {
            lemma_utf8_len_skip(s);
            lemma_utf8_len_skip(s.take(1));
            assert(s.take(1).skip(1) =~= Seq::empty());
        }
    }
}

/// A preview is the text itself where that fits in `max` bytes; otherwise it is
/// the longest front of the text that does, and an ellipsis.
pub proof fn law_preview_fits(s: Seq<char>, max: int)
    requires
        0 <= max,
    ensures
        utf8_len(s) <= max ==> preview(s, max) == s,
        utf8_len(s) > max ==> exists|k: int|
            0 <= k < s.len() && preview(s, max) == (#[trigger] s.take(k)).push('\u{2026}')
                && utf8_len(s.take(k)) <= max && utf8_len(s.take(k + 1)) > max,
{
    lemma_fitting(s, max);
    assert(s.take(s.len() as int) =~= s);
}

/// Letters in lower case stay as they are, and a text keeps its length in either
/// case; upper case undoes lower case and the other way round.
pub proof fn law_ascii_case(s: Seq<char>)
    ensures
        ascii_lower(s).len() == s.len(),
        ascii_upper(s).len() == s.len(),
        ascii_lower(ascii_lower(s)) == ascii_lower(s),
        ascii_upper(ascii_upper(s)) == ascii_upper(s),
        ascii_lower(ascii_upper(s)) == ascii_lower(s),
        ascii_upper(ascii_lower(s)) == ascii_upper(s),
        forall|i: int|
            0 <= i < s.len() ==> !('A' <= #[trigger] ascii_lower(s)[i] <= 'Z') && !('a'
                <= ascii_upper(s)[i] <= 'z') && (!('A' <= s[i] <= 'Z') ==> ascii_lower(s)[i] == s[i])
                && (!('a' <= s[i] <= 'z') ==> ascii_upper(s)[i] == s[i]),
{
    assert(ascii_lower(ascii_lower(s)) =~= ascii_lower(s));
    assert(ascii_upper(ascii_upper(s)) =~= ascii_upper(s));
    assert(ascii_lower(ascii_upper(s)) =~= ascii_lower(s));
    assert(ascii_upper(ascii_lower(s)) =~= ascii_upper(s));
}

/// A text stands in itself.
pub proof fn lemma_has_itself(s: Seq<char>)
    ensures
        has(s, s),
{
    assert(s.subrange(0, s.len() as int) =~= s);
    assert(match_at(s, s, 0));
}

/// The end of a text stands in it.
pub proof fn lemma_skip_stands(s: Seq<char>, k: int)
    requires
        0 <= k <= s.len(),
    ensures
        has(s, s.skip(k)),
{
    assert(s.subrange(k, k + s.skip(k).len()) =~= s.skip(k));
    assert(match_at(s, s.skip(k), k));
}

/// What stands in a part of a text stands in the text.
pub proof fn lemma_has_chain(a: Seq<char>, b: Seq<char>, c: Seq<char>)
    requires
        has(a, b),
        has(b, c),
    ensures
        has(a, c),
{
    let i = choose|i: int| match_at(a, b, i);
    let j = choose|j: int| match_at(b, c, j);
    assert(a.subrange(i + j, i + j + c.len()) =~= b.subrange(j, j + c.len()));
    assert(match_at(a, c, i + j));
}

/// What trimming leaves stands in the text.
pub proof fn lemma_trimmed_stands(s: Seq<char>)
    ensures
        has(s, trimmed(s)),
{
    law_trimmed_stands_in_the_text(s);
    let (i, j) = choose|i: int, j: int|
        0 <= i <= j <= s.len() && trimmed(s) == #[trigger] s.subrange(i, j);
    assert(match_at(s, trimmed(s), i));
}

/// What is left of a text without prefixes or suffixes stands in it.
pub proof fn lemma_stripped_stands(s: Seq<char>, p: Seq<char>)
    ensures
        has(s, strip_prefixes(s, p)),
        has(s, strip_suffixes(s, p)),
    decreases s.len(),
{
    if p.len() > 0 && starts(s, p) {
        let t = s.skip(p.len() as int);
        lemma_stripped_stands(t, p);
        lemma_skip_stands(s, p.len() as int);
        lemma_has_chain(s, t, strip_prefixes(t, p));
    } else {
        lemma_has_itself(s);
    }
    if p.len() > 0 && ends(s, p) {
        let t = s.take(s.len() - p.len());
        lemma_stripped_stands(t, p);
        assert(s.subrange(0, t.len() as int) =~= t);
        assert(match_at(s, t, 0));
        lemma_has_chain(s, t, strip_suffixes(t, p));
    } else {
        lemma_has_itself(s);
    }
}

/// A text with `p` at its front once and `q` at its end once, without them.
pub proof fn lemma_stripped(p: Seq<char>, s: Seq<char>, q: Seq<char>)
    requires
        p.len() > 0,
        q.len() > 0,
    ensures
        !starts(s, p) ==> strip_prefixes(p + s, p) == s,
        !starts(s, p) ==> strip_prefixes(s, p) == s,
        !ends(s, q) ==> strip_suffixes(s + q, q) == s,
{
    let a = p + s;
    law_prefix_is_taken_off(p, s, s);
    assert(a.skip(p.len() as int) =~= s);
    assert(strip_prefixes(a, p) == strip_prefixes(s, p));
    let b = s + q;
    law_prefix_is_taken_off(q, s, s);
    assert(b.take(b.len() - q.len()) =~= s);
    assert(strip_suffixes(b, q) == strip_suffixes(s, q));
}

/// The first `c` of a text whose front has none is where the rest begins with it.
pub proof fn lemma_char_index_behind(front: Seq<char>, rest: Seq<char>, c: char)
    requires
        !front.contains(c),
        rest.len() > 0,
        rest[0] == c,
    ensures
        char_index(front + rest, c) == Some(front.len() as int),
        (front + rest).skip(front.len() as int) == rest,
{
    let t = front + rest;
    lemma_char_index(t, c);
    assert(t[front.len() as int] == c);
    let i = char_index(t, c)->0;
    if i < front.len() {
        assert(front[i] == t[i]);
        assert(front.contains(c));
    }
    assert(t.skip(front.len() as int) =~= rest);
}

/// A split text has at least one piece.
pub proof fn lemma_split_filled(s: Seq<char>, c: char)
    ensures
        split_on(s, c).len() > 0,
{
    lemma_split(s, c);
}

/// Every `c` at the end of a text is taken off, and nothing else.
pub proof fn law_trailing_is_taken_off(s: Seq<char>, c: char, t: Seq<char>)
    requires
        s.len() == 0 || s.last() != c,
        forall|i: int| 0 <= i < t.len() ==> #[trigger] t[i] == c,
    ensures
        strip_trailing(s + t, c) == s,
    decreases t.len(),
{
    if t.len() == 0 {
        assert(s + t =~= s);
    } else {
        assert((s + t).drop_last() =~= s + t.drop_last());
        assert((s + t).last() == t[t.len() - 1]);
        assert forall|i: int| 0 <= i < t.drop_last().len() implies #[trigger] t.drop_last()[i]
            == c by {
            assert(t.drop_last()[i] == t[i]);
        }
        law_trailing_is_taken_off(s, c, t.drop_last());
    }
}

proof fn lemma_word_len(w: Seq<char>, rest: Seq<char>)
    requires
        forall|i: int| 0 <= i < w.len() ==> !is_space(#[trigger] w[i]),
        rest.len() == 0 || is_space(rest[0]),
    ensures
        word_len(w + rest) == w.len(),
    decreases w.len(),
{
    if w.len() == 0 {
        assert(w + rest =~= rest);
    } else {
        let more = w.skip(1);
        assert((w + rest).skip(1) =~= more + rest);
        assert((w + rest)[0] == w[0]);
        assert forall|i: int| 0 <= i < more.len() implies !is_space(#[trigger] more[i]) by {
            assert(more[i] == w[i + 1]);
        }
        lemma_word_len(more, rest);
    }
}

/// The first word of a text is what stands before its first white space, but for white
/// space at its front.
pub proof fn law_first_word(a: Seq<char>, w: Seq<char>, rest: Seq<char>)
    requires
        is_blank(a),
        w.len() > 0,
        forall|i: int| 0 <= i < w.len() ==> !is_space(#[trigger] w[i]),
        rest.len() == 0 || is_space(rest[0]),
    ensures
        first_word(a + w + rest) == Some(w),
{
    assert(a + w + rest =~= a + (w + rest));
    assert((w + rest)[0] == w[0]);
    lemma_trim_start_blank(a, w + rest);
    lemma_word_len(w, rest);
    assert((w + rest).take(w.len() as int) =~= w);
}

/// What follows the first place of a word in a text is what follows that place.
pub proof fn law_what_follows_a_word(a: Seq<char>, n: Seq<char>, b: Seq<char>)
    requires
        forall|i: int| 0 <= i < a.len() ==> !match_at(a + n + b, n, i),
    ensures
        after_first(a + n + b, n) == Some(b),
{
    let h = a + n + b;
    lemma_index_of(h, n, 0);
    assert(h.subrange(a.len() as int, (a.len() + n.len()) as int) =~= n);
    assert(match_at(h, n, a.len() as int));
    let i = index_of(h, n, 0)->0;
    assert(i == a.len());
    assert(h.skip((a.len() + n.len()) as int) =~= b);
}

/// The rows of a text are its lines without white space around them; blank lines are
/// none.
pub proof fn law_rows_are_filled_lines(lines: Seq<Seq<char>>, line: Seq<char>)
    ensures
        filled_lines(Seq::<Seq<char>>::empty()).len() == 0,
        is_blank(line) ==> filled_lines(lines.push(line)) == filled_lines(lines),
        is_tight(line) ==> filled_lines(lines.push(line)) == filled_lines(lines).push(line),
{
    assert(lines.push(line).drop_last() =~= lines);
    let none = Seq::<char>::empty();
    if is_blank(line) {
        law_trimming_takes_off_space(line, none, none);
        assert(line + none + none =~= line);
    }
    if is_tight(line) {
        lemma_tight_stays(line);
    }
}

/// Texts are ordered: no text stands before itself, of two different texts one stands
/// before the other but not both, and a text stands before those that go on from it.
pub proof fn law_texts_are_ordered(a: Seq<char>, b: Seq<char>)
    ensures
        !before(a, a),
        before(a, b) ==> !before(b, a),
        a != b ==> before(a, b) || before(b, a),
        b.len() > 0 ==> before(a, a + b),
    decreases a.len(),
{
    if a.len() > 0 {
        let more = a.skip(1);
        law_texts_are_ordered(more, b.skip(1));
        law_texts_are_ordered(more, b);
        assert((a + b).skip(1) =~= more + b);
        assert((a + b)[0] == a[0]);
        if b.len() > 0 && a[0] == b[0] && more == b.skip(1) {
            assert(a =~= seq![a[0]] + more);
            assert(b =~= seq![b[0]] + b.skip(1));
        }
    } else if b.len() == 0 {
        assert(a =~= b);
    }
}

} // verus!
