//! Readings in the JSON that GPU tools print.

use crate::decimal;
use crate::json;
use crate::json::{Json, JsonV};
use crate::text;
use vstd::prelude::*;

verus! {

/// The position that a step of a JSON pointer names in an array.
pub open spec fn array_step(token: Seq<char>) -> Option<nat> {
    if token.len() > 0 && (token[0] == '+' || (token[0] == '0' && token.len() != 1)) {
        None
    } else {
        text::parsed(token, usize::MAX as nat)
    }
}

/// What one step of a JSON pointer leads to.
pub open spec fn step(j: JsonV, token: Seq<char>) -> Option<JsonV> {
    match j {
        JsonV::Obj(m) => json::lookup(m, token),
        JsonV::Arr(s) => match array_step(token) {
            Some(i) => json::item_at(j, i as int),
            None => None,
        },
        _ => None,
    }
}

/// What the steps `path` lead to.
pub open spec fn follow(j: JsonV, path: Seq<Seq<char>>) -> Option<JsonV>
    decreases path.len(),
{
    if path.len() == 0 {
        Some(j)
    } else {
        match follow(j, path.drop_last()) {
            Some(k) => step(k, path.last()),
            None => None,
        }
    }
}

fn take_step<'a>(j: &'a Json, token: &str) -> (r: Option<&'a Json>)
    ensures
        json::opt(r) == step(j@, token@),
{
    match j {
        Json::Object(_) => j.get(token),
        Json::Array(v) => {
            let cs = text::chars_of(token);
            if cs.len() > 0 && (cs[0] == '+' || (cs[0] == '0' && cs.len() != 1)) {
                return None;
            }
            match text::parse_up_to(token, usize::MAX as u64) {
                Some(i) => j.item(i as usize),
                None => None,
            }
        },
        _ => None,
    }
}

/// The steps of a JSON pointer.
pub open spec fn steps(pointer: Seq<char>) -> Seq<Seq<char>> {
    text::split_on(pointer, '/').skip(1)
}

/// What the JSON pointer `pointer`, of plain steps behind slashes, leads to.
pub open spec fn at(j: JsonV, pointer: Seq<char>) -> Option<JsonV> {
    follow(j, steps(pointer))
}

/// What the JSON pointer `pointer`, of plain steps behind slashes, leads to.
pub fn point<'a>(j: &'a Json, pointer: &str) -> (r: Option<&'a Json>)
    ensures
        json::opt(r) == at(j@, pointer@),
{
    let tokens = text::split(pointer, '/');
    let ghost path = steps(pointer@);
    let mut cur: &'a Json = j;
    let mut i: usize = 1;
    while i < tokens.len()
        invariant
            1 <= i <= tokens@.len(),
            text::views(tokens@) == text::split_on(pointer@, '/'),
            path == steps(pointer@),
            follow(j@, path.take(i - 1)) == Some(cur@),
        decreases tokens@.len() - i,
    {
        proof {
            assert(path.take(i as int).drop_last() =~= path.take(i - 1));
            assert(path.take(i as int).last() == text::views(tokens@)[i as int]);
        }
        match take_step(cur, &tokens[i]) {
            Some(k) => {
                cur = k;
            },
            None => {
                proof {
                    lemma_follow_stops(j@, path, i as int);
                }
                return None;
            },
        }
        i += 1;
    }
    assert(path.take(i - 1) =~= path);
    Some(cur)
}

proof fn lemma_follow_stops(j: JsonV, path: Seq<Seq<char>>, n: int)
    requires
        0 <= n <= path.len(),
        follow(j, path.take(n)) is None,
    ensures
        follow(j, path) is None,
    decreases path.len() - n,
{
    if n < path.len() {
        assert(path.take(n + 1).drop_last() =~= path.take(n));
        lemma_follow_stops(j, path, n + 1);
    } else {
        assert(path.take(n) =~= path);
    }
}

/// `n`, or the highest value there is where it is higher, or 0 where it is
/// negative.
pub open spec fn clamped(n: int) -> u64 {
    if n < 0 {
        0
    } else {
        decimal::capped(n as nat)
    }
}

/// A number as a whole number from 0 on, the nearest where `near`. One that is no
/// integer is a double.
pub open spec fn number(v: JsonV, near: bool) -> Option<u64> {
    match v {
        JsonV::Int(n) => Some(clamped(n)),
        JsonV::Float(t) => match decimal::decimal_whole(t, near) {
            Some(n) => Some(decimal::capped(n)),
            None => None,
        },
        _ => None,
    }
}

/// A number as a whole number from 0 on, the nearest where `near`.
pub fn number_of(v: &Json, near: bool) -> (r: Option<u64>)
    ensures
        r == number(v@, near),
{
    match v {
        Json::UInt(n) => Some(*n),
        Json::NegInt(n) => if *n < 0 {
            Some(0)
        } else {
            Some(*n as u64)
        },
        Json::Float(n) => decimal::decimal_number(&n.to_text(), near),
        _ => None,
    }
}

/// The number that a text writes, rounded: a whole number, a decimal number, which is
/// read as a double, or infinity, which is the highest value there is; what is not a
/// number is 0.
pub open spec fn text_number(s: Seq<char>) -> Option<u64> {
    match text::parsed(s, u64::MAX as nat) {
        Some(n) => Some(n as u64),
        None => match decimal::decimal_whole(s, true) {
            Some(n) => Some(decimal::capped(n)),
            None => {
                let (minus, word) = decimal::signed(s);
                let lower = text::ascii_lower(word);
                if lower == "inf"@ || lower == "infinity"@ {
                    Some(
                        if minus {
                            0
                        } else {
                            u64::MAX
                        },
                    )
                } else if lower == "nan"@ {
                    Some(0)
                } else {
                    None
                }
            },
        },
    }
}

/// The number that a text writes, rounded.
pub fn number_in_text(s: &str) -> (r: Option<u64>)
    ensures
        r == text_number(s@),
{
    let whole: Option<u64> = text::parse_up_to(s, u64::MAX);
    if whole.is_some() {
        return whole;
    }
    let near: Option<u64> = decimal::decimal_number(s, true);
    if near.is_some() {
        return near;
    }
    let (minus, word) = decimal::take_sign(s);
    let lower = text::to_ascii_lower(&word);
    if text::str_eq(&lower, "inf") || text::str_eq(&lower, "infinity") {
        if minus {
            Some(0)
        } else {
            Some(u64::MAX)
        }
    } else if text::str_eq(&lower, "nan") {
        Some(0)
    } else {
        None
    }
}

/// The reading that a value gives, as a number or as text, rounded.
pub open spec fn reading(v: JsonV) -> Option<u64> {
    match v {
        JsonV::Str(s) => text_number(s),
        _ => number(v, true),
    }
}

/// The reading that a value gives, as a number or as text, rounded.
pub fn reading_of(v: &Json) -> (r: Option<u64>)
    ensures
        r == reading(v@),
{
    match v {
        Json::Str(s) => number_in_text(s),
        _ => number_of(v, true),
    }
}

/// The reading at the first of `pointers` that gives one.
pub open spec fn first_reading(j: JsonV, pointers: Seq<Seq<char>>) -> Option<u64>
    decreases pointers.len(),
{
    if pointers.len() == 0 {
        None
    } else {
        let here = match at(j, pointers[0]) {
            Some(v) => reading(v),
            None => None,
        };
        if here is Some {
            here
        } else {
            first_reading(j, pointers.skip(1))
        }
    }
}

/// The reading at `pointer`.
pub fn reading_at(j: &Json, pointer: &str) -> (r: Option<u64>)
    ensures
        r == first_reading(j@, seq![pointer@]),
{
    let ghost one = seq![pointer@];
    assert(one.skip(1) =~= Seq::<Seq<char>>::empty());
    reveal_with_fuel(first_reading, 2);
    match point(j, pointer) {
        Some(v) => reading_of(v),
        None => None,
    }
}

/// The reading at the first of three pointers that gives one.
pub fn reading_at3(j: &Json, a: &str, b: &str, c: &str) -> (r: Option<u64>)
    ensures
        r == first_reading(j@, seq![a@, b@, c@]),
{
    proof {
        let ps = seq![a@, b@, c@];
        assert(ps.skip(1) =~= seq![b@, c@]);
        assert(seq![b@, c@].skip(1) =~= seq![c@]);
        assert(seq![c@].skip(1) =~= Seq::<Seq<char>>::empty());
        reveal_with_fuel(first_reading, 4);
    }
    let x: Option<u64> = reading_at(j, a);
    if x.is_some() {
        return x;
    }
    let y: Option<u64> = reading_at(j, b);
    if y.is_some() {
        return y;
    }
    reading_at(j, c)
}

/// The reading at the first of four pointers that gives one.
pub fn reading_at4(j: &Json, a: &str, b: &str, c: &str, d: &str) -> (r: Option<u64>)
    ensures
        r == first_reading(j@, seq![a@, b@, c@, d@]),
{
    proof {
        let ps = seq![a@, b@, c@, d@];
        assert(ps.skip(1) =~= seq![b@, c@, d@]);
        assert(seq![a@].skip(1) =~= Seq::<Seq<char>>::empty());
        reveal_with_fuel(first_reading, 2);
    }
    let x: Option<u64> = reading_at(j, a);
    if x.is_some() {
        return x;
    }
    reading_at3(j, b, c, d)
}

/// The first of two values that is there.
pub fn first2<'a>(a: Option<&'a Json>, b: Option<&'a Json>) -> (r: Option<&'a Json>)
    ensures
        r == if a is Some {
            a
        } else {
            b
        },
{
    if a.is_some() {
        a
    } else {
        b
    }
}

/// The first of two values that is there.
pub open spec fn either(a: Option<JsonV>, b: Option<JsonV>) -> Option<JsonV> {
    if a is Some {
        a
    } else {
        b
    }
}

/// The whole number that a value gives, as a number or as text.
pub open spec fn whole(v: Option<JsonV>) -> Option<u64> {
    match v {
        Some(JsonV::Str(s)) => match text::parsed(s, u64::MAX as nat) {
            Some(n) => Some(n as u64),
            None => None,
        },
        _ => json::u64_in(v),
    }
}

/// The whole number that a value gives, as a number or as text.
pub fn whole_of(v: Option<&Json>) -> (r: Option<u64>)
    ensures
        r == whole(json::opt(v)),
{
    match v {
        Some(Json::Str(s)) => text::parse_up_to(s, u64::MAX),
        Some(j) => j.as_u64(),
        None => None,
    }
}

/// A copy of the text that a value is.
pub fn text_of(v: Option<&Json>) -> (r: Option<String>)
    ensures
        text::opt_view(r) == json::str_in(json::opt(v)),
{
    match v {
        Some(j) => match j.as_str() {
            Some(s) => Some(text::copy(s)),
            None => None,
        },
        None => None,
    }
}

/// An amount of memory in mebibytes: what looks like bytes is taken as bytes.
pub open spec fn mem_mb(v: u64) -> u64 {
    if v > 1_000_000 {
        v / 1048576
    } else {
        v
    }
}

/// An amount of memory in mebibytes: what looks like bytes is taken as bytes.
pub fn normalize_mem_to_mb(v: u64) -> (r: u64)
    ensures
        r == mem_mb(v),
{
    if v > 1_000_000 {
        v / 1048576
    } else {
        v
    }
}

/// The number, or `d` where there is none.
pub open spec fn or_u64(v: Option<u64>, d: u64) -> u64 {
    match v {
        Some(n) => n,
        None => d,
    }
}

/// A load in percent, up to 100.
pub open spec fn load(v: u64) -> u8 {
    if v > 100 {
        100
    } else {
        v as u8
    }
}

/// A load in percent, up to 100.
pub fn load_of(v: u64) -> (r: u8)
    ensures
        r == load(v),
{
    if v > 100 {
        100
    } else {
        v as u8
    }
}

/// A reading up to 255.
pub open spec fn byte(v: u64) -> u8 {
    if v > 255 {
        255
    } else {
        v as u8
    }
}

/// A reading up to 255.
pub fn byte_of(v: u64) -> (r: u8)
    ensures
        r == byte(v),
{
    if v > 255 {
        255
    } else {
        v as u8
    }
}

/// A pointer is followed key by key: one key more leads from the value that was
/// reached to its entry under that key, and an empty pointer leads nowhere else.
pub proof fn law_pointer_is_followed(j: JsonV, pointer: Seq<char>, key: Seq<char>)
    requires
        !key.contains('/'),
    ensures
        at(j, Seq::<char>::empty()) == Some(j),
        at(j, pointer + seq!['/'] + key) == (match at(j, pointer) {
            Some(v) => step(v, key),
            None => None,
        }),
        at(j, pointer) matches Some(v) ==> v is Obj ==> at(j, pointer + seq!['/'] + key)
            == json::field(v, key),
{
    let none = Seq::<char>::empty();
    assert(text::split_on(none, '/').skip(1) =~= Seq::<Seq<char>>::empty());
    let front = pointer + seq!['/'];
    text::law_pieces_make_the_text(pointer, '/');
    text::lemma_split_append(front, '/', key);
    assert(front.drop_last() =~= pointer);
    let p = text::split_on(pointer, '/');
    assert(text::split_on(front, '/') == p.push(Seq::empty()));
    assert(p.push(Seq::empty()).drop_last() =~= p);
    assert(Seq::<char>::empty() + key =~= key);
    assert(text::split_on(front + key, '/') =~= p.push(key));
    text::lemma_split_filled(pointer, '/');
    assert(p.push(key).skip(1) =~= p.skip(1).push(key));
    assert(p.skip(1).push(key).drop_last() =~= p.skip(1));
}

/// A reading of a load is at most 100 and a byte at most 255; a lower one stays.
pub proof fn law_readings_are_limited(v: u64)
    ensures
        load(v) <= 100,
        v <= 100 ==> load(v) == v,
        v > 100 ==> load(v) == 100,
        v <= 255 ==> byte(v) == v,
        v > 255 ==> byte(v) == 255,
        v <= 1_000_000 ==> mem_mb(v) == v,
        v > 1_000_000 ==> mem_mb(v) * 1048576 <= v < (mem_mb(v) + 1) * 1048576,
{
}

/// A whole number is read as it is, negative ones as 0, and so are its digits.
pub proof fn law_whole_number_is_read(n: nat)
    requires
        n <= u64::MAX,
    ensures
        reading(JsonV::Int(n as int)) == Some(n as u64),
        reading(JsonV::Str(text::dec(n))) == Some(n as u64),
        whole(Some(JsonV::Int(n as int))) == Some(n as u64),
        whole(Some(JsonV::Str(text::dec(n)))) == Some(n as u64),
        n > 0 ==> reading(JsonV::Int(-(n as int))) == Some(0u64),
{
    text::law_number_is_read_back(n, u64::MAX as nat);
}

} // verus!
