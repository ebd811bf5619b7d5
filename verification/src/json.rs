//! JSON values, read and written by `serde_json`.
//!
//! [`Json`] is a value that the rest of the library can look into; [`JsonV`] is
//! what it means. An object means a map, so neither the order of its entries
//! nor how they are stored is part of a contract.

use crate::text;
use vstd::prelude::*;

verus! {

/// `serde_json::Value`, a parsed JSON text.
#[verifier::external_type_specification]
#[verifier::external_body]
pub struct ExValue(serde_json::Value);

/// `serde_json::Number`, carried through unopened where it is no integer.
#[verifier::external_type_specification]
#[verifier::external_body]
pub struct ExNumber(serde_json::Number);

/// A number that is no integer: it is printed with a point or an exponent.
#[derive(Debug, PartialEq)]
pub struct Fraction {
    number: serde_json::Number,
}

impl Fraction {
    #[verifier::type_invariant]
    spec fn is_no_integer(self) -> bool {
        is_fraction(number_text(self.number))
    }

    /// The text of the number.
    pub closed spec fn text(self) -> Seq<char> {
        number_text(self.number)
    }
}

/// A JSON value. Of entries with one key in an object the last counts.
#[derive(Debug, PartialEq)]
pub enum Json {
    Null,
    Bool(bool),
    /// An integer from 0 on.
    UInt(u64),
    /// An integer that `u64` cannot hold.
    NegInt(i64),
    /// A number with a fraction or an exponent.
    Float(Fraction),
    Str(String),
    Array(Vec<Json>),
    Object(Vec<(String, Json)>),
}

/// What a JSON value means.
#[verifier::ext_equal]
pub enum JsonV {
    Null,
    Bool(bool),
    Int(int),
    Float(Seq<char>),
    Str(Seq<char>),
    Arr(Seq<JsonV>),
    Obj(Map<Seq<char>, JsonV>),
}

/// The text by which a number is printed.
pub uninterp spec fn number_text(n: serde_json::Number) -> Seq<char>;

/// Whether the text of a number has a point or an exponent.
pub open spec fn is_fraction(t: Seq<char>) -> bool {
    t.contains('.') || t.contains('e')
}

/// What a `serde_json::Value` holds.
pub uninterp spec fn value_contents(v: serde_json::Value) -> JsonV;

/// What `serde_json::from_str` reads from a text, or its error message.
pub uninterp spec fn json_read(t: Seq<char>) -> Result<JsonV, Seq<char>>;

/// The error message of `serde_json::from_slice` on bytes that are no UTF-8.
pub uninterp spec fn bytes_fault(bytes: Seq<u8>) -> Seq<char>;

/// What `serde_json::from_slice` reads from `bytes`, or its error message.
pub open spec fn bytes_read(bytes: Seq<u8>) -> Result<JsonV, Seq<char>> {
    if vstd::utf8::valid_utf8(bytes) {
        json_read(vstd::utf8::decode_utf8(bytes))
    } else {
        Err(bytes_fault(bytes))
    }
}

/// What `t` writes as JSON; `None` where it is no JSON.
pub open spec fn json_parse(t: Seq<char>) -> Option<JsonV> {
    match json_read(t) {
        Ok(v) => Some(v),
        Err(_) => None,
    }
}

/// Whether `t` reads as `v`.
pub open spec fn reads_as(t: Seq<char>, v: JsonV) -> bool {
    json_read(t) == Ok::<JsonV, Seq<char>>(v)
}

/// The compact text by which `serde_json` prints a value.
pub uninterp spec fn json_print(v: JsonV) -> Seq<char>;

/// Whether all numbers in `v` are integers, its arrays and objects stand in each
/// other at most `n` deep, and no key is one that `serde_json` keeps for itself.
pub open spec fn is_plain(v: JsonV, n: nat) -> bool
    decreases n,
{
    match v {
        JsonV::Float(_) => false,
        JsonV::Arr(s) => n > 0 && forall|i: int|
            0 <= i < s.len() ==> is_plain(#[trigger] s[i], (n - 1) as nat),
        JsonV::Obj(m) => n > 0 && forall|k: Seq<char>|
            m.dom().contains(k) ==> k != "$serde_json::private::RawValue"@ && is_plain(
                #[trigger] m[k],
                (n - 1) as nat,
            ),
        _ => true,
    }
}

/// What `j` means.
pub open spec fn jview(j: Json) -> JsonV
    decreases j,
{
    match j {
        Json::Null => JsonV::Null,
        Json::Bool(b) => JsonV::Bool(b),
        Json::UInt(n) => JsonV::Int(n as int),
        Json::NegInt(n) => JsonV::Int(n as int),
        Json::Float(n) => JsonV::Float(n.text()),
        Json::Str(s) => JsonV::Str(s@),
        Json::Array(v) => JsonV::Arr(items_view(v@)),
        Json::Object(v) => JsonV::Obj(entries_view(v@)),
    }
}

/// What the items of an array mean.
pub open spec fn items_view(v: Seq<Json>) -> Seq<JsonV>
    decreases v,
{
    Seq::new(
        v.len(),
        |i: int|
            if 0 <= i < v.len() {
                jview(v[i])
            } else {
                JsonV::Null
            },
    )
}

/// What the entries of an object mean.
pub open spec fn entries_view(v: Seq<(String, Json)>) -> Map<Seq<char>, JsonV>
    decreases v,
{
    if v.len() == 0 {
        Map::empty()
    } else {
        entries_view(v.drop_last()).insert(v.last().0@, jview(v.last().1))
    }
}

impl View for Json {
    type V = JsonV;

    open spec fn view(&self) -> JsonV {
        jview(*self)
    }
}

/// What an optional value means.
pub open spec fn opt(o: Option<&Json>) -> Option<JsonV> {
    match o {
        Some(j) => Some(j@),
        None => None,
    }
}

/// What an optional value that is owned means.
pub open spec fn opt_owned(o: Option<Json>) -> Option<JsonV> {
    match o {
        Some(j) => Some(j@),
        None => None,
    }
}

/// The entry of `m` under `k`.
pub open spec fn lookup(m: Map<Seq<char>, JsonV>, k: Seq<char>) -> Option<JsonV> {
    if m.dom().contains(k) {
        Some(m[k])
    } else {
        None
    }
}

/// One level of a `serde_json::Value`: its variant, and its children unopened.
pub enum Layer {
    Null,
    Bool(bool),
    UInt(u64),
    NegInt(i64),
    Float(serde_json::Number),
    Str(String),
    Array(Vec<serde_json::Value>),
    Object(Vec<(String, serde_json::Value)>),
}

/// What the children of an array mean.
pub open spec fn value_items(v: Seq<serde_json::Value>) -> Seq<JsonV> {
    v.map_values(|c: serde_json::Value| value_contents(c))
}

/// What the children of an object mean; of equal keys the last counts.
pub open spec fn value_entries(v: Seq<(String, serde_json::Value)>) -> Map<Seq<char>, JsonV>
    decreases v.len(),
{
    if v.len() == 0 {
        Map::empty()
    } else {
        value_entries(v.drop_last()).insert(v.last().0@, value_contents(v.last().1))
    }
}

proof fn lemma_value_entries_finite(v: Seq<(String, serde_json::Value)>)
    ensures
        value_entries(v).dom().finite(),
    decreases v.len(),
{
    if v.len() > 0 {
        lemma_value_entries_finite(v.drop_last());
    }
}

/// What one level means.
pub open spec fn layer_contents(l: Layer) -> JsonV {
    match l {
        Layer::Null => JsonV::Null,
        Layer::Bool(b) => JsonV::Bool(b),
        Layer::UInt(n) => JsonV::Int(n as int),
        Layer::NegInt(n) => JsonV::Int(n as int),
        Layer::Float(n) => JsonV::Float(number_text(n)),
        Layer::Str(s) => JsonV::Str(s@),
        Layer::Array(v) => JsonV::Arr(value_items(v@)),
        Layer::Object(v) => JsonV::Obj(value_entries(v@)),
    }
}

/// `serde_json::from_str` on any JSON value: it reads `t`, or fails with a
/// message, as [`json_read`] names it.
#[verifier::external_body]
fn value_from_text(t: &str) -> (r: Result<serde_json::Value, String>)
    ensures
        match r {
            Ok(v) => json_read(t@) == Ok::<JsonV, Seq<char>>(value_contents(v)),
            Err(m) => json_read(t@) == Err::<JsonV, Seq<char>>(m@),
        },
{
    serde_json::from_str::<serde_json::Value>(t).map_err(|e| e.to_string())
}

/// `serde_json::from_slice` on any JSON value: it reads what `serde_json::from_str`
/// reads from the same bytes as a text, and fails as it does. Bytes that are no
/// UTF-8 it never reads; [`bytes_fault`] names its message.
#[verifier::external_body]
fn value_from_bytes(bytes: &[u8]) -> (r: Result<serde_json::Value, String>)
    ensures
        match r {
            Ok(v) => vstd::utf8::valid_utf8(bytes@) && reads_as(vstd::utf8::decode_utf8(bytes@), value_contents(v)),
            Err(m) => if vstd::utf8::valid_utf8(bytes@) {
                json_read(vstd::utf8::decode_utf8(bytes@)) == Err::<JsonV, Seq<char>>(m@)
            } else {
                m@ == bytes_fault(bytes@)
            },
        },
{
    serde_json::from_slice::<serde_json::Value>(bytes).map_err(|e| e.to_string())
}

/// `serde_json::Value` taken apart by one level. An object's entries come out
/// once per key. A number that neither `as_u64` nor `as_i64` gives is a float,
/// which is printed with a point or an exponent.
#[verifier::external_body]
fn open_value(v: serde_json::Value) -> (r: Layer)
    ensures
        layer_contents(r) == value_contents(v),
        r matches Layer::Float(n) ==> is_fraction(number_text(n)),
{
    match v {
        serde_json::Value::Null => Layer::Null,
        serde_json::Value::Bool(b) => Layer::Bool(b),
        serde_json::Value::Number(n) => match (n.as_u64(), n.as_i64()) {
            (Some(u), _) => Layer::UInt(u),
            (None, Some(i)) => Layer::NegInt(i),
            (None, None) => Layer::Float(n),
        },
        serde_json::Value::String(s) => Layer::Str(s),
        serde_json::Value::Array(a) => Layer::Array(a),
        serde_json::Value::Object(m) => Layer::Object(m.into_iter().collect()),
    }
}

/// `serde_json::Value` put together from one level. Collecting an object's
/// entries keeps the last of each key.
#[verifier::external_body]
fn close_value(l: Layer) -> (r: serde_json::Value)
    requires
        l matches Layer::Float(n) ==> is_fraction(number_text(n)),
    ensures
        value_contents(r) == layer_contents(l),
{
    match l {
        Layer::Null => serde_json::Value::Null,
        Layer::Bool(b) => serde_json::Value::Bool(b),
        Layer::UInt(u) => serde_json::Value::from(u),
        Layer::NegInt(i) => serde_json::Value::from(i),
        Layer::Float(n) => serde_json::Value::Number(n),
        Layer::Str(s) => serde_json::Value::String(s),
        Layer::Array(a) => serde_json::Value::Array(a),
        Layer::Object(m) => serde_json::Value::Object(m.into_iter().collect()),
    }
}

/// Whether the text `t` begins as that of the value `v` does, where `v` is an
/// object: with a brace.
pub open spec fn opens_as(t: Seq<char>, v: JsonV) -> bool {
    v is Obj ==> t.len() > 0 && t[0] == '{'
}

/// `serde_json::Value::to_string`: the compact text that [`json_print`] names. That
/// of an object begins with a brace. The text reads back to the value where all
/// numbers are integers and nothing stands more than 127 deep, which is as far as
/// `serde_json::from_str` goes.
#[verifier::external_body]
fn value_text(v: &serde_json::Value) -> (r: String)
    ensures
        r@ == json_print(value_contents(*v)),
        opens_as(r@, value_contents(*v)),
        is_plain(value_contents(*v), 127) ==> reads_as(r@, value_contents(*v)),
{
    v.to_string()
}

/// `serde_json::Number::to_string`: the text that [`number_text`] names.
#[verifier::external_body]
fn number_string(n: &serde_json::Number) -> (r: String)
    ensures
        r@ == number_text(*n),
{
    n.to_string()
}

/// `serde_json::Number::clone`: the copy prints as its original does.
#[verifier::external_body]
fn copy_number(n: &serde_json::Number) -> (r: serde_json::Number)
    ensures
        number_text(r) == number_text(*n),
{
    n.clone()
}

impl Fraction {
    /// The text of the number.
    pub fn to_text(&self) -> (r: String)
        ensures
            r@ == self.text(),
    {
        number_string(&self.number)
    }

    fn copy(&self) -> (r: Fraction)
        ensures
            r.text() == self.text(),
    {
        proof {
            use_type_invariant(self);
        }
        Fraction { number: copy_number(&self.number) }
    }
}

/// The library's form of a `serde_json::Value`.
pub fn from_value(v: serde_json::Value) -> (r: Json)
    ensures
        r@ == value_contents(v),
    decreases value_contents(v),
{
    let ghost c = value_contents(v);
    match open_value(v) {
        Layer::Null => Json::Null,
        Layer::Bool(b) => Json::Bool(b),
        Layer::UInt(n) => Json::UInt(n),
        Layer::NegInt(n) => Json::NegInt(n),
        Layer::Float(n) => Json::Float(Fraction { number: n }),
        Layer::Str(s) => Json::Str(s),
        Layer::Array(a) => {
            let mut out: Vec<Json> = Vec::new();
            let ghost all = a@;
            let mut rest = a;
            while rest.len() > 0
                invariant
                    c == value_contents(v),
                    c == JsonV::Arr(value_items(all)),
                    rest@ == all.take(rest@.len() as int),
                    rest@.len() + out@.len() == all.len(),
                    forall|k: int|
                        0 <= k < out@.len() ==> jview(#[trigger] out@[k]) == value_contents(
                            all[all.len() - 1 - k],
                        ),
                decreases rest.len(),
            {
                let ghost n = rest@.len() - 1;
                let child = rest.pop().unwrap();
                assert(child == all[n]);
                assert(value_items(all)[n] == value_contents(child));
                assert(decreases_to!(c => c->Arr_0));
                assert(decreases_to!(c->Arr_0 => (c->Arr_0)[n]));
                out.push(from_value(child));
                assert(rest@ =~= all.take(n));
            }
            let items = reversed(out);
            assert(items_view(items@) =~= value_items(all));
            Json::Array(items)
        },
        Layer::Object(m) => {
            let mut out: Vec<(String, Json)> = Vec::new();
            let ghost all = m@;
            let mut rest = m;
            while rest.len() > 0
                invariant
                    c == value_contents(v),
                    c == JsonV::Obj(value_entries(all)),
                    rest@.len() <= all.len(),
                    rest@ == all.take(rest@.len() as int),
                    value_entries(all) == value_entries(rest@).union_prefer_right(
                        entries_view(out@),
                    ),
                decreases rest.len(),
            {
                let ghost before = rest@;
                let (k, child) = rest.pop().unwrap();
                assert(before.drop_last() =~= rest@);
                assert(all.take(before.len() as int).drop_last() =~= all.take(rest@.len() as int));
                if !has_key(&out, &k) {
                    proof {
                        let m1 = value_entries(before);
                        assert(m1.dom().contains(k@));
                        assert(value_entries(all).dom().contains(k@));
                        assert(value_entries(all)[k@] == value_contents(child));
                        lemma_value_entries_finite(all);
                        assert(decreases_to!(c => c->Obj_0));
                        assert(decreases_to!(c->Obj_0 => (c->Obj_0)[k@]));
                    }
                    let sub = from_value(child);
                    let ghost o = out@;
                    out.push((k, sub));
                    assert(out@.drop_last() =~= o);
                    assert(value_entries(all) =~= value_entries(rest@).union_prefer_right(
                        entries_view(out@),
                    ));
                } else {
                    assert(value_entries(all) =~= value_entries(rest@).union_prefer_right(
                        entries_view(out@),
                    ));
                }
            }
            assert(value_entries(rest@) =~= Map::empty());
            assert(entries_view(out@) =~= value_entries(all));
            Json::Object(out)
        },
    }
}

/// Replacing the last entry with some key puts its value under that key.
proof fn lemma_entries_update(v: Seq<(String, Json)>, i: int, e: (String, Json))
    requires
        0 <= i < v.len(),
        e.0@ == v[i].0@,
        forall|j: int| i < j < v.len() ==> (#[trigger] v[j]).0@ != e.0@,
    ensures
        entries_view(v.update(i, e)) == entries_view(v).insert(e.0@, e.1@),
    decreases v.len(),
{
    let u = v.update(i, e);
    if i == v.len() - 1 {
        assert(u.drop_last() =~= v.drop_last());
        assert(entries_view(u) =~= entries_view(v).insert(e.0@, e.1@));
    } else {
        lemma_entries_update(v.drop_last(), i, e);
        assert(u.drop_last() =~= v.drop_last().update(i, e));
        assert(v.last() == v[v.len() - 1]);
        assert(entries_view(u) =~= entries_view(v).insert(e.0@, e.1@));
    }
}

/// Appending an item appends what it means.
pub proof fn lemma_items_push(v: Seq<Json>, j: Json)
    ensures
        items_view(v.push(j)) == items_view(v).push(j@),
{
    assert(items_view(v.push(j)) =~= items_view(v).push(j@));
}

/// The items of `v`, last first.
fn reversed(v: Vec<Json>) -> (r: Vec<Json>)
    ensures
        r@ == v@.reverse(),
{
    let ghost all = v@;
    let mut rest = v;
    let mut out: Vec<Json> = Vec::new();
    while rest.len() > 0
        invariant
            rest@ == all.take(rest@.len() as int),
            rest@.len() + out@.len() == all.len(),
            out@ == all.reverse().take(out@.len() as int),
        decreases rest.len(),
    {
        let ghost n = rest@.len() - 1;
        let x = rest.pop().unwrap();
        assert(rest@ =~= all.take(n));
        out.push(x);
        assert(out@ =~= all.reverse().take(out@.len() as int));
    }
    assert(out@ =~= all.reverse());
    out
}

/// Whether an entry of `v` has the key `k`.
fn has_key(v: &Vec<(String, Json)>, k: &str) -> (r: bool)
    ensures
        r == entries_view(v@).dom().contains(k@),
{
    match find_key(v, k) {
        Some(_) => true,
        None => false,
    }
}

/// The position of the last entry of `v` with the key `k`.
fn find_key(v: &Vec<(String, Json)>, k: &str) -> (r: Option<usize>)
    ensures
        match r {
            Some(i) => {
                &&& i < v@.len()
                &&& v@[i as int].0@ == k@
                &&& forall|j: int| i < j < v@.len() ==> (#[trigger] v@[j]).0@ != k@
                &&& lookup(entries_view(v@), k@) == Some(v@[i as int].1@)
            },
            None => !entries_view(v@).dom().contains(k@),
        },
{
    let mut i: usize = v.len();
    assert(v@.take(i as int) =~= v@);
    while i > 0
        invariant
            i <= v@.len(),
            forall|j: int| i <= j < v@.len() ==> (#[trigger] v@[j]).0@ != k@,
            lookup(entries_view(v@), k@) == lookup(entries_view(v@.take(i as int)), k@),
        decreases i,
    {
        assert(v@.take(i as int).drop_last() =~= v@.take(i - 1));
        i -= 1;
        if text::str_eq(&v[i].0, k) {
            return Some(i);
        }
    }
    None
}

/// A copy of `j`.
pub fn copy(j: &Json) -> (r: Json)
    ensures
        r@ == j@,
    decreases *j,
{
    match j {
        Json::Null => Json::Null,
        Json::Bool(b) => Json::Bool(*b),
        Json::UInt(n) => Json::UInt(*n),
        Json::NegInt(n) => Json::NegInt(*n),
        Json::Float(n) => Json::Float(n.copy()),
        Json::Str(s) => Json::Str(text::copy(s)),
        Json::Array(v) => {
            let mut out: Vec<Json> = Vec::new();
            for i in 0..v.len()
                invariant
                    *j == Json::Array(*v),
                    out@.len() == i,
                    forall|k: int| 0 <= k < i ==> jview(#[trigger] out@[k]) == jview(v@[k]),
            {
                assert(decreases_to!(*j => j->Array_0));
                assert(decreases_to!(*v => v@));
                assert(decreases_to!(v@ => v@[i as int]));
                out.push(copy(&v[i]));
            }
            assert(items_view(out@) =~= items_view(v@));
            Json::Array(out)
        },
        Json::Object(v) => {
            let mut out: Vec<(String, Json)> = Vec::new();
            for i in 0..v.len()
                invariant
                    *j == Json::Object(*v),
                    entries_view(out@) == entries_view(v@.take(i as int)),
            {
                let e = &v[i];
                assert(decreases_to!(*j => j->Object_0));
                assert(decreases_to!(*v => v@));
                assert(decreases_to!(v@ => v@[i as int]));
                assert(decreases_to!(v@[i as int] => v@[i as int].1));
                let c = (text::copy(&e.0), copy(&e.1));
                let ghost o = out@;
                out.push(c);
                assert(out@.drop_last() =~= o);
                assert(v@.take(i as int + 1).drop_last() =~= v@.take(i as int));
            }
            assert(v@.take(v@.len() as int) =~= v@);
            Json::Object(out)
        },
    }
}

/// The `serde_json::Value` that means what `j` means.
pub fn to_value(j: &Json) -> (r: serde_json::Value)
    ensures
        value_contents(r) == j@,
    decreases *j,
{
    let layer = match j {
        Json::Null => Layer::Null,
        Json::Bool(b) => Layer::Bool(*b),
        Json::UInt(n) => Layer::UInt(*n),
        Json::NegInt(n) => Layer::NegInt(*n),
        Json::Float(n) => {
            proof {
                use_type_invariant(n);
            }
            Layer::Float(copy_number(&n.number))
        },
        Json::Str(s) => Layer::Str(text::copy(s)),
        Json::Array(v) => {
            let mut out: Vec<serde_json::Value> = Vec::new();
            for i in 0..v.len()
                invariant
                    *j == Json::Array(*v),
                    out@.len() == i,
                    forall|k: int|
                        0 <= k < i ==> value_contents(#[trigger] out@[k]) == jview(v@[k]),
            {
                assert(decreases_to!(*j => j->Array_0));
                assert(decreases_to!(*v => v@));
                assert(decreases_to!(v@ => v@[i as int]));
                out.push(to_value(&v[i]));
            }
            assert(value_items(out@) =~= items_view(v@));
            Layer::Array(out)
        },
        Json::Object(v) => {
            let mut out: Vec<(String, serde_json::Value)> = Vec::new();
            for i in 0..v.len()
                invariant
                    *j == Json::Object(*v),
                    value_entries(out@) == entries_view(v@.take(i as int)),
            {
                let e = &v[i];
                assert(decreases_to!(*j => j->Object_0));
                assert(decreases_to!(*v => v@));
                assert(decreases_to!(v@ => v@[i as int]));
                assert(decreases_to!(v@[i as int] => v@[i as int].1));
                let c = (text::copy(&e.0), to_value(&e.1));
                let ghost o = out@;
                out.push(c);
                assert(out@.drop_last() =~= o);
                assert(v@.take(i as int + 1).drop_last() =~= v@.take(i as int));
            }
            assert(v@.take(v@.len() as int) =~= v@);
            Layer::Object(out)
        },
    };
    close_value(layer)
}

/// The value that `t` writes, as `serde_json` reads it.
pub fn parse(t: &str) -> (r: Option<Json>)
    ensures
        opt_owned(r) == json_parse(t@),
{
    match value_from_text(t) {
        Ok(v) => Some(from_value(v)),
        Err(_) => None,
    }
}

/// The value that `t` writes, or the message why it is no JSON.
pub fn parse_or_message(t: &str) -> (r: Result<Json, String>)
    ensures
        match r {
            Ok(j) => json_read(t@) == Ok::<JsonV, Seq<char>>(j@),
            Err(m) => json_read(t@) == Err::<JsonV, Seq<char>>(m@),
        },
{
    match value_from_text(t) {
        Ok(v) => Ok(from_value(v)),
        Err(m) => Err(m),
    }
}

/// The value that `bytes` write, or the message why they are no JSON.
pub fn parse_bytes_or_message(bytes: &[u8]) -> (r: Result<Json, String>)
    ensures
        match r {
            Ok(j) => bytes_read(bytes@) == Ok::<JsonV, Seq<char>>(j@),
            Err(m) => bytes_read(bytes@) == Err::<JsonV, Seq<char>>(m@),
        },
{
    match value_from_bytes(bytes) {
        Ok(v) => Ok(from_value(v)),
        Err(m) => Err(m),
    }
}

/// The compact text of `j`, as `serde_json` prints it. That of an object begins with
/// a brace. The text reads back to `j` where all numbers are integers and nothing
/// stands more than 127 deep.
pub fn print(j: &Json) -> (r: String)
    ensures
        r@ == json_print(j@),
        opens_as(r@, j@),
        is_plain(j@, 127) ==> reads_as(r@, j@),
{
    value_text(&to_value(j))
}

/// The entry of `j` under `k`, where `j` is an object that has one.
pub open spec fn field(j: JsonV, k: Seq<char>) -> Option<JsonV> {
    match j {
        JsonV::Obj(m) => lookup(m, k),
        _ => None,
    }
}

/// The text, where the value is one.
pub open spec fn str_in(o: Option<JsonV>) -> Option<Seq<char>> {
    match o {
        Some(JsonV::Str(s)) => Some(s),
        _ => None,
    }
}

/// The number, where the value is an integer that `u64` holds.
pub open spec fn u64_in(o: Option<JsonV>) -> Option<u64> {
    match o {
        Some(JsonV::Int(n)) => if 0 <= n <= u64::MAX {
            Some(n as u64)
        } else {
            None
        },
        _ => None,
    }
}

/// The number, where the value is an integer that `i64` holds.
pub open spec fn i64_in(o: Option<JsonV>) -> Option<i64> {
    match o {
        Some(JsonV::Int(n)) => if i64::MIN <= n <= i64::MAX {
            Some(n as i64)
        } else {
            None
        },
        _ => None,
    }
}

/// The item at `i`, where the value is an array that has one.
pub open spec fn item_at(j: JsonV, i: int) -> Option<JsonV> {
    match j {
        JsonV::Arr(s) => if 0 <= i < s.len() {
            Some(s[i])
        } else {
            None
        },
        _ => None,
    }
}

/// The truth value, where the value is one.
pub open spec fn bool_in(o: Option<JsonV>) -> Option<bool> {
    match o {
        Some(JsonV::Bool(b)) => Some(b),
        _ => None,
    }
}

/// The items, where the value is an array.
pub open spec fn arr_in(o: Option<JsonV>) -> Option<Seq<JsonV>> {
    match o {
        Some(JsonV::Arr(s)) => Some(s),
        _ => None,
    }
}

/// The text under `k`, where there is one.
pub open spec fn str_field(j: JsonV, k: Seq<char>) -> Option<Seq<char>> {
    str_in(field(j, k))
}

/// The text that a borrowed string holds.
pub open spec fn opt_str(o: Option<&str>) -> Option<Seq<char>> {
    match o {
        Some(s) => Some(s@),
        None => None,
    }
}

impl Json {
    /// The entry under `k`, where this is an object that has one.
    pub fn get(&self, k: &str) -> (r: Option<&Json>)
        ensures
            opt(r) == field(self@, k@),
            r matches Some(c) ==> decreases_to!(*self => *c),
    {
        match self {
            Json::Object(v) => match find_key(v, k) {
                Some(i) => {
                    assert(decreases_to!(*self => self->Object_0));
                    assert(decreases_to!(*v => v@));
                    assert(decreases_to!(v@ => v@[i as int]));
                    assert(decreases_to!(v@[i as int] => v@[i as int].1));
                    Some(&v[i].1)
                },
                None => None,
            },
            _ => None,
        }
    }

    /// The text, where this is one.
    pub fn as_str(&self) -> (r: Option<&str>)
        ensures
            opt_str(r) == str_in(Some(self@)),
    {
        match self {
            Json::Str(s) => Some(s.as_str()),
            _ => None,
        }
    }

    /// The text under `k`, where there is one.
    pub fn get_str(&self, k: &str) -> (r: Option<&str>)
        ensures
            opt_str(r) == str_field(self@, k@),
    {
        match self.get(k) {
            Some(j) => j.as_str(),
            None => None,
        }
    }

    /// The number, where this is an integer from 0 on.
    pub fn as_u64(&self) -> (r: Option<u64>)
        ensures
            r == u64_in(Some(self@)),
    {
        match self {
            Json::UInt(n) => Some(*n),
            Json::NegInt(n) => if *n >= 0 {
                Some(*n as u64)
            } else {
                None
            },
            _ => None,
        }
    }

    /// The truth value, where this is one.
    pub fn as_bool(&self) -> (r: Option<bool>)
        ensures
            r == bool_in(Some(self@)),
    {
        match self {
            Json::Bool(b) => Some(*b),
            _ => None,
        }
    }

    /// The items, where this is an array.
    pub fn as_array(&self) -> (r: Option<&Vec<Json>>)
        ensures
            match r {
                Some(v) => *self == Json::Array(*v) && arr_in(Some(self@)) == Some(items_view(v@)),
                None => arr_in(Some(self@)) is None,
            },
    {
        match self {
            Json::Array(v) => Some(v),
            _ => None,
        }
    }

    /// Whether this is an object.
    pub fn is_object(&self) -> (r: bool)
        ensures
            r == (self@ is Obj),
    {
        matches!(self, Json::Object(_))
    }

    /// Whether this is null.
    pub fn is_null(&self) -> (r: bool)
        ensures
            r == (self@ is Null),
    {
        matches!(self, Json::Null)
    }

    /// Puts `value` under `k`, where this is an object; otherwise nothing changes.
    pub fn set(&mut self, k: &str, value: Json)
        ensures
            final(self)@ == with_field(old(self)@, k@, value@),
    {
        if let Json::Object(v) = self {
            match find_key(v, k) {
                Some(i) => {
                    let key = text::copy(k);
                    let ghost before = v@;
                    v.set(i, (key, value));
                    proof {
                        lemma_entries_update(before, i as int, (key, value));
                    }
                },
                None => {
                    let ghost o = v@;
                    v.push((text::copy(k), value));
                    assert(v@.drop_last() =~= o);
                },
            }
        }
    }

    /// This object with `value` under `k`.
    pub fn with(self, k: &str, value: Json) -> (r: Json)
        ensures
            r@ == with_field(self@, k@, value@),
    {
        let mut out = self;
        out.set(k, value);
        out
    }

    /// The number, where this is an integer that `i64` holds.
    pub fn as_i64(&self) -> (r: Option<i64>)
        ensures
            r == i64_in(Some(self@)),
    {
        match self {
            Json::UInt(n) => if *n <= 0x7fff_ffff_ffff_ffff {
                Some(*n as i64)
            } else {
                None
            },
            Json::NegInt(n) => Some(*n),
            _ => None,
        }
    }

    /// The item at `i`, where this is an array that has one.
    pub fn item(&self, i: usize) -> (r: Option<&Json>)
        ensures
            opt(r) == item_at(self@, i as int),
    {
        match self {
            Json::Array(v) => if i < v.len() {
                Some(&v[i])
            } else {
                None
            },
            _ => None,
        }
    }

    /// Takes the entry under `k` away, where this is an object.
    pub fn remove(&mut self, k: &str)
        ensures
            final(self)@ == without_field(old(self)@, k@),
    {
        if let Json::Object(v) = self {
            let out = without_key(v, k);
            *v = out;
        }
    }
}

/// `j` with `value` under `k`, where `j` is an object.
pub open spec fn with_field(j: JsonV, k: Seq<char>, value: JsonV) -> JsonV {
    match j {
        JsonV::Obj(m) => JsonV::Obj(m.insert(k, value)),
        _ => j,
    }
}

/// `j` without the entry under `k`, where `j` is an object.
pub open spec fn without_field(j: JsonV, k: Seq<char>) -> JsonV {
    match j {
        JsonV::Obj(m) => JsonV::Obj(m.remove(k)),
        _ => j,
    }
}

/// The entries of `v` whose key is not `k`.
fn without_key(v: &Vec<(String, Json)>, k: &str) -> (r: Vec<(String, Json)>)
    ensures
        entries_view(r@) == entries_view(v@).remove(k@),
{
    let mut out: Vec<(String, Json)> = Vec::new();
    assert(entries_view(out@) =~= entries_view(v@.take(0)).remove(k@));
    for i in 0..v.len()
        invariant
            entries_view(out@) == entries_view(v@.take(i as int)).remove(k@),
    {
        let e = &v[i];
        assert(v@.take(i as int + 1).drop_last() =~= v@.take(i as int));
        if !text::str_eq(&e.0, k) {
            let ghost o = out@;
            out.push((text::copy(&e.0), copy(&e.1)));
            assert(out@.drop_last() =~= o);
        }
        assert(entries_view(out@) =~= entries_view(v@.take(i as int + 1)).remove(k@));
    }
    assert(v@.take(v@.len() as int) =~= v@);
    out
}
/// Whether `ks` lists the keys of `m`, each once.
pub open spec fn lists_keys(ks: Seq<Seq<char>>, m: Map<Seq<char>, JsonV>) -> bool {
    &&& ks.no_duplicates()
    &&& forall|k: Seq<char>| ks.contains(k) <==> #[trigger] m.dom().contains(k)
}

/// Whether no entry behind the one at `a` has its key.
spec fn is_last(v: Seq<(String, Json)>, a: int) -> bool {
    forall|b: int| a < b < v.len() ==> (#[trigger] v[b]).0@ != v[a].0@
}

proof fn lemma_last_entry(v: Seq<(String, Json)>, k: Seq<char>)
    requires
        entries_view(v).dom().contains(k),
    ensures
        exists|i: int| 0 <= i < v.len() && v[i].0@ == k && #[trigger] is_last(v, i),
    decreases v.len(),
{
    if v.last().0@ == k {
        assert(is_last(v, v.len() - 1));
    } else {
        lemma_last_entry(v.drop_last(), k);
        let w = v.drop_last();
        let i = choose|i: int| 0 <= i < w.len() && w[i].0@ == k && #[trigger] is_last(w, i);
        assert forall|j: int| i < j < v.len() implies (#[trigger] v[j]).0@ != v[i].0@ by {
            if j < w.len() {
                assert(w[j] == v[j]);
            }
        }
        assert(is_last(v, i));
    }
}

proof fn lemma_entry_in(v: Seq<(String, Json)>, i: int)
    requires
        0 <= i < v.len(),
    ensures
        entries_view(v).dom().contains(v[i].0@),
    decreases v.len(),
{
    if i < v.len() - 1 {
        lemma_entry_in(v.drop_last(), i);
    }
}

/// The keys of an object, each once; none where `j` is no object.
pub fn keys_of(j: &Json) -> (r: Vec<String>)
    ensures
        match j@ {
            JsonV::Obj(m) => lists_keys(text::views(r@), m),
            _ => r@.len() == 0,
        },
{
    let mut out: Vec<String> = Vec::new();
    if let Json::Object(v) = j {
        let ghost m = entries_view(v@);
        for i in 0..v.len()
            invariant
                m == entries_view(v@),
                text::views(out@).no_duplicates(),
                forall|k: Seq<char>, a: int|
                    #![trigger text::views(out@).contains(k), v@[a]]
                    text::views(out@).contains(k) && i <= a < v@.len() ==> v@[a].0@ != k,
                forall|k: Seq<char>|
                    #[trigger] text::views(out@).contains(k) ==> m.dom().contains(k),
                forall|a: int|
                    0 <= a < i && #[trigger] is_last(v@, a) ==> text::views(out@).contains(
                        v@[a].0@,
                    ),
        {
            let k = text::copy(&v[i].0);
            let ghost before = text::views(out@);
            proof {
                lemma_entry_in(v@, i as int);
            }
            if let Some(last) = find_key(v, &k) {
                assert(is_last(v@, i as int) ==> last == i);
                if last == i {
                    proof {
                        text::lemma_views_push(out@, k);
                        assert(v@[i as int].0@ == k@);
                        assert(!before.contains(k@));
                    }
                    out.push(k);
                    proof {
                        let now = text::views(out@);
                        assert(now[now.len() - 1] == k@);
                        assert forall|x: Seq<char>| #[trigger] now.contains(x) implies
                            before.contains(x) || x == k@ by {
                            let a = choose|a: int| 0 <= a < now.len() && now[a] == x;
                            if a < before.len() {
                                assert(before[a] == x);
                            }
                        }
                        assert forall|x: Seq<char>| before.contains(x) implies
                            #[trigger] now.contains(x) by {
                            let a = choose|a: int| 0 <= a < before.len() && before[a] == x;
                            assert(now[a] == x);
                        }
                    }
                }
            }
        }
        proof {
            let ks = text::views(out@);
            assert forall|k: Seq<char>| #[trigger] m.dom().contains(k) implies ks.contains(k) by {
                lemma_last_entry(v@, k);
            }
        }
    }
    out
}


/// An object without entries.
pub fn object() -> (r: Json)
    ensures
        r@ == JsonV::Obj(Map::empty()),
{
    let v: Vec<(String, Json)> = Vec::new();
    assert(entries_view(v@) =~= Map::empty());
    Json::Object(v)
}

/// The text `s`.
pub fn string(s: &str) -> (r: Json)
    ensures
        r@ == JsonV::Str(s@),
{
    Json::Str(text::copy(s))
}

/// An array of `items`.
pub fn array(items: Vec<Json>) -> (r: Json)
    ensures
        r@ == JsonV::Arr(items_view(items@)),
{
    Json::Array(items)
}

/// An entry that was put into an object is found in it, one that was taken out is
/// not, and the others stay as they were.
pub proof fn law_entry_is_found(
    m: Map<Seq<char>, JsonV>,
    k: Seq<char>,
    other: Seq<char>,
    value: JsonV,
)
    requires
        k != other,
    ensures
        field(with_field(JsonV::Obj(m), k, value), k) == Some(value),
        field(with_field(JsonV::Obj(m), k, value), other) == field(JsonV::Obj(m), other),
        field(without_field(JsonV::Obj(m), k), k) is None,
        field(without_field(JsonV::Obj(m), k), other) == field(JsonV::Obj(m), other),
        m.dom().contains(k) ==> field(JsonV::Obj(m), k) == Some(m[k]),
{
}

} // verus!
