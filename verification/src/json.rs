//! A JSON document model: the values that the protocols read and write.
use vstd::prelude::*;
use crate::text::string_is;


verus! {

/// A binary64 floating-point number, held by its IEEE-754 bit pattern.
#[derive(Clone, Copy, Debug, PartialEq, Eq)]
pub struct Float64Bits {
    pub bits: u64,
}

/// A binary32 floating-point number, held by its IEEE-754 bit pattern.
#[derive(Clone, Copy, Debug, PartialEq, Eq)]
pub struct Float32Bits {
    pub bits: u32,
}

impl Float64Bits {
    /// Whether the number is finite (neither infinite nor NaN).
    pub open spec fn spec_is_finite(self) -> bool {
        (self.bits >> 52u64) & 0x7ffu64 != 0x7ffu64
    }

    /// Whether the number is finite (neither infinite nor NaN).
    pub fn is_finite(&self) -> (r: bool)
        ensures
            r == self.spec_is_finite(),
    {
        (self.bits >> 52u64) & 0x7ffu64 != 0x7ffu64
    }
}

/// How a JSON number was written: as an integer that fits `u64`, as a
/// negative integer that fits `i64`, or as a floating-point number.
#[derive(Clone, Copy, Debug, PartialEq, Eq)]
pub enum NumberRepr {
    PosInt(u64),
    NegInt(i64),
    Float,
}

/// A JSON number.  `float` holds the number as a binary64 value: for
/// `NumberRepr::Float` the number itself; for an integer, the nearest
/// binary64 value, as supplied by whoever built the number.
#[derive(Clone, Copy, Debug, PartialEq, Eq)]
pub struct JsonNumber {
    pub repr: NumberRepr,
    pub float: Float64Bits,
}

/// A JSON value.  Object entries keep their order; a key is looked up at
/// its first entry.
#[derive(Debug)]
pub enum JsonValue {
    Null,
    Bool(bool),
    Num(JsonNumber),
    Str(String),
    Arr(Vec<JsonValue>),
    Obj(Vec<(String, JsonValue)>),
}

/// The mathematical form of a `JsonValue`.
pub enum JsonView {
    Null,
    Bool(bool),
    Num(JsonNumber),
    Str(Seq<char>),
    Arr(Seq<JsonView>),
    Obj(Seq<(Seq<char>, JsonView)>),
}

/// The view of a JSON value.
pub open spec fn json_view(v: JsonValue) -> JsonView
    decreases v,
{
    match v {
        JsonValue::Null => JsonView::Null,
        JsonValue::Bool(b) => JsonView::Bool(b),
        JsonValue::Num(n) => JsonView::Num(n),
        JsonValue::Str(s) => JsonView::Str(s@),
        JsonValue::Arr(a) => JsonView::Arr(json_seq_view(a@)),
        JsonValue::Obj(o) => JsonView::Obj(json_entries_view(o@)),
    }
}

/// The views of a sequence of JSON values.
pub open spec fn json_seq_view(s: Seq<JsonValue>) -> Seq<JsonView>
    decreases s,
{
    if s.len() == 0 {
        seq![]
    } else {
        seq![json_view(s[0])] + json_seq_view(s.drop_first())
    }
}

/// The views of a sequence of object entries.
pub open spec fn json_entries_view(s: Seq<(String, JsonValue)>) -> Seq<(Seq<char>, JsonView)>
    decreases s,
{
    if s.len() == 0 {
        seq![]
    } else {
        seq![(s[0].0@, json_view(s[0].1))] + json_entries_view(s.drop_first())
    }
}

impl View for JsonValue {
    type V = JsonView;

    open spec fn view(&self) -> JsonView {
        json_view(*self)
    }
}

/// Each element of `json_seq_view(s)` is the view of the element of `s`.
pub proof fn lemma_json_seq_view(s: Seq<JsonValue>)
    ensures
        json_seq_view(s).len() == s.len(),
        forall|i: int| 0 <= i < s.len() ==> #[trigger] json_seq_view(s)[i] == json_view(s[i]),
    decreases s.len(),
{
    if s.len() > 0 {
        lemma_json_seq_view(s.drop_first());
        assert forall|i: int| 0 <= i < s.len() implies #[trigger] json_seq_view(s)[i] == json_view(s[i]) by {
            if i > 0 {
                assert(s.drop_first()[i - 1] == s[i]);
            }
        }
    }
}

/// Each element of `json_entries_view(s)` is the view of the entry of `s`.
pub proof fn lemma_json_entries_view(s: Seq<(String, JsonValue)>)
    ensures
        json_entries_view(s).len() == s.len(),
        forall|i: int| 0 <= i < s.len() ==> #[trigger] json_entries_view(s)[i] == (s[i].0@, json_view(s[i].1)),
    decreases s.len(),
{
    if s.len() > 0 {
        lemma_json_entries_view(s.drop_first());
        assert forall|i: int| 0 <= i < s.len() implies #[trigger] json_entries_view(s)[i] == (s[i].0@, json_view(s[i].1)) by {
            if i > 0 {
                assert(s.drop_first()[i - 1] == s[i]);
            }
        }
    }
}

/// The value of the first entry with key `key` (as `serde_json::Map::get`).
pub open spec fn entries_get(e: Seq<(Seq<char>, JsonView)>, key: Seq<char>) -> Option<JsonView>
    decreases e.len(),
{
    if e.len() == 0 {
        None
    } else if e[0].0 == key {
        Some(e[0].1)
    } else {
        entries_get(e.drop_first(), key)
    }
}

/// The member `key` of an object; `None` for a missing key or a non-object
/// (as `serde_json::Value::get`).
pub open spec fn jget(v: JsonView, key: Seq<char>) -> Option<JsonView> {
    match v {
        JsonView::Obj(e) => entries_get(e, key),
        _ => None,
    }
}

/// The member `key` of an object, `Null` when there is none (as indexing a
/// `serde_json::Value` with `[key]`).
pub open spec fn jidx(v: JsonView, key: Seq<char>) -> JsonView {
    match jget(v, key) {
        Some(x) => x,
        None => JsonView::Null,
    }
}

/// The string held by `v`, if it is a string.
pub open spec fn jas_str(v: JsonView) -> Option<Seq<char>> {
    match v {
        JsonView::Str(s) => Some(s),
        _ => None,
    }
}

/// The boolean held by `v`, if it is a boolean.
pub open spec fn jas_bool(v: JsonView) -> Option<bool> {
    match v {
        JsonView::Bool(b) => Some(b),
        _ => None,
    }
}

/// The elements of `v`, if it is an array.
pub open spec fn jas_array(v: JsonView) -> Option<Seq<JsonView>> {
    match v {
        JsonView::Arr(a) => Some(a),
        _ => None,
    }
}

/// The number held by `v` as an `i64`, if it is an integer that fits
/// (as `serde_json::Value::as_i64`).
pub open spec fn jas_i64(v: JsonView) -> Option<i64> {
    match v {
        JsonView::Num(n) => match n.repr {
            NumberRepr::PosInt(u) => if u <= i64::MAX as u64 { Some(u as i64) } else { None },
            NumberRepr::NegInt(i) => Some(i),
            NumberRepr::Float => None,
        },
        _ => None,
    }
}

/// The number held by `v` as a binary64 value, if it is a number
/// (as `serde_json::Value::as_f64`).
pub open spec fn jas_f64(v: JsonView) -> Option<Float64Bits> {
    match v {
        JsonView::Num(n) => Some(n.float),
        _ => None,
    }
}

/// The view of an optional reference to a JSON value.
pub open spec fn opt_json_view(r: Option<&JsonValue>) -> Option<JsonView> {
    match r {
        Some(x) => Some(x@),
        None => None,
    }
}

/// The member `key` of `v` (first entry with that key), if `v` is an object that has one.
pub fn json_get<'a>(v: &'a JsonValue, key: &str) -> (r: Option<&'a JsonValue>)
    ensures
        opt_json_view(r) == jget(v@, key@),
{
    match v {
        JsonValue::Obj(entries) => {
            let ghost ev = json_entries_view(entries@);
            proof {
                lemma_json_entries_view(entries@);
            }
            let mut i: usize = 0;
            assert(ev.skip(0) =~= ev);
            assert(v@ == JsonView::Obj(ev));
            while i < entries.len()
                invariant
                    i <= entries.len(),
                    ev == json_entries_view(entries@),
                    v@ == JsonView::Obj(ev),
                    ev.len() == entries.len(),
                    forall|k: int| 0 <= k < entries.len() ==> #[trigger] ev[k] == (entries@[k].0@, json_view(entries@[k].1)),
                    entries_get(ev, key@) == entries_get(ev.skip(i as int), key@),
                decreases entries.len() - i,
            {
                assert(ev.skip(i as int)[0] == ev[i as int]);
                if string_is(&entries[i].0, key) {
                    assert(entries_get(ev.skip(i as int), key@) == Some(ev[i as int].1));
                    return Some(&entries[i].1);
                }
                assert(ev.skip(i as int).drop_first() =~= ev.skip(i + 1));
                i = i + 1;
            }
            None
        },
        _ => None,
    }
}

/// Whether `v` can be read as a record of `n` fields: an object, whose
/// members are looked up by name (others are ignored), or an array of
/// exactly `n` values, the fields in their declared order. These are the two
/// forms in which serde's derived `Deserialize` reads a struct.
pub open spec fn is_record(v: JsonView, n: nat) -> bool {
    match v {
        JsonView::Obj(_) => true,
        JsonView::Arr(a) => a.len() == n,
        _ => false,
    }
}

/// Field number `i`, named `name`, of the record `v`: the member `name` of
/// an object, or the element at `i` of an array.
pub open spec fn record_field(v: JsonView, i: int, name: Seq<char>) -> Option<JsonView> {
    match v {
        JsonView::Obj(_) => jget(v, name),
        JsonView::Arr(a) => if 0 <= i < a.len() { Some(a[i]) } else { None },
        _ => None,
    }
}

/// An optional field of a record: missing and `null` both give `None`.
pub open spec fn optional_field(v: JsonView, i: int, name: Seq<char>) -> Option<JsonView> {
    match record_field(v, i, name) {
        Some(JsonView::Null) => None,
        other => other,
    }
}

/// Whether `v` can be read as a record of `n` fields.
pub fn is_record_exec(v: &JsonValue, n: usize) -> (r: bool)
    ensures
        r == is_record(v@, n as nat),
{
    match v {
        JsonValue::Obj(_) => true,
        JsonValue::Arr(a) => {
            proof {
                lemma_json_seq_view(a@);
            }
            a.len() == n
        },
        _ => false,
    }
}

/// Field number `i`, named `name`, of the record `v`.
pub fn record_field_exec<'a>(v: &'a JsonValue, i: usize, name: &str) -> (r: Option<&'a JsonValue>)
    ensures
        opt_json_view(r) == record_field(v@, i as int, name@),
{
    match v {
        JsonValue::Obj(_) => json_get(v, name),
        JsonValue::Arr(a) => {
            proof {
                lemma_json_seq_view(a@);
            }
            if i < a.len() {
                Some(&a[i])
            } else {
                None
            }
        },
        _ => None,
    }
}

/// An optional field of a record: missing and `null` both give `None`.
pub fn optional_field_exec<'a>(v: &'a JsonValue, i: usize, name: &str) -> (r: Option<&'a JsonValue>)
    ensures
        opt_json_view(r) == optional_field(v@, i as int, name@),
{
    match record_field_exec(v, i, name) {
        Some(JsonValue::Null) => None,
        other => other,
    }
}

/// The string held by `v`, if it is a string.
pub fn json_as_str(v: &JsonValue) -> (r: Option<&String>)
    ensures
        match r {
            Some(s) => jas_str(v@) == Some(s@),
            None => jas_str(v@) is None,
        },
{
    match v {
        JsonValue::Str(s) => Some(s),
        _ => None,
    }
}

/// The boolean held by `v`, if it is a boolean.
pub fn json_as_bool(v: &JsonValue) -> (r: Option<bool>)
    ensures
        r == jas_bool(v@),
{
    match v {
        JsonValue::Bool(b) => Some(*b),
        _ => None,
    }
}

/// The elements of `v`, if it is an array.
pub fn json_as_array(v: &JsonValue) -> (r: Option<&Vec<JsonValue>>)
    ensures
        match r {
            Some(a) => jas_array(v@) == Some(json_seq_view(a@)),
            None => jas_array(v@) is None,
        },
{
    match v {
        JsonValue::Arr(a) => Some(a),
        _ => None,
    }
}

/// The number held by `v` as an `i64`, if it is an integer that fits.
pub fn json_as_i64(v: &JsonValue) -> (r: Option<i64>)
    ensures
        r == jas_i64(v@),
{
    match v {
        JsonValue::Num(n) => match n.repr {
            NumberRepr::PosInt(u) => if u <= 0x7fff_ffff_ffff_ffffu64 { Some(u as i64) } else { None },
            NumberRepr::NegInt(i) => Some(i),
            NumberRepr::Float => None,
        },
        _ => None,
    }
}

/// The number held by `v` as a binary64 value, if it is a number.
pub fn json_as_f64(v: &JsonValue) -> (r: Option<Float64Bits>)
    ensures
        r == jas_f64(v@),
{
    match v {
        JsonValue::Num(n) => Some(n.float),
        _ => None,
    }
}

/// A number made from a finite binary64 value; `None` for infinities and
/// NaN (as `serde_json::Number::from_f64`).
pub fn number_from_f64(f: Float64Bits) -> (r: Option<JsonNumber>)
    ensures
        r == (if f.spec_is_finite() {
            Some(JsonNumber { repr: NumberRepr::Float, float: f })
        } else {
            None
        }),
{
    if f.is_finite() {
        Some(JsonNumber { repr: NumberRepr::Float, float: f })
    } else {
        None
    }
}

/// The number zero, written as an integer (as `serde_json::Number::from(0)`).
pub fn number_zero() -> (r: JsonNumber)
    ensures
        r == (JsonNumber { repr: NumberRepr::PosInt(0), float: Float64Bits { bits: 0 } }),
{
    JsonNumber { repr: NumberRepr::PosInt(0), float: Float64Bits { bits: 0 } }
}

/// A copy of `v`.
pub fn json_clone(v: &JsonValue) -> (r: JsonValue)
    ensures
        r@ == v@,
    decreases v,
{
    match v {
        JsonValue::Null => JsonValue::Null,
        JsonValue::Bool(b) => JsonValue::Bool(*b),
        JsonValue::Num(n) => JsonValue::Num(*n),
        JsonValue::Str(s) => JsonValue::Str(s.clone()),
        JsonValue::Arr(a) => {
            let mut out: Vec<JsonValue> = Vec::new();
            let mut i: usize = 0;
            proof {
                lemma_json_seq_view(a@);
            }
            while i < a.len()
                invariant
                    i <= a.len(),
                    out.len() == i,
                    *v == JsonValue::Arr(*a),
                    forall|k: int| 0 <= k < i ==> #[trigger] json_view(out@[k]) == json_view(a@[k]),
                decreases a.len() - i,
            {
                assert(decreases_to!(*a => a@));
                assert(decreases_to!(a@ => a@[i as int]));
                assert(decreases_to!(*v => v->Arr_0));
                let c = json_clone(&a[i]);
                out.push(c);
                i = i + 1;
            }
            proof {
                lemma_json_seq_view(out@);
                assert(json_seq_view(out@) =~= json_seq_view(a@));
            }
            JsonValue::Arr(out)
        },
        JsonValue::Obj(o) => {
            let mut out: Vec<(String, JsonValue)> = Vec::new();
            let mut i: usize = 0;
            proof {
                lemma_json_entries_view(o@);
            }
            while i < o.len()
                invariant
                    i <= o.len(),
                    out.len() == i,
                    *v == JsonValue::Obj(*o),
                    forall|k: int| 0 <= k < i ==> #[trigger] out@[k].0@ == o@[k].0@ && json_view(out@[k].1) == json_view(o@[k].1),
                decreases o.len() - i,
            {
                assert(decreases_to!(*o => o@));
                assert(decreases_to!(o@ => o@[i as int]));
                assert(decreases_to!(o@[i as int] => o@[i as int].1));
                assert(decreases_to!(*v => v->Obj_0));
                let c = json_clone(&o[i].1);
                out.push((o[i].0.clone(), c));
                i = i + 1;
            }
            proof {
                lemma_json_entries_view(out@);
                assert(json_entries_view(out@) =~= json_entries_view(o@));
            }
            JsonValue::Obj(out)
        },
    }
}

} // verus!
