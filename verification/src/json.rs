//! JSON texts, read and written by `serde_json`.
use vstd::prelude::*;

use crate::string_map::{assoc_insert, sorted, StringMap};
use crate::text::{text_less, text_less_irreflexive, text_less_transitive};
use crate::value::{
    array_view, json_views, json_wf, object_view, Float, Json, JsonNumber, JsonView, NumberView,
};

verus! {

#[verifier::external_type_specification]
#[verifier::external_body]
pub struct ExJsonValue(serde_json::Value);

/// What a `serde_json::Value` holds, its maps in the order of their keys.
pub uninterp spec fn outside_json(v: serde_json::Value) -> JsonView;

/// What a `serde_json::Number` holds: the integer that `as_u64` or `as_i64` gives,
/// else the bits of the double that `as_f64` gives.
pub uninterp spec fn outside_number(n: serde_json::Number) -> NumberView;

/// What `serde_json::from_str` makes of a text: the value, or the wording of the error.
pub uninterp spec fn json_reading(text: Seq<char>) -> Result<JsonView, Seq<char>>;

/// The compact text that a `serde_json::Value` displays as, by what it holds.
pub uninterp spec fn outside_writing(v: JsonView) -> Seq<char>;

/// The indented text that `serde_json::to_string_pretty` writes of a
/// `serde_json::Value`, by what it holds.
pub uninterp spec fn outside_pretty_writing(v: JsonView) -> Seq<char>;

/// The compact text of a value.
pub open spec fn json_writing(v: JsonView) -> Seq<char> {
    outside_writing(normal(v))
}

/// The indented text of a value.
pub open spec fn json_pretty_writing(v: JsonView) -> Seq<char> {
    outside_pretty_writing(normal(v))
}

/// The entries put into a map, one after the other.
pub open spec fn insert_all(m: Seq<(Seq<char>, JsonView)>) -> Seq<(Seq<char>, JsonView)>
    decreases m.len(),
{
    if m.len() == 0 {
        Seq::empty()
    } else {
        assoc_insert(insert_all(m.drop_last()), m.last().0, m.last().1)
    }
}

/// A number as `serde_json` holds it: an integer is negative only where it has to be.
pub open spec fn normal_number(n: NumberView) -> NumberView {
    match n {
        NumberView::NegInt(i) => if i >= 0 {
            NumberView::PosInt(i as u64)
        } else {
            n
        },
        _ => n,
    }
}

/// A value as `serde_json` holds it: what JSON texts describe is held as it is.
pub open spec fn normal(v: JsonView) -> JsonView
    decreases v,
{
    match v {
        JsonView::Number(n) => JsonView::Number(normal_number(n)),
        JsonView::Array(a) => JsonView::Array(
            Seq::new(
                a.len(),
                |i: int|
                    if 0 <= i < a.len() {
                        normal(a[i])
                    } else {
                        JsonView::Null
                    },
            ),
        ),
        JsonView::Object(m) => JsonView::Object(insert_all(normal_entries(m))),
        _ => v,
    }
}

/// The entries with their values as `serde_json` holds them.
pub open spec fn normal_entries(m: Seq<(Seq<char>, JsonView)>) -> Seq<(Seq<char>, JsonView)>
    decreases m,
{
    Seq::new(
        m.len(),
        |i: int|
            if 0 <= i < m.len() {
                (m[i].0, normal(m[i].1))
            } else {
                (Seq::<char>::empty(), JsonView::Null)
            },
    )
}

proof fn normal_array(v: JsonView)
    requires
        v is Array,
    ensures
        normal(v) == JsonView::Array(
            Seq::new(v->Array_0.len(), |i: int| normal(v->Array_0[i])),
        ),
{
    assert(normal(v)->Array_0 =~= Seq::new(v->Array_0.len(), |i: int| normal(v->Array_0[i])));
}

proof fn insert_last(m: Seq<(Seq<char>, JsonView)>, key: Seq<char>, v: JsonView)
    requires
        forall|i: int| 0 <= i < m.len() ==> text_less((#[trigger] m[i]).0, key),
    ensures
        assoc_insert(m, key, v) == m.push((key, v)),
    decreases m.len(),
{
    if m.len() == 0 {
        assert(assoc_insert(m, key, v) =~= m.push((key, v)));
    } else {
        text_less_irreflexive(key);
        assert(text_less(m[0].0, key));
        if text_less(key, m[0].0) {
            text_less_transitive(key, m[0].0, key);
        }
        assert forall|i: int| 0 <= i < m.skip(1).len() implies text_less(
            (#[trigger] m.skip(1)[i]).0,
            key,
        ) by {
            assert(text_less(m[i + 1].0, key));
        }
        insert_last(m.skip(1), key, v);
        assert(assoc_insert(m, key, v) =~= m.push((key, v)));
    }
}

proof fn sorted_entries_stay(m: Seq<(Seq<char>, JsonView)>)
    requires
        sorted(m),
    ensures
        insert_all(m) == m,
    decreases m.len(),
{
    if m.len() == 0 {
        assert(insert_all(m) =~= m);
    } else {
        let front = m.drop_last();
        assert forall|i: int, j: int| 0 <= i < j < front.len() implies text_less(
            #[trigger] front[i].0,
            #[trigger] front[j].0,
        ) by {
            assert(text_less(m[i].0, m[j].0));
        }
        sorted_entries_stay(front);
        assert forall|i: int| 0 <= i < front.len() implies text_less(
            (#[trigger] front[i]).0,
            m.last().0,
        ) by {
            assert(text_less(m[i].0, m[m.len() - 1].0));
        }
        insert_last(front, m.last().0, m.last().1);
        assert(front.push(m.last()) =~= m);
    }
}

/// What JSON texts describe is held by `serde_json` as it is.
pub proof fn described_is_normal(v: JsonView)
    requires
        json_wf(v),
    ensures
        normal(v) == v,
    decreases v,
{
    match v {
        JsonView::Array(a) => {
            normal_array(v);
            assert forall|i: int| 0 <= i < a.len() implies normal(#[trigger] a[i]) == a[i] by {
                assert(json_wf(v->Array_0[i]));
                described_is_normal(a[i]);
            }
            assert(normal(v)->Array_0 =~= a);
        },
        JsonView::Object(m) => {
            assert forall|i: int| 0 <= i < m.len() implies normal((#[trigger] m[i]).1)
                == m[i].1 by {
                assert(json_wf(v->Object_0[i].1));
                described_is_normal(m[i].1);
            }
            assert(normal_entries(m) =~= m);
            sorted_entries_stay(m);
        },
        _ => {},
    }
}

/// A `serde_json::Value`, taken apart by one level. The entries of an object stand in
/// the order of their keys.
#[derive(Debug)]
pub enum Level {
    Null,
    Bool(bool),
    Number(serde_json::Number),
    String(String),
    Array(Vec<serde_json::Value>),
    Object(Vec<(String, serde_json::Value)>),
}

/// What a value that was taken apart holds.
pub open spec fn level_view(l: Level) -> JsonView {
    match l {
        Level::Null => JsonView::Null,
        Level::Bool(b) => JsonView::Bool(b),
        Level::Number(n) => JsonView::Number(outside_number(n)),
        Level::String(s) => JsonView::Text(s@),
        Level::Array(a) => JsonView::Array(Seq::new(a@.len(), |i: int| outside_json(a@[i]))),
        Level::Object(m) => JsonView::Object(
            Seq::new(m@.len(), |i: int| (m@[i].0@, outside_json(m@[i].1))),
        ),
    }
}

/// Whether the entries stand in the order of their keys, where there are any.
pub open spec fn level_sorted(v: JsonView) -> bool {
    match v {
        JsonView::Object(m) => sorted(m),
        _ => true,
    }
}

/// Takes a `serde_json::Value` apart by matching on it. A `serde_json::Map` gives its
/// entries in the order of their keys.
#[verifier::external_body]
fn take_apart(v: serde_json::Value) -> (r: Level)
    ensures
        level_view(r) == outside_json(v),
        level_sorted(level_view(r)),
{
    match v {
        serde_json::Value::Null => Level::Null,
        serde_json::Value::Bool(b) => Level::Bool(b),
        serde_json::Value::Number(n) => Level::Number(n),
        serde_json::Value::String(s) => Level::String(s),
        serde_json::Value::Array(a) => Level::Array(a),
        serde_json::Value::Object(m) => Level::Object(m.into_iter().collect()),
    }
}

/// What a value holds that is put together of one level: the entries are put into a
/// map, one after the other.
pub open spec fn level_kept(v: JsonView) -> JsonView {
    match v {
        JsonView::Object(m) => JsonView::Object(insert_all(m)),
        _ => v,
    }
}

/// Makes a `serde_json::Value` by its variants. Entries are collected into a
/// `serde_json::Map`, in which the later of two entries with one key stays.
#[verifier::external_body]
fn put_together(l: Level) -> (r: serde_json::Value)
    ensures
        outside_json(r) == level_kept(level_view(l)),
{
    match l {
        Level::Null => serde_json::Value::Null,
        Level::Bool(b) => serde_json::Value::Bool(b),
        Level::Number(n) => serde_json::Value::Number(n),
        Level::String(s) => serde_json::Value::String(s),
        Level::Array(a) => serde_json::Value::Array(a),
        Level::Object(m) => serde_json::Value::Object(m.into_iter().collect()),
    }
}

/// Takes a `serde_json::Number` apart by `as_u64`, `as_i64` and `as_f64`. An integer
/// that only `as_i64` gives is negative, and a double is finite.
#[verifier::external_body]
fn number_in(n: serde_json::Number) -> (r: JsonNumber)
    ensures
        r@ == outside_number(n),
        json_wf(JsonView::Number(r@)),
{
    match (n.as_u64(), n.as_i64(), n.as_f64()) {
        (Some(u), _, _) => JsonNumber::PosInt(u),
        (None, Some(i), _) => JsonNumber::NegInt(i),
        (None, None, d) => JsonNumber::Float(
            Float { bits: d.map(|x| x.to_bits()).unwrap_or_default(), source: n },
        ),
    }
}

/// Makes a `serde_json::Number` of a number, by `From` for the integers. An integer
/// that is not negative is held as such a one.
#[verifier::external_body]
fn number_out(n: &JsonNumber) -> (r: serde_json::Number)
    ensures
        outside_number(r) == normal_number(n@),
{
    match n {
        JsonNumber::PosInt(u) => serde_json::Number::from(*u),
        JsonNumber::NegInt(i) => serde_json::Number::from(*i),
        JsonNumber::Float(f) => f.source.clone(),
    }
}

/// The value that a `serde_json::Value` holds.
fn value_in(v: serde_json::Value) -> (r: Json)
    ensures
        r@ == outside_json(v),
        json_wf(r@),
    decreases outside_json(v),
{
    broadcast use array_view, object_view;

    let ghost whole = outside_json(v);
    match take_apart(v) {
        Level::Null => Json::Null,
        Level::Bool(b) => Json::Bool(b),
        Level::Number(n) => Json::Number(number_in(n)),
        Level::String(s) => Json::String(s),
        Level::Array(a) => {
            let ghost all = a@;
            let mut out: Vec<Json> = Vec::new();
            for item in it: a
                invariant
                    it.seq() == all,
                    whole == outside_json(v),
                    whole == level_view(Level::Array(a)),
                    all == a@,
                    out@.len() == it.index(),
                    forall|j: int|
                        0 <= j < it.index() ==> (#[trigger] out@[j])@ == outside_json(all[j])
                            && json_wf(out@[j]@),
            {
                proof {
                    let i = it.index() as int;
                    assert(whole->Array_0[i] == outside_json(all[i]));
                    assert(decreases_to!(whole => whole->Array_0));
                    assert(decreases_to!(whole => whole->Array_0[i]));
                }
                out.push(value_in(item));
            }
            proof {
                assert(json_views(out@) =~= whole->Array_0);
            }
            Json::Array(out)
        },
        Level::Object(m) => {
            let ghost all = m@;
            let mut out: Vec<(String, Json)> = Vec::new();
            for entry in it: m
                invariant
                    it.seq() == all,
                    whole == outside_json(v),
                    whole == level_view(Level::Object(m)),
                    all == m@,
                    out@.len() == it.index(),
                    forall|j: int|
                        0 <= j < it.index() ==> (#[trigger] out@[j]).0@ == all[j].0@ && out@[j].1@
                            == outside_json(all[j].1) && json_wf(out@[j].1@),
            {
                proof {
                    let i = it.index() as int;
                    assert(whole->Object_0[i].1 == outside_json(all[i].1));
                    assert(decreases_to!(whole => whole->Object_0));
                    assert(decreases_to!(whole => whole->Object_0[i]));
                    assert(decreases_to!(whole => whole->Object_0[i].1));
                }
                out.push((entry.0, value_in(entry.1)));
            }
            let map = StringMap { entries: out };
            proof {
                assert(map@ =~= whole->Object_0);
            }
            Json::Object(map)
        },
    }
}

/// The value as a `serde_json::Value`.
fn value_out(v: &Json) -> (r: serde_json::Value)
    ensures
        outside_json(r) == normal(v@),
    decreases v,
{
    broadcast use array_view, object_view;

    match v {
        Json::Null => put_together(Level::Null),
        Json::Bool(b) => put_together(Level::Bool(*b)),
        Json::Number(n) => put_together(Level::Number(number_out(n))),
        Json::String(s) => put_together(Level::String(s.clone())),
        Json::Array(a) => {
            let mut out: Vec<serde_json::Value> = Vec::new();
            let mut i: usize = 0;
            while i < a.len()
                invariant
                    i <= a@.len(),
                    *v == Json::Array(*a),
                    out@.len() == i,
                    forall|j: int|
                        0 <= j < i ==> outside_json(#[trigger] out@[j]) == normal(a@[j]@),
                decreases a@.len() - i,
            {
                proof {
                    assert(decreases_to!(*v => v->Array_0));
                    assert(decreases_to!(*a => a@));
                    assert(decreases_to!(*v => a@[i as int]));
                }
                out.push(value_out(&a[i]));
                i = i + 1;
            }
            let level = Level::Array(out);
            proof {
                normal_array(v@);
                assert(v@->Array_0 == json_views(a@));
                assert(level_view(level)->Array_0 =~= normal(v@)->Array_0);
            }
            put_together(level)
        },
        Json::Object(m) => {
            let mut out: Vec<(String, serde_json::Value)> = Vec::new();
            let mut i: usize = 0;
            while i < m.entries.len()
                invariant
                    i <= m.entries@.len(),
                    *v == Json::Object(*m),
                    out@.len() == i,
                    forall|j: int|
                        0 <= j < i ==> (#[trigger] out@[j]).0@ == m.entries@[j].0@
                            && outside_json(out@[j].1) == normal(m.entries@[j].1@),
                decreases m.entries@.len() - i,
            {
                proof {
                    assert(decreases_to!(*v => v->Object_0));
                    assert(decreases_to!(*m => m.entries));
                    assert(decreases_to!(m.entries => m.entries@));
                    assert(decreases_to!(m.entries@ => m.entries@[i as int]));
                    assert(decreases_to!(m.entries@[i as int] => m.entries@[i as int].1));
                }
                out.push((m.entries[i].0.clone(), value_out(&m.entries[i].1)));
                i = i + 1;
            }
            let level = Level::Object(out);
            proof {
                assert(v@->Object_0 == m@);
                assert(level_view(level)->Object_0 =~= normal_entries(m@));
            }
            put_together(level)
        },
    }
}

/// Reads a text by `serde_json::from_str`; an error is given by its wording.
#[verifier::external_body]
fn read_value(text: &str) -> (r: Result<serde_json::Value, String>)
    ensures
        match r {
            Ok(v) => json_reading(text@) == Ok::<JsonView, Seq<char>>(outside_json(v)),
            Err(e) => json_reading(text@) == Err::<JsonView, Seq<char>>(e@),
        },
{
    serde_json::from_str::<serde_json::Value>(text).map_err(|e| e.to_string())
}

/// Whether a text is read as a value.
pub open spec fn is_read_as(text: Seq<char>, v: JsonView) -> bool {
    json_reading(text) == Ok::<JsonView, Seq<char>>(v)
}

/// How many arrays and objects can stand in each other in a text that is read.
pub const MAX_LEVELS: usize = 127;

/// Whether the text of a value is read as the value again: it has no doubles, whose
/// digits need not give back the last bit, and no more than so many levels.
pub open spec fn reads_back(v: JsonView, levels: nat) -> bool
    decreases v,
{
    match v {
        JsonView::Null | JsonView::Bool(_) | JsonView::Text(_) => true,
        JsonView::Number(NumberView::PosInt(_)) => true,
        JsonView::Number(NumberView::NegInt(i)) => i < 0,
        JsonView::Number(NumberView::Float(_)) => false,
        JsonView::Array(a) => levels > 0 && forall|i: int|
            0 <= i < a.len() ==> reads_back(#[trigger] a[i], (levels - 1) as nat),
        JsonView::Object(m) => levels > 0 && sorted(m) && forall|i: int|
            0 <= i < m.len() ==> reads_back((#[trigger] m[i]).1, (levels - 1) as nat),
    }
}

proof fn read_back_is_described(v: JsonView, levels: nat)
    requires
        reads_back(v, levels),
    ensures
        json_wf(v),
    decreases v,
{
    match v {
        JsonView::Array(a) => {
            assert forall|i: int| 0 <= i < a.len() implies json_wf(#[trigger] a[i]) by {
                assert(reads_back(v->Array_0[i], (levels - 1) as nat));
                read_back_is_described(a[i], (levels - 1) as nat);
            }
        },
        JsonView::Object(m) => {
            assert forall|i: int| 0 <= i < m.len() implies json_wf((#[trigger] m[i]).1) by {
                assert(reads_back(v->Object_0[i].1, (levels - 1) as nat));
                read_back_is_described(m[i].1, (levels - 1) as nat);
            }
        },
        _ => {},
    }
}

/// Writes a value by the `Display` of `serde_json::Value`. The text depends on
/// what the value holds and on nothing else. `serde_json::from_str` reads it as the
/// value again, but for doubles and for what is nested too deep.
#[verifier::external_body]
fn write_value(v: &serde_json::Value) -> (r: String)
    ensures
        r@ == outside_writing(outside_json(*v)),
        reads_back(outside_json(*v), MAX_LEVELS as nat) ==> is_read_as(r@, outside_json(*v)),
{
    v.to_string()
}

/// Writes a value by `serde_json::to_string_pretty`, which does not fail on a
/// `serde_json::Value`. The text depends on what the value holds and on nothing else.
#[verifier::external_body]
fn write_value_pretty(v: &serde_json::Value) -> (r: String)
    ensures
        r@ == outside_pretty_writing(outside_json(*v)),
{
    serde_json::to_string_pretty(v).unwrap_or_default()
}

/// Reads a JSON text.
pub fn parse_json(text: &str) -> (r: Result<Json, String>)
    ensures
        match r {
            Ok(v) => json_reading(text@) == Ok::<JsonView, Seq<char>>(v@) && json_wf(v@),
            Err(e) => json_reading(text@) == Err::<JsonView, Seq<char>>(e@),
        },
{
    match read_value(text) {
        Ok(v) => Ok(value_in(v)),
        Err(e) => Err(e),
    }
}

impl JsonNumber {
    /// The number that a `serde_json::Number` holds.
    pub fn from_outside(n: serde_json::Number) -> (r: JsonNumber)
        ensures
            r@ == outside_number(n),
            json_wf(JsonView::Number(r@)),
    {
        number_in(n)
    }

    /// The number as a `serde_json::Number`.
    pub fn to_outside(&self) -> (r: serde_json::Number)
        ensures
            outside_number(r) == normal_number(self@),
    {
        number_out(self)
    }
}

impl Json {
    /// The value that a `serde_json::Value` holds.
    pub fn from_outside(v: serde_json::Value) -> (r: Json)
        ensures
            r@ == outside_json(v),
            json_wf(r@),
    {
        value_in(v)
    }

    /// The value as a `serde_json::Value`.
    pub fn to_outside(&self) -> (r: serde_json::Value)
        ensures
            outside_json(r) == normal(self@),
            json_wf(self@) ==> outside_json(r) == self@,
    {
        proof {
            if json_wf(self@) {
                described_is_normal(self@);
            }
        }
        value_out(self)
    }

    /// The compact text of the value, which is read as the value again.
    pub fn to_text(&self) -> (r: String)
        ensures
            r@ == json_writing(self@),
            reads_back(self@, MAX_LEVELS as nat) ==> is_read_as(r@, self@),
    {
        proof {
            if reads_back(self@, MAX_LEVELS as nat) {
                read_back_is_described(self@, MAX_LEVELS as nat);
                described_is_normal(self@);
            }
        }
        write_value(&value_out(self))
    }

    /// The indented text of the value.
    pub fn to_pretty_text(&self) -> (r: String)
        ensures
            r@ == json_pretty_writing(self@),
    {
        write_value_pretty(&value_out(self))
    }
}

} // verus!
