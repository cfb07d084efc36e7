//! JSON values: what they hold, how they compare, and the order of their numbers.
use vstd::prelude::*;

use crate::json::outside_number;
use crate::string_map::{assoc, sorted, Duplicate, StringMap};
use crate::text::text_eq;

verus! {

// ---------------------------------------------------------------------------
// The model
// ---------------------------------------------------------------------------

/// What a JSON number holds. A number with a fraction or an exponent is given by
/// the 64 bits of its IEEE 754 double.
pub enum NumberView {
    PosInt(u64),
    NegInt(i64),
    Float(u64),
}

/// What a JSON value holds. The entries of an object stand in the order of their keys.
#[verifier::ext_equal]
pub enum JsonView {
    Null,
    Bool(bool),
    Number(NumberView),
    Text(Seq<char>),
    Array(Seq<JsonView>),
    Object(Seq<(Seq<char>, JsonView)>),
}

// ---------------------------------------------------------------------------
// Doubles as bits
// ---------------------------------------------------------------------------

/// The bit that holds the sign of a double.
pub const SIGN_BIT: u64 = 0x8000_0000_0000_0000;

/// The number of patterns of the 52 bits of a significand.
pub const SIGNIFICANDS: u64 = 0x10_0000_0000_0000;

/// The exponent field of infinities and of what is not a number.
pub const SPECIAL_EXPONENT: u64 = 2047;

/// Two to the power `k`.
pub open spec fn two_to(k: nat) -> nat
    decreases k,
{
    if k == 0 {
        1
    } else {
        2 * two_to((k - 1) as nat)
    }
}

/// The position of the highest bit that is set.
pub open spec fn top_bit(n: nat) -> nat
    decreases n,
{
    if n <= 1 {
        0
    } else {
        top_bit(n / 2) + 1
    }
}

/// The bits of the double nearest to a natural number under 2^64; of two that are
/// equally near, the one with the even significand.
pub open spec fn double_bits(n: nat) -> nat {
    let k = top_bit(n);
    if n == 0 {
        0
    } else if k <= 52 {
        (1023 + k) * SIGNIFICANDS as nat + (n - two_to(k)) as nat * two_to((52 - k) as nat)
    } else {
        let step = two_to((k - 52) as nat);
        let low = n / step;
        let rest = n % step;
        let up: nat = if 2 * rest > step || (2 * rest == step && low % 2 == 1) {
            1
        } else {
            0
        };
        ((1023 + k) * SIGNIFICANDS + low + up - SIGNIFICANDS) as nat
    }
}

/// An integer by which doubles are ordered: both zeros are 0.
pub open spec fn order_key(bits: u64) -> int {
    if bits < SIGN_BIT {
        bits as int
    } else {
        -(bits - SIGN_BIT)
    }
}

/// Whether the bits are those of a finite double.
pub open spec fn is_finite(bits: u64) -> bool {
    (bits / SIGNIFICANDS) % 2048 != SPECIAL_EXPONENT
}

impl NumberView {
    /// The number as a double.
    pub open spec fn as_double(self) -> u64 {
        match self {
            NumberView::PosInt(n) => double_bits(n as nat) as u64,
            NumberView::NegInt(i) => if i < 0 {
                (SIGN_BIT + double_bits((-i) as nat)) as u64
            } else {
                double_bits(i as nat) as u64
            },
            NumberView::Float(bits) => bits,
        }
    }

    /// Whether the number is less than another, both taken as doubles.
    pub open spec fn less(self, other: NumberView) -> bool {
        order_key(self.as_double()) < order_key(other.as_double())
    }

    /// Whether two numbers are written in the same way and are equal.
    pub open spec fn same(self, other: NumberView) -> bool {
        match (self, other) {
            (NumberView::PosInt(a), NumberView::PosInt(b)) => a == b,
            (NumberView::NegInt(a), NumberView::NegInt(b)) => a == b,
            (NumberView::Float(a), NumberView::Float(b)) => order_key(a) == order_key(b),
            _ => false,
        }
    }
}

proof fn two_to_positive(k: nat)
    ensures
        two_to(k) >= 1,
    decreases k,
{
    if k > 0 {
        two_to_positive((k - 1) as nat);
    }
}

proof fn two_to_sum(a: nat, b: nat)
    ensures
        two_to(a + b) == two_to(a) * two_to(b),
    decreases a,
{
    if a > 0 {
        two_to_sum((a - 1) as nat, b);
        let x = two_to((a - 1) as nat);
        let y = two_to(b);
        assert(two_to((a + b) as nat) == 2 * two_to((a - 1 + b) as nat));
        assert(2 * (x * y) == (2 * x) * y) by (nonlinear_arith);
        assert(two_to(a) == 2 * x);
    } else {
        assert(1 * two_to(b) == two_to(b));
    }
}

proof fn two_to_monotone(a: nat, b: nat)
    requires
        a <= b,
    ensures
        two_to(a) <= two_to(b),
    decreases b,
{
    if a < b {
        two_to_monotone(a, (b - 1) as nat);
        two_to_positive((b - 1) as nat);
    }
}

proof fn top_bit_unique(n: nat, k: nat)
    requires
        two_to(k) <= n < 2 * two_to(k),
    ensures
        top_bit(n) == k,
    decreases k,
{
    if k == 0 {
        assert(n == 1);
    } else {
        two_to_positive((k - 1) as nat);
        top_bit_unique(n / 2, (k - 1) as nat);
    }
}

proof fn two_to_52()
    ensures
        two_to(52) == SIGNIFICANDS,
        two_to(64) == 0x1_0000_0000_0000_0000,
{
    assert(two_to(12) == 4096) by {
        reveal_with_fuel(two_to, 13);
    }
    assert(two_to(13) == 2 * two_to(12));
    two_to_sum(13, 13);
    assert(8192 * 8192 == 0x400_0000);
    two_to_sum(26, 26);
    assert(0x400_0000 * 0x400_0000 == SIGNIFICANDS);
    two_to_sum(52, 12);
    assert(SIGNIFICANDS * 4096 == 0x1_0000_0000_0000_0000);
}

fn power_of_two(k: u64) -> (r: u128)
    requires
        k <= 64,
    ensures
        r == two_to(k as nat),
{
    let mut p: u128 = 1;
    let mut i: u64 = 0;
    while i < k
        invariant
            i <= k <= 64,
            p == two_to(i as nat),
        decreases k - i,
    {
        proof {
            two_to_monotone((i + 1) as nat, 64);
            two_to_52();
        }
        p = p * 2;
        i = i + 1;
    }
    p
}

/// The bits of the double nearest to an integer.
pub fn double_of(n: u64) -> (r: u64)
    ensures
        r == double_bits(n as nat),
        r < SIGN_BIT,
{
    if n == 0 {
        return 0;
    }
    let wide: u128 = n as u128;
    let mut k: u64 = 0;
    let mut p: u128 = 1;
    while k < 63 && p * 2 <= wide
        invariant
            k <= 63,
            p == two_to(k as nat),
            p <= wide,
            wide == n,
        decreases 63 - k,
    {
        p = p * 2;
        k = k + 1;
    }
    proof {
        two_to_52();
        if k == 63 {
            assert(two_to(64) == 2 * two_to(63));
        }
        top_bit_unique(n as nat, k as nat);
    }
    if k <= 52 {
        let scale: u128 = power_of_two(52 - k);
        proof {
            two_to_sum(k as nat, (52 - k) as nat);
            assert(p * scale == SIGNIFICANDS);
            assert((wide - p) * scale < SIGNIFICANDS) by (nonlinear_arith)
                requires
                    p <= wide < 2 * p,
                    p * scale == SIGNIFICANDS,
                    scale >= 0,
                    p >= 1,
            ;
            assert((wide - p) * scale >= 0) by (nonlinear_arith)
                requires
                    p <= wide,
                    scale >= 0,
            ;
        }
        let fraction: u128 = (wide - p) * scale;
        (1023 + k) * SIGNIFICANDS + fraction as u64
    } else {
        let step: u128 = power_of_two(k - 52);
        proof {
            two_to_sum(52, (k - 52) as nat);
            two_to_positive((k - 52) as nat);
            assert(p == SIGNIFICANDS * step);
            assert(wide / step < 2 * SIGNIFICANDS) by (nonlinear_arith)
                requires
                    wide < 2 * p,
                    p == SIGNIFICANDS * step,
                    step >= 1,
            ;
            assert(wide / step >= SIGNIFICANDS) by (nonlinear_arith)
                requires
                    wide >= p,
                    p == SIGNIFICANDS * step,
                    step >= 1,
            ;
            two_to_monotone((k - 52) as nat, 52);
        }
        let low: u128 = wide / step;
        let rest: u128 = wide % step;
        let up: u64 = if 2 * rest > step || (2 * rest == step && low % 2 == 1) {
            1
        } else {
            0
        };
        (1023 + k) * SIGNIFICANDS + (low as u64 - SIGNIFICANDS) + up
    }
}

fn key_of(bits: u64) -> (r: i128)
    ensures
        r == order_key(bits),
{
    if bits < SIGN_BIT {
        bits as i128
    } else {
        -((bits - SIGN_BIT) as i128)
    }
}

// ---------------------------------------------------------------------------
// Numbers
// ---------------------------------------------------------------------------

/// A finite double: its bits, and the number it was read from.
#[derive(Debug)]
pub struct Float {
    pub(crate) bits: u64,
    pub(crate) source: serde_json::Number,
}

impl View for Float {
    type V = u64;

    closed spec fn view(&self) -> u64 {
        self.bits
    }
}

impl Float {
    /// The bits are those of the number.
    #[verifier::type_invariant]
    spec fn inv(self) -> bool {
        outside_number(self.source) == NumberView::Float(self.bits)
    }
}

/// A JSON number.
#[derive(Debug)]
pub enum JsonNumber {
    /// An integer that is not negative.
    PosInt(u64),
    /// A negative integer.
    NegInt(i64),
    /// A number with a fraction or an exponent.
    Float(Float),
}

impl View for JsonNumber {
    type V = NumberView;

    open spec fn view(&self) -> NumberView {
        match self {
            JsonNumber::PosInt(n) => NumberView::PosInt(*n),
            JsonNumber::NegInt(i) => NumberView::NegInt(*i),
            JsonNumber::Float(f) => NumberView::Float(f@),
        }
    }
}

#[verifier::external_type_specification]
#[verifier::external_body]
pub struct ExNumber(serde_json::Number);

/// Copies a number by `serde_json::Number::clone`: the copy is the same number.
#[verifier::external_body]
fn copy_number(n: &serde_json::Number) -> (r: serde_json::Number)
    ensures
        r == *n,
{
    n.clone()
}

impl Duplicate for JsonNumber {
    fn duplicate(&self) -> (r: JsonNumber) {
        match self {
            JsonNumber::PosInt(n) => JsonNumber::PosInt(*n),
            JsonNumber::NegInt(i) => JsonNumber::NegInt(*i),
            JsonNumber::Float(f) => {
                proof {
                    use_type_invariant(f);
                }
                JsonNumber::Float(Float { bits: f.bits, source: copy_number(&f.source) })
            },
        }
    }
}

impl JsonNumber {
    /// The bits of the number as a double.
    pub fn as_double(&self) -> (r: u64)
        ensures
            r == self@.as_double(),
    {
        match self {
            JsonNumber::PosInt(n) => double_of(*n),
            JsonNumber::NegInt(i) => {
                if *i < 0 {
                    let magnitude: u64 = (-(*i as i128)) as u64;
                    SIGN_BIT + double_of(magnitude)
                } else {
                    double_of(*i as u64)
                }
            },
            JsonNumber::Float(f) => f.bits,
        }
    }

    /// Whether the number is written like another and equal to it.
    pub fn same(&self, other: &JsonNumber) -> (r: bool)
        ensures
            r == self@.same(other@),
    {
        match (self, other) {
            (JsonNumber::PosInt(a), JsonNumber::PosInt(b)) => *a == *b,
            (JsonNumber::NegInt(a), JsonNumber::NegInt(b)) => *a == *b,
            (JsonNumber::Float(a), JsonNumber::Float(b)) => key_of(a.bits) == key_of(b.bits),
            _ => false,
        }
    }
}

/// Whether one double is less than another, both given by their bits.
pub fn double_less(a: u64, b: u64) -> (r: bool)
    ensures
        r == (order_key(a) < order_key(b)),
{
    key_of(a) < key_of(b)
}

// ---------------------------------------------------------------------------
// Values
// ---------------------------------------------------------------------------

/// A JSON value.
#[derive(Debug)]
pub enum Json {
    Null,
    Bool(bool),
    Number(JsonNumber),
    String(String),
    Array(Vec<Json>),
    Object(StringMap<Json>),
}

/// What a value holds.
pub open spec fn json_view(v: Json) -> JsonView
    decreases v,
{
    match v {
        Json::Null => JsonView::Null,
        Json::Bool(b) => JsonView::Bool(b),
        Json::Number(n) => JsonView::Number(n@),
        Json::String(s) => JsonView::Text(s@),
        Json::Array(a) => JsonView::Array(
            Seq::new(
                a@.len(),
                |i: int|
                    if 0 <= i < a@.len() {
                        json_view(a@[i])
                    } else {
                        JsonView::Null
                    },
            ),
        ),
        Json::Object(m) => JsonView::Object(
            Seq::new(
                m.entries@.len(),
                |i: int|
                    if 0 <= i < m.entries@.len() {
                        (m.entries@[i].0@, json_view(m.entries@[i].1))
                    } else {
                        (Seq::<char>::empty(), JsonView::Null)
                    },
            ),
        ),
    }
}

impl View for Json {
    type V = JsonView;

    open spec fn view(&self) -> JsonView {
        json_view(*self)
    }
}

/// The views of a list of values.
pub open spec fn json_views(v: Seq<Json>) -> Seq<JsonView> {
    Seq::new(v.len(), |i: int| v[i]@)
}

/// The view of an array is the views of its items.
pub broadcast proof fn array_view(a: Vec<Json>)
    ensures
        #[trigger] json_view(Json::Array(a)) == JsonView::Array(json_views(a@)),
{
    assert(json_view(Json::Array(a))->Array_0 =~= json_views(a@));
}

/// The view of an object is the view of its map.
pub broadcast proof fn object_view(m: StringMap<Json>)
    ensures
        #[trigger] json_view(Json::Object(m)) == JsonView::Object(m@),
{
    assert(json_view(Json::Object(m))->Object_0 =~= m@);
}

/// Whether a value is one that JSON texts describe: negative integers are
/// negative, doubles finite, and the keys of each object sorted.
pub open spec fn json_wf(v: JsonView) -> bool
    decreases v,
{
    match v {
        JsonView::Number(NumberView::NegInt(i)) => i < 0,
        JsonView::Number(NumberView::Float(bits)) => is_finite(bits),
        JsonView::Array(a) => forall|i: int| 0 <= i < a.len() ==> json_wf(#[trigger] a[i]),
        JsonView::Object(m) => sorted(m) && forall|i: int|
            0 <= i < m.len() ==> json_wf((#[trigger] m[i]).1),
        _ => true,
    }
}

/// Whether two values are equal: numbers as [`NumberView::same`] says, arrays
/// item by item, objects entry by entry.
pub open spec fn json_eq(a: JsonView, b: JsonView) -> bool
    decreases a,
{
    match (a, b) {
        (JsonView::Null, JsonView::Null) => true,
        (JsonView::Bool(x), JsonView::Bool(y)) => x == y,
        (JsonView::Number(x), JsonView::Number(y)) => x.same(y),
        (JsonView::Text(x), JsonView::Text(y)) => x == y,
        (JsonView::Array(x), JsonView::Array(y)) => x.len() == y.len() && forall|i: int|
            0 <= i < x.len() ==> json_eq(#[trigger] x[i], y[i]),
        (JsonView::Object(x), JsonView::Object(y)) => x.len() == y.len() && forall|i: int|
            0 <= i < x.len() ==> (#[trigger] x[i]).0 == y[i].0 && json_eq(x[i].1, y[i].1),
        _ => false,
    }
}

/// Every value is equal to itself.
pub proof fn json_eq_reflexive(a: JsonView)
    ensures
        json_eq(a, a),
    decreases a,
{
    match a {
        JsonView::Array(x) => {
            assert forall|i: int| 0 <= i < x.len() implies json_eq(#[trigger] x[i], x[i]) by {
                json_eq_reflexive(x[i]);
            }
        },
        JsonView::Object(x) => {
            assert forall|i: int| 0 <= i < x.len() implies json_eq(
                (#[trigger] x[i]).1,
                x[i].1,
            ) by {
                json_eq_reflexive(x[i].1);
            }
        },
        _ => {},
    }
}

/// Equality of values does not depend on their order.
pub proof fn json_eq_symmetric(a: JsonView, b: JsonView)
    requires
        json_eq(a, b),
    ensures
        json_eq(b, a),
    decreases a,
{
    match (a, b) {
        (JsonView::Array(x), JsonView::Array(y)) => {
            assert forall|i: int| 0 <= i < y.len() implies json_eq(#[trigger] y[i], x[i]) by {
                assert(json_eq(x[i], y[i]));
                json_eq_symmetric(x[i], y[i]);
            }
        },
        (JsonView::Object(x), JsonView::Object(y)) => {
            assert forall|i: int| 0 <= i < y.len() implies (#[trigger] y[i]).0 == x[i].0
                && json_eq(y[i].1, x[i].1) by {
                assert(json_eq(x[i].1, y[i].1));
                json_eq_symmetric(x[i].1, y[i].1);
            }
        },
        _ => {},
    }
}

impl JsonView {
    /// The text of a value that is a text.
    pub open spec fn as_text(self) -> Option<Seq<char>> {
        match self {
            JsonView::Text(s) => Some(s),
            _ => None,
        }
    }

    /// The truth value of a value that is one.
    pub open spec fn as_bool(self) -> Option<bool> {
        match self {
            JsonView::Bool(b) => Some(b),
            _ => None,
        }
    }

    /// The integer of a value that is one and not negative.
    pub open spec fn as_u64(self) -> Option<u64> {
        match self {
            JsonView::Number(NumberView::PosInt(n)) => Some(n),
            _ => None,
        }
    }

    /// The double of a value that is a number.
    pub open spec fn as_double(self) -> Option<u64> {
        match self {
            JsonView::Number(n) => Some(n.as_double()),
            _ => None,
        }
    }

    /// The value at a key of a value that is an object.
    pub open spec fn get(self, key: Seq<char>) -> Option<JsonView> {
        match self {
            JsonView::Object(m) => assoc(m, key),
            _ => None,
        }
    }
}

impl Json {
    /// The text, where the value is one.
    pub fn as_str(&self) -> (r: Option<&str>)
        ensures
            match r {
                Some(s) => self@.as_text() == Some(s@),
                None => self@.as_text() is None,
            },
    {
        match self {
            Json::String(s) => Some(s.as_str()),
            _ => None,
        }
    }

    /// The truth value, where the value is one.
    pub fn as_bool(&self) -> (r: Option<bool>)
        ensures
            r == self@.as_bool(),
    {
        match self {
            Json::Bool(b) => Some(*b),
            _ => None,
        }
    }

    /// The integer, where the value is one that is not negative.
    pub fn as_u64(&self) -> (r: Option<u64>)
        ensures
            r == self@.as_u64(),
    {
        match self {
            Json::Number(JsonNumber::PosInt(n)) => Some(*n),
            _ => None,
        }
    }

    /// The bits of the double, where the value is a number.
    pub fn as_double(&self) -> (r: Option<u64>)
        ensures
            r == self@.as_double(),
    {
        match self {
            Json::Number(n) => Some(n.as_double()),
            _ => None,
        }
    }

    /// The value at a key, where the value is an object that has the key.
    pub fn get(&self, key: &str) -> (r: Option<&Json>)
        ensures
            match r {
                Some(v) => self@.get(key@) == Some(v@),
                None => self@.get(key@) is None,
            },
    {
        broadcast use object_view;

        match self {
            Json::Object(m) => m.get(key),
            _ => None,
        }
    }

    /// Whether two values are equal.
    pub fn equals(&self, other: &Json) -> (r: bool)
        ensures
            r == json_eq(self@, other@),
        decreases self,
    {
        match (self, other) {
            (Json::Null, Json::Null) => true,
            (Json::Bool(x), Json::Bool(y)) => *x == *y,
            (Json::Number(x), Json::Number(y)) => x.same(y),
            (Json::String(x), Json::String(y)) => text_eq(x.as_str(), y.as_str()),
            (Json::Array(x), Json::Array(y)) => {
                broadcast use array_view;

                if x.len() != y.len() {
                    return false;
                }
                let mut i: usize = 0;
                while i < x.len()
                    invariant
                        i <= x@.len() == y@.len(),
                        *self == Json::Array(*x),
                        *other == Json::Array(*y),
                        self@ == JsonView::Array(json_views(x@)),
                        other@ == JsonView::Array(json_views(y@)),
                        forall|j: int|
                            0 <= j < i ==> json_eq(#[trigger] json_views(x@)[j], json_views(y@)[j]),
                    decreases x@.len() - i,
                {
                    if !x[i].equals(&y[i]) {
                        proof {
                            assert(!json_eq(json_views(x@)[i as int], json_views(y@)[i as int]));
                        }
                        return false;
                    }
                    i = i + 1;
                }
                true
            },
            (Json::Object(x), Json::Object(y)) => {
                broadcast use object_view;

                if x.entries.len() != y.entries.len() {
                    return false;
                }
                let mut i: usize = 0;
                while i < x.entries.len()
                    invariant
                        i <= x@.len() == y@.len(),
                        *self == Json::Object(*x),
                        *other == Json::Object(*y),
                        self@ == JsonView::Object(x@),
                        other@ == JsonView::Object(y@),
                        forall|j: int|
                            0 <= j < i ==> (#[trigger] x@[j]).0 == y@[j].0 && json_eq(
                                x@[j].1,
                                y@[j].1,
                            ),
                    decreases x@.len() - i,
                {
                    if !text_eq(x.entries[i].0.as_str(), y.entries[i].0.as_str()) {
                        proof {
                            assert(x@[i as int].0 != y@[i as int].0);
                        }
                        return false;
                    }
                    if !x.entries[i].1.equals(&y.entries[i].1) {
                        proof {
                            assert(!json_eq(x@[i as int].1, y@[i as int].1));
                        }
                        return false;
                    }
                    i = i + 1;
                }
                true
            },
            _ => false,
        }
    }

    /// A copy of the value.
    pub fn copy(&self) -> (r: Json)
        ensures
            r@ == self@,
        decreases self,
    {
        match self {
            Json::Null => Json::Null,
            Json::Bool(b) => Json::Bool(*b),
            Json::Number(n) => Json::Number(n.duplicate()),
            Json::String(s) => Json::String(s.clone()),
            Json::Array(a) => {
                broadcast use array_view;

                let mut out: Vec<Json> = Vec::new();
                let mut i: usize = 0;
                while i < a.len()
                    invariant
                        i <= a@.len(),
                        *self == Json::Array(*a),
                        out@.len() == i,
                        forall|j: int| 0 <= j < i ==> (#[trigger] out@[j])@ == a@[j]@,
                    decreases a@.len() - i,
                {
                    proof {
                        assert(decreases_to!(*self => self->Array_0));
                        assert(decreases_to!(*a => a@));
                        assert(decreases_to!(*self => a@[i as int]));
                    }
                    out.push(a[i].copy());
                    i = i + 1;
                }
                proof {
                    assert(json_views(out@) =~= json_views(a@));
                }
                Json::Array(out)
            },
            Json::Object(m) => {
                broadcast use object_view;

                let mut out: Vec<(String, Json)> = Vec::new();
                let mut i: usize = 0;
                while i < m.entries.len()
                    invariant
                        i <= m.entries@.len(),
                        *self == Json::Object(*m),
                        out@.len() == i,
                        forall|j: int|
                            0 <= j < i ==> (#[trigger] out@[j]).0@ == m@[j].0 && out@[j].1@
                                == m@[j].1,
                    decreases m.entries@.len() - i,
                {
                    proof {
                        assert(decreases_to!(*self => self->Object_0));
                        assert(decreases_to!(*m => m.entries));
                        assert(decreases_to!(m.entries => m.entries@));
                        assert(decreases_to!(*self => m.entries@[i as int].1));
                    }
                    out.push((m.entries[i].0.clone(), m.entries[i].1.copy()));
                    i = i + 1;
                }
                let r = StringMap { entries: out };
                proof {
                    assert(r@ =~= m@);
                }
                Json::Object(r)
            },
        }
    }

    /// A text value.
    pub fn text(s: &str) -> (r: Json)
        ensures
            r@ == JsonView::Text(s@),
    {
        Json::String(s.to_owned())
    }
}

impl Duplicate for Json {
    fn duplicate(&self) -> (r: Json) {
        self.copy()
    }
}

// ---------------------------------------------------------------------------
// Laws
// ---------------------------------------------------------------------------

/// Each accessor gives what a value of its type holds, and nothing of a value of any
/// other type.
pub proof fn accessors_go_by_the_type(v: JsonView, s: Seq<char>, b: bool, n: u64)
    ensures
        v.as_text() == Some(s) <==> v == JsonView::Text(s),
        v.as_bool() == Some(b) <==> v == JsonView::Bool(b),
        v.as_u64() == Some(n) <==> v == JsonView::Number(NumberView::PosInt(n)),
        v.as_double() is Some <==> v is Number,
        v.as_double() == Some(n) <==> v is Number && v->Number_0.as_double() == n,
{
}

/// A key of an object gives the value of the entry with the key; other keys, and values
/// that are no objects, give nothing.
pub proof fn key_gives_its_entry(v: JsonView, key: Seq<char>, i: int)
    requires
        json_wf(v),
    ensures
        v is Object && 0 <= i < v->Object_0.len() && v->Object_0[i].0 == key ==> v.get(key) == Some(
            v->Object_0[i].1,
        ),
        v.get(key) is Some ==> v is Object && v->Object_0.contains((key, v.get(key)->0)),
{
    if let JsonView::Object(m) = v {
        if 0 <= i < m.len() && m[i].0 == key {
            crate::string_map::assoc_of_entry(m, i);
        }
        if assoc(m, key) is Some {
            crate::string_map::assoc_some_iff(m, key);
            let j = choose|j: int| 0 <= j < m.len() && (#[trigger] m[j]).0 == key;
            crate::string_map::assoc_of_entry(m, j);
            assert(m[j] == (key, v.get(key)->0));
        }
    }
}

/// Whether no double is among what a value holds.
pub open spec fn no_doubles(v: JsonView) -> bool
    decreases v,
{
    match v {
        JsonView::Number(n) => !(n is Float),
        JsonView::Array(a) => forall|i: int| 0 <= i < a.len() ==> no_doubles(#[trigger] a[i]),
        JsonView::Object(m) => forall|i: int|
            0 <= i < m.len() ==> no_doubles((#[trigger] m[i]).1),
        _ => true,
    }
}

/// Values without doubles are equal exactly where they are the same. Doubles are equal
/// where their bits are the same or both are zeros, and are equal to no integer.
pub proof fn equal_values_are_the_same(a: JsonView, b: JsonView, x: u64, y: u64)
    ensures
        no_doubles(a) ==> (json_eq(a, b) <==> a == b),
        json_eq(
            JsonView::Number(NumberView::Float(x)),
            JsonView::Number(NumberView::Float(y)),
        ) <==> x == y || ((x == 0 || x == SIGN_BIT) && (y == 0 || y == SIGN_BIT)),
    decreases a,
{
    if no_doubles(a) {
        if json_eq(a, b) {
            match (a, b) {
                (JsonView::Array(v), JsonView::Array(w)) => {
                    assert forall|i: int| 0 <= i < v.len() implies v[i] == w[i] by {
                        assert(no_doubles(a->Array_0[i]));
                        assert(json_eq(a->Array_0[i], b->Array_0[i]));
                        equal_values_are_the_same(v[i], w[i], x, y);
                    }
                    assert(v =~= w);
                },
                (JsonView::Object(v), JsonView::Object(w)) => {
                    assert forall|i: int| 0 <= i < v.len() implies v[i] == w[i] by {
                        assert(no_doubles(a->Object_0[i].1));
                        assert(a->Object_0[i].0 == b->Object_0[i].0);
                        assert(json_eq(a->Object_0[i].1, b->Object_0[i].1));
                        equal_values_are_the_same(v[i].1, w[i].1, x, y);
                    }
                    assert(v =~= w);
                },
                _ => {},
            }
        } else if a == b {
            json_eq_reflexive(a);
        }
    }
}

/// Equal values have the same type, and the same length where they have one.
pub proof fn equal_values_are_alike(a: JsonView, b: JsonView)
    requires
        json_eq(a, b),
    ensures
        a is Null <==> b is Null,
        a is Bool <==> b is Bool,
        a is Number <==> b is Number,
        a is Text <==> b is Text,
        a is Array <==> b is Array,
        a is Object <==> b is Object,
        a is Array ==> a->Array_0.len() == b->Array_0.len(),
        a is Object ==> a->Object_0.len() == b->Object_0.len(),
        a is Array ==> forall|i: int|
            0 <= i < a->Array_0.len() ==> json_eq(#[trigger] a->Array_0[i], b->Array_0[i]),
        a is Object ==> forall|i: int|
            0 <= i < a->Object_0.len() ==> (#[trigger] a->Object_0[i]).0 == b->Object_0[i].0
                && json_eq(a->Object_0[i].1, b->Object_0[i].1),
{
    if a is Array {
        assert forall|i: int| 0 <= i < a->Array_0.len() implies json_eq(
            #[trigger] a->Array_0[i],
            b->Array_0[i],
        ) by {}
    }
}

proof fn top_bit_is_the_highest(n: nat)
    requires
        n > 0,
    ensures
        two_to(top_bit(n)) <= n < 2 * two_to(top_bit(n)),
    decreases n,
{
    if n > 1 {
        top_bit_is_the_highest(n / 2);
    }
}

proof fn top_bit_under(n: nat, k: nat)
    requires
        0 < n < two_to(k),
    ensures
        top_bit(n) < k,
{
    top_bit_is_the_highest(n);
    if top_bit(n) >= k {
        two_to_monotone(k, top_bit(n));
    }
}

/// The largest magnitude up to which every integer is a double.
pub const EXACT_INTEGERS: u64 = 0x20_0000_0000_0000;

proof fn small_double(n: nat)
    requires
        0 < n < EXACT_INTEGERS,
    ensures
        top_bit(n) <= 52,
        ({
            let k = top_bit(n);
            &&& (1023 + k) * SIGNIFICANDS <= double_bits(n) < (1024 + k) * SIGNIFICANDS
            &&& double_bits(n) - (1023 + k) * SIGNIFICANDS + SIGNIFICANDS == n * two_to(
                (52 - k) as nat,
            )
        }),
{
    let k = top_bit(n);
    two_to_52();
    assert(two_to(53) == 2 * two_to(52));
    top_bit_under(n, 53);
    top_bit_is_the_highest(n);
    let p = two_to(k);
    let scale = two_to((52 - k) as nat);
    two_to_sum(k, (52 - k) as nat);
    two_to_positive((52 - k) as nat);
    assert(p * scale == SIGNIFICANDS);
    assert((n - p) * scale == n * scale - p * scale) by (nonlinear_arith);
    assert((n - p) * scale >= 0) by (nonlinear_arith)
        requires
            n >= p,
            scale >= 0,
    ;
    assert(n * scale < 2 * (p * scale)) by (nonlinear_arith)
        requires
            n < 2 * p,
            scale >= 1,
    ;
}

/// The double of an integer of no more than 53 bits is the integer: its exponent is the
/// place of the integer's highest bit, and its significand, scaled by it, the integer.
pub proof fn integers_are_exact_doubles(n: nat)
    requires
        0 < n < EXACT_INTEGERS,
    ensures
        ({
            let bits = double_bits(n);
            let exponent = bits / SIGNIFICANDS as nat;
            let significand = SIGNIFICANDS as nat + bits % SIGNIFICANDS as nat;
            &&& 1023 <= exponent <= 1075
            &&& significand == n * two_to((1075 - exponent) as nat)
        }),
        double_bits(0) == 0,
{
    small_double(n);
    let k = top_bit(n);
    let bits = double_bits(n);
    let rest = bits - (1023 + k) * SIGNIFICANDS;
    assert(bits == (1023 + k) * SIGNIFICANDS + rest);
    assert(0 <= rest < SIGNIFICANDS) by {
        assert((1024 + k) * SIGNIFICANDS == (1023 + k) * SIGNIFICANDS + SIGNIFICANDS)
            by (nonlinear_arith);
    }
    assert(bits / SIGNIFICANDS as nat == 1023 + k && bits % SIGNIFICANDS as nat == rest)
        by (nonlinear_arith)
        requires
            bits == (1023 + k) * SIGNIFICANDS + rest,
            0 <= rest < SIGNIFICANDS,
    ;
}

/// The double of an integer of more than 53 bits is one of the nearest: the significand,
/// scaled by the step between doubles, is off by no more than half a step.
pub proof fn large_integers_are_rounded(n: nat)
    requires
        EXACT_INTEGERS <= n <= u64::MAX,
    ensures
        ({
            let step = two_to((top_bit(n) - 52) as nat);
            let scaled = double_bits(n) - (1023 + top_bit(n)) * SIGNIFICANDS + SIGNIFICANDS;
            &&& top_bit(n) > 52
            &&& -(step as int) <= 2 * (scaled * step - n) <= step
            &&& 2 * (scaled * step - n) == step || 2 * (scaled * step - n) == -(step as int)
                ==> scaled % 2 == 0
        }),
{
    let k = top_bit(n);
    top_bit_is_the_highest(n);
    two_to_52();
    assert(two_to(53) == 2 * two_to(52));
    if k <= 52 {
        two_to_monotone(k, 52);
    }
    let step = two_to((k - 52) as nat);
    two_to_positive((k - 52) as nat);
    let low = n / step;
    let rest = n % step;
    assert(n == low * step + rest && 0 <= rest < step) by (nonlinear_arith)
        requires
            step >= 1,
            low == n / step,
            rest == n % step,
    ;
    let up: int = if 2 * rest > step || (2 * rest == step && low % 2 == 1) {
        1
    } else {
        0
    };
    let scaled = double_bits(n) - (1023 + k) * SIGNIFICANDS + SIGNIFICANDS;
    assert(low >= SIGNIFICANDS) by {
        two_to_sum(52, (k - 52) as nat);
        assert(low >= SIGNIFICANDS) by (nonlinear_arith)
            requires
                n >= SIGNIFICANDS * step,
                step >= 1,
                low == n / step,
        ;
    }
    assert(scaled == low + up) by {
        assert((1023 + k) * SIGNIFICANDS >= 0) by (nonlinear_arith);
    }
    assert(scaled * step == low * step + up * step) by (nonlinear_arith)
        requires
            scaled == low + up,
    ;
    assert(up * step == if up == 1 { step as int } else { 0 });
}

proof fn small_doubles_keep_order(a: nat, b: nat)
    requires
        a < b < EXACT_INTEGERS,
    ensures
        double_bits(a) < double_bits(b) < SIGN_BIT,
{
    small_double(b);
    let kb = top_bit(b);
    assert(0 < (1023 + kb) * SIGNIFICANDS && (1024 + kb) * SIGNIFICANDS < SIGN_BIT) by {
        assert(kb <= 52);
    }
    if a > 0 {
        small_double(a);
        let ka = top_bit(a);
        top_bit_is_the_highest(a);
        top_bit_is_the_highest(b);
        if ka < kb {
            assert((1024 + ka) * SIGNIFICANDS <= (1023 + kb) * SIGNIFICANDS) by (nonlinear_arith)
                requires
                    ka < kb,
            ;
        } else {
            if ka > kb {
                two_to_monotone(kb + 1, ka);
            }
            let scale = two_to((52 - ka) as nat);
            two_to_positive((52 - ka) as nat);
            assert(a * scale < b * scale) by (nonlinear_arith)
                requires
                    a < b,
                    scale >= 1,
            ;
        }
    }
}

/// The integer that a number is, where it is one.
pub open spec fn integer_of(n: NumberView) -> Option<int> {
    match n {
        NumberView::PosInt(u) => Some(u as int),
        NumberView::NegInt(i) => Some(i as int),
        NumberView::Float(_) => None,
    }
}

/// Whether a number is an integer of no more than 53 bits.
pub open spec fn is_exact_integer(n: NumberView) -> bool {
    match integer_of(n) {
        Some(i) => -EXACT_INTEGERS < i < EXACT_INTEGERS,
        None => false,
    }
}

/// Integers of no more than 53 bits compare as doubles as they do as integers.
pub proof fn integers_compare_as_integers(a: NumberView, b: NumberView)
    requires
        is_exact_integer(a),
        is_exact_integer(b),
    ensures
        a.less(b) <==> integer_of(a)->0 < integer_of(b)->0,
        order_key(a.as_double()) == order_key(b.as_double()) <==> integer_of(a)->0
            == integer_of(b)->0,
{
    let x = integer_of(a)->0;
    let y = integer_of(b)->0;
    let mx: nat = if x < 0 {
        (-x) as nat
    } else {
        x as nat
    };
    let my: nat = if y < 0 {
        (-y) as nat
    } else {
        y as nat
    };
    if mx > 0 {
        small_doubles_keep_order(0, mx);
    }
    if my > 0 {
        small_doubles_keep_order(0, my);
    }
    if mx < my {
        small_doubles_keep_order(mx, my);
    }
    if my < mx {
        small_doubles_keep_order(my, mx);
    }
}

/// Doubles are ordered by sign first: a negative one is less than a positive one; of two
/// positive ones the one with the lesser bits is less, of two negative ones the one with
/// the greater bits; and the two zeros are not told apart.
pub proof fn doubles_are_ordered_by_sign_and_size(a: u64, b: u64)
    ensures
        a > SIGN_BIT && b < SIGN_BIT ==> order_key(a) < order_key(b),
        a < SIGN_BIT && b < SIGN_BIT ==> (order_key(a) < order_key(b) <==> a < b),
        a >= SIGN_BIT && b >= SIGN_BIT ==> (order_key(a) < order_key(b) <==> a > b),
        order_key(0) == order_key(SIGN_BIT),
        order_key(a) == order_key(b) ==> a == b || (a == 0 && b == SIGN_BIT) || (a == SIGN_BIT
            && b == 0),
{
}

} // verus!
