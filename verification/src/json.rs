//! JSON values.
//!
//! Texts are read and written by `serde_json`; what the library reads in a value it reads
//! in its own type. An object is known by its members alone: they have no order.
use vstd::prelude::*;

use byteorder::{ByteOrder, LittleEndian};
use serde_json::Value;

use crate::report::{nearest_double, round_to_double};
use crate::single::{
    lemma_two_positive, single_from_f64_bits, single_from_wide, single_of_double, single_of_nat, two,
};
use crate::text::same_text;

verus! {

/// A JSON value. A number is a natural number, a negative integer, or a double by its bit
/// pattern.
#[derive(Debug)]
pub enum Json {
    Null,
    Bool(bool),
    Unsigned(u64),
    Negative(i64),
    Double(u64),
    Text(String),
    List(Vec<Json>),
    Object(Vec<Member>),
}

/// A member of an object. Of two members with the same key, the later one counts.
#[derive(Debug)]
pub struct Member {
    pub key: String,
    pub value: Json,
}

/// The mathematical form of a JSON value.
pub enum JsonView {
    Null,
    Bool(bool),
    Unsigned(u64),
    Negative(i64),
    Double(u64),
    Text(Seq<char>),
    List(Seq<JsonView>),
    Object(Map<Seq<char>, JsonView>),
}

impl View for Json {
    type V = JsonView;

    open spec fn view(&self) -> JsonView {
        json_view(*self)
    }
}

pub open spec fn json_view(j: Json) -> JsonView
    decreases j,
{
    match j {
        Json::Null => JsonView::Null,
        Json::Bool(b) => JsonView::Bool(b),
        Json::Unsigned(n) => JsonView::Unsigned(n),
        Json::Negative(n) => JsonView::Negative(n),
        Json::Double(d) => JsonView::Double(d),
        Json::Text(s) => JsonView::Text(s@),
        Json::List(v) => JsonView::List(
            Seq::new(
                v@.len(),
                |i: int|
                    if 0 <= i < v@.len() {
                        json_view(v@[i])
                    } else {
                        JsonView::Null
                    },
            ),
        ),
        Json::Object(m) => JsonView::Object(members_view(m@, m@.len())),
    }
}

/// The members by their keys, of the first `n`.
pub open spec fn members_view(m: Seq<Member>, n: nat) -> Map<Seq<char>, JsonView>
    decreases m, n,
{
    if n == 0 || n > m.len() {
        Map::empty()
    } else {
        members_view(m, (n - 1) as nat).insert(m[n - 1].key@, json_view(m[n - 1].value))
    }
}

/// The views of a sequence of values.
pub open spec fn json_views(s: Seq<Json>) -> Seq<JsonView> {
    Seq::new(s.len(), |i: int| json_view(s[i]))
}

/// Whether numbers are held in the one way that JSON numbers are read: an integer as an
/// integer, a double that is finite.
pub open spec fn json_wf(j: JsonView) -> bool
    decreases j,
{
    match j {
        JsonView::Negative(n) => n < 0,
        JsonView::Double(d) => (d as int / 0x10_0000_0000_0000) % 0x800 != 2047,
        JsonView::List(v) => forall|i: int| 0 <= i < v.len() ==> json_wf(#[trigger] v[i]),
        JsonView::Object(m) => forall|k: Seq<char>|
            m.contains_key(k) ==> json_wf(#[trigger] m[k]),
        _ => true,
    }
}

// ── Reading and writing ──────────────────────────────────────────────────

/// A value of `serde_json`.
#[verifier::external_type_specification]
#[verifier::external_body]
pub struct ExValue(serde_json::Value);

/// What a value of `serde_json` holds.
pub uninterp spec fn value_view(v: serde_json::Value) -> JsonView;

/// What `serde_json::from_str` reads in a text; none where the text is not JSON.
pub uninterp spec fn json_parsed(text: Seq<char>) -> Option<JsonView>;

/// What `serde_json` prints for a value, in its compact form.
pub uninterp spec fn json_text(j: JsonView) -> Seq<char>;

/// Calls `serde_json::from_str`. It claims that the result depends on the text alone.
#[verifier::external_body]
fn parse_value(text: &str) -> (r: Option<Value>)
    ensures
        match r {
            Some(v) => json_parsed(text@) == Some(value_view(v)),
            None => json_parsed(text@) is None,
        },
{
    serde_json::from_str(text).ok()
}

/// Calls `to_string` on a `serde_json::Value`. It claims that the text depends on what
/// the value holds alone.
#[verifier::external_body]
fn print_value(v: &Value) -> (r: String)
    ensures
        r@ == json_text(value_view(*v)),
{
    v.to_string()
}

fn member(key: &str, value: Json) -> (r: Member)
    ensures
        r.key@ == key@,
        r.value == value,
{
    Member { key: String::from_str(key), value }
}

/// Takes a `serde_json::Value` apart. It claims that the result holds what the value
/// holds: one variant for each variant, and for a number, natural where `as_u64` gives
/// one, negative where `as_i64` does, and else the bits of the finite `as_f64`.
#[verifier::external_body]
fn json_of(v: &Value) -> (r: Json)
    ensures
        r@ == value_view(*v),
        json_wf(r@),
{
    match v {
        Value::Null => Json::Null,
        Value::Bool(b) => Json::Bool(*b),
        Value::Number(n) => match (n.as_u64(), n.as_i64()) {
            (Some(u), _) => Json::Unsigned(u),
            (None, Some(i)) => Json::Negative(i),
            (None, None) => Json::Double(n.as_f64().unwrap_or_default().to_bits()),
        },
        Value::String(s) => Json::Text(s.clone()),
        Value::Array(a) => Json::List(a.iter().map(json_of).collect()),
        Value::Object(m) => Json::Object(m.iter().map(|(k, v)| member(k, json_of(v))).collect()),
    }
}

/// Builds a `serde_json::Value`. It claims that the value holds what the argument holds:
/// one variant for each variant; a double goes through `Number::from_f64`, which takes
/// every finite one.
#[verifier::external_body]
fn value_of(j: &Json) -> (r: Value)
    requires
        json_wf(j@),
    ensures
        value_view(r) == j@,
{
    match j {
        Json::Null => Value::Null,
        Json::Bool(b) => Value::from(*b),
        Json::Unsigned(n) => Value::from(*n),
        Json::Negative(n) => Value::from(*n),
        Json::Double(d) => Value::from(LittleEndian::read_f64(&d.to_le_bytes())),
        Json::Text(s) => Value::from(s.as_str()),
        Json::List(v) => Value::Array(v.iter().map(value_of).collect()),
        Json::Object(m) => Value::Object(m.iter().map(|e| (e.key.clone(), value_of(&e.value))).collect()),
    }
}

/// The value that a text denotes.
pub fn parse_json(text: &str) -> (r: Option<Json>)
    ensures
        match r {
            Some(j) => json_parsed(text@) == Some(j@) && json_wf(j@),
            None => json_parsed(text@) is None,
        },
{
    match parse_value(text) {
        Some(v) => Some(json_of(&v)),
        None => None,
    }
}

impl Json {
    /// The text of the value.
    pub fn print(&self) -> (r: String)
        requires
            json_wf(self@),
        ensures
            r@ == json_text(self@),
    {
        let v = value_of(self);
        print_value(&v)
    }
}

// ── Looking into a value ─────────────────────────────────────────────────

/// The integer part of a positive double, at most the largest `u64`; zero for every
/// other.
pub open spec fn double_floor(b: u64) -> u64 {
    let e = (b as int / 0x10_0000_0000_0000) % 0x800;
    let m = b as int % 0x10_0000_0000_0000;
    let significand = 0x10_0000_0000_0000 + m;
    if b >= 0x8000_0000_0000_0000 || e < 1023 || (e == 2047 && m != 0) {
        0
    } else if e < 1075 {
        (significand / two((1075 - e) as nat) as int) as u64
    } else if e < 1087 {
        (significand * two((e - 1075) as nat)) as u64
    } else {
        u64::MAX
    }
}

impl JsonView {
    /// The member of an object with the key `key`.
    pub open spec fn get(self, key: Seq<char>) -> Option<JsonView> {
        match self {
            JsonView::Object(m) => if m.contains_key(key) {
                Some(m[key])
            } else {
                None
            },
            _ => None,
        }
    }

    pub open spec fn as_text(self) -> Option<Seq<char>> {
        match self {
            JsonView::Text(s) => Some(s),
            _ => None,
        }
    }

    pub open spec fn as_bool(self) -> Option<bool> {
        match self {
            JsonView::Bool(b) => Some(b),
            _ => None,
        }
    }

    pub open spec fn as_i64(self) -> Option<i64> {
        match self {
            JsonView::Unsigned(n) => if n <= i64::MAX {
                Some(n as i64)
            } else {
                None
            },
            JsonView::Negative(n) => Some(n),
            _ => None,
        }
    }

    pub open spec fn as_list(self) -> Option<Seq<JsonView>> {
        match self {
            JsonView::List(v) => Some(v),
            _ => None,
        }
    }

    /// A number as a single, by way of a double.
    pub open spec fn as_single(self) -> Option<u32> {
        match self {
            JsonView::Unsigned(n) => Some(single_of_nat(nearest_double(n as nat)) as u32),
            JsonView::Negative(n) => Some(
                (0x8000_0000 + single_of_nat(nearest_double((-n) as nat))) as u32,
            ),
            JsonView::Double(d) => Some(single_of_double(d) as u32),
            _ => None,
        }
    }

    /// A number as a natural one, by way of a double: the integer part, zero below zero,
    /// at most the largest `u64`.
    pub open spec fn as_natural(self) -> Option<u64> {
        match self {
            JsonView::Unsigned(n) => Some(
                if nearest_double(n as nat) > u64::MAX {
                    u64::MAX
                } else {
                    nearest_double(n as nat) as u64
                },
            ),
            JsonView::Negative(_) => Some(0u64),
            JsonView::Double(d) => Some(double_floor(d)),
            _ => None,
        }
    }
}

proof fn lemma_members(m: Seq<Member>, n: nat, i: int)
    requires
        i < n <= m.len(),
        0 <= i,
        forall|j: int| i < j < n ==> (#[trigger] m[j]).key@ != m[i].key@,
    ensures
        members_view(m, n).contains_key(m[i].key@),
        members_view(m, n)[m[i].key@] == json_view(m[i].value),
    decreases n,
{
    if i < n - 1 {
        lemma_members(m, (n - 1) as nat, i);
        assert(m[n - 1].key@ != m[i].key@);
    }
}

proof fn lemma_no_member(m: Seq<Member>, n: nat, key: Seq<char>)
    requires
        n <= m.len(),
        forall|j: int| 0 <= j < n ==> (#[trigger] m[j]).key@ != key,
    ensures
        !members_view(m, n).contains_key(key),
    decreases n,
{
    if n > 0 {
        lemma_no_member(m, (n - 1) as nat, key);
        assert(m[n - 1].key@ != key);
    }
}

/// A member of a well-formed value is well-formed.
pub proof fn lemma_member_wf(j: JsonView, key: Seq<char>)
    requires
        json_wf(j),
    ensures
        j.get(key) matches Some(v) ==> json_wf(v),
{
}

/// An item of a well-formed list is well-formed.
pub proof fn lemma_item_wf(j: JsonView, i: int)
    requires
        json_wf(j),
    ensures
        j.as_list() matches Some(v) ==> (0 <= i < v.len() ==> json_wf(v[i])),
{
}

impl Json {
    /// The member of an object with the key `key`.
    pub fn get(&self, key: &str) -> (r: Option<&Json>)
        ensures
            match r {
                Some(v) => self@.get(key@) == Some(v@),
                None => self@.get(key@) is None,
            },
    {
        match self {
            Json::Object(m) => {
                let mut i: usize = m.len();
                while i > 0
                    invariant
                        i <= m@.len(),
                        self@ == JsonView::Object(members_view(m@, m@.len())),
                        forall|j: int| i <= j < m@.len() ==> (#[trigger] m@[j]).key@ != key@,
                    decreases i,
                {
                    i = i - 1;
                    if same_text(m[i].key.as_str(), key) {
                        proof {
                            lemma_members(m@, m@.len(), i as int);
                        }
                        return Some(&m[i].value);
                    }
                }
                proof {
                    lemma_no_member(m@, m@.len(), key@);
                }
                None
            },
            _ => None,
        }
    }

    pub fn as_text(&self) -> (r: Option<&str>)
        ensures
            match r {
                Some(s) => self@.as_text() == Some(s@),
                None => self@.as_text() is None,
            },
    {
        match self {
            Json::Text(s) => Some(s.as_str()),
            _ => None,
        }
    }

    pub fn as_bool(&self) -> (r: Option<bool>)
        ensures
            r == self@.as_bool(),
    {
        match self {
            Json::Bool(b) => Some(*b),
            _ => None,
        }
    }

    pub fn as_i64(&self) -> (r: Option<i64>)
        ensures
            r == self@.as_i64(),
    {
        match self {
            Json::Unsigned(n) => {
                if *n <= 0x7fff_ffff_ffff_ffff {
                    Some(*n as i64)
                } else {
                    None
                }
            },
            Json::Negative(n) => Some(*n),
            _ => None,
        }
    }

    pub fn as_list(&self) -> (r: Option<&Vec<Json>>)
        ensures
            match r {
                Some(v) => self@.as_list() == Some(json_views(v@)),
                None => self@.as_list() is None,
            },
    {
        match self {
            Json::List(v) => {
                assert(self@->List_0 =~= json_views(v@));
                Some(v)
            },
            _ => None,
        }
    }

    pub fn is_object(&self) -> (r: bool)
        ensures
            r == (self@ is Object),
    {
        matches!(self, Json::Object(_))
    }

    /// A number as a single.
    pub fn as_single(&self) -> (r: Option<u32>)
        requires
            json_wf(self@),
        ensures
            r == self@.as_single(),
    {
        match self {
            Json::Unsigned(n) => Some(single_from_wide(round_to_double(*n))),
            Json::Negative(n) => {
                let m: u64 = if *n == i64::MIN {
                    0x8000_0000_0000_0000u64
                } else {
                    (-*n) as u64
                };
                Some(0x8000_0000u32 + single_from_wide(round_to_double(m)))
            },
            Json::Double(d) => Some(single_from_f64_bits(*d)),
            _ => None,
        }
    }

    /// A number as a natural one.
    pub fn as_natural(&self) -> (r: Option<u64>)
        ensures
            r == self@.as_natural(),
    {
        match self {
            Json::Unsigned(n) => {
                let x: u128 = round_to_double(*n);
                if x > 0xffff_ffff_ffff_ffff {
                    Some(u64::MAX)
                } else {
                    Some(x as u64)
                }
            },
            Json::Negative(_) => Some(0),
            Json::Double(d) => Some(floor_of_double(*d)),
            _ => None,
        }
    }
}

/// Two to the power `n`, for the powers that a double calls for.
fn power_of_two(n: u64) -> (r: u64)
    requires
        n <= 52,
    ensures
        r == two(n as nat),
        1 <= r <= 0x10_0000_0000_0000,
        n <= 11 ==> r <= 0x800,
{
    let mut r: u64 = 1;
    let mut i: u64 = 0;
    proof {
        reveal_with_fuel(two, 53);
        assert(two(52) == 0x10_0000_0000_0000);
        assert(two(11) == 0x800);
        assert(r * two((52 - i) as nat) == two(52));
        assert(r * two((11 - i) as nat) == two(11));
    }
    while i < n
        invariant
            i <= n <= 52,
            r == two(i as nat),
            1 <= r,
            r * two((52 - i) as nat) == 0x10_0000_0000_0000,
            i <= 11 ==> r * two((11 - i) as nat) == 0x800,
        decreases n - i,
    {
        proof {
            lemma_halved(r as int, 52, i as nat);
            if i < 11 {
                lemma_halved(r as int, 11, i as nat);
            }
        }
        r = r * 2;
        i = i + 1;
    }
    proof {
        lemma_two_positive((52 - n) as nat);
        assert(r <= 0x10_0000_0000_0000) by (nonlinear_arith)
            requires
                r * two((52 - n) as nat) == 0x10_0000_0000_0000,
                two((52 - n) as nat) >= 1,
        ;
        if n <= 11 {
            lemma_two_positive((11 - n) as nat);
            assert(r <= 0x800) by (nonlinear_arith)
                requires
                    r * two((11 - n) as nat) == 0x800,
                    two((11 - n) as nat) >= 1,
            ;
        }
    }
    r
}

proof fn lemma_halved(r: int, top: nat, i: nat)
    requires
        i < top,
        r >= 1,
    ensures
        (r * 2) * two((top - i - 1) as nat) == r * two((top - i) as nat),
        two((top - i - 1) as nat) >= 1,
        r * 2 <= r * two((top - i) as nat),
{
    lemma_two_positive((top - i - 1) as nat);
    let h = two((top - i - 1) as nat) as int;
    assert(two((top - i) as nat) == 2 * h);
    assert((r * 2) * h == r * (2 * h)) by (nonlinear_arith);
    assert(r * 2 <= r * (2 * h)) by (nonlinear_arith)
        requires
            h >= 1,
            r >= 1,
    ;
}

fn floor_of_double(b: u64) -> (r: u64)
    ensures
        r == double_floor(b),
{
    let e: u64 = (b / 0x10_0000_0000_0000) % 0x800;
    let m: u64 = b % 0x10_0000_0000_0000;
    let significand: u64 = 0x10_0000_0000_0000 + m;
    if b >= 0x8000_0000_0000_0000 || e < 1023 || (e == 2047 && m != 0) {
        0
    } else if e < 1075 {
        significand / power_of_two(1075 - e)
    } else if e < 1087 {
        let p: u64 = power_of_two(e - 1075);
        assert(significand * p <= 0x20_0000_0000_0000 * 0x800 - p) by (nonlinear_arith)
            requires
                significand < 0x20_0000_0000_0000,
                1 <= p <= 0x800,
        ;
        significand * p
    } else {
        u64::MAX
    }
}

// ── Copies ───────────────────────────────────────────────────────────────

fn copy_list(v: &Vec<Json>) -> (r: Vec<Json>)
    ensures
        r@.len() == v@.len(),
        forall|i: int| 0 <= i < v@.len() ==> json_view(#[trigger] r@[i]) == json_view(v@[i]),
    decreases v,
{
    let mut r: Vec<Json> = Vec::new();
    let mut i: usize = 0;
    while i < v.len()
        invariant
            i <= v@.len(),
            r@.len() == i,
            forall|k: int| 0 <= k < i ==> json_view(#[trigger] r@[k]) == json_view(v@[k]),
        decreases v@.len() - i,
    {
        assert(decreases_to!(v => v@[i as int]));
        r.push(v[i].copy());
        i = i + 1;
    }
    r
}

proof fn lemma_same_members(a: Seq<Member>, b: Seq<Member>, n: nat)
    requires
        n <= a.len() == b.len(),
        forall|i: int|
            0 <= i < a.len() ==> (#[trigger] a[i]).key@ == b[i].key@ && json_view(a[i].value)
                == json_view(b[i].value),
    ensures
        members_view(a, n) == members_view(b, n),
    decreases n,
{
    if n > 0 {
        lemma_same_members(a, b, (n - 1) as nat);
        assert(a[n - 1].key@ == b[n - 1].key@);
    }
}

fn copy_members(m: &Vec<Member>) -> (r: Vec<Member>)
    ensures
        members_view(r@, r@.len()) == members_view(m@, m@.len()),
    decreases m,
{
    let mut r: Vec<Member> = Vec::new();
    let mut i: usize = 0;
    while i < m.len()
        invariant
            i <= m@.len(),
            r@.len() == i,
            forall|k: int|
                0 <= k < i ==> (#[trigger] r@[k]).key@ == m@[k].key@ && json_view(r@[k].value)
                    == json_view(m@[k].value),
        decreases m@.len() - i,
    {
        assert(decreases_to!(m => m@[i as int].value));
        r.push(Member { key: m[i].key.clone(), value: m[i].value.copy() });
        i = i + 1;
    }
    proof {
        lemma_same_members(r@, m@, r@.len());
    }
    r
}

impl Json {
    /// A copy of the value.
    pub fn copy(&self) -> (r: Json)
        ensures
            r@ == self@,
        decreases self,
    {
        match self {
            Json::Null => Json::Null,
            Json::Bool(b) => Json::Bool(*b),
            Json::Unsigned(n) => Json::Unsigned(*n),
            Json::Negative(n) => Json::Negative(*n),
            Json::Double(d) => Json::Double(*d),
            Json::Text(s) => Json::Text(s.clone()),
            Json::List(v) => {
                let c = copy_list(v);
                let r = Json::List(c);
                assert(r@->List_0 =~= self@->List_0);
                r
            },
            Json::Object(m) => Json::Object(copy_members(m)),
        }
    }
}

// ── Building objects ─────────────────────────────────────────────────────

/// An object under construction.
pub struct JsonObject {
    members: Vec<Member>,
}

impl JsonObject {
    /// The members by their keys.
    pub closed spec fn view(&self) -> Map<Seq<char>, JsonView> {
        members_view(self.members@, self.members@.len())
    }

    /// An object without members.
    pub fn new() -> (r: Self)
        ensures
            r@ == Map::<Seq<char>, JsonView>::empty(),
            json_wf(JsonView::Object(r@)),
    {
        let members: Vec<Member> = Vec::new();
        assert(members_view(members@, 0) =~= Map::empty());
        JsonObject { members }
    }

    /// The object with the member `key`.
    pub fn with(self, key: &str, value: Json) -> (r: Self)
        ensures
            r@ == self@.insert(key@, value@),
            json_wf(JsonView::Object(self@)) && json_wf(value@) ==> json_wf(JsonView::Object(r@)),
    {
        let ghost before = self.members@;
        let mut members = self.members;
        members.push(Member { key: String::from_str(key), value });
        proof {
            lemma_same_prefix(before, members@, before.len());
            if json_wf(JsonView::Object(self@)) && json_wf(value@) {
                lemma_insert_wf(self@, key@, value@);
            }
        }
        JsonObject { members }
    }

    /// The object with a text as the member `key`.
    pub fn with_text(self, key: &str, value: &str) -> (r: Self)
        ensures
            r@ == self@.insert(key@, JsonView::Text(value@)),
            json_wf(JsonView::Object(self@)) ==> json_wf(JsonView::Object(r@)),
    {
        self.with(key, Json::Text(String::from_str(value)))
    }

    /// The object with an integer as the member `key`.
    pub fn with_int(self, key: &str, value: i64) -> (r: Self)
        ensures
            r@ == self@.insert(key@, int_view(value)),
            json_wf(JsonView::Object(self@)) ==> json_wf(JsonView::Object(r@)),
    {
        self.with(
            key,
            if value >= 0 {
                Json::Unsigned(value as u64)
            } else {
                Json::Negative(value)
            },
        )
    }

    /// The finished object.
    pub fn done(self) -> (r: Json)
        ensures
            r@ == JsonView::Object(self@),
    {
        Json::Object(self.members)
    }
}

/// An integer as a JSON number.
pub open spec fn int_view(n: i64) -> JsonView {
    if n >= 0 {
        JsonView::Unsigned(n as u64)
    } else {
        JsonView::Negative(n)
    }
}

/// Adding a member to an object that can be printed gives one that can be printed.
proof fn lemma_insert_wf(m: Map<Seq<char>, JsonView>, key: Seq<char>, v: JsonView)
    requires
        json_wf(JsonView::Object(m)),
        json_wf(v),
    ensures
        json_wf(JsonView::Object(m.insert(key, v))),
{
    let n = m.insert(key, v);
    assert forall|k: Seq<char>| n.contains_key(k) implies json_wf(#[trigger] n[k]) by {
        if k != key {
            lemma_member_wf(JsonView::Object(m), k);
        }
    }
}

proof fn lemma_same_prefix(a: Seq<Member>, b: Seq<Member>, n: nat)
    requires
        n <= a.len(),
        n <= b.len(),
        forall|i: int| 0 <= i < n ==> a[i] == b[i],
    ensures
        members_view(a, n) == members_view(b, n),
    decreases n,
{
    if n > 0 {
        lemma_same_prefix(a, b, (n - 1) as nat);
        assert(a[n - 1] == b[n - 1]);
    }
}

} // verus!
