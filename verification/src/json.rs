//! A JSON document model: what the feature logic reads of request bodies,
//! stored settings and per-feature state.
use vstd::prelude::*;
use crate::text::text_eq;

verus! {

/// A JSON number as it was read: a non-negative integer, a negative
/// integer, or a binary64 value held by its IEEE-754 bit pattern.
#[derive(PartialEq, Eq, Structural, Clone, Copy, Debug)]
pub enum JsonNumber {
    PosInt(u64),
    NegInt(i64),
    Float(u64),
}

/// The bit pattern of the binary64 value `1.0`.
pub open spec fn bits_of_one() -> u64 {
    0x3FF0_0000_0000_0000
}

/// The bit pattern of the binary64 value `10.0`.
pub open spec fn bits_of_ten() -> u64 {
    0x4024_0000_0000_0000
}

/// The bit pattern of the binary64 value `-0.0`.
pub open spec fn bits_of_neg_zero() -> u64 {
    0x8000_0000_0000_0000
}

impl JsonNumber {
    /// The number as an `i64`, when it is an integer that fits.
    pub open spec fn int_value(self) -> Option<i64> {
        match self {
            JsonNumber::PosInt(u) => if u <= i64::MAX {
                Some(u as i64)
            } else {
                None
            },
            JsonNumber::NegInt(i) => Some(i),
            JsonNumber::Float(_) => None,
        }
    }

    /// The number, read as a binary64, is finite and lies in `[0, 1]`.
    /// Non-negative binary64 values are ordered as their bit patterns are.
    pub open spec fn in_unit_range(self) -> bool {
        match self {
            JsonNumber::PosInt(u) => u <= 1,
            JsonNumber::NegInt(i) => 0 <= i <= 1,
            JsonNumber::Float(b) => b <= bits_of_one() || b == bits_of_neg_zero(),
        }
    }

    /// The number, read as a binary64, lies in `[1, 10]`.
    pub open spec fn in_width_range(self) -> bool {
        match self {
            JsonNumber::PosInt(u) => 1 <= u <= 10,
            JsonNumber::NegInt(i) => 1 <= i <= 10,
            JsonNumber::Float(b) => bits_of_one() <= b <= bits_of_ten(),
        }
    }

    pub fn copy(&self) -> (r: JsonNumber)
        ensures
            r == *self,
    {
        match self {
            JsonNumber::PosInt(u) => JsonNumber::PosInt(*u),
            JsonNumber::NegInt(i) => JsonNumber::NegInt(*i),
            JsonNumber::Float(b) => JsonNumber::Float(*b),
        }
    }

    pub fn as_i64(&self) -> (r: Option<i64>)
        ensures
            r == self.int_value(),
    {
        match self {
            JsonNumber::PosInt(u) => if *u <= 0x7fff_ffff_ffff_ffff {
                Some(*u as i64)
            } else {
                None
            },
            JsonNumber::NegInt(i) => Some(*i),
            JsonNumber::Float(_) => None,
        }
    }

    pub fn unit_range(&self) -> (r: bool)
        ensures
            r == self.in_unit_range(),
    {
        match self {
            JsonNumber::PosInt(u) => *u <= 1,
            JsonNumber::NegInt(i) => 0 <= *i && *i <= 1,
            JsonNumber::Float(b) => *b <= 0x3FF0_0000_0000_0000 || *b == 0x8000_0000_0000_0000,
        }
    }

    pub fn width_range(&self) -> (r: bool)
        ensures
            r == self.in_width_range(),
    {
        match self {
            JsonNumber::PosInt(u) => 1 <= *u && *u <= 10,
            JsonNumber::NegInt(i) => 1 <= *i && *i <= 10,
            JsonNumber::Float(b) => 0x3FF0_0000_0000_0000 <= *b && *b <= 0x4024_0000_0000_0000,
        }
    }
}

/// A JSON value. Objects keep their members in order.
#[derive(Debug, PartialEq)]
pub enum Json {
    Null,
    Bool(bool),
    Number(JsonNumber),
    Str(String),
    Array(Vec<Json>),
    Object(Vec<(String, Json)>),
}

/// The mathematical value of a JSON document.
#[verifier::ext_equal]
pub enum JVal {
    Null,
    Bool(bool),
    Number(JsonNumber),
    Str(Seq<char>),
    Array(Seq<JVal>),
    Object(Seq<(Seq<char>, JVal)>),
}

pub open spec fn json_view(j: Json) -> JVal
    decreases j,
{
    match j {
        Json::Null => JVal::Null,
        Json::Bool(b) => JVal::Bool(b),
        Json::Number(n) => JVal::Number(n),
        Json::Str(s) => JVal::Str(s@),
        Json::Array(v) => JVal::Array(
            Seq::new(
                v@.len(),
                |i: int|
                    if 0 <= i < v@.len() {
                        json_view(v@[i])
                    } else {
                        JVal::Null
                    },
            ),
        ),
        Json::Object(p) => JVal::Object(
            Seq::new(
                p@.len(),
                |i: int|
                    if 0 <= i < p@.len() {
                        (p@[i].0@, json_view(p@[i].1))
                    } else {
                        (Seq::empty(), JVal::Null)
                    },
            ),
        ),
    }
}

impl View for Json {
    type V = JVal;

    open spec fn view(&self) -> JVal {
        json_view(*self)
    }
}

/// The items of an array, by their values.
pub open spec fn items_view(v: Seq<Json>) -> Seq<JVal> {
    v.map_values(|x: Json| x@)
}

/// The members of an object, by their values.
pub open spec fn members_view(p: Seq<(String, Json)>) -> Seq<(Seq<char>, JVal)> {
    p.map_values(|x: (String, Json)| (x.0@, x.1@))
}

pub proof fn lemma_array_view(v: Vec<Json>)
    ensures
        Json::Array(v)@ == JVal::Array(items_view(v@)),
{
    assert(Json::Array(v)@->Array_0 =~= items_view(v@));
}

pub proof fn lemma_object_view(p: Vec<(String, Json)>)
    ensures
        Json::Object(p)@ == JVal::Object(members_view(p@)),
{
    assert(Json::Object(p)@->Object_0 =~= members_view(p@));
}

/// The value of the first member named `key`.
pub open spec fn lookup(members: Seq<(Seq<char>, JVal)>, key: Seq<char>) -> Option<JVal>
    decreases members.len(),
{
    if members.len() == 0 {
        None
    } else if members[0].0 == key {
        Some(members[0].1)
    } else {
        lookup(members.drop_first(), key)
    }
}

pub proof fn lemma_lookup_at(members: Seq<(Seq<char>, JVal)>, key: Seq<char>, i: int)
    requires
        0 <= i <= members.len(),
        forall|j: int| 0 <= j < i ==> members[j].0 != key,
    ensures
        lookup(members, key) == lookup(members.skip(i), key),
    decreases i,
{
    if i > 0 {
        assert(members.skip(1) =~= members.drop_first());
        lemma_lookup_at(members.drop_first(), key, i - 1);
        assert(members.drop_first().skip(i - 1) =~= members.skip(i));
    } else {
        assert(members.skip(0) =~= members);
    }
}

impl JVal {
    /// `Value::get` with a string key: the member of an object, if any.
    pub open spec fn get(self, key: Seq<char>) -> Option<JVal> {
        match self {
            JVal::Object(m) => lookup(m, key),
            _ => None,
        }
    }

    pub open spec fn as_str(self) -> Option<Seq<char>> {
        match self {
            JVal::Str(s) => Some(s),
            _ => None,
        }
    }

    pub open spec fn as_bool(self) -> Option<bool> {
        match self {
            JVal::Bool(b) => Some(b),
            _ => None,
        }
    }

    pub open spec fn as_i64(self) -> Option<i64> {
        match self {
            JVal::Number(n) => n.int_value(),
            _ => None,
        }
    }

    /// `get(key)` read as a string.
    pub open spec fn str_at(self, key: Seq<char>) -> Option<Seq<char>> {
        match self.get(key) {
            Some(v) => v.as_str(),
            None => None,
        }
    }

    /// `get(key)` read as a boolean.
    pub open spec fn bool_at(self, key: Seq<char>) -> Option<bool> {
        match self.get(key) {
            Some(v) => v.as_bool(),
            None => None,
        }
    }

    /// `get(key)` read as an `i64`.
    pub open spec fn i64_at(self, key: Seq<char>) -> Option<i64> {
        match self.get(key) {
            Some(v) => v.as_i64(),
            None => None,
        }
    }
}

pub open spec fn empty_object() -> JVal {
    JVal::Object(Seq::empty())
}

impl Json {
    pub fn new_object() -> (r: Json)
        ensures
            r@ == empty_object(),
    {
        let v: Vec<(String, Json)> = Vec::new();
        let r = Json::Object(v);
        assert(r@->Object_0 =~= Seq::empty());
        r
    }

    /// The member named `key` of an object; `None` for other values.
    pub fn get(&self, key: &str) -> (r: Option<&Json>)
        ensures
            match r {
                Some(v) => self@.get(key@) == Some(v@),
                None => self@.get(key@) is None,
            },
    {
        match self {
            Json::Object(members) => {
                let ghost m = self@->Object_0;
                let n = members.len();
                let mut i: usize = 0;
                while i < n
                    invariant
                        n == members@.len(),
                        m.len() == n,
                        i <= n,
                        self@ == JVal::Object(m),
                        forall|j: int| 0 <= j < n ==> #[trigger] m[j] == (members@[j].0@, members@[j].1@),
                        forall|j: int| 0 <= j < i ==> m[j].0 != key@,
                    decreases n - i,
                {
                    if text_eq(members[i].0.as_str(), key) {
                        proof {
                            lemma_lookup_at(m, key@, i as int);
                            assert(m.skip(i as int)[0] == m[i as int]);
                        }
                        return Some(&members[i].1);
                    }
                    i = i + 1;
                }
                proof {
                    lemma_lookup_at(m, key@, n as int);
                }
                None
            },
            _ => None,
        }
    }

    pub fn as_str(&self) -> (r: Option<&str>)
        ensures
            match r {
                Some(s) => self@.as_str() == Some(s@),
                None => self@.as_str() is None,
            },
    {
        match self {
            Json::Str(s) => Some(s.as_str()),
            _ => None,
        }
    }

    pub fn as_bool(&self) -> (r: Option<bool>)
        ensures
            r == self@.as_bool(),
    {
        match self {
            Json::Bool(b) => Some(*b),
            _ => None,
        }
    }

    pub fn as_i64(&self) -> (r: Option<i64>)
        ensures
            r == self@.as_i64(),
    {
        match self {
            Json::Number(n) => n.as_i64(),
            _ => None,
        }
    }

    /// `get(key)` read as a string.
    pub fn str_at(&self, key: &str) -> (r: Option<&str>)
        ensures
            match r {
                Some(s) => self@.str_at(key@) == Some(s@),
                None => self@.str_at(key@) is None,
            },
    {
        match self.get(key) {
            Some(v) => v.as_str(),
            None => None,
        }
    }

    /// `get(key)` read as a boolean.
    pub fn bool_at(&self, key: &str) -> (r: Option<bool>)
        ensures
            r == self@.bool_at(key@),
    {
        match self.get(key) {
            Some(v) => v.as_bool(),
            None => None,
        }
    }

    /// `get(key)` read as an `i64`.
    pub fn i64_at(&self, key: &str) -> (r: Option<i64>)
        ensures
            r == self@.i64_at(key@),
    {
        match self.get(key) {
            Some(v) => v.as_i64(),
            None => None,
        }
    }

    /// A deep copy.
    #[verifier::loop_isolation(false)]
    pub fn copy(&self) -> (r: Json)
        ensures
            r@ == self@,
        decreases self,
    {
        match self {
            Json::Null => Json::Null,
            Json::Bool(b) => Json::Bool(*b),
            Json::Number(n) => Json::Number(n.copy()),
            Json::Str(s) => Json::Str(s.clone()),
            Json::Array(items) => {
                let n = items.len();
                let mut out: Vec<Json> = Vec::new();
                for i in 0..n
                    invariant
                        n == items@.len(),
                        out@.len() == i,
                        forall|j: int| 0 <= j < i ==> (#[trigger] out@[j])@ == items@[j]@,
                {
                    proof {
                        assert(decreases_to!(*self => *items));
                        assert(decreases_to!(*items => items@));
                        assert(decreases_to!(items@ => items@[i as int]));
                    }
                    let c = items[i].copy();
                    out.push(c);
                }
                let r = Json::Array(out);
                assert(r@->Array_0 =~= self@->Array_0);
                r
            },
            Json::Object(members) => {
                let n = members.len();
                let mut out: Vec<(String, Json)> = Vec::new();
                for i in 0..n
                    invariant
                        n == members@.len(),
                        out@.len() == i,
                        forall|j: int|
                            0 <= j < i ==> (#[trigger] out@[j]).0@ == members@[j].0@ && out@[j].1@
                                == members@[j].1@,
                {
                    proof {
                        assert(decreases_to!(*self => *members));
                        assert(decreases_to!(*members => members@));
                        assert(decreases_to!(members@ => members@[i as int]));
                        assert(decreases_to!(members@[i as int] => members@[i as int].1));
                    }
                    let k = members[i].0.clone();
                    let c = members[i].1.copy();
                    out.push((k, c));
                }
                let r = Json::Object(out);
                assert(r@->Object_0 =~= self@->Object_0);
                r
            },
        }
    }
}

} // verus!
