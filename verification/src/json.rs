//! JSON values.
//!
//! [`Json`] is the value that the tools read and write; its view [`JsonView`]
//! has a map for an object, so that two objects with the same members are one
//! value in whatever order the members stand. Text is parsed and printed by
//! `serde_json`.

use vstd::prelude::*;
use vstd::utf8::encode_utf8;
use crate::assoc::{find_key, last_position, lemma_last_position};
use crate::text::{decimal, str_eq, u64_to_string};

verus! {

/// A JSON number, kept as the text that `serde_json` prints for it.
#[derive(Debug, PartialEq)]
pub struct JsonNumber {
    text: String,
}

/// A JSON value. Where a key stands twice in an object, the later member counts.
#[derive(Debug, PartialEq)]
pub enum Json {
    Null,
    Bool(bool),
    Number(JsonNumber),
    Text(String),
    Array(Vec<Json>),
    Object(Vec<(String, Json)>),
}

/// What a [`Json`] means.
#[verifier::ext_equal]
pub enum JsonView {
    Null,
    Bool(bool),
    Number(Seq<char>),
    Text(Seq<char>),
    Array(Seq<JsonView>),
    Object(Map<Seq<char>, JsonView>),
}

impl View for JsonNumber {
    type V = Seq<char>;

    closed spec fn view(&self) -> Seq<char> {
        self.text@
    }
}

impl View for Json {
    type V = JsonView;

    open spec fn view(&self) -> JsonView {
        json_view(*self)
    }
}

/// The view of a value.
pub open spec fn json_view(j: Json) -> JsonView
    decreases j,
{
    match j {
        Json::Null => JsonView::Null,
        Json::Bool(b) => JsonView::Bool(b),
        Json::Number(n) => JsonView::Number(n@),
        Json::Text(s) => JsonView::Text(s@),
        Json::Array(v) => JsonView::Array(
            Seq::new(
                v@.len(),
                |i: int|
                    if 0 <= i < v@.len() {
                        json_view(v[i])
                    } else {
                        JsonView::Null
                    },
            ),
        ),
        Json::Object(v) => JsonView::Object(
            Map::new(
                |k: Seq<char>| 0 <= last_position(v@, k),
                |k: Seq<char>|
                    {
                        let i = last_position(v@, k);
                        if 0 <= i < v@.len() {
                            json_view(v[i].1)
                        } else {
                            JsonView::Null
                        }
                    },
            ),
        ),
    }
}

/// The views of several values.
pub open spec fn jsons(v: Seq<Json>) -> Seq<JsonView> {
    Seq::new(v.len(), |i: int| v[i]@)
}

/// What the members of an object mean.
pub open spec fn members_view(v: Seq<(String, Json)>) -> Map<Seq<char>, JsonView> {
    Map::new(
        |k: Seq<char>| 0 <= last_position(v, k),
        |k: Seq<char>| v[last_position(v, k)].1@,
    )
}

/// The view of an array is the sequence of its items' views.
pub broadcast proof fn lemma_array_view(v: Vec<Json>)
    ensures
        #[trigger] json_view(Json::Array(v)) == JsonView::Array(jsons(v@)),
{
    assert(json_view(Json::Array(v))->Array_0 =~= jsons(v@));
}

/// The view of an object is the map of its members.
pub broadcast proof fn lemma_object_view(v: Vec<(String, Json)>)
    ensures
        #[trigger] json_view(Json::Object(v)) == JsonView::Object(members_view(v@)),
{
    broadcast use lemma_last_position;

    assert(json_view(Json::Object(v))->Object_0 =~= members_view(v@));
}

/// A member behind the others takes the place of an earlier one with its key.
pub proof fn lemma_members_push(v: Seq<(String, Json)>, key: String, value: Json)
    ensures
        members_view(v.push((key, value))) == members_view(v).insert(key@, value@),
{
    broadcast use lemma_last_position;

    let w = v.push((key, value));
    assert(w.drop_last() == v);
    assert(members_view(w) =~= members_view(v).insert(key@, value@));
}

/// Members behind members take the place of those with their keys.
pub proof fn lemma_members_append(a: Seq<(String, Json)>, b: Seq<(String, Json)>)
    ensures
        members_view(a + b) == members_view(a).union_prefer_right(members_view(b)),
    decreases b.len(),
{
    if b.len() == 0 {
        assert(a + b == a);
        assert(members_view(b) =~= Map::empty());
        assert(members_view(a).union_prefer_right(members_view(b)) =~= members_view(a));
    } else {
        let c = b.drop_last();
        let (k, v) = b.last();
        lemma_members_append(a, c);
        lemma_members_push(a + c, k, v);
        lemma_members_push(c, k, v);
        assert(a + b == (a + c).push((k, v)));
        assert(b == c.push((k, v)));
        assert(members_view(a + b) =~= members_view(a).union_prefer_right(members_view(b)));
    }
}

/// The member of an object under `key`; nothing for other values.
pub open spec fn member(v: JsonView, key: Seq<char>) -> Option<JsonView> {
    match v {
        JsonView::Object(m) => if m.dom().contains(key) {
            Some(m[key])
        } else {
            None
        },
        _ => None,
    }
}

/// The text that a value is, if it is one.
pub open spec fn text_of(v: Option<JsonView>) -> Option<Seq<char>> {
    match v {
        Some(JsonView::Text(s)) => Some(s),
        _ => None,
    }
}

/// The items of the array that a value is, if it is one.
pub open spec fn items_of(v: Option<JsonView>) -> Option<Seq<JsonView>> {
    match v {
        Some(JsonView::Array(s)) => Some(s),
        _ => None,
    }
}

/// The truth value that a value is, if it is one.
pub open spec fn bool_of(v: Option<JsonView>) -> Option<bool> {
    match v {
        Some(JsonView::Bool(b)) => Some(b),
        _ => None,
    }
}

impl JsonNumber {
    /// A whole number.
    pub fn from_u64(n: u64) -> (r: JsonNumber)
        ensures
            r@ == decimal(n as nat),
    {
        JsonNumber { text: u64_to_string(n) }
    }

    /// The number as text.
    pub fn to_text(&self) -> (r: String)
        ensures
            r@ == self@,
    {
        self.text.clone()
    }

    fn copy(&self) -> (r: JsonNumber)
        ensures
            r@ == self@,
    {
        JsonNumber { text: self.text.clone() }
    }

    fn same(&self, other: &JsonNumber) -> (r: bool)
        ensures
            r == (unsigned_zero(self@) == unsigned_zero(other@)),
    {
        let a: &str = if str_eq(self.text.as_str(), "-0.0") {
            "0.0"
        } else {
            self.text.as_str()
        };
        let b: &str = if str_eq(other.text.as_str(), "-0.0") {
            "0.0"
        } else {
            other.text.as_str()
        };
        str_eq(a, b)
    }
}

impl Json {
    /// A text value.
    pub fn text(s: &str) -> (r: Json)
        ensures
            r@ == JsonView::Text(s@),
    {
        Json::Text(s.to_owned())
    }

    /// A whole number.
    pub fn number(n: u64) -> (r: Json)
        ensures
            r@ == JsonView::Number(decimal(n as nat)),
    {
        Json::Number(JsonNumber::from_u64(n))
    }

    /// An object without members.
    pub fn object() -> (r: Json)
        ensures
            r@ == JsonView::Object(Map::empty()),
    {
        let v: Vec<(String, Json)> = Vec::new();
        let r: Json = Json::Object(v);
        proof {
            broadcast use lemma_object_view;

            assert(members_view(v@) =~= Map::empty());
        }
        r
    }

    /// The member under `key`, if the value is an object that has one.
    pub fn get(&self, key: &str) -> (r: Option<&Json>)
        ensures
            match r {
                Some(v) => member(self@, key@) == Some(v@),
                None => member(self@, key@) is None,
            },
            r matches Some(v) ==> decreases_to!(*self => *v),
    {
        broadcast use {lemma_object_view, lemma_last_position};

        match self {
            Json::Object(v) => {
                match find_key(v, key) {
                    Some(i) => Some(&v[i].1),
                    None => None,
                }
            },
            _ => None,
        }
    }

    /// The text, if the value is one.
    pub fn as_str(&self) -> (r: Option<&String>)
        ensures
            match r {
                Some(s) => text_of(Some(self@)) == Some(s@),
                None => text_of(Some(self@)) is None,
            },
    {
        match self {
            Json::Text(s) => Some(s),
            _ => None,
        }
    }

    /// The truth value, if the value is one.
    pub fn as_bool(&self) -> (r: Option<bool>)
        ensures
            r == bool_of(Some(self@)),
    {
        match self {
            Json::Bool(b) => Some(*b),
            _ => None,
        }
    }

    /// The items, if the value is an array.
    pub fn as_array(&self) -> (r: Option<&Vec<Json>>)
        ensures
            match r {
                Some(v) => items_of(Some(self@)) == Some(jsons(v@)) && *self == Json::Array(*v),
                None => items_of(Some(self@)) is None,
            },
    {
        broadcast use lemma_array_view;

        match self {
            Json::Array(v) => Some(v),
            _ => None,
        }
    }

    /// Whether the value is an object.
    pub fn is_object(&self) -> (r: bool)
        ensures
            r == (self@ is Object),
    {
        match self {
            Json::Object(_) => true,
            _ => false,
        }
    }

    /// Puts `value` under `key`, in place of what stood there.
    pub fn insert(&mut self, key: String, value: Json)
        requires
            old(self)@ is Object,
        ensures
            final(self)@ == JsonView::Object(old(self)@->Object_0.insert(key@, value@)),
    {
        broadcast use lemma_object_view;

        match self {
            Json::Object(v) => {
                proof {
                    lemma_members_push(v@, key, value);
                }
                v.push((key, value));
            },
            _ => {},
        }
    }

    /// Puts the members of another object into this one, in place of those with
    /// their keys.
    pub fn merge(&mut self, other: &Json)
        requires
            old(self)@ is Object,
            other@ is Object,
        ensures
            final(self)@ == JsonView::Object(
                old(self)@->Object_0.union_prefer_right(other@->Object_0),
            ),
    {
        broadcast use lemma_object_view;

        match (self, other) {
            (Json::Object(v), Json::Object(w)) => {
                let ghost before = v@;
                for i in 0..w.len()
                    invariant
                        members_view(v@) == members_view(before + w@.take(i as int)),
                {
                    let value: Json = w[i].1.copy();
                    proof {
                        lemma_members_push(v@, w@[i as int].0, value);
                        lemma_members_push(
                            before + w@.take(i as int),
                            w@[i as int].0,
                            w@[i as int].1,
                        );
                        assert(before + w@.take(i + 1) == (before + w@.take(i as int)).push(
                            w@[i as int],
                        ));
                    }
                    v.push((w[i].0.clone(), value));
                }
                proof {
                    assert(w@.take(w@.len() as int) == w@);
                    lemma_members_append(before, w@);
                }
            },
            _ => {},
        }
    }

    /// Takes the member under `key` away.
    pub fn remove(&mut self, key: &str)
        requires
            old(self)@ is Object,
        ensures
            final(self)@ == JsonView::Object(old(self)@->Object_0.remove(key@)),
    {
        broadcast use lemma_object_view;

        match self {
            Json::Object(v) => {
                let ghost before = v@;
                let mut kept: Vec<(String, Json)> = Vec::new();
                proof {
                    assert(members_view(kept@) =~= members_view(before.take(0)).remove(key@));
                }
                let mut i: usize = 0;
                while i < v.len()
                    invariant
                        i <= v.len(),
                        v@ == before,
                        members_view(kept@) == members_view(before.take(i as int)).remove(key@),
                    decreases v.len() - i,
                {
                    let ghost m = members_view(before.take(i as int));
                    let ghost (k, x) = before[i as int];
                    proof {
                        assert(before.take(i + 1) == before.take(i as int).push(before[i as int]));
                        lemma_members_push(before.take(i as int), k, x);
                    }
                    if str_eq(v[i].0.as_str(), key) {
                        proof {
                            assert(m.insert(k@, x@).remove(key@) =~= m.remove(key@));
                        }
                    } else {
                        let value: Json = v[i].1.copy();
                        proof {
                            lemma_members_push(kept@, k, value);
                            assert(m.insert(k@, x@).remove(key@) =~= m.remove(key@).insert(
                                k@,
                                x@,
                            ));
                        }
                        kept.push((v[i].0.clone(), value));
                    }
                    i = i + 1;
                }
                proof {
                    assert(before.take(before.len() as int) == before);
                }
                *v = kept;
            },
            _ => {},
        }
    }

    /// Whether the value is an object without members.
    pub fn is_empty_object(&self) -> (r: bool)
        ensures
            r == (self@ == JsonView::Object(Map::empty())),
    {
        broadcast use {lemma_object_view, lemma_last_position};

        match self {
            Json::Object(v) => {
                proof {
                    if v@.len() > 0 {
                        assert(members_view(v@).dom().contains(v@[0].0@));
                    } else {
                        assert(members_view(v@) =~= Map::empty());
                    }
                }
                v.len() == 0
            },
            _ => false,
        }
    }

    /// The member under `key` as text, if it is one.
    pub fn text_member(&self, key: &str) -> (r: Option<&String>)
        ensures
            match r {
                Some(s) => text_of(member(self@, key@)) == Some(s@),
                None => text_of(member(self@, key@)) is None,
            },
    {
        match self.get(key) {
            Some(v) => v.as_str(),
            None => None,
        }
    }

    /// The member under `key` as an array, if it is one.
    pub fn array_member(&self, key: &str) -> (r: Option<&Vec<Json>>)
        ensures
            match r {
                Some(v) => items_of(member(self@, key@)) == Some(jsons(v@)),
                None => items_of(member(self@, key@)) is None,
            },
    {
        match self.get(key) {
            Some(v) => v.as_array(),
            None => None,
        }
    }

    /// A copy of the value.
    pub fn copy(&self) -> (r: Json)
        ensures
            r@ == self@,
        decreases self,
    {
        match self {
            Json::Null => Json::Null,
            Json::Bool(b) => Json::Bool(*b),
            Json::Number(n) => Json::Number(n.copy()),
            Json::Text(s) => Json::Text(s.clone()),
            Json::Array(v) => {
                let mut out: Vec<Json> = Vec::new();
                for i in 0..v.len()
                    invariant
                        decreases_to!(self => v),
                        out.len() == i,
                        forall|j: int| 0 <= j < i ==> out@[j]@ == (#[trigger] v@[j])@,
                {
                    out.push(v[i].copy());
                }
                proof {
                    broadcast use lemma_array_view;

                    assert(jsons(out@) =~= jsons(v@));
                }
                Json::Array(out)
            },
            Json::Object(v) => {
                let mut out: Vec<(String, Json)> = Vec::new();
                for i in 0..v.len()
                    invariant
                        decreases_to!(self => v),
                        out.len() == i,
                        members_view(out@) == members_view(v@.take(i as int)),
                {
                    let value: Json = v[i].1.copy();
                    proof {
                        assert(v@.take(i + 1) == v@.take(i as int).push(v@[i as int]));
                        lemma_members_push(v@.take(i as int), v@[i as int].0, v@[i as int].1);
                        lemma_members_push(out@, v@[i as int].0, value);
                    }
                    out.push((v[i].0.clone(), value));
                }
                proof {
                    broadcast use lemma_object_view;

                    assert(v@.take(v@.len() as int) == v@);
                }
                Json::Object(out)
            },
        }
    }

    /// Whether two values are equal.
    pub fn same(&self, other: &Json) -> (r: bool)
        ensures
            r == equal(self@, other@),
        decreases self,
    {
        match (self, other) {
            (Json::Null, Json::Null) => true,
            (Json::Bool(a), Json::Bool(b)) => *a == *b,
            (Json::Number(a), Json::Number(b)) => a.same(b),
            (Json::Text(a), Json::Text(b)) => *a == *b,
            (Json::Array(a), Json::Array(b)) => {
                proof {
                    broadcast use lemma_array_view;

                    lemma_normal_array(jsons(a@));
                    lemma_normal_array(jsons(b@));
                }
                if a.len() != b.len() {
                    proof {
                        assert(normals(jsons(a@)).len() != normals(jsons(b@)).len());
                    }
                    return false;
                }
                for i in 0..a.len()
                    invariant
                        decreases_to!(self => a),
                        a.len() == b.len(),
                        normal(self@) == JsonView::Array(normals(jsons(a@))),
                        normal(other@) == JsonView::Array(normals(jsons(b@))),
                        forall|j: int| 0 <= j < i ==> equal((#[trigger] a@[j])@, b@[j]@),
                {
                    if !a[i].same(&b[i]) {
                        proof {
                            assert(normals(jsons(a@))[i as int] != normals(jsons(b@))[i as int]);
                        }
                        return false;
                    }
                }
                proof {
                    assert forall|j: int| 0 <= j < a@.len() implies normals(jsons(a@))[j]
                        == normals(jsons(b@))[j] by {
                        assert(equal(a@[j]@, b@[j]@));
                    }
                    assert(normals(jsons(a@)) =~= normals(jsons(b@)));
                }
                true
            },
            (Json::Object(a), Json::Object(b)) => {
                proof {
                    broadcast use lemma_object_view;

                    lemma_normal_object(members_view(a@));
                    lemma_normal_object(members_view(b@));
                }
                for i in 0..a.len()
                    invariant
                        decreases_to!(self => a),
                        normal(self@) == JsonView::Object(normal_members(members_view(a@))),
                        normal(other@) == JsonView::Object(normal_members(members_view(b@))),
                        forall|j: int|
                            0 <= j < i ==> agree_on(a@, b@, (#[trigger] a@[j]).0@),
                {
                    broadcast use lemma_last_position;

                    let p: Option<usize> = find_key(a, a[i].0.as_str());
                    let q: Option<usize> = find_key(b, a[i].0.as_str());
                    let agree: bool = match (p, q) {
                        (Some(x), Some(y)) => a[x].1.same(&b[y].1),
                        _ => false,
                    };
                    if !agree {
                        proof {
                            let k = a@[i as int].0@;
                            assert(normal_members(members_view(a@)).dom().contains(k));
                            if normal_members(members_view(b@)).dom().contains(k) {
                                assert(normal_members(members_view(a@))[k] != normal_members(
                                    members_view(b@),
                                )[k]);
                            }
                        }
                        return false;
                    }
                }
                for i in 0..b.len()
                    invariant
                        normal(self@) == JsonView::Object(normal_members(members_view(a@))),
                        normal(other@) == JsonView::Object(normal_members(members_view(b@))),
                        forall|j: int|
                            0 <= j < a.len() ==> agree_on(a@, b@, (#[trigger] a@[j]).0@),
                        forall|j: int|
                            0 <= j < i ==> last_position(a@, (#[trigger] b@[j]).0@) >= 0,
                {
                    broadcast use lemma_last_position;

                    if find_key(a, b[i].0.as_str()).is_none() {
                        proof {
                            let k = b@[i as int].0@;
                            assert(normal_members(members_view(b@)).dom().contains(k));
                            assert(!normal_members(members_view(a@)).dom().contains(k));
                        }
                        return false;
                    }
                }
                proof {
                    lemma_same_members(a@, b@);
                }
                true
            },
            _ => false,
        }
    }
}

/// A number with the sign of a zero left out.
pub open spec fn unsigned_zero(number: Seq<char>) -> Seq<char> {
    if number == "-0.0"@ {
        "0.0"@
    } else {
        number
    }
}

/// A value with the sign of every zero in it left out.
pub open spec fn normal(v: JsonView) -> JsonView
    decreases v,
{
    match v {
        JsonView::Number(t) => JsonView::Number(unsigned_zero(t)),
        JsonView::Array(s) => JsonView::Array(
            Seq::new(
                s.len(),
                |i: int|
                    if 0 <= i < s.len() {
                        normal(s[i])
                    } else {
                        JsonView::Null
                    },
            ),
        ),
        JsonView::Object(m) => JsonView::Object(
            Map::new(
                |k: Seq<char>| m.dom().contains(k),
                |k: Seq<char>|
                    if m.dom().contains(k) {
                        normal(m[k])
                    } else {
                        JsonView::Null
                    },
            ),
        ),
        other => other,
    }
}

/// Whether two values are equal: they are the same, but that a zero may have a sign in one
/// and not in the other.
pub open spec fn equal(a: JsonView, b: JsonView) -> bool {
    normal(a) == normal(b)
}

/// The items of an array with the sign of every zero left out.
pub open spec fn normals(s: Seq<JsonView>) -> Seq<JsonView> {
    Seq::new(s.len(), |i: int| normal(s[i]))
}

/// The members of an object with the sign of every zero left out.
pub open spec fn normal_members(m: Map<Seq<char>, JsonView>) -> Map<Seq<char>, JsonView> {
    Map::new(|k: Seq<char>| m.dom().contains(k), |k: Seq<char>| normal(m[k]))
}

proof fn lemma_normal_array(s: Seq<JsonView>)
    ensures
        normal(JsonView::Array(s)) == JsonView::Array(normals(s)),
{
    assert(normal(JsonView::Array(s))->Array_0 =~= normals(s));
}

proof fn lemma_normal_object(m: Map<Seq<char>, JsonView>)
    ensures
        normal(JsonView::Object(m)) == JsonView::Object(normal_members(m)),
{
    assert(normal(JsonView::Object(m))->Object_0 =~= normal_members(m));
}

/// Whether two lists of members hold equal values under `key`.
spec fn agree_on(a: Seq<(String, Json)>, b: Seq<(String, Json)>, key: Seq<char>) -> bool {
    let (p, q) = (last_position(a, key), last_position(b, key));
    p >= 0 && q >= 0 && equal(a[p].1@, b[q].1@)
}

proof fn lemma_same_members(a: Seq<(String, Json)>, b: Seq<(String, Json)>)
    requires
        forall|j: int| 0 <= j < a.len() ==> agree_on(a, b, (#[trigger] a[j]).0@),
        forall|j: int| 0 <= j < b.len() ==> last_position(a, (#[trigger] b[j]).0@) >= 0,
    ensures
        normal_members(members_view(a)) == normal_members(members_view(b)),
{
    broadcast use lemma_last_position;

    let (x, y) = (normal_members(members_view(a)), normal_members(members_view(b)));
    assert forall|k: Seq<char>| x.dom().contains(k) <==> y.dom().contains(k) by {
        let (p, q) = (last_position(a, k), last_position(b, k));
        if p >= 0 {
            assert(agree_on(a, b, a[p].0@));
        }
        if q >= 0 {
            assert(last_position(a, b[q].0@) >= 0);
        }
    }
    assert forall|k: Seq<char>| #[trigger] x.dom().contains(k) implies x[k] == y[k] by {
        let p = last_position(a, k);
        assert(agree_on(a, b, a[p].0@));
    }
    assert(x =~= y);
}

// ---------------------------------------------------------------------------
// Text.
// ---------------------------------------------------------------------------

#[verifier::external_type_specification]
#[verifier::external_body]
pub struct ExValue(serde_json::Value);

/// The tree that a `serde_json::Value` holds. The object type of `serde_json` is
/// an ordered map here, so its members are a map.
pub uninterp spec fn value_tree(v: serde_json::Value) -> JsonView;

/// What `serde_json::from_str` makes of a text: the tree of the value, or what
/// the error says.
pub uninterp spec fn json_parsed(text: Seq<char>) -> Result<JsonView, Seq<char>>;

/// Whether a text is read as a value.
pub open spec fn reads_as(text: Seq<char>, v: JsonView) -> bool {
    json_parsed(text) == Ok::<JsonView, Seq<char>>(v)
}

/// What `serde_json::to_string` prints for a value.
pub uninterp spec fn compact_text(v: JsonView) -> Seq<char>;

/// What `serde_json::to_string_pretty` prints for a value.
pub uninterp spec fn pretty_text(v: JsonView) -> Seq<char>;

/// Whether arrays and objects stand in one another at most `room` deep.
pub open spec fn nests_within(v: JsonView, room: nat) -> bool
    decreases room,
{
    match v {
        JsonView::Array(s) => room > 0 && forall|i: int|
            0 <= i < s.len() ==> nests_within(#[trigger] s[i], (room - 1) as nat),
        JsonView::Object(m) => room > 0 && forall|k: Seq<char>| #[trigger]
            m.dom().contains(k) ==> nests_within(m[k], (room - 1) as nat),
        _ => true,
    }
}

/// The variants of `serde_json::Value`, one for one. A number keeps the text
/// that `serde_json::Number` prints; with its feature `float_roundtrip`,
/// `serde_json` reads it back as the same number.
#[verifier::external_body]
pub(crate) fn value_of(j: &Json) -> (v: serde_json::Value)
    ensures
        value_tree(v) == j@,
{
    match j {
        Json::Null => serde_json::Value::Null,
        Json::Bool(b) => serde_json::Value::Bool(*b),
        Json::Number(n) => serde_json::from_str(&n.text).unwrap_or_default(),
        Json::Text(s) => serde_json::Value::String(s.clone()),
        Json::Array(v) => serde_json::Value::Array(v.iter().map(value_of).collect()),
        Json::Object(v) => v.iter().map(|(k, x)| (k.clone(), value_of(x))).collect(),
    }
}

/// The variants of `serde_json::Value`, one for one.
#[verifier::external_body]
fn json_of(v: &serde_json::Value) -> (j: Json)
    ensures
        j@ == value_tree(*v),
{
    match v {
        serde_json::Value::Null => Json::Null,
        serde_json::Value::Bool(b) => Json::Bool(*b),
        serde_json::Value::Number(n) => Json::Number(JsonNumber { text: n.to_string() }),
        serde_json::Value::String(s) => Json::Text(s.clone()),
        serde_json::Value::Array(a) => Json::Array(a.iter().map(json_of).collect()),
        serde_json::Value::Object(o) => {
            Json::Object(o.iter().map(|(k, x)| (k.clone(), json_of(x))).collect())
        },
    }
}

/// `serde_json::from_str` into a `serde_json::Value`. The outcome depends on the
/// text alone; an error is carried as its message. Of arrays and objects that stand
/// in one another, it reads no more than 127.
#[verifier::external_body]
fn value_from_str(text: &str) -> (r: Result<serde_json::Value, String>)
    ensures
        match r {
            Ok(v) => json_parsed(text@) == Ok::<JsonView, Seq<char>>(value_tree(v)),
            Err(e) => json_parsed(text@) == Err::<JsonView, Seq<char>>(e@),
        },
        r matches Ok(v) ==> nests_within(value_tree(v), 127),
{
    serde_json::from_str(text).map_err(|e: serde_json::Error| e.to_string())
}

/// What `serde_json::from_slice` makes of bytes: the tree of the value, or what
/// the error says.
pub uninterp spec fn json_parsed_bytes(bytes: Seq<u8>) -> Result<JsonView, Seq<char>>;

/// `serde_json::from_slice` into a `serde_json::Value`. The outcome depends on
/// the bytes alone; an error is carried as its message. The bytes of a text are read
/// as the text is.
#[verifier::external_body]
fn value_from_slice(bytes: &[u8]) -> (r: Result<serde_json::Value, String>)
    ensures
        match r {
            Ok(v) => json_parsed_bytes(bytes@) == Ok::<JsonView, Seq<char>>(value_tree(v)),
            Err(e) => json_parsed_bytes(bytes@) == Err::<JsonView, Seq<char>>(e@),
        },
        forall|text: Seq<char>|
            bytes@ == #[trigger] encode_utf8(text) ==> match r {
                Ok(v) => reads_as(text, value_tree(v)),
                Err(_) => json_parsed(text) is Err,
            },
{
    serde_json::from_slice(bytes).map_err(|e: serde_json::Error| e.to_string())
}

/// `serde_json::to_string` of a `serde_json::Value`, whose keys are strings, so
/// that it cannot fail. The text depends on the tree alone. `serde_json::from_str`
/// reads it back, unless arrays and objects nest too deeply for it.
#[verifier::external_body]
fn value_to_string(v: &serde_json::Value) -> (r: String)
    ensures
        r@ == compact_text(value_tree(*v)),
        nests_within(value_tree(*v), 127) ==> reads_as(r@, value_tree(*v)),
{
    serde_json::to_string(v).unwrap_or_default()
}

/// `serde_json::to_string_pretty` of a `serde_json::Value`, whose keys are
/// strings, so that it cannot fail. The text depends on the tree alone.
/// `serde_json::from_str` reads it back, with a line feed behind it or without,
/// unless arrays and objects nest too deeply for it.
#[verifier::external_body]
fn value_to_string_pretty(v: &serde_json::Value) -> (r: String)
    ensures
        r@ == pretty_text(value_tree(*v)),
        nests_within(value_tree(*v), 127) ==> reads_as(r@, value_tree(*v)) && reads_as(
            r@ + "\n"@,
            value_tree(*v),
        ),
{
    serde_json::to_string_pretty(v).unwrap_or_default()
}

/// The value that a text writes down, or what is wrong with the text.
pub fn parse(text: &str) -> (r: Result<Json, String>)
    ensures
        match r {
            Ok(v) => json_parsed(text@) == Ok::<JsonView, Seq<char>>(v@),
            Err(e) => json_parsed(text@) == Err::<JsonView, Seq<char>>(e@),
        },
        r matches Ok(v) ==> nests_within(v@, 127),
{
    match value_from_str(text) {
        Ok(v) => Ok(json_of(&v)),
        Err(e) => Err(e),
    }
}

/// The value that bytes write down, or what is wrong with them.
pub fn parse_bytes(bytes: &[u8]) -> (r: Result<Json, String>)
    ensures
        match r {
            Ok(v) => json_parsed_bytes(bytes@) == Ok::<JsonView, Seq<char>>(v@),
            Err(e) => json_parsed_bytes(bytes@) == Err::<JsonView, Seq<char>>(e@),
        },
        forall|text: Seq<char>|
            bytes@ == #[trigger] encode_utf8(text) ==> match r {
                Ok(v) => reads_as(text, v@),
                Err(_) => json_parsed(text) is Err,
            },
{
    match value_from_slice(bytes) {
        Ok(v) => Ok(json_of(&v)),
        Err(e) => Err(e),
    }
}

/// The text of a value on one line.
pub fn to_text(v: &Json) -> (r: String)
    ensures
        r@ == compact_text(v@),
        nests_within(v@, 127) ==> reads_as(r@, v@),
{
    value_to_string(&value_of(v))
}

/// The text of a value, indented. It is read back as the value, with a line feed behind
/// it or without, unless arrays and objects nest too deeply for that.
pub fn to_pretty_text(v: &Json) -> (r: String)
    ensures
        r@ == pretty_text(v@),
        nests_within(v@, 127) ==> reads_as(r@, v@) && reads_as(r@ + "\n"@, v@),
{
    value_to_string_pretty(&value_of(v))
}

/// Two values are equal just if they are of one kind and say the same: the same truth value,
/// the same text, the same number but for the sign of a zero, the same items in the same
/// order, or the same members.
pub proof fn law_equal_values(a: JsonView, b: JsonView)
    ensures
        equal(a, a),
        equal(a, b) ==> equal(b, a),
        equal(a, b) <==> match (a, b) {
            (JsonView::Null, JsonView::Null) => true,
            (JsonView::Bool(x), JsonView::Bool(y)) => x == y,
            (JsonView::Text(x), JsonView::Text(y)) => x == y,
            (JsonView::Number(x), JsonView::Number(y)) => x == y || (x == "0.0"@ && y == "-0.0"@)
                || (x == "-0.0"@ && y == "0.0"@),
            (JsonView::Array(x), JsonView::Array(y)) => x.len() == y.len() && forall|i: int|
                0 <= i < x.len() ==> equal(#[trigger] x[i], y[i]),
            (JsonView::Object(x), JsonView::Object(y)) => (forall|k: Seq<char>| #[trigger]
                x.dom().contains(k) <==> y.dom().contains(k)) && (forall|k: Seq<char>| #[trigger]
                x.dom().contains(k) ==> equal(x[k], y[k])),
            _ => false,
        },
{
    match (a, b) {
        (JsonView::Array(x), JsonView::Array(y)) => {
            lemma_normal_array(x);
            lemma_normal_array(y);
            if equal(a, b) {
                assert(normals(x).len() == normals(y).len());
                assert forall|i: int| 0 <= i < x.len() implies equal(#[trigger] x[i], y[i]) by {
                    assert(normals(x)[i] == normals(y)[i]);
                }
            } else if x.len() == y.len() && (forall|i: int|
                0 <= i < x.len() ==> equal(#[trigger] x[i], y[i])) {
                assert(normals(x) =~= normals(y));
            }
        },
        (JsonView::Object(x), JsonView::Object(y)) => {
            lemma_normal_object(x);
            lemma_normal_object(y);
            let (p, q) = (normal_members(x), normal_members(y));
            if equal(a, b) {
                assert forall|k: Seq<char>| #[trigger]
                    x.dom().contains(k) <==> y.dom().contains(k) by {
                    assert(p.dom().contains(k) <==> q.dom().contains(k));
                }
                assert forall|k: Seq<char>| #[trigger] x.dom().contains(k) implies equal(
                    x[k],
                    y[k],
                ) by {
                    assert(p[k] == q[k]);
                }
            } else if (forall|k: Seq<char>| #[trigger]
                x.dom().contains(k) <==> y.dom().contains(k)) && (forall|k: Seq<char>| #[trigger]
                x.dom().contains(k) ==> equal(x[k], y[k])) {
                assert(p =~= q);
            }
        },
        _ => {},
    }
}

} // verus!
