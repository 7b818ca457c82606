//! JSON values and the key/value maps the Inertia protocol builds pages from.
use vstd::prelude::*;
use serde_json::Value;
use crate::text::texts;

verus! {

/// Declares `serde_json::Value`, which props carry through the library
/// without looking inside.
#[verifier::external_type_specification]
#[verifier::external_body]
pub struct ExJsonValue(serde_json::Value);

/// `serde_json::Value::clone`: the derived clone, which gives back an equal value.
#[verifier::external_body]
pub fn json_clone(v: &Value) -> (r: Value)
    ensures
        r == *v,
{
    v.clone()
}

/// Whether two texts hold the same characters.
pub fn same_text(a: &str, b: &str) -> (r: bool)
    ensures
        r == (a@ == b@),
{
    broadcast use vstd::string::group_string_axioms;
    let x = a.to_string();
    let y = b.to_string();
    x == y
}

/// Declares `serde_json::Map`, the member map of a JSON object.
#[verifier::external_type_specification]
#[verifier::external_body]
#[verifier::reject_recursive_types(K)]
#[verifier::reject_recursive_types(V)]
pub struct ExJsonMap<K, V>(serde_json::Map<K, V>);

/// The members a `serde_json::Map` holds, by key.
pub uninterp spec fn json_map_contents(m: serde_json::Map<String, Value>) -> Map<Seq<char>, Value>;

/// `serde_json::Map::new`: no members.
#[verifier::external_body]
fn json_map_new() -> (m: serde_json::Map<String, Value>)
    ensures
        json_map_contents(m).dom() =~= Set::<Seq<char>>::empty(),
{
    serde_json::Map::new()
}

/// `serde_json::Map::insert`: `key` now holds `value`; the value it held
/// before is given back.
#[verifier::external_body]
fn json_map_insert(m: &mut serde_json::Map<String, Value>, key: String, value: Value) -> (r: Option<Value>)
    ensures
        json_map_contents(*final(m)) == json_map_contents(*old(m)).insert(key@, value),
        match r {
            Some(v) => json_map_contents(*old(m)).contains_key(key@) && v == json_map_contents(*old(m))[key@],
            None => !json_map_contents(*old(m)).contains_key(key@),
        },
{
    m.insert(key, value)
}

/// `serde_json::Map::remove`: `key` no longer holds anything; what it held
/// is given back.
#[verifier::external_body]
fn json_map_remove(m: &mut serde_json::Map<String, Value>, key: &str) -> (r: Option<Value>)
    ensures
        json_map_contents(*final(m)) == json_map_contents(*old(m)).remove(key@),
        match r {
            Some(v) => json_map_contents(*old(m)).contains_key(key@) && v == json_map_contents(*old(m))[key@],
            None => !json_map_contents(*old(m)).contains_key(key@),
        },
{
    m.remove(key)
}

/// `serde_json::Map::get`: the value `key` holds.
#[verifier::external_body]
fn json_map_get<'a>(m: &'a serde_json::Map<String, Value>, key: &str) -> (r: Option<&'a Value>)
    ensures
        match r {
            Some(v) => json_map_contents(*m).contains_key(key@) && *v == json_map_contents(*m)[key@],
            None => !json_map_contents(*m).contains_key(key@),
        },
{
    m.get(key)
}

/// `serde_json::Map::len`: the number of members.
#[verifier::external_body]
fn json_map_len(m: &serde_json::Map<String, Value>) -> (r: usize)
    ensures
        r == json_map_contents(*m).dom().len(),
{
    m.len()
}

/// `serde_json::Map::keys`, the keys copied out: each key once.
#[verifier::external_body]
fn json_map_keys(m: &serde_json::Map<String, Value>) -> (r: Vec<String>)
    ensures
        texts(r@).no_duplicates(),
        texts(r@).to_set() == json_map_contents(*m).dom(),
{
    m.keys().cloned().collect()
}

/// `serde_json::Map::clone`: the same members, each value cloned.
#[verifier::external_body]
fn json_map_clone(m: &serde_json::Map<String, Value>) -> (r: serde_json::Map<String, Value>)
    ensures
        json_map_contents(r) == json_map_contents(*m),
{
    m.clone()
}

/// `<serde_json::Map as Extend<(String, Value)>>::extend`: every member of
/// `other` is inserted, so on a shared key the value of `other` wins.
#[verifier::external_body]
fn json_map_extend(m: &mut serde_json::Map<String, Value>, other: serde_json::Map<String, Value>)
    ensures
        json_map_contents(*final(m)) == json_map_contents(*old(m)).union_prefer_right(json_map_contents(other)),
{
    m.extend(other)
}

/// The JSON object whose members are exactly the pairs of `m`; a name for what
/// serde_json builds from a finite key/value collection.
pub uninterp spec fn json_object_value(m: Map<Seq<char>, Value>) -> Value;

/// The members of `v` when it is a JSON object.
pub open spec fn object_contents(v: Value) -> Option<Map<Seq<char>, Value>> {
    if exists|m: Map<Seq<char>, Value>| m.dom().finite() && json_object_value(m) == v {
        Some(choose|m: Map<Seq<char>, Value>| m.dom().finite() && json_object_value(m) == v)
    } else {
        None
    }
}

/// `<serde_json::Value as From<serde_json::Map<String, Value>>>::from`: the
/// object with these members, which are finitely many; two objects are equal
/// exactly when their members are.
#[verifier::external_body]
fn json_object_from_map(m: serde_json::Map<String, Value>) -> (r: Value)
    ensures
        r == json_object_value(json_map_contents(m)),
        object_contents(r) == Some(json_map_contents(m)),
{
    Value::from(m)
}

/// Tells a `serde_json::Value::Object` from the other variants, handing out
/// the object's member map, or the value itself unchanged when it is no
/// object.
#[verifier::external_body]
fn json_object_map(v: Value) -> (r: Result<serde_json::Map<String, Value>, Value>)
    ensures
        match r {
            Ok(m) => v == json_object_value(json_map_contents(m)) && object_contents(v) == Some(json_map_contents(m)),
            Err(w) => w == v && object_contents(w) is None,
        },
{
    match v {
        Value::Object(m) => Ok(m),
        other => Err(other),
    }
}

/// The members of a JSON object under construction, each key once.
pub struct PropMap {
    inner: serde_json::Map<String, Value>,
}

impl PropMap {
    pub closed spec fn view(self) -> Map<Seq<char>, Value> {
        json_map_contents(self.inner)
    }

    /// An empty map.
    pub fn new() -> (m: PropMap)
        ensures
            m.view() == Map::<Seq<char>, Value>::empty(),
    {
        PropMap { inner: json_map_new() }
    }

    /// Number of keys.
    pub fn len(&self) -> (n: usize)
        ensures
            n == self.view().dom().len(),
    {
        json_map_len(&self.inner)
    }

    /// Whether `key` has a value.
    pub fn contains_key(&self, key: &str) -> (r: bool)
        ensures
            r == self.view().dom().contains(key@),
    {
        json_map_get(&self.inner, key).is_some()
    }

    /// The value held for `key`.
    pub fn get(&self, key: &str) -> (r: Option<&Value>)
        ensures
            match r {
                Some(v) => self.view().dom().contains(key@) && *v == self.view()[key@],
                None => !self.view().dom().contains(key@),
            },
    {
        json_map_get(&self.inner, key)
    }

    /// Sets `key` to `value`, replacing what it held before.
    pub fn insert(&mut self, key: String, value: Value)
        ensures
            final(self).view() == old(self).view().insert(key@, value),
    {
        let _ = json_map_insert(&mut self.inner, key, value);
    }

    /// Removes `key`, giving back what it held.
    pub fn remove(&mut self, key: &str) -> (r: Option<Value>)
        ensures
            final(self).view() == old(self).view().remove(key@),
            match r {
                Some(v) => old(self).view().dom().contains(key@) && v == old(self).view()[key@],
                None => !old(self).view().dom().contains(key@),
            },
    {
        json_map_remove(&mut self.inner, key)
    }

    /// The members of `v` when it is a JSON object, else `v` back.
    pub fn from_json(v: Value) -> (r: Result<PropMap, Value>)
        ensures
            match r {
                Ok(m) => object_contents(v) == Some(m.view()),
                Err(w) => w == v && object_contents(v) is None,
            },
    {
        match json_object_map(v) {
            Ok(m) => Ok(PropMap { inner: m }),
            Err(w) => Err(w),
        }
    }

    /// The JSON object holding these members.
    pub fn into_json(self) -> (r: Value)
        ensures
            r == json_object_value(self.view()),
            object_contents(r) == Some(self.view()),
    {
        let PropMap { inner } = self;
        json_object_from_map(inner)
    }

    /// A copy with every value cloned.
    pub fn duplicate(&self) -> (r: PropMap)
        ensures
            r.view() == self.view(),
    {
        PropMap { inner: json_map_clone(&self.inner) }
    }

    /// Adds every member of `other`; on a shared key the value of `other` wins.
    pub fn extend(&mut self, other: PropMap)
        ensures
            final(self).view() == old(self).view().union_prefer_right(other.view()),
    {
        json_map_extend(&mut self.inner, other.inner);
    }

    /// The members whose keys are listed in `keys`, values cloned.
    pub fn restricted_to(&self, keys: &[String]) -> (r: PropMap)
        ensures
            r.view() == self.view().restrict(key_set(keys@)),
    {
        let names = json_map_keys(&self.inner);
        let ghost all = self.view();
        let mut out = PropMap::new();
        let mut i: usize = 0;
        proof {
            assert(out.view() =~= all.restrict(texts(names@).take(0).to_set().intersect(key_set(keys@))));
        }
        while i < names.len()
            invariant
                i <= names.len(),
                all == self.view(),
                texts(names@).to_set() == all.dom(),
                out.view() == all.restrict(texts(names@).take(i as int).to_set().intersect(key_set(keys@))),
            decreases names.len() - i,
        {
            let ghost k = names@[i as int]@;
            proof {
                assert(texts(names@)[i as int] == k);
                assert(all.dom().contains(k));
                assert(texts(names@).take(i + 1) =~= texts(names@).take(i as int).push(k));
                texts(names@).take(i as int).lemma_push_to_set_commute(k);
            }
            if list_contains(keys, names[i].as_str()) {
                match self.get(names[i].as_str()) {
                    Some(v) => {
                        let v2 = json_clone(v);
                        out.insert(names[i].clone(), v2);
                    },
                    None => {},
                }
            }
            proof {
                assert(out.view() =~= all.restrict(texts(names@).take(i + 1).to_set().intersect(key_set(keys@))));
            }
            i = i + 1;
        }
        proof {
            assert(texts(names@).take(i as int) =~= texts(names@));
            assert(out.view() =~= all.restrict(key_set(keys@)));
        }
        out
    }
}

/// The texts of a list of strings, as a set.
pub open spec fn key_set(keys: Seq<String>) -> Set<Seq<char>> {
    Set::new(|k: Seq<char>| exists|i: int| 0 <= i < keys.len() && keys[i]@ == k)
}

/// Whether `key` is one of `keys`.
pub fn list_contains(keys: &[String], key: &str) -> (r: bool)
    ensures
        r == key_set(keys@).contains(key@),
{
    let mut i: usize = 0;
    while i < keys.len()
        invariant
            i <= keys.len(),
            forall|j: int| 0 <= j < i ==> keys@[j]@ != key@,
        decreases keys.len() - i,
    {
        if same_text(keys[i].as_str(), key) {
            return true;
        }
        i = i + 1;
    }
    false
}



/// The JSON string holding `s`; a name for what `serde_json::Value::from(String)` gives.
pub uninterp spec fn json_string_value(s: Seq<char>) -> Value;

/// `<serde_json::Value as From<String>>::from`: the string value.
#[verifier::external_body]
pub(crate) fn json_from_string(s: String) -> (r: Value)
    ensures
        r == json_string_value(s@),
{
    Value::from(s)
}

/// `serde_json::Value::as_str`, the text copied out: the text of a JSON
/// string, `None` for any other value. Two strings are equal exactly when
/// their texts are.
#[verifier::external_body]
pub(crate) fn json_as_string(v: &Value) -> (r: Option<String>)
    ensures
        match r {
            Some(t) => {
                &&& *v == json_string_value(t@)
                &&& forall|u: Seq<char>| #[trigger] json_string_value(u) == *v ==> u == t@
            },
            None => forall|u: Seq<char>| #[trigger] json_string_value(u) != *v,
        },
{
    v.as_str().map(|t| t.to_string())
}

/// `null` for `None`, else the JSON string; a name for what
/// `serde_json::Value::from(Option<String>)` gives.
pub uninterp spec fn json_nullable_string(s: Option<Seq<char>>) -> Value;

/// `<serde_json::Value as From<Option<String>>>::from`: `null` for `None`,
/// and for `Some(s)` the same value as `Value::from(s)`.
#[verifier::external_body]
pub(crate) fn json_from_optional_string(s: Option<String>) -> (r: Value)
    ensures
        r == json_nullable_string(
            match s {
                Some(x) => Some(x@),
                None => None,
            },
        ),
        s matches Some(x) ==> r == json_string_value(x@),
{
    Value::from(s)
}

/// The compact JSON text of `v`; a name for what serde_json's `Display` writes.
pub uninterp spec fn json_text(v: Value) -> Seq<char>;

/// `<serde_json::Value as ToString>::to_string`: the compact JSON text.
#[verifier::external_body]
pub(crate) fn json_to_text(v: &Value) -> (r: String)
    ensures
        r@ == json_text(*v),
{
    v.to_string()
}

/// The JSON value that `s` holds, or `None` when `s` is not JSON; a name for
/// what `serde_json::from_str::<Value>` gives.
pub uninterp spec fn json_parse(s: Seq<char>) -> Option<Value>;

/// `serde_json::from_str::<serde_json::Value>`, its error dropped.
#[verifier::external_body]
pub(crate) fn json_from_text(s: &str) -> (r: Option<Value>)
    ensures
        r == json_parse(s@),
{
    serde_json::from_str::<Value>(s).ok()
}

} // verus!
