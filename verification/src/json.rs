//! A JSON document model: the values that command declarations are written in.
//!
//! `JsonValue` is the executable document; `JsonView` is its mathematical reading, in which
//! strings are character sequences and objects are ordered sequences of key/value pairs.
//! An object may in principle hold a key twice; every lookup takes the first occurrence, and
//! every insertion updates the first occurrence in place or appends a new pair.
use vstd::prelude::*;

verus! {

/// The mathematical reading of a JSON document.
pub enum JsonView {
    Null,
    Bool(bool),
    Int(int),
    Number(Seq<char>),
    Str(Seq<char>),
    Array(Seq<JsonView>),
    Object(Seq<(Seq<char>, JsonView)>),
}

/// A JSON document.
///
/// Integers that fit an `i64` are held as `Int`; every other number is held by its text.
#[derive(Debug, PartialEq)]
pub enum JsonValue {
    Null,
    Bool(bool),
    Int(i64),
    Number(String),
    Str(String),
    Array(Vec<JsonValue>),
    Object(Vec<JsonMember>),
}

/// One key/value pair of a JSON object.
#[derive(Debug, PartialEq)]
pub struct JsonMember {
    pub key: String,
    pub value: JsonValue,
}

impl JsonMember {
    pub open spec fn deep(self) -> (Seq<char>, JsonView) {
        (self.key@, self.value.deep())
    }
}

impl JsonValue {
    pub open spec fn deep(self) -> JsonView
        decreases self, 0nat,
    {
        match self {
            JsonValue::Null => JsonView::Null,
            JsonValue::Bool(b) => JsonView::Bool(b),
            JsonValue::Int(i) => JsonView::Int(i as int),
            JsonValue::Number(s) => JsonView::Number(s@),
            JsonValue::Str(s) => JsonView::Str(s@),
            JsonValue::Array(items) => {
                proof {
                    vstd::std_specs::vec::axiom_vec_decreases_to_view(items);
                }
                JsonView::Array(deep_items(items@, items@.len()))
            },
            JsonValue::Object(members) => {
                proof {
                    vstd::std_specs::vec::axiom_vec_decreases_to_view(members);
                }
                JsonView::Object(deep_members(members@, members@.len()))
            },
        }
    }
}

/// The readings of the first `n` documents.
pub open spec fn deep_items(items: Seq<JsonValue>, n: nat) -> Seq<JsonView>
    decreases items, n,
{
    if n == 0 || n > items.len() {
        Seq::empty()
    } else {
        proof {
            vstd::seq::axiom_seq_index_decreases(items, n - 1);
        }
        deep_items(items, (n - 1) as nat).push(items[n - 1].deep())
    }
}

/// The readings of the first `n` members.
pub open spec fn deep_members(members: Seq<JsonMember>, n: nat) -> Seq<(Seq<char>, JsonView)>
    decreases members, n,
{
    if n == 0 || n > members.len() {
        Seq::empty()
    } else {
        proof {
            vstd::seq::axiom_seq_index_decreases(members, n - 1);
        }
        deep_members(members, (n - 1) as nat).push((members[n - 1].key@, members[n - 1].value.deep()))
    }
}

pub proof fn lemma_deep_items(items: Seq<JsonValue>, n: nat)
    requires
        n <= items.len(),
    ensures
        deep_items(items, n) =~= Seq::new(n, |i: int| items[i].deep()),
    decreases n,
{
    if n > 0 {
        lemma_deep_items(items, (n - 1) as nat);
    }
}

pub proof fn lemma_deep_members(members: Seq<JsonMember>, n: nat)
    requires
        n <= members.len(),
    ensures
        deep_members(members, n) =~= Seq::new(n, |i: int| (members[i].key@, members[i].value.deep())),
    decreases n,
{
    if n > 0 {
        lemma_deep_members(members, (n - 1) as nat);
    }
}

/// The reading of a sequence of documents, element by element.
pub open spec fn items_view(items: Seq<JsonValue>) -> Seq<JsonView> {
    Seq::new(items.len(), |i: int| items[i].deep())
}

/// The reading of a sequence of members, pair by pair.
pub open spec fn members_view(members: Seq<JsonMember>) -> Seq<(Seq<char>, JsonView)> {
    Seq::new(members.len(), |i: int| (members[i].key@, members[i].value.deep()))
}

pub proof fn lemma_array_view(items: Vec<JsonValue>)
    ensures
        JsonValue::Array(items).deep() == JsonView::Array(items_view(items@)),
{
    lemma_deep_items(items@, items@.len());
    assert(deep_items(items@, items@.len()) =~= items_view(items@));
}

pub proof fn lemma_object_view(members: Vec<JsonMember>)
    ensures
        JsonValue::Object(members).deep() == JsonView::Object(members_view(members@)),
{
    lemma_deep_members(members@, members@.len());
    assert(deep_members(members@, members@.len()) =~= members_view(members@));
}

/// Index of the first pair whose key is `key`, searching from `start`.
pub open spec fn find_key_from(members: Seq<(Seq<char>, JsonView)>, key: Seq<char>, start: int) -> Option<int>
    decreases members.len() - start,
{
    if start < 0 || start >= members.len() {
        None
    } else if members[start].0 == key {
        Some(start)
    } else {
        find_key_from(members, key, start + 1)
    }
}

/// Index of the first pair whose key is `key`.
pub open spec fn find_key(members: Seq<(Seq<char>, JsonView)>, key: Seq<char>) -> Option<int> {
    find_key_from(members, key, 0)
}

/// The value of the first pair whose key is `key`.
pub open spec fn member_lookup(members: Seq<(Seq<char>, JsonView)>, key: Seq<char>) -> Option<JsonView> {
    match find_key(members, key) {
        Some(i) => Some(members[i].1),
        None => None,
    }
}

/// The value stored under `key` when `v` is an object.
pub open spec fn lookup(v: JsonView, key: Seq<char>) -> Option<JsonView> {
    match v {
        JsonView::Object(members) => member_lookup(members, key),
        _ => None,
    }
}

/// The members with `key` bound to `value`: the first pair with that key is replaced in place,
/// or a new pair is appended.
pub open spec fn set_member(
    members: Seq<(Seq<char>, JsonView)>,
    key: Seq<char>,
    value: JsonView,
) -> Seq<(Seq<char>, JsonView)> {
    match find_key(members, key) {
        Some(i) => members.update(i, (key, value)),
        None => members.push((key, value)),
    }
}

/// The string held by `v`, when it holds one.
pub open spec fn view_as_str(v: JsonView) -> Option<Seq<char>> {
    match v {
        JsonView::Str(s) => Some(s),
        _ => None,
    }
}

/// The string stored under `key` when `v` is an object and that value is a string.
pub open spec fn lookup_str(v: JsonView, key: Seq<char>) -> Option<Seq<char>> {
    match lookup(v, key) {
        Some(x) => view_as_str(x),
        None => None,
    }
}

pub proof fn lemma_find_key_from_bounds(members: Seq<(Seq<char>, JsonView)>, key: Seq<char>, start: int)
    requires
        0 <= start,
    ensures
        find_key_from(members, key, start) matches Some(i) ==> start <= i < members.len()
            && members[i].0 == key,
        find_key_from(members, key, start) is None ==> forall|j: int|
            start <= j < members.len() ==> #[trigger] members[j].0 != key,
    decreases members.len() - start,
{
    if start < 0 || start >= members.len() {
    } else if members[start].0 == key {
    } else {
        lemma_find_key_from_bounds(members, key, start + 1);
    }
}

pub proof fn lemma_find_key_first(members: Seq<(Seq<char>, JsonView)>, key: Seq<char>, start: int, i: int)
    requires
        0 <= start <= i < members.len(),
        members[i].0 == key,
        forall|j: int| start <= j < i ==> #[trigger] members[j].0 != key,
    ensures
        find_key_from(members, key, start) == Some(i),
    decreases i - start,
{
    if start < i {
        lemma_find_key_first(members, key, start + 1, i);
    }
}

pub proof fn lemma_find_key_none(members: Seq<(Seq<char>, JsonView)>, key: Seq<char>, start: int)
    requires
        0 <= start <= members.len(),
        forall|j: int| start <= j < members.len() ==> #[trigger] members[j].0 != key,
    ensures
        find_key_from(members, key, start) is None,
    decreases members.len() - start,
{
    if start < members.len() {
        lemma_find_key_none(members, key, start + 1);
    }
}

/// The first pair with `key` is found: at an index holding it with none before, or nowhere when
/// no pair holds it.
pub proof fn lemma_find_key(members: Seq<(Seq<char>, JsonView)>, key: Seq<char>)
    ensures
        match find_key(members, key) {
            Some(i) => 0 <= i < members.len() && members[i].0 == key && forall|j: int|
                0 <= j < i ==> #[trigger] members[j].0 != key,
            None => forall|j: int| 0 <= j < members.len() ==> #[trigger] members[j].0 != key,
        },
{
    lemma_find_key_from_bounds(members, key, 0);
    match find_key(members, key) {
        Some(i) => {
            assert forall|j: int| 0 <= j < i implies #[trigger] members[j].0 != key by {
                if members[j].0 == key {
                    lemma_find_key_first_any(members, key, 0, j);
                }
            }
        },
        None => {},
    }
}

/// Whenever some pair from `start` on holds `key`, the search finds one no later.
pub proof fn lemma_find_key_first_any(members: Seq<(Seq<char>, JsonView)>, key: Seq<char>, start: int, j: int)
    requires
        0 <= start <= j < members.len(),
        members[j].0 == key,
    ensures
        find_key_from(members, key, start) matches Some(i) && i <= j,
    decreases j - start,
{
    if members[start].0 != key {
        lemma_find_key_first_any(members, key, start + 1, j);
    }
}

/// After binding `key`, looking it up finds the new value.
pub proof fn lemma_lookup_set_same(members: Seq<(Seq<char>, JsonView)>, key: Seq<char>, value: JsonView)
    ensures
        member_lookup(set_member(members, key, value), key) == Some(value),
{
    let after = set_member(members, key, value);
    lemma_find_key(members, key);
    lemma_find_key(after, key);
    match find_key(members, key) {
        Some(i) => {
            assert(after[i].0 == key);
            if find_key(after, key) != Some(i) {
                match find_key(after, key) {
                    Some(k) => {
                        if k < i {
                            assert(after[k] == members[k]);
                        }
                    },
                    None => {},
                }
            }
        },
        None => {
            let n = members.len() as int;
            assert(after[n].0 == key);
            match find_key(after, key) {
                Some(k) => {
                    if k < n {
                        assert(after[k] == members[k]);
                    }
                },
                None => {},
            }
        },
    }
}

/// Binding `key` leaves every other key's value as it was.
pub proof fn lemma_lookup_set_other(members: Seq<(Seq<char>, JsonView)>, key: Seq<char>, value: JsonView, other: Seq<char>)
    requires
        other != key,
    ensures
        member_lookup(set_member(members, key, value), other) == member_lookup(members, other),
{
    let after = set_member(members, key, value);
    lemma_find_key(members, key);
    lemma_find_key(members, other);
    lemma_find_key(after, other);
    assert forall|j: int| 0 <= j < members.len() implies (#[trigger] after[j]).0 == other <==> members[j].0 == other by {
        match find_key(members, key) {
            Some(i) => {
                if j == i {
                } else {
                    assert(after[j] == members[j]);
                }
            },
            None => {
                assert(after[j] == members[j]);
            },
        }
    }
    match find_key(members, key) {
        Some(i) => {
            assert(after.len() == members.len());
        },
        None => {
            assert(after[members.len() as int].0 != other);
        },
    }
    match find_key(members, other) {
        Some(m) => {
            match find_key(after, other) {
                Some(k) => {
                    assert(after[k].0 == other);
                    if k < m {
                        assert(members[k].0 == other);
                    } else if k > m {
                        assert(after[m].0 == other);
                    }
                    assert(k == m);
                    match find_key(members, key) {
                        Some(i) => {
                            assert(i != m);
                            assert(after[m] == members[m]);
                        },
                        None => {
                            assert(after[m] == members[m]);
                        },
                    }
                },
                None => {
                    assert(after[m].0 == other);
                },
            }
        },
        None => {
            match find_key(after, other) {
                Some(k) => {
                    if k < members.len() {
                        assert(members[k].0 == other);
                    }
                },
                None => {},
            }
        },
    }
}

/// Binding a key to the value it already has changes nothing.
pub proof fn lemma_set_member_same(members: Seq<(Seq<char>, JsonView)>, key: Seq<char>, value: JsonView)
    requires
        member_lookup(members, key) == Some(value),
    ensures
        set_member(members, key, value) == members,
{
    lemma_find_key(members, key);
    let i = find_key(members, key)->0;
    assert(members.update(i, (key, value)) =~= members);
}

/// Whether two character sequences held in strings are equal.
pub fn str_eq(a: &str, b: &str) -> (r: bool)
    ensures
        r == (a@ == b@),
{
    let x = a.to_owned();
    let y = b.to_owned();
    x == y
}

/// Index of the first member whose key is `key`.
pub fn find_member(members: &Vec<JsonMember>, key: &str) -> (r: Option<usize>)
    ensures
        r matches Some(i) ==> i < members.len() && find_key(members_view(members@), key@) == Some(
            i as int,
        ) && members@[i as int].key@ == key@,
        r is None ==> find_key(members_view(members@), key@) is None,
{
    let ghost mv = members_view(members@);
    let mut i: usize = 0;
    while i < members.len()
        invariant
            0 <= i <= members.len(),
            mv == members_view(members@),
            forall|j: int| 0 <= j < i ==> #[trigger] mv[j].0 != key@,
        decreases members.len() - i,
    {
        if str_eq(members[i].key.as_str(), key) {
            proof {
                lemma_find_key_first(mv, key@, 0, i as int);
            }
            return Some(i);
        }
        i = i + 1;
    }
    proof {
        lemma_find_key_none(mv, key@, 0);
    }
    None
}

impl JsonValue {
    /// A copy of this document that reads the same.
    pub fn duplicate(&self) -> (r: JsonValue)
        ensures
            r.deep() == self.deep(),
        decreases self,
    {
        match self {
            JsonValue::Null => JsonValue::Null,
            JsonValue::Bool(b) => JsonValue::Bool(*b),
            JsonValue::Int(i) => JsonValue::Int(*i),
            JsonValue::Number(s) => JsonValue::Number(s.clone()),
            JsonValue::Str(s) => JsonValue::Str(s.clone()),
            JsonValue::Array(items) => {
                let mut out: Vec<JsonValue> = Vec::new();
                let mut i: usize = 0;
                while i < items.len()
                    invariant
                        0 <= i <= items.len(),
                        *self == JsonValue::Array(*items),
                        out.len() == i,
                        forall|j: int| 0 <= j < i ==> (#[trigger] out[j]).deep() == items[j].deep(),
                    decreases items.len() - i,
                {
                    proof {
                        vstd::std_specs::vec::axiom_vec_index_decreases(*items, i as int);
                    }
                    let e = &items[i];
                    proof {
                        assert(*e == items@[i as int]);
                        assert(decreases_to!(*items => items@[i as int]));
                        assert(decreases_to!(*self => (*self)->Array_0));
                    }
                    let c = e.duplicate();
                    out.push(c);
                    i = i + 1;
                }
                proof {
                    lemma_array_view(out);
                    lemma_array_view(*items);
                    assert(items_view(out@) =~= items_view(items@));
                }
                JsonValue::Array(out)
            },
            JsonValue::Object(members) => {
                let mut out: Vec<JsonMember> = Vec::new();
                let mut i: usize = 0;
                while i < members.len()
                    invariant
                        0 <= i <= members.len(),
                        *self == JsonValue::Object(*members),
                        out.len() == i,
                        forall|j: int|
                            0 <= j < i ==> (#[trigger] out[j]).key@ == members[j].key@
                                && out[j].value.deep() == members[j].value.deep(),
                    decreases members.len() - i,
                {
                    let k = members[i].key.clone();
                    proof {
                        vstd::std_specs::vec::axiom_vec_index_decreases(*members, i as int);
                    }
                    let e = &members[i];
                    proof {
                        assert(*e == members@[i as int]);
                        assert(decreases_to!(*members => members@[i as int]));
                        assert(decreases_to!(*self => (*self)->Object_0));
                        assert(decreases_to!(members@[i as int] => members@[i as int].value));
                    }
                    let v = e.value.duplicate();
                    out.push(JsonMember { key: k, value: v });
                    i = i + 1;
                }
                proof {
                    lemma_object_view(out);
                    lemma_object_view(*members);
                    assert(members_view(out@) =~= members_view(members@));
                }
                JsonValue::Object(out)
            },
        }
    }

    pub fn is_null(&self) -> (r: bool)
        ensures
            r == (self.deep() is Null),
    {
        match self {
            JsonValue::Null => true,
            _ => false,
        }
    }

    pub fn is_object(&self) -> (r: bool)
        ensures
            r == (self.deep() is Object),
    {
        match self {
            JsonValue::Object(_) => true,
            _ => false,
        }
    }

    pub fn is_array(&self) -> (r: bool)
        ensures
            r == (self.deep() is Array),
    {
        match self {
            JsonValue::Array(_) => true,
            _ => false,
        }
    }

    /// The string this value holds, if it is a string.
    pub fn as_str(&self) -> (r: Option<&String>)
        ensures
            r matches Some(s) ==> view_as_str(self.deep()) == Some(s@),
            r is None ==> view_as_str(self.deep()) is None,
    {
        match self {
            JsonValue::Str(s) => Some(s),
            _ => None,
        }
    }

    /// The boolean this value holds, if it is a boolean.
    pub fn as_bool(&self) -> (r: Option<bool>)
        ensures
            r == (match self.deep() {
                JsonView::Bool(b) => Some(b),
                _ => None,
            }),
    {
        match self {
            JsonValue::Bool(b) => Some(*b),
            _ => None,
        }
    }

    /// The elements of this value, if it is an array.
    pub fn as_array(&self) -> (r: Option<&Vec<JsonValue>>)
        ensures
            r matches Some(items) ==> self.deep() == JsonView::Array(items_view(items@)),
            r is None ==> !(self.deep() is Array),
    {
        match self {
            JsonValue::Array(items) => {
                proof {
                    lemma_array_view(*items);
                }
                Some(items)
            },
            _ => None,
        }
    }

    /// The number of elements when this value is an array.
    pub fn array_len(&self) -> (r: Option<usize>)
        ensures
            r matches Some(n) ==> self.deep() matches JsonView::Array(s) && s.len() == n,
            r is None ==> !(self.deep() is Array),
    {
        match self {
            JsonValue::Array(items) => {
                proof {
                    lemma_array_view(*items);
                }
                Some(items.len())
            },
            _ => None,
        }
    }

    /// The element at `index` when this value is an array that long.
    pub fn at(&self, index: usize) -> (r: Option<&JsonValue>)
        ensures
            r matches Some(v) ==> self.deep() matches JsonView::Array(s) && index < s.len() && v.deep() == s[index as int],
            r is None ==> !(self.deep() matches JsonView::Array(s) && index < s.len()),
    {
        match self {
            JsonValue::Array(items) => {
                proof {
                    lemma_array_view(*items);
                }
                if index < items.len() {
                    Some(&items[index])
                } else {
                    None
                }
            },
            _ => None,
        }
    }

    /// The value stored under `key` when this value is an object.
    pub fn get(&self, key: &str) -> (r: Option<&JsonValue>)
        ensures
            r matches Some(v) ==> lookup(self.deep(), key@) == Some(v.deep()),
            r is None ==> lookup(self.deep(), key@) is None,
    {
        match self {
            JsonValue::Object(members) => {
                proof {
                    lemma_object_view(*members);
                }
                match find_member(members, key) {
                    Some(i) => Some(&members[i].value),
                    None => None,
                }
            },
            _ => None,
        }
    }

    /// The string stored under `key` when this value is an object holding a string there.
    pub fn get_str(&self, key: &str) -> (r: Option<&String>)
        ensures
            r matches Some(s) ==> lookup_str(self.deep(), key@) == Some(s@),
            r is None ==> lookup_str(self.deep(), key@) is None,
    {
        match self.get(key) {
            Some(v) => v.as_str(),
            None => None,
        }
    }

    /// An empty object.
    pub fn empty_object() -> (r: JsonValue)
        ensures
            r.deep() == JsonView::Object(Seq::empty()),
    {
        let members: Vec<JsonMember> = Vec::new();
        proof {
            lemma_object_view(members);
            assert(members_view(members@) =~= Seq::empty());
        }
        JsonValue::Object(members)
    }

    /// A string value.
    pub fn from_string(s: String) -> (r: JsonValue)
        ensures
            r.deep() == JsonView::Str(s@),
    {
        JsonValue::Str(s)
    }
}

impl Clone for JsonValue {
    fn clone(&self) -> (r: JsonValue)
        ensures
            r.deep() == self.deep(),
    {
        self.duplicate()
    }
}

impl Clone for JsonMember {
    fn clone(&self) -> (r: JsonMember)
        ensures
            r.key@ == self.key@,
            r.value.deep() == self.value.deep(),
    {
        JsonMember { key: self.key.clone(), value: self.value.duplicate() }
    }
}

/// Binds `key` to `value` in `members`: replaces the first pair with that key, else appends.
pub fn members_set(members: &mut Vec<JsonMember>, key: String, value: JsonValue)
    ensures
        members_view(final(members)@) == set_member(members_view(old(members)@), key@, value.deep()),
{
    let ghost old_view = members_view(members@);
    let ghost kv = key@;
    let ghost vv = value.deep();
    match find_member(members, key.as_str()) {
        Some(i) => {
            members.set(i, JsonMember { key, value });
            proof {
                assert(members_view(members@) =~= old_view.update(i as int, (kv, vv)));
            }
        },
        None => {
            members.push(JsonMember { key, value });
            proof {
                assert(members_view(members@) =~= old_view.push((kv, vv)));
            }
        },
    }
}

/// Binds `key` to `value` in an object; a value that is not an object is left as it is.
pub fn object_set(target: JsonValue, key: String, value: JsonValue) -> (r: JsonValue)
    ensures
        r.deep() == (match target.deep() {
            JsonView::Object(ms) => JsonView::Object(set_member(ms, key@, value.deep())),
            other => other,
        }),
{
    match target {
        JsonValue::Object(mut members) => {
            proof {
                lemma_object_view(members);
            }
            members_set(&mut members, key, value);
            proof {
                lemma_object_view(members);
            }
            JsonValue::Object(members)
        },
        other => other,
    }
}

/// Takes the value of the member at `index` out, leaving `null` in its place.
pub fn members_take(members: &mut Vec<JsonMember>, index: usize) -> (r: JsonValue)
    requires
        index < old(members).len(),
    ensures
        r.deep() == members_view(old(members)@)[index as int].1,
        members_view(final(members)@) == members_view(old(members)@).update(
            index as int,
            (members_view(old(members)@)[index as int].0, JsonView::Null),
        ),
{
    let ghost old_view = members_view(members@);
    let taken = members.remove(index);
    let ghost kv = taken.key@;
    members.insert(index, JsonMember { key: taken.key, value: JsonValue::Null });
    proof {
        assert(members_view(members@) =~= old_view.update(index as int, (kv, JsonView::Null)));
    }
    taken.value
}

} // verus!
