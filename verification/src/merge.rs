//! Stage 2 of a command declaration: merging a declaration over a discovered baseline.
//!
//! Objects merge key by key and recursively; scalars and arrays replace; an absent key leaves
//! the base alone, and `null` is an ordinary value. The `arguments` key is special at every
//! level: its entries are matched to the discovered arguments by `name`, never by position.
//! A failure leaves whatever was already merged in place, as the merge works in place.
use vstd::prelude::*;
use crate::error::{Error, ErrorType};
use crate::json::{lookup, JsonValue, JsonView, JsonMember, items_view, members_view, member_lookup, set_member, lookup_str, find_key, find_key_from, lemma_find_key_from_bounds, lemma_object_view, lemma_array_view, find_member, members_take, members_set, str_eq};
use crate::text::{quoted, push_str, decimal_string, owned};

verus! {

pub open spec fn arguments_key() -> Seq<char> {
    "arguments"@
}

pub open spec fn name_key() -> Seq<char> {
    "name"@
}

/// Merging `decl` over `base`: the resulting document, and whether the merge succeeded.
pub open spec fn spec_merge_object(base: JsonView, decl: JsonView) -> (JsonView, bool)
    decreases decl, 0nat,
{
    match decl {
        JsonView::Null => (base, true),
        JsonView::Object(ms) => {
            let start = if base is Object {
                base
            } else {
                JsonView::Object(Seq::empty())
            };
            spec_merge_members(start, ms, 0)
        },
        _ => (base, false),
    }
}

/// Merging the declared members from the `i`-th on.
pub open spec fn spec_merge_members(base: JsonView, ms: Seq<(Seq<char>, JsonView)>, i: nat) -> (
    JsonView,
    bool,
)
    decreases ms, ms.len() - i,
{
    if i >= ms.len() {
        (base, true)
    } else {
        proof {
            vstd::seq::axiom_seq_index_decreases(ms, i as int);
        }
        let key = ms[i as int].0;
        let d = ms[i as int].1;
        if key == arguments_key() {
            let (b2, ok) = spec_merge_arguments(base, d);
            if ok {
                spec_merge_members(b2, ms, i + 1)
            } else {
                (b2, false)
            }
        } else {
            match base {
                JsonView::Object(bm) => {
                    match member_lookup(bm, key) {
                        Some(existing) => {
                            if existing is Object && d is Object {
                                let (e2, ok) = spec_merge_object(existing, d);
                                let b2 = JsonView::Object(set_member(bm, key, e2));
                                if ok {
                                    spec_merge_members(b2, ms, i + 1)
                                } else {
                                    (b2, false)
                                }
                            } else {
                                spec_merge_members(JsonView::Object(set_member(bm, key, d)), ms, i + 1)
                            }
                        },
                        None => spec_merge_members(JsonView::Object(set_member(bm, key, d)), ms, i + 1),
                    }
                },
                _ => (base, false),
            }
        }
    }
}

/// Merging a declared `arguments` value into `base`.
pub open spec fn spec_merge_arguments(base: JsonView, declared: JsonView) -> (JsonView, bool)
    decreases declared, 0nat,
{
    match declared {
        JsonView::Array(list) => {
            match base {
                JsonView::Object(bm) => {
                    match member_lookup(bm, arguments_key()) {
                        None => (JsonView::Object(set_member(bm, arguments_key(), declared)), true),
                        Some(existing) => {
                            match existing {
                                JsonView::Array(items) => {
                                    let (ex2, ok) = spec_merge_entries(items, list, 0);
                                    (
                                        JsonView::Object(
                                            set_member(bm, arguments_key(), JsonView::Array(ex2)),
                                        ),
                                        ok,
                                    )
                                },
                                _ => (base, false),
                            }
                        },
                    }
                },
                _ => (base, false),
            }
        },
        _ => (base, false),
    }
}

/// The name an argument entry carries.
pub open spec fn entry_name(entry: JsonView) -> Option<Seq<char>> {
    lookup_str(entry, name_key())
}

/// Index of the first entry from `start` on whose name is `name`.
pub open spec fn find_named_from(items: Seq<JsonView>, name: Seq<char>, start: int) -> Option<int>
    decreases items.len() - start,
{
    if start < 0 || start >= items.len() {
        None
    } else if entry_name(items[start]) == Some(name) {
        Some(start)
    } else {
        find_named_from(items, name, start + 1)
    }
}

pub open spec fn find_named(items: Seq<JsonView>, name: Seq<char>) -> Option<int> {
    find_named_from(items, name, 0)
}

/// Merging the declared argument entries from the `j`-th on into the discovered ones.
pub open spec fn spec_merge_entries(existing: Seq<JsonView>, entries: Seq<JsonView>, j: nat) -> (
    Seq<JsonView>,
    bool,
)
    decreases entries, entries.len() - j,
{
    if j >= entries.len() {
        (existing, true)
    } else {
        proof {
            vstd::seq::axiom_seq_index_decreases(entries, j as int);
        }
        match entry_name(entries[j as int]) {
            None => (existing, false),
            Some(name) => {
                match find_named(existing, name) {
                    None => (existing, false),
                    Some(idx) => {
                        let (e2, ok) = spec_merge_object(existing[idx], entries[j as int]);
                        let ex2 = existing.update(idx, e2);
                        if ok {
                            spec_merge_entries(ex2, entries, j + 1)
                        } else {
                            (ex2, false)
                        }
                    },
                }
            },
        }
    }
}


/// `command "<name>": ` followed by `rest`.
pub open spec fn command_text(command: Seq<char>, rest: Seq<char>) -> Seq<char> {
    seq!['c', 'o', 'm', 'm', 'a', 'n', 'd', ' '] + crate::text::debug_quoted(command) + seq![':', ' '] + rest
}

/// The message of a failed merge of `decl` over `base`, for `command`.
pub open spec fn merge_object_message(base: JsonView, decl: JsonView, command: Seq<char>) -> Seq<char>
    decreases decl, 0nat,
{
    match decl {
        JsonView::Null => Seq::empty(),
        JsonView::Object(ms) => {
            let start = if base is Object {
                base
            } else {
                JsonView::Object(Seq::empty())
            };
            merge_members_message(start, ms, 0, command)
        },
        _ => command_text(command, "a declaration must be an object, found "@ + kind_name(decl)),
    }
}

/// The message of a failed merge of the declared members from the `i`-th on.
pub open spec fn merge_members_message(base: JsonView, ms: Seq<(Seq<char>, JsonView)>, i: nat, command: Seq<char>) -> Seq<char>
    decreases ms, ms.len() - i,
{
    if i >= ms.len() {
        Seq::empty()
    } else {
        proof {
            vstd::seq::axiom_seq_index_decreases(ms, i as int);
        }
        let key = ms[i as int].0;
        let d = ms[i as int].1;
        if key == arguments_key() {
            let (b2, ok) = spec_merge_arguments(base, d);
            if ok {
                merge_members_message(b2, ms, i + 1, command)
            } else {
                merge_arguments_message(base, d, command)
            }
        } else {
            match base {
                JsonView::Object(bm) => {
                    match member_lookup(bm, key) {
                        Some(existing) => {
                            if existing is Object && d is Object {
                                let (e2, ok) = spec_merge_object(existing, d);
                                let b2 = JsonView::Object(set_member(bm, key, e2));
                                if ok {
                                    merge_members_message(b2, ms, i + 1, command)
                                } else {
                                    merge_object_message(existing, d, command)
                                }
                            } else {
                                merge_members_message(JsonView::Object(set_member(bm, key, d)), ms, i + 1, command)
                            }
                        },
                        None => merge_members_message(JsonView::Object(set_member(bm, key, d)), ms, i + 1, command),
                    }
                },
                _ => command_text(command, "internal error, base is not an object"@),
            }
        }
    }
}

/// The message of a failed merge of a declared `arguments` value.
pub open spec fn merge_arguments_message(base: JsonView, declared: JsonView, command: Seq<char>) -> Seq<char>
    decreases declared, 0nat,
{
    match declared {
        JsonView::Array(list) => {
            match base {
                JsonView::Object(bm) => {
                    match member_lookup(bm, arguments_key()) {
                        None => Seq::empty(),
                        Some(existing) => {
                            match existing {
                                JsonView::Array(items) => merge_entries_message(items, list, 0, command),
                                _ => command_text(command, "discovered `arguments` is not an array"@),
                            }
                        },
                    }
                },
                _ => command_text(command, "internal error, base is not an object"@),
            }
        },
        _ => command_text(command, "`arguments` must be an array, found "@ + kind_name(declared)),
    }
}

/// The message of a failed merge of the declared argument entries from the `j`-th on: an entry
/// without a name, an entry naming an argument the callable does not declare (with the names
/// it does declare), or the failure inside the entry it names.
pub open spec fn merge_entries_message(existing: Seq<JsonView>, entries: Seq<JsonView>, j: nat, command: Seq<char>) -> Seq<char>
    decreases entries, entries.len() - j,
{
    if j >= entries.len() {
        Seq::empty()
    } else {
        proof {
            vstd::seq::axiom_seq_index_decreases(entries, j as int);
        }
        match entry_name(entries[j as int]) {
            None => command_text(command, "argument "@ + crate::text::decimal(j) + " must have a string `name`"@),
            Some(name) => {
                match find_named(existing, name) {
                    None => command_text(
                        command,
                        "declared argument "@ + crate::text::debug_quoted(name)
                            + " does not exist; the callable declares "@ + "["@ + names_rendered(
                            existing,
                            existing.len(),
                        ).0 + "]"@,
                    ),
                    Some(idx) => {
                        let (e2, ok) = spec_merge_object(existing[idx], entries[j as int]);
                        let ex2 = existing.update(idx, e2);
                        if ok {
                            merge_entries_message(ex2, entries, j + 1, command)
                        } else {
                            merge_object_message(existing[idx], entries[j as int], command)
                        }
                    },
                }
            },
        }
    }
}

pub proof fn lemma_find_named_bounds(items: Seq<JsonView>, name: Seq<char>, start: int)
    requires
        0 <= start,
    ensures
        find_named_from(items, name, start) matches Some(i) ==> start <= i < items.len()
            && entry_name(items[i]) == Some(name),
    decreases items.len() - start,
{
    if start < items.len() && entry_name(items[start]) != Some(name) {
        lemma_find_named_bounds(items, name, start + 1);
    }
}

pub proof fn lemma_find_named_first(items: Seq<JsonView>, name: Seq<char>, start: int, i: int)
    requires
        0 <= start <= i < items.len(),
        entry_name(items[i]) == Some(name),
        forall|j: int| start <= j < i ==> entry_name(#[trigger] items[j]) != Some(name),
    ensures
        find_named_from(items, name, start) == Some(i),
    decreases i - start,
{
    if start < i {
        lemma_find_named_first(items, name, start + 1, i);
    }
}

pub proof fn lemma_find_named_none(items: Seq<JsonView>, name: Seq<char>, start: int)
    requires
        0 <= start <= items.len(),
        forall|j: int| start <= j < items.len() ==> entry_name(#[trigger] items[j]) != Some(name),
    ensures
        find_named_from(items, name, start) is None,
    decreases items.len() - start,
{
    if start < items.len() {
        lemma_find_named_none(items, name, start + 1);
    }
}

/// Replacing the value of a pair, keeping its key, does not move any key.
pub proof fn lemma_find_key_update_value(
    ms: Seq<(Seq<char>, JsonView)>,
    idx: int,
    v: JsonView,
    key: Seq<char>,
    start: int,
)
    requires
        0 <= idx < ms.len(),
        0 <= start,
    ensures
        find_key_from(ms.update(idx, (ms[idx].0, v)), key, start) == find_key_from(ms, key, start),
    decreases ms.len() - start,
{
    let ms2 = ms.update(idx, (ms[idx].0, v));
    if start < ms.len() {
        assert(ms2[start].0 == ms[start].0);
        if ms[start].0 != key {
            lemma_find_key_update_value(ms, idx, v, key, start + 1);
        }
    }
}

/// Taking a member's value out and putting a new one back under the same key is the same as
/// binding the key to the new value.
pub proof fn lemma_set_after_take(ms: Seq<(Seq<char>, JsonView)>, idx: int, key: Seq<char>, v: JsonView)
    requires
        find_key(ms, key) == Some(idx),
    ensures
        set_member(ms.update(idx, (ms[idx].0, JsonView::Null)), key, v) == set_member(ms, key, v),
{
    lemma_find_key_from_bounds(ms, key, 0);
    lemma_find_key_update_value(ms, idx, JsonView::Null, key, 0);
    let ms1 = ms.update(idx, (ms[idx].0, JsonView::Null));
    assert(ms1.update(idx, (key, v)) =~= ms.update(idx, (key, v)));
}

/// The name of the kind of a JSON value, as error messages give it.
pub open spec fn kind_name(v: JsonView) -> Seq<char> {
    match v {
        JsonView::Null => "null"@,
        JsonView::Bool(_) => "a boolean"@,
        JsonView::Int(_) => "a number"@,
        JsonView::Number(_) => "a number"@,
        JsonView::Str(_) => "a string"@,
        JsonView::Array(_) => "an array"@,
        JsonView::Object(_) => "an object"@,
    }
}

pub fn type_name_of(value: &JsonValue) -> (r: &'static str)
    ensures
        r@ == kind_name(value.deep()),
{
    match value {
        JsonValue::Null => "null",
        JsonValue::Bool(_) => "a boolean",
        JsonValue::Int(_) => "a number",
        JsonValue::Number(_) => "a number",
        JsonValue::Str(_) => "a string",
        JsonValue::Array(_) => "an array",
        JsonValue::Object(_) => "an object",
    }
}

/// `command "<name>": ` followed by `rest`.
pub fn command_message(command: &str, rest: &str) -> (r: String)
    ensures
        r@ == seq!['c', 'o', 'm', 'm', 'a', 'n', 'd', ' '] + crate::text::debug_quoted(command@)
            + seq![':', ' '] + rest@,
{
    let mut s = owned("command ");
    proof {
        reveal_strlit("command ");
    }
    let q = quoted(command);
    push_str(&mut s, q.as_str());
    push_str(&mut s, ": ");
    proof {
        reveal_strlit(": ");
    }
    push_str(&mut s, rest);
    proof {
        assert(s@ =~= seq!['c', 'o', 'm', 'm', 'a', 'n', 'd', ' '] + crate::text::debug_quoted(
            command@,
        ) + seq![':', ' '] + rest@);
    }
    s
}

fn parameter_error(message: String) -> (r: Error)
    ensures
        r.error_type == ErrorType::ParameterError,
        r.message@ == message@,
{
    Error::parameter_error(message)
}

/// The names the first `n` entries carry, each as `{:?}` renders it, separated by `, `; and
/// whether there was any.
pub open spec fn names_rendered(list: Seq<JsonView>, n: nat) -> (Seq<char>, bool)
    decreases n,
{
    if n == 0 || n > list.len() {
        (Seq::empty(), false)
    } else {
        let (prev, any) = names_rendered(list, (n - 1) as nat);
        match entry_name(list[n - 1]) {
            Some(name) => (
                if any {
                    prev + ", "@ + crate::text::debug_quoted(name)
                } else {
                    prev + crate::text::debug_quoted(name)
                },
                true,
            ),
            None => (prev, any),
        }
    }
}

/// The names that the entries of `list` carry, rendered as `{:?}` renders a list of names.
fn known_names(list: &Vec<JsonValue>) -> (r: String)
    ensures
        r@ == "["@ + names_rendered(items_view(list@), list@.len()).0 + "]"@,
{
    let ghost lv = items_view(list@);
    let mut s = owned("[");
    let mut first = true;
    let mut i: usize = 0;
    while i < list.len()
        invariant
            0 <= i <= list.len(),
            lv == items_view(list@),
            s@ == "["@ + names_rendered(lv, i as nat).0,
            first == !names_rendered(lv, i as nat).1,
        decreases list.len() - i,
    {
        proof {
            assert(lv[i as int] == list@[i as int].deep());
        }
        match list[i].get_str("name") {
            Some(n) => {
                proof {
                    reveal_strlit("name");
                }
                let ghost before = s@;
                if !first {
                    push_str(&mut s, ", ");
                }
                let q = quoted(n.as_str());
                push_str(&mut s, q.as_str());
                proof {
                    if first {
                        assert(s@ =~= "["@ + names_rendered(lv, (i + 1) as nat).0);
                    } else {
                        assert(s@ =~= "["@ + names_rendered(lv, (i + 1) as nat).0);
                    }
                }
                first = false;
            },
            None => {
                proof {
                    reveal_strlit("name");
                }
            },
        }
        i = i + 1;
    }
    push_str(&mut s, "]");
    s
}

/// Index of the first entry whose name is `name`.
pub fn find_named_entry(items: &Vec<JsonValue>, name: &String) -> (r: Option<usize>)
    ensures
        r matches Some(i) ==> i < items.len() && find_named(items_view(items@), name@) == Some(
            i as int,
        ),
        r is None ==> find_named(items_view(items@), name@) is None,
{
    let ghost iv = items_view(items@);
    let mut i: usize = 0;
    while i < items.len()
        invariant
            0 <= i <= items.len(),
            iv == items_view(items@),
            forall|j: int| 0 <= j < i ==> entry_name(#[trigger] iv[j]) != Some(name@),
        decreases items.len() - i,
    {
        match items[i].get_str("name") {
            Some(n) => {
                proof {
                    reveal_strlit("name");
                }
                if *n == *name {
                    proof {
                        lemma_find_named_first(iv, name@, 0, i as int);
                    }
                    return Some(i);
                }
            },
            None => {
                proof {
                    reveal_strlit("name");
                }
            },
        }
        i = i + 1;
    }
    proof {
        lemma_find_named_none(iv, name@, 0);
    }
    None
}

/// Merges `declaration` over `base` (stage 2 of a declaration), naming `command` in errors.
pub fn merge_object(base: JsonValue, declaration: &JsonValue, command: &str) -> (r: (
    JsonValue,
    Result<(), Error>,
))
    ensures
        r.0.deep() == spec_merge_object(base.deep(), declaration.deep()).0,
        r.1 is Ok == spec_merge_object(base.deep(), declaration.deep()).1,
        r.1 matches Err(e) ==> e.error_type == ErrorType::ParameterError,
        r.1 matches Err(e) ==> e.message@ == merge_object_message(base.deep(), declaration.deep(), command@),
    decreases declaration, 0nat,
{
    match declaration {
        JsonValue::Null => (base, Ok(())),
        JsonValue::Object(members) => {
            let start = if base.is_object() {
                base
            } else {
                JsonValue::empty_object()
            };
            proof {
                lemma_object_view(*members);
                assert(decreases_to!(*declaration => (*declaration)->Object_0));
            }
            merge_members(start, members, 0, command)
        },
        other => {
            let mut rest = owned("a declaration must be an object, found ");
            push_str(&mut rest, type_name_of(other));
            (base, Err(parameter_error(command_message(command, rest.as_str()))))
        },
    }
}

fn merge_members(base: JsonValue, members: &Vec<JsonMember>, i: usize, command: &str) -> (r: (
    JsonValue,
    Result<(), Error>,
))
    requires
        i <= members.len(),
    ensures
        r.0.deep() == spec_merge_members(base.deep(), members_view(members@), i as nat).0,
        r.1 is Ok == spec_merge_members(base.deep(), members_view(members@), i as nat).1,
        r.1 matches Err(e) ==> e.error_type == ErrorType::ParameterError,
        r.1 matches Err(e) ==> e.message@ == merge_members_message(base.deep(), members_view(members@), i as nat, command@),
    decreases members, members.len() - i,
{
    let ghost ms = members_view(members@);
    if i >= members.len() {
        return (base, Ok(()));
    }
    let member = &members[i];
    proof {
        vstd::std_specs::vec::axiom_vec_index_decreases(*members, i as int);
        assert(*member == members@[i as int]);
        assert(decreases_to!(members@[i as int] => members@[i as int].value));
        reveal_strlit("arguments");
        assert(ms[i as int] == (member.key@, member.value.deep()));
    }
    if str_eq(member.key.as_str(), "arguments") {
        let (b2, res) = merge_arguments(base, &member.value, command);
        match res {
            Ok(()) => merge_members(b2, members, i + 1, command),
            Err(e) => (b2, Err(e)),
        }
    } else {
        match base {
            JsonValue::Object(mut bm) => {
                proof {
                    lemma_object_view(bm);
                }
                let ghost bmv = members_view(bm@);
                match find_member(&bm, member.key.as_str()) {
                    Some(idx) => {
                        proof {
                            lemma_find_key_from_bounds(bmv, member.key@, 0);
                        }
                        if bm[idx].value.is_object() && member.value.is_object() {
                            let existing = members_take(&mut bm, idx);
                            let (e2, res) = merge_object(existing, &member.value, command);
                            let ghost e2v = e2.deep();
                            members_set(&mut bm, member.key.clone(), e2);
                            proof {
                                lemma_set_after_take(bmv, idx as int, member.key@, e2v);
                                lemma_object_view(bm);
                            }
                            match res {
                                Ok(()) => merge_members(JsonValue::Object(bm), members, i + 1, command),
                                Err(e) => (JsonValue::Object(bm), Err(e)),
                            }
                        } else {
                            members_set(&mut bm, member.key.clone(), member.value.duplicate());
                            proof {
                                lemma_object_view(bm);
                            }
                            merge_members(JsonValue::Object(bm), members, i + 1, command)
                        }
                    },
                    None => {
                        members_set(&mut bm, member.key.clone(), member.value.duplicate());
                        proof {
                            lemma_object_view(bm);
                        }
                        merge_members(JsonValue::Object(bm), members, i + 1, command)
                    },
                }
            },
            other => {
                (
                    other,
                    Err(
                        parameter_error(
                            command_message(command, "internal error, base is not an object"),
                        ),
                    ),
                )
            },
        }
    }
}

fn merge_arguments(base: JsonValue, declared: &JsonValue, command: &str) -> (r: (
    JsonValue,
    Result<(), Error>,
))
    ensures
        r.0.deep() == spec_merge_arguments(base.deep(), declared.deep()).0,
        r.1 is Ok == spec_merge_arguments(base.deep(), declared.deep()).1,
        r.1 matches Err(e) ==> e.error_type == ErrorType::ParameterError,
        r.1 matches Err(e) ==> e.message@ == merge_arguments_message(base.deep(), declared.deep(), command@),
    decreases declared, 0nat,
{
    proof {
        reveal_strlit("arguments");
    }
    let list = match declared {
        JsonValue::Array(list) => list,
        other => {
            let mut rest = owned("`arguments` must be an array, found ");
            push_str(&mut rest, type_name_of(other));
            return (base, Err(parameter_error(command_message(command, rest.as_str()))));
        },
    };
    proof {
        lemma_array_view(*list);
        assert(decreases_to!(*declared => (*declared)->Array_0));
    }
    match base {
        JsonValue::Object(mut bm) => {
            proof {
                lemma_object_view(bm);
            }
            let ghost bmv = members_view(bm@);
            match find_member(&bm, "arguments") {
                None => {
                    members_set(&mut bm, owned("arguments"), declared.duplicate());
                    proof {
                        lemma_object_view(bm);
                    }
                    (JsonValue::Object(bm), Ok(()))
                },
                Some(idx) => {
                    proof {
                        lemma_find_key_from_bounds(bmv, arguments_key(), 0);
                    }
                    if !bm[idx].value.is_array() {
                        proof {
                            lemma_object_view(bm);
                        }
                        return (
                            JsonValue::Object(bm),
                            Err(
                                parameter_error(
                                    command_message(command, "discovered `arguments` is not an array"),
                                ),
                            ),
                        );
                    }
                    let existing = members_take(&mut bm, idx);
                    let existing_list = match existing {
                        JsonValue::Array(items) => items,
                        _ => Vec::new(),
                    };
                    proof {
                        lemma_array_view(existing_list);
                    }
                    let (ex2, res) = merge_entries(existing_list, list, 0, command);
                    let merged = JsonValue::Array(ex2);
                    proof {
                        lemma_array_view(ex2);
                    }
                    let ghost mv = merged.deep();
                    members_set(&mut bm, owned("arguments"), merged);
                    proof {
                        lemma_set_after_take(bmv, idx as int, arguments_key(), mv);
                        lemma_object_view(bm);
                    }
                    (JsonValue::Object(bm), res)
                },
            }
        },
        other => (
            other,
            Err(parameter_error(command_message(command, "internal error, base is not an object"))),
        ),
    }
}

fn merge_entries(mut existing: Vec<JsonValue>, entries: &Vec<JsonValue>, j: usize, command: &str) -> (r: (
    Vec<JsonValue>,
    Result<(), Error>,
))
    requires
        j <= entries.len(),
    ensures
        items_view(r.0@) == spec_merge_entries(items_view(existing@), items_view(entries@), j as nat).0,
        r.1 is Ok == spec_merge_entries(items_view(existing@), items_view(entries@), j as nat).1,
        r.1 matches Err(e) ==> e.error_type == ErrorType::ParameterError,
        r.1 matches Err(e) ==> e.message@ == merge_entries_message(items_view(existing@), items_view(entries@), j as nat, command@),
    decreases entries, entries.len() - j,
{
    let ghost ev = items_view(existing@);
    if j >= entries.len() {
        return (existing, Ok(()));
    }
    let entry = &entries[j];
    proof {
        vstd::std_specs::vec::axiom_vec_index_decreases(*entries, j as int);
        assert(*entry == entries@[j as int]);
        reveal_strlit("name");
    }
    let name = match entry.get_str("name") {
        Some(n) => n,
        None => {
            let mut rest = owned("argument ");
            let pos = decimal_string(j);
            push_str(&mut rest, pos.as_str());
            push_str(&mut rest, " must have a string `name`");
            return (existing, Err(parameter_error(command_message(command, rest.as_str()))));
        },
    };
    match find_named_entry(&existing, name) {
        None => {
            let mut rest = owned("declared argument ");
            let qn = quoted(name.as_str());
            push_str(&mut rest, qn.as_str());
            push_str(&mut rest, " does not exist; the callable declares ");
            let known = known_names(&existing);
            push_str(&mut rest, known.as_str());
            (existing, Err(parameter_error(command_message(command, rest.as_str()))))
        },
        Some(idx) => {
            let target = existing.remove(idx);
            let (e2, res) = merge_object(target, entry, command);
            existing.insert(idx, e2);
            proof {
                assert(items_view(existing@) =~= ev.update(idx as int, e2.deep()));
            }
            match res {
                Ok(()) => merge_entries(existing, entries, j + 1, command),
                Err(e) => (existing, Err(e)),
            }
        },
    }
}


// --- laws of the merge -------------------------------------------------------------------------

/// Merging an empty declaration over an object changes nothing.
pub proof fn law_merge_empty_is_identity(base: JsonView)
    requires
        base is Object,
    ensures
        spec_merge_object(base, JsonView::Object(Seq::empty())) == (base, true),
{
}

/// Merging the declared `arguments` touches no other key, and leaves an object an object.
proof fn lemma_merge_arguments_keeps_others(base: JsonView, declared: JsonView, k: Seq<char>)
    requires
        base is Object,
        k != arguments_key(),
    ensures
        spec_merge_arguments(base, declared).0 is Object,
        lookup(spec_merge_arguments(base, declared).0, k) == lookup(base, k),
{
    let bm = base->Object_0;
    match declared {
        JsonView::Array(list) => {
            match member_lookup(bm, arguments_key()) {
                None => {
                    crate::json::lemma_lookup_set_other(bm, arguments_key(), declared, k);
                },
                Some(existing) => {
                    match existing {
                        JsonView::Array(items) => {
                            let ex2 = spec_merge_entries(items, list, 0).0;
                            crate::json::lemma_lookup_set_other(bm, arguments_key(), JsonView::Array(ex2), k);
                        },
                        _ => {},
                    }
                },
            }
        },
        _ => {},
    }
}

/// Merging the declared members from the `i`-th on leaves alone a key none of them names.
proof fn lemma_merge_members_keeps(base: JsonView, ms: Seq<(Seq<char>, JsonView)>, i: nat, k: Seq<char>)
    requires
        base is Object,
        forall|j: int| i <= j < ms.len() ==> (#[trigger] ms[j]).0 != k,
    ensures
        spec_merge_members(base, ms, i).0 is Object,
        lookup(spec_merge_members(base, ms, i).0, k) == lookup(base, k),
    decreases ms.len() - i,
{
    if i < ms.len() {
        let key = ms[i as int].0;
        let d = ms[i as int].1;
        assert(key != k);
        let bm = base->Object_0;
        if key == arguments_key() {
            lemma_merge_arguments_keeps_others(base, d, k);
            let (b2, ok) = spec_merge_arguments(base, d);
            if ok {
                lemma_merge_members_keeps(b2, ms, i + 1, k);
            }
        } else {
            match member_lookup(bm, key) {
                Some(existing) => {
                    if existing is Object && d is Object {
                        let (e2, ok) = spec_merge_object(existing, d);
                        let b2 = JsonView::Object(set_member(bm, key, e2));
                        crate::json::lemma_lookup_set_other(bm, key, e2, k);
                        if ok {
                            lemma_merge_members_keeps(b2, ms, i + 1, k);
                        }
                    } else {
                        let b2 = JsonView::Object(set_member(bm, key, d));
                        crate::json::lemma_lookup_set_other(bm, key, d, k);
                        lemma_merge_members_keeps(b2, ms, i + 1, k);
                    }
                },
                None => {
                    let b2 = JsonView::Object(set_member(bm, key, d));
                    crate::json::lemma_lookup_set_other(bm, key, d, k);
                    lemma_merge_members_keeps(b2, ms, i + 1, k);
                },
            }
        }
    }
}

/// A key the declaration leaves out keeps the value the baseline gave it, whether or not the
/// merge succeeds.
pub proof fn law_omitted_key_is_kept(base: JsonView, ms: Seq<(Seq<char>, JsonView)>, k: Seq<char>)
    requires
        base is Object,
        forall|j: int| 0 <= j < ms.len() ==> (#[trigger] ms[j]).0 != k,
    ensures
        lookup(spec_merge_object(base, JsonView::Object(ms)).0, k) == lookup(base, k),
{
    lemma_merge_members_keeps(base, ms, 0, k);
}

/// What a declared key ends up holding: the merge of the two objects where both the
/// discovered and the declared value are objects, else the declared value.
pub open spec fn merged_value(before: Option<JsonView>, d: JsonView) -> JsonView {
    match before {
        Some(b) => if b is Object && d is Object {
            spec_merge_object(b, d).0
        } else {
            d
        },
        None => d,
    }
}

proof fn lemma_members_set_key(base: JsonView, ms: Seq<(Seq<char>, JsonView)>, i: nat, p: int)
    requires
        base is Object,
        i <= p < ms.len(),
        ms[p].0 != arguments_key(),
        forall|j: int| i <= j < ms.len() && j != p ==> (#[trigger] ms[j]).0 != ms[p].0,
        spec_merge_members(base, ms, i).1,
    ensures
        lookup(spec_merge_members(base, ms, i).0, ms[p].0) == Some(merged_value(lookup(base, ms[p].0), ms[p].1)),
    decreases ms.len() - i,
{
    let k = ms[p].0;
    let key = ms[i as int].0;
    let d = ms[i as int].1;
    let bm = base->Object_0;
    if i < p {
        assert(key != k);
        if key == arguments_key() {
            lemma_merge_arguments_keeps_others(base, d, k);
            let (b2, ok) = spec_merge_arguments(base, d);
            lemma_members_set_key(b2, ms, i + 1, p);
        } else {
            match member_lookup(bm, key) {
                Some(existing) => {
                    if existing is Object && d is Object {
                        let (e2, ok) = spec_merge_object(existing, d);
                        let b2 = JsonView::Object(set_member(bm, key, e2));
                        crate::json::lemma_lookup_set_other(bm, key, e2, k);
                        lemma_members_set_key(b2, ms, i + 1, p);
                    } else {
                        let b2 = JsonView::Object(set_member(bm, key, d));
                        crate::json::lemma_lookup_set_other(bm, key, d, k);
                        lemma_members_set_key(b2, ms, i + 1, p);
                    }
                },
                None => {
                    let b2 = JsonView::Object(set_member(bm, key, d));
                    crate::json::lemma_lookup_set_other(bm, key, d, k);
                    lemma_members_set_key(b2, ms, i + 1, p);
                },
            }
        }
    } else {
        assert(key == k);
        let v = merged_value(lookup(base, k), d);
        assert(lookup(base, k) == member_lookup(bm, k));
        let b2 = JsonView::Object(set_member(bm, key, v));
        crate::json::lemma_lookup_set_same(bm, key, v);
        lemma_merge_members_keeps(b2, ms, i + 1, k);
    }
}

/// Every key a successful merge declares (other than `arguments`, which merges by name) ends
/// up holding the declared value, or the merge of two objects: each declared member has its
/// effect, whatever the other members declare.
pub proof fn law_merge_sets_each_declared_key(base: JsonView, ms: Seq<(Seq<char>, JsonView)>, p: int)
    requires
        base is Object,
        0 <= p < ms.len(),
        ms[p].0 != arguments_key(),
        forall|j: int| 0 <= j < ms.len() && j != p ==> (#[trigger] ms[j]).0 != ms[p].0,
        spec_merge_object(base, JsonView::Object(ms)).1,
    ensures
        lookup(spec_merge_object(base, JsonView::Object(ms)).0, ms[p].0) == Some(
            merged_value(lookup(base, ms[p].0), ms[p].1),
        ),
{
    lemma_members_set_key(base, ms, 0, p);
}

/// Merging a `null` declaration changes nothing.
pub proof fn law_merge_null_is_identity(base: JsonView)
    ensures
        spec_merge_object(base, JsonView::Null) == (base, true),
{
}

/// A declared value replaces the discovered one, or is added when there is none; `null` is
/// set like any other value. Only two objects merge instead.
pub proof fn law_merge_replaces_value(base: JsonView, key: Seq<char>, d: JsonView)
    requires
        base is Object,
        key != arguments_key(),
        !(member_lookup(base->Object_0, key) matches Some(x) && x is Object && d is Object),
    ensures
        spec_merge_object(base, JsonView::Object(seq![(key, d)])) == (
            JsonView::Object(set_member(base->Object_0, key, d)),
            true,
        ),
        lookup(spec_merge_object(base, JsonView::Object(seq![(key, d)])).0, key) == Some(d),
{
    let ms = seq![(key, d)];
    assert(ms[0] == (key, d));
    let after = JsonView::Object(set_member(base->Object_0, key, d));
    assert(spec_merge_members(after, ms, 1) == (after, true));
    assert(spec_merge_members(base, ms, 0) == spec_merge_members(after, ms, 1));
    assert(spec_merge_object(base, JsonView::Object(ms)) == spec_merge_members(base, ms, 0));
    crate::json::lemma_lookup_set_same(base->Object_0, key, d);
}

/// A declared object merges into a discovered object, key by key.
pub proof fn law_merge_recurses_into_objects(base: JsonView, key: Seq<char>, b: JsonView, d: JsonView)
    requires
        base is Object,
        key != arguments_key(),
        member_lookup(base->Object_0, key) == Some(b),
        b is Object,
        d is Object,
    ensures
        spec_merge_object(base, JsonView::Object(seq![(key, d)])) == (
            JsonView::Object(set_member(base->Object_0, key, spec_merge_object(b, d).0)),
            spec_merge_object(b, d).1,
        ),
{
    let ms = seq![(key, d)];
    assert(ms[0] == (key, d));
    let (e2, ok) = spec_merge_object(b, d);
    let after = JsonView::Object(set_member(base->Object_0, key, e2));
    assert(spec_merge_members(after, ms, 1) == (after, true));
    assert(spec_merge_members(base, ms, 0) == (after, ok));
    assert(spec_merge_object(base, JsonView::Object(ms)) == spec_merge_members(base, ms, 0));
}

/// Where no arguments were discovered, the declared list establishes them.
pub proof fn law_declared_arguments_establish_list(base: JsonView, list: Seq<JsonView>)
    requires
        base is Object,
        lookup(base, arguments_key()) is None,
    ensures
        spec_merge_object(base, JsonView::Object(seq![(arguments_key(), JsonView::Array(list))])) == (
            JsonView::Object(set_member(base->Object_0, arguments_key(), JsonView::Array(list))),
            true,
        ),
{
    let ms = seq![(arguments_key(), JsonView::Array(list))];
    assert(ms[0] == (arguments_key(), JsonView::Array(list)));
    let after = JsonView::Object(set_member(base->Object_0, arguments_key(), JsonView::Array(list)));
    assert(spec_merge_arguments(base, JsonView::Array(list)) == (after, true));
    assert(spec_merge_members(after, ms, 1) == (after, true));
    assert(spec_merge_members(base, ms, 0) == (after, true));
    assert(spec_merge_object(base, JsonView::Object(ms)) == spec_merge_members(base, ms, 0));
}

/// A declared argument entry without a name, or whose name no discovered argument has, is
/// refused: arguments are matched by name, and a discovered empty list still refuses.
pub proof fn law_unknown_argument_is_refused(base: JsonView, items: Seq<JsonView>, e: JsonView)
    requires
        base is Object,
        lookup(base, arguments_key()) == Some(JsonView::Array(items)),
        entry_name(e) is None || find_named(items, entry_name(e)->0) is None,
    ensures
        !spec_merge_object(base, JsonView::Object(seq![(arguments_key(), JsonView::Array(seq![e]))])).1,
{
    let ms = seq![(arguments_key(), JsonView::Array(seq![e]))];
    assert(ms[0] == (arguments_key(), JsonView::Array(seq![e])));
    assert(seq![e][0] == e);
    assert(spec_merge_entries(items, seq![e], 0) == (items, false));
    assert(!spec_merge_arguments(base, JsonView::Array(seq![e])).1);
    assert(!spec_merge_members(base, ms, 0).1);
    assert(spec_merge_object(base, JsonView::Object(ms)) == spec_merge_members(base, ms, 0));
}

/// A declared argument entry merges into the discovered argument of the same name, in its
/// place: order comes from discovery, never from the declaration.
pub proof fn law_argument_entry_merges_by_name(base: JsonView, items: Seq<JsonView>, e: JsonView, idx: int)
    requires
        base is Object,
        lookup(base, arguments_key()) == Some(JsonView::Array(items)),
        entry_name(e) is Some,
        find_named(items, entry_name(e)->0) == Some(idx),
    ensures
        spec_merge_object(base, JsonView::Object(seq![(arguments_key(), JsonView::Array(seq![e]))])) == (
            JsonView::Object(
                set_member(
                    base->Object_0,
                    arguments_key(),
                    JsonView::Array(items.update(idx, spec_merge_object(items[idx], e).0)),
                ),
            ),
            spec_merge_object(items[idx], e).1,
        ),
{
    let ms = seq![(arguments_key(), JsonView::Array(seq![e]))];
    assert(ms[0] == (arguments_key(), JsonView::Array(seq![e])));
    assert(seq![e][0] == e);
    let (e2, ok) = spec_merge_object(items[idx], e);
    let ex2 = items.update(idx, e2);
    assert(spec_merge_entries(ex2, seq![e], 1) == (ex2, true));
    assert(spec_merge_entries(items, seq![e], 0) == (ex2, ok));
    let after = JsonView::Object(set_member(base->Object_0, arguments_key(), JsonView::Array(ex2)));
    assert(spec_merge_arguments(base, JsonView::Array(seq![e])) == (after, ok));
    assert(spec_merge_members(after, ms, 1) == (after, true));
    assert(spec_merge_members(base, ms, 0) == (after, ok));
    assert(spec_merge_object(base, JsonView::Object(ms)) == spec_merge_members(base, ms, 0));
}

// --- merging twice -----------------------------------------------------------------------------

/// Whether no two members share a key.
pub open spec fn keys_distinct(ms: Seq<(Seq<char>, JsonView)>) -> bool {
    forall|i: int, j: int| 0 <= i < ms.len() && 0 <= j < ms.len() && i != j ==> (#[trigger] ms[i]).0 != (#[trigger] ms[j]).0
}

/// Whether no two entries carry the same name.
pub open spec fn names_distinct(list: Seq<JsonView>) -> bool {
    forall|i: int, j: int| 0 <= i < list.len() && 0 <= j < list.len() && i != j ==> entry_name(#[trigger] list[i])
        != entry_name(#[trigger] list[j])
}

/// Whether a declaration is plain: every object in it holds each key once, and every declared
/// `arguments` is a list of entries that each carry a distinct name and are plain themselves.
pub open spec fn plain_declaration(d: JsonView) -> bool
    decreases d, 0nat,
{
    match d {
        JsonView::Object(ms) => keys_distinct(ms) && plain_members(ms, 0),
        _ => true,
    }
}

pub open spec fn plain_members(ms: Seq<(Seq<char>, JsonView)>, i: nat) -> bool
    decreases ms, ms.len() - i,
{
    if i >= ms.len() {
        true
    } else {
        proof {
            vstd::seq::axiom_seq_index_decreases(ms, i as int);
        }
        (if ms[i as int].0 == arguments_key() {
            plain_arguments(ms[i as int].1)
        } else {
            plain_declaration(ms[i as int].1)
        }) && plain_members(ms, i + 1)
    }
}

pub open spec fn plain_arguments(v: JsonView) -> bool
    decreases v, 0nat,
{
    match v {
        JsonView::Array(list) => names_distinct(list) && plain_entries(list, 0),
        _ => false,
    }
}

pub open spec fn plain_entries(list: Seq<JsonView>, j: nat) -> bool
    decreases list, list.len() - j,
{
    if j >= list.len() {
        true
    } else {
        proof {
            vstd::seq::axiom_seq_index_decreases(list, j as int);
        }
        entry_name(list[j as int]) is Some && plain_declaration(list[j as int]) && plain_entries(list, j + 1)
    }
}

proof fn lemma_plain_members_at(ms: Seq<(Seq<char>, JsonView)>, i: nat, k: int)
    requires
        plain_members(ms, i),
        i <= k < ms.len(),
    ensures
        if ms[k].0 == arguments_key() {
            plain_arguments(ms[k].1)
        } else {
            plain_declaration(ms[k].1)
        },
    decreases ms.len() - i,
{
    if i < k {
        lemma_plain_members_at(ms, i + 1, k);
    }
}

proof fn lemma_plain_entries_at(list: Seq<JsonView>, j: nat, k: int)
    requires
        plain_entries(list, j),
        j <= k < list.len(),
    ensures
        entry_name(list[k]) is Some,
        plain_declaration(list[k]),
    decreases list.len() - j,
{
    if j < k {
        lemma_plain_entries_at(list, j + 1, k);
    }
}

/// In members with distinct keys, a member's key finds its value.
proof fn lemma_distinct_lookup(ms: Seq<(Seq<char>, JsonView)>, i: int)
    requires
        keys_distinct(ms),
        0 <= i < ms.len(),
    ensures
        member_lookup(ms, ms[i].0) == Some(ms[i].1),
{
    assert forall|j: int| 0 <= j < i implies #[trigger] ms[j].0 != ms[i].0 by {
        assert(ms[j].0 != ms[i].0);
    }
    crate::json::lemma_find_key_first(ms, ms[i].0, 0, i);
}

/// In entries with distinct names, an entry's name finds it.
proof fn lemma_distinct_find_named(list: Seq<JsonView>, j: int)
    requires
        names_distinct(list),
        0 <= j < list.len(),
        entry_name(list[j]) is Some,
    ensures
        find_named(list, entry_name(list[j])->0) == Some(j),
{
    assert forall|k: int| 0 <= k < j implies entry_name(#[trigger] list[k]) != Some(entry_name(list[j])->0) by {
        assert(entry_name(list[k]) != entry_name(list[j]));
    }
    lemma_find_named_first(list, entry_name(list[j])->0, 0, j);
}

/// A plain object merged over itself is left as it is.
proof fn lemma_self_merge(d: JsonView)
    requires
        d is Object,
        plain_declaration(d),
    ensures
        spec_merge_object(d, d) == (d, true),
    decreases d, 1nat,
{
    let ms = d->Object_0;
    lemma_self_members(ms, 0);
}

proof fn lemma_self_members(ms: Seq<(Seq<char>, JsonView)>, i: nat)
    requires
        keys_distinct(ms),
        plain_members(ms, i),
    ensures
        spec_merge_members(JsonView::Object(ms), ms, i) == (JsonView::Object(ms), true),
    decreases ms, ms.len() - i,
{
    if i < ms.len() {
        vstd::seq::axiom_seq_index_decreases(ms, i as int);
        let key = ms[i as int].0;
        let v = ms[i as int].1;
        lemma_distinct_lookup(ms, i as int);
        lemma_plain_members_at(ms, i, i as int);
        if key == arguments_key() {
            assert(plain_arguments(v));
            let list = v->Array_0;
            assert(v == JsonView::Array(list));
            assert(names_distinct(list) && plain_entries(list, 0));
            assert(decreases_to!(ms => list)) by {
                vstd::seq::axiom_seq_index_decreases(ms, i as int);
                assert(decreases_to!(ms[i as int] => v));
                assert(decreases_to!(v => list));
            }
            lemma_self_entries(list, 0);
            crate::json::lemma_set_member_same(ms, arguments_key(), v);
            assert(spec_merge_arguments(JsonView::Object(ms), v) == (JsonView::Object(ms), true));
        } else {
            if v is Object {
                lemma_self_merge(v);
            }
            crate::json::lemma_set_member_same(ms, key, v);
        }
        lemma_self_members(ms, i + 1);
        assert(spec_merge_members(JsonView::Object(ms), ms, i) == spec_merge_members(JsonView::Object(ms), ms, i + 1));
    }
}

proof fn lemma_self_entries(list: Seq<JsonView>, j: nat)
    requires
        names_distinct(list),
        plain_entries(list, j),
    ensures
        spec_merge_entries(list, list, j) == (list, true),
    decreases list, list.len() - j,
{
    if j < list.len() {
        vstd::seq::axiom_seq_index_decreases(list, j as int);
        let e = list[j as int];
        lemma_plain_entries_at(list, j, j as int);
        lemma_distinct_find_named(list, j as int);
        lemma_self_merge(e);
        assert(list.update(j as int, e) =~= list);
        lemma_self_entries(list, j + 1);
    }
}

/// The value a declared member leaves under its key, given what was there before.
pub open spec fn step_value(e: Option<JsonView>, d: JsonView) -> JsonView {
    match e {
        Some(x) => if x is Object && d is Object {
            spec_merge_object(x, d).0
        } else {
            d
        },
        None => d,
    }
}

/// Whether merging a declared member over what was there before succeeds.
pub open spec fn step_ok(e: Option<JsonView>, d: JsonView) -> bool {
    match e {
        Some(x) => if x is Object && d is Object {
            spec_merge_object(x, d).1
        } else {
            true
        },
        None => true,
    }
}

/// The `arguments` a declared list leaves, given what was there before.
pub open spec fn arguments_value(e: Option<JsonView>, list: Seq<JsonView>) -> JsonView {
    match e {
        Some(JsonView::Array(items)) => JsonView::Array(spec_merge_entries(items, list, 0).0),
        _ => JsonView::Array(list),
    }
}

pub open spec fn arguments_ok(e: Option<JsonView>, list: Seq<JsonView>) -> bool {
    match e {
        None => true,
        Some(JsonView::Array(items)) => spec_merge_entries(items, list, 0).1,
        _ => false,
    }
}

/// Merging members into an object leaves an object.
proof fn lemma_members_object(b: JsonView, ms: Seq<(Seq<char>, JsonView)>, i: nat)
    requires
        b is Object,
    ensures
        spec_merge_members(b, ms, i).0 is Object,
    decreases ms.len() - i,
{
    if i < ms.len() {
        let key = ms[i as int].0;
        let d = ms[i as int].1;
        if key == arguments_key() {
            let (b2, ok) = spec_merge_arguments(b, d);
            if ok {
                lemma_members_object(b2, ms, i + 1);
            }
        } else {
            let bm = b->Object_0;
            match member_lookup(bm, key) {
                Some(existing) => {
                    if existing is Object && d is Object {
                        let (e2, ok) = spec_merge_object(existing, d);
                        if ok {
                            lemma_members_object(JsonView::Object(set_member(bm, key, e2)), ms, i + 1);
                        }
                    } else {
                        lemma_members_object(JsonView::Object(set_member(bm, key, d)), ms, i + 1);
                    }
                },
                None => {
                    lemma_members_object(JsonView::Object(set_member(bm, key, d)), ms, i + 1);
                },
            }
        }
    }
}

/// Merging an object declaration leaves an object.
proof fn lemma_merge_object_is_object(b: JsonView, d: JsonView)
    requires
        d is Object,
    ensures
        spec_merge_object(b, d).0 is Object,
{
    let start = if b is Object {
        b
    } else {
        JsonView::Object(Seq::empty())
    };
    lemma_members_object(start, d->Object_0, 0);
}

/// A successful merge leaves under a declared key (other than `arguments`) the step value of
/// what the base held there.
proof fn lemma_step_effect(b: JsonView, ms: Seq<(Seq<char>, JsonView)>, i: nat, p: int)
    requires
        b is Object,
        keys_distinct(ms),
        i <= p < ms.len(),
        ms[p].0 != arguments_key(),
        spec_merge_members(b, ms, i).1,
    ensures
        lookup(spec_merge_members(b, ms, i).0, ms[p].0) == Some(step_value(lookup(b, ms[p].0), ms[p].1)),
        step_ok(lookup(b, ms[p].0), ms[p].1),
    decreases ms.len() - i,
{
    let key = ms[i as int].0;
    let d = ms[i as int].1;
    let k = ms[p].0;
    let bm = b->Object_0;
    if i == p {
        let x = step_value(lookup(b, k), d);
        crate::json::lemma_lookup_set_same(bm, k, x);
        let b2 = JsonView::Object(set_member(bm, k, x));
        assert forall|j: int| i + 1 <= j < ms.len() implies (#[trigger] ms[j]).0 != k by {
            assert(ms[j].0 != ms[p].0);
        }
        lemma_merge_members_keeps(b2, ms, i + 1, k);
    } else {
        assert(key != k);
        if key == arguments_key() {
            lemma_merge_arguments_keeps_others(b, d, k);
            let (b2, ok) = spec_merge_arguments(b, d);
            lemma_step_effect(b2, ms, i + 1, p);
        } else {
            let e = member_lookup(bm, key);
            let x = step_value(e, d);
            crate::json::lemma_lookup_set_other(bm, key, x, k);
            lemma_step_effect(JsonView::Object(set_member(bm, key, x)), ms, i + 1, p);
        }
    }
}

/// A successful merge leaves under `arguments` what the declared list makes of what the base
/// held there.
proof fn lemma_arguments_effect(b: JsonView, ms: Seq<(Seq<char>, JsonView)>, i: nat, p: int)
    requires
        b is Object,
        keys_distinct(ms),
        i <= p < ms.len(),
        ms[p].0 == arguments_key(),
        spec_merge_members(b, ms, i).1,
    ensures
        ms[p].1 is Array,
        lookup(spec_merge_members(b, ms, i).0, arguments_key()) == Some(
            arguments_value(lookup(b, arguments_key()), ms[p].1->Array_0),
        ),
        arguments_ok(lookup(b, arguments_key()), ms[p].1->Array_0),
    decreases ms.len() - i,
{
    let key = ms[i as int].0;
    let d = ms[i as int].1;
    let bm = b->Object_0;
    if i == p {
        let (b2, ok) = spec_merge_arguments(b, d);
        let list = d->Array_0;
        crate::json::lemma_lookup_set_same(bm, arguments_key(), arguments_value(lookup(b, arguments_key()), list));
        assert forall|j: int| i + 1 <= j < ms.len() implies (#[trigger] ms[j]).0 != arguments_key() by {
            assert(ms[j].0 != ms[p].0);
        }
        lemma_merge_members_keeps(b2, ms, i + 1, arguments_key());
    } else {
        assert(key != arguments_key()) by {
            assert(ms[i as int].0 != ms[p].0);
        }
        let e = member_lookup(bm, key);
        let x = step_value(e, d);
        crate::json::lemma_lookup_set_other(bm, key, x, arguments_key());
        lemma_arguments_effect(JsonView::Object(set_member(bm, key, x)), ms, i + 1, p);
    }
}

/// Merging a plain entry that carries a name leaves that name on the result.
proof fn lemma_merge_keeps_name(x: JsonView, e: JsonView)
    requires
        plain_declaration(e),
        entry_name(e) is Some,
        spec_merge_object(x, e).1,
    ensures
        entry_name(spec_merge_object(x, e).0) == entry_name(e),
{
    let ms = e->Object_0;
    let start = if x is Object {
        x
    } else {
        JsonView::Object(Seq::empty())
    };
    crate::json::lemma_find_key(ms, name_key());
    let p = crate::json::find_key(ms, name_key())->0;
    reveal_strlit("name");
    reveal_strlit("arguments");
    assert(name_key() != arguments_key()) by {
        assert(name_key().len() != arguments_key().len());
    }
    lemma_step_effect(start, ms, 0, p);
}

/// Searching by name sees only the names.
proof fn lemma_find_named_same_names(a: Seq<JsonView>, b: Seq<JsonView>, name: Seq<char>, start: int)
    requires
        a.len() == b.len(),
        forall|m: int| 0 <= m < a.len() ==> entry_name(#[trigger] a[m]) == entry_name(b[m]),
        0 <= start,
    ensures
        find_named_from(a, name, start) == find_named_from(b, name, start),
    decreases a.len() - start,
{
    if start < a.len() {
        lemma_find_named_same_names(a, b, name, start + 1);
    }
}

/// What a successful merge of declared entries does: it keeps every entry's name, leaves the
/// entry each declared one names merged with it, and leaves every other entry alone.
proof fn lemma_entries_effect(items: Seq<JsonView>, list: Seq<JsonView>, j: nat)
    requires
        names_distinct(list),
        plain_entries(list, 0),
        j <= list.len(),
        spec_merge_entries(items, list, j).1,
    ensures
        ({
            let ex = spec_merge_entries(items, list, j).0;
            &&& ex.len() == items.len()
            &&& forall|m: int| 0 <= m < items.len() ==> entry_name(#[trigger] ex[m]) == entry_name(items[m])
            &&& forall|k: int| j <= k < list.len() ==> ({
                let idx = find_named(items, entry_name(list[k])->0);
                &&& idx is Some
                &&& 0 <= idx->0 < items.len()
                &&& ex[idx->0] == spec_merge_object(items[idx->0], #[trigger] list[k]).0
                &&& spec_merge_object(items[idx->0], list[k]).1
            })
            &&& forall|m: int| 0 <= m < items.len() && (forall|k: int| j <= k < list.len() ==> find_named(items, entry_name(#[trigger] list[k])->0) != Some(m)) ==> #[trigger] ex[m] == items[m]
        }),
    decreases list.len() - j,
{
    if j < list.len() {
        lemma_plain_entries_at(list, 0, j as int);
        let n = entry_name(list[j as int])->0;
        lemma_find_named_bounds(items, n, 0);
        let idx = find_named(items, n)->0;
        let (e2, ok) = spec_merge_object(items[idx], list[j as int]);
        let items2 = items.update(idx, e2);
        lemma_merge_keeps_name(items[idx], list[j as int]);
        assert forall|m: int| 0 <= m < items.len() implies entry_name(#[trigger] items2[m]) == entry_name(items[m]) by {
            if m == idx {
                assert(entry_name(items[idx]) == Some(n));
            }
        }
        lemma_entries_effect(items2, list, j + 1);
        let ex = spec_merge_entries(items, list, j).0;
        assert(ex == spec_merge_entries(items2, list, j + 1).0);
        assert forall|k: int| j <= k < list.len() implies ({
            let idx_k = find_named(items, entry_name(list[k])->0);
            &&& idx_k is Some
            &&& 0 <= idx_k->0 < items.len()
            &&& ex[idx_k->0] == spec_merge_object(items[idx_k->0], #[trigger] list[k]).0
            &&& spec_merge_object(items[idx_k->0], list[k]).1
        }) by {
            lemma_find_named_same_names(items2, items, entry_name(list[k])->0, 0);
            if k > j {
                lemma_plain_entries_at(list, 0, k);
                let idx_k = find_named(items2, entry_name(list[k])->0)->0;
                lemma_find_named_bounds(items2, entry_name(list[k])->0, 0);
                assert(entry_name(list[k]) != entry_name(list[j as int]));
                assert(idx_k != idx) by {
                    lemma_find_named_bounds(items, n, 0);
                }
                assert(items2[idx_k] == items[idx_k]);
            } else {
                assert forall|k2: int| j + 1 <= k2 < list.len() implies find_named(items2, entry_name(#[trigger] list[k2])->0) != Some(idx) by {
                    lemma_find_named_same_names(items2, items, entry_name(list[k2])->0, 0);
                    lemma_plain_entries_at(list, 0, k2);
                    lemma_find_named_bounds(items, entry_name(list[k2])->0, 0);
                    assert(entry_name(list[k2]) != entry_name(list[j as int]));
                }
            }
        }
        assert forall|m: int| 0 <= m < items.len() && (forall|k: int| j <= k < list.len() ==> find_named(items, entry_name(#[trigger] list[k])->0) != Some(m)) implies #[trigger] ex[m] == items[m] by {
            assert(find_named(items, entry_name(list[j as int])->0) != Some(m));
            assert forall|k: int| j + 1 <= k < list.len() implies find_named(items2, entry_name(#[trigger] list[k])->0) != Some(m) by {
                lemma_find_named_same_names(items2, items, entry_name(list[k])->0, 0);
            }
        }
    }
}

/// A merge that succeeded leaves a result that absorbs the declaration.
proof fn lemma_merge_absorbs(b: JsonView, d: JsonView)
    requires
        plain_declaration(d),
        spec_merge_object(b, d).1,
    ensures
        spec_merge_object(spec_merge_object(b, d).0, d) == (spec_merge_object(b, d).0, true),
    decreases d, 2nat,
{
    match d {
        JsonView::Object(ms) => {
            let start = if b is Object {
                b
            } else {
                JsonView::Object(Seq::empty())
            };
            let r = spec_merge_members(start, ms, 0).0;
            lemma_members_object(start, ms, 0);
            lemma_second_pass(start, ms, r, 0);
        },
        _ => {},
    }
}

/// Merging the declared members from the `i`-th on into the result of a successful merge of
/// all of them changes nothing.
proof fn lemma_second_pass(b: JsonView, ms: Seq<(Seq<char>, JsonView)>, r: JsonView, i: nat)
    requires
        b is Object,
        keys_distinct(ms),
        plain_members(ms, 0),
        spec_merge_members(b, ms, 0) == (r, true),
        i <= ms.len(),
    ensures
        spec_merge_members(r, ms, i) == (r, true),
    decreases ms, ms.len() - i,
{
    if i < ms.len() {
        vstd::seq::axiom_seq_index_decreases(ms, i as int);
        let key = ms[i as int].0;
        let d = ms[i as int].1;
        lemma_members_object(b, ms, 0);
        let rm = r->Object_0;
        lemma_plain_members_at(ms, 0, i as int);
        if key == arguments_key() {
            lemma_arguments_effect(b, ms, 0, i as int);
            let list = d->Array_0;
            assert(decreases_to!(ms => list)) by {
                vstd::seq::axiom_seq_index_decreases(ms, i as int);
                assert(decreases_to!(ms[i as int] => d));
                assert(decreases_to!(d => list));
            }
            let e = lookup(b, arguments_key());
            match e {
                Some(JsonView::Array(items)) => {
                    lemma_entries_absorb(items, list);
                },
                _ => {
                    lemma_self_entries(list, 0);
                },
            }
            let ex = arguments_value(e, list);
            crate::json::lemma_set_member_same(rm, arguments_key(), ex);
            assert(spec_merge_arguments(r, d) == (r, true));
        } else {
            lemma_step_effect(b, ms, 0, i as int);
            let e = lookup(b, key);
            let x = step_value(e, d);
            if x is Object && d is Object {
                match e {
                    Some(obj) => {
                        if obj is Object {
                            lemma_merge_absorbs(obj, d);
                        } else {
                            lemma_self_merge(d);
                        }
                    },
                    None => {
                        lemma_self_merge(d);
                    },
                }
            } else {
                match e {
                    Some(obj) => {
                        if obj is Object && d is Object {
                            lemma_merge_object_is_object(obj, d);
                        }
                    },
                    None => {},
                }
            }
            crate::json::lemma_set_member_same(rm, key, x);
        }
        lemma_second_pass(b, ms, r, i + 1);
        assert(spec_merge_members(r, ms, i) == spec_merge_members(r, ms, i + 1));
    }
}

/// Merging declared entries again into the result of merging them changes nothing.
proof fn lemma_entries_absorb(items: Seq<JsonView>, list: Seq<JsonView>)
    requires
        names_distinct(list),
        plain_entries(list, 0),
        spec_merge_entries(items, list, 0).1,
    ensures
        spec_merge_entries(spec_merge_entries(items, list, 0).0, list, 0) == (spec_merge_entries(items, list, 0).0, true),
    decreases list, list.len() + 1,
{
    lemma_entries_effect(items, list, 0);
    lemma_entries_second_pass(items, list, spec_merge_entries(items, list, 0).0, 0);
}

proof fn lemma_entries_second_pass(items: Seq<JsonView>, list: Seq<JsonView>, ex: Seq<JsonView>, j: nat)
    requires
        names_distinct(list),
        plain_entries(list, 0),
        spec_merge_entries(items, list, 0) == (ex, true),
        j <= list.len(),
    ensures
        spec_merge_entries(ex, list, j) == (ex, true),
    decreases list, list.len() - j,
{
    if j < list.len() {
        vstd::seq::axiom_seq_index_decreases(list, j as int);
        lemma_entries_effect(items, list, 0);
        lemma_plain_entries_at(list, 0, j as int);
        let n = entry_name(list[j as int])->0;
        lemma_find_named_same_names(ex, items, n, 0);
        let idx = find_named(items, n)->0;
        assert(ex[idx] == spec_merge_object(items[idx], list[j as int]).0);
        lemma_merge_absorbs(items[idx], list[j as int]);
        assert(ex.update(idx, ex[idx]) =~= ex);
        lemma_entries_second_pass(items, list, ex, j + 1);
    }
}

/// Enhancing a declaration twice with the same plain declaration is enhancing it once: a
/// merge that succeeded, repeated on its own result, succeeds and changes nothing.
pub proof fn law_merge_is_idempotent(base: JsonView, declaration: JsonView)
    requires
        plain_declaration(declaration),
        spec_merge_object(base, declaration).1,
    ensures
        spec_merge_object(spec_merge_object(base, declaration).0, declaration) == (
            spec_merge_object(base, declaration).0,
            true,
        ),
{
    lemma_merge_absorbs(base, declaration);
}

} // verus!
