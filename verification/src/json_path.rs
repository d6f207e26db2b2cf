//! Looking into a JSON tree: the value at a path, and all the paths there
//! are.

use crate::field_path::{parse_field_path, parts_view, path_parts, FieldPathPart, PartView};
use crate::json::{
    clone_number, items_view, lemma_array_view, lemma_object_view, members_view, JsonMember,
    JsonValue, JsonView,
};
use crate::ordered_map::{has_key, lemma_position_is, position};
use crate::text::{concat, decimal, push_decimal, str_eq};
use vstd::prelude::*;
use vstd::string::*;

verus! {

/// A copy of a tree.
pub fn copy_json(value: &JsonValue) -> (out: JsonValue)
    ensures
        out@ == value@,
    decreases value,
{
    match value {
        JsonValue::Null => JsonValue::Null,
        JsonValue::Bool(b) => JsonValue::Bool(*b),
        JsonValue::Number(n) => JsonValue::Number(clone_number(n)),
        JsonValue::String(s) => JsonValue::String(s.clone()),
        JsonValue::Array(items) => {
            let mut out: Vec<JsonValue> = Vec::new();
            let mut i: usize = 0;
            while i < items.len()
                invariant
                    i <= items.len(),
                    out.len() == i,
                    *value is Array,
                    *items == value->Array_0,
                    decreases_to!(*value => value->Array_0),
                    forall|k: int| 0 <= k < i ==> (#[trigger] out@[k])@ == items@[k]@,
                decreases items.len() - i,
            {
                assert(decreases_to!(*items => items[i as int]));
                out.push(copy_json(&items[i]));
                i += 1;
            }
            proof {
                lemma_array_view(*items);
                lemma_array_view(out);
                assert(items_view(out@) =~= items_view(items@));
            }
            JsonValue::Array(out)
        },
        JsonValue::Object(members) => {
            let mut out: Vec<JsonMember> = Vec::new();
            let mut i: usize = 0;
            while i < members.len()
                invariant
                    i <= members.len(),
                    out.len() == i,
                    *value is Object,
                    *members == value->Object_0,
                    decreases_to!(*value => value->Object_0),
                    forall|k: int|
                        0 <= k < i ==> (#[trigger] out@[k]).key@ == members@[k].key@ && out@[k].value@
                            == members@[k].value@,
                decreases members.len() - i,
            {
                assert(decreases_to!(*members => members[i as int]));
                out.push(
                    JsonMember { key: members[i].key.clone(), value: copy_json(&members[i].value) },
                );
                i += 1;
            }
            proof {
                lemma_object_view(*members);
                lemma_object_view(out);
                assert(members_view(out@) =~= members_view(members@));
            }
            JsonValue::Object(out)
        },
    }
}

/// One step into a tree: into the member of an object, or into the item of
/// an array; the message of a step that cannot be taken.
pub open spec fn step_into(current: JsonView, part: PartView) -> Result<JsonView, Seq<char>> {
    match part {
        PartView::Key(key) => match current {
            JsonView::Object(members) => if has_key(members, key) {
                Ok(members[position(members, key)].1)
            } else {
                Err("Field '"@ + key + "' not found in object"@)
            },
            _ => Err("Cannot access field '"@ + key + "' on non-object value"@),
        },
        PartView::Index(index) => match current {
            JsonView::Array(items) => if index < items.len() {
                Ok(items[index as int])
            } else {
                Err(
                    "Array index "@ + decimal(index as nat) + " out of bounds (length: "@ + decimal(
                        items.len(),
                    ) + ")"@,
                )
            },
            _ => Err("Cannot access index "@ + decimal(index as nat) + " on non-array value"@),
        },
    }
}

/// The value that the steps from `i` on lead to, or the message of the
/// first step that cannot be taken.
pub open spec fn walk(current: JsonView, parts: Seq<PartView>, i: int) -> Result<
    JsonView,
    Seq<char>,
>
    decreases parts.len() - i,
{
    if i < 0 || i >= parts.len() {
        Ok(current)
    } else {
        match step_into(current, parts[i]) {
            Ok(next) => walk(next, parts, i + 1),
            Err(e) => Err(e),
        }
    }
}

/// The value at a path in a tree.
pub open spec fn nested_field(value: JsonView, field_path: Seq<char>) -> Result<JsonView, Seq<char>> {
    walk(value, path_parts(field_path), 0)
}

/// The place of the first member with the given key.
fn find_member(members: &Vec<JsonMember>, key: &str) -> (r: Option<usize>)
    ensures
        match r {
            Some(i) => has_key(members_view(members@), key@) && i == position(
                members_view(members@),
                key@,
            ),
            None => !has_key(members_view(members@), key@),
        },
{
    let mut i: usize = 0;
    while i < members.len()
        invariant
            i <= members.len(),
            forall|j: int| 0 <= j < i ==> (#[trigger] members_view(members@)[j]).0 != key@,
        decreases members.len() - i,
    {
        if str_eq(members[i].key.as_str(), key) {
            proof {
                lemma_position_is(members_view(members@), key@, i as int, 0);
            }
            return Some(i);
        }
        i += 1;
    }
    proof {
        lemma_position_is(members_view(members@), key@, members@.len() as int, 0);
    }
    None
}

/// The value at a path in a tree, or why there is none.
pub fn extract_nested_field(value: &JsonValue, field_path: &str) -> (r: Result<JsonValue, String>)
    ensures
        match r {
            Ok(found) => nested_field(value@, field_path@) == Ok::<JsonView, Seq<char>>(found@),
            Err(e) => nested_field(value@, field_path@) == Err::<JsonView, Seq<char>>(e@),
        },
{
    let parts = parse_field_path(field_path);
    let ghost steps = parts_view(parts@);
    let mut current = value;
    let mut i: usize = 0;
    while i < parts.len()
        invariant
            i <= parts.len(),
            steps == parts_view(parts@),
            steps == path_parts(field_path@),
            walk(value@, steps, 0) == walk(current@, steps, i as int),
        decreases parts.len() - i,
    {
        assert(steps[i as int] == parts@[i as int]@);
        match &parts[i] {
            FieldPathPart::Key(key) => match current {
                JsonValue::Object(members) => {
                    proof {
                        lemma_object_view(*members);
                    }
                    match find_member(members, key.as_str()) {
                        Some(at) => {
                            current = &members[at].value;
                        },
                        None => {
                            let mut message = concat("Field '", key.as_str());
                            message.append("' not found in object");
                            return Err(message);
                        },
                    }
                },
                _ => {
                    let mut message = concat("Cannot access field '", key.as_str());
                    message.append("' on non-object value");
                    return Err(message);
                },
            },
            FieldPathPart::Index(index) => match current {
                JsonValue::Array(items) => {
                    proof {
                        lemma_array_view(*items);
                    }
                    if *index < items.len() {
                        current = &items[*index];
                    } else {
                        let mut message = String::from_str("Array index ");
                        push_decimal(&mut message, *index);
                        message.append(" out of bounds (length: ");
                        push_decimal(&mut message, items.len());
                        message.append(")");
                        return Err(message);
                    }
                },
                _ => {
                    let mut message = String::from_str("Cannot access index ");
                    push_decimal(&mut message, *index);
                    message.append(" on non-array value");
                    return Err(message);
                },
            },
        }
        i += 1;
    }
    Ok(copy_json(current))
}

/// The path of a member below `prefix`.
pub open spec fn member_path(prefix: Seq<char>, key: Seq<char>) -> Seq<char> {
    if prefix.len() == 0 {
        key
    } else {
        prefix + "."@ + key
    }
}

/// The path of an item below `prefix`.
pub open spec fn item_path(prefix: Seq<char>, index: nat) -> Seq<char> {
    prefix + "["@ + decimal(index) + "]"@
}

/// All paths into a tree, each below `prefix`: for every member of an
/// object and every item of an array its own path, then the paths below it.
pub open spec fn paths_of(tree: JsonView, prefix: Seq<char>) -> Seq<Seq<char>>
    decreases tree, 0nat,
{
    match tree {
        JsonView::Object(members) => member_paths(members, members.len(), prefix),
        JsonView::Array(items) => item_paths(items, items.len(), prefix),
        _ => Seq::empty(),
    }
}

/// The paths of the first `n` members of an object.
pub open spec fn member_paths(
    members: Seq<(Seq<char>, JsonView)>,
    n: nat,
    prefix: Seq<char>,
) -> Seq<Seq<char>>
    decreases members, n,
{
    if n == 0 || n > members.len() {
        Seq::empty()
    } else {
        let path = member_path(prefix, members[n - 1].0);
        member_paths(members, (n - 1) as nat, prefix).push(path) + paths_of(members[n - 1].1, path)
    }
}

/// The paths of the first `n` items of an array.
pub open spec fn item_paths(items: Seq<JsonView>, n: nat, prefix: Seq<char>) -> Seq<Seq<char>>
    decreases items, n,
{
    if n == 0 || n > items.len() {
        Seq::empty()
    } else {
        let path = item_path(prefix, (n - 1) as nat);
        item_paths(items, (n - 1) as nat, prefix).push(path) + paths_of(items[n - 1], path)
    }
}

/// Adds all paths into a tree to `paths`, each below `current_path`.
pub fn collect_field_paths(value: &JsonValue, current_path: &str, paths: &mut Vec<String>)
    ensures
        final(paths).deep_view() == old(paths).deep_view() + paths_of(value@, current_path@),
    decreases value,
{
    let ghost before = paths.deep_view();
    match value {
        JsonValue::Object(members) => {
            proof {
                lemma_object_view(*members);
            }
            let ghost views = members_view(members@);
            let mut i: usize = 0;
            assert(paths.deep_view() =~= before + member_paths(views, 0, current_path@));
            while i < members.len()
                invariant
                    i <= members.len(),
                    *value is Object,
                    *members == value->Object_0,
                    decreases_to!(*value => value->Object_0),
                    views == members_view(members@),
                    paths.deep_view() == before + member_paths(views, i as nat, current_path@),
                decreases members.len() - i,
            {
                let new_path = if current_path.is_empty() {
                    members[i].key.clone()
                } else {
                    let mut p = concat(current_path, ".");
                    p.append(members[i].key.as_str());
                    p
                };
                assert(new_path@ =~= member_path(current_path@, members@[i as int].key@));
                let ghost so_far = paths.deep_view();
                paths.push(new_path.clone());
                assert(paths.deep_view() =~= so_far.push(new_path@));
                assert(decreases_to!(*members => members[i as int]));
                collect_field_paths(&members[i].value, new_path.as_str(), paths);
                assert(views[i as int] == (members@[i as int].key@, members@[i as int].value@));
                assert(paths.deep_view() =~= before + member_paths(
                    views,
                    (i + 1) as nat,
                    current_path@,
                ));
                i += 1;
            }
        },
        JsonValue::Array(items) => {
            proof {
                lemma_array_view(*items);
            }
            let ghost views = items_view(items@);
            let mut i: usize = 0;
            assert(paths.deep_view() =~= before + item_paths(views, 0, current_path@));
            while i < items.len()
                invariant
                    i <= items.len(),
                    *value is Array,
                    *items == value->Array_0,
                    decreases_to!(*value => value->Array_0),
                    views == items_view(items@),
                    paths.deep_view() == before + item_paths(views, i as nat, current_path@),
                decreases items.len() - i,
            {
                let mut new_path = concat(current_path, "[");
                push_decimal(&mut new_path, i);
                new_path.append("]");
                assert(new_path@ =~= item_path(current_path@, i as nat));
                let ghost so_far = paths.deep_view();
                paths.push(new_path.clone());
                assert(paths.deep_view() =~= so_far.push(new_path@));
                assert(decreases_to!(*items => items[i as int]));
                collect_field_paths(&items[i], new_path.as_str(), paths);
                assert(views[i as int] == items@[i as int]@);
                assert(paths.deep_view() =~= before + item_paths(
                    views,
                    (i + 1) as nat,
                    current_path@,
                ));
                i += 1;
            }
        },
        _ => {
            assert(paths.deep_view() =~= before + Seq::<Seq<char>>::empty());
        },
    }
}

} // verus!
