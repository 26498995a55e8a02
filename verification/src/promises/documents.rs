//! Groups: values inside them at the top under their whole path, and back again.
use crate::definition::{FieldDefinition, FieldType, prefixed, row_fields};
use crate::document::{flattened, group_around, group_named, merged, nested, object_under, placed};
use crate::json::{Entries, JsonView, value_of, value_with, with};
use vstd::prelude::*;

verus! {

/// A group is found by its name: the first that has it.
pub proof fn a_group_is_found_by_name(fields: Seq<FieldDefinition>, name: Seq<char>, i: int)
    ensures
        0 <= i < fields.len() && fields[i].field_type == FieldType::Group && fields[i].name@ == name
            && (forall|k: int|
            0 <= k < i ==> (#[trigger] fields[k]).name@ != name || fields[k].field_type
                != FieldType::Group) ==> group_named(fields, name) == Some(fields[i]),
        (forall|k: int|
            0 <= k < fields.len() ==> (#[trigger] fields[k]).name@ != name || fields[k].field_type
                != FieldType::Group) ==> group_named(fields, name) is None,
    decreases fields.len(),
{
    if fields.len() > 0 {
        let front = fields.drop_last();
        a_group_is_found_by_name(front, name, i);
        assert forall|k: int| 0 <= k < front.len() implies #[trigger] front[k] == fields[k] by {}
        if i == fields.len() - 1 {
            assert((forall|k: int|
                0 <= k < i ==> (#[trigger] fields[k]).name@ != name || fields[k].field_type
                    != FieldType::Group) ==> (forall|k: int|
                0 <= k < front.len() ==> (#[trigger] front[k]).name@ != name || front[k].field_type
                    != FieldType::Group)) by {
                if forall|k: int|
                    0 <= k < i ==> (#[trigger] fields[k]).name@ != name || fields[k].field_type
                        != FieldType::Group {
                    assert forall|k: int| 0 <= k < front.len() implies (#[trigger] front[k]).name@
                        != name || front[k].field_type != FieldType::Group by {
                        assert(front[k] == fields[k]);
                    }
                }
            }
        } else if 0 <= i < front.len() {
            assert(front[i] == fields[i]);
            if forall|k: int|
                0 <= k < i ==> (#[trigger] fields[k]).name@ != name || fields[k].field_type
                    != FieldType::Group {
                assert forall|k: int| 0 <= k < i implies (#[trigger] front[k]).name@ != name
                    || front[k].field_type != FieldType::Group by {
                    assert(front[k] == fields[k]);
                }
            }
        }
        if forall|k: int|
            0 <= k < fields.len() ==> (#[trigger] fields[k]).name@ != name || fields[k].field_type
                != FieldType::Group {
            assert forall|k: int| 0 <= k < front.len() implies (#[trigger] front[k]).name@ != name
                || front[k].field_type != FieldType::Group by {
                assert(front[k] == fields[k]);
            }
            assert(fields.last() == fields[fields.len() - 1]);
        }
    }
}

proof fn added_values_win(base: Entries, added: Entries, key: Seq<char>)
    ensures
        value_of(merged(base, added), key) == match value_of(added, key) {
            Some(value) => Some(value),
            None => value_of(base, key),
        },
    decreases added.len(),
{
    if added.len() > 0 {
        added_values_win(base, added.drop_last(), key);
        value_with(merged(base, added.drop_last()), added.last().0, added.last().1, key);
    }
}

/// A value inside a group is put at the top under the group's name, a double underscore
/// and its own, at any depth; a value that is no group's stays under its name. What comes
/// later takes the place of what came before.
pub proof fn values_of_groups_are_put_at_the_top(
    before: Entries,
    defs: Seq<FieldDefinition>,
    prefix: Seq<char>,
    key: Seq<char>,
    value: JsonView,
    inner: Entries,
    group: FieldDefinition,
    other: Seq<char>,
)
    ensures
        group_named(row_fields(defs), key) is None || !(value is Object) ==> {
            let all = flattened(before.push((key, value)), defs, prefix);
            let path = if prefix.len() == 0 {
                key
            } else {
                prefix + "__"@ + key
            };
            &&& value_of(all, path) == Some(value)
            &&& other != path ==> value_of(all, other) == value_of(
                flattened(before, defs, prefix),
                other,
            )
        },
        group_named(row_fields(defs), key) == Some(group) ==> {
            let all = flattened(before.push((key, JsonView::Object(inner))), defs, prefix);
            let path = if prefix.len() == 0 {
                key
            } else {
                prefix + "__"@ + key
            };
            let below = flattened(inner, group.fields@, path);
            &&& value_of(below, other) is Some ==> value_of(all, other) == value_of(below, other)
            &&& value_of(below, other) is None ==> value_of(all, other) == value_of(
                flattened(before, defs, prefix),
                other,
            )
        },
{
    let front = flattened(before, defs, prefix);
    let path = prefixed(prefix, key);
    assert(before.push((key, value)).drop_last() =~= before);
    assert(before.push((key, JsonView::Object(inner))).drop_last() =~= before);
    value_with(front, path, value, other);
    added_values_win(front, flattened(inner, group.fields@, path), other);
    reveal_with_fuel(flattened, 2);
}

/// A value whose path begins with a group's name goes into that group's object, under the
/// rest of the path and by the group's own fields; any other stays where it is. Nothing
/// else changes.
pub proof fn values_go_back_into_their_groups(
    entries: Entries,
    defs: Seq<FieldDefinition>,
    key: Seq<char>,
    value: JsonView,
    group: FieldDefinition,
    rest: Seq<char>,
    other: Seq<char>,
)
    ensures
        group_around(row_fields(defs), key) is None ==> {
            let all = placed(entries, defs, key, value);
            &&& value_of(all, key) == Some(value)
            &&& other != key ==> value_of(all, other) == value_of(entries, other)
        },
        ({
            let whole = group.name@ + "__"@ + rest;
            group_around(row_fields(defs), whole) == Some(group) ==> {
                let all = placed(entries, defs, whole, value);
                &&& value_of(all, group.name@) == Some(
                    JsonView::Object(
                        placed(
                            object_under(entries, group.name@),
                            group.fields@,
                            rest,
                            value,
                        ),
                    ),
                )
                &&& other != group.name@ ==> value_of(all, other) == value_of(entries, other)
            }
        }),
{
    value_with(entries, key, value, other);
    let whole = group.name@ + "__"@ + rest;
    reveal_strlit("__");
    assert(whole.skip(group.name@.len() as int + 2) =~= rest);
    let inner = JsonView::Object(
        placed(object_under(entries, group.name@), group.fields@, rest, value),
    );
    value_with(entries, group.name@, inner, other);
    reveal_with_fuel(placed, 2);
}

/// Values are put into their groups one after another.
pub proof fn values_go_back_one_after_another(
    before: Entries,
    defs: Seq<FieldDefinition>,
    key: Seq<char>,
    value: JsonView,
)
    ensures
        nested(before.push((key, value)), defs) == placed(nested(before, defs), defs, key, value),
        nested(Seq::empty(), defs).len() == 0,
{
    assert(before.push((key, value)).drop_last() =~= before);
}

} // verus!
