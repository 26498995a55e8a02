//! Documents, and the two shapes of their fields: groups as nested objects, or
//! every value at the top under its whole path.
use crate::definition::{
    FieldDefinition, FieldType, flatten_array_sub_fields, prefixed, prefixed_name, referred,
    row_fields,
};
use crate::json::{
    Entries, Json, JsonView, copy_entries, entries_view, entries_view_index, get_value,
    insert_entry, json_view, value_of, value_with, with,
};
use crate::text::{cat2, push_item, same, starts_with};
use vstd::prelude::*;

verus! {

/// One stored document.
#[derive(Debug, PartialEq, Eq)]
pub struct Document {
    pub id: String,
    pub fields: Vec<(String, Json)>,
    pub created_at: Option<String>,
    pub updated_at: Option<String>,
}

/// The mathematical value of a [`Document`].
#[verifier::ext_equal]
pub ghost struct DocumentView {
    pub id: Seq<char>,
    pub fields: Entries,
    pub created_at: Option<Seq<char>>,
    pub updated_at: Option<Seq<char>>,
}

impl DeepView for Document {
    type V = DocumentView;

    open spec fn deep_view(&self) -> DocumentView {
        DocumentView {
            id: self.id@,
            fields: entries_view(self.fields@),
            created_at: self.created_at.deep_view(),
            updated_at: self.updated_at.deep_view(),
        }
    }
}

impl Document {
    /// Another document equal to this one.
    pub fn copy(&self) -> (r: Document)
        ensures
            r.deep_view() == self.deep_view(),
    {
        Document {
            id: self.id.clone(),
            fields: copy_entries(&self.fields),
            created_at: match &self.created_at {
                Some(t) => Some(t.clone()),
                None => None,
            },
            updated_at: match &self.updated_at {
                Some(t) => Some(t.clone()),
                None => None,
            },
        }
    }
}

/// Other documents equal to these.
pub fn copy_documents(documents: &Vec<Document>) -> (r: Vec<Document>)
    ensures
        r.deep_view() == documents.deep_view(),
{
    let ghost all = documents.deep_view();
    let mut copies: Vec<Document> = Vec::new();
    let mut i: usize = 0;
    assert(copies.deep_view() =~= all.take(0));
    while i < documents.len()
        invariant
            i <= documents.len(),
            all == documents.deep_view(),
            copies.deep_view() == all.take(i as int),
        decreases documents.len() - i,
    {
        push_item(&mut copies, documents[i].copy());
        assert(all.take(i + 1) =~= all.take(i as int).push(documents@[i as int].deep_view()));
        i += 1;
    }
    assert(all.take(i as int) =~= all);
    copies
}

/// The first group called `name`.
pub open spec fn group_named(fields: Seq<FieldDefinition>, name: Seq<char>) -> Option<
    FieldDefinition,
>
    decreases fields.len(),
{
    if fields.len() == 0 {
        None
    } else {
        match group_named(fields.drop_last(), name) {
            Some(g) => Some(g),
            None => if fields.last().field_type == FieldType::Group && fields.last().name@ == name {
                Some(fields.last())
            } else {
                None
            },
        }
    }
}

fn find_group<'a>(fields: &Vec<&'a FieldDefinition>, name: &str) -> (r: Option<
    &'a FieldDefinition,
>)
    ensures
        match r {
            Some(g) => group_named(referred(fields@), name@) == Some(*g),
            None => group_named(referred(fields@), name@) is None,
        },
{
    let ghost all = referred(fields@);
    let mut found: Option<&'a FieldDefinition> = None;
    let mut i: usize = 0;
    assert(all.take(0) =~= Seq::<FieldDefinition>::empty());
    while i < fields.len()
        invariant
            i <= fields.len(),
            all == referred(fields@),
            match found {
                Some(g) => group_named(all.take(i as int), name@) == Some(*g),
                None => group_named(all.take(i as int), name@) is None,
            },
        decreases fields.len() - i,
    {
        assert(all.take(i + 1).drop_last() =~= all.take(i as int));
        assert(all.take(i + 1).last() == *fields@[i as int]);
        if found.is_none() && fields[i].field_type == FieldType::Group && same(
            fields[i].name.as_str(),
            name,
        ) {
            found = Some(fields[i]);
        }
        i += 1;
    }
    assert(all.take(i as int) =~= all);
    found
}

/// `base` with every entry of `added` in it.
pub open spec fn merged(base: Entries, added: Entries) -> Entries
    decreases added.len(),
{
    if added.len() == 0 {
        base
    } else {
        with(merged(base, added.drop_last()), added.last().0, added.last().1)
    }
}

/// The values with those of each group, an object under its name, put at the top
/// under their whole paths.
pub open spec fn flattened(entries: Entries, defs: Seq<FieldDefinition>, prefix: Seq<char>) -> Entries
    decreases entries,
{
    if entries.len() == 0 {
        Seq::empty()
    } else {
        let before = flattened(entries.drop_last(), defs, prefix);
        let key = entries.last().0;
        match (group_named(row_fields(defs), key), entries.last().1) {
            (Some(group), JsonView::Object(inner)) => merged(
                before,
                flattened(inner, group.fields@, prefixed(prefix, key)),
            ),
            (_, value) => with(before, prefixed(prefix, key), value),
        }
    }
}

fn merge(base: Vec<(String, Json)>, added: &Vec<(String, Json)>) -> (r: Vec<(String, Json)>)
    ensures
        entries_view(r@) == merged(entries_view(base@), entries_view(added@)),
{
    let ghost start = entries_view(base@);
    let mut all = base;
    let mut i: usize = 0;
    assert(added@.take(0) =~= Seq::<(String, Json)>::empty());
    while i < added.len()
        invariant
            i <= added.len(),
            entries_view(all@) == merged(start, entries_view(added@.take(i as int))),
        decreases added.len() - i,
    {
        let ghost now = added@.take(i + 1);
        assert(now.drop_last() =~= added@.take(i as int));
        assert(entries_view(now).drop_last() =~= entries_view(now.drop_last()));
        all = insert_entry(all, added[i].0.as_str(), added[i].1.copy());
        i += 1;
    }
    assert(added@.take(i as int) =~= added@);
    all
}

fn flatten_entries(
    entries: &Vec<(String, Json)>,
    defs: &Vec<FieldDefinition>,
    prefix: &str,
) -> (r: Vec<(String, Json)>)
    ensures
        entries_view(r@) == flattened(entries_view(entries@), defs@, prefix@),
    decreases entries,
{
    let fields = flatten_array_sub_fields(defs);
    let mut flat: Vec<(String, Json)> = Vec::new();
    let mut i: usize = 0;
    assert(entries@.take(0) =~= Seq::<(String, Json)>::empty());
    while i < entries.len()
        invariant
            i <= entries.len(),
            referred(fields@) == row_fields(defs@),
            entries_view(flat@) == flattened(entries_view(entries@.take(i as int)), defs@, prefix@),
        decreases entries.len() - i,
    {
        let ghost now = entries@.take(i + 1);
        assert(now.drop_last() =~= entries@.take(i as int));
        assert(entries_view(now).drop_last() =~= entries_view(now.drop_last()));
        assert(entries_view(now).last() == (
            entries@[i as int].0@,
            json_view(entries@[i as int].1),
        ));
        assert(decreases_to!(entries => entries@[i as int]));
        let key = entries[i].0.as_str();
        let path = prefixed_name(prefix, key);
        match (find_group(&fields, key), &entries[i].1) {
            (Some(group), Json::Object(inner)) => {
                let below = flatten_entries(inner, &group.fields, path.as_str());
                flat = merge(flat, &below);
            },
            (_, value) => {
                flat = insert_entry(flat, path.as_str(), value.copy());
            },
        }
        i += 1;
    }
    assert(entries@.take(i as int) =~= entries@);
    flat
}

/// The values of a document with those of its groups at the top, under their
/// whole paths.
pub fn flatten_group_fields(entries: &Vec<(String, Json)>, defs: &Vec<FieldDefinition>) -> (r: Vec<
    (String, Json),
>)
    ensures
        entries_view(r@) == flattened(entries_view(entries@), defs@, Seq::empty()),
{
    proof {
        reveal_strlit("");
    }
    assert(""@ =~= Seq::<char>::empty());
    flatten_entries(entries, defs, "")
}

/// The first group that the path `key` lies in.
pub open spec fn group_around(fields: Seq<FieldDefinition>, key: Seq<char>) -> Option<
    FieldDefinition,
>
    decreases fields.len(),
{
    if fields.len() == 0 {
        None
    } else {
        match group_around(fields.drop_last(), key) {
            Some(g) => Some(g),
            None => if fields.last().field_type == FieldType::Group && (fields.last().name@
                + "__"@).is_prefix_of(key) {
                Some(fields.last())
            } else {
                None
            },
        }
    }
}

fn find_group_around<'a>(fields: &Vec<&'a FieldDefinition>, key: &str) -> (r: Option<
    &'a FieldDefinition,
>)
    ensures
        match r {
            Some(g) => group_around(referred(fields@), key@) == Some(*g),
            None => group_around(referred(fields@), key@) is None,
        },
{
    let ghost all = referred(fields@);
    let mut found: Option<&'a FieldDefinition> = None;
    let mut i: usize = 0;
    assert(all.take(0) =~= Seq::<FieldDefinition>::empty());
    while i < fields.len()
        invariant
            i <= fields.len(),
            all == referred(fields@),
            match found {
                Some(g) => group_around(all.take(i as int), key@) == Some(*g),
                None => group_around(all.take(i as int), key@) is None,
            },
        decreases fields.len() - i,
    {
        assert(all.take(i + 1).drop_last() =~= all.take(i as int));
        assert(all.take(i + 1).last() == *fields@[i as int]);
        if found.is_none() && fields[i].field_type == FieldType::Group {
            let lead = cat2(fields[i].name.as_str(), "__");
            if starts_with(key, lead.as_str()) {
                found = Some(fields[i]);
            }
        }
        i += 1;
    }
    assert(all.take(i as int) =~= all);
    found
}

proof fn group_around_leads(fields: Seq<FieldDefinition>, key: Seq<char>)
    ensures
        match group_around(fields, key) {
            Some(g) => (g.name@ + "__"@).is_prefix_of(key) && g.name@.len() + 2 <= key.len(),
            None => true,
        },
    decreases fields.len(),
{
    reveal_strlit("__");
    if fields.len() > 0 {
        group_around_leads(fields.drop_last(), key);
    }
}

/// The entries of the object under a name; none, where there is no object.
pub open spec fn object_under(entries: Entries, name: Seq<char>) -> Entries {
    match value_of(entries, name) {
        Some(JsonView::Object(inner)) => inner,
        _ => Seq::empty(),
    }
}

/// The values with one more, put into the objects of the groups its path names.
pub open spec fn placed(
    entries: Entries,
    defs: Seq<FieldDefinition>,
    key: Seq<char>,
    value: JsonView,
) -> Entries
    decreases key.len(),
{
    match group_around(row_fields(defs), key) {
        None => with(entries, key, value),
        Some(group) => if group.name@.len() + 2 <= key.len() {
            with(
                entries,
                group.name@,
                JsonView::Object(
                    placed(
                        object_under(entries, group.name@),
                        group.fields@,
                        key.skip(group.name@.len() as int + 2),
                        value,
                    ),
                ),
            )
        } else {
            entries
        },
    }
}

fn place(
    entries: Vec<(String, Json)>,
    defs: &Vec<FieldDefinition>,
    key: &str,
    value: Json,
) -> (r: Vec<(String, Json)>)
    ensures
        entries_view(r@) == placed(entries_view(entries@), defs@, key@, json_view(value)),
    decreases key@.len(),
{
    let fields = flatten_array_sub_fields(defs);
    match find_group_around(&fields, key) {
        None => insert_entry(entries, key, value),
        Some(group) => {
            proof {
                group_around_leads(row_fields(defs@), key@);
            }
            let name = group.name.as_str();
            let to: usize = key.unicode_len();
            let from: usize = name.unicode_len() + 2;
            let rest = key.substring_char(from, to);
            assert(rest@ =~= key@.skip(group.name@.len() as int + 2));
            let inner = match get_value(&entries, name) {
                Some(Json::Object(inner)) => inner,
                _ => Vec::new(),
            };
            assert(entries_view(inner@) =~= object_under(entries_view(entries@), name@));
            let below = place(inner, &group.fields, rest, value);
            insert_entry(entries, name, Json::Object(below))
        },
    }
}

/// The values with those inside a group put into an object under its name.
pub open spec fn nested(flat: Entries, defs: Seq<FieldDefinition>) -> Entries
    decreases flat.len(),
{
    if flat.len() == 0 {
        Seq::empty()
    } else {
        placed(nested(flat.drop_last(), defs), defs, flat.last().0, flat.last().1)
    }
}

/// The values of a document with those inside a group in an object under its
/// name.
pub fn nest_group_fields(flat: &Vec<(String, Json)>, defs: &Vec<FieldDefinition>) -> (r: Vec<
    (String, Json),
>)
    ensures
        entries_view(r@) == nested(entries_view(flat@), defs@),
{
    let mut all: Vec<(String, Json)> = Vec::new();
    let mut i: usize = 0;
    assert(flat@.take(0) =~= Seq::<(String, Json)>::empty());
    while i < flat.len()
        invariant
            i <= flat.len(),
            entries_view(all@) == nested(entries_view(flat@.take(i as int)), defs@),
        decreases flat.len() - i,
    {
        let ghost now = flat@.take(i + 1);
        assert(now.drop_last() =~= flat@.take(i as int));
        assert(entries_view(now).drop_last() =~= entries_view(now.drop_last()));
        all = place(all, defs, flat[i].0.as_str(), flat[i].1.copy());
        i += 1;
    }
    assert(flat@.take(i as int) =~= flat@);
    all
}

/// What becomes of `result` for one entry of the source: an empty group that is
/// missing is put back, and one that is there is gone through. What no group is
/// called is left as it is.
pub open spec fn with_empty_group(
    result: Entries,
    defs: Seq<FieldDefinition>,
    key: Seq<char>,
    value: JsonView,
) -> Entries
    decreases value,
{
    match (group_named(row_fields(defs), key), value) {
        (Some(group), JsonView::Object(object)) => match value_of(result, key) {
            Some(JsonView::Object(inner)) => with(
                result,
                key,
                JsonView::Object(with_empty_groups(object, group.fields@, inner)),
            ),
            Some(_) => result,
            None => if object.len() == 0 {
                with(result, key, JsonView::Object(Seq::empty()))
            } else {
                result
            },
        },
        _ => result,
    }
}

/// `result` with the empty groups of `source` that are missing from it, at any
/// depth.
pub open spec fn with_empty_groups(
    source: Entries,
    defs: Seq<FieldDefinition>,
    result: Entries,
) -> Entries
    decreases source,
{
    if source.len() == 0 {
        result
    } else {
        with_empty_group(
            with_empty_groups(source.drop_last(), defs, result),
            defs,
            source.last().0,
            source.last().1,
        )
    }
}

/// `result` with the empty groups of `source` that putting every value at the
/// top left no trace of.
pub fn keep_empty_groups(
    source: &Vec<(String, Json)>,
    defs: &Vec<FieldDefinition>,
    result: Vec<(String, Json)>,
) -> (r: Vec<(String, Json)>)
    ensures
        entries_view(r@) == with_empty_groups(
            entries_view(source@),
            defs@,
            entries_view(result@),
        ),
    decreases source,
{
    let ghost start = entries_view(result@);
    let fields = flatten_array_sub_fields(defs);
    let mut kept = result;
    let mut i: usize = 0;
    assert(source@.take(0) =~= Seq::<(String, Json)>::empty());
    while i < source.len()
        invariant
            i <= source.len(),
            referred(fields@) == row_fields(defs@),
            entries_view(kept@) == with_empty_groups(
                entries_view(source@.take(i as int)),
                defs@,
                start,
            ),
        decreases source.len() - i,
    {
        let ghost now = source@.take(i + 1);
        assert(now.drop_last() =~= source@.take(i as int));
        assert(entries_view(now).drop_last() =~= entries_view(now.drop_last()));
        assert(entries_view(now).last() == (
            source@[i as int].0@,
            json_view(source@[i as int].1),
        ));
        assert(decreases_to!(source => source@[i as int]));
        let key = source[i].0.as_str();
        let ghost before = entries_view(kept@);
        if let (Some(group), Json::Object(object)) = (find_group(&fields, key), &source[i].1) {
            proof {
                entries_view_index(object@);
            }
            match get_value(&kept, key) {
                Some(Json::Object(inner)) => {
                    let below = keep_empty_groups(object, &group.fields, inner);
                    kept = insert_entry(kept, key, Json::Object(below));
                },
                Some(_) => {},
                None => {
                    if object.len() == 0 {
                        let none: Vec<(String, Json)> = Vec::new();
                        assert(entries_view(none@) =~= Seq::empty());
                        kept = insert_entry(kept, key, Json::Object(none));
                    }
                },
            }
        }
        assert(entries_view(kept@) == with_empty_group(
            before,
            defs@,
            key@,
            json_view(source@[i as int].1),
        ));
        i += 1;
    }
    assert(source@.take(i as int) =~= source@);
    kept
}

proof fn other_entries_stay(
    source: Entries,
    defs: Seq<FieldDefinition>,
    result: Entries,
    key: Seq<char>,
)
    requires
        group_named(row_fields(defs), key) is None || forall|j: int|
            0 <= j < source.len() ==> (#[trigger] source[j]).0 != key,
    ensures
        value_of(with_empty_groups(source, defs, result), key) == value_of(result, key),
    decreases source.len(),
{
    if source.len() > 0 {
        let front = source.drop_last();
        if group_named(row_fields(defs), key) is Some {
            assert forall|j: int| 0 <= j < front.len() implies (#[trigger] front[j]).0 != key by {
                assert(front[j] == source[j]);
            }
            assert(source[source.len() - 1].0 != key);
        }
        other_entries_stay(front, defs, result, key);
        one_entry_leaves_others(
            with_empty_groups(front, defs, result),
            defs,
            source.last().0,
            source.last().1,
            key,
        );
    }
}

proof fn one_entry_leaves_others(
    result: Entries,
    defs: Seq<FieldDefinition>,
    key: Seq<char>,
    value: JsonView,
    other: Seq<char>,
)
    requires
        other != key || group_named(row_fields(defs), key) is None,
    ensures
        value_of(with_empty_group(result, defs, key, value), other) == value_of(result, other),
{
    if let (Some(group), JsonView::Object(object)) = (group_named(row_fields(defs), key), value) {
        match value_of(result, key) {
            Some(JsonView::Object(inner)) => {
                value_with(
                    result,
                    key,
                    JsonView::Object(with_empty_groups(object, group.fields@, inner)),
                    other,
                );
            },
            _ => {
                value_with(result, key, JsonView::Object(Seq::empty()), other);
            },
        }
    }
}

/// An empty group of the source that left no trace is put back.
pub proof fn an_empty_group_survives(
    source: Entries,
    defs: Seq<FieldDefinition>,
    result: Entries,
    i: int,
)
    requires
        0 <= i < source.len(),
        group_named(row_fields(defs), source[i].0) is Some,
        source[i].1 == JsonView::Object(Seq::empty()),
        forall|j: int|
            0 <= j < source.len() && j != i ==> (#[trigger] source[j]).0 != source[i].0,
        value_of(result, source[i].0) is None,
    ensures
        value_of(with_empty_groups(source, defs, result), source[i].0) == Some(
            JsonView::Object(Seq::empty()),
        ),
    decreases source.len(),
{
    let front = source.drop_last();
    let key = source[i].0;
    assert forall|j: int| 0 <= j < front.len() implies #[trigger] front[j] == source[j] by {}
    if i == source.len() - 1 {
        other_entries_stay(front, defs, result, key);
        let before = with_empty_groups(front, defs, result);
        value_with(before, key, JsonView::Object(Seq::empty()), key);
        let empty = JsonView::Object(Seq::empty());
        assert(with_empty_group(before, defs, key, empty) == with(before, key, empty));
        assert(with_empty_groups(source, defs, result) == with_empty_group(
            before,
            defs,
            key,
            empty,
        ));
    } else {
        an_empty_group_survives(front, defs, result, i);
        assert(source[source.len() - 1].0 != key);
        one_entry_leaves_others(
            with_empty_groups(front, defs, result),
            defs,
            source.last().0,
            source.last().1,
            key,
        );
    }
}

/// Nothing but a group is put back: what is under another name stays as it is.
pub proof fn only_groups_are_put_back(
    source: Entries,
    defs: Seq<FieldDefinition>,
    result: Entries,
    key: Seq<char>,
)
    requires
        group_named(row_fields(defs), key) is None,
    ensures
        value_of(with_empty_groups(source, defs, result), key) == value_of(result, key),
{
    other_entries_stay(source, defs, result, key);
}

proof fn a_group_around_has_its_name(fields: Seq<FieldDefinition>, key: Seq<char>)
    ensures
        group_around(fields, key) matches Some(g) ==> group_named(fields, g.name@) is Some,
    decreases fields.len(),
{
    if fields.len() > 0 {
        a_group_around_has_its_name(fields.drop_last(), key);
    }
}

/// Putting the groups together adds nothing at the top but groups.
pub proof fn nesting_adds_only_groups(flat: Entries, defs: Seq<FieldDefinition>, key: Seq<char>)
    requires
        group_named(row_fields(defs), key) is None,
        value_of(flat, key) is None,
    ensures
        value_of(nested(flat, defs), key) is None,
    decreases flat.len(),
{
    if flat.len() > 0 {
        let before = nested(flat.drop_last(), defs);
        nesting_adds_only_groups(flat.drop_last(), defs, key);
        let (at, value) = flat.last();
        group_around_leads(row_fields(defs), at);
        a_group_around_has_its_name(row_fields(defs), at);
        match group_around(row_fields(defs), at) {
            None => {
                value_with(before, at, value, key);
            },
            Some(group) => {
                value_with(
                    before,
                    group.name@,
                    JsonView::Object(
                        placed(
                            object_under(before, group.name@),
                            group.fields@,
                            at.skip(group.name@.len() as int + 2),
                            value,
                        ),
                    ),
                    key,
                );
            },
        }
    }
}

} // verus!
