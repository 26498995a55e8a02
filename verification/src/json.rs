//! JSON values, and the fields of a document as a list of named values.
use crate::text::{same, starts_with};
use vstd::prelude::*;

verus! {

/// A JSON value. A number is kept as it is written.
#[derive(Debug, PartialEq, Eq)]
pub enum Json {
    Null,
    Bool(bool),
    Number(String),
    Text(String),
    Array(Vec<Json>),
    Object(Vec<(String, Json)>),
}

/// The mathematical value of a [`Json`].
#[verifier::ext_equal]
pub ghost enum JsonView {
    Null,
    Bool(bool),
    Number(Seq<char>),
    Text(Seq<char>),
    Array(Seq<JsonView>),
    Object(Seq<(Seq<char>, JsonView)>),
}

/// Named values: each name at most once, in the order they were added.
pub type Entries = Seq<(Seq<char>, JsonView)>;

/// The mathematical value of a JSON value.
pub open spec fn json_view(j: Json) -> JsonView
    decreases j,
{
    match j {
        Json::Null => JsonView::Null,
        Json::Bool(b) => JsonView::Bool(b),
        Json::Number(n) => JsonView::Number(n@),
        Json::Text(s) => JsonView::Text(s@),
        Json::Array(items) => JsonView::Array(items_view(items@)),
        Json::Object(entries) => JsonView::Object(entries_view(entries@)),
    }
}

/// The mathematical values of several JSON values.
pub open spec fn items_view(items: Seq<Json>) -> Seq<JsonView>
    decreases items,
{
    if items.len() == 0 {
        Seq::empty()
    } else {
        items_view(items.drop_last()).push(json_view(items.last()))
    }
}

/// The mathematical values of several named JSON values.
pub open spec fn entries_view(entries: Seq<(String, Json)>) -> Entries
    decreases entries,
{
    if entries.len() == 0 {
        Seq::empty()
    } else {
        entries_view(entries.drop_last()).push((entries.last().0@, json_view(entries.last().1)))
    }
}

impl DeepView for Json {
    type V = JsonView;

    open spec fn deep_view(&self) -> JsonView {
        json_view(*self)
    }
}

pub proof fn entries_view_index(entries: Seq<(String, Json)>)
    ensures
        entries_view(entries).len() == entries.len(),
        forall|i: int|
            0 <= i < entries.len() ==> #[trigger] entries_view(entries)[i] == (
                entries[i].0@,
                json_view(entries[i].1),
            ),
    decreases entries.len(),
{
    if entries.len() > 0 {
        entries_view_index(entries.drop_last());
    }
}

pub proof fn items_view_index(items: Seq<Json>)
    ensures
        items_view(items).len() == items.len(),
        forall|i: int| 0 <= i < items.len() ==> #[trigger] items_view(items)[i] == json_view(items[i]),
    decreases items.len(),
{
    if items.len() > 0 {
        items_view_index(items.drop_last());
    }
}

impl Json {
    /// Another value equal to this one.
    pub fn copy(&self) -> (r: Json)
        ensures
            json_view(r) == json_view(*self),
        decreases self,
    {
        match self {
            Json::Null => Json::Null,
            Json::Bool(b) => Json::Bool(*b),
            Json::Number(n) => Json::Number(n.clone()),
            Json::Text(s) => Json::Text(s.clone()),
            Json::Array(items) => {
                let copies = copy_items(items);
                Json::Array(copies)
            },
            Json::Object(entries) => {
                let copies = copy_entries(entries);
                Json::Object(copies)
            },
        }
    }
}

fn copy_items(items: &Vec<Json>) -> (r: Vec<Json>)
    ensures
        items_view(r@) == items_view(items@),
    decreases items,
{
    let mut copies: Vec<Json> = Vec::new();
    let mut i: usize = 0;
    assert(items@.take(0) =~= Seq::<Json>::empty());
    while i < items.len()
        invariant
            i <= items.len(),
            items_view(copies@) == items_view(items@.take(i as int)),
        decreases items.len() - i,
    {
        assert(items@.take(i + 1).drop_last() =~= items@.take(i as int));
        assert(decreases_to!(items => items@[i as int]));
        let ghost before = copies@;
        copies.push(items[i].copy());
        assert(copies@.drop_last() =~= before);
        i += 1;
    }
    assert(items@.take(i as int) =~= items@);
    copies
}

/// Other named values equal to these.
pub fn copy_entries(entries: &Vec<(String, Json)>) -> (r: Vec<(String, Json)>)
    ensures
        entries_view(r@) == entries_view(entries@),
    decreases entries,
{
    let mut copies: Vec<(String, Json)> = Vec::new();
    let mut i: usize = 0;
    assert(entries@.take(0) =~= Seq::<(String, Json)>::empty());
    while i < entries.len()
        invariant
            i <= entries.len(),
            entries_view(copies@) == entries_view(entries@.take(i as int)),
        decreases entries.len() - i,
    {
        assert(entries@.take(i + 1).drop_last() =~= entries@.take(i as int));
        assert(decreases_to!(entries => entries@[i as int]));
        let ghost before = copies@;
        copies.push((entries[i].0.clone(), entries[i].1.copy()));
        assert(copies@.drop_last() =~= before);
        i += 1;
    }
    assert(entries@.take(i as int) =~= entries@);
    copies
}

/// The value under a name.
pub open spec fn value_of(entries: Entries, key: Seq<char>) -> Option<JsonView>
    decreases entries.len(),
{
    if entries.len() == 0 {
        None
    } else if entries.last().0 == key {
        Some(entries.last().1)
    } else {
        value_of(entries.drop_last(), key)
    }
}

/// The entries without the one under a name.
pub open spec fn without(entries: Entries, key: Seq<char>) -> Entries
    decreases entries.len(),
{
    if entries.len() == 0 {
        Seq::empty()
    } else if entries.last().0 == key {
        without(entries.drop_last(), key)
    } else {
        without(entries.drop_last(), key).push(entries.last())
    }
}

/// The entries with a value under a name, in place of any stored there before.
pub open spec fn with(entries: Entries, key: Seq<char>, value: JsonView) -> Entries {
    without(entries, key).push((key, value))
}

/// The entries whose names do not begin with `prefix`.
pub open spec fn without_prefix(entries: Entries, prefix: Seq<char>) -> Entries
    decreases entries.len(),
{
    if entries.len() == 0 {
        Seq::empty()
    } else if prefix.is_prefix_of(entries.last().0) {
        without_prefix(entries.drop_last(), prefix)
    } else {
        without_prefix(entries.drop_last(), prefix).push(entries.last())
    }
}

/// Whether a name begins with `prefix`.
pub open spec fn has_prefix(entries: Entries, prefix: Seq<char>) -> bool
    decreases entries.len(),
{
    if entries.len() == 0 {
        false
    } else {
        prefix.is_prefix_of(entries.last().0) || has_prefix(entries.drop_last(), prefix)
    }
}

/// Where a name is, counted from the front.
pub fn find_entry(entries: &Vec<(String, Json)>, key: &str) -> (r: Option<usize>)
    ensures
        match r {
            Some(i) => i < entries@.len() && entries@[i as int].0@ == key@ && value_of(
                entries_view(entries@),
                key@,
            ) == Some(json_view(entries@[i as int].1)),
            None => value_of(entries_view(entries@), key@) is None,
        },
{
    let mut at: Option<usize> = None;
    let mut i: usize = 0;
    assert(entries@.take(0) =~= Seq::<(String, Json)>::empty());
    while i < entries.len()
        invariant
            i <= entries.len(),
            match at {
                Some(j) => j < i && entries@[j as int].0@ == key@ && value_of(
                    entries_view(entries@.take(i as int)),
                    key@,
                ) == Some(json_view(entries@[j as int].1)),
                None => value_of(entries_view(entries@.take(i as int)), key@) is None,
            },
        decreases entries.len() - i,
    {
        let ghost now = entries@.take(i + 1);
        assert(now.drop_last() =~= entries@.take(i as int));
        assert(entries_view(now).drop_last() =~= entries_view(now.drop_last()));
        if same(entries[i].0.as_str(), key) {
            at = Some(i);
        }
        i += 1;
    }
    assert(entries@.take(i as int) =~= entries@);
    at
}

/// A copy of the value under a name.
pub fn get_value(entries: &Vec<(String, Json)>, key: &str) -> (r: Option<Json>)
    ensures
        r.deep_view() == value_of(entries_view(entries@), key@),
{
    match find_entry(entries, key) {
        Some(i) => Some(entries[i].1.copy()),
        None => None,
    }
}

/// The entries without the one under a name.
pub fn remove_entry(entries: Vec<(String, Json)>, key: &str) -> (r: Vec<(String, Json)>)
    ensures
        entries_view(r@) == without(entries_view(entries@), key@),
{
    let mut kept: Vec<(String, Json)> = Vec::new();
    let mut i: usize = 0;
    assert(entries@.take(0) =~= Seq::<(String, Json)>::empty());
    while i < entries.len()
        invariant
            i <= entries.len(),
            entries_view(kept@) == without(entries_view(entries@.take(i as int)), key@),
        decreases entries.len() - i,
    {
        let ghost now = entries@.take(i + 1);
        assert(now.drop_last() =~= entries@.take(i as int));
        assert(entries_view(now).drop_last() =~= entries_view(now.drop_last()));
        if !same(entries[i].0.as_str(), key) {
            let ghost before = kept@;
            kept.push((entries[i].0.clone(), entries[i].1.copy()));
            assert(kept@.drop_last() =~= before);
        }
        i += 1;
    }
    assert(entries@.take(i as int) =~= entries@);
    kept
}

/// The entries with a value under a name, in place of any stored there before.
pub fn insert_entry(entries: Vec<(String, Json)>, key: &str, value: Json) -> (r: Vec<
    (String, Json),
>)
    ensures
        entries_view(r@) == with(entries_view(entries@), key@, json_view(value)),
{
    let mut kept = remove_entry(entries, key);
    let ghost before = kept@;
    kept.push((key.to_owned(), value));
    assert(kept@.drop_last() =~= before);
    kept
}

/// The entries whose names do not begin with `prefix`.
pub fn drop_prefixed(entries: Vec<(String, Json)>, prefix: &str) -> (r: Vec<(String, Json)>)
    ensures
        entries_view(r@) == without_prefix(entries_view(entries@), prefix@),
{
    let mut kept: Vec<(String, Json)> = Vec::new();
    let mut i: usize = 0;
    assert(entries@.take(0) =~= Seq::<(String, Json)>::empty());
    while i < entries.len()
        invariant
            i <= entries.len(),
            entries_view(kept@) == without_prefix(entries_view(entries@.take(i as int)), prefix@),
        decreases entries.len() - i,
    {
        let ghost now = entries@.take(i + 1);
        assert(now.drop_last() =~= entries@.take(i as int));
        assert(entries_view(now).drop_last() =~= entries_view(now.drop_last()));
        if !starts_with(entries[i].0.as_str(), prefix) {
            let ghost before = kept@;
            kept.push((entries[i].0.clone(), entries[i].1.copy()));
            assert(kept@.drop_last() =~= before);
        }
        i += 1;
    }
    assert(entries@.take(i as int) =~= entries@);
    kept
}

/// Whether a name begins with `prefix`.
pub fn any_prefixed(entries: &Vec<(String, Json)>, prefix: &str) -> (r: bool)
    ensures
        r == has_prefix(entries_view(entries@), prefix@),
{
    let mut found: bool = false;
    let mut i: usize = 0;
    assert(entries@.take(0) =~= Seq::<(String, Json)>::empty());
    while i < entries.len()
        invariant
            i <= entries.len(),
            found == has_prefix(entries_view(entries@.take(i as int)), prefix@),
        decreases entries.len() - i,
    {
        let ghost now = entries@.take(i + 1);
        assert(now.drop_last() =~= entries@.take(i as int));
        assert(entries_view(now).drop_last() =~= entries_view(now.drop_last()));
        if starts_with(entries[i].0.as_str(), prefix) {
            found = true;
        }
        i += 1;
    }
    assert(entries@.take(i as int) =~= entries@);
    found
}

/// What is under a name after an entry was taken out: nothing under that name, and
/// what was there before under any other.
pub proof fn value_without(entries: Entries, key: Seq<char>, other: Seq<char>)
    ensures
        value_of(without(entries, key), key) is None,
        other != key ==> value_of(without(entries, key), other) == value_of(entries, other),
    decreases entries.len(),
{
    if entries.len() > 0 {
        value_without(entries.drop_last(), key, other);
        if entries.last().0 != key {
            let kept = without(entries.drop_last(), key);
            assert(kept.push(entries.last()).drop_last() =~= kept);
        }
    }
}

/// What is under a name after a value was put in: the value under its own name, and
/// what was there before under any other.
pub proof fn value_with(entries: Entries, key: Seq<char>, value: JsonView, other: Seq<char>)
    ensures
        value_of(with(entries, key, value), key) == Some(value),
        other != key ==> value_of(with(entries, key, value), other) == value_of(entries, other),
{
    value_without(entries, key, other);
    let kept = without(entries, key);
    assert(kept.push((key, value)).drop_last() =~= kept);
}

/// What is under a name after every name with a prefix was taken out.
pub proof fn value_without_prefix(entries: Entries, prefix: Seq<char>, other: Seq<char>)
    ensures
        !has_prefix(without_prefix(entries, prefix), prefix),
        value_of(without_prefix(entries, prefix), other) == (if prefix.is_prefix_of(other) {
            None
        } else {
            value_of(entries, other)
        }),
    decreases entries.len(),
{
    if entries.len() > 0 {
        value_without_prefix(entries.drop_last(), prefix, other);
        if !prefix.is_prefix_of(entries.last().0) {
            let kept = without_prefix(entries.drop_last(), prefix);
            assert(kept.push(entries.last()).drop_last() =~= kept);
        }
    }
}

} // verus!
