//! When a conversion that ran once has to run again.
//!
//! A conversion is gated on its own version and on a fingerprint of the fields it
//! covered, so that one added or retyped later runs it again.
use crate::definition::{BlockDefinition, FieldDefinition, FieldTab, FieldType};
use crate::digest::{digest_text, short_digest};
use crate::text::{cat3, cat4, find_separator, join, join_with, push_item};
use vstd::prelude::*;

verus! {

/// The parts, each on a line of its own.
pub open spec fn lines(parts: Seq<Seq<char>>) -> Seq<char>
    decreases parts.len(),
{
    if parts.len() == 0 {
        Seq::empty()
    } else {
        lines(parts.drop_last()) + parts.last() + "\n"@
    }
}

/// The value a mark holds: the version, then the digest.
pub open spec fn gate_value(version: Seq<char>, digest: Seq<char>) -> Seq<char> {
    version + ":"@ + digest
}

/// The value a mark holds, given the digest of the parts.
pub fn versioned_value(version: &str, digest: &str) -> (r: String)
    ensures
        r@ == gate_value(version@, digest@),
{
    cat3(version, ":", digest)
}

/// The value a mark holds: the version, then a digest of the parts. The version
/// leads, so that another one runs every pass again.
pub fn versioned_fingerprint(version: &str, parts: &Vec<String>) -> (r: String)
    ensures
        r@ == gate_value(version@, short_digest(lines(parts.deep_view()))),
{
    let ghost all = parts.deep_view();
    let mut text = String::new();
    let mut i: usize = 0;
    assert(all.take(0) =~= Seq::<Seq<char>>::empty());
    while i < parts.len()
        invariant
            i <= parts.len(),
            all == parts.deep_view(),
            text@ == lines(all.take(i as int)),
        decreases parts.len() - i,
    {
        assert(all.take(i + 1).drop_last() =~= all.take(i as int));
        assert(all.take(i + 1).last() == parts@[i as int]@);
        text.append(parts[i].as_str());
        text.append("\n");
        i += 1;
    }
    assert(all.take(i as int) =~= all);
    let digest = digest_text(text.as_str());
    versioned_value(version, digest.as_str())
}

/// Whether a predicate takes a field.
pub open spec fn kept<F: Fn(&FieldDefinition) -> bool>(keep: F, field: FieldDefinition) -> bool {
    call_ensures(keep, (&field,), true)
}

/// Whether a predicate may be asked of every field and has one answer for each.
pub open spec fn decides<F: Fn(&FieldDefinition) -> bool>(keep: F) -> bool {
    &&& forall|field: &FieldDefinition| #[trigger] call_requires(keep, (field,))
    &&& forall|field: &FieldDefinition|
        !(#[trigger] call_ensures(keep, (field,), true) && call_ensures(keep, (field,), false))
}

/// A leaf's name and what decides how its value is stored: its type, whether it
/// is a list, whether a zone goes with it.
pub open spec fn leaf_path(field: FieldDefinition) -> Seq<char> {
    field.name@ + ":"@ + field.field_type.word() + (if field.has_many {
        "[]"@
    } else {
        ""@
    }) + (if field.zoned() {
        "@tz"@
    } else {
        ""@
    })
}

fn leaf_path_text(field: &FieldDefinition) -> (r: String)
    ensures
        r@ == leaf_path(*field),
{
    let mut path = cat3(field.name.as_str(), ":", field.field_type.as_str());
    path.append(
        if field.has_many {
            "[]"
        } else {
            ""
        },
    );
    path.append(
        if field.has_tz_companion() {
            "@tz"
        } else {
            ""
        },
    );
    path
}

/// The paths of the leaves a predicate takes, one entry per field: a group and an
/// array name theirs in round brackets, blocks in square ones; rows, collapsibles
/// and tabs add no name.
pub open spec fn path_list<F: Fn(&FieldDefinition) -> bool>(
    fields: Seq<FieldDefinition>,
    keep: F,
) -> Seq<Seq<char>>
    decreases fields,
{
    if fields.len() == 0 {
        Seq::empty()
    } else {
        let field = fields.last();
        let before = path_list(fields.drop_last(), keep);
        match field.field_type {
            FieldType::Group | FieldType::Array => before.push(
                field.name@ + "("@ + join(path_list(field.fields@, keep), ","@) + ")"@,
            ),
            FieldType::Row | FieldType::Collapsible => before.push(
                join(path_list(field.fields@, keep), ","@),
            ),
            FieldType::Tabs => before + tab_path_list(field.tabs@, keep),
            FieldType::Blocks => before.push(
                field.name@ + "["@ + join(block_path_list(field.blocks@, keep), ";"@) + "]"@,
            ),
            _ => if kept(keep, field) {
                before.push(leaf_path(field))
            } else {
                before
            },
        }
    }
}

/// The paths of each page's leaves.
pub open spec fn tab_path_list<F: Fn(&FieldDefinition) -> bool>(tabs: Seq<FieldTab>, keep: F) -> Seq<
    Seq<char>,
>
    decreases tabs,
{
    if tabs.len() == 0 {
        Seq::empty()
    } else {
        tab_path_list(tabs.drop_last(), keep).push(
            join(path_list(tabs.last().fields@, keep), ","@),
        )
    }
}

/// The paths of each block's leaves, behind the block's type.
pub open spec fn block_path_list<F: Fn(&FieldDefinition) -> bool>(
    blocks: Seq<BlockDefinition>,
    keep: F,
) -> Seq<Seq<char>>
    decreases blocks,
{
    if blocks.len() == 0 {
        Seq::empty()
    } else {
        block_path_list(blocks.drop_last(), keep).push(
            blocks.last().block_type@ + ":"@ + join(path_list(blocks.last().fields@, keep), ","@),
        )
    }
}

/// The leaves of `fields` that a predicate takes, at any depth, named by path.
pub fn field_paths<F: Fn(&FieldDefinition) -> bool>(fields: &Vec<FieldDefinition>, keep: &F) -> (r:
    String)
    requires
        decides(*keep),
    ensures
        r@ == join(path_list(fields@, *keep), ","@),
    decreases fields,
{
    let mut paths: Vec<String> = Vec::new();
    let mut i: usize = 0;
    assert(fields@.take(0) =~= Seq::<FieldDefinition>::empty());
    assert(paths.deep_view() =~= Seq::<Seq<char>>::empty());
    while i < fields.len()
        invariant
            i <= fields.len(),
            decides(*keep),
            paths.deep_view() == path_list(fields@.take(i as int), *keep),
        decreases fields.len() - i,
    {
        let field = &fields[i];
        assert(fields@.take(i + 1).drop_last() =~= fields@.take(i as int));
        assert(fields@.take(i + 1).last() == *field);
        assert(decreases_to!(fields => fields@[i as int]));
        match field.field_type {
            FieldType::Group | FieldType::Array => {
                let inner = field_paths(&field.fields, keep);
                push_item(&mut paths, cat4(field.name.as_str(), "(", inner.as_str(), ")"));
            },
            FieldType::Row | FieldType::Collapsible => {
                push_item(&mut paths, field_paths(&field.fields, keep));
            },
            FieldType::Tabs => {
                push_tab_paths(&field.tabs, keep, &mut paths);
            },
            FieldType::Blocks => {
                let inner = block_paths(&field.blocks, keep);
                push_item(&mut paths, cat4(field.name.as_str(), "[", inner.as_str(), "]"));
            },
            _ => {
                if keep(field) {
                    push_item(&mut paths, leaf_path_text(field));
                }
            },
        }
        i += 1;
    }
    assert(fields@.take(i as int) =~= fields@);
    join_with(&paths, ",")
}

fn push_tab_paths<F: Fn(&FieldDefinition) -> bool>(
    tabs: &Vec<FieldTab>,
    keep: &F,
    paths: &mut Vec<String>,
)
    requires
        decides(*keep),
    ensures
        final(paths).deep_view() == old(paths).deep_view() + tab_path_list(tabs@, *keep),
    decreases tabs,
{
    let ghost start = paths.deep_view();
    let mut i: usize = 0;
    assert(tabs@.take(0) =~= Seq::<FieldTab>::empty());
    assert(start + Seq::<Seq<char>>::empty() =~= start);
    while i < tabs.len()
        invariant
            i <= tabs.len(),
            decides(*keep),
            paths.deep_view() == start + tab_path_list(tabs@.take(i as int), *keep),
        decreases tabs.len() - i,
    {
        assert(tabs@.take(i + 1).drop_last() =~= tabs@.take(i as int));
        assert(tabs@.take(i + 1).last() == tabs@[i as int]);
        assert(decreases_to!(tabs => tabs@[i as int]));
        push_item(paths, field_paths(&tabs[i].fields, keep));
        i += 1;
        assert(paths.deep_view() =~= start + tab_path_list(tabs@.take(i as int), *keep));
    }
    assert(tabs@.take(i as int) =~= tabs@);
}

/// The leaves of every block that a predicate takes, each named by its block's
/// type.
pub fn block_paths<F: Fn(&FieldDefinition) -> bool>(blocks: &Vec<BlockDefinition>, keep: &F) -> (r:
    String)
    requires
        decides(*keep),
    ensures
        r@ == join(block_path_list(blocks@, *keep), ";"@),
    decreases blocks,
{
    let mut paths: Vec<String> = Vec::new();
    let mut i: usize = 0;
    assert(blocks@.take(0) =~= Seq::<BlockDefinition>::empty());
    assert(paths.deep_view() =~= Seq::<Seq<char>>::empty());
    while i < blocks.len()
        invariant
            i <= blocks.len(),
            decides(*keep),
            paths.deep_view() == block_path_list(blocks@.take(i as int), *keep),
        decreases blocks.len() - i,
    {
        assert(blocks@.take(i + 1).drop_last() =~= blocks@.take(i as int));
        assert(blocks@.take(i + 1).last() == blocks@[i as int]);
        assert(decreases_to!(blocks => blocks@[i as int]));
        let inner = field_paths(&blocks[i].fields, keep);
        push_item(&mut paths, cat3(blocks[i].block_type.as_str(), ":", inner.as_str()));
        i += 1;
    }
    assert(blocks@.take(i as int) =~= blocks@);
    join_with(&paths, ";")
}

/// Whether a leaf that a predicate takes is among `fields`, at any depth.
pub open spec fn has_leaf<F: Fn(&FieldDefinition) -> bool>(
    fields: Seq<FieldDefinition>,
    keep: F,
) -> bool
    decreases fields,
{
    if fields.len() == 0 {
        false
    } else {
        let field = fields.last();
        has_leaf(fields.drop_last(), keep) || match field.field_type {
            FieldType::Group
            | FieldType::Array
            | FieldType::Row
            | FieldType::Collapsible => has_leaf(field.fields@, keep),
            FieldType::Tabs => tabs_have_leaf(field.tabs@, keep),
            FieldType::Blocks => blocks_have_leaf(field.blocks@, keep),
            _ => kept(keep, field),
        }
    }
}

/// Whether a page has a leaf that a predicate takes.
pub open spec fn tabs_have_leaf<F: Fn(&FieldDefinition) -> bool>(
    tabs: Seq<FieldTab>,
    keep: F,
) -> bool
    decreases tabs,
{
    if tabs.len() == 0 {
        false
    } else {
        tabs_have_leaf(tabs.drop_last(), keep) || has_leaf(tabs.last().fields@, keep)
    }
}

/// Whether a block has a leaf that a predicate takes.
pub open spec fn blocks_have_leaf<F: Fn(&FieldDefinition) -> bool>(
    blocks: Seq<BlockDefinition>,
    keep: F,
) -> bool
    decreases blocks,
{
    if blocks.len() == 0 {
        false
    } else {
        blocks_have_leaf(blocks.drop_last(), keep) || has_leaf(blocks.last().fields@, keep)
    }
}

/// Whether a leaf that a predicate takes is among `fields`, at any depth.
pub fn holds_leaf<F: Fn(&FieldDefinition) -> bool>(fields: &Vec<FieldDefinition>, keep: &F) -> (r:
    bool)
    requires
        decides(*keep),
    ensures
        r == has_leaf(fields@, *keep),
    decreases fields,
{
    let mut found: bool = false;
    let mut i: usize = 0;
    assert(fields@.take(0) =~= Seq::<FieldDefinition>::empty());
    while i < fields.len()
        invariant
            i <= fields.len(),
            decides(*keep),
            found == has_leaf(fields@.take(i as int), *keep),
        decreases fields.len() - i,
    {
        let field = &fields[i];
        assert(fields@.take(i + 1).drop_last() =~= fields@.take(i as int));
        assert(fields@.take(i + 1).last() == *field);
        assert(decreases_to!(fields => fields@[i as int]));
        let here = match field.field_type {
            FieldType::Group
            | FieldType::Array
            | FieldType::Row
            | FieldType::Collapsible => holds_leaf(&field.fields, keep),
            FieldType::Tabs => tabs_hold_leaf(&field.tabs, keep),
            FieldType::Blocks => blocks_hold_leaf(&field.blocks, keep),
            _ => keep(field),
        };
        found = found || here;
        i += 1;
    }
    assert(fields@.take(i as int) =~= fields@);
    found
}

fn tabs_hold_leaf<F: Fn(&FieldDefinition) -> bool>(tabs: &Vec<FieldTab>, keep: &F) -> (r: bool)
    requires
        decides(*keep),
    ensures
        r == tabs_have_leaf(tabs@, *keep),
    decreases tabs,
{
    let mut found: bool = false;
    let mut i: usize = 0;
    assert(tabs@.take(0) =~= Seq::<FieldTab>::empty());
    while i < tabs.len()
        invariant
            i <= tabs.len(),
            decides(*keep),
            found == tabs_have_leaf(tabs@.take(i as int), *keep),
        decreases tabs.len() - i,
    {
        assert(tabs@.take(i + 1).drop_last() =~= tabs@.take(i as int));
        assert(tabs@.take(i + 1).last() == tabs@[i as int]);
        assert(decreases_to!(tabs => tabs@[i as int]));
        let here = holds_leaf(&tabs[i].fields, keep);
        found = found || here;
        i += 1;
    }
    assert(tabs@.take(i as int) =~= tabs@);
    found
}

fn blocks_hold_leaf<F: Fn(&FieldDefinition) -> bool>(
    blocks: &Vec<BlockDefinition>,
    keep: &F,
) -> (r: bool)
    requires
        decides(*keep),
    ensures
        r == blocks_have_leaf(blocks@, *keep),
    decreases blocks,
{
    let mut found: bool = false;
    let mut i: usize = 0;
    assert(blocks@.take(0) =~= Seq::<BlockDefinition>::empty());
    while i < blocks.len()
        invariant
            i <= blocks.len(),
            decides(*keep),
            found == blocks_have_leaf(blocks@.take(i as int), *keep),
        decreases blocks.len() - i,
    {
        assert(blocks@.take(i + 1).drop_last() =~= blocks@.take(i as int));
        assert(blocks@.take(i + 1).last() == blocks@[i as int]);
        assert(decreases_to!(blocks => blocks@[i as int]));
        let here = holds_leaf(&blocks[i].fields, keep);
        found = found || here;
        i += 1;
    }
    assert(blocks@.take(i as int) =~= blocks@);
    found
}

/// Another version of a conversion has another mark, whatever it covers: it runs
/// again everywhere.
pub proof fn another_version_has_another_mark(
    version: Seq<char>,
    digest: Seq<char>,
    other: Seq<char>,
    other_digest: Seq<char>,
)
    requires
        !version.contains(':'),
        !other.contains(':'),
        version != other,
    ensures
        gate_value(version, digest) != gate_value(other, other_digest),
{
    reveal_strlit(":");
    assert(":"@ =~= seq![':']);
    find_separator(version, ':', digest);
    find_separator(other, ':', other_digest);
    let a = gate_value(version, digest);
    let b = gate_value(other, other_digest);
    if a == b {
        assert(version =~= a.take(version.len() as int));
        assert(other =~= b.take(other.len() as int));
    }
}

} // verus!
