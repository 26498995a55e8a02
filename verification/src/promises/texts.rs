//! Texts in order, and the texts that marks are made of.
use crate::definition::{BlockDefinition, FieldDefinition, FieldTab, FieldType};
use crate::digest::{hex, hex_digit, sha256, short_digest};
use crate::migrate::helpers::gate::{
    block_path_list, blocks_have_leaf, has_leaf, kept, leaf_path, lines, path_list, tab_path_list,
    tabs_have_leaf,
};
use crate::order::{inserted, sorted, text_le};
use crate::text::{decimal, join, signed_decimal};
use vstd::prelude::*;
use vstd::utf8::encode_utf8;

verus! {

/// Texts are ordered by their first character that differs, and one that another begins
/// with comes before it.
pub proof fn texts_are_ordered_by_their_first_difference(
    same: Seq<char>,
    a: char,
    b: char,
    more: Seq<char>,
    rest: Seq<char>,
)
    ensures
        a < b ==> text_le(same + seq![a] + more, same + seq![b] + rest) && !text_le(
            same + seq![b] + rest,
            same + seq![a] + more,
        ),
        text_le(same, same + rest),
        rest.len() > 0 ==> !text_le(same + rest, same),
    decreases same.len(),
{
    let x = same + seq![a] + more;
    let y = same + seq![b] + rest;
    let z = same + rest;
    if same.len() > 0 {
        texts_are_ordered_by_their_first_difference(same.skip(1), a, b, more, rest);
        assert(x.skip(1) =~= same.skip(1) + seq![a] + more);
        assert(y.skip(1) =~= same.skip(1) + seq![b] + rest);
        assert(z.skip(1) =~= same.skip(1) + rest);
        assert(x[0] == same[0] && y[0] == same[0] && z.len() > 0 && z[0] == same[0]);
    } else {
        assert(x[0] == a && y[0] == b);
    }
}

proof fn inserting_adds_one(list: Seq<Seq<char>>, x: Seq<char>)
    ensures
        inserted(list, x).to_multiset() == list.to_multiset().insert(x),
        inserted(list, x).len() == list.len() + 1,
    decreases list.len(),
{
    broadcast use vstd::seq_lib::group_to_multiset_ensures;

    if list.len() == 0 {
        assert(inserted(list, x) =~= list.push(x));
    } else if !text_le(list.last(), x) {
        inserting_adds_one(list.drop_last(), x);
        assert(list =~= list.drop_last().push(list.last()));
        let front = inserted(list.drop_last(), x);
        assert(front.push(list.last()).to_multiset() =~= list.drop_last().to_multiset().insert(
            x,
        ).insert(list.last()));
    }
}

/// Putting texts in order keeps each as often as it was there.
pub proof fn ordering_keeps_every_text(list: Seq<Seq<char>>)
    ensures
        sorted(list).to_multiset() == list.to_multiset(),
        sorted(list).len() == list.len(),
    decreases list.len(),
{
    broadcast use vstd::seq_lib::group_to_multiset_ensures;

    if list.len() > 0 {
        ordering_keeps_every_text(list.drop_last());
        inserting_adds_one(sorted(list.drop_last()), list.last());
        assert(list =~= list.drop_last().push(list.last()));
    } else {
        assert(sorted(list) =~= list);
    }
}

/// The lines of a mark are its parts, each ended.
pub proof fn lines_are_ended(parts: Seq<Seq<char>>, part: Seq<char>)
    ensures
        lines(parts.push(part)) == lines(parts) + part + "\n"@,
        lines(Seq::empty()).len() == 0,
{
    assert(parts.push(part).drop_last() =~= parts);
}

/// The digest of a text is of its bytes: the first sixteen digits of their hash.
pub proof fn digests_are_of_the_bytes(text: Seq<char>)
    ensures
        short_digest(text) == hex(sha256(encode_utf8(text)).take(8)),
        hex_digit(0) == '0' && hex_digit(9) == '9' && hex_digit(10) == 'a' && hex_digit(15) == 'f',
{
}

/// What a mark says of a field: of a group and an array what is inside, between
/// parentheses; of a row and a collapsible what is inside; of tabs each page; of blocks
/// each kind, between brackets; of any other its name and how it is stored, if it is one
/// of those asked for.
pub proof fn marks_say_how_fields_are_stored<F: Fn(&FieldDefinition) -> bool>(
    before: Seq<FieldDefinition>,
    field: FieldDefinition,
    keep: F,
)
    ensures
        ({
            let all = path_list(before.push(field), keep);
            let front = path_list(before, keep);
            match field.field_type {
                FieldType::Group => all == front.push(
                    field.name@ + "("@ + join(path_list(field.fields@, keep), ","@) + ")"@,
                ),
                FieldType::Array => all == front.push(
                    field.name@ + "("@ + join(path_list(field.fields@, keep), ","@) + ")"@,
                ),
                FieldType::Row => all == front.push(join(path_list(field.fields@, keep), ","@)),
                FieldType::Collapsible => all == front.push(
                    join(path_list(field.fields@, keep), ","@),
                ),
                FieldType::Tabs => all == front + tab_path_list(field.tabs@, keep),
                FieldType::Blocks => all == front.push(
                    field.name@ + "["@ + join(block_path_list(field.blocks@, keep), ";"@) + "]"@,
                ),
                _ => all == if kept(keep, field) {
                    front.push(leaf_path(field))
                } else {
                    front
                },
            }
        }),
        leaf_path(field) == field.name@ + ":"@ + field.field_type.word() + (if field.has_many {
            "[]"@
        } else {
            ""@
        }) + (if field.field_type == FieldType::Date && field.timezone {
            "@tz"@
        } else {
            ""@
        }),
{
    assert(before.push(field).drop_last() =~= before);
}

/// A mark says of tabs what is on each page, and of blocks the kind before what is in it.
pub proof fn marks_say_what_pages_and_blocks_hold<F: Fn(&FieldDefinition) -> bool>(
    tabs: Seq<FieldTab>,
    tab: FieldTab,
    blocks: Seq<BlockDefinition>,
    block: BlockDefinition,
    keep: F,
)
    ensures
        tab_path_list(tabs.push(tab), keep) == tab_path_list(tabs, keep).push(
            join(path_list(tab.fields@, keep), ","@),
        ),
        block_path_list(blocks.push(block), keep) == block_path_list(blocks, keep).push(
            block.block_type@ + ":"@ + join(path_list(block.fields@, keep), ","@),
        ),
{
    assert(tabs.push(tab).drop_last() =~= tabs);
    assert(blocks.push(block).drop_last() =~= blocks);
}

/// A field asked for is found wherever it stands: in a group, an array, a row or a
/// collapsible, on a page and in a block.
pub proof fn a_field_is_found_at_any_depth<F: Fn(&FieldDefinition) -> bool>(
    before: Seq<FieldDefinition>,
    field: FieldDefinition,
    keep: F,
)
    ensures
        ({
            let inside = match field.field_type {
                FieldType::Group => has_leaf(field.fields@, keep),
                FieldType::Array => has_leaf(field.fields@, keep),
                FieldType::Row => has_leaf(field.fields@, keep),
                FieldType::Collapsible => has_leaf(field.fields@, keep),
                FieldType::Tabs => tabs_have_leaf(field.tabs@, keep),
                FieldType::Blocks => blocks_have_leaf(field.blocks@, keep),
                _ => kept(keep, field),
            };
            has_leaf(before.push(field), keep) <==> has_leaf(before, keep) || inside
        }),
        !has_leaf(Seq::empty(), keep),
{
    assert(before.push(field).drop_last() =~= before);
}

/// So it is on any page and in any block.
pub proof fn a_field_is_found_on_any_page_and_in_any_block<F: Fn(&FieldDefinition) -> bool>(
    tabs: Seq<FieldTab>,
    tab: FieldTab,
    blocks: Seq<BlockDefinition>,
    block: BlockDefinition,
    keep: F,
)
    ensures
        tabs_have_leaf(tabs.push(tab), keep) <==> tabs_have_leaf(tabs, keep) || has_leaf(
            tab.fields@,
            keep,
        ),
        blocks_have_leaf(blocks.push(block), keep) <==> blocks_have_leaf(blocks, keep) || has_leaf(
            block.fields@,
            keep,
        ),
{
    assert(tabs.push(tab).drop_last() =~= tabs);
    assert(blocks.push(block).drop_last() =~= blocks);
}

/// Texts are joined in order, with the separator between each two and nowhere else.
pub proof fn texts_are_joined_in_order(
    parts: Seq<Seq<char>>,
    part: Seq<char>,
    sep: Seq<char>,
)
    ensures
        parts.len() > 0 ==> join(parts.push(part), sep) == join(parts, sep) + sep + part,
        join(seq![part], sep) == part,
        join(Seq::empty(), sep).len() == 0,
{
    assert(parts.push(part).drop_last() =~= parts);
    reveal_with_fuel(join, 2);
}

/// A number below zero is written behind a minus, any other as it is.
pub proof fn numbers_below_zero_have_a_minus(n: int)
    ensures
        n < 0 ==> signed_decimal(n) == "-"@ + decimal((-n) as nat),
        n >= 0 ==> signed_decimal(n) == decimal(n as nat),
{
}

} // verus!
