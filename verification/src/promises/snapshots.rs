//! What a stored version reads as, in a locale, in all of them and in none.
use crate::definition::{FieldDefinition, FieldType, LeafView, leaves, row_fields};
use crate::document::{
    flattened, group_around, group_named, nested, with_empty_group, with_empty_groups,
};
use crate::json::{
    Entries, JsonView, has_prefix, value_of, value_with, value_without, value_without_prefix, with,
    without, without_prefix,
};
use crate::names::{column_form, locale_column_name};
use crate::snapshot::{
    LocaleContext, LocaleMode, ReadView, a_resolved_field_is_bare, decorated, gathered, read_of,
    regrouped, resolved_field, resolved_fields, resolved_from, resolved_value, snapshot_document,
    taken,
};
use crate::value::ErrorView;
use vstd::prelude::*;

verus! {

/// A read is made in the locale asked for, or in the default one; where it holds nothing,
/// the default one takes its place if that is configured. Without locales, or where none
/// is in use, it is made in none.
pub proof fn what_a_read_is_made_in(ctx: LocaleContext)
    ensures
        ({
            let read = read_of(Some(ctx));
            &&& ctx.config.locales@.len() == 0 ==> read.locales is None && read.reading is None
                && read.fallback is None && !read.all
            &&& ctx.config.locales@.len() > 0 ==> {
                &&& read.locales == Some(ctx.config.locales.deep_view())
                &&& ctx.mode matches LocaleMode::Single(code) ==> read.reading == Some(code@)
                    && !read.all
                &&& ctx.mode == LocaleMode::Default ==> read.reading == Some(
                    ctx.config.default_locale@,
                ) && !read.all
                &&& ctx.mode == LocaleMode::All ==> read.all
                &&& ctx.config.fallback ==> read.fallback == Some(ctx.config.default_locale@)
                &&& !ctx.config.fallback ==> read.fallback is None
            }
        }),
        read_of(None).locales is None && read_of(None).reading is None && read_of(None).fallback
            is None && !read_of(None).all,
{
}

/// Whether a definition has no group at its top.
pub open spec fn has_no_group(defs: Seq<FieldDefinition>) -> bool {
    forall|i: int|
        0 <= i < row_fields(defs).len() ==> (#[trigger] row_fields(defs)[i]).field_type
            != FieldType::Group
}

proof fn no_group_is_named(fields: Seq<FieldDefinition>, key: Seq<char>)
    requires
        forall|i: int|
            0 <= i < fields.len() ==> (#[trigger] fields[i]).field_type != FieldType::Group,
    ensures
        group_named(fields, key) is None,
        group_around(fields, key) is None,
    decreases fields.len(),
{
    if fields.len() > 0 {
        assert forall|i: int| 0 <= i < fields.drop_last().len() implies (
        #[trigger] fields.drop_last()[i]).field_type != FieldType::Group by {
            assert(fields.drop_last()[i] == fields[i]);
        }
        no_group_is_named(fields.drop_last(), key);
        assert(fields.last() == fields[fields.len() - 1]);
    }
}

proof fn flat_as_it_is(entries: Entries, defs: Seq<FieldDefinition>, key: Seq<char>)
    requires
        has_no_group(defs),
    ensures
        value_of(flattened(entries, defs, Seq::empty()), key) == value_of(entries, key),
    decreases entries.len(),
{
    if entries.len() > 0 {
        flat_as_it_is(entries.drop_last(), defs, key);
        let last = entries.last();
        no_group_is_named(row_fields(defs), last.0);
        value_with(flattened(entries.drop_last(), defs, Seq::empty()), last.0, last.1, key);
    }
}

proof fn nested_as_it_is(flat: Entries, defs: Seq<FieldDefinition>, key: Seq<char>)
    requires
        has_no_group(defs),
    ensures
        value_of(nested(flat, defs), key) == value_of(flat, key),
    decreases flat.len(),
{
    if flat.len() > 0 {
        nested_as_it_is(flat.drop_last(), defs, key);
        let last = flat.last();
        no_group_is_named(row_fields(defs), last.0);
        value_with(nested(flat.drop_last(), defs), last.0, last.1, key);
    }
}

proof fn no_group_is_put_back(source: Entries, defs: Seq<FieldDefinition>, result: Entries)
    requires
        has_no_group(defs),
    ensures
        with_empty_groups(source, defs, result) == result,
    decreases source.len(),
{
    if source.len() > 0 {
        no_group_is_put_back(source.drop_last(), defs, result);
        no_group_is_named(row_fields(defs), source.last().0);
        reveal_with_fuel(with_empty_groups, 2);
        reveal_with_fuel(with_empty_group, 2);
    }
}

proof fn only_one_is_resolved(
    data: Entries,
    read: ReadView,
    found: Seq<LeafView>,
    i: int,
    k: int,
)
    requires
        0 <= i <= found.len(),
        0 <= k < found.len(),
        found[k].localized(),
        forall|j: int| 0 <= j < found.len() && j != k ==> !(#[trigger] found[j]).localized(),
    ensures
        resolved_from(data, read, found, i) == if i <= k {
            resolved_field(data, read, found[k].field, found[k].path())
        } else {
            Ok(data)
        },
    decreases found.len() - i,
{
    if i < found.len() {
        if i == k {
            match resolved_field(data, read, found[k].field, found[k].path()) {
                Ok(next) => {
                    only_one_is_resolved(next, read, found, i + 1, k);
                },
                Err(_) => {},
            }
        } else {
            only_one_is_resolved(data, read, found, i + 1, k);
        }
    }
}

proof fn in_terms_of_the_field(
    fields: Entries,
    defs: Seq<FieldDefinition>,
    ctx: Option<LocaleContext>,
    k: int,
    key: Seq<char>,
)
    requires
        has_no_group(defs),
        0 <= k < leaves(defs, Seq::empty(), false).len(),
        leaves(defs, Seq::empty(), false)[k].localized(),
        forall|j: int|
            0 <= j < leaves(defs, Seq::empty(), false).len() && j != k ==> !(#[trigger] leaves(
                defs,
                Seq::empty(),
                false,
            )[j]).localized(),
    ensures
        ({
            let leaf = leaves(defs, Seq::empty(), false)[k];
            let flat = flattened(fields, defs, Seq::empty());
            let resolved = resolved_field(flat, read_of(ctx), leaf.field, leaf.path());
            &&& resolved_fields(fields, defs, ctx) is Ok <==> resolved is Ok
            &&& resolved is Ok ==> value_of(resolved_fields(fields, defs, ctx)->Ok_0, key)
                == value_of(resolved->Ok_0, key)
        }),
{
    let found = leaves(defs, Seq::empty(), false);
    let flat = flattened(fields, defs, Seq::empty());
    only_one_is_resolved(flat, read_of(ctx), found, 0, k);
    let resolved = resolved_field(flat, read_of(ctx), found[k].field, found[k].path());
    if resolved is Ok {
        nested_as_it_is(resolved->Ok_0, defs, key);
        no_group_is_put_back(fields, defs, nested(resolved->Ok_0, defs));
    }
}

proof fn a_name_is_bare(name: Seq<char>)
    ensures
        !decorated(name).is_prefix_of(name),
{
    reveal_strlit("__");
    assert(decorated(name).len() == name.len() + 2);
}

proof fn other_names_stay(
    data: Entries,
    name: Seq<char>,
    reading: Option<Seq<char>>,
    fallback: Option<Seq<char>>,
    rows: bool,
    other: Seq<char>,
)
    requires
        resolved_value(data, name, reading, fallback, rows) is Ok,
        other != name,
        !decorated(name).is_prefix_of(other),
    ensures
        value_of(resolved_value(data, name, reading, fallback, rows)->Ok_0.0, other) == value_of(
            data,
            other,
        ),
{
    a_name_is_bare(name);
    a_resolved_field_is_bare(data, name, reading, fallback, rows, other);
}

/// Where a version holds a value of a localized field in the locale that is read, that
/// value is what the field reads as; where it does not and the default locale's takes its
/// place, that one's is. (Fields inside groups, and several localized ones, are read
/// alike, one after another.)
pub proof fn a_localized_field_reads_in_its_locale(
    fields: Entries,
    defs: Seq<FieldDefinition>,
    ctx: LocaleContext,
    k: int,
    value: JsonView,
)
    requires
        has_no_group(defs),
        0 <= k < leaves(defs, Seq::empty(), false).len(),
        leaves(defs, Seq::empty(), false)[k].localized(),
        leaves(defs, Seq::empty(), false)[k].field.in_parent(),
        !leaves(defs, Seq::empty(), false)[k].field.zoned(),
        forall|j: int|
            0 <= j < leaves(defs, Seq::empty(), false).len() && j != k ==> !(#[trigger] leaves(
                defs,
                Seq::empty(),
                false,
            )[j]).localized(),
        ctx.config.locales@.len() > 0,
        ctx.mode != LocaleMode::All,
        value != JsonView::Null,
    ensures
        ({
            let name = leaves(defs, Seq::empty(), false)[k].path();
            let code = match ctx.mode {
                LocaleMode::Single(code) => code@,
                _ => ctx.config.default_locale@,
            };
            let read = resolved_fields(fields, defs, Some(ctx));
            let own = locale_column_name(name, code);
            let other = locale_column_name(name, ctx.config.default_locale@);
            &&& own is Ok && value_of(fields, own->Ok_0) == Some(value) ==> (read matches Ok(
                all,
            ) && value_of(all, name) == Some(value))
            &&& own is Ok && other is Ok && ctx.config.fallback && (value_of(fields, own->Ok_0)
                is None || value_of(fields, own->Ok_0) == Some(JsonView::Null)) && value_of(
                fields,
                other->Ok_0,
            ) == Some(value) ==> (read matches Ok(all) && value_of(all, name) == Some(value))
            &&& own is Ok && !ctx.config.fallback && value_of(fields, own->Ok_0) == Some(
                JsonView::Null,
            ) ==> (read matches Ok(all) && value_of(all, name) == Some(JsonView::Null))
        }),
{
    let leaf = leaves(defs, Seq::empty(), false)[k];
    let name = leaf.path();
    let flat = flattened(fields, defs, Seq::empty());
    let code = match ctx.mode {
        LocaleMode::Single(code) => code@,
        _ => ctx.config.default_locale@,
    };
    let read = read_of(Some(ctx));
    in_terms_of_the_field(fields, defs, Some(ctx), k, name);
    a_name_is_bare(name);
    let own = locale_column_name(name, code);
    let other = locale_column_name(name, ctx.config.default_locale@);
    if own is Ok {
        flat_as_it_is(fields, defs, own->Ok_0);
        if other is Ok {
            flat_as_it_is(fields, defs, other->Ok_0);
        }
        let step = resolved_value(flat, name, read.reading, read.fallback, false);
        if step is Ok {
            a_resolved_field_is_bare(
                flat,
                name,
                read.reading,
                read.fallback,
                false,
                name,
            );
        }
        if value_of(fields, own->Ok_0) == Some(JsonView::Null) && !ctx.config.fallback {
            a_value_per_locale_is_there(flat, name, own->Ok_0);
            value_with(flat, name, JsonView::Null, name);
            value_without_prefix(with(flat, name, JsonView::Null), decorated(name), name);
        }
    }
}

proof fn a_value_per_locale_is_there(data: Entries, name: Seq<char>, column: Seq<char>)
    requires
        value_of(data, column) is Some,
        exists|code: Seq<char>|
            locale_column_name(name, code) == Ok::<Seq<char>, ErrorView>(column),
    ensures
        has_prefix(data, decorated(name)),
    decreases data.len(),
{
    if data.len() > 0 {
        if data.last().0 == column {
            let code = choose|code: Seq<char>|
                locale_column_name(name, code) == Ok::<Seq<char>, ErrorView>(column);
            let form = column_form(code)->Ok_0;
            assert(column == name + "__"@ + form);
            assert(decorated(name) =~= column.take(decorated(name).len() as int));
            assert(decorated(name).is_prefix_of(column));
        } else {
            a_value_per_locale_is_there(data.drop_last(), name, column);
        }
    }
}

/// A field that is not localized reads as it is stored, whatever the locale.
pub proof fn a_shared_field_reads_as_stored(
    fields: Entries,
    defs: Seq<FieldDefinition>,
    ctx: Option<LocaleContext>,
    key: Seq<char>,
)
    requires
        has_no_group(defs),
        forall|j: int|
            0 <= j < leaves(defs, Seq::empty(), false).len() ==> !(#[trigger] leaves(
                defs,
                Seq::empty(),
                false,
            )[j]).localized(),
    ensures
        resolved_fields(fields, defs, ctx) matches Ok(all) && value_of(all, key) == value_of(
            fields,
            key,
        ),
{
    let found = leaves(defs, Seq::empty(), false);
    let flat = flattened(fields, defs, Seq::empty());
    none_is_resolved(flat, read_of(ctx), found, 0);
    flat_as_it_is(fields, defs, key);
    nested_as_it_is(flat, defs, key);
    no_group_is_put_back(fields, defs, nested(flat, defs));
}

proof fn none_is_resolved(data: Entries, read: ReadView, found: Seq<LeafView>, i: int)
    requires
        0 <= i <= found.len(),
        forall|j: int| 0 <= j < found.len() ==> !(#[trigger] found[j]).localized(),
    ensures
        resolved_from(data, read, found, i) == Ok::<Entries, ErrorView>(data),
    decreases found.len() - i,
{
    if i < found.len() {
        none_is_resolved(data, read, found, i + 1);
    }
}

/// A date keeps its zone: where its value was taken from a locale, so is its zone.
pub proof fn a_zone_is_read_with_its_date(
    data: Entries,
    read: ReadView,
    field: FieldDefinition,
    name: Seq<char>,
    code: Seq<char>,
    column: Seq<char>,
    zone_column: Seq<char>,
    value: JsonView,
    zone: JsonView,
)
    requires
        field.field_type == FieldType::Date,
        field.timezone,
        !read.all,
        read.reading == Some(code),
        locale_column_name(name, code) == Ok::<Seq<char>, ErrorView>(column),
        locale_column_name(name + "_tz"@, code) == Ok::<Seq<char>, ErrorView>(zone_column),
        value_of(data, column) == Some(value),
        value_of(data, zone_column) == Some(zone),
        value != JsonView::Null,
        zone != JsonView::Null,
        !decorated(name).is_prefix_of(zone_column),
        zone_column != name,
        !decorated(name + "_tz"@).is_prefix_of(name),
    ensures
        resolved_field(data, read, field, name) matches Ok(all) && value_of(all, name) == Some(
            value,
        ) && value_of(all, name + "_tz"@) == Some(zone),
{
    a_name_is_bare(name);
    a_name_is_bare(name + "_tz"@);
    let first = resolved_value(data, name, read.reading, read.fallback, false);
    assert(first is Ok);
    a_resolved_field_is_bare(
        data,
        name,
        read.reading,
        read.fallback,
        false,
        zone_column,
    );
    let next = first->Ok_0.0;
    let second = resolved_value(next, name + "_tz"@, Some(code), None, false);
    assert(second is Ok);
    reveal_strlit("_tz");
    assert(name != name + "_tz"@) by {
        assert((name + "_tz"@).len() == name.len() + 3);
    }
    a_resolved_field_is_bare(
        next,
        name + "_tz"@,
        Some(code),
        None,
        false,
        name,
    );
}

proof fn gathered_by_locale(
    data: Entries,
    by: Entries,
    name: Seq<char>,
    locales: Seq<Seq<char>>,
    i: int,
    k: int,
)
    requires
        0 <= i <= locales.len(),
        0 <= k < locales.len(),
        locales.no_duplicates(),
        gathered(data, by, name, locales, i) is Ok,
        forall|a: int, b: int|
            0 <= a < b < locales.len() ==> locale_column_name(name, #[trigger] locales[a])
                != locale_column_name(name, #[trigger] locales[b]),
    ensures
        ({
            let (rest, all) = gathered(data, by, name, locales, i)->Ok_0;
            &&& k < i ==> value_of(all, locales[k]) == value_of(by, locales[k])
            &&& k >= i ==> {
                &&& locale_column_name(name, locales[k]) is Ok
                &&& value_of(data, locale_column_name(name, locales[k])->Ok_0) matches Some(value)
                    ==> value_of(all, locales[k]) == Some(value)
            }
        }),
    decreases locales.len() - i,
{
    if i < locales.len() {
        let column = locale_column_name(name, locales[i])->Ok_0;
        match value_of(data, column) {
            Some(value) => {
                let less = without(data, column);
                let more = with(by, locales[i], value);
                gathered_by_locale(less, more, name, locales, i + 1, k);
                value_with(by, locales[i], value, locales[k]);
                if k > i {
                    assert(locale_column_name(name, locales[i]) != locale_column_name(
                        name,
                        locales[k],
                    ));
                    if locale_column_name(name, locales[k]) is Ok {
                        value_without(data, column, locale_column_name(name, locales[k])->Ok_0);
                    }
                }
            },
            None => {
                gathered_by_locale(data, by, name, locales, i + 1, k);
            },
        }
    }
}

/// Read in every locale, a localized field is an object with the value of each locale that
/// has one.
pub proof fn a_field_reads_in_every_locale(
    data: Entries,
    name: Seq<char>,
    locales: Seq<Seq<char>>,
    k: int,
    column: Seq<char>,
    value: JsonView,
)
    requires
        locales.no_duplicates(),
        0 <= k < locales.len(),
        regrouped(data, name, locales) is Ok,
        forall|a: int, b: int|
            0 <= a < b < locales.len() ==> locale_column_name(name, #[trigger] locales[a])
                != locale_column_name(name, #[trigger] locales[b]),
        locale_column_name(name, locales[k]) == Ok::<Seq<char>, ErrorView>(column),
        value_of(data, column) == Some(value),
    ensures
        value_of(regrouped(data, name, locales)->Ok_0, name) matches Some(JsonView::Object(by))
            && value_of(by, locales[k]) == Some(value),
{
    gathered_by_locale(data, Seq::empty(), name, locales, 0, k);
    let (rest, by) = gathered(data, Seq::empty(), name, locales, 0)->Ok_0;
    assert(by.len() > 0);
    let kept = without_prefix(rest, decorated(name));
    value_with(kept, name, JsonView::Object(by), name);
}

/// A version's document has the id given, the two times it was stored with, and every
/// other value as a field.
pub proof fn a_versions_document(
    id: Seq<char>,
    fields: Entries,
    key: Seq<char>,
    made: Seq<char>,
    changed: Seq<char>,
)
    ensures
        snapshot_document(id, JsonView::Object(fields)) matches Some(document) && {
            &&& document.id == id
            &&& value_of(fields, "created_at"@) == Some(JsonView::Text(made))
                ==> document.created_at == Some(made)
            &&& value_of(fields, "updated_at"@) == Some(JsonView::Text(changed))
                ==> document.updated_at == Some(changed)
            &&& value_of(fields, "created_at"@) is None ==> document.created_at is None
            &&& value_of(fields, "updated_at"@) is None ==> document.updated_at is None
            &&& value_of(document.fields, "created_at"@) is None
            &&& value_of(document.fields, "updated_at"@) is None
            &&& key != "created_at"@ && key != "updated_at"@ ==> value_of(document.fields, key)
                == value_of(fields, key)
        },
        snapshot_document(id, JsonView::Array(Seq::empty())) is None,
        snapshot_document(id, JsonView::Null) is None,
        snapshot_document(id, JsonView::Text(made)) is None,
{
    let less = without(fields, "created_at"@);
    assert("created_at"@ != "updated_at"@) by {
        reveal_strlit("created_at");
        reveal_strlit("updated_at");
        assert("created_at"@[0] == 'c');
        assert("updated_at"@[0] == 'u');
    }
    value_without(fields, "created_at"@, key);
    value_without(fields, "created_at"@, "updated_at"@);
    value_without(less, "updated_at"@, key);
    value_without(less, "updated_at"@, "created_at"@);
}

/// Rows are read in the one locale asked for, or in the default one.
pub proof fn rows_are_read_in_one_locale(ctx: LocaleContext)
    ensures
        ctx.mode matches LocaleMode::Single(code) ==> ctx.read_in() == code@,
        ctx.mode == LocaleMode::Default ==> ctx.read_in() == ctx.config.default_locale@,
        ctx.mode == LocaleMode::All ==> ctx.read_in() == ctx.config.default_locale@,
{
}

} // verus!
