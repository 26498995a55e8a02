//! What definitions say of where values are kept.
use crate::definition::{
    CollectionDefinition, FieldDefinition, FieldTab, FieldType, GlobalDefinition, LeafView,
    LocaleConfig, collection_slugs, defined_at, global_slugs, leaves, place_of, row_fields,
    tab_leaves, tab_row_fields,
};
use crate::migrate::helpers::column_specs::{ColumnSpecView, column_specs, leaf_specs, specs_of};
use crate::migrate::reference_cardinality::{RefLeafView, ref_leaves_of, references};
use crate::names::{
    escaped, global_table_name, join_table_name, locale_char, locale_column_name, quoted,
    tz_column_name, versions_table_name,
};
use crate::promises::rows::kept_as;
use crate::session::Dialect;
use crate::text::replaced;
use crate::value::ErrorView;
use vstd::prelude::*;

verus! {

/// What a field adds to the leaves of the definition it stands in.
pub open spec fn leaves_of_one(
    field: FieldDefinition,
    prefix: Seq<char>,
    inherited: bool,
) -> Seq<LeafView> {
    match field.field_type {
        FieldType::Group => leaves(
            field.fields@,
            if prefix.len() == 0 {
                field.name@
            } else {
                prefix + "__"@ + field.name@
            },
            inherited || field.localized,
        ),
        FieldType::Row => leaves(field.fields@, prefix, inherited),
        FieldType::Collapsible => leaves(field.fields@, prefix, inherited),
        FieldType::Tabs => tab_leaves(field.tabs@, prefix, inherited),
        _ => seq![LeafView { field, prefix, inherited_localized: inherited }],
    }
}

/// A definition's leaves are those of its fields, one field after another: of a group
/// those inside it, below its name and localized if it is; of a row and a collapsible
/// those inside, and of tabs those on every page, as if they stood there themselves; of
/// any other field itself.
pub proof fn leaves_are_those_of_the_fields(
    before: Seq<FieldDefinition>,
    field: FieldDefinition,
    after: Seq<FieldDefinition>,
    prefix: Seq<char>,
    inherited: bool,
)
    ensures
        leaves(before + seq![field] + after, prefix, inherited) == leaves(
            before,
            prefix,
            inherited,
        ) + leaves_of_one(field, prefix, inherited) + leaves(after, prefix, inherited),
        leaves(Seq::empty(), prefix, inherited).len() == 0,
    decreases after.len(),
{
    let all = before + seq![field] + after;
    if after.len() == 0 {
        assert(all =~= before.push(field));
        assert(all.drop_last() =~= before);
        assert(leaves(all, prefix, inherited) =~= leaves(before, prefix, inherited)
            + leaves_of_one(field, prefix, inherited) + leaves(after, prefix, inherited));
    } else {
        leaves_are_those_of_the_fields(before, field, after.drop_last(), prefix, inherited);
        assert(all.drop_last() =~= before + seq![field] + after.drop_last());
        assert(all.last() == after.last());
        let front = leaves(before, prefix, inherited) + leaves_of_one(field, prefix, inherited);
        let rest = leaves(after.drop_last(), prefix, inherited);
        let own = leaves_of_one(after.last(), prefix, inherited);
        assert(leaves(all, prefix, inherited) == front + rest + own);
        assert(leaves(after, prefix, inherited) == rest + own);
        assert(front + rest + own =~= front + (rest + own));
    }
}

/// The leaves of tabs are those on each page, one page after another.
pub proof fn leaves_of_tabs_are_those_of_the_pages(
    before: Seq<FieldTab>,
    tab: FieldTab,
    prefix: Seq<char>,
    inherited: bool,
)
    ensures
        tab_leaves(before.push(tab), prefix, inherited) == tab_leaves(before, prefix, inherited)
            + leaves(tab.fields@, prefix, inherited),
        tab_leaves(Seq::empty(), prefix, inherited).len() == 0,
{
    assert(before.push(tab).drop_last() =~= before);
}

/// The fields of a row are those given, with what stands in a row, a collapsible or on a
/// page of tabs in its place. A group stays whole.
pub proof fn row_fields_are_those_of_the_fields(
    before: Seq<FieldDefinition>,
    field: FieldDefinition,
)
    ensures
        row_fields(before.push(field)) == row_fields(before) + match field.field_type {
            FieldType::Row => row_fields(field.fields@),
            FieldType::Collapsible => row_fields(field.fields@),
            FieldType::Tabs => tab_row_fields(field.tabs@),
            _ => seq![field],
        },
        row_fields(Seq::empty()).len() == 0,
{
    assert(before.push(field).drop_last() =~= before);
}

/// The fields of rows on tabs are those on each page.
pub proof fn row_fields_of_tabs_are_those_of_the_pages(before: Seq<FieldTab>, tab: FieldTab)
    ensures
        tab_row_fields(before.push(tab)) == tab_row_fields(before) + row_fields(tab.fields@),
        tab_row_fields(Seq::empty()).len() == 0,
{
    assert(before.push(tab).drop_last() =~= before);
}

/// A leaf goes by its name, behind those of the groups around it; it is localized if it
/// or one of them is.
pub proof fn leaves_go_by_their_groups(leaf: LeafView)
    ensures
        leaf.prefix.len() == 0 ==> leaf.path() == leaf.field.name@,
        leaf.prefix.len() > 0 ==> leaf.path() == leaf.prefix + "__"@ + leaf.field.name@,
        leaf.localized() == (leaf.field.localized || leaf.inherited_localized),
{
}

/// A value has a column of its own in its document's table, but for what lays out other
/// fields, what keeps rows, what joins and what refers to many.
pub proof fn what_has_a_column(field: FieldDefinition)
    ensures
        ({
            let of_a_kind_without = field.field_type == FieldType::Array || field.field_type
                == FieldType::Blocks || field.field_type == FieldType::Group || field.field_type
                == FieldType::Row || field.field_type == FieldType::Collapsible
                || field.field_type == FieldType::Tabs || field.field_type == FieldType::Join;
            let refers = field.field_type == FieldType::Relationship || field.field_type
                == FieldType::Upload;
            let to_many = field.relationship matches Some(rc) && rc.has_many;
            field.in_parent() <==> !of_a_kind_without && !(refers && to_many)
        }),
        field.scalar_list() <==> field.has_many && (field.field_type == FieldType::Text
            || field.field_type == FieldType::Number || field.field_type == FieldType::Select),
{
}

/// A date that keeps its zone has a column for it beside its own, a code that may be in
/// several languages one for its language, and nothing else has any.
pub proof fn what_is_kept_beside(field: FieldDefinition, name: Seq<char>)
    ensures
        ({
            let zoned = field.field_type == FieldType::Date && field.timezone;
            let tagged = field.field_type == FieldType::Code && field.languages@.len() > 0;
            &&& zoned ==> field.companions(name) == seq![name + "_tz"@]
            &&& tagged ==> field.companions(name) == seq![name + "_lang"@]
            &&& !zoned && !tagged ==> field.companions(name).len() == 0
        }),
{
}

proof fn specs_hold(found: Seq<LeafView>, enabled: bool, m: int, k: int)
    requires
        0 <= m < found.len(),
        0 <= k < leaf_specs(found[m], enabled).len(),
    ensures
        specs_of(found, enabled).contains(leaf_specs(found[m], enabled)[k]),
    decreases found.len(),
{
    let before = specs_of(found.drop_last(), enabled);
    let own = leaf_specs(found.last(), enabled);
    let all = specs_of(found, enabled);
    if m == found.len() - 1 {
        assert(all[before.len() + k] == own[k]);
    } else {
        assert(found.drop_last()[m] == found[m]);
        specs_hold(found.drop_last(), enabled, m, k);
        let at = choose|at: int|
            0 <= at < before.len() && before[at] == leaf_specs(found[m], enabled)[k];
        assert(all[at] == before[at]);
    }
}

/// Every leaf kept in its document's table has its column among the definition's, of its
/// type, and so has what is kept beside it, as text. They are per locale if the leaf is
/// localized and locales are in use at all.
pub proof fn every_leaf_has_its_columns(
    fields: Seq<FieldDefinition>,
    enabled: bool,
    m: int,
    dialect: Dialect,
)
    requires
        0 <= m < leaves(fields, Seq::empty(), false).len(),
        leaves(fields, Seq::empty(), false)[m].field.in_parent(),
    ensures
        ({
            let leaf = leaves(fields, Seq::empty(), false)[m];
            let is_localized = leaf.localized() && enabled;
            let own = ColumnSpecView {
                col_name: leaf.path(),
                field: leaf.field,
                is_localized,
                companion_text: false,
            };
            let zone = ColumnSpecView {
                col_name: leaf.path() + "_tz"@,
                field: leaf.field,
                is_localized,
                companion_text: true,
            };
            let tag = ColumnSpecView { col_name: leaf.path() + "_lang"@, ..zone };
            let all = column_specs(fields, enabled);
            &&& all.contains(own)
            &&& own.ddl_type(dialect) == kept_as(dialect, leaf.field)
            &&& zone.ddl_type(dialect) == "TEXT"@ && tag.ddl_type(dialect) == "TEXT"@
            &&& leaf.field.field_type == FieldType::Date && leaf.field.timezone ==> all.contains(
                zone,
            )
            &&& leaf.field.field_type == FieldType::Code && leaf.field.languages@.len() > 0
                ==> all.contains(tag)
        }),
{
    let found = leaves(fields, Seq::empty(), false);
    let leaf = found[m];
    let is_localized = leaf.localized() && enabled;
    let specs = leaf_specs(leaf, enabled);
    specs_hold(found, enabled, m, 0);
    if leaf.field.field_type == FieldType::Date && leaf.field.timezone {
        specs_hold(found, enabled, m, 1);
        assert(specs[1] == (ColumnSpecView {
            col_name: leaf.path() + "_tz"@,
            field: leaf.field,
            is_localized,
            companion_text: true,
        }));
    }
    if leaf.field.field_type == FieldType::Code && leaf.field.languages@.len() > 0 {
        specs_hold(found, enabled, m, 1);
        assert(specs[1] == (ColumnSpecView {
            col_name: leaf.path() + "_lang"@,
            field: leaf.field,
            is_localized,
            companion_text: true,
        }));
    }
}

/// A column is defined by its name, its type and the default given; one kept beside
/// another takes none.
pub proof fn columns_are_defined_so(
    spec: ColumnSpecView,
    dialect: Dialect,
    name: Seq<char>,
    default_clause: Seq<char>,
)
    ensures
        !spec.companion_text ==> spec.column_def(dialect, name, default_clause) == quoted(name)
            + " "@ + kept_as(dialect, spec.field) + default_clause,
        spec.companion_text ==> spec.column_def(dialect, name, default_clause) == quoted(name)
            + " TEXT"@,
{
    if spec.companion_text {
        assert(" "@ + "TEXT"@ =~= " TEXT"@) by {
            reveal_strlit(" ");
            reveal_strlit("TEXT");
            reveal_strlit(" TEXT");
        }
        assert(quoted(name) + " "@ + "TEXT"@ + Seq::<char>::empty() =~= quoted(name) + (" "@
            + "TEXT"@));
    }
}

proof fn references_hold(found: Seq<LeafView>, enabled: bool, m: int)
    requires
        0 <= m < found.len(),
        found[m].field.field_type == FieldType::Relationship || found[m].field.field_type
            == FieldType::Upload,
    ensures
        references(found, enabled).contains(
            RefLeafView {
                path: found[m].path(),
                field: found[m].field,
                localized: found[m].localized() && enabled,
            },
        ),
    decreases found.len(),
{
    let own = RefLeafView {
        path: found[m].path(),
        field: found[m].field,
        localized: found[m].localized() && enabled,
    };
    let before = references(found.drop_last(), enabled);
    let all = references(found, enabled);
    if m == found.len() - 1 {
        assert(all.last() == own);
    } else {
        assert(found.drop_last()[m] == found[m]);
        references_hold(found.drop_last(), enabled, m);
        let at = choose|at: int| 0 <= at < before.len() && before[at] == own;
        assert(all[at] == own);
    }
}

/// Every relationship and every upload among a definition's leaves is one of its
/// references: to many if it says so, per locale if it is localized and locales are in
/// use, and of several kinds if it names them.
pub proof fn every_reference_is_among_them(
    fields: Seq<FieldDefinition>,
    enabled: bool,
    m: int,
)
    requires
        0 <= m < leaves(fields, Seq::empty(), false).len(),
        ({
            let kind = leaves(fields, Seq::empty(), false)[m].field.field_type;
            kind == FieldType::Relationship || kind == FieldType::Upload
        }),
    ensures
        ({
            let leaf = leaves(fields, Seq::empty(), false)[m];
            let own = RefLeafView {
                path: leaf.path(),
                field: leaf.field,
                localized: leaf.localized() && enabled,
            };
            &&& ref_leaves_of(fields, enabled).contains(own)
            &&& own.shape().localized == (leaf.localized() && enabled)
            &&& own.shape().has_many <==> (leaf.field.relationship matches Some(rc) && rc.has_many)
            &&& own.shape().polymorphic <==> (leaf.field.relationship matches Some(rc)
                && rc.polymorphic@.len() > 0)
        }),
{
    references_hold(leaves(fields, Seq::empty(), false), enabled, m);
}

/// The names of tables and columns.
pub proof fn names_are_put_together_so(table: Seq<char>, path: Seq<char>)
    ensures
        join_table_name(table, path) == table + "_"@ + path,
        global_table_name(table) == "_global_"@ + table,
        versions_table_name(table) == "_versions_"@ + table,
        tz_column_name(path) == path + "_tz"@,
{
}

proof fn left_alone(s: Seq<char>, c: char, with: Seq<char>)
    requires
        !s.contains(c),
    ensures
        replaced(s, c, with) == s,
    decreases s.len(),
{
    if s.len() > 0 {
        assert forall|x: char| s.drop_last().contains(x) implies s.contains(x) by {
            let i = choose|i: int| 0 <= i < s.drop_last().len() && s.drop_last()[i] == x;
            assert(s[i] == x);
        }
        left_alone(s.drop_last(), c, with);
        assert(s[s.len() - 1] == s.last());
        assert(s.drop_last() + seq![s.last()] =~= s);
    }
}

proof fn put_in_place(a: Seq<char>, b: Seq<char>, c: char, with: Seq<char>)
    ensures
        replaced(a + seq![c] + b, c, with) == replaced(a, c, with) + with + replaced(b, c, with),
    decreases b.len(),
{
    let all = a + seq![c] + b;
    if b.len() == 0 {
        assert(all.drop_last() =~= a);
        assert(all.last() == c);
        assert(replaced(all, c, with) =~= replaced(a, c, with) + with + replaced(b, c, with));
    } else {
        put_in_place(a, b.drop_last(), c, with);
        assert(all.drop_last() =~= a + seq![c] + b.drop_last());
        assert(all.last() == b.last());
        let tail = if b.last() == c {
            with
        } else {
            seq![b.last()]
        };
        assert(replaced(a, c, with) + with + replaced(b.drop_last(), c, with) + tail =~= replaced(
            a,
            c,
            with,
        ) + with + (replaced(b.drop_last(), c, with) + tail));
    }
}

/// A name is quoted between double quotes, and a text between single ones: what holds
/// none of them stays as it is, and one inside is written twice.
pub proof fn quotes_inside_are_doubled(a: Seq<char>, b: Seq<char>)
    ensures
        !a.contains('"') ==> quoted(a) == "\""@ + a + "\""@,
        !a.contains('"') && !b.contains('"') ==> quoted(a + seq!['"'] + b) == "\""@ + a
            + "\"\""@ + b + "\""@,
        !a.contains('\'') ==> escaped(a) == a,
        !a.contains('\'') && !b.contains('\'') ==> escaped(a + seq!['\''] + b) == a + "''"@ + b,
{
    if !a.contains('"') {
        left_alone(a, '"', "\"\""@);
        if !b.contains('"') {
            left_alone(b, '"', "\"\""@);
            put_in_place(a, b, '"', "\"\""@);
            assert("\""@ + (a + "\"\""@ + b) + "\""@ =~= "\""@ + a + "\"\""@ + b + "\""@);
        }
    }
    if !a.contains('\'') {
        left_alone(a, '\'', "''"@);
        if !b.contains('\'') {
            left_alone(b, '\'', "''"@);
            put_in_place(a, b, '\'', "''"@);
        }
    }
}

/// The column of a locale is the field's, a double underscore and the locale's code, its
/// hyphens as underscores. A code that is empty, or holds anything but letters, digits,
/// hyphens and underscores, has none.
pub proof fn locale_columns_are_named_so(base: Seq<char>, a: Seq<char>, b: Seq<char>, i: int)
    ensures
        ({
            let plain = |c: char|
                'a' <= c <= 'z' || 'A' <= c <= 'Z' || '0' <= c <= '9' || c == '_';
            &&& a.len() > 0 && (forall|k: int| 0 <= k < a.len() ==> plain(#[trigger] a[k]))
                ==> locale_column_name(base, a) == Ok::<Seq<char>, ErrorView>(base + "__"@ + a)
            &&& (forall|k: int| 0 <= k < a.len() ==> plain(#[trigger] a[k])) && (forall|k: int|
                0 <= k < b.len() ==> plain(#[trigger] b[k])) ==> locale_column_name(
                base,
                a + seq!['-'] + b,
            ) == Ok::<Seq<char>, ErrorView>(base + "__"@ + (a + "_"@ + b))
            &&& a.len() == 0 ==> locale_column_name(base, a) is Err
            &&& 0 <= i < a.len() && !plain(a[i]) && a[i] != '-' ==> locale_column_name(
                base,
                a,
            ) is Err
        }),
{
    let plain = |c: char| 'a' <= c <= 'z' || 'A' <= c <= 'Z' || '0' <= c <= '9' || c == '_';
    if forall|k: int| 0 <= k < a.len() ==> plain(#[trigger] a[k]) {
        assert(!a.contains('-'));
        left_alone(a, '-', "_"@);
        if forall|k: int| 0 <= k < b.len() ==> plain(#[trigger] b[k]) {
            assert(!b.contains('-'));
            left_alone(b, '-', "_"@);
            put_in_place(a, b, '-', "_"@);
            let all = a + seq!['-'] + b;
            assert forall|k: int| 0 <= k < all.len() implies locale_char(
                #[trigger] all[k],
            ) by {
                if k < a.len() {
                    assert(plain(a[k]));
                } else if k > a.len() {
                    assert(plain(b[k - a.len() - 1]));
                }
            }
        }
    }
}

/// Content is kept per locale if there is a locale at all.
pub proof fn locales_are_in_use_if_named(config: LocaleConfig)
    ensures
        config.enabled() <==> config.locales@.len() > 0,
{
}

/// A collection has drafts if it keeps versions and says so.
pub proof fn drafts_are_versions(definition: CollectionDefinition)
    ensures
        definition.drafts() <==> (definition.versions matches Some(v) && v.drafts),
{
}

proof fn the_place_of_a_slug(slugs: Seq<Seq<char>>, slug: Seq<char>)
    ensures
        0 <= place_of(slugs, slug) <= slugs.len(),
        place_of(slugs, slug) < slugs.len() ==> slugs[place_of(slugs, slug)] == slug,
        place_of(slugs, slug) == slugs.len() ==> !slugs.contains(slug),
    decreases slugs.len(),
{
    if slugs.len() > 0 {
        let front = slugs.drop_last();
        the_place_of_a_slug(front, slug);
        if place_of(slugs, slug) == slugs.len() {
            assert forall|i: int| 0 <= i < slugs.len() implies slugs[i] != slug by {
                if i < front.len() {
                    assert(front[i] == slugs[i]);
                    if slugs[i] == slug {
                        assert(front.contains(slug));
                    }
                }
            }
        }
    }
}

/// A definition takes the place of the one with its slug, or comes behind the others; it
/// is then there, and every other stays.
pub proof fn a_definition_is_the_one_of_its_slug(
    collections: Seq<CollectionDefinition>,
    collection: CollectionDefinition,
    globals: Seq<GlobalDefinition>,
    global: GlobalDefinition,
    i: int,
)
    ensures
        ({
            let slugs = collection_slugs(collections);
            let all = defined_at(collections, place_of(slugs, collection.slug@), collection);
            &&& all.contains(collection)
            &&& slugs.contains(collection.slug@) ==> all.len() == collections.len()
            &&& !slugs.contains(collection.slug@) ==> all == collections.push(collection)
            &&& 0 <= i < collections.len() && collections[i].slug@ != collection.slug@ ==> all[i]
                == collections[i]
        }),
        ({
            let slugs = global_slugs(globals);
            let all = defined_at(globals, place_of(slugs, global.slug@), global);
            &&& all.contains(global)
            &&& slugs.contains(global.slug@) ==> all.len() == globals.len()
            &&& !slugs.contains(global.slug@) ==> all == globals.push(global)
            &&& 0 <= i < globals.len() && globals[i].slug@ != global.slug@ ==> all[i] == globals[i]
        }),
{
    let slugs = collection_slugs(collections);
    let at = place_of(slugs, collection.slug@);
    let all = defined_at(collections, at, collection);
    the_place_of_a_slug(slugs, collection.slug@);
    assert(all[at] == collection);
    if at < slugs.len() {
        assert(slugs.contains(collection.slug@));
    }
    let others = global_slugs(globals);
    let place = place_of(others, global.slug@);
    let rest = defined_at(globals, place, global);
    the_place_of_a_slug(others, global.slug@);
    assert(rest[place] == global);
    if place < others.len() {
        assert(others.contains(global.slug@));
    }
}

/// Definitions call the types of fields by these words.
pub proof fn types_have_their_words()
    ensures
        FieldType::Text.word() == "text"@ && FieldType::Number.word() == "number"@,
        FieldType::Textarea.word() == "textarea"@ && FieldType::Select.word() == "select"@,
        FieldType::Radio.word() == "radio"@ && FieldType::Checkbox.word() == "checkbox"@,
        FieldType::Date.word() == "date"@ && FieldType::Email.word() == "email"@,
        FieldType::Json.word() == "json"@ && FieldType::Richtext.word() == "richtext"@,
        FieldType::Code.word() == "code"@ && FieldType::Relationship.word() == "relationship"@,
        FieldType::Upload.word() == "upload"@ && FieldType::Array.word() == "array"@,
        FieldType::Blocks.word() == "blocks"@ && FieldType::Group.word() == "group"@,
        FieldType::Row.word() == "row"@ && FieldType::Collapsible.word() == "collapsible"@,
        FieldType::Tabs.word() == "tabs"@ && FieldType::Join.word() == "join"@,
{
}

} // verus!
