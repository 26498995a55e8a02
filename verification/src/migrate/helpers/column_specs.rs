//! The columns a definition's fields are stored in.
use crate::definition::{FieldDefinition, Leaf, LeafView, LocaleConfig, leaves, walk_leaf_fields};
use crate::migrate::helpers::introspection::{get_table_columns, table_columns_step};
use crate::names::{escape_text, escaped, quote_ident, quoted};
use crate::session::{Dialect, Session, SessionView, Step, ddl_step, within};
use crate::text::{cat2, cat3, cat4, contains, push_item};
use crate::value::{DbError, ErrorView, add_context, out};
use vstd::prelude::*;

verus! {

/// A column a field is stored in.
pub struct ColumnSpec<'a> {
    /// The column's name, before any locale is added to it.
    pub col_name: String,
    pub field: &'a FieldDefinition,
    /// Whether there is one such column per locale.
    pub is_localized: bool,
    /// Whether the column only goes with the field's own: a zone or a language,
    /// always text.
    pub companion_text: bool,
}

/// The mathematical value of a [`ColumnSpec`].
#[verifier::ext_equal]
pub ghost struct ColumnSpecView {
    pub col_name: Seq<char>,
    pub field: FieldDefinition,
    pub is_localized: bool,
    pub companion_text: bool,
}

impl<'a> DeepView for ColumnSpec<'a> {
    type V = ColumnSpecView;

    open spec fn deep_view(&self) -> ColumnSpecView {
        ColumnSpecView {
            col_name: self.col_name@,
            field: *self.field,
            is_localized: self.is_localized,
            companion_text: self.companion_text,
        }
    }
}

/// The type of the column a field's own value is stored in: a list of plain
/// values is JSON text, whatever its values are.
pub open spec fn ddl_type_of(dialect: Dialect, field: FieldDefinition) -> Seq<char> {
    if field.scalar_list() {
        "TEXT"@
    } else {
        dialect.column_type(field.field_type)
    }
}

/// The type of the column a field's own value is stored in.
pub fn field_ddl_type(dialect: Dialect, field: &FieldDefinition) -> (r: &'static str)
    ensures
        r@ == ddl_type_of(dialect, *field),
{
    if field.is_has_many_scalar() {
        "TEXT"
    } else {
        dialect.column_type_for(field.field_type)
    }
}

impl ColumnSpecView {
    /// The column's type.
    pub open spec fn ddl_type(self, dialect: Dialect) -> Seq<char> {
        if self.companion_text {
            "TEXT"@
        } else {
            ddl_type_of(dialect, self.field)
        }
    }

    /// The definition of the column `col_name`, which is this one or one of its
    /// locales'. It carries no `NOT NULL`: whether a value is required is for the
    /// writer to say, who knows when it does not apply.
    pub open spec fn column_def(
        self,
        dialect: Dialect,
        col_name: Seq<char>,
        default_clause: Seq<char>,
    ) -> Seq<char> {
        quoted(col_name) + " "@ + self.ddl_type(dialect) + (if self.companion_text {
            Seq::empty()
        } else {
            default_clause
        })
    }
}

impl<'a> ColumnSpec<'a> {
    /// The column's type: the one source for creating a column and for adding
    /// it later.
    pub fn ddl_type(&self, dialect: Dialect) -> (r: &'static str)
        ensures
            r@ == self.deep_view().ddl_type(dialect),
    {
        if self.companion_text {
            "TEXT"
        } else {
            field_ddl_type(dialect, self.field)
        }
    }

    /// The definition of the column `col_name`, which is this one or one of its
    /// locales'. `default_clause` is the field's `DEFAULT` with a space before
    /// it, or empty; a companion column takes none.
    pub fn column_def(&self, dialect: Dialect, col_name: &str, default_clause: &str) -> (r: String)
        ensures
            r@ == self.deep_view().column_def(dialect, col_name@, default_clause@),
    {
        let name = quote_ident(col_name);
        let mut col = cat3(name.as_str(), " ", self.ddl_type(dialect));
        let ghost bare = col@;
        if !self.companion_text {
            col.append(default_clause);
        } else {
            assert(bare + Seq::<char>::empty() =~= bare);
        }
        col
    }
}

/// The columns one leaf is stored in: its own, then the ones that go with it.
pub open spec fn leaf_specs(leaf: LeafView, enabled: bool) -> Seq<ColumnSpecView> {
    if !leaf.field.in_parent() {
        Seq::empty()
    } else {
        let is_localized = leaf.localized() && enabled;
        let companions = leaf.field.companions(leaf.path());
        seq![
            ColumnSpecView {
                col_name: leaf.path(),
                field: leaf.field,
                is_localized,
                companion_text: false,
            },
        ] + Seq::new(
            companions.len(),
            |i: int|
                ColumnSpecView {
                    col_name: companions[i],
                    field: leaf.field,
                    is_localized,
                    companion_text: true,
                },
        )
    }
}

/// The columns of every leaf, in order.
pub open spec fn specs_of(found: Seq<LeafView>, enabled: bool) -> Seq<ColumnSpecView>
    decreases found.len(),
{
    if found.len() == 0 {
        Seq::empty()
    } else {
        specs_of(found.drop_last(), enabled) + leaf_specs(found.last(), enabled)
    }
}

/// The columns a definition's fields are stored in.
pub open spec fn column_specs(fields: Seq<FieldDefinition>, enabled: bool) -> Seq<ColumnSpecView> {
    specs_of(leaves(fields, Seq::empty(), false), enabled)
}

fn collect_leaf_specs<'a>(leaf: &Leaf<'a>, enabled: bool, specs: &mut Vec<ColumnSpec<'a>>)
    ensures
        final(specs).deep_view() == old(specs).deep_view() + leaf_specs(leaf.deep_view(), enabled),
{
    let ghost before = specs.deep_view();
    if !leaf.field.has_parent_column() {
        assert(before + Seq::<ColumnSpecView>::empty() =~= before);
        return;
    }
    let col_name = leaf.path();
    let is_localized = leaf.localized() && enabled;
    let companions = leaf.field.companion_columns(col_name.as_str());
    push_item(
        specs,
        ColumnSpec { col_name, field: leaf.field, is_localized, companion_text: false },
    );
    let ghost wanted = before + leaf_specs(leaf.deep_view(), enabled);
    let mut i: usize = 0;
    while i < companions.len()
        invariant
            i <= companions.len(),
            companions.deep_view() == leaf.field.companions(leaf.deep_view().path()),
            is_localized == (leaf.deep_view().localized() && enabled),
            leaf.field.in_parent(),
            wanted == before + leaf_specs(leaf.deep_view(), enabled),
            specs.deep_view() =~= wanted.take(before.len() + 1 + i),
        decreases companions.len() - i,
    {
        push_item(
            specs,
            ColumnSpec {
                col_name: companions[i].clone(),
                field: leaf.field,
                is_localized,
                companion_text: true,
            },
        );
        i += 1;
    }
    assert(specs.deep_view() =~= wanted);
}

/// The columns a definition's fields are stored in. A group adds its name to its
/// fields' columns; rows, collapsibles and tabs leave no trace.
pub fn collect_column_specs<'a>(
    fields: &'a Vec<FieldDefinition>,
    locale_config: &LocaleConfig,
) -> (r: Vec<ColumnSpec<'a>>)
    ensures
        r.deep_view() == column_specs(fields@, locale_config.enabled()),
{
    let found = walk_leaf_fields(fields);
    let enabled = locale_config.is_enabled();
    let mut specs: Vec<ColumnSpec<'a>> = Vec::new();
    let ghost all = found.deep_view();
    let mut i: usize = 0;
    assert(all.take(0) =~= Seq::<LeafView>::empty());
    assert(specs.deep_view() =~= Seq::<ColumnSpecView>::empty());
    while i < found.len()
        invariant
            i <= found.len(),
            all == found.deep_view(),
            specs.deep_view() == specs_of(all.take(i as int), enabled),
        decreases found.len() - i,
    {
        assert(all.take(i + 1).drop_last() =~= all.take(i as int));
        assert(all.take(i + 1).last() == found@[i as int].deep_view());
        collect_leaf_specs(&found[i], enabled, &mut specs);
        i += 1;
    }
    assert(all.take(i as int) =~= all);
    specs
}

/// The definition of the column that says which locale a row belongs to. Rows
/// written before it existed belong to the default locale, whose code it holds
/// as it is: reads and writes compare with the code, not with the form it takes
/// in column names.
pub open spec fn locale_column_def(default_locale: Seq<char>) -> Seq<char> {
    "_locale TEXT NOT NULL DEFAULT '"@ + escaped(default_locale) + "'"@
}

/// The definition of the column that says which locale a row belongs to.
pub fn locale_column_definition(default_locale: &str) -> (r: String)
    ensures
        r@ == locale_column_def(default_locale@),
{
    let code = escape_text(default_locale);
    cat3("_locale TEXT NOT NULL DEFAULT '", code.as_str(), "'")
}

/// Adds the locale column to a table that has none.
pub open spec fn ensure_locale_column_step(
    s: SessionView,
    table: Seq<char>,
    default_locale: Seq<char>,
) -> Step<()> {
    let (s1, existing) = table_columns_step(s, table);
    match existing {
        Err(e) => (s1, Err(e)),
        Ok(existing) => if existing.contains("_locale"@) {
            (s1, Ok(()))
        } else {
            within(
                ddl_step(
                    s1.noted("Adding _locale column to "@ + table),
                    "ALTER TABLE \""@ + table + "\" ADD COLUMN "@ + locale_column_def(
                        default_locale,
                    ),
                ),
                "Failed to add _locale to "@ + table,
            )
        },
    }
}

/// Adds the locale column to a table that has none.
pub fn ensure_locale_column(conn: &mut Session, table_name: &str, default_locale: &str) -> (r:
    Result<(), DbError>)
    ensures
        (final(conn)@, out(r)) == ensure_locale_column_step(
            old(conn)@,
            table_name@,
            default_locale@,
        ),
{
    let existing = get_table_columns(conn, table_name)?;
    if contains(&existing, "_locale") {
        return Ok(());
    }
    let definition = locale_column_definition(default_locale);
    conn.note(cat2("Adding _locale column to ", table_name));
    let added = conn.execute_ddl(
        cat4("ALTER TABLE \"", table_name, "\" ADD COLUMN ", definition.as_str()),
    );
    add_context(added, cat2("Failed to add _locale to ", table_name).as_str())
}

/// A column is kept per locale only where content is.
pub proof fn localized_only_where_enabled(found: Seq<LeafView>, i: int)
    requires
        0 <= i < specs_of(found, false).len(),
    ensures
        !specs_of(found, false)[i].is_localized,
    decreases found.len(),
{
    let before = specs_of(found.drop_last(), false);
    if i < before.len() {
        localized_only_where_enabled(found.drop_last(), i);
    }
}

/// A companion column stands behind another column of the same field, and is kept
/// per locale exactly if that one is.
pub proof fn companions_follow_their_field(found: Seq<LeafView>, enabled: bool, i: int)
    requires
        0 <= i < specs_of(found, enabled).len(),
        specs_of(found, enabled)[i].companion_text,
    ensures
        i > 0,
        specs_of(found, enabled)[i - 1].field == specs_of(found, enabled)[i].field,
        specs_of(found, enabled)[i - 1].is_localized == specs_of(found, enabled)[i].is_localized,
    decreases found.len(),
{
    let before = specs_of(found.drop_last(), enabled);
    if i < before.len() {
        companions_follow_their_field(found.drop_last(), enabled, i);
    } else {
        let own = leaf_specs(found.last(), enabled);
        assert(specs_of(found, enabled)[i] == own[i - before.len()]);
        assert(own[i - before.len() - 1].field == found.last().field);
    }
}

/// A table that has its locale column is left as it is.
pub proof fn a_locale_column_is_added_once(
    s: SessionView,
    table: Seq<char>,
    default_locale: Seq<char>,
    existing: Seq<Seq<char>>,
)
    requires
        table_columns_step(s, table).1 == Ok::<Seq<Seq<char>>, ErrorView>(existing),
        existing.contains("_locale"@),
    ensures
        ensure_locale_column_step(s, table, default_locale) == (
            table_columns_step(s, table).0,
            Ok::<(), ErrorView>(()),
        ),
{
}

} // verus!
