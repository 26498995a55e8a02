//! The columns and the primary key of a junction table, and bringing a stored
//! one to them.
//!
//! What a junction's rows are unique by is part of what its field means: one id
//! may name documents of two collections where there are several targets, and
//! each locale has a list of its own where the field is localized. A table made
//! before the field gained either has the narrower key, under which a write the
//! field allows fails. The stored key is read from the catalog and widened once.
use crate::migrate::helpers::column_specs::{
    ensure_locale_column, ensure_locale_column_step, locale_column_def, locale_column_definition,
};
use crate::migrate::helpers::introspection::{
    ConstraintKind, ConstraintView, TableConstraint, get_table_columns, table_columns_step,
    table_constraints, table_constraints_step,
};
use crate::names::{escape_text, escaped, quote_ident, quoted};
use crate::session::{
    Dialect, Session, SessionView, Step, batch_ddl_step, batch_step, ddl_step, within,
};
use crate::text::{cat2, cat3, cat4, cat5, cat7, cat8, contains, join, join_with, push_item, same};
use crate::value::{DbError, ErrorView, add_context, out};
use vstd::prelude::*;

verus! {

/// What a junction's rows are keyed by beyond the two documents they join.
#[derive(Debug)]
pub struct JunctionShape {
    pub polymorphic: bool,
    /// For a table that keeps rows per locale, the locale that rows written
    /// before it did belong to.
    pub default_locale: Option<String>,
}

/// The mathematical value of a [`JunctionShape`].
#[verifier::ext_equal]
pub ghost struct JunctionShapeView {
    pub polymorphic: bool,
    pub default_locale: Option<Seq<char>>,
}

impl DeepView for JunctionShape {
    type V = JunctionShapeView;

    open spec fn deep_view(&self) -> JunctionShapeView {
        JunctionShapeView {
            polymorphic: self.polymorphic,
            default_locale: self.default_locale.deep_view(),
        }
    }
}

/// `list` with `item` behind it where `present`.
pub open spec fn push_if(list: Seq<Seq<char>>, present: bool, item: Seq<char>) -> Seq<Seq<char>> {
    if present {
        list.push(item)
    } else {
        list
    }
}

impl JunctionShapeView {
    /// The primary key's columns, in key order.
    pub open spec fn key_columns(self) -> Seq<Seq<char>> {
        push_if(
            push_if(
                seq!["parent_id"@, "related_id"@],
                self.polymorphic,
                "related_collection"@,
            ),
            self.default_locale is Some,
            "_locale"@,
        )
    }

    /// Every column, in table order.
    pub open spec fn columns(self) -> Seq<Seq<char>> {
        push_if(
            push_if(
                seq!["parent_id"@, "related_id"@],
                self.polymorphic,
                "related_collection"@,
            ).push("_order"@),
            self.default_locale is Some,
            "_locale"@,
        )
    }

    /// The definitions of the columns and of the primary key.
    pub open spec fn definitions(self, collection: Seq<char>) -> Seq<Seq<char>> {
        push_if(
            push_if(
                seq![
                    "parent_id TEXT NOT NULL REFERENCES "@ + quoted(collection)
                        + "(id) ON DELETE CASCADE"@,
                    "related_id TEXT NOT NULL"@,
                ],
                self.polymorphic,
                "related_collection TEXT NOT NULL DEFAULT ''"@,
            ).push("_order INTEGER NOT NULL DEFAULT 0"@),
            self.default_locale is Some,
            locale_column_def(self.default_locale->0),
        ).push("PRIMARY KEY ("@ + join(self.key_columns(), ", "@) + ")"@)
    }

    /// The statement creating a junction of this shape.
    pub open spec fn create_sql(self, table: Seq<char>, collection: Seq<char>) -> Seq<char> {
        "CREATE TABLE "@ + quoted(table) + " ("@ + join(self.definitions(collection), ", "@) + ")"@
    }

    /// What a rebuild fills column `col` from: the stored column where there is
    /// one, else what a row without it means.
    pub open spec fn copy_expr(self, col: Seq<char>, stored: Seq<Seq<char>>) -> Seq<char> {
        if stored.contains(col) {
            col
        } else {
            match self.default_locale {
                Some(locale) => if col == "_locale"@ {
                    "'"@ + escaped(locale) + "'"@
                } else {
                    "''"@
                },
                None => "''"@,
            }
        }
    }
}

impl JunctionShape {
    pub fn new(polymorphic: bool, default_locale: Option<String>) -> (r: JunctionShape)
        ensures
            r.deep_view() == (JunctionShapeView {
                polymorphic,
                default_locale: default_locale.deep_view(),
            }),
    {
        JunctionShape { polymorphic, default_locale }
    }

    /// The primary key's columns, in key order.
    pub fn key_columns(&self) -> (r: Vec<String>)
        ensures
            r.deep_view() == self.deep_view().key_columns(),
    {
        let mut columns = vec!["parent_id".to_owned(), "related_id".to_owned()];
        assert(columns.deep_view() =~= seq!["parent_id"@, "related_id"@]);
        if self.polymorphic {
            push_item(&mut columns, "related_collection".to_owned());
        }
        if self.default_locale.is_some() {
            push_item(&mut columns, "_locale".to_owned());
        }
        columns
    }

    /// Every column, in table order.
    pub fn columns(&self) -> (r: Vec<String>)
        ensures
            r.deep_view() == self.deep_view().columns(),
    {
        let mut columns = vec!["parent_id".to_owned(), "related_id".to_owned()];
        assert(columns.deep_view() =~= seq!["parent_id"@, "related_id"@]);
        if self.polymorphic {
            push_item(&mut columns, "related_collection".to_owned());
        }
        push_item(&mut columns, "_order".to_owned());
        if self.default_locale.is_some() {
            push_item(&mut columns, "_locale".to_owned());
        }
        columns
    }

    /// The statement creating a junction of this shape whose rows belong to the
    /// documents of `collection_slug`.
    pub fn create_sql(&self, table: &str, collection_slug: &str) -> (r: String)
        ensures
            r@ == self.deep_view().create_sql(table@, collection_slug@),
    {
        let collection = quote_ident(collection_slug);
        let mut columns = vec![
            cat3(
                "parent_id TEXT NOT NULL REFERENCES ",
                collection.as_str(),
                "(id) ON DELETE CASCADE",
            ),
            "related_id TEXT NOT NULL".to_owned(),
        ];
        assert(columns.deep_view() =~= seq![
            "parent_id TEXT NOT NULL REFERENCES "@ + quoted(collection_slug@)
                + "(id) ON DELETE CASCADE"@,
            "related_id TEXT NOT NULL"@,
        ]);
        if self.polymorphic {
            push_item(&mut columns, "related_collection TEXT NOT NULL DEFAULT ''".to_owned());
        }
        push_item(&mut columns, "_order INTEGER NOT NULL DEFAULT 0".to_owned());
        match &self.default_locale {
            Some(locale) => push_item(&mut columns, locale_column_definition(locale.as_str())),
            None => {},
        }
        let key = join_with(&self.key_columns(), ", ");
        push_item(&mut columns, cat3("PRIMARY KEY (", key.as_str(), ")"));
        let body = join_with(&columns, ", ");
        let table = quote_ident(table);
        cat5("CREATE TABLE ", table.as_str(), " (", body.as_str(), ")")
    }

    fn copy_expr(&self, col: &str, stored: &Vec<String>) -> (r: String)
        ensures
            r@ == self.deep_view().copy_expr(col@, stored.deep_view()),
    {
        if contains(stored, col) {
            return col.to_owned();
        }
        match &self.default_locale {
            Some(locale) => if same(col, "_locale") {
                let code = escape_text(locale.as_str());
                cat3("'", code.as_str(), "'")
            } else {
                "''".to_owned()
            },
            None => "''".to_owned(),
        }
    }
}

/// What a rebuild fills each of `columns` from.
pub open spec fn copy_exprs(
    shape: JunctionShapeView,
    columns: Seq<Seq<char>>,
    stored: Seq<Seq<char>>,
) -> Seq<Seq<char>> {
    Seq::new(columns.len(), |i: int| shape.copy_expr(columns[i], stored))
}

fn all_copy_exprs(shape: &JunctionShape, columns: &Vec<String>, stored: &Vec<String>) -> (r: Vec<
    String,
>)
    ensures
        r.deep_view() == copy_exprs(shape.deep_view(), columns.deep_view(), stored.deep_view()),
{
    let ghost wanted = copy_exprs(shape.deep_view(), columns.deep_view(), stored.deep_view());
    let mut exprs: Vec<String> = Vec::new();
    let mut i: usize = 0;
    while i < columns.len()
        invariant
            i <= columns.len(),
            wanted == copy_exprs(shape.deep_view(), columns.deep_view(), stored.deep_view()),
            exprs.deep_view() =~= wanted.take(i as int),
        decreases columns.len() - i,
    {
        assert(columns.deep_view()[i as int] == columns@[i as int]@);
        push_item(&mut exprs, shape.copy_expr(columns[i].as_str(), stored));
        i += 1;
    }
    assert(exprs.deep_view() =~= wanted);
    exprs
}

/// Creates a junction table.
pub open spec fn create_junction_step(
    s: SessionView,
    table: Seq<char>,
    collection: Seq<char>,
    shape: JunctionShapeView,
) -> Step<()> {
    within(
        ddl_step(
            s.noted("Creating junction table: "@ + table),
            shape.create_sql(table, collection),
        ),
        "Failed to create junction table "@ + table,
    )
}

/// Creates a junction table.
pub fn create_junction_table(
    conn: &mut Session,
    table: &str,
    collection_slug: &str,
    shape: &JunctionShape,
) -> (r: Result<(), DbError>)
    ensures
        (final(conn)@, out(r)) == create_junction_step(
            old(conn)@,
            table@,
            collection_slug@,
            shape.deep_view(),
        ),
{
    conn.note(cat2("Creating junction table: ", table));
    let created = conn.execute_ddl(shape.create_sql(table, collection_slug));
    add_context(created, cat2("Failed to create junction table ", table).as_str())
}

/// The columns of several constraints, one after the other.
pub open spec fn key_of(constraints: Seq<ConstraintView>) -> Seq<Seq<char>>
    decreases constraints.len(),
{
    if constraints.len() == 0 {
        Seq::empty()
    } else {
        key_of(constraints.drop_last()) + constraints.last().columns
    }
}

fn stored_key_of(constraints: &Vec<TableConstraint>) -> (r: Vec<String>)
    ensures
        r.deep_view() == key_of(constraints.deep_view()),
{
    let mut key: Vec<String> = Vec::new();
    let ghost all = constraints.deep_view();
    let mut i: usize = 0;
    assert(all.take(0) =~= Seq::<ConstraintView>::empty());
    assert(key.deep_view() =~= Seq::<Seq<char>>::empty());
    while i < constraints.len()
        invariant
            i <= constraints.len(),
            all == constraints.deep_view(),
            key.deep_view() == key_of(all.take(i as int)),
        decreases constraints.len() - i,
    {
        assert(all.take(i + 1).drop_last() =~= all.take(i as int));
        assert(all.take(i + 1).last() == constraints@[i as int].deep_view());
        let columns = &constraints[i].columns;
        let ghost before = key.deep_view();
        let mut j: usize = 0;
        while j < columns.len()
            invariant
                j <= columns.len(),
                key.deep_view() =~= before + columns.deep_view().take(j as int),
            decreases columns.len() - j,
        {
            push_item(&mut key, columns[j].clone());
            j += 1;
        }
        assert(key.deep_view() =~= before + columns.deep_view());
        i += 1;
    }
    assert(all.take(i as int) =~= all);
    key
}

/// Whether the stored key has every column that is wanted.
pub open spec fn key_covers(stored: Seq<Seq<char>>, wanted: Seq<Seq<char>>) -> bool {
    forall|i: int| 0 <= i < wanted.len() ==> stored.contains(#[trigger] wanted[i])
}

fn covers(stored: &Vec<String>, wanted: &Vec<String>) -> (r: bool)
    ensures
        r == key_covers(stored.deep_view(), wanted.deep_view()),
{
    let mut i: usize = 0;
    while i < wanted.len()
        invariant
            i <= wanted.len(),
            forall|j: int|
                0 <= j < i ==> stored.deep_view().contains(#[trigger] wanted.deep_view()[j]),
        decreases wanted.len() - i,
    {
        assert(wanted.deep_view()[i as int] == wanted@[i as int]@);
        if !contains(stored, wanted[i].as_str()) {
            return false;
        }
        i += 1;
    }
    true
}

/// Drops the constraints from the `i`-th on.
pub open spec fn drop_constraints_from(
    s: SessionView,
    table: Seq<char>,
    keys: Seq<ConstraintView>,
    i: int,
) -> Step<()>
    decreases keys.len() - i,
{
    if i < 0 || i >= keys.len() {
        (s, Ok(()))
    } else {
        let (s1, r) = ddl_step(
            s,
            "ALTER TABLE "@ + quoted(table) + " DROP CONSTRAINT "@ + quoted(keys[i].name),
        );
        match r {
            Err(e) => (s1, Err(e)),
            Ok(_) => drop_constraints_from(s1, table, keys, i + 1),
        }
    }
}

/// Adds the column of the target collection where it is wanted and missing.
pub open spec fn add_target_column_step(
    s: SessionView,
    table: Seq<char>,
    shape: JunctionShapeView,
) -> Step<()> {
    let (s1, existing) = table_columns_step(s, table);
    match existing {
        Err(e) => (s1, Err(e)),
        Ok(existing) => if shape.polymorphic && !existing.contains("related_collection"@) {
            ddl_step(
                s1,
                "ALTER TABLE "@ + quoted(table)
                    + " ADD COLUMN related_collection TEXT NOT NULL DEFAULT ''"@,
            )
        } else {
            (s1, Ok(()))
        },
    }
}

/// Adds the locale column where it is wanted and missing.
pub open spec fn add_locale_column_step(
    s: SessionView,
    table: Seq<char>,
    shape: JunctionShapeView,
) -> Step<()> {
    match shape.default_locale {
        Some(locale) => ensure_locale_column_step(s, table, locale),
        None => (s, Ok(())),
    }
}

/// Replaces the primary key of a table by the shape's.
pub open spec fn replace_key_step(
    s: SessionView,
    table: Seq<char>,
    shape: JunctionShapeView,
) -> Step<()> {
    let (s1, keys) = table_constraints_step(s, table, ConstraintKind::PrimaryKey);
    match keys {
        Err(e) => (s1, Err(e)),
        Ok(keys) => {
            let (s2, r) = drop_constraints_from(s1, table, keys, 0);
            match r {
                Err(e) => (s2, Err(e)),
                Ok(_) => ddl_step(
                    s2,
                    "ALTER TABLE "@ + quoted(table) + " ADD PRIMARY KEY ("@ + join(
                        shape.key_columns(),
                        ", "@,
                    ) + ")"@,
                ),
            }
        },
    }
}

/// Changes a primary key in place: the missing columns, the old key, the new one.
pub open spec fn rekey_step(s: SessionView, table: Seq<char>, shape: JunctionShapeView) -> Step<()> {
    let (s1, r1) = add_target_column_step(s, table, shape);
    match r1 {
        Err(e) => (s1, Err(e)),
        Ok(_) => {
            let (s2, r2) = add_locale_column_step(s1, table, shape);
            match r2 {
                Err(e) => (s2, Err(e)),
                Ok(_) => replace_key_step(s2, table, shape),
            }
        },
    }
}

fn replace_key(conn: &mut Session, table: &str, shape: &JunctionShape) -> (r: Result<(), DbError>)
    ensures
        (final(conn)@, out(r)) == replace_key_step(old(conn)@, table@, shape.deep_view()),
{
    let keys = table_constraints(conn, table, ConstraintKind::PrimaryKey)?;
    let quoted_table = quote_ident(table);
    let ghost start = conn@;
    let ghost all = keys.deep_view();
    let mut i: usize = 0;
    while i < keys.len()
        invariant
            i <= keys.len(),
            all == keys.deep_view(),
            quoted_table@ == quoted(table@),
            table_constraints_step(old(conn)@, table@, ConstraintKind::PrimaryKey) == (
                start,
                Ok::<Seq<ConstraintView>, crate::value::ErrorView>(all),
            ),
            drop_constraints_from(start, table@, all, 0) == drop_constraints_from(
                conn@,
                table@,
                all,
                i as int,
            ),
        decreases keys.len() - i,
    {
        assert(all[i as int] == keys@[i as int].deep_view());
        let name = quote_ident(keys[i].name.as_str());
        conn.execute_ddl(
            cat4("ALTER TABLE ", quoted_table.as_str(), " DROP CONSTRAINT ", name.as_str()),
        )?;
        i += 1;
    }
    let key = join_with(&shape.key_columns(), ", ");
    conn.execute_ddl(
        cat5("ALTER TABLE ", quoted_table.as_str(), " ADD PRIMARY KEY (", key.as_str(), ")"),
    )
}

fn rekey_in_place(conn: &mut Session, table: &str, shape: &JunctionShape) -> (r: Result<
    (),
    DbError,
>)
    ensures
        (final(conn)@, out(r)) == rekey_step(old(conn)@, table@, shape.deep_view()),
{
    let existing = get_table_columns(conn, table)?;
    if shape.polymorphic && !contains(&existing, "related_collection") {
        let quoted_table = quote_ident(table);
        conn.execute_ddl(
            cat3(
                "ALTER TABLE ",
                quoted_table.as_str(),
                " ADD COLUMN related_collection TEXT NOT NULL DEFAULT ''",
            ),
        )?;
    }
    match &shape.default_locale {
        Some(locale) => {
            ensure_locale_column(conn, table, locale.as_str())?;
        },
        None => {},
    }
    replace_key(conn, table, shape)
}

/// The name a table is kept under while it is rebuilt.
pub open spec fn rebuild_temp(table: Seq<char>) -> Seq<char> {
    "_"@ + table + "_migrate"@
}

/// The statement copying the rows into the rebuilt table.
pub open spec fn copy_sql(
    table: Seq<char>,
    shape: JunctionShapeView,
    stored: Seq<Seq<char>>,
) -> Seq<char> {
    "INSERT INTO "@ + quoted(table) + " ("@ + join(shape.columns(), ", "@) + ") SELECT "@ + join(
        copy_exprs(shape, shape.columns(), stored),
        ", "@,
    ) + " FROM "@ + quoted(rebuild_temp(table))
}

/// Makes a table anew in the shape and copies its rows over.
pub open spec fn rebuild_step(
    s: SessionView,
    table: Seq<char>,
    collection: Seq<char>,
    shape: JunctionShapeView,
) -> Step<()> {
    let (s1, stored) = table_columns_step(s, table);
    match stored {
        Err(e) => (s1, Err(e)),
        Ok(stored) => {
            let (s2, r2) = batch_ddl_step(
                s1,
                "ALTER TABLE "@ + quoted(table) + " RENAME TO "@ + quoted(rebuild_temp(table)),
            );
            match r2 {
                Err(e) => (s2, Err(e)),
                Ok(_) => {
                    let (s3, r3) = batch_ddl_step(s2, shape.create_sql(table, collection));
                    match r3 {
                        Err(e) => (s3, Err(e)),
                        Ok(_) => {
                            let (s4, r4) = batch_step(s3, copy_sql(table, shape, stored));
                            match r4 {
                                Err(e) => (s4, Err(e)),
                                Ok(_) => batch_ddl_step(
                                    s4,
                                    "DROP TABLE "@ + quoted(rebuild_temp(table)),
                                ),
                            }
                        },
                    }
                },
            }
        },
    }
}

fn rebuild(conn: &mut Session, table: &str, collection_slug: &str, shape: &JunctionShape) -> (r:
    Result<(), DbError>)
    ensures
        (final(conn)@, out(r)) == rebuild_step(
            old(conn)@,
            table@,
            collection_slug@,
            shape.deep_view(),
        ),
{
    let stored = get_table_columns(conn, table)?;
    let temp = cat3("_", table, "_migrate");
    let temp = quote_ident(temp.as_str());
    let quoted_table = quote_ident(table);
    conn.execute_batch_ddl(
        cat4("ALTER TABLE ", quoted_table.as_str(), " RENAME TO ", temp.as_str()),
    )?;
    conn.execute_batch_ddl(shape.create_sql(table, collection_slug))?;
    let columns = shape.columns();
    let exprs = all_copy_exprs(shape, &columns, &stored);
    let names = join_with(&columns, ", ");
    let values = join_with(&exprs, ", ");
    conn.execute_batch(
        cat8(
            "INSERT INTO ",
            quoted_table.as_str(),
            " (",
            names.as_str(),
            ") SELECT ",
            values.as_str(),
            " FROM ",
            temp.as_str(),
        ),
    )?;
    conn.execute_batch_ddl(cat2("DROP TABLE ", temp.as_str()))
}

/// What is said of a junction whose key is widened.
pub open spec fn rekeying(
    table: Seq<char>,
    wanted: Seq<Seq<char>>,
    stored: Seq<Seq<char>>,
) -> Seq<char> {
    "Re-keying junction table "@ + table + " by ("@ + join(wanted, ", "@) + ") (was ("@ + join(
        stored,
        ", "@,
    ) + "))"@
}

/// Brings a stored junction to the shape: where its key lacks a column the shape
/// is keyed by, the key is widened. A wider key is left as it is: what the field
/// writes is unique under it too, and narrowing it would drop rows.
pub open spec fn reconcile_step(
    s: SessionView,
    table: Seq<char>,
    collection: Seq<char>,
    shape: JunctionShapeView,
) -> Step<()> {
    let (s1, keys) = table_constraints_step(s, table, ConstraintKind::PrimaryKey);
    match keys {
        Err(e) => (s1, Err(e)),
        Ok(keys) => if key_covers(key_of(keys), shape.key_columns()) {
            (s1, Ok(()))
        } else {
            let s2 = s1.noted(rekeying(table, shape.key_columns(), key_of(keys)));
            within(
                match s.dialect {
                    Dialect::Postgres => rekey_step(s2, table, shape),
                    Dialect::Sqlite => rebuild_step(s2, table, collection, shape),
                },
                "Failed to re-key junction table "@ + table,
            )
        },
    }
}

/// Brings a stored junction to the shape, widening its key where a column the
/// shape is keyed by is missing from it.
pub fn reconcile_junction_shape(
    conn: &mut Session,
    table: &str,
    collection_slug: &str,
    shape: &JunctionShape,
) -> (r: Result<(), DbError>)
    ensures
        (final(conn)@, out(r)) == reconcile_step(
            old(conn)@,
            table@,
            collection_slug@,
            shape.deep_view(),
        ),
{
    let keys = table_constraints(conn, table, ConstraintKind::PrimaryKey)?;
    let stored = stored_key_of(&keys);
    if covers(&stored, &shape.key_columns()) {
        return Ok(());
    }
    let wanted = join_with(&shape.key_columns(), ", ");
    let was = join_with(&stored, ", ");
    conn.note(
        cat7(
            "Re-keying junction table ",
            table,
            " by (",
            wanted.as_str(),
            ") (was (",
            was.as_str(),
            "))",
        ),
    );
    let rekeyed = match conn.dialect() {
        Dialect::Postgres => rekey_in_place(conn, table, shape),
        Dialect::Sqlite => rebuild(conn, table, collection_slug, shape),
    };
    add_context(rekeyed, cat2("Failed to re-key junction table ", table).as_str())
}

/// A junction whose key holds what the shape is keyed by is left alone.
pub proof fn a_junction_in_shape_is_not_rebuilt(
    s: SessionView,
    table: Seq<char>,
    collection: Seq<char>,
    shape: JunctionShapeView,
    keys: Seq<ConstraintView>,
)
    requires
        table_constraints_step(s, table, ConstraintKind::PrimaryKey).1 == Ok::<
            Seq<ConstraintView>,
            ErrorView,
        >(keys),
        key_covers(key_of(keys), shape.key_columns()),
    ensures
        reconcile_step(s, table, collection, shape) == (
            table_constraints_step(s, table, ConstraintKind::PrimaryKey).0,
            Ok::<(), ErrorView>(()),
        ),
{
}

/// A key is never narrowed: one that holds what a wider shape is keyed by holds what
/// a narrower one is.
pub proof fn a_wider_key_is_left_alone(
    stored: Seq<Seq<char>>,
    wide: JunctionShapeView,
    narrow: JunctionShapeView,
)
    requires
        key_covers(stored, wide.key_columns()),
        narrow.polymorphic ==> wide.polymorphic,
        narrow.default_locale is Some ==> wide.default_locale is Some,
    ensures
        key_covers(stored, narrow.key_columns()),
{
    assert forall|i: int| 0 <= i < narrow.key_columns().len() implies stored.contains(
        #[trigger] narrow.key_columns()[i],
    ) by {
        let column = narrow.key_columns()[i];
        assert(wide.key_columns()[0] == "parent_id"@);
        assert(wide.key_columns()[1] == "related_id"@);
        if wide.polymorphic {
            assert(wide.key_columns()[2] == "related_collection"@);
        }
        if wide.default_locale is Some {
            assert(wide.key_columns()[wide.key_columns().len() - 1] == "_locale"@);
        }
    }
}

/// A junction made in a shape is in that shape.
pub proof fn a_new_junction_is_in_shape(shape: JunctionShapeView)
    ensures
        key_covers(shape.key_columns(), shape.key_columns()),
{
}

/// A rebuild keeps what is stored: a column the table had is filled from itself, and
/// rows from before the table was kept per locale belong to the default locale.
pub proof fn a_rebuild_keeps_the_rows(
    shape: JunctionShapeView,
    stored: Seq<Seq<char>>,
    column: Seq<char>,
)
    ensures
        stored.contains(column) ==> shape.copy_expr(column, stored) == column,
        shape.default_locale is Some && !stored.contains("_locale"@) ==> shape.copy_expr(
            "_locale"@,
            stored,
        ) == "'"@ + escaped(shape.default_locale->Some_0) + "'"@,
{
}

} // verus!
