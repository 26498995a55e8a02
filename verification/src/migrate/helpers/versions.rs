//! The table holding the earlier versions of a collection's documents.
use crate::migrate::helpers::introspection::{table_exists, table_exists_step};
use crate::names::{versions_table, versions_table_name};
use crate::session::{Dialect, Session, SessionView, Step, ddl_step, within};
use crate::text::{cat2, cat5, cat9};
use crate::value::{DbError, ErrorView, add_context, out};
use vstd::prelude::*;

verus! {

/// The statement creating the versions table of `slug`.
pub open spec fn create_versions_sql(dialect: Dialect, slug: Seq<char>) -> Seq<char> {
    "CREATE TABLE "@ + versions_table_name(slug)
        + " (id TEXT PRIMARY KEY, _parent TEXT NOT NULL REFERENCES "@ + slug
        + "(id) ON DELETE CASCADE, _version INTEGER NOT NULL, _status TEXT NOT NULL, _latest INTEGER NOT NULL DEFAULT 0, snapshot TEXT NOT NULL, created_at "@
        + dialect.timestamp_default() + ", updated_at "@ + dialect.timestamp_default() + ")"@
}

/// The statement creating the index over a document's latest version.
pub open spec fn latest_index_sql(slug: Seq<char>) -> Seq<char> {
    "CREATE INDEX IF NOT EXISTS idx__ver_"@ + slug + "_parent_latest ON "@ + versions_table_name(
        slug,
    ) + " (_parent, _latest)"@
}

/// The statement creating the index over a document's versions, newest first.
pub open spec fn version_index_sql(slug: Seq<char>) -> Seq<char> {
    "CREATE INDEX IF NOT EXISTS idx__ver_"@ + slug + "_parent_version ON "@ + versions_table_name(
        slug,
    ) + " (_parent, _version DESC)"@
}

/// The statement creating the index that keeps a document's version numbers
/// distinct.
pub open spec fn unique_version_sql(slug: Seq<char>) -> Seq<char> {
    "CREATE UNIQUE INDEX IF NOT EXISTS idx__ver_"@ + slug + "_parent_version_unique ON "@
        + versions_table_name(slug) + " (_parent, _version)"@
}

/// Runs the statements from the `i`-th on, up to the first that fails.
pub open spec fn ddl_from(s: SessionView, statements: Seq<Seq<char>>, i: int) -> Step<()>
    decreases statements.len() - i,
{
    if i < 0 || i >= statements.len() {
        (s, Ok(()))
    } else {
        let (s1, r) = ddl_step(s, statements[i]);
        match r {
            Err(e) => (s1, Err(e)),
            Ok(_) => ddl_from(s1, statements, i + 1),
        }
    }
}

/// Creates the versions table of `slug` where it is missing.
pub open spec fn sync_versions_table_step(s: SessionView, slug: Seq<char>) -> Step<()> {
    let (s1, exists) = table_exists_step(s, versions_table_name(slug));
    match exists {
        Err(e) => (s1, Err(e)),
        Ok(true) => (s1, Ok(())),
        Ok(false) => {
            let (s2, created) = within(
                ddl_step(
                    s1.noted("Creating versions table: "@ + versions_table_name(slug)),
                    create_versions_sql(s.dialect, slug),
                ),
                "Failed to create versions table "@ + versions_table_name(slug),
            );
            match created {
                Err(e) => (s2, Err(e)),
                Ok(_) => ddl_from(
                    s2,
                    seq![latest_index_sql(slug), version_index_sql(slug), unique_version_sql(slug)],
                    0,
                ),
            }
        },
    }
}

/// Creates the versions table of `slug` where it is missing.
pub fn sync_versions_table(conn: &mut Session, slug: &str) -> (r: Result<(), DbError>)
    ensures
        (final(conn)@, out(r)) == sync_versions_table_step(old(conn)@, slug@),
{
    let table = versions_table(slug);
    let ghost statements = seq![
        latest_index_sql(slug@),
        version_index_sql(slug@),
        unique_version_sql(slug@),
    ];
    proof {
        reveal_with_fuel(ddl_from, 4);
    }
    if table_exists(conn, table.as_str())? {
        return Ok(());
    }
    let stamp = conn.dialect().timestamp_column_default();
    conn.note(cat2("Creating versions table: ", table.as_str()));
    let created = conn.execute_ddl(
        cat9(
            "CREATE TABLE ",
            table.as_str(),
            " (id TEXT PRIMARY KEY, _parent TEXT NOT NULL REFERENCES ",
            slug,
            "(id) ON DELETE CASCADE, _version INTEGER NOT NULL, _status TEXT NOT NULL, _latest INTEGER NOT NULL DEFAULT 0, snapshot TEXT NOT NULL, created_at ",
            stamp,
            ", updated_at ",
            stamp,
            ")",
        ),
    );
    add_context(created, cat2("Failed to create versions table ", table.as_str()).as_str())?;
    conn.execute_ddl(
        cat5(
            "CREATE INDEX IF NOT EXISTS idx__ver_",
            slug,
            "_parent_latest ON ",
            table.as_str(),
            " (_parent, _latest)",
        ),
    )?;
    conn.execute_ddl(
        cat5(
            "CREATE INDEX IF NOT EXISTS idx__ver_",
            slug,
            "_parent_version ON ",
            table.as_str(),
            " (_parent, _version DESC)",
        ),
    )?;
    conn.execute_ddl(
        cat5(
            "CREATE UNIQUE INDEX IF NOT EXISTS idx__ver_",
            slug,
            "_parent_version_unique ON ",
            table.as_str(),
            " (_parent, _version)",
        ),
    )?;
    Ok(())
}

/// A versions table that is there is left as it is.
pub proof fn a_versions_table_is_created_once(s: SessionView, slug: Seq<char>)
    requires
        table_exists_step(s, versions_table_name(slug)).1 == Ok::<bool, ErrorView>(true),
    ensures
        sync_versions_table_step(s, slug) == (
            table_exists_step(s, versions_table_name(slug)).0,
            Ok::<(), ErrorView>(()),
        ),
{
}

/// No index over versions has the name of an index over a field, which is made of the
/// collection's slug and the field's name: a slug does not begin with an underscore.
pub proof fn version_indexes_meet_no_field_index(
    versioned: Seq<char>,
    suffix: Seq<char>,
    slug: Seq<char>,
    field: Seq<char>,
)
    requires
        slug.len() > 0,
        slug[0] != '_',
    ensures
        "idx__ver_"@ + versioned + suffix != "idx_"@ + slug + "_"@ + field,
{
    reveal_strlit("idx__ver_");
    reveal_strlit("idx_");
    let a = "idx__ver_"@ + versioned + suffix;
    let b = "idx_"@ + slug + "_"@ + field;
    assert(a[4] == '_');
    assert(b[4] == slug[0]);
}

} // verus!
