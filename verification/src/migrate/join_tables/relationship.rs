//! The junction tables of relationships and uploads to many.
use crate::definition::{FieldDefinition, LocaleConfig, RelationshipConfig};
use crate::migrate::helpers::introspection::{table_exists, table_exists_step};
use crate::migrate::join_tables::array::row_locale;
use crate::migrate::join_tables::junction_shape::{
    JunctionShape, JunctionShapeView, create_junction_step, create_junction_table,
    reconcile_junction_shape, reconcile_step,
};
use crate::migrate::relationship_target::{track_target, track_target_step};
use crate::names::{join_table, join_table_name};
use crate::session::{Session, SessionView, Step};
use crate::value::{DbError, out};
use vstd::prelude::*;

verus! {

/// Creates a junction, or brings the stored one to the shape.
pub open spec fn junction_ddl_step(
    s: SessionView,
    table: Seq<char>,
    collection: Seq<char>,
    shape: JunctionShapeView,
) -> Step<()> {
    let (s1, exists) = table_exists_step(s, table);
    match exists {
        Err(e) => (s1, Err(e)),
        Ok(true) => reconcile_step(s1, table, collection, shape),
        Ok(false) => create_junction_step(s1, table, collection, shape),
    }
}

/// Creates a junction, or brings the stored one to the shape, and records what
/// its ids point at. A reference to one document has no junction.
pub open spec fn sync_relationship_step(
    s: SessionView,
    collection: Seq<char>,
    relationship: Option<RelationshipConfig>,
    full_name: Seq<char>,
    has_locale_col: bool,
    config: LocaleConfig,
) -> Step<()> {
    match relationship {
        None => (s, Ok(())),
        Some(rc) => if !rc.has_many {
            (s, Ok(()))
        } else {
            let table = join_table_name(collection, full_name);
            let shape = JunctionShapeView {
                polymorphic: rc.polymorphic_spec(),
                default_locale: row_locale(has_locale_col, config),
            };
            let (s1, r) = junction_ddl_step(s, table, collection, shape);
            match r {
                Err(e) => (s1, Err(e)),
                Ok(_) => track_target_step(s1, table, rc),
            }
        },
    }
}

/// Creates the junction of a reference to many, or brings the stored one to the
/// shape the field asks for, and records what its ids point at.
pub fn sync_relationship_table(
    conn: &mut Session,
    collection_slug: &str,
    field: &FieldDefinition,
    full_name: &str,
    has_locale_col: bool,
    locale_config: &LocaleConfig,
) -> (r: Result<(), DbError>)
    ensures
        (final(conn)@, out(r)) == sync_relationship_step(
            old(conn)@,
            collection_slug@,
            field.relationship,
            full_name@,
            has_locale_col,
            *locale_config,
        ),
{
    let rc = match &field.relationship {
        None => {
            return Ok(());
        },
        Some(rc) => rc,
    };
    if !rc.has_many {
        return Ok(());
    }
    let table_name = join_table(collection_slug, full_name);
    let locale = if has_locale_col {
        Some(locale_config.default_locale.clone())
    } else {
        None
    };
    let shape = JunctionShape::new(rc.is_polymorphic(), locale);
    if table_exists(conn, table_name.as_str())? {
        reconcile_junction_shape(conn, table_name.as_str(), collection_slug, &shape)?;
    } else {
        create_junction_table(conn, table_name.as_str(), collection_slug, &shape)?;
    }
    track_target(conn, table_name.as_str(), rc)
}

} // verus!
