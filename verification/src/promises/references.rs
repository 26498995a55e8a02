//! References are carried to where they are read from, and their shapes recorded.
use crate::definition::{
    CollectionDefinition, FieldDefinition, GlobalDefinition, LocaleConfig, Registry,
};
use crate::migrate::meta;
use crate::migrate::reference_cardinality::{
    RefLeafView, Shape, carry_collections_from, carry_globals_from, carry_leaves_from,
    carry_owner_step, carry_step, encoded, read_parts, ref_leaves_of, shape_parts, shape_record,
};
use crate::migrate::transaction::{
    in_carry_collections_from, in_carry_globals_from, in_carry_leaves_from, in_carry_owner_step,
    in_meta_get_step, in_meta_upsert_step,
};
use crate::order::{inserted, sorted};
use crate::promises::{on_record, on_record_wider, record_read};
use crate::promises::records::{what_is_read_is_on_record, what_is_stored_is_on_record};
use crate::replay::{extends_itself, extends_on};
use crate::session::{SessionView, extends};
use crate::text::{join, pieces};
use crate::value::ErrorView;
use vstd::prelude::*;

verus! {

/// A shape is recorded as what it holds, one or many, and what sets it apart.
pub proof fn shapes_are_recorded_in_words()
    ensures
        forall|shape: Shape|
            shape.has_many && !shape.localized && !shape.polymorphic ==> #[trigger] encoded(shape)
                == "many"@,
        forall|shape: Shape|
            shape.has_many && shape.localized && !shape.polymorphic ==> #[trigger] encoded(shape)
                == "many+loc"@,
        forall|shape: Shape|
            shape.has_many && !shape.localized && shape.polymorphic ==> #[trigger] encoded(shape)
                == "many+poly"@,
        forall|shape: Shape|
            shape.has_many && shape.localized && shape.polymorphic ==> #[trigger] encoded(shape)
                == "many+loc+poly"@,
        forall|shape: Shape|
            !shape.has_many && !shape.localized && !shape.polymorphic ==> #[trigger] encoded(shape)
                == "one"@,
        forall|shape: Shape|
            !shape.has_many && shape.localized && !shape.polymorphic ==> #[trigger] encoded(shape)
                == "one+loc"@,
        forall|shape: Shape|
            !shape.has_many && !shape.localized && shape.polymorphic ==> #[trigger] encoded(shape)
                == "one+poly"@,
        forall|shape: Shape|
            !shape.has_many && shape.localized && shape.polymorphic ==> #[trigger] encoded(shape)
                == "one+loc+poly"@,
{
    reveal_strlit("many");
    reveal_strlit("one");
    reveal_strlit("+loc");
    reveal_strlit("+poly");
    reveal_strlit("");
    reveal_strlit("many+loc");
    reveal_strlit("many+poly");
    reveal_strlit("many+loc+poly");
    reveal_strlit("one+loc");
    reveal_strlit("one+poly");
    reveal_strlit("one+loc+poly");
    assert("many"@ + ""@ + ""@ =~= "many"@);
    assert("many"@ + "+loc"@ + ""@ =~= "many+loc"@);
    assert("many"@ + ""@ + "+poly"@ =~= "many+poly"@);
    assert("many"@ + "+loc"@ + "+poly"@ =~= "many+loc+poly"@);
    assert("one"@ + ""@ + ""@ =~= "one"@);
    assert("one"@ + "+loc"@ + ""@ =~= "one+loc"@);
    assert("one"@ + ""@ + "+poly"@ =~= "one+poly"@);
    assert("one"@ + "+loc"@ + "+poly"@ =~= "one+loc+poly"@);
}

/// Whether what a table's references are is on record, from requests sent there.
pub open spec fn references_kept(
    s: SessionView,
    i: int,
    j: int,
    table: Seq<char>,
    fields: Seq<FieldDefinition>,
    enabled: bool,
) -> bool {
    on_record(
        s,
        i,
        j,
        "reference_cardinality:"@ + table,
        shape_record(ref_leaves_of(fields, enabled)),
    )
}

/// Once a table's references are carried, what they are is on record: it was read, or it
/// is stored now.
pub proof fn an_owners_references_are_kept(
    s: SessionView,
    table: Seq<char>,
    fields: Seq<FieldDefinition>,
    config: LocaleConfig,
)
    ensures
        ({
            let (end, r) = carry_owner_step(s, table, fields, config);
            &&& s.sent.len() < end.sent.len() && end.sent[s.sent.len() as int] == record_read(
                s.dialect,
                "reference_cardinality:"@ + table,
            )
            &&& r is Ok ==> references_kept(
                end,
                s.sent.len() as int,
                end.sent.len() as int,
                table,
                fields,
                config.enabled(),
            )
        }),
{
    broadcast use {
        in_meta_get_step, in_meta_upsert_step, in_carry_leaves_from, extends_on, extends_itself,
    };

    let key = "reference_cardinality:"@ + table;
    let refs = ref_leaves_of(fields, config.enabled());
    let value = shape_record(refs);
    let (end, r) = carry_owner_step(s, table, fields, config);
    let at = s.sent.len() as int;
    let (s1, previous) = meta::get_step(s, key);
    what_is_read_is_on_record(s, key);
    assert(s1.sent[at] == record_read(s.dialect, key));
    let s2 = match previous {
        Ok(Some(previous)) => carry_leaves_from(
            s1,
            table,
            refs,
            read_parts(pieces(previous, ',')),
            config.locales.deep_view(),
            0,
        ).0,
        _ => s1,
    };
    assert(extends(s1, s2));
    if previous == Ok::<Option<Seq<char>>, ErrorView>(Some(value)) {
        assert(end == s1);
    } else if r is Ok {
        assert(end == meta::upsert_step(s2, key, value).0);
        what_is_stored_is_on_record(s2, key, value);
        on_record_wider(
            end,
            end,
            s2.sent.len() as int,
            end.sent.len() as int,
            at,
            end.sent.len() as int,
            key,
            value,
        );
    }
    assert(extends(s1, end));
}

proof fn collections_references_are_kept(
    s: SessionView,
    collections: Seq<CollectionDefinition>,
    config: LocaleConfig,
    i: int,
    k: int,
)
    requires
        0 <= i <= k < collections.len(),
    ensures
        ({
            let (end, r) = carry_collections_from(s, collections, config, i);
            r is Ok ==> references_kept(
                end,
                s.sent.len() as int,
                end.sent.len() as int,
                collections[k].slug@,
                collections[k].fields@,
                config.enabled(),
            )
        }),
    decreases collections.len() - i,
{
    broadcast use {in_carry_collections_from, in_carry_owner_step};

    let (end, r) = carry_collections_from(s, collections, config, i);
    if r is Ok {
        let s1 = carry_owner_step(s, collections[i].slug@, collections[i].fields@, config).0;
        assert(end == carry_collections_from(s1, collections, config, i + 1).0);
        let last = end.sent.len() as int;
        let key = "reference_cardinality:"@ + collections[k].slug@;
        let value = shape_record(ref_leaves_of(collections[k].fields@, config.enabled()));
        if i == k {
            an_owners_references_are_kept(s, collections[k].slug@, collections[k].fields@, config);
            on_record_wider(
                s1,
                end,
                s.sent.len() as int,
                s1.sent.len() as int,
                s.sent.len() as int,
                last,
                key,
                value,
            );
        } else {
            collections_references_are_kept(s1, collections, config, i + 1, k);
            on_record_wider(
                end,
                end,
                s1.sent.len() as int,
                last,
                s.sent.len() as int,
                last,
                key,
                value,
            );
        }
    }
}

proof fn globals_references_are_kept(
    s: SessionView,
    globals: Seq<GlobalDefinition>,
    config: LocaleConfig,
    i: int,
    k: int,
)
    requires
        0 <= i <= k < globals.len(),
    ensures
        ({
            let (end, r) = carry_globals_from(s, globals, config, i);
            r is Ok ==> references_kept(
                end,
                s.sent.len() as int,
                end.sent.len() as int,
                "_global_"@ + globals[k].slug@,
                globals[k].fields@,
                config.enabled(),
            )
        }),
    decreases globals.len() - i,
{
    broadcast use {in_carry_globals_from, in_carry_owner_step};

    let (end, r) = carry_globals_from(s, globals, config, i);
    if r is Ok {
        let s1 = carry_owner_step(
            s,
            "_global_"@ + globals[i].slug@,
            globals[i].fields@,
            config,
        ).0;
        assert(end == carry_globals_from(s1, globals, config, i + 1).0);
        let last = end.sent.len() as int;
        let key = "reference_cardinality:"@ + ("_global_"@ + globals[k].slug@);
        let value = shape_record(ref_leaves_of(globals[k].fields@, config.enabled()));
        if i == k {
            an_owners_references_are_kept(
                s,
                "_global_"@ + globals[k].slug@,
                globals[k].fields@,
                config,
            );
            on_record_wider(
                s1,
                end,
                s.sent.len() as int,
                s1.sent.len() as int,
                s.sent.len() as int,
                last,
                key,
                value,
            );
        } else {
            globals_references_are_kept(s1, globals, config, i + 1, k);
            on_record_wider(
                end,
                end,
                s1.sent.len() as int,
                last,
                s.sent.len() as int,
                last,
                key,
                value,
            );
        }
    }
}

/// Whether what the references of every collection and of every global are is on record.
pub open spec fn all_references_kept(
    s: SessionView,
    i: int,
    j: int,
    registry: Registry,
    config: LocaleConfig,
) -> bool {
    &&& forall|c: int|
        0 <= c < registry.collections@.len() ==> references_kept(
            s,
            i,
            j,
            (#[trigger] registry.collections@[c]).slug@,
            registry.collections@[c].fields@,
            config.enabled(),
        )
    &&& forall|g: int|
        0 <= g < registry.globals@.len() ==> references_kept(
            s,
            i,
            j,
            "_global_"@ + (#[trigger] registry.globals@[g]).slug@,
            registry.globals@[g].fields@,
            config.enabled(),
        )
}

/// Once references are carried, what those of every collection and of every global are is
/// on record.
pub proof fn every_reference_is_kept(s: SessionView, registry: Registry, config: LocaleConfig)
    ensures
        ({
            let (end, r) = carry_step(s, registry, config);
            r is Ok ==> all_references_kept(
                end,
                s.sent.len() as int,
                end.sent.len() as int,
                registry,
                config,
            )
        }),
{
    broadcast use {in_carry_collections_from, in_carry_globals_from};

    let (end, r) = carry_step(s, registry, config);
    if r is Ok {
        let s1 = carry_collections_from(s, registry.collections@, config, 0).0;
        assert(end == carry_globals_from(s1, registry.globals@, config, 0).0);
        let at = s.sent.len() as int;
        let last = end.sent.len() as int;
        assert forall|c: int| 0 <= c < registry.collections@.len() implies references_kept(
            end,
            at,
            last,
            (#[trigger] registry.collections@[c]).slug@,
            registry.collections@[c].fields@,
            config.enabled(),
        ) by {
            collections_references_are_kept(s, registry.collections@, config, 0, c);
            on_record_wider(
                s1,
                end,
                at,
                s1.sent.len() as int,
                at,
                last,
                "reference_cardinality:"@ + registry.collections@[c].slug@,
                shape_record(ref_leaves_of(registry.collections@[c].fields@, config.enabled())),
            );
        }
        assert forall|g: int| 0 <= g < registry.globals@.len() implies references_kept(
            end,
            at,
            last,
            "_global_"@ + (#[trigger] registry.globals@[g]).slug@,
            registry.globals@[g].fields@,
            config.enabled(),
        ) by {
            globals_references_are_kept(s1, registry.globals@, config, 0, g);
            on_record_wider(
                end,
                end,
                s1.sent.len() as int,
                last,
                at,
                last,
                "reference_cardinality:"@ + ("_global_"@ + registry.globals@[g].slug@),
                shape_record(ref_leaves_of(registry.globals@[g].fields@, config.enabled())),
            );
        }
    }
}

pub(crate) proof fn all_references_kept_wider(
    b: SessionView,
    d: SessionView,
    i: int,
    j: int,
    k: int,
    l: int,
    registry: Registry,
    config: LocaleConfig,
)
    requires
        extends(b, d),
        all_references_kept(b, i, j, registry, config),
        0 <= k <= i,
        j <= l,
    ensures
        all_references_kept(d, k, l, registry, config),
{
    let collections = registry.collections@;
    let globals = registry.globals@;
    let enabled = config.enabled();
    assert forall|c: int| 0 <= c < collections.len() implies references_kept(
        d,
        k,
        l,
        (#[trigger] collections[c]).slug@,
        collections[c].fields@,
        enabled,
    ) by {
        on_record_wider(
            b,
            d,
            i,
            j,
            k,
            l,
            "reference_cardinality:"@ + collections[c].slug@,
            shape_record(ref_leaves_of(collections[c].fields@, enabled)),
        );
    }
    assert forall|g: int| 0 <= g < globals.len() implies references_kept(
        d,
        k,
        l,
        "_global_"@ + (#[trigger] globals[g]).slug@,
        globals[g].fields@,
        enabled,
    ) by {
        on_record_wider(
            b,
            d,
            i,
            j,
            k,
            l,
            "reference_cardinality:"@ + ("_global_"@ + globals[g].slug@),
            shape_record(ref_leaves_of(globals[g].fields@, enabled)),
        );
    }
}

/// What is recorded of a table is each of its references, by its path and shape, in order
/// and with commas between.
pub proof fn references_are_recorded_by_path_and_shape(refs: Seq<RefLeafView>, leaf: RefLeafView)
    ensures
        shape_record(refs) == join(
            sorted(
                Seq::new(
                    refs.len(),
                    |i: int| refs[i].path + "="@ + encoded(refs[i].shape()),
                ),
            ),
            ","@,
        ),
        shape_record(seq![leaf]) == leaf.path + "="@ + encoded(leaf.shape()),
{
    let parts = Seq::new(refs.len(), |i: int| refs[i].path + "="@ + encoded(refs[i].shape()));
    assert(shape_parts(refs) =~= parts);
    let part = leaf.path + "="@ + encoded(leaf.shape());
    assert(shape_parts(seq![leaf]) =~= seq![part]);
    reveal_with_fuel(sorted, 2);
    reveal_with_fuel(inserted, 2);
    assert(seq![part].drop_last() =~= Seq::<Seq<char>>::empty());
    assert(sorted(seq![part]) =~= seq![part]);
    reveal_with_fuel(join, 2);
}

} // verus!
