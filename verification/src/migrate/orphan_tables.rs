//! Tables that no definition accounts for.
//!
//! A collection or global that was renamed or removed leaves its tables behind,
//! which no pass over the definitions comes across. They are recognised here, and
//! only reported: such a table may hold the only copy of its data.
use crate::definition::{
    CollectionDefinition, FieldDefinition, GlobalDefinition, LocaleConfig, Registry,
};
use crate::migrate::helpers::introspection::{
    get_table_columns, list_user_tables, table_columns_step, user_tables_step,
};
use crate::migrate::join_tables::orchestrator::{
    JoinTableKind, JoinTablePlan, PlanView, join_plans, plan_join_tables,
};
use crate::names::{
    global_table, global_table_name, join_table, join_table_name, versions_table,
    versions_table_name,
};
use crate::order::{
    contains_joined, contains_pushed, is_sorted, sort_texts, sorted, sorted_holds_the_same,
    sorted_is_sorted, text_le,
};
use crate::session::{Session, SessionView, Step, only_reads, only_reads_on};
use crate::text::{cat5, contains, push_item, starts_with};
use crate::value::{DbError, ErrorView, out};
use vstd::prelude::*;

verus! {

/// What kind of leftover a table is.
#[derive(Debug, Clone, Copy, PartialEq, Eq, Structural)]
pub enum OrphanKind {
    /// The table of a collection that is defined no more.
    Collection,
    /// The table of a global that is defined no more.
    Global,
    /// The versions of a table that is defined no more.
    Versions,
    /// The rows of a field that is gone.
    Junction,
}

impl OrphanKind {
    /// The word reports use for this kind.
    pub open spec fn word(self) -> Seq<char> {
        match self {
            OrphanKind::Collection => "collection table"@,
            OrphanKind::Global => "global table"@,
            OrphanKind::Versions => "versions table"@,
            OrphanKind::Junction => "junction table"@,
        }
    }

    /// The word reports use for this kind.
    pub fn label(self) -> (r: &'static str)
        ensures
            r@ == self.word(),
    {
        match self {
            OrphanKind::Collection => "collection table",
            OrphanKind::Global => "global table",
            OrphanKind::Versions => "versions table",
            OrphanKind::Junction => "junction table",
        }
    }
}

/// A table that no definition accounts for.
#[derive(Debug, Clone, PartialEq, Eq)]
pub struct OrphanTable {
    pub name: String,
    pub kind: OrphanKind,
}

/// The mathematical value of an [`OrphanTable`].
#[verifier::ext_equal]
pub ghost struct OrphanView {
    pub name: Seq<char>,
    pub kind: OrphanKind,
}

impl DeepView for OrphanTable {
    type V = OrphanView;

    open spec fn deep_view(&self) -> OrphanView {
        OrphanView { name: self.name@, kind: self.kind }
    }
}

impl OrphanTable {
    pub fn new(name: String, kind: OrphanKind) -> (r: OrphanTable)
        ensures
            r.deep_view() == (OrphanView { name: name@, kind }),
    {
        OrphanTable { name, kind }
    }
}

/// The tables of the rows of planned fields. A reference to one document names
/// none: a table left from when it had many is a leftover.
pub open spec fn row_tables(table: Seq<char>, plans: Seq<PlanView>) -> Seq<Seq<char>>
    decreases plans.len(),
{
    if plans.len() == 0 {
        Seq::empty()
    } else {
        let before = row_tables(table, plans.drop_last());
        if plans.last().has_table() {
            before.push(join_table_name(table, plans.last().full_name))
        } else {
            before
        }
    }
}

/// The tables of one definition: its own, its versions', its fields' rows'.
pub open spec fn tables_of(table: Seq<char>, fields: Seq<FieldDefinition>) -> Seq<Seq<char>> {
    seq![table, versions_table_name(table)] + row_tables(table, join_plans(fields, false))
}

/// The tables of several collections.
pub open spec fn collection_tables(collections: Seq<CollectionDefinition>) -> Seq<Seq<char>>
    decreases collections.len(),
{
    if collections.len() == 0 {
        Seq::empty()
    } else {
        collection_tables(collections.drop_last()) + tables_of(
            collections.last().slug@,
            collections.last().fields@,
        )
    }
}

/// The tables of several globals.
pub open spec fn global_tables(globals: Seq<GlobalDefinition>) -> Seq<Seq<char>>
    decreases globals.len(),
{
    if globals.len() == 0 {
        Seq::empty()
    } else {
        global_tables(globals.drop_last()) + tables_of(
            global_table_name(globals.last().slug@),
            globals.last().fields@,
        )
    }
}

/// Every table the definitions account for. It names more than there are: a
/// versions table may never have been made. Leaving one out would report a table
/// that is in use.
pub open spec fn known(registry: Registry) -> Seq<Seq<char>> {
    collection_tables(registry.collections@) + global_tables(registry.globals@)
}

fn push_row_tables<'a>(table: &str, plans: &Vec<JoinTablePlan<'a>>, found: &mut Vec<String>)
    ensures
        final(found).deep_view() == old(found).deep_view() + row_tables(table@, plans.deep_view()),
{
    let ghost start = found.deep_view();
    let ghost all = plans.deep_view();
    let mut i: usize = 0;
    assert(all.take(0) =~= Seq::<PlanView>::empty());
    assert(start + Seq::<Seq<char>>::empty() =~= start);
    while i < plans.len()
        invariant
            i <= plans.len(),
            all == plans.deep_view(),
            found.deep_view() == start + row_tables(table@, all.take(i as int)),
        decreases plans.len() - i,
    {
        assert(all.take(i + 1).drop_last() =~= all.take(i as int));
        assert(all.take(i + 1).last() == plans@[i as int].deep_view());
        let has_table = match plans[i].kind {
            JoinTableKind::Relationship => match &plans[i].field.relationship {
                Some(rc) => rc.has_many,
                None => false,
            },
            _ => true,
        };
        assert(has_table == plans@[i as int].deep_view().has_table());
        if has_table {
            push_item(found, join_table(table, plans[i].full_name.as_str()));
        }
        i += 1;
        assert(found.deep_view() =~= start + row_tables(table@, all.take(i as int)));
    }
    assert(all.take(i as int) =~= all);
}

fn push_tables(table: &str, fields: &Vec<FieldDefinition>, found: &mut Vec<String>)
    ensures
        final(found).deep_view() == old(found).deep_view() + tables_of(table@, fields@),
{
    let ghost start = found.deep_view();
    push_item(found, table.to_owned());
    push_item(found, versions_table(table));
    let plans = plan_join_tables(fields, &LocaleConfig::disabled());
    push_row_tables(table, &plans, found);
    assert(found.deep_view() =~= start + tables_of(table@, fields@));
}

fn known_tables(registry: &Registry) -> (r: Vec<String>)
    ensures
        r.deep_view() == known(*registry),
{
    let mut found: Vec<String> = Vec::new();
    assert(found.deep_view() =~= Seq::<Seq<char>>::empty());
    let collections = &registry.collections;
    let mut i: usize = 0;
    assert(collections@.take(0) =~= Seq::<CollectionDefinition>::empty());
    while i < collections.len()
        invariant
            i <= collections.len(),
            found.deep_view() == collection_tables(collections@.take(i as int)),
        decreases collections.len() - i,
    {
        assert(collections@.take(i + 1).drop_last() =~= collections@.take(i as int));
        assert(collections@.take(i + 1).last() == collections@[i as int]);
        push_tables(collections[i].slug.as_str(), &collections[i].fields, &mut found);
        i += 1;
    }
    assert(collections@.take(i as int) =~= collections@);
    let ghost own = found.deep_view();
    let globals = &registry.globals;
    let mut k: usize = 0;
    assert(globals@.take(0) =~= Seq::<GlobalDefinition>::empty());
    assert(own + Seq::<Seq<char>>::empty() =~= own);
    while k < globals.len()
        invariant
            k <= globals.len(),
            found.deep_view() == own + global_tables(globals@.take(k as int)),
        decreases globals.len() - k,
    {
        assert(globals@.take(k + 1).drop_last() =~= globals@.take(k as int));
        assert(globals@.take(k + 1).last() == globals@[k as int]);
        let table = global_table(globals[k].slug.as_str());
        push_tables(table.as_str(), &globals[k].fields, &mut found);
        k += 1;
        assert(found.deep_view() =~= own + global_tables(globals@.take(k as int)));
    }
    assert(globals@.take(k as int) =~= globals@);
    found
}

/// Whether a table is never reported: the definitions name it, or it is one of
/// the bookkeeping or search tables.
pub open spec fn accounted_for(name: Seq<char>, known: Seq<Seq<char>>) -> bool {
    known.contains(name) || "_crap"@.is_prefix_of(name) || "_fts_"@.is_prefix_of(name)
}

fn is_accounted_for(name: &str, known: &Vec<String>) -> (r: bool)
    ensures
        r == accounted_for(name@, known.deep_view()),
{
    contains(known, name) || starts_with(name, "_crap") || starts_with(name, "_fts_")
}

/// What kind of leftover a table is. A table that has neither a telling name nor
/// the columns of one of ours may belong to another application.
pub open spec fn classified(name: Seq<char>, columns: Seq<Seq<char>>) -> Option<OrphanKind> {
    if "_versions_"@.is_prefix_of(name) {
        Some(OrphanKind::Versions)
    } else if "_global_"@.is_prefix_of(name) {
        Some(OrphanKind::Global)
    } else if columns.contains("parent_id"@) && columns.contains("_order"@) {
        Some(OrphanKind::Junction)
    } else if columns.contains("_ref_count"@) {
        Some(OrphanKind::Collection)
    } else {
        None
    }
}

fn classify(name: &str, columns: &Vec<String>) -> (r: Option<OrphanKind>)
    ensures
        r == classified(name@, columns.deep_view()),
{
    if starts_with(name, "_versions_") {
        return Some(OrphanKind::Versions);
    }
    if starts_with(name, "_global_") {
        return Some(OrphanKind::Global);
    }
    if contains(columns, "parent_id") && contains(columns, "_order") {
        return Some(OrphanKind::Junction);
    }
    if contains(columns, "_ref_count") {
        return Some(OrphanKind::Collection);
    }
    None
}

/// Goes through the tables from the `i`-th on.
pub open spec fn orphans_from(
    s: SessionView,
    names: Seq<Seq<char>>,
    known: Seq<Seq<char>>,
    i: int,
    done: Seq<OrphanView>,
) -> Step<Seq<OrphanView>>
    decreases names.len() - i,
{
    if i < 0 || i >= names.len() {
        (s, Ok(done))
    } else if accounted_for(names[i], known) {
        orphans_from(s, names, known, i + 1, done)
    } else {
        let (s1, columns) = table_columns_step(s, names[i]);
        match columns {
            Err(e) => (s1, Err(e)),
            Ok(columns) => match classified(names[i], columns) {
                Some(kind) => orphans_from(
                    s1,
                    names,
                    known,
                    i + 1,
                    done.push(OrphanView { name: names[i], kind }),
                ),
                None => orphans_from(s1, names, known, i + 1, done),
            },
        }
    }
}

/// Looks for the tables that no definition accounts for.
pub open spec fn find_orphans_step(s: SessionView, registry: Registry) -> Step<Seq<OrphanView>> {
    let (s1, names) = user_tables_step(s);
    match names {
        Err(e) => (s1, Err(e)),
        Ok(names) => orphans_from(s1, sorted(names), known(registry), 0, Seq::empty()),
    }
}

/// The tables that no definition accounts for, by name.
pub fn find_orphan_tables(conn: &mut Session, registry: &Registry) -> (r: Result<
    Vec<OrphanTable>,
    DbError,
>)
    ensures
        (final(conn)@, out(r)) == find_orphans_step(old(conn)@, *registry),
{
    let known = known_tables(registry);
    let names = list_user_tables(conn)?;
    let names = sort_texts(&names);
    let ghost start = conn@;
    let ghost all = names.deep_view();
    let mut orphans: Vec<OrphanTable> = Vec::new();
    assert(orphans.deep_view() =~= Seq::<OrphanView>::empty());
    let mut i: usize = 0;
    while i < names.len()
        invariant
            i <= names.len(),
            all == names.deep_view(),
            orphans_from(start, all, known.deep_view(), 0, Seq::empty()) == find_orphans_step(
                old(conn)@,
                *registry,
            ),
            orphans_from(start, all, known.deep_view(), 0, Seq::empty()) == orphans_from(
                conn@,
                all,
                known.deep_view(),
                i as int,
                orphans.deep_view(),
            ),
        decreases names.len() - i,
    {
        assert(all[i as int] == names@[i as int]@);
        let name = names[i].as_str();
        if !is_accounted_for(name, &known) {
            let columns = get_table_columns(conn, name)?;
            if let Some(kind) = classify(name, &columns) {
                push_item(&mut orphans, OrphanTable::new(names[i].clone(), kind));
            }
        }
        i += 1;
    }
    Ok(orphans)
}

/// What the operator is told of a table that no definition accounts for.
pub open spec fn orphan_warning(orphan: OrphanView) -> Seq<char> {
    "Table '"@ + orphan.name + "' ("@ + orphan.kind.word()
        + ") belongs to no definition (not removed) — `crap-cms db cleanup` lists it, `db cleanup --drop-tables -y` drops it"@
}

/// The session after a warning for each of the tables from the `i`-th on.
pub open spec fn warned_of_tables(s: SessionView, orphans: Seq<OrphanView>, i: int) -> SessionView
    decreases orphans.len() - i,
{
    if i < 0 || i >= orphans.len() {
        s
    } else {
        warned_of_tables(s.warned(orphan_warning(orphans[i])), orphans, i + 1)
    }
}

/// Warns once per table that no definition accounts for.
pub open spec fn warn_orphans_step(s: SessionView, registry: Registry) -> Step<()> {
    let (s1, orphans) = find_orphans_step(s, registry);
    match orphans {
        Err(e) => (s1, Err(e)),
        Ok(orphans) => (warned_of_tables(s1, orphans, 0), Ok(())),
    }
}

/// Warns once per table that no definition accounts for. None is dropped.
pub fn warn_orphan_tables(conn: &mut Session, registry: &Registry) -> (r: Result<(), DbError>)
    ensures
        (final(conn)@, out(r)) == warn_orphans_step(old(conn)@, *registry),
{
    let orphans = find_orphan_tables(conn, registry)?;
    let ghost start = conn@;
    let ghost all = orphans.deep_view();
    let mut i: usize = 0;
    while i < orphans.len()
        invariant
            i <= orphans.len(),
            all == orphans.deep_view(),
            warned_of_tables(start, all, 0) == warned_of_tables(conn@, all, i as int),
            warn_orphans_step(old(conn)@, *registry) == (
                warned_of_tables(start, all, 0),
                Ok::<(), crate::value::ErrorView>(()),
            ),
        decreases orphans.len() - i,
    {
        assert(all[i as int] == orphans@[i as int].deep_view());
        conn.warn(
            cat5(
                "Table '",
                orphans[i].name.as_str(),
                "' (",
                orphans[i].kind.label(),
                ") belongs to no definition (not removed) — `crap-cms db cleanup` lists it, `db cleanup --drop-tables -y` drops it",
            ),
        );
        i += 1;
    }
    Ok(())
}

proof fn warnings_read_nothing(s: SessionView, orphans: Seq<OrphanView>, i: int)
    requires
        0 <= i <= orphans.len(),
    ensures
        only_reads(s, warned_of_tables(s, orphans, i)),
        warned_of_tables(s, orphans, i).warnings.len() == s.warnings.len() + orphans.len() - i,
    decreases orphans.len() - i,
{
    if i < orphans.len() {
        let t = s.warned(orphan_warning(orphans[i]));
        warnings_read_nothing(t, orphans, i + 1);
        assert(only_reads(s, t)) by {
            assert(s.warnings =~= t.warnings.take(s.warnings.len() as int));
            assert(s.errors =~= t.errors.take(s.errors.len() as int));
            assert(s.notes =~= t.notes.take(s.notes.len() as int));
        }
        only_reads_on(s, t, warned_of_tables(t, orphans, i + 1));
    }
}

proof fn orphans_from_sound(
    s: SessionView,
    names: Seq<Seq<char>>,
    known: Seq<Seq<char>>,
    i: int,
    done: Seq<OrphanView>,
)
    requires
        0 <= i <= names.len(),
    ensures
        only_reads(s, orphans_from(s, names, known, i, done).0),
        orphans_from(s, names, known, i, done).1 matches Ok(found) ==> {
            &&& done.is_prefix_of(found)
            &&& forall|k: int|
                done.len() <= k < found.len() ==> {
                    &&& names.skip(i).contains((#[trigger] found[k]).name)
                    &&& !accounted_for(found[k].name, known)
                }
            &&& forall|j: int|
                i <= j < names.len() && !accounted_for(#[trigger] names[j], known) && (
                "_versions_"@.is_prefix_of(names[j]) || "_global_"@.is_prefix_of(names[j]))
                    ==> exists|k: int|
                    done.len() <= k < found.len() && (#[trigger] found[k]).name == names[j]
        },
    decreases names.len() - i,
{
    if i < names.len() {
        assert forall|x: Seq<char>| names.skip(i + 1).contains(x) implies names.skip(i).contains(
            x,
        ) by {
            let rest = names.skip(i + 1);
            let k = choose|k: int| 0 <= k < rest.len() && rest[k] == x;
            assert(names.skip(i)[k + 1] == x);
        }
        if accounted_for(names[i], known) {
            orphans_from_sound(s, names, known, i + 1, done);
        } else {
            let (s1, columns) = table_columns_step(s, names[i]);
            assert(only_reads(s, s1)) by {
                assert(s.sent =~= s1.sent.take(s.sent.len() as int));
            }
            if let Ok(columns) = columns {
                match classified(names[i], columns) {
                    Some(kind) => {
                        let orphan = OrphanView { name: names[i], kind };
                        let more = done.push(orphan);
                        orphans_from_sound(s1, names, known, i + 1, more);
                        only_reads_on(s, s1, orphans_from(s1, names, known, i + 1, more).0);
                        if let Ok(found) = orphans_from(s1, names, known, i + 1, more).1 {
                            assert(found[done.len() as int] == more[done.len() as int]);
                            assert(found[done.len() as int] == orphan);
                            assert(names.skip(i)[0] == names[i]);
                            assert(done =~= found.take(done.len() as int));
                            assert forall|j: int|
                                i <= j < names.len() && !accounted_for(#[trigger] names[j], known)
                                    && ("_versions_"@.is_prefix_of(names[j])
                                    || "_global_"@.is_prefix_of(names[j])) implies exists|k: int|
                                done.len() <= k < found.len() && (#[trigger] found[k]).name
                                    == names[j] by {
                                if j == i {
                                    assert(found[done.len() as int].name == names[j]);
                                } else {
                                    let k = choose|k: int|
                                        more.len() <= k < found.len() && (#[trigger] found[k]).name
                                            == names[j];
                                    assert(found[k].name == names[j]);
                                }
                            }
                        }
                    },
                    None => {
                        orphans_from_sound(s1, names, known, i + 1, done);
                        only_reads_on(s, s1, orphans_from(s1, names, known, i + 1, done).0);
                    },
                }
            }
        }
    } else {
        assert(s.sent =~= s.sent.take(s.sent.len() as int));
    }
}

/// What is reported is there and belongs to no definition: never a table a
/// definition accounts for, and never one of the library's own. A table of versions
/// or of a global that no definition accounts for is always reported.
pub proof fn orphans_are_unaccounted_for(s: SessionView, registry: Registry)
    ensures
        find_orphans_step(s, registry).1 matches Ok(found) ==> {
            &&& user_tables_step(s).1 is Ok
            &&& forall|k: int|
                0 <= k < found.len() ==> {
                    &&& user_tables_step(s).1->Ok_0.contains((#[trigger] found[k]).name)
                    &&& !known(registry).contains(found[k].name)
                    &&& !"_crap"@.is_prefix_of(found[k].name)
                }
            &&& forall|name: Seq<char>|
                user_tables_step(s).1->Ok_0.contains(name) && !accounted_for(
                    name,
                    known(registry),
                ) && ("_versions_"@.is_prefix_of(name) || "_global_"@.is_prefix_of(name))
                    ==> exists|k: int| 0 <= k < found.len() && (#[trigger] found[k]).name == name
        },
{
    let (s1, names) = user_tables_step(s);
    if let Ok(names) = names {
        let list = sorted(names);
        orphans_from_sound(s1, list, known(registry), 0, Seq::empty());
        if let Ok(found) = find_orphans_step(s, registry).1 {
            assert(list.skip(0) =~= list);
            assert forall|k: int| 0 <= k < found.len() implies {
                &&& names.contains((#[trigger] found[k]).name)
                &&& !known(registry).contains(found[k].name)
                &&& !"_crap"@.is_prefix_of(found[k].name)
            } by {
                sorted_holds_the_same(names, found[k].name);
            }
            assert forall|name: Seq<char>|
                names.contains(name) && !accounted_for(name, known(registry)) && (
                "_versions_"@.is_prefix_of(name) || "_global_"@.is_prefix_of(name)) implies exists|
                k: int,
            |
                0 <= k < found.len() && (#[trigger] found[k]).name == name by {
                sorted_holds_the_same(names, name);
                let j = choose|j: int| 0 <= j < list.len() && list[j] == name;
                assert(!accounted_for(list[j], known(registry)));
            }
        }
    }
}

/// Reporting leftovers removes none: nothing is sent but reads.
pub proof fn orphans_are_never_dropped(s: SessionView, registry: Registry)
    ensures
        only_reads(s, find_orphans_step(s, registry).0),
        only_reads(s, warn_orphans_step(s, registry).0),
{
    let (s1, names) = user_tables_step(s);
    assert(only_reads(s, s1)) by {
        assert(s.sent =~= s1.sent.take(s.sent.len() as int));
    }
    if let Ok(names) = names {
        let list = sorted(names);
        orphans_from_sound(s1, list, known(registry), 0, Seq::empty());
        let (s2, found) = orphans_from(s1, list, known(registry), 0, Seq::empty());
        only_reads_on(s, s1, s2);
        if let Ok(found) = found {
            warnings_read_nothing(s2, found, 0);
            only_reads_on(s, s2, warned_of_tables(s2, found, 0));
        }
    }
}

/// The leftovers among tables, given the columns of each.
pub open spec fn leftovers(
    names: Seq<Seq<char>>,
    columns: spec_fn(Seq<char>) -> Seq<Seq<char>>,
    known: Seq<Seq<char>>,
) -> Seq<OrphanView>
    decreases names.len(),
{
    if names.len() == 0 {
        Seq::empty()
    } else {
        let before = leftovers(names.drop_last(), columns, known);
        let name = names.last();
        if accounted_for(name, known) {
            before
        } else {
            match classified(name, columns(name)) {
                Some(kind) => before.push(OrphanView { name, kind }),
                None => before,
            }
        }
    }
}

/// Whether a database whose tables have those columns answers a walk over the tables
/// from the `i`-th on.
pub open spec fn answers_columns(
    s: SessionView,
    names: Seq<Seq<char>>,
    known: Seq<Seq<char>>,
    columns: spec_fn(Seq<char>) -> Seq<Seq<char>>,
    i: int,
) -> bool
    decreases names.len() - i,
{
    if i < 0 || i >= names.len() {
        true
    } else if accounted_for(names[i], known) {
        answers_columns(s, names, known, columns, i + 1)
    } else {
        let (s1, told) = table_columns_step(s, names[i]);
        told == Ok::<Seq<Seq<char>>, ErrorView>(columns(names[i])) && answers_columns(
            s1,
            names,
            known,
            columns,
            i + 1,
        )
    }
}

/// Whether a database that holds those tables with those columns answers a search for
/// leftovers.
pub open spec fn answers_search(
    s: SessionView,
    registry: Registry,
    names: Seq<Seq<char>>,
    columns: spec_fn(Seq<char>) -> Seq<Seq<char>>,
) -> bool {
    let (s1, told) = user_tables_step(s);
    told == Ok::<Seq<Seq<char>>, ErrorView>(names) && answers_columns(
        s1,
        sorted(names),
        known(registry),
        columns,
        0,
    )
}

proof fn the_walk_finds(
    s: SessionView,
    names: Seq<Seq<char>>,
    known: Seq<Seq<char>>,
    columns: spec_fn(Seq<char>) -> Seq<Seq<char>>,
    i: int,
    done: Seq<OrphanView>,
)
    requires
        0 <= i <= names.len(),
        done == leftovers(names.take(i), columns, known),
        answers_columns(s, names, known, columns, i),
    ensures
        orphans_from(s, names, known, i, done).1 == Ok::<Seq<OrphanView>, ErrorView>(
            leftovers(names, columns, known),
        ),
    decreases names.len() - i,
{
    if i < names.len() {
        assert(names.take(i + 1).drop_last() =~= names.take(i));
        assert(names.take(i + 1).last() == names[i]);
        let more = leftovers(names.take(i + 1), columns, known);
        if accounted_for(names[i], known) {
            the_walk_finds(s, names, known, columns, i + 1, more);
        } else {
            the_walk_finds(table_columns_step(s, names[i]).0, names, known, columns, i + 1, more);
        }
    } else {
        assert(names.take(i) =~= names);
    }
}

proof fn leftovers_hold(
    names: Seq<Seq<char>>,
    columns: spec_fn(Seq<char>) -> Seq<Seq<char>>,
    known: Seq<Seq<char>>,
    orphan: OrphanView,
)
    ensures
        leftovers(names, columns, known).contains(orphan) <==> names.contains(orphan.name)
            && !accounted_for(orphan.name, known) && classified(orphan.name, columns(orphan.name))
            == Some(orphan.kind),
    decreases names.len(),
{
    if names.len() > 0 {
        let front = names.drop_last();
        let name = names.last();
        leftovers_hold(front, columns, known, orphan);
        assert(names =~= front.push(name));
        contains_pushed(front, name, orphan.name);
        if let Some(kind) = classified(name, columns(name)) {
            contains_pushed(
                leftovers(front, columns, known),
                OrphanView { name, kind },
                orphan,
            );
        }
    }
}

proof fn leftovers_ascend(
    names: Seq<Seq<char>>,
    columns: spec_fn(Seq<char>) -> Seq<Seq<char>>,
    known: Seq<Seq<char>>,
)
    requires
        is_sorted(names),
    ensures
        forall|j: int, k: int|
            0 <= j <= k < leftovers(names, columns, known).len() ==> text_le(
                (#[trigger] leftovers(names, columns, known)[j]).name,
                (#[trigger] leftovers(names, columns, known)[k]).name,
            ),
        forall|j: int|
            0 <= j < leftovers(names, columns, known).len() ==> names.contains(
                (#[trigger] leftovers(names, columns, known)[j]).name,
            ),
    decreases names.len(),
{
    if names.len() > 0 {
        let front = names.drop_last();
        let name = names.last();
        assert forall|i: int, j: int| 0 <= i <= j < front.len() implies text_le(
            #[trigger] front[i],
            #[trigger] front[j],
        ) by {
            assert(front[i] == names[i] && front[j] == names[j]);
        }
        leftovers_ascend(front, columns, known);
        let before = leftovers(front, columns, known);
        let all = leftovers(names, columns, known);
        let n = names.len() - 1;
        assert(names[n] == name);
        assert forall|j: int| 0 <= j < all.len() implies names.contains(
            (#[trigger] all[j]).name,
        ) && text_le(all[j].name, name) by {
            if j < before.len() {
                assert(all[j] == before[j]);
                let i = choose|i: int| 0 <= i < front.len() && front[i] == before[j].name;
                assert(names[i] == before[j].name);
                assert(text_le(names[i], names[n]));
            } else {
                assert(text_le(names[n], names[n]));
            }
        }
        assert forall|j: int, k: int| 0 <= j <= k < all.len() implies text_le(
            (#[trigger] all[j]).name,
            (#[trigger] all[k]).name,
        ) by {
            if k < before.len() {
                assert(all[j] == before[j] && all[k] == before[k]);
            } else {
                assert(all[k].name == name);
            }
        }
    }
}

/// What is reported, over a database that holds some tables: exactly those that no
/// definition accounts for and that are recognised, each as what it is recognised as,
/// by name. So a collection's table and a table of rows are reported where their
/// columns tell them, and nothing else is.
pub proof fn leftovers_are_what_is_recognised(
    s: SessionView,
    registry: Registry,
    names: Seq<Seq<char>>,
    columns: spec_fn(Seq<char>) -> Seq<Seq<char>>,
)
    requires
        answers_search(s, registry, names, columns),
    ensures
        find_orphans_step(s, registry).1 matches Ok(found) && {
            &&& forall|orphan: OrphanView| #[trigger]
                found.contains(orphan) <==> {
                    &&& names.contains(orphan.name)
                    &&& !accounted_for(orphan.name, known(registry))
                    &&& classified(orphan.name, columns(orphan.name)) == Some(orphan.kind)
                }
            &&& forall|j: int, k: int|
                0 <= j <= k < found.len() ==> text_le(
                    (#[trigger] found[j]).name,
                    (#[trigger] found[k]).name,
                )
        },
{
    let list = sorted(names);
    let s1 = user_tables_step(s).0;
    assert(list.take(0) =~= Seq::<Seq<char>>::empty());
    the_walk_finds(s1, list, known(registry), columns, 0, Seq::empty());
    let found = leftovers(list, columns, known(registry));
    assert forall|orphan: OrphanView| #[trigger]
        found.contains(orphan) <==> {
            &&& names.contains(orphan.name)
            &&& !accounted_for(orphan.name, known(registry))
            &&& classified(orphan.name, columns(orphan.name)) == Some(orphan.kind)
        } by {
        leftovers_hold(list, columns, known(registry), orphan);
        sorted_holds_the_same(names, orphan.name);
    }
    sorted_is_sorted(names);
    leftovers_ascend(list, columns, known(registry));
}

/// Whether a list is another with some of its elements left out.
pub open spec fn within_in_order<A>(part: Seq<A>, whole: Seq<A>) -> bool
    decreases whole.len(),
{
    if part.len() == 0 {
        true
    } else if whole.len() == 0 {
        false
    } else {
        within_in_order(part, whole.drop_last()) || (part.last() == whole.last()
            && within_in_order(part.drop_last(), whole.drop_last()))
    }
}

/// Whether every table of one definition is one of another's.
pub open spec fn tables_among(part: Seq<Seq<char>>, whole: Seq<Seq<char>>) -> bool {
    forall|name: Seq<char>| #[trigger] part.contains(name) ==> whole.contains(name)
}

/// Whether `more` defines every collection and global that `less` does, with the same
/// tables of rows at least.
pub open spec fn defines_all_of(more: Registry, less: Registry) -> bool {
    &&& forall|i: int|
        0 <= i < less.collections@.len() ==> exists|j: int|
            0 <= j < more.collections@.len() && tables_among(
                tables_of(
                    (#[trigger] less.collections@[i]).slug@,
                    less.collections@[i].fields@,
                ),
                tables_of(
                    (#[trigger] more.collections@[j]).slug@,
                    more.collections@[j].fields@,
                ),
            )
    &&& forall|i: int|
        0 <= i < less.globals@.len() ==> exists|j: int|
            0 <= j < more.globals@.len() && tables_among(
                tables_of(
                    global_table_name((#[trigger] less.globals@[i]).slug@),
                    less.globals@[i].fields@,
                ),
                tables_of(
                    global_table_name((#[trigger] more.globals@[j]).slug@),
                    more.globals@[j].fields@,
                ),
            )
}

proof fn collection_tables_hold(collections: Seq<CollectionDefinition>, name: Seq<char>)
    ensures
        collection_tables(collections).contains(name) <==> exists|i: int|
            0 <= i < collections.len() && tables_of(
                (#[trigger] collections[i]).slug@,
                collections[i].fields@,
            ).contains(name),
    decreases collections.len(),
{
    if collections.len() > 0 {
        let front = collections.drop_last();
        let last = collections.last();
        collection_tables_hold(front, name);
        contains_joined(collection_tables(front), tables_of(last.slug@, last.fields@), name);
        if collection_tables(front).contains(name) {
            let i = choose|i: int|
                0 <= i < front.len() && tables_of(
                    (#[trigger] front[i]).slug@,
                    front[i].fields@,
                ).contains(name);
            assert(collections[i] == front[i]);
        }
        if tables_of(last.slug@, last.fields@).contains(name) {
            assert(collections[collections.len() - 1] == last);
        }
        if exists|i: int|
            0 <= i < collections.len() && tables_of(
                (#[trigger] collections[i]).slug@,
                collections[i].fields@,
            ).contains(name) {
            let i = choose|i: int|
                0 <= i < collections.len() && tables_of(
                    (#[trigger] collections[i]).slug@,
                    collections[i].fields@,
                ).contains(name);
            if i < front.len() {
                assert(front[i] == collections[i]);
            }
        }
    }
}

proof fn global_tables_hold(globals: Seq<GlobalDefinition>, name: Seq<char>)
    ensures
        global_tables(globals).contains(name) <==> exists|i: int|
            0 <= i < globals.len() && tables_of(
                global_table_name((#[trigger] globals[i]).slug@),
                globals[i].fields@,
            ).contains(name),
    decreases globals.len(),
{
    if globals.len() > 0 {
        let front = globals.drop_last();
        let last = globals.last();
        let own = tables_of(global_table_name(last.slug@), last.fields@);
        global_tables_hold(front, name);
        contains_joined(global_tables(front), own, name);
        if global_tables(front).contains(name) {
            let i = choose|i: int|
                0 <= i < front.len() && tables_of(
                    global_table_name((#[trigger] front[i]).slug@),
                    front[i].fields@,
                ).contains(name);
            assert(globals[i] == front[i]);
        }
        if own.contains(name) {
            assert(globals[globals.len() - 1] == last);
        }
        if exists|i: int|
            0 <= i < globals.len() && tables_of(
                global_table_name((#[trigger] globals[i]).slug@),
                globals[i].fields@,
            ).contains(name) {
            let i = choose|i: int|
                0 <= i < globals.len() && tables_of(
                    global_table_name((#[trigger] globals[i]).slug@),
                    globals[i].fields@,
                ).contains(name);
            if i < front.len() {
                assert(front[i] == globals[i]);
            }
        }
    }
}

proof fn more_definitions_know_more(more: Registry, less: Registry)
    requires
        defines_all_of(more, less),
    ensures
        tables_among(known(less), known(more)),
{
    assert forall|name: Seq<char>| #[trigger] known(less).contains(name) implies known(
        more,
    ).contains(name) by {
        contains_joined(
            collection_tables(less.collections@),
            global_tables(less.globals@),
            name,
        );
        contains_joined(
            collection_tables(more.collections@),
            global_tables(more.globals@),
            name,
        );
        collection_tables_hold(less.collections@, name);
        collection_tables_hold(more.collections@, name);
        global_tables_hold(less.globals@, name);
        global_tables_hold(more.globals@, name);
        if collection_tables(less.collections@).contains(name) {
            let i = choose|i: int|
                0 <= i < less.collections@.len() && tables_of(
                    (#[trigger] less.collections@[i]).slug@,
                    less.collections@[i].fields@,
                ).contains(name);
            let a = tables_of(less.collections@[i].slug@, less.collections@[i].fields@);
            let j = choose|j: int|
                0 <= j < more.collections@.len() && tables_among(
                    a,
                    tables_of(
                        (#[trigger] more.collections@[j]).slug@,
                        more.collections@[j].fields@,
                    ),
                );
            assert(a.contains(name));
            assert(tables_of(
                more.collections@[j].slug@,
                more.collections@[j].fields@,
            ).contains(name));
        } else {
            let i = choose|i: int|
                0 <= i < less.globals@.len() && tables_of(
                    global_table_name((#[trigger] less.globals@[i]).slug@),
                    less.globals@[i].fields@,
                ).contains(name);
            let a = tables_of(
                global_table_name(less.globals@[i].slug@),
                less.globals@[i].fields@,
            );
            let j = choose|j: int|
                0 <= j < more.globals@.len() && tables_among(
                    a,
                    tables_of(
                        global_table_name((#[trigger] more.globals@[j]).slug@),
                        more.globals@[j].fields@,
                    ),
                );
            assert(a.contains(name));
            assert(tables_of(
                global_table_name(more.globals@[j].slug@),
                more.globals@[j].fields@,
            ).contains(name));
        }
    }
}

proof fn knowing_more_leaves_less(
    names: Seq<Seq<char>>,
    columns: spec_fn(Seq<char>) -> Seq<Seq<char>>,
    more: Seq<Seq<char>>,
    less: Seq<Seq<char>>,
)
    requires
        tables_among(less, more),
    ensures
        within_in_order(leftovers(names, columns, more), leftovers(names, columns, less)),
    decreases names.len(),
{
    if names.len() > 0 {
        let front = names.drop_last();
        let name = names.last();
        knowing_more_leaves_less(front, columns, more, less);
        let part = leftovers(front, columns, more);
        let whole = leftovers(front, columns, less);
        if let Some(kind) = classified(name, columns(name)) {
            let orphan = OrphanView { name, kind };
            assert(whole.push(orphan).drop_last() =~= whole);
            assert(part.push(orphan).drop_last() =~= part);
        }
    }
}

/// Defining more never makes a table a leftover: over one database, what is reported
/// under the wider definitions is what is reported under the narrower ones, with some
/// tables left out.
pub proof fn defining_more_leaves_less(
    s: SessionView,
    t: SessionView,
    more: Registry,
    less: Registry,
    names: Seq<Seq<char>>,
    columns: spec_fn(Seq<char>) -> Seq<Seq<char>>,
)
    requires
        defines_all_of(more, less),
        answers_search(s, more, names, columns),
        answers_search(t, less, names, columns),
    ensures
        find_orphans_step(s, more).1 is Ok,
        find_orphans_step(t, less).1 is Ok,
        within_in_order(find_orphans_step(s, more).1->Ok_0, find_orphans_step(t, less).1->Ok_0),
{
    let list = sorted(names);
    assert(list.take(0) =~= Seq::<Seq<char>>::empty());
    the_walk_finds(user_tables_step(s).0, list, known(more), columns, 0, Seq::empty());
    the_walk_finds(user_tables_step(t).0, list, known(less), columns, 0, Seq::empty());
    more_definitions_know_more(more, less);
    knowing_more_leaves_less(list, columns, known(more), known(less));
}

} // verus!
