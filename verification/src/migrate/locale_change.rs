//! What a change of locales does to stored content.
//!
//! A field that becomes localized, or stops being so, is read from another column
//! from then on; its values have to move there. And when the default locale
//! changes, every default read takes other columns, while the content stays where
//! it was written: the operator is told once.
use crate::definition::{LocaleConfig, Registry, fingerprints_tell_the_default};
use crate::migrate::helpers::column_specs::{ColumnSpec, ColumnSpecView};
use crate::migrate::helpers::introspection::{table_exists, table_exists_step};
use crate::migrate::legacy_timestamps::{target_table_list, target_tables};
use crate::migrate::meta;
use crate::names::{locale_column, locale_column_name, quote_ident, quoted};
use crate::order::{
    dedup_texts, deduped, deduped_holds_the_same, sort_texts, sorted, sorted_holds_the_same,
};
use crate::session::{Session, SessionView, Step, execute_step, query_one_step, within};
use crate::text::{
    cat2, cat3, cat4, cat8, cat9, contains, find_from, join, join_with, pieces, push_item,
    rest_after, same, split, split_undoes_join, strip_prefix,
};
use crate::value::{DbError, ErrorView, add_context, no_params, out};
use vstd::prelude::*;

verus! {

/// The key under which it is recorded which of a table's columns were localized.
pub open spec fn shape_key(table: Seq<char>) -> Seq<char> {
    "locale_shape:"@ + table
}

/// A column a field is stored in, and the one its values come from when the
/// field becomes localized or stops being so.
#[derive(Debug)]
pub struct ColumnPlan {
    pub name: String,
    pub carry_from: Option<String>,
}

/// The mathematical value of a [`ColumnPlan`].
#[verifier::ext_equal]
pub ghost struct ColumnPlanView {
    pub name: Seq<char>,
    pub carry_from: Option<Seq<char>>,
}

impl DeepView for ColumnPlan {
    type V = ColumnPlanView;

    open spec fn deep_view(&self) -> ColumnPlanView {
        ColumnPlanView { name: self.name@, carry_from: self.carry_from.deep_view() }
    }
}

/// The statement moving a column's values into another: every row that has one,
/// whatever the other holds, which may be no more than its default.
pub open spec fn carry_sql(table: Seq<char>, from: Seq<char>, to: Seq<char>) -> Seq<char> {
    "UPDATE "@ + quoted(table) + " SET "@ + quoted(to) + " = "@ + quoted(from) + " WHERE "@
        + quoted(from) + " IS NOT NULL"@
}

/// Moves the values a column takes over into it, where the table has the column
/// they are in.
pub open spec fn carry_values_step(
    s: SessionView,
    plan: ColumnPlanView,
    table: Seq<char>,
    existing: Seq<Seq<char>>,
) -> Step<()> {
    match plan.carry_from {
        None => (s, Ok(())),
        Some(from) => if !existing.contains(from) {
            (s, Ok(()))
        } else {
            let (s1, r) = within(
                execute_step(s, carry_sql(table, from, plan.name), Seq::empty()),
                "Failed to carry '"@ + from + "' into '"@ + plan.name + "' on '"@ + table + "'"@,
            );
            (
                s1,
                match r {
                    Ok(_) => Ok(()),
                    Err(e) => Err(e),
                },
            )
        },
    }
}

impl ColumnPlan {
    pub fn new(name: String, carry_from: Option<String>) -> (r: ColumnPlan)
        ensures
            r.deep_view() == (ColumnPlanView {
                name: name@,
                carry_from: carry_from.deep_view(),
            }),
    {
        ColumnPlan { name, carry_from }
    }

    /// Moves the values this column takes over into it, where the table has the
    /// column they are in. May be run again: it moves the same values.
    pub fn carry_values(&self, conn: &mut Session, table: &str, existing: &Vec<String>) -> (r: Result<
        (),
        DbError,
    >)
        ensures
            (final(conn)@, out(r)) == carry_values_step(
                old(conn)@,
                self.deep_view(),
                table@,
                existing.deep_view(),
            ),
    {
        let from = match &self.carry_from {
            None => {
                return Ok(());
            },
            Some(from) => from.as_str(),
        };
        if !contains(existing, from) {
            return Ok(());
        }
        let quoted_from = quote_ident(from);
        let to = quote_ident(self.name.as_str());
        let quoted_table = quote_ident(table);
        let carried = conn.execute(
            cat9(
                "UPDATE ",
                quoted_table.as_str(),
                " SET ",
                to.as_str(),
                " = ",
                quoted_from.as_str(),
                " WHERE ",
                quoted_from.as_str(),
                " IS NOT NULL",
            ),
            no_params(),
        );
        let head = cat4("Failed to carry '", from, "' into '", self.name.as_str());
        add_context(carried, cat4(head.as_str(), "' on '", table, "'").as_str())?;
        Ok(())
    }
}

/// Which of a table's columns hold localized values, and which did at the last
/// sync.
///
/// That a column is new is not enough to go by: the column values move into is
/// made once. Changing a field back finds it there, and would leave every edit
/// made since in a column that is read no more.
#[derive(Debug)]
pub struct LocaleShape {
    pub previous: Option<Vec<String>>,
    pub current: Vec<String>,
}

/// The mathematical value of a [`LocaleShape`].
#[verifier::ext_equal]
pub ghost struct LocaleShapeView {
    pub previous: Option<Seq<Seq<char>>>,
    pub current: Seq<Seq<char>>,
}

impl DeepView for LocaleShape {
    type V = LocaleShapeView;

    open spec fn deep_view(&self) -> LocaleShapeView {
        LocaleShapeView {
            previous: self.previous.deep_view(),
            current: self.current.deep_view(),
        }
    }
}

/// The localized columns among some.
pub open spec fn localized_columns(specs: Seq<ColumnSpecView>) -> Seq<Seq<char>>
    decreases specs.len(),
{
    if specs.len() == 0 {
        Seq::empty()
    } else if specs.last().is_localized {
        localized_columns(specs.drop_last()).push(specs.last().col_name)
    } else {
        localized_columns(specs.drop_last())
    }
}

/// The texts that are not empty.
pub open spec fn non_empty(parts: Seq<Seq<char>>) -> Seq<Seq<char>>
    decreases parts.len(),
{
    if parts.len() == 0 {
        Seq::empty()
    } else if parts.last().len() == 0 {
        non_empty(parts.drop_last())
    } else {
        non_empty(parts.drop_last()).push(parts.last())
    }
}

/// The columns a recorded shape names; nothing, when it is of another version.
pub open spec fn parsed_shape(value: Seq<char>) -> Option<Seq<Seq<char>>> {
    match rest_after(value, "1:"@) {
        Some(columns) => Some(non_empty(pieces(columns, ','))),
        None => None,
    }
}

/// The recorded form of a shape: each column once, by name.
pub open spec fn shape_text(columns: Seq<Seq<char>>) -> Seq<char> {
    "1:"@ + join(deduped(sorted(columns)), ","@)
}

/// Whether two lists hold the same texts.
pub open spec fn same_texts(a: Seq<Seq<char>>, b: Seq<Seq<char>>) -> bool {
    &&& forall|i: int| 0 <= i < a.len() ==> b.contains(#[trigger] a[i])
    &&& forall|i: int| 0 <= i < b.len() ==> a.contains(#[trigger] b[i])
}

fn all_in(a: &Vec<String>, b: &Vec<String>) -> (r: bool)
    ensures
        r == (forall|i: int|
            0 <= i < a.deep_view().len() ==> b.deep_view().contains(#[trigger] a.deep_view()[i])),
{
    let mut i: usize = 0;
    while i < a.len()
        invariant
            i <= a.len(),
            forall|j: int| 0 <= j < i ==> b.deep_view().contains(#[trigger] a.deep_view()[j]),
        decreases a.len() - i,
    {
        assert(a.deep_view()[i as int] == a@[i as int]@);
        if !contains(b, a[i].as_str()) {
            return false;
        }
        i += 1;
    }
    true
}

fn find_localized<'a>(specs: &Vec<ColumnSpec<'a>>) -> (r: Vec<String>)
    ensures
        r.deep_view() == localized_columns(specs.deep_view()),
{
    let ghost all = specs.deep_view();
    let mut found: Vec<String> = Vec::new();
    let mut i: usize = 0;
    assert(all.take(0) =~= Seq::<ColumnSpecView>::empty());
    assert(found.deep_view() =~= Seq::<Seq<char>>::empty());
    while i < specs.len()
        invariant
            i <= specs.len(),
            all == specs.deep_view(),
            found.deep_view() == localized_columns(all.take(i as int)),
        decreases specs.len() - i,
    {
        assert(all.take(i + 1).drop_last() =~= all.take(i as int));
        assert(all.take(i + 1).last() == specs@[i as int].deep_view());
        if specs[i].is_localized {
            push_item(&mut found, specs[i].col_name.clone());
        }
        i += 1;
    }
    assert(all.take(i as int) =~= all);
    found
}

/// The texts that are not empty.
pub fn drop_empty(parts: &Vec<String>) -> (r: Vec<String>)
    ensures
        r.deep_view() == non_empty(parts.deep_view()),
{
    let ghost all = parts.deep_view();
    let mut kept: Vec<String> = Vec::new();
    let mut i: usize = 0;
    assert(all.take(0) =~= Seq::<Seq<char>>::empty());
    assert(kept.deep_view() =~= Seq::<Seq<char>>::empty());
    while i < parts.len()
        invariant
            i <= parts.len(),
            all == parts.deep_view(),
            kept.deep_view() == non_empty(all.take(i as int)),
        decreases parts.len() - i,
    {
        assert(all.take(i + 1).drop_last() =~= all.take(i as int));
        assert(all.take(i + 1).last() == parts@[i as int]@);
        if !parts[i].as_str().is_empty() {
            push_item(&mut kept, parts[i].clone());
        }
        i += 1;
    }
    assert(all.take(i as int) =~= all);
    kept
}

fn parse_shape(value: &str) -> (r: Option<Vec<String>>)
    ensures
        r.deep_view() == parsed_shape(value@),
{
    match strip_prefix(value, "1:") {
        Some(columns) => {
            let parts = split(columns.as_str(), ',');
            Some(drop_empty(&parts))
        },
        None => None,
    }
}

/// Reads a table's recorded shape, beside the one its columns have now.
pub open spec fn load_shape_step(
    s: SessionView,
    table: Seq<char>,
    specs: Seq<ColumnSpecView>,
) -> Step<LocaleShapeView> {
    let (s1, stored) = meta::get_step(s, shape_key(table));
    (
        s1,
        match stored {
            Err(e) => Err(e),
            Ok(stored) => Ok(
                LocaleShapeView {
                    previous: match stored {
                        Some(value) => parsed_shape(value),
                        None => None,
                    },
                    current: localized_columns(specs),
                },
            ),
        },
    )
}

/// Whether the values of a column have to move.
pub open spec fn carries(shape: LocaleShapeView, column: Seq<char>, created: bool) -> bool {
    created || match shape.previous {
        Some(previous) => previous.contains(column) != shape.current.contains(column),
        None => false,
    }
}

/// Records a shape, unless it is the one on record.
pub open spec fn record_shape_step(s: SessionView, shape: LocaleShapeView, table: Seq<char>) -> Step<
    (),
> {
    if shape.previous is Some && same_texts(shape.previous->0, shape.current) {
        (s, Ok(()))
    } else {
        meta::upsert_step(s, shape_key(table), shape_text(shape.current))
    }
}

impl LocaleShape {
    /// The shape recorded for a table, beside the one its columns have now.
    pub fn load<'a>(conn: &mut Session, table: &str, specs: &Vec<ColumnSpec<'a>>) -> (r: Result<
        LocaleShape,
        DbError,
    >)
        ensures
            (final(conn)@, out(r)) == load_shape_step(old(conn)@, table@, specs.deep_view()),
    {
        let current = find_localized(specs);
        let key = cat2("locale_shape:", table);
        let previous = match meta::get(conn, key.as_str())? {
            Some(value) => parse_shape(value.as_str()),
            None => None,
        };
        Ok(LocaleShape { previous, current })
    }

    /// Whether the values of a column have to move into the one they are read
    /// from: this sync made it, or the field became localized or stopped being
    /// so since the shape was recorded.
    pub fn must_carry(&self, column: &str, created: bool) -> (r: bool)
        ensures
            r == carries(self.deep_view(), column@, created),
    {
        if created {
            return true;
        }
        match &self.previous {
            Some(previous) => contains(previous, column) != contains(&self.current, column),
            None => false,
        }
    }

    /// Records the shape this sync leaves behind.
    pub fn record(&self, conn: &mut Session, table: &str) -> (r: Result<(), DbError>)
        ensures
            (final(conn)@, out(r)) == record_shape_step(old(conn)@, self.deep_view(), table@),
    {
        if let Some(previous) = &self.previous {
            if all_in(previous, &self.current) && all_in(&self.current, previous) {
                return Ok(());
            }
        }
        let columns = dedup_texts(&sort_texts(&self.current));
        let names = join_with(&columns, ",");
        let value = cat2("1:", names.as_str());
        let key = cat2("locale_shape:", table);
        meta::upsert(conn, key.as_str(), value.as_str())
    }
}

/// The columns of a localized field from the `i`-th locale on. The default
/// locale's alone takes the bare column's values: that is where they were read
/// from.
pub open spec fn locale_plans_from(
    base: Seq<char>,
    locales: Seq<Seq<char>>,
    default_locale: Seq<char>,
    i: int,
    done: Seq<ColumnPlanView>,
) -> Result<Seq<ColumnPlanView>, ErrorView>
    decreases locales.len() - i,
{
    if i < 0 || i >= locales.len() {
        Ok(done)
    } else {
        match locale_column_name(base, locales[i]) {
            Err(e) => Err(e),
            Ok(name) => locale_plans_from(
                base,
                locales,
                default_locale,
                i + 1,
                done.push(
                    ColumnPlanView {
                        name,
                        carry_from: if locales[i] == default_locale {
                            Some(base)
                        } else {
                            None
                        },
                    },
                ),
            ),
        }
    }
}

/// The columns a field stored as `base` has, each with the one its values come
/// from.
pub open spec fn plans_for(base: Seq<char>, is_localized: bool, config: LocaleConfig) -> Result<
    Seq<ColumnPlanView>,
    ErrorView,
> {
    if is_localized {
        locale_plans_from(
            base,
            config.locales.deep_view(),
            config.default_locale@,
            0,
            Seq::empty(),
        )
    } else {
        match locale_column_name(base, config.default_locale@) {
            Err(e) => Err(e),
            Ok(default) => Ok(seq![ColumnPlanView { name: base, carry_from: Some(default) }]),
        }
    }
}

/// The columns a field stored as `base` has, each with the one its values come
/// from: one per locale where it is localized, the bare one otherwise.
pub fn column_plans(base: &str, is_localized: bool, locale_config: &LocaleConfig) -> (r: Result<
    Vec<ColumnPlan>,
    DbError,
>)
    ensures
        out(r) == plans_for(base@, is_localized, *locale_config),
{
    let default_locale = locale_config.default_locale.as_str();
    let mut plans: Vec<ColumnPlan> = Vec::new();
    assert(plans.deep_view() =~= Seq::<ColumnPlanView>::empty());
    if !is_localized {
        let default = locale_column(base, default_locale)?;
        let ghost from = default@;
        push_item(&mut plans, ColumnPlan::new(base.to_owned(), Some(default)));
        assert(plans.deep_view() =~= seq![
            ColumnPlanView { name: base@, carry_from: Some(from) },
        ]);
        return Ok(plans);
    }
    let locales = &locale_config.locales;
    let ghost all = locales.deep_view();
    let mut i: usize = 0;
    while i < locales.len()
        invariant
            i <= locales.len(),
            all == locales.deep_view(),
            default_locale@ == locale_config.default_locale@,
            locale_plans_from(base@, all, default_locale@, 0, Seq::empty()) == plans_for(
                base@,
                true,
                *locale_config,
            ),
            locale_plans_from(base@, all, default_locale@, 0, Seq::empty()) == locale_plans_from(
                base@,
                all,
                default_locale@,
                i as int,
                plans.deep_view(),
            ),
            is_localized,
        decreases locales.len() - i,
    {
        assert(all[i as int] == locales@[i as int]@);
        let locale = locales[i].as_str();
        let name = locale_column(base, locale)?;
        let carry_from = if same(locale, default_locale) {
            Some(base.to_owned())
        } else {
            None
        };
        push_item(&mut plans, ColumnPlan::new(name, carry_from));
        i += 1;
    }
    Ok(plans)
}

/// Looks for a row in the tables from the `i`-th on.
pub open spec fn content_from(s: SessionView, tables: Seq<Seq<char>>, i: int) -> Step<bool>
    decreases tables.len() - i,
{
    if i < 0 || i >= tables.len() {
        (s, Ok(false))
    } else {
        let (s1, exists) = table_exists_step(s, tables[i]);
        match exists {
            Err(e) => (s1, Err(e)),
            Ok(false) => content_from(s1, tables, i + 1),
            Ok(true) => {
                let (s2, row) = query_one_step(
                    s1,
                    "SELECT 1 FROM "@ + quoted(tables[i]) + " LIMIT 1"@,
                    Seq::empty(),
                );
                match row {
                    Err(e) => (s2, Err(e)),
                    Ok(Some(_)) => (s2, Ok(true)),
                    Ok(None) => content_from(s2, tables, i + 1),
                }
            },
        }
    }
}

fn has_stored_content(conn: &mut Session, registry: &Registry) -> (r: Result<bool, DbError>)
    ensures
        (final(conn)@, out(r)) == content_from(old(conn)@, target_tables(*registry), 0),
{
    let tables = target_table_list(registry);
    let ghost all = tables.deep_view();
    let mut i: usize = 0;
    while i < tables.len()
        invariant
            i <= tables.len(),
            all == tables.deep_view(),
            all == target_tables(*registry),
            content_from(old(conn)@, all, 0) == content_from(conn@, all, i as int),
        decreases tables.len() - i,
    {
        assert(all[i as int] == tables@[i as int]@);
        if table_exists(conn, tables[i].as_str())? {
            let table = quote_ident(tables[i].as_str());
            let row = conn.query_one(
                cat3("SELECT 1 FROM ", table.as_str(), " LIMIT 1"),
                no_params(),
            )?;
            if row.is_some() {
                return Ok(true);
            }
        }
        i += 1;
    }
    Ok(false)
}

/// What the operator is told of a default locale that changed under content.
pub open spec fn default_changed_warning(previous: Seq<char>, now: Seq<char>) -> Seq<char> {
    "default_locale changed from '"@ + previous + "' to '"@ + now
        + "' with content already stored: existing values stay in the '"@ + previous
        + "' columns, default reads now take '"@ + now + "', fallback now resolves toward '"@ + now
        + "', and completeness is judged against '"@ + now
        + "'. Translate or re-save the affected documents."@
}

/// Warns where the default locale changed under stored content.
pub open spec fn warn_default_step(
    s: SessionView,
    registry: Registry,
    previous: Option<Seq<char>>,
    now: Seq<char>,
) -> Step<()> {
    match previous {
        None => (s, Ok(())),
        Some(previous) => if previous == now {
            (s, Ok(()))
        } else {
            let (s1, content) = content_from(s, target_tables(registry), 0);
            match content {
                Err(e) => (s1, Err(e)),
                Ok(true) => (s1.warned(default_changed_warning(previous, now)), Ok(())),
                Ok(false) => (s1, Ok(())),
            }
        },
    }
}

/// Records the locales the content is stored under, with a warning where the
/// default one changed under it.
pub open spec fn default_locale_step(
    s: SessionView,
    registry: Registry,
    config: LocaleConfig,
) -> Step<()> {
    let (s1, stored) = meta::get_step(s, "locale_config"@);
    match stored {
        Err(e) => (s1, Err(e)),
        Ok(stored) => if stored == Some(config.fingerprint_text()) {
            (s1, Ok(()))
        } else {
            let previous = match stored {
                Some(fingerprint) => LocaleConfig::default_of(fingerprint),
                None => None,
            };
            let (s2, warned) = warn_default_step(s1, registry, previous, config.default_locale@);
            match warned {
                Err(e) => (s2, Err(e)),
                Ok(_) => meta::upsert_step(s2, "locale_config"@, config.fingerprint_text()),
            }
        },
    }
}

fn warn_default_changed(
    conn: &mut Session,
    registry: &Registry,
    previous: Option<String>,
    now: &str,
) -> (r: Result<(), DbError>)
    ensures
        (final(conn)@, out(r)) == warn_default_step(
            old(conn)@,
            *registry,
            previous.deep_view(),
            now@,
        ),
{
    let previous = match previous {
        None => {
            return Ok(());
        },
        Some(previous) => previous,
    };
    let previous = previous.as_str();
    if same(previous, now) {
        return Ok(());
    }
    if has_stored_content(conn, registry)? {
        let mut message = cat8(
            "default_locale changed from '",
            previous,
            "' to '",
            now,
            "' with content already stored: existing values stay in the '",
            previous,
            "' columns, default reads now take '",
            now,
        );
        message.append("', fallback now resolves toward '");
        message.append(now);
        message.append("', and completeness is judged against '");
        message.append(now);
        message.append("'. Translate or re-save the affected documents.");
        conn.warn(message);
    }
    Ok(())
}

/// Records the locales the content is stored under, with a warning where the
/// default one changed under it: every default read takes another locale's
/// columns then, and finds nothing until they are filled in. Which locales there
/// are is for the operator to say, so this does not refuse to go on.
pub fn warn_on_default_locale_change(
    conn: &mut Session,
    registry: &Registry,
    locale_config: &LocaleConfig,
) -> (r: Result<(), DbError>)
    ensures
        (final(conn)@, out(r)) == default_locale_step(old(conn)@, *registry, *locale_config),
{
    let fingerprint = locale_config.fingerprint();
    let previous = match meta::get(conn, "locale_config")? {
        Some(stored) => {
            if same(stored.as_str(), fingerprint.as_str()) {
                return Ok(());
            }
            LocaleConfig::default_locale_of_fingerprint(stored.as_str())
        },
        None => None,
    };
    warn_default_changed(conn, registry, previous, locale_config.default_locale.as_str())?;
    meta::upsert(conn, "locale_config", fingerprint.as_str())
}

proof fn non_empty_keeps(parts: Seq<Seq<char>>)
    requires
        forall|i: int| 0 <= i < parts.len() ==> (#[trigger] parts[i]).len() > 0,
    ensures
        non_empty(parts) == parts,
    decreases parts.len(),
{
    if parts.len() > 0 {
        let front = parts.drop_last();
        assert forall|i: int| 0 <= i < front.len() implies (#[trigger] front[i]).len() > 0 by {
            assert(front[i] == parts[i]);
        }
        non_empty_keeps(front);
        assert(parts[parts.len() - 1].len() > 0);
        assert(front.push(parts.last()) =~= parts);
    } else {
        assert(non_empty(parts) =~= parts);
    }
}

/// Whether every name can stand in a recorded shape: none is empty or holds a
/// comma. A column's name cannot be otherwise.
pub open spec fn recordable(columns: Seq<Seq<char>>) -> bool {
    forall|i: int|
        0 <= i < columns.len() ==> (#[trigger] columns[i]).len() > 0 && !columns[i].contains(',')
}

/// A recorded shape is read back as the columns it was recorded of, each once and
/// in order.
pub proof fn a_recorded_shape_is_read_back(columns: Seq<Seq<char>>)
    requires
        recordable(columns),
    ensures
        parsed_shape(shape_text(columns)) == Some(deduped(sorted(columns))),
        same_texts(deduped(sorted(columns)), columns),
{
    let list = deduped(sorted(columns));
    assert forall|x: Seq<char>| list.contains(x) <==> columns.contains(x) by {
        deduped_holds_the_same(sorted(columns), x);
        sorted_holds_the_same(columns, x);
    }
    assert forall|i: int| 0 <= i < list.len() implies (#[trigger] list[i]).len() > 0
        && !list[i].contains(',') by {
        assert(list.contains(list[i]));
        let k = choose|k: int| 0 <= k < columns.len() && columns[k] == list[i];
        assert(columns[k].len() > 0);
    }
    assert forall|i: int| 0 <= i < list.len() implies columns.contains(#[trigger] list[i]) by {
        assert(list.contains(list[i]));
    }
    assert forall|i: int| 0 <= i < columns.len() implies list.contains(#[trigger] columns[i]) by {
        assert(columns.contains(columns[i]));
    }
    reveal_strlit(",");
    assert(","@ =~= seq![',']);
    let body = join(list, ","@);
    let value = shape_text(columns);
    assert("1:"@ =~= value.take("1:"@.len() as int));
    assert(value.skip("1:"@.len() as int) =~= body);
    assert(rest_after(value, "1:"@) == Some(body));
    if list.len() > 0 {
        split_undoes_join(list, ',');
        non_empty_keeps(list);
    } else {
        assert(body =~= Seq::<char>::empty());
        assert(body.skip(0) =~= Seq::<char>::empty());
        assert(find_from(body, ',', 0) is None);
        assert(pieces(body, ',') =~= seq![Seq::<char>::empty()]);
        let one = seq![Seq::<char>::empty()];
        assert(one.drop_last() =~= Seq::<Seq<char>>::empty());
        assert(non_empty(one.drop_last()) =~= Seq::<Seq<char>>::empty());
        assert(non_empty(one) =~= Seq::<Seq<char>>::empty());
        assert(list =~= Seq::<Seq<char>>::empty());
    }
}

/// Values move without a new column exactly if the field became localized or
/// stopped being so since the shape was recorded.
pub proof fn a_flipped_flag_carries(
    before: Seq<Seq<char>>,
    now: Seq<Seq<char>>,
    column: Seq<char>,
)
    requires
        recordable(before),
    ensures
        carries(
            LocaleShapeView { previous: parsed_shape(shape_text(before)), current: now },
            column,
            false,
        ) <==> before.contains(column) != now.contains(column),
{
    a_recorded_shape_is_read_back(before);
    deduped_holds_the_same(sorted(before), column);
    sorted_holds_the_same(before, column);
}

/// Where no shape is on record, values move into a column exactly if this sync made
/// it.
pub proof fn an_unrecorded_shape_carries_on_creation_alone(
    now: Seq<Seq<char>>,
    column: Seq<char>,
    created: bool,
)
    ensures
        carries(LocaleShapeView { previous: None, current: now }, column, created) == created,
{
}

proof fn locale_plans_shape(
    base: Seq<char>,
    locales: Seq<Seq<char>>,
    default_locale: Seq<char>,
    i: int,
    done: Seq<ColumnPlanView>,
)
    requires
        0 <= i <= locales.len(),
        done.len() == i,
    ensures
        locale_plans_from(base, locales, default_locale, i, done) matches Ok(plans) ==> {
            &&& plans.len() == locales.len()
            &&& done.is_prefix_of(plans)
            &&& forall|k: int|
                i <= k < plans.len() ==> {
                    &&& locale_column_name(base, #[trigger] locales[k]) == Ok::<
                        Seq<char>,
                        ErrorView,
                    >(plans[k].name)
                    &&& plans[k].carry_from == (if locales[k] == default_locale {
                        Some(base)
                    } else {
                        None
                    })
                }
        },
    decreases locales.len() - i,
{
    if i < locales.len() {
        if let Ok(name) = locale_column_name(base, locales[i]) {
            let plan = ColumnPlanView {
                name,
                carry_from: if locales[i] == default_locale {
                    Some(base)
                } else {
                    None
                },
            };
            let more = done.push(plan);
            locale_plans_shape(base, locales, default_locale, i + 1, more);
            if let Ok(plans) = locale_plans_from(base, locales, default_locale, i + 1, more) {
                assert(plans[i] == more[i]);
                assert(done =~= plans.take(i));
            }
        }
    } else {
        assert(done =~= done.take(done.len() as int));
    }
}

/// A localized field has one column per locale, and the default locale's alone takes
/// over the bare column's values. A shared one has the bare column, which takes over
/// the default locale's.
pub proof fn only_the_default_locale_takes_over(base: Seq<char>, config: LocaleConfig)
    ensures
        plans_for(base, true, config) matches Ok(plans) ==> {
            let locales = config.locales.deep_view();
            &&& plans.len() == locales.len()
            &&& forall|k: int|
                0 <= k < plans.len() ==> {
                    &&& locale_column_name(base, #[trigger] locales[k]) == Ok::<
                        Seq<char>,
                        ErrorView,
                    >(plans[k].name)
                    &&& plans[k].carry_from == (if locales[k] == config.default_locale@ {
                        Some(base)
                    } else {
                        None
                    })
                }
        },
        plans_for(base, false, config) matches Ok(plans) ==> {
            &&& plans.len() == 1
            &&& plans[0].name == base
            &&& locale_column_name(base, config.default_locale@) == Ok::<Seq<char>, ErrorView>(
                plans[0].carry_from->Some_0,
            )
            &&& plans[0].carry_from is Some
        },
{
    locale_plans_shape(
        base,
        config.locales.deep_view(),
        config.default_locale@,
        0,
        Seq::empty(),
    );
}

/// The locales are recorded once and compared from then on: where the record says
/// what the configuration is now, nothing is asked beyond it and nobody is warned.
pub proof fn an_unchanged_configuration_is_silent(
    s: SessionView,
    registry: Registry,
    config: LocaleConfig,
)
    requires
        meta::get_step(s, "locale_config"@).1 == Ok::<Option<Seq<char>>, ErrorView>(
            Some(config.fingerprint_text()),
        ),
    ensures
        default_locale_step(s, registry, config) == (
            meta::get_step(s, "locale_config"@).0,
            Ok::<(), ErrorView>(()),
        ),
{
}

/// Whatever changed but the default locale, nobody is warned: the record alone
/// follows.
pub proof fn other_changes_are_silent(
    s: SessionView,
    registry: Registry,
    before: LocaleConfig,
    now: LocaleConfig,
)
    requires
        meta::get_step(s, "locale_config"@).1 == Ok::<Option<Seq<char>>, ErrorView>(
            Some(before.fingerprint_text()),
        ),
        before.fingerprint_text() != now.fingerprint_text(),
        before.default_locale@ == now.default_locale@,
        !before.default_locale@.contains(';'),
    ensures
        default_locale_step(s, registry, now) == meta::upsert_step(
            meta::get_step(s, "locale_config"@).0,
            "locale_config"@,
            now.fingerprint_text(),
        ),
{
    fingerprints_tell_the_default(before);
}

} // verus!
