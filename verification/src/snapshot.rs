//! Reading a document from a stored version of it.
//!
//! A version holds the values of every locale, each under the field's name with
//! the locale's behind it, beside the value the field had when the version was
//! saved. A read resolves them for the locale it is made in and drops the rest:
//! no other read returns them, and a reader of one locale did not ask for
//! another's.
use crate::definition::{
    FieldDefinition, LeafView, LocaleConfig, leaves, row_fields, walk_leaf_fields,
};
use crate::document::{
    Document, DocumentView, flatten_group_fields, flattened, group_named, keep_empty_groups,
    nest_group_fields, nested, nesting_adds_only_groups, only_groups_are_put_back,
    with_empty_groups,
};
use crate::json::{
    Entries, Json, JsonView, any_prefixed, copy_entries, drop_prefixed, entries_view,
    entries_view_index, get_value, has_prefix, insert_entry, items_view_index, json_view,
    remove_entry, value_of, value_with, value_without, value_without_prefix, with, without,
    without_prefix,
};
use crate::names::{locale_column, locale_column_name, tz_column, tz_column_name};
use crate::text::cat2;
use crate::value::{DbError, ErrorView, out};
use vstd::prelude::*;

verus! {

/// Which locales a read asks for.
#[derive(Debug, Clone, PartialEq, Eq)]
pub enum LocaleMode {
    /// The default one.
    Default,
    Single(String),
    /// Each of them.
    All,
}

/// The locales a read is made in.
#[derive(Debug, PartialEq, Eq)]
pub struct LocaleContext {
    pub mode: LocaleMode,
    pub config: LocaleConfig,
}

impl LocaleContext {
    /// The one locale that rows are read in.
    pub open spec fn read_in(self) -> Seq<char> {
        match self.mode {
            LocaleMode::Single(locale) => locale@,
            _ => self.config.default_locale@,
        }
    }

    /// The one locale that rows are read in.
    pub fn access_locale(&self) -> (r: &str)
        ensures
            r@ == self.read_in(),
    {
        match &self.mode {
            LocaleMode::Single(locale) => locale.as_str(),
            _ => self.config.default_locale.as_str(),
        }
    }
}

/// How a snapshot's values are resolved.
pub ghost struct ReadView {
    /// The configured locales, where content is kept per locale.
    pub locales: Option<Seq<Seq<char>>>,
    /// The locale a value is taken from.
    pub reading: Option<Seq<char>>,
    /// The locale it is taken from where that one has none.
    pub fallback: Option<Seq<char>>,
    /// Whether every locale is asked for.
    pub all: bool,
}

/// How a read made in a locale context resolves a snapshot's values.
pub open spec fn read_of(ctx: Option<LocaleContext>) -> ReadView {
    match ctx {
        Some(ctx) => if ctx.config.enabled() {
            ReadView {
                locales: Some(ctx.config.locales.deep_view()),
                reading: Some(ctx.read_in()),
                fallback: if ctx.config.fallback {
                    Some(ctx.config.default_locale@)
                } else {
                    None
                },
                all: ctx.mode is All,
            }
        } else {
            ReadView { locales: None, reading: None, fallback: None, all: false }
        },
        None => ReadView { locales: None, reading: None, fallback: None, all: false },
    }
}

struct SnapshotRead<'l> {
    locales: Option<&'l Vec<String>>,
    reading: Option<&'l str>,
    fallback: Option<&'l str>,
    all: bool,
}

impl<'l> SnapshotRead<'l> {
    spec fn view(self) -> ReadView {
        ReadView {
            locales: match self.locales {
                Some(l) => Some(l.deep_view()),
                None => None,
            },
            reading: match self.reading {
                Some(l) => Some(l@),
                None => None,
            },
            fallback: match self.fallback {
                Some(l) => Some(l@),
                None => None,
            },
            all: self.all,
        }
    }

    fn new(ctx: Option<&'l LocaleContext>) -> (r: SnapshotRead<'l>)
        ensures
            r.view() == read_of(
                match ctx {
                    Some(c) => Some(*c),
                    None => None,
                },
            ),
    {
        match ctx {
            Some(ctx) => if ctx.config.is_enabled() {
                return SnapshotRead {
                    locales: Some(&ctx.config.locales),
                    reading: Some(ctx.access_locale()),
                    fallback: if ctx.config.fallback {
                        Some(ctx.config.default_locale.as_str())
                    } else {
                        None
                    },
                    all: match &ctx.mode {
                        LocaleMode::All => true,
                        _ => false,
                    },
                };
            },
            None => {},
        }
        SnapshotRead { locales: None, reading: None, fallback: None, all: false }
    }
}

/// What the names of a field's values per locale begin with.
pub open spec fn decorated(name: Seq<char>) -> Seq<char> {
    name + "__"@
}

/// Whether a value holds nothing: null, or no rows.
pub open spec fn holds_nothing(value: JsonView, rows: bool) -> bool {
    match value {
        JsonView::Null => true,
        JsonView::Array(items) => rows && items.len() == 0,
        _ => false,
    }
}

fn is_empty_value(value: &Json, rows: bool) -> (r: bool)
    ensures
        r == holds_nothing(json_view(*value), rows),
{
    match value {
        Json::Null => true,
        Json::Array(items) => {
            proof {
                items_view_index(items@);
            }
            rows && items.len() == 0
        },
        _ => false,
    }
}

/// The values with each locale's of a field, from the `i`-th locale on, moved
/// into `by`.
pub open spec fn gathered(
    data: Entries,
    by: Entries,
    name: Seq<char>,
    locales: Seq<Seq<char>>,
    i: int,
) -> Result<(Entries, Entries), ErrorView>
    decreases locales.len() - i,
{
    if i < 0 || i >= locales.len() {
        Ok((data, by))
    } else {
        match locale_column_name(name, locales[i]) {
            Err(e) => Err(e),
            Ok(column) => match value_of(data, column) {
                Some(value) => gathered(
                    without(data, column),
                    with(by, locales[i], value),
                    name,
                    locales,
                    i + 1,
                ),
                None => gathered(data, by, name, locales, i + 1),
            },
        }
    }
}

/// The values with a field's replaced by an object of every locale's. A snapshot
/// without them keeps its value.
pub open spec fn regrouped(data: Entries, name: Seq<char>, locales: Seq<Seq<char>>) -> Result<
    Entries,
    ErrorView,
> {
    match gathered(data, Seq::empty(), name, locales, 0) {
        Err(e) => Err(e),
        Ok((rest, by)) => {
            let kept = without_prefix(rest, decorated(name));
            if by.len() == 0 {
                Ok(kept)
            } else {
                Ok(with(kept, name, JsonView::Object(by)))
            }
        },
    }
}

/// The value of a result of entries.
pub open spec fn entries_out(r: Result<Vec<(String, Json)>, DbError>) -> Result<
    Entries,
    ErrorView,
> {
    match r {
        Ok(entries) => Ok(entries_view(entries@)),
        Err(e) => Err(e.deep_view()),
    }
}

fn regroup_locales(data: Vec<(String, Json)>, name: &str, locales: &Vec<String>) -> (r: Result<
    Vec<(String, Json)>,
    DbError,
>)
    ensures
        entries_out(r) == regrouped(entries_view(data@), name@, locales.deep_view()),
{
    let ghost start = entries_view(data@);
    let ghost all = locales.deep_view();
    let mut rest = data;
    let mut by: Vec<(String, Json)> = Vec::new();
    assert(entries_view(by@) =~= Seq::empty());
    let mut i: usize = 0;
    while i < locales.len()
        invariant
            i <= locales.len(),
            all == locales.deep_view(),
            gathered(start, Seq::empty(), name@, all, 0) == gathered(
                entries_view(rest@),
                entries_view(by@),
                name@,
                all,
                i as int,
            ),
            entries_view(data@) == start,
        decreases locales.len() - i,
    {
        assert(all[i as int] == locales@[i as int]@);
        let locale = locales[i].as_str();
        let column = locale_column(name, locale)?;
        match get_value(&rest, column.as_str()) {
            Some(value) => {
                rest = remove_entry(rest, column.as_str());
                by = insert_entry(by, locale, value);
            },
            None => {},
        }
        i += 1;
    }
    let lead = cat2(name, "__");
    let kept = drop_prefixed(rest, lead.as_str());
    proof {
        entries_view_index(by@);
    }
    if by.len() == 0 {
        Ok(kept)
    } else {
        Ok(insert_entry(kept, name, Json::Object(by)))
    }
}

/// The values with a field's replaced by the first locale's that holds something,
/// and which that is.
pub open spec fn first_value(
    data: Entries,
    name: Seq<char>,
    candidate: Option<Seq<char>>,
    rows: bool,
) -> Result<Option<JsonView>, ErrorView> {
    match candidate {
        None => Ok(None),
        Some(locale) => match locale_column_name(name, locale) {
            Err(e) => Err(e),
            Ok(column) => match value_of(data, column) {
                Some(value) => if holds_nothing(value, rows) {
                    Ok(None)
                } else {
                    Ok(Some(value))
                },
                None => Ok(None),
            },
        },
    }
}

fn candidate_value(
    data: &Vec<(String, Json)>,
    name: &str,
    candidate: Option<&str>,
    rows: bool,
) -> (r: Result<Option<Json>, DbError>)
    ensures
        out(r) == first_value(
            entries_view(data@),
            name@,
            match candidate {
                Some(l) => Some(l@),
                None => None,
            },
            rows,
        ),
{
    match candidate {
        None => Ok(None),
        Some(locale) => {
            let column = locale_column(name, locale)?;
            match get_value(data, column.as_str()) {
                Some(value) => if is_empty_value(&value, rows) {
                    Ok(None)
                } else {
                    Ok(Some(value))
                },
                None => Ok(None),
            }
        },
    }
}

/// The value of a field in the reading locale, else in the fallback, with the
/// locale it came from.
pub open spec fn taken(
    data: Entries,
    name: Seq<char>,
    reading: Option<Seq<char>>,
    fallback: Option<Seq<char>>,
    rows: bool,
) -> Result<Option<(Seq<char>, JsonView)>, ErrorView> {
    match first_value(data, name, reading, rows) {
        Err(e) => Err(e),
        Ok(Some(value)) => Ok(Some((reading->0, value))),
        Ok(None) => match first_value(data, name, fallback, rows) {
            Err(e) => Err(e),
            Ok(Some(value)) => Ok(Some((fallback->0, value))),
            Ok(None) => Ok(None),
        },
    }
}

/// The values with a field's set to what it is in the locales read, and every
/// value per locale of it dropped; and the locale it came from. A field that is
/// kept per locale but holds nothing in those is empty: the value under its bare
/// name is that of the locale the version was saved in.
pub open spec fn resolved_value(
    data: Entries,
    name: Seq<char>,
    reading: Option<Seq<char>>,
    fallback: Option<Seq<char>>,
    rows: bool,
) -> Result<(Entries, Option<Seq<char>>), ErrorView> {
    match taken(data, name, reading, fallback, rows) {
        Err(e) => Err(e),
        Ok(Some((source, value))) => Ok(
            (without_prefix(with(data, name, value), decorated(name)), Some(source)),
        ),
        Ok(None) => {
            let set = if reading is Some && has_prefix(data, decorated(name)) {
                with(
                    data,
                    name,
                    if rows {
                        JsonView::Array(Seq::empty())
                    } else {
                        JsonView::Null
                    },
                )
            } else {
                data
            };
            Ok((without_prefix(set, decorated(name)), None))
        },
    }
}

/// The value of a result of entries and a locale.
pub open spec fn resolved_out<'l>(
    r: Result<(Vec<(String, Json)>, Option<&'l str>), DbError>,
) -> Result<(Entries, Option<Seq<char>>), ErrorView> {
    match r {
        Ok((entries, source)) => Ok(
            (
                entries_view(entries@),
                match source {
                    Some(l) => Some(l@),
                    None => None,
                },
            ),
        ),
        Err(e) => Err(e.deep_view()),
    }
}

fn resolve_locale_value<'l>(
    data: Vec<(String, Json)>,
    name: &str,
    reading: Option<&'l str>,
    fallback: Option<&'l str>,
    rows: bool,
) -> (r: Result<(Vec<(String, Json)>, Option<&'l str>), DbError>)
    ensures
        resolved_out(r) == resolved_value(
            entries_view(data@),
            name@,
            match reading {
                Some(l) => Some(l@),
                None => None,
            },
            match fallback {
                Some(l) => Some(l@),
                None => None,
            },
            rows,
        ),
{
    let lead = cat2(name, "__");
    match candidate_value(&data, name, reading, rows)? {
        Some(value) => {
            let set = insert_entry(data, name, value);
            return Ok((drop_prefixed(set, lead.as_str()), reading));
        },
        None => {},
    }
    match candidate_value(&data, name, fallback, rows)? {
        Some(value) => {
            let set = insert_entry(data, name, value);
            return Ok((drop_prefixed(set, lead.as_str()), fallback));
        },
        None => {},
    }
    let set = if reading.is_some() && any_prefixed(&data, lead.as_str()) {
        let empty = if rows {
            let none: Vec<Json> = Vec::new();
            assert(crate::json::items_view(none@) =~= Seq::<JsonView>::empty());
            Json::Array(none)
        } else {
            Json::Null
        };
        insert_entry(data, name, empty)
    } else {
        data
    };
    Ok((drop_prefixed(set, lead.as_str()), None))
}

/// The values with one localized field resolved, and the zone of a date with it:
/// that follows the locale the date came from.
pub open spec fn resolved_field(
    data: Entries,
    read: ReadView,
    field: FieldDefinition,
    name: Seq<char>,
) -> Result<Entries, ErrorView> {
    let rows = !field.in_parent();
    if read.all && !rows && read.locales is Some {
        match regrouped(data, name, read.locales->0) {
            Err(e) => Err(e),
            Ok(data) => if field.zoned() {
                regrouped(data, tz_column_name(name), read.locales->0)
            } else {
                Ok(data)
            },
        }
    } else {
        match resolved_value(data, name, read.reading, read.fallback, rows) {
            Err(e) => Err(e),
            Ok((data, source)) => if !field.zoned() {
                Ok(data)
            } else {
                let zone = match source {
                    Some(locale) => resolved_value(
                        data,
                        tz_column_name(name),
                        Some(locale),
                        None,
                        false,
                    ),
                    None => resolved_value(
                        data,
                        tz_column_name(name),
                        read.reading,
                        read.fallback,
                        false,
                    ),
                };
                match zone {
                    Err(e) => Err(e),
                    Ok((data, _)) => Ok(data),
                }
            },
        }
    }
}

fn resolve_field<'l>(
    data: Vec<(String, Json)>,
    read: &SnapshotRead<'l>,
    field: &FieldDefinition,
    name: &str,
) -> (r: Result<Vec<(String, Json)>, DbError>)
    ensures
        entries_out(r) == resolved_field(entries_view(data@), read.view(), *field, name@),
{
    let rows = !field.has_parent_column();
    if read.all && !rows {
        if let Some(locales) = read.locales {
            let data = regroup_locales(data, name, locales)?;
            if field.has_tz_companion() {
                let zone = tz_column(name);
                return regroup_locales(data, zone.as_str(), locales);
            }
            return Ok(data);
        }
    }
    let (data, source) = resolve_locale_value(data, name, read.reading, read.fallback, rows)?;
    if !field.has_tz_companion() {
        return Ok(data);
    }
    let zone = tz_column(name);
    let (data, _) = match source {
        Some(locale) => resolve_locale_value(data, zone.as_str(), Some(locale), None, false)?,
        None => resolve_locale_value(data, zone.as_str(), read.reading, read.fallback, false)?,
    };
    Ok(data)
}

/// The values with the localized leaves from the `i`-th on resolved.
pub open spec fn resolved_from(
    data: Entries,
    read: ReadView,
    found: Seq<LeafView>,
    i: int,
) -> Result<Entries, ErrorView>
    decreases found.len() - i,
{
    if i < 0 || i >= found.len() {
        Ok(data)
    } else if !found[i].localized() {
        resolved_from(data, read, found, i + 1)
    } else {
        match resolved_field(data, read, found[i].field, found[i].path()) {
            Err(e) => Err(e),
            Ok(data) => resolved_from(data, read, found, i + 1),
        }
    }
}

/// The fields of a snapshot as a read made in a locale context returns them.
/// They are resolved with every value at the top, where the values per locale
/// are, and the groups put together again.
pub open spec fn resolved_fields(
    fields: Entries,
    defs: Seq<FieldDefinition>,
    ctx: Option<LocaleContext>,
) -> Result<Entries, ErrorView> {
    match resolved_from(
        flattened(fields, defs, Seq::empty()),
        read_of(ctx),
        leaves(defs, Seq::empty(), false),
        0,
    ) {
        Err(e) => Err(e),
        Ok(flat) => Ok(with_empty_groups(fields, defs, nested(flat, defs))),
    }
}

/// Resolves a snapshot's values for the locale it is read in, and drops those of
/// every locale. That is done without a locale too: a snapshot taken while
/// content was kept per locale still holds them.
pub fn resolve_snapshot_locale(
    doc: &mut Document,
    fields: &Vec<FieldDefinition>,
    locale_ctx: Option<&LocaleContext>,
) -> (r: Result<(), DbError>)
    ensures
        ({
            let ctx = match locale_ctx {
                Some(c) => Some(*c),
                None => None,
            };
            match resolved_fields(old(doc).deep_view().fields, fields@, ctx) {
                Ok(resolved) => out(r) == Ok::<(), ErrorView>(()) && final(doc).deep_view() == (
                DocumentView { fields: resolved, ..old(doc).deep_view() }),
                Err(e) => out(r) == Err::<(), ErrorView>(e) && final(doc).deep_view() == old(
                    doc,
                ).deep_view(),
            }
        }),
{
    let read = SnapshotRead::new(locale_ctx);
    let mut flat = flatten_group_fields(&doc.fields, fields);
    let found = walk_leaf_fields(fields);
    let ghost start = entries_view(flat@);
    let ghost all = found.deep_view();
    let ghost ctx = match locale_ctx {
        Some(c) => Some(*c),
        None => None,
    };
    let mut i: usize = 0;
    while i < found.len()
        invariant
            i <= found.len(),
            all == found.deep_view(),
            all == leaves(fields@, Seq::empty(), false),
            read.view() == read_of(ctx),
            start == flattened(old(doc).deep_view().fields, fields@, Seq::empty()),
            *doc == *old(doc),
            resolved_from(start, read.view(), all, 0) == resolved_from(
                entries_view(flat@),
                read.view(),
                all,
                i as int,
            ),
            ctx == match locale_ctx {
                Some(c) => Some(*c),
                None => None,
            },
        decreases found.len() - i,
    {
        assert(all[i as int] == found@[i as int].deep_view());
        if found[i].localized() {
            let path = found[i].path();
            flat = resolve_field(flat, &read, found[i].field, path.as_str())?;
        }
        i += 1;
    }
    let together = nest_group_fields(&flat, fields);
    doc.fields = keep_empty_groups(&doc.fields, fields, together);
    Ok(())
}

/// The text of a value, where it is one.
pub open spec fn text_in(value: Option<JsonView>) -> Option<Seq<char>> {
    match value {
        Some(JsonView::Text(s)) => Some(s),
        _ => None,
    }
}

fn text_under(entries: &Vec<(String, Json)>, key: &str) -> (r: Option<String>)
    ensures
        r.deep_view() == text_in(value_of(entries_view(entries@), key@)),
{
    match get_value(entries, key) {
        Some(Json::Text(s)) => Some(s),
        _ => None,
    }
}

/// The document a snapshot holds: its fields, with the two times they carry taken
/// out of them. A snapshot that is no object holds none.
pub open spec fn snapshot_document(id: Seq<char>, snapshot: JsonView) -> Option<DocumentView> {
    match snapshot {
        JsonView::Object(fields) => Some(
            DocumentView {
                id,
                fields: without(without(fields, "created_at"@), "updated_at"@),
                created_at: text_in(value_of(fields, "created_at"@)),
                updated_at: text_in(value_of(without(fields, "created_at"@), "updated_at"@)),
            },
        ),
        _ => None,
    }
}

/// The document a snapshot holds.
pub fn document_from_snapshot(id: &str, snapshot: &Json) -> (r: Option<Document>)
    ensures
        r.deep_view() == snapshot_document(id@, json_view(*snapshot)),
{
    let object = match snapshot {
        Json::Object(object) => object,
        _ => {
            return None;
        },
    };
    let fields = copy_entries(object);
    let created_at = text_under(&fields, "created_at");
    let fields = remove_entry(fields, "created_at");
    let updated_at = text_under(&fields, "updated_at");
    let fields = remove_entry(fields, "updated_at");
    Some(Document { id: id.to_owned(), fields, created_at, updated_at })
}

/// One resolved field: none of its values per locale is left, it has the value of
/// the locale that was read, else of the fallback, and no other value is touched.
pub proof fn a_resolved_field_is_bare(
    data: Entries,
    name: Seq<char>,
    reading: Option<Seq<char>>,
    fallback: Option<Seq<char>>,
    rows: bool,
    other: Seq<char>,
)
    requires
        resolved_value(data, name, reading, fallback, rows) is Ok,
        !decorated(name).is_prefix_of(name),
    ensures
        ({
            let (resolved, source) = resolved_value(data, name, reading, fallback, rows)->Ok_0;
            let value = taken(data, name, reading, fallback, rows)->Ok_0;
            &&& !has_prefix(resolved, decorated(name))
            &&& decorated(name).is_prefix_of(other) ==> value_of(resolved, other) is None
            &&& value matches Some((locale, v)) ==> source == Some(locale) && value_of(
                resolved,
                name,
            ) == Some(v)
            &&& other != name && !decorated(name).is_prefix_of(other) ==> value_of(resolved, other)
                == value_of(data, other)
        }),
{
    match taken(data, name, reading, fallback, rows) {
        Ok(Some((source, value))) => {
            let set = with(data, name, value);
            value_with(data, name, value, other);
            value_without_prefix(set, decorated(name), other);
            value_without_prefix(set, decorated(name), name);
        },
        _ => {
            let empty = if rows {
                JsonView::Array(Seq::empty())
            } else {
                JsonView::Null
            };
            value_with(data, name, empty, other);
            value_without_prefix(with(data, name, empty), decorated(name), other);
            value_without_prefix(data, decorated(name), other);
        },
    }
}

/// A name is never one of its own values per locale.
pub proof fn a_name_is_not_decorated(name: Seq<char>)
    ensures
        !decorated(name).is_prefix_of(name),
{
    reveal_strlit("__");
    assert(decorated(name).len() == name.len() + 2);
}

/// In a locale that has a value for a field, the field has that value.
pub proof fn a_snapshot_reads_its_locale(
    data: Entries,
    name: Seq<char>,
    locale: Seq<char>,
    fallback: Option<Seq<char>>,
    rows: bool,
    column: Seq<char>,
    value: JsonView,
)
    requires
        locale_column_name(name, locale) == Ok::<Seq<char>, ErrorView>(column),
        value_of(data, column) == Some(value),
        !holds_nothing(value, rows),
    ensures
        resolved_value(data, name, Some(locale), fallback, rows) is Ok,
        value_of(
            resolved_value(data, name, Some(locale), fallback, rows)->Ok_0.0,
            name,
        ) == Some(value),
{
    a_name_is_not_decorated(name);
    a_resolved_field_is_bare(data, name, Some(locale), fallback, rows, name);
}

/// In a locale that has no value for a field that is kept per locale, the field
/// takes the fallback's value, and without one it is empty: never the value of the
/// locale the version was saved in.
pub proof fn a_snapshot_without_a_value_reads_empty(
    data: Entries,
    name: Seq<char>,
    locale: Seq<char>,
    rows: bool,
)
    requires
        first_value(data, name, Some(locale), rows) == Ok::<Option<JsonView>, ErrorView>(None),
        has_prefix(data, decorated(name)),
    ensures
        resolved_value(data, name, Some(locale), None, rows) is Ok,
        value_of(resolved_value(data, name, Some(locale), None, rows)->Ok_0.0, name) == Some(
            if rows {
                JsonView::Array(Seq::empty())
            } else {
                JsonView::Null
            },
        ),
{
    let empty = if rows {
        JsonView::Array(Seq::empty())
    } else {
        JsonView::Null
    };
    a_name_is_not_decorated(name);
    value_with(data, name, empty, name);
    value_without_prefix(with(data, name, empty), decorated(name), name);
}

/// Whether a name is that of a field's value in one locale, or of its zone's.
pub open spec fn per_locale_name(field: FieldDefinition, name: Seq<char>, key: Seq<char>) -> bool {
    decorated(name).is_prefix_of(key) || (field.zoned() && decorated(
        tz_column_name(name),
    ).is_prefix_of(key))
}

/// The names a localized field is resolved under: its own, and its zone's.
pub open spec fn resolved_names(field: FieldDefinition, name: Seq<char>, key: Seq<char>) -> bool {
    key == name || (field.zoned() && key == tz_column_name(name))
}

proof fn gathered_adds_nothing(
    data: Entries,
    by: Entries,
    name: Seq<char>,
    locales: Seq<Seq<char>>,
    i: int,
    key: Seq<char>,
)
    requires
        gathered(data, by, name, locales, i) is Ok,
        value_of(data, key) is None,
    ensures
        value_of(gathered(data, by, name, locales, i)->Ok_0.0, key) is None,
    decreases locales.len() - i,
{
    if 0 <= i < locales.len() {
        let column = locale_column_name(name, locales[i])->Ok_0;
        match value_of(data, column) {
            Some(value) => {
                value_without(data, column, key);
                gathered_adds_nothing(
                    without(data, column),
                    with(by, locales[i], value),
                    name,
                    locales,
                    i + 1,
                    key,
                );
            },
            None => {
                gathered_adds_nothing(data, by, name, locales, i + 1, key);
            },
        }
    }
}

proof fn regrouping_drops(
    data: Entries,
    name: Seq<char>,
    locales: Seq<Seq<char>>,
    key: Seq<char>,
)
    requires
        regrouped(data, name, locales) is Ok,
        key != name,
    ensures
        decorated(name).is_prefix_of(key) ==> value_of(
            regrouped(data, name, locales)->Ok_0,
            key,
        ) is None,
        value_of(data, key) is None ==> value_of(
            regrouped(data, name, locales)->Ok_0,
            key,
        ) is None,
{
    let (rest, by) = gathered(data, Seq::empty(), name, locales, 0)->Ok_0;
    let kept = without_prefix(rest, decorated(name));
    value_without_prefix(rest, decorated(name), key);
    value_with(kept, name, JsonView::Object(by), key);
    if value_of(data, key) is None {
        gathered_adds_nothing(data, Seq::empty(), name, locales, 0, key);
    }
}

proof fn resolving_drops(
    data: Entries,
    name: Seq<char>,
    reading: Option<Seq<char>>,
    fallback: Option<Seq<char>>,
    rows: bool,
    key: Seq<char>,
)
    requires
        resolved_value(data, name, reading, fallback, rows) is Ok,
        key != name,
    ensures
        decorated(name).is_prefix_of(key) ==> value_of(
            resolved_value(data, name, reading, fallback, rows)->Ok_0.0,
            key,
        ) is None,
        value_of(data, key) is None ==> value_of(
            resolved_value(data, name, reading, fallback, rows)->Ok_0.0,
            key,
        ) is None,
{
    a_name_is_not_decorated(name);
    a_resolved_field_is_bare(data, name, reading, fallback, rows, key);
}

proof fn a_field_drops_its_locales(
    data: Entries,
    read: ReadView,
    field: FieldDefinition,
    name: Seq<char>,
    key: Seq<char>,
)
    requires
        resolved_field(data, read, field, name) is Ok,
        !resolved_names(field, name, key),
    ensures
        per_locale_name(field, name, key) ==> value_of(
            resolved_field(data, read, field, name)->Ok_0,
            key,
        ) is None,
        value_of(data, key) is None ==> value_of(
            resolved_field(data, read, field, name)->Ok_0,
            key,
        ) is None,
{
    let rows = !field.in_parent();
    let zone = tz_column_name(name);
    if read.all && !rows && read.locales is Some {
        regrouping_drops(data, name, read.locales->0, key);
        if field.zoned() {
            regrouping_drops(
                regrouped(data, name, read.locales->0)->Ok_0,
                zone,
                read.locales->0,
                key,
            );
        }
    } else {
        resolving_drops(data, name, read.reading, read.fallback, rows, key);
        let (next, source) = resolved_value(data, name, read.reading, read.fallback, rows)->Ok_0;
        if field.zoned() {
            match source {
                Some(locale) => {
                    resolving_drops(next, zone, Some(locale), None, false, key);
                },
                None => {
                    resolving_drops(next, zone, read.reading, read.fallback, false, key);
                },
            }
        }
    }
}

proof fn later_fields_add_nothing(
    data: Entries,
    read: ReadView,
    found: Seq<LeafView>,
    i: int,
    key: Seq<char>,
)
    requires
        0 <= i <= found.len(),
        resolved_from(data, read, found, i) is Ok,
        value_of(data, key) is None,
        forall|j: int|
            0 <= j < found.len() && (#[trigger] found[j]).localized() ==> !resolved_names(
                found[j].field,
                found[j].path(),
                key,
            ),
    ensures
        value_of(resolved_from(data, read, found, i)->Ok_0, key) is None,
    decreases found.len() - i,
{
    if i < found.len() {
        if found[i].localized() {
            a_field_drops_its_locales(data, read, found[i].field, found[i].path(), key);
            later_fields_add_nothing(
                resolved_field(data, read, found[i].field, found[i].path())->Ok_0,
                read,
                found,
                i + 1,
                key,
            );
        } else {
            later_fields_add_nothing(data, read, found, i + 1, key);
        }
    }
}

proof fn resolving_leaves_none(
    data: Entries,
    read: ReadView,
    found: Seq<LeafView>,
    i: int,
    k: int,
    key: Seq<char>,
)
    requires
        0 <= i <= k < found.len(),
        resolved_from(data, read, found, i) is Ok,
        found[k].localized(),
        per_locale_name(found[k].field, found[k].path(), key),
        forall|j: int|
            0 <= j < found.len() && (#[trigger] found[j]).localized() ==> !resolved_names(
                found[j].field,
                found[j].path(),
                key,
            ),
    ensures
        value_of(resolved_from(data, read, found, i)->Ok_0, key) is None,
    decreases found.len() - i,
{
    if found[i].localized() {
        let next = resolved_field(data, read, found[i].field, found[i].path())->Ok_0;
        if i == k {
            a_field_drops_its_locales(data, read, found[i].field, found[i].path(), key);
            later_fields_add_nothing(next, read, found, i + 1, key);
        } else {
            resolving_leaves_none(next, read, found, i + 1, k, key);
        }
    } else {
        resolving_leaves_none(data, read, found, i + 1, k, key);
    }
}

/// No value per locale reaches the reader: what is read of a snapshot, in a locale or in
/// none, has nothing under a name made of a localized field's, or its zone's, and a
/// locale's, whatever was stored under it and whether or not the locale is one of those
/// there are now. Only a field or a group that is itself called that is there.
pub proof fn no_value_per_locale_is_left(
    fields: Entries,
    defs: Seq<FieldDefinition>,
    ctx: Option<LocaleContext>,
    k: int,
    key: Seq<char>,
)
    requires
        resolved_fields(fields, defs, ctx) is Ok,
        0 <= k < leaves(defs, Seq::empty(), false).len(),
        leaves(defs, Seq::empty(), false)[k].localized(),
        per_locale_name(
            leaves(defs, Seq::empty(), false)[k].field,
            leaves(defs, Seq::empty(), false)[k].path(),
            key,
        ),
        group_named(row_fields(defs), key) is None,
        forall|j: int|
            0 <= j < leaves(defs, Seq::empty(), false).len() && (#[trigger] leaves(
                defs,
                Seq::empty(),
                false,
            )[j]).localized() ==> !resolved_names(
                leaves(defs, Seq::empty(), false)[j].field,
                leaves(defs, Seq::empty(), false)[j].path(),
                key,
            ),
    ensures
        value_of(resolved_fields(fields, defs, ctx)->Ok_0, key) is None,
{
    let found = leaves(defs, Seq::empty(), false);
    let flat = flattened(fields, defs, Seq::empty());
    resolving_leaves_none(flat, read_of(ctx), found, 0, k, key);
    let resolved = resolved_from(flat, read_of(ctx), found, 0)->Ok_0;
    nesting_adds_only_groups(resolved, defs, key);
    only_groups_are_put_back(fields, defs, nested(resolved, defs), key);
}

} // verus!
