//! Storing the values inside JSON-stored rows in their typed form.
//!
//! **One-time conversion — removable after 0.1.0** (see [`super`]).
//!
//! Rows of blocks, and the groups and arrays inside an array's row, are stored as
//! JSON. Writes store their values typed: a checkbox as `true` or `false`, a
//! number as a number, a date with a zone as UTC. This converts the rows written
//! before, once per collection and global. A stored value that is stored again
//! stays the same, so an interrupted run simply goes on.
use crate::definition::{
    BlockDefinition, BlockView, CollectionDefinition, FieldDefinition, FieldType, FieldView,
    GlobalDefinition, LeafView, Registry, blocks_view, copy_blocks, copy_fields, fields_view,
    flatten_array_sub_fields, leaves, referred, row_fields, walk_leaf_fields,
};
use crate::json_text::{canonical_json, prints_object, reprinted};
use crate::migrate::helpers::introspection::{table_exists, table_exists_step};
use crate::migrate::helpers::paged::{
    PageView, Scan, ScanView, first_page, first_page_step, next_page, page_step, update_by_id,
    update_sql,
};
use crate::migrate::meta;
use crate::names::{global_table, global_table_name, join_table, join_table_name};
use crate::session::{
    Request, RequestView, Session, SessionView, Step, answers_left, ask_names, execute_many_step,
    within,
};
use crate::text::{cat2, cat4, cat5, decimal, decimal_text, push_item, same, starts_with};
use crate::value::{
    DbError, DbRow, DbRowView, DbValue, DbValueView, ErrorView, add_context, count_out,
    count_together, out, together, two_params,
};
use vstd::prelude::*;

verus! {

/// A stored value to convert: the row's id, the sub-field or block type it
/// belongs to, and its text.
#[derive(Debug)]
pub struct Candidate {
    pub id: String,
    pub part: String,
    pub value: String,
}

/// The mathematical value of a [`Candidate`].
#[verifier::ext_equal]
pub ghost struct CandidateView {
    pub id: Seq<char>,
    pub part: Seq<char>,
    pub value: Seq<char>,
}

impl DeepView for Candidate {
    type V = CandidateView;

    open spec fn deep_view(&self) -> CandidateView {
        CandidateView { id: self.id@, part: self.part@, value: self.value@ }
    }
}

/// Which conversion values go through.
#[derive(Debug, Clone, Copy, PartialEq, Eq, Structural)]
pub enum Conversion {
    /// To the typed form.
    Typed,
    /// Dates with a zone to UTC, nothing else.
    Dates,
}

/// The request converting candidates.
pub open spec fn conversion_request(
    conversion: Conversion,
    table: Seq<char>,
    fields: Seq<FieldView>,
    blocks: Seq<BlockView>,
    candidates: Seq<CandidateView>,
) -> RequestView {
    let parts = Seq::new(candidates.len(), |i: int| candidates[i].part);
    let values = Seq::new(candidates.len(), |i: int| candidates[i].value);
    match conversion {
        Conversion::Typed => RequestView::StoreNestedValues {
            table,
            fields,
            blocks,
            parts,
            values,
        },
        Conversion::Dates => RequestView::ConvertTimezoneDates {
            table,
            fields,
            blocks,
            parts,
            values,
        },
    }
}

/// The parameters of the updates of those values, among the first `n`, that the
/// conversion changed: the new text and the row's id.
pub open spec fn changed(
    candidates: Seq<CandidateView>,
    converted: Seq<Seq<char>>,
    n: int,
) -> Seq<Seq<DbValueView>>
    decreases n,
{
    if n <= 0 || n > candidates.len() || n > converted.len() {
        Seq::empty()
    } else {
        let before = changed(candidates, converted, n - 1);
        if converted[n - 1] == candidates[n - 1].value {
            before
        } else {
            before.push(
                seq![
                    DbValueView::Text(converted[n - 1]),
                    DbValueView::Text(candidates[n - 1].id),
                ],
            )
        }
    }
}

/// The parameters of the updates of the values that the conversion changed.
pub fn changed_rows(candidates: &Vec<Candidate>, converted: &Vec<String>) -> (r: Vec<Vec<DbValue>>)
    requires
        candidates@.len() == converted@.len(),
    ensures
        r.deep_view() == changed(
            candidates.deep_view(),
            converted.deep_view(),
            candidates@.len() as int,
        ),
{
    let mut updates: Vec<Vec<DbValue>> = Vec::new();
    assert(updates.deep_view() =~= Seq::<Seq<DbValueView>>::empty());
    let mut i: usize = 0;
    while i < candidates.len()
        invariant
            i <= candidates.len(),
            candidates@.len() == converted@.len(),
            updates.deep_view() == changed(
                candidates.deep_view(),
                converted.deep_view(),
                i as int,
            ),
        decreases candidates.len() - i,
    {
        assert(candidates.deep_view()[i as int] == candidates@[i as int].deep_view());
        assert(converted.deep_view()[i as int] == converted@[i as int]@);
        if !same(converted[i].as_str(), candidates[i].value.as_str()) {
            push_item(
                &mut updates,
                two_params(converted[i].as_str(), candidates[i].id.as_str()),
            );
        }
        i += 1;
    }
    updates
}

/// Has candidates converted and stores those that changed; says how many did.
/// `failed` is said of a store that fails.
pub open spec fn convert_candidates_step(
    s: SessionView,
    conversion: Conversion,
    table: Seq<char>,
    update: Seq<char>,
    failed: Seq<char>,
    fields: Seq<FieldView>,
    blocks: Seq<BlockView>,
    candidates: Seq<CandidateView>,
) -> Step<nat> {
    if candidates.len() == 0 {
        (s, Ok(0))
    } else {
        let (s1, converted) = ask_names(
            s,
            conversion_request(conversion, table, fields, blocks, candidates),
        );
        match converted {
            Err(e) => (s1, Err(e)),
            Ok(converted) => if converted.len() != candidates.len() {
                (s1, Err(ErrorView::Unexpected))
            } else {
                let updates = changed(candidates, converted, candidates.len() as int);
                let (s2, r) = within(execute_many_step(s1, update, updates), failed);
                (
                    s2,
                    match r {
                        Err(e) => Err(e),
                        Ok(_) => Ok(updates.len()),
                    },
                )
            },
        }
    }
}

/// Has candidates converted and stores those that changed; says how many did.
/// `failed` is said of a store that fails.
pub fn convert_candidates(
    conn: &mut Session,
    conversion: Conversion,
    table: &str,
    update: &str,
    failed: &str,
    fields: Vec<FieldDefinition>,
    blocks: Vec<BlockDefinition>,
    candidates: &Vec<Candidate>,
) -> (r: Result<usize, DbError>)
    ensures
        (final(conn)@, count_out(r)) == convert_candidates_step(
            old(conn)@,
            conversion,
            table@,
            update@,
            failed@,
            fields_view(fields@),
            blocks_view(blocks@),
            candidates.deep_view(),
        ),
{
    if candidates.len() == 0 {
        return Ok(0);
    }
    let ghost all = candidates.deep_view();
    let ghost all_parts = Seq::new(all.len(), |i: int| all[i].part);
    let ghost all_values = Seq::new(all.len(), |i: int| all[i].value);
    let mut parts: Vec<String> = Vec::new();
    let mut values: Vec<String> = Vec::new();
    let mut i: usize = 0;
    while i < candidates.len()
        invariant
            i <= candidates.len(),
            all == candidates.deep_view(),
            all_parts == Seq::new(all.len(), |i: int| all[i].part),
            all_values == Seq::new(all.len(), |i: int| all[i].value),
            parts.deep_view() =~= all_parts.take(i as int),
            values.deep_view() =~= all_values.take(i as int),
        decreases candidates.len() - i,
    {
        push_item(&mut parts, candidates[i].part.clone());
        push_item(&mut values, candidates[i].value.clone());
        i += 1;
    }
    assert(parts.deep_view() =~= all_parts);
    assert(values.deep_view() =~= all_values);
    let request = match conversion {
        Conversion::Typed => Request::StoreNestedValues {
            table: table.to_owned(),
            fields,
            blocks,
            parts,
            values,
        },
        Conversion::Dates => Request::ConvertTimezoneDates {
            table: table.to_owned(),
            fields,
            blocks,
            parts,
            values,
        },
    };
    let converted = conn.ask_names(request)?;
    if converted.len() != candidates.len() {
        return Err(DbError::Unexpected);
    }
    let updates = changed_rows(candidates, &converted);
    let count: usize = updates.len();
    let stored = conn.execute_many(update.to_owned(), updates);
    add_context(stored, failed)?;
    Ok(count)
}

/// The candidates among the rows of an array table's column: the rows whose
/// column holds JSON.
pub open spec fn column_candidates(rows: Seq<DbRowView>, part: Seq<char>) -> Seq<CandidateView>
    decreases rows.len(),
{
    if rows.len() == 0 {
        Seq::empty()
    } else {
        let before = column_candidates(rows.drop_last(), part);
        match (rows.last().text_at(0), rows.last().text_at(1)) {
            (Some(id), Some(raw)) => match reprinted(raw) {
                Some(value) => before.push(CandidateView { id, part, value }),
                None => before,
            },
            _ => before,
        }
    }
}

/// The candidates among the rows of an array table's column.
pub fn read_column_candidates(rows: &Vec<DbRow>, part: &str) -> (r: Vec<Candidate>)
    ensures
        r.deep_view() == column_candidates(rows.deep_view(), part@),
{
    let ghost all = rows.deep_view();
    let mut found: Vec<Candidate> = Vec::new();
    let mut i: usize = 0;
    assert(all.take(0) =~= Seq::<DbRowView>::empty());
    assert(found.deep_view() =~= Seq::<CandidateView>::empty());
    while i < rows.len()
        invariant
            i <= rows.len(),
            all == rows.deep_view(),
            found.deep_view() == column_candidates(all.take(i as int), part@),
        decreases rows.len() - i,
    {
        assert(all.take(i + 1).drop_last() =~= all.take(i as int));
        assert(all.take(i + 1).last() == rows@[i as int].deep_view());
        if let (Some(id), Some(raw)) = (rows[i].text_at(0), rows[i].text_at(1)) {
            if let Some(value) = canonical_json(raw.as_str()) {
                push_item(&mut found, Candidate { id, part: part.to_owned(), value });
            }
        }
        i += 1;
    }
    assert(all.take(i as int) =~= all);
    found
}

/// Whether a block type is defined.
pub open spec fn block_defined(blocks: Seq<BlockDefinition>, block_type: Seq<char>) -> bool {
    exists|i: int| 0 <= i < blocks.len() && (#[trigger] blocks[i]).block_type@ == block_type
}

fn is_block_defined(blocks: &Vec<BlockDefinition>, block_type: &str) -> (r: bool)
    ensures
        r == block_defined(blocks@, block_type@),
{
    let mut i: usize = 0;
    while i < blocks.len()
        invariant
            i <= blocks.len(),
            forall|j: int| 0 <= j < i ==> (#[trigger] blocks@[j]).block_type@ != block_type@,
        decreases blocks.len() - i,
    {
        if same(blocks[i].block_type.as_str(), block_type) {
            return true;
        }
        i += 1;
    }
    false
}

/// The value of a blocks row that is converted: that of a block still defined,
/// and an object.
pub open spec fn block_value(
    blocks: Seq<BlockDefinition>,
    block_type: Seq<char>,
    printed: Option<Seq<char>>,
) -> Option<Seq<char>> {
    match printed {
        Some(value) => if block_defined(blocks, block_type) && prints_object(value) {
            Some(value)
        } else {
            None
        },
        None => None,
    }
}

/// The value of a blocks row that is converted, given the text its value is
/// printed as.
pub fn convertible_block(
    blocks: &Vec<BlockDefinition>,
    block_type: &str,
    printed: Option<String>,
) -> (r: Option<String>)
    ensures
        r.deep_view() == block_value(blocks@, block_type@, printed.deep_view()),
{
    match printed {
        Some(value) => if is_block_defined(blocks, block_type) && starts_with(
            value.as_str(),
            "{",
        ) {
            Some(value)
        } else {
            None
        },
        None => None,
    }
}

/// The candidates among the rows of a blocks table.
pub open spec fn block_candidates(rows: Seq<DbRowView>, blocks: Seq<BlockDefinition>) -> Seq<
    CandidateView,
>
    decreases rows.len(),
{
    if rows.len() == 0 {
        Seq::empty()
    } else {
        let before = block_candidates(rows.drop_last(), blocks);
        match (rows.last().text_at(0), rows.last().text_at(1), rows.last().text_at(2)) {
            (Some(id), Some(part), Some(raw)) => match block_value(blocks, part, reprinted(raw)) {
                Some(value) => before.push(CandidateView { id, part, value }),
                None => before,
            },
            _ => before,
        }
    }
}

/// The candidates among the rows of a blocks table.
pub fn read_block_candidates(rows: &Vec<DbRow>, blocks: &Vec<BlockDefinition>) -> (r: Vec<
    Candidate,
>)
    ensures
        r.deep_view() == block_candidates(rows.deep_view(), blocks@),
{
    let ghost all = rows.deep_view();
    let mut found: Vec<Candidate> = Vec::new();
    let mut i: usize = 0;
    assert(all.take(0) =~= Seq::<DbRowView>::empty());
    assert(found.deep_view() =~= Seq::<CandidateView>::empty());
    while i < rows.len()
        invariant
            i <= rows.len(),
            all == rows.deep_view(),
            found.deep_view() == block_candidates(all.take(i as int), blocks@),
        decreases rows.len() - i,
    {
        assert(all.take(i + 1).drop_last() =~= all.take(i as int));
        assert(all.take(i + 1).last() == rows@[i as int].deep_view());
        if let (Some(id), Some(part), Some(raw)) = (
            rows[i].text_at(0),
            rows[i].text_at(1),
            rows[i].text_at(2),
        ) {
            let printed = canonical_json(raw.as_str());
            if let Some(value) = convertible_block(blocks, part.as_str(), printed) {
                push_item(&mut found, Candidate { id, part, value });
            }
        }
        i += 1;
    }
    assert(all.take(i as int) =~= all);
    found
}

/// What a table's rows are converted as.
pub ghost enum RowsView {
    /// The sub-field of an array whose column is converted, among all of them.
    Column(Seq<char>, Seq<FieldDefinition>),
    Blocks(Seq<BlockDefinition>),
}

impl RowsView {
    /// What is read of the table.
    pub open spec fn scan(self, table: Seq<char>) -> ScanView {
        match self {
            RowsView::Column(name, _) => ScanView {
                table,
                columns: seq![name],
                active_only: false,
            },
            RowsView::Blocks(_) => ScanView {
                table,
                columns: seq!["_block_type"@, "data"@],
                active_only: false,
            },
        }
    }

    /// The candidates among some rows.
    pub open spec fn candidates(self, rows: Seq<DbRowView>) -> Seq<CandidateView> {
        match self {
            RowsView::Column(name, _) => column_candidates(rows, name),
            RowsView::Blocks(blocks) => block_candidates(rows, blocks),
        }
    }

    /// What is said of a store that fails.
    pub open spec fn failed(self, table: Seq<char>) -> Seq<char> {
        match self {
            RowsView::Column(name, _) => "Failed to convert nested values in "@ + table + "."@ + name,
            RowsView::Blocks(_) => "Failed to convert nested values in "@ + table,
        }
    }

    /// The sub-fields that values belong to.
    pub open spec fn fields(self) -> Seq<FieldView> {
        match self {
            RowsView::Column(_, sub) => fields_view(sub),
            RowsView::Blocks(_) => Seq::empty(),
        }
    }

    /// The row kinds that values belong to.
    pub open spec fn blocks(self) -> Seq<BlockView> {
        match self {
            RowsView::Column(_, _) => Seq::empty(),
            RowsView::Blocks(blocks) => blocks_view(blocks),
        }
    }

    /// The column that is written.
    pub open spec fn column(self) -> Seq<char> {
        match self {
            RowsView::Column(name, _) => name,
            RowsView::Blocks(_) => "data"@,
        }
    }
}

enum Rows<'a> {
    Column(&'a str, &'a Vec<FieldDefinition>),
    Blocks(&'a Vec<BlockDefinition>),
}

impl<'a> Rows<'a> {
    spec fn view(self) -> RowsView {
        match self {
            Rows::Column(name, sub) => RowsView::Column(name@, sub@),
            Rows::Blocks(blocks) => RowsView::Blocks(blocks@),
        }
    }

    fn scan(&self, table: &str) -> (r: Scan)
        ensures
            r.deep_view() == self.view().scan(table@),
    {
        match self {
            Rows::Column(name, _) => Scan::of_column(table, name),
            Rows::Blocks(_) => Scan::of_columns(table, "_block_type", "data"),
        }
    }

    fn candidates(&self, rows: &Vec<DbRow>) -> (r: Vec<Candidate>)
        ensures
            r.deep_view() == self.view().candidates(rows.deep_view()),
    {
        match self {
            Rows::Column(name, _) => read_column_candidates(rows, name),
            Rows::Blocks(blocks) => read_block_candidates(rows, blocks),
        }
    }

    fn failed(&self, table: &str) -> (r: String)
        ensures
            r@ == self.view().failed(table@),
    {
        match self {
            Rows::Column(name, _) => cat4("Failed to convert nested values in ", table, ".", name),
            Rows::Blocks(_) => cat2("Failed to convert nested values in ", table),
        }
    }

    fn fields(&self) -> (r: Vec<FieldDefinition>)
        ensures
            fields_view(r@) == self.view().fields(),
    {
        match self {
            Rows::Column(_, sub) => copy_fields(sub),
            Rows::Blocks(_) => Vec::new(),
        }
    }

    fn blocks(&self) -> (r: Vec<BlockDefinition>)
        ensures
            blocks_view(r@) == self.view().blocks(),
    {
        match self {
            Rows::Column(_, _) => Vec::new(),
            Rows::Blocks(blocks) => copy_blocks(blocks),
        }
    }

    fn column(&self) -> (r: &str)
        ensures
            r@ == self.view().column(),
    {
        match self {
            Rows::Column(name, _) => name,
            Rows::Blocks(_) => "data",
        }
    }
}

/// Converts the rows of a page and of those behind it, `n` having been converted
/// before; says how many are converted in all.
pub open spec fn convert_pages(
    s: SessionView,
    table: Seq<char>,
    kind: RowsView,
    page: PageView,
    n: nat,
) -> Step<nat>
    decreases answers_left(s),
{
    let (s1, r) = convert_candidates_step(
        s,
        Conversion::Typed,
        table,
        update_sql(s.dialect, table, kind.column()),
        kind.failed(table),
        kind.fields(),
        kind.blocks(),
        kind.candidates(page.rows),
    );
    match r {
        Err(e) => (s1, Err(e)),
        Ok(more) => match page.next {
            None => (s1, Ok(together(n, more))),
            Some(after) => {
                let (s2, next) = page_step(s1, kind.scan(table), Some(after));
                match next {
                    Err(e) => (s2, Err(e)),
                    Ok(next) => convert_pages(s2, table, kind, next, together(n, more)),
                }
            },
        },
    }
}

/// Converts the rows of a table, a page at a time; says how many were.
pub open spec fn convert_rows_step(s: SessionView, table: Seq<char>, kind: RowsView) -> Step<nat> {
    let (s1, page) = first_page_step(s, kind.scan(table));
    match page {
        Err(e) => (s1, Err(e)),
        Ok(page) => convert_pages(s1, table, kind, page, 0),
    }
}

proof fn another_page_costs_an_answer(
    s: SessionView,
    table: Seq<char>,
    kind: RowsView,
    rows: Seq<DbRowView>,
    after: Seq<char>,
)
    ensures
        ({
            let s1 = convert_candidates_step(
                s,
                Conversion::Typed,
                table,
                update_sql(s.dialect, table, kind.column()),
                kind.failed(table),
                kind.fields(),
                kind.blocks(),
                kind.candidates(rows),
            ).0;
            let (s2, next) = page_step(s1, kind.scan(table), Some(after));
            next is Ok ==> answers_left(s2) < answers_left(s)
        }),
{
}

fn convert_rows<'a>(conn: &mut Session, table: &str, kind: Rows<'a>) -> (r: Result<usize, DbError>)
    ensures
        (final(conn)@, count_out(r)) == convert_rows_step(old(conn)@, table@, kind.view()),
{
    let scan = kind.scan(table);
    let ghost view = kind.view();
    let mut page = first_page(conn, &scan)?;
    let update = update_by_id(conn.dialect(), table, kind.column());
    let failed = kind.failed(table);
    let ghost start = conn@;
    let ghost first = page.deep_view();
    let mut converted: usize = 0;
    loop
        invariant
            view == kind.view(),
            scan.deep_view() == view.scan(table@),
            update@ == update_sql(conn@.dialect, table@, view.column()),
            failed@ == view.failed(table@),
            convert_pages(start, table@, view, first, 0) == convert_rows_step(
                old(conn)@,
                table@,
                view,
            ),
            convert_pages(start, table@, view, first, 0) == convert_pages(
                conn@,
                table@,
                view,
                page.deep_view(),
                converted as nat,
            ),
        decreases answers_left(conn@),
    {
        let ghost here = conn@;
        let candidates = kind.candidates(&page.rows);
        let more: usize = convert_candidates(
            conn,
            Conversion::Typed,
            table,
            update.as_str(),
            failed.as_str(),
            kind.fields(),
            kind.blocks(),
            &candidates,
        )?;
        converted = count_together(converted, more);
        match &page.next {
            None => {
                return Ok(converted);
            },
            Some(after) => {
                proof {
                    another_page_costs_an_answer(
                        here,
                        table@,
                        view,
                        page.deep_view().rows,
                        after@,
                    );
                }
                let next = next_page(conn, &scan, after.as_str())?;
                page = next;
            },
        }
    }
}

/// Whether a sub-field of an array's row is stored as JSON in its own column.
pub open spec fn stored_as_json(field: FieldDefinition) -> bool {
    match field.field_type {
        FieldType::Group | FieldType::Array | FieldType::Blocks => true,
        _ => false,
    }
}

/// The names of the sub-fields stored as JSON.
pub open spec fn json_names(subs: Seq<FieldDefinition>) -> Seq<Seq<char>>
    decreases subs.len(),
{
    if subs.len() == 0 {
        Seq::empty()
    } else if stored_as_json(subs.last()) {
        json_names(subs.drop_last()).push(subs.last().name@)
    } else {
        json_names(subs.drop_last())
    }
}

/// The names of the sub-fields of an array's row stored as JSON.
pub fn json_sub_fields(sub: &Vec<FieldDefinition>) -> (r: Vec<String>)
    ensures
        r.deep_view() == json_names(row_fields(sub@)),
{
    let fields = flatten_array_sub_fields(sub);
    let ghost all = referred(fields@);
    let mut names: Vec<String> = Vec::new();
    let mut i: usize = 0;
    assert(all.take(0) =~= Seq::<FieldDefinition>::empty());
    assert(names.deep_view() =~= Seq::<Seq<char>>::empty());
    while i < fields.len()
        invariant
            i <= fields.len(),
            all == referred(fields@),
            names.deep_view() == json_names(all.take(i as int)),
        decreases fields.len() - i,
    {
        assert(all.take(i + 1).drop_last() =~= all.take(i as int));
        assert(all.take(i + 1).last() == *fields@[i as int]);
        match fields[i].field_type {
            FieldType::Group | FieldType::Array | FieldType::Blocks => {
                push_item(&mut names, fields[i].name.clone());
            },
            _ => {},
        }
        i += 1;
    }
    assert(all.take(i as int) =~= all);
    names
}

/// Converts the columns from the `i`-th on, `n` rows having been converted before; says
/// how many are converted in all.
pub open spec fn convert_columns_from(
    s: SessionView,
    table: Seq<char>,
    sub: Seq<FieldDefinition>,
    names: Seq<Seq<char>>,
    i: int,
    n: nat,
) -> Step<nat>
    decreases names.len() - i,
{
    if i < 0 || i >= names.len() {
        (s, Ok(n))
    } else {
        let (s1, r) = convert_rows_step(s, table, RowsView::Column(names[i], sub));
        match r {
            Err(e) => (s1, Err(e)),
            Ok(more) => convert_columns_from(s1, table, sub, names, i + 1, together(n, more)),
        }
    }
}

/// Converts the JSON columns of an array table; says how many values were.
pub open spec fn convert_array_step(
    s: SessionView,
    table: Seq<char>,
    sub: Seq<FieldDefinition>,
) -> Step<nat> {
    let names = json_names(row_fields(sub));
    if names.len() == 0 {
        (s, Ok(0))
    } else {
        let (s1, exists) = table_exists_step(s, table);
        match exists {
            Err(e) => (s1, Err(e)),
            Ok(false) => (s1, Ok(0)),
            Ok(true) => convert_columns_from(s1, table, sub, names, 0, 0),
        }
    }
}

fn convert_array_table(conn: &mut Session, table: &str, sub: &Vec<FieldDefinition>) -> (r: Result<
    usize,
    DbError,
>)
    ensures
        (final(conn)@, count_out(r)) == convert_array_step(old(conn)@, table@, sub@),
{
    let names = json_sub_fields(sub);
    if names.len() == 0 {
        return Ok(0);
    }
    if !table_exists(conn, table)? {
        return Ok(0);
    }
    let ghost start = conn@;
    let ghost all = names.deep_view();
    let mut converted: usize = 0;
    let mut i: usize = 0;
    while i < names.len()
        invariant
            i <= names.len(),
            all == names.deep_view(),
            convert_columns_from(start, table@, sub@, all, 0, 0) == convert_array_step(
                old(conn)@,
                table@,
                sub@,
            ),
            convert_columns_from(start, table@, sub@, all, 0, 0) == convert_columns_from(
                conn@,
                table@,
                sub@,
                all,
                i as int,
                converted as nat,
            ),
        decreases names.len() - i,
    {
        assert(all[i as int] == names@[i as int]@);
        let more: usize = convert_rows(conn, table, Rows::Column(names[i].as_str(), sub))?;
        converted = count_together(converted, more);
        i += 1;
    }
    Ok(converted)
}

/// Converts the rows of a blocks table; says how many were.
pub open spec fn convert_blocks_step(
    s: SessionView,
    table: Seq<char>,
    blocks: Seq<BlockDefinition>,
) -> Step<nat> {
    let (s1, exists) = table_exists_step(s, table);
    match exists {
        Err(e) => (s1, Err(e)),
        Ok(false) => (s1, Ok(0)),
        Ok(true) => convert_rows_step(s1, table, RowsView::Blocks(blocks)),
    }
}

fn convert_blocks_table(conn: &mut Session, table: &str, blocks: &Vec<BlockDefinition>) -> (r: Result<
    usize,
    DbError,
>)
    ensures
        (final(conn)@, count_out(r)) == convert_blocks_step(old(conn)@, table@, blocks@),
{
    if !table_exists(conn, table)? {
        return Ok(0);
    }
    convert_rows(conn, table, Rows::Blocks(blocks))
}

/// Converts the tables of the leaves from the `i`-th on that have one with JSON in it,
/// `n` rows having been converted before; says how many are converted in all.
pub open spec fn convert_leaves_from(
    s: SessionView,
    table: Seq<char>,
    found: Seq<LeafView>,
    i: int,
    n: nat,
) -> Step<nat>
    decreases found.len() - i,
{
    if i < 0 || i >= found.len() {
        (s, Ok(n))
    } else {
        let join = join_table_name(table, found[i].path());
        let (s1, r) = match found[i].field.field_type {
            FieldType::Array => convert_array_step(s, join, found[i].field.fields@),
            FieldType::Blocks => convert_blocks_step(s, join, found[i].field.blocks@),
            _ => (s, Ok(0)),
        };
        match r {
            Err(e) => (s1, Err(e)),
            Ok(more) => convert_leaves_from(s1, table, found, i + 1, together(n, more)),
        }
    }
}

/// Converts every join table that `fields` own on `table`; says how many rows were
/// converted.
pub open spec fn convert_join_tables_step(
    s: SessionView,
    table: Seq<char>,
    fields: Seq<FieldDefinition>,
) -> Step<nat> {
    convert_leaves_from(s, table, leaves(fields, Seq::empty(), false), 0, 0)
}

/// Converts every join table that `fields` own on `table`; says how many rows were
/// converted.
pub fn convert_join_tables(conn: &mut Session, table: &str, fields: &Vec<FieldDefinition>) -> (r:
    Result<usize, DbError>)
    ensures
        (final(conn)@, count_out(r)) == convert_join_tables_step(old(conn)@, table@, fields@),
{
    let found = walk_leaf_fields(fields);
    let ghost all = found.deep_view();
    let mut converted: usize = 0;
    let mut i: usize = 0;
    while i < found.len()
        invariant
            i <= found.len(),
            converted <= usize::MAX,
            all == found.deep_view(),
            all == leaves(fields@, Seq::empty(), false),
            convert_leaves_from(old(conn)@, table@, all, 0, 0) == convert_leaves_from(
                conn@,
                table@,
                all,
                i as int,
                converted as nat,
            ),
        decreases found.len() - i,
    {
        assert(all[i as int] == found@[i as int].deep_view());
        let path = found[i].path();
        let join = join_table(table, path.as_str());
        let more: usize = match found[i].field.field_type {
            FieldType::Array => convert_array_table(conn, join.as_str(), &found[i].field.fields)?,
            FieldType::Blocks => convert_blocks_table(conn, join.as_str(), &found[i].field.blocks)?,
            _ => 0,
        };
        converted = count_together(converted, more);
        i += 1;
    }
    Ok(converted)
}

/// The session after the line on how many rows of a definition were converted, where
/// any was.
pub open spec fn stored_typed(s: SessionView, slug: Seq<char>, n: nat) -> SessionView {
    if n > 0 {
        s.noted(
            "Stored the nested values of "@ + decimal(n) + " row(s) of '"@ + slug
                + "' in their typed form"@,
        )
    } else {
        s
    }
}

/// Converts what one definition stores, once. The mark of the conversion that
/// this one replaced is removed.
pub open spec fn convert_one_step(
    s: SessionView,
    slug: Seq<char>,
    table: Seq<char>,
    fields: Seq<FieldDefinition>,
) -> Step<()> {
    let (s1, r1) = meta::delete_step(s, "nested_timezone_dates:"@ + slug);
    match r1 {
        Err(e) => (s1, Err(e)),
        Ok(_) => {
            let (s2, stored) = meta::get_step(s1, "nested_values:"@ + slug);
            match stored {
                Err(e) => (s2, Err(e)),
                Ok(stored) => if stored == Some("1"@) {
                    (s2, Ok(()))
                } else {
                    let (s3, r3) = convert_join_tables_step(s2, table, fields);
                    match r3 {
                        Err(e) => (s3, Err(e)),
                        Ok(n) => meta::upsert_step(
                            stored_typed(s3, slug, n),
                            "nested_values:"@ + slug,
                            "1"@,
                        ),
                    }
                },
            }
        },
    }
}

fn convert_one(conn: &mut Session, slug: &str, table: &str, fields: &Vec<FieldDefinition>) -> (r:
    Result<(), DbError>)
    ensures
        (final(conn)@, out(r)) == convert_one_step(old(conn)@, slug@, table@, fields@),
{
    let replaced = cat2("nested_timezone_dates:", slug);
    meta::delete(conn, replaced.as_str())?;
    let key = cat2("nested_values:", slug);
    if let Some(version) = meta::get(conn, key.as_str())? {
        if same(version.as_str(), "1") {
            return Ok(());
        }
    }
    let converted: usize = convert_join_tables(conn, table, fields)?;
    if converted > 0 {
        let count = decimal_text(converted as u64);
        conn.note(
            cat5(
                "Stored the nested values of ",
                count.as_str(),
                " row(s) of '",
                slug,
                "' in their typed form",
            ),
        );
    }
    meta::upsert(conn, key.as_str(), "1")
}

/// Converts what the collections from the `i`-th on store.
pub open spec fn convert_collections_from(
    s: SessionView,
    collections: Seq<CollectionDefinition>,
    i: int,
) -> Step<()>
    decreases collections.len() - i,
{
    if i < 0 || i >= collections.len() {
        (s, Ok(()))
    } else {
        let (s1, r) = convert_one_step(
            s,
            collections[i].slug@,
            collections[i].slug@,
            collections[i].fields@,
        );
        match r {
            Err(e) => (s1, Err(e)),
            Ok(_) => convert_collections_from(s1, collections, i + 1),
        }
    }
}

/// Converts what the globals from the `i`-th on store.
pub open spec fn convert_globals_from(s: SessionView, globals: Seq<GlobalDefinition>, i: int) -> Step<
    (),
>
    decreases globals.len() - i,
{
    if i < 0 || i >= globals.len() {
        (s, Ok(()))
    } else {
        let (s1, r) = convert_one_step(
            s,
            globals[i].slug@,
            global_table_name(globals[i].slug@),
            globals[i].fields@,
        );
        match r {
            Err(e) => (s1, Err(e)),
            Ok(_) => convert_globals_from(s1, globals, i + 1),
        }
    }
}

/// Converts what every collection and every global stores, each once.
pub open spec fn convert_step(s: SessionView, registry: Registry) -> Step<()> {
    let (s1, r) = convert_collections_from(s, registry.collections@, 0);
    match r {
        Err(e) => (s1, Err(e)),
        Ok(_) => convert_globals_from(s1, registry.globals@, 0),
    }
}

fn convert_collections(conn: &mut Session, registry: &Registry) -> (r: Result<(), DbError>)
    ensures
        (final(conn)@, out(r)) == convert_collections_from(
            old(conn)@,
            registry.collections@,
            0,
        ),
{
    let collections = &registry.collections;
    let mut i: usize = 0;
    while i < collections.len()
        invariant
            i <= collections.len(),
            collections == registry.collections,
            convert_collections_from(old(conn)@, collections@, 0) == convert_collections_from(
                conn@,
                collections@,
                i as int,
            ),
        decreases collections.len() - i,
    {
        let slug = collections[i].slug.as_str();
        convert_one(conn, slug, slug, &collections[i].fields)?;
        i += 1;
    }
    Ok(())
}

/// Stores the nested values of every collection and global in their typed form,
/// each once.
pub fn convert_if_needed(conn: &mut Session, registry: &Registry) -> (r: Result<(), DbError>)
    ensures
        (final(conn)@, out(r)) == convert_step(old(conn)@, *registry),
{
    convert_collections(conn, registry)?;
    let globals = &registry.globals;
    let ghost start = conn@;
    let mut i: usize = 0;
    while i < globals.len()
        invariant
            i <= globals.len(),
            globals == registry.globals,
            convert_globals_from(start, globals@, 0) == convert_step(old(conn)@, *registry),
            convert_globals_from(start, globals@, 0) == convert_globals_from(
                conn@,
                globals@,
                i as int,
            ),
        decreases globals.len() - i,
    {
        let table = global_table(globals[i].slug.as_str());
        convert_one(conn, globals[i].slug.as_str(), table.as_str(), &globals[i].fields)?;
        i += 1;
    }
    Ok(())
}

/// What a definition stores is converted once: where that is recorded, the record is
/// read and nothing else is, beyond taking off the record of an older pass.
pub proof fn nested_values_are_converted_once(
    s: SessionView,
    slug: Seq<char>,
    table: Seq<char>,
    fields: Seq<FieldDefinition>,
)
    requires
        meta::delete_step(s, "nested_timezone_dates:"@ + slug).1 is Ok,
        meta::get_step(
            meta::delete_step(s, "nested_timezone_dates:"@ + slug).0,
            "nested_values:"@ + slug,
        ).1 == Ok::<Option<Seq<char>>, ErrorView>(Some("1"@)),
    ensures
        convert_one_step(s, slug, table, fields) == (
            meta::get_step(
                meta::delete_step(s, "nested_timezone_dates:"@ + slug).0,
                "nested_values:"@ + slug,
            ).0,
            Ok::<(), ErrorView>(()),
        ),
{
}

} // verus!
