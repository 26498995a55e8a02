//! Keeping the values of a reference that changes between one and many.
//!
//! A reference to one document keeps its id in a column of its own table; one to
//! many keeps its ids in a junction table. Changing which it is moves where the
//! values live: without carrying them, every document would read the field empty
//! from then on. Each sync compares every reference with what the last one
//! recorded and carries the values across:
//!
//! - from one to many, the junction is filled from the column, a row for each
//!   document (and locale) at order 0;
//! - from many to one, the column is filled from the junction, and refused where
//!   a document holds several: picking one would drop the others.
//!
//! What the values left is kept. Changing `localized` or the number of targets
//! at the same time is refused.
use crate::definition::{
    CollectionDefinition, FieldDefinition, FieldType, GlobalDefinition, LeafView, LocaleConfig,
    Registry, leaves, walk_leaf_fields,
};
use crate::migrate::helpers::introspection::{
    get_table_columns, table_columns_step, table_exists, table_exists_step,
};
use crate::migrate::helpers::paged::{
    PageView, Scan, ScanView, first_page, first_page_step, next_page, page_step,
};
use crate::migrate::meta;
use crate::names::{
    global_table, global_table_name, join_table, join_table_name, locale_column, locale_column_name,
    placeholder, placeholder_text, quote_ident, quoted,
};
use crate::order::{contains_joined, sort_texts, sorted, sorted_holds_the_same, sorted_is_sorted};
use crate::session::{
    Dialect, Session, SessionView, Step, answers_left, execute_many_step, execute_step, only_reads,
    query_all_step, within,
};
use crate::text::{
    cat2, cat3, cat4, cat5, cat6, cat7, cat9, contains, decimal, decimal_text, find_char, find_from,
    find_separator, join, join_with, pieces, push_item, same, split, split_undoes_join,
};
use crate::value::{
    DbError, DbRow, DbRowView, DbValue, DbValueView, ErrorView, add_context, count_out,
    count_together, no_params, one_param, out, text_value, texts_at, texts_in_column, together,
};
use vstd::prelude::*;

verus! {

/// The key under which a table's references are recorded.
pub open spec fn cardinality_key(table: Seq<char>) -> Seq<char> {
    "reference_cardinality:"@ + table
}

/// How a reference keeps its values.
#[derive(Debug, Clone, Copy, PartialEq, Eq, Structural)]
pub struct Shape {
    pub has_many: bool,
    pub localized: bool,
    pub polymorphic: bool,
}

/// The recorded form of a shape.
pub open spec fn encoded(shape: Shape) -> Seq<char> {
    (if shape.has_many {
        "many"@
    } else {
        "one"@
    }) + (if shape.localized {
        "+loc"@
    } else {
        ""@
    }) + (if shape.polymorphic {
        "+poly"@
    } else {
        ""@
    })
}

/// The shape a recorded form stands for; nothing, for any other text.
pub open spec fn decoded(value: Seq<char>) -> Option<Shape> {
    if exists|shape: Shape| #[trigger] encoded(shape) == value {
        Some(choose|shape: Shape| #[trigger] encoded(shape) == value)
    } else {
        None
    }
}

/// A number for each shape.
spec fn form_number(shape: Shape) -> int {
    (if shape.has_many {
        4int
    } else {
        0
    }) + (if shape.localized {
        2int
    } else {
        0
    }) + (if shape.polymorphic {
        1int
    } else {
        0
    })
}

proof fn forms_differ(a: Shape, b: Shape)
    requires
        encoded(a) == encoded(b),
    ensures
        a == b,
{
    reveal_strlit("many");
    reveal_strlit("one");
    reveal_strlit("+loc");
    reveal_strlit("+poly");
    reveal_strlit("");
    let x = encoded(a);
    let y = encoded(b);
    assert(x[0] == (if a.has_many {
        'm'
    } else {
        'o'
    }));
    assert(y[0] == (if b.has_many {
        'm'
    } else {
        'o'
    }));
    let n: int = if a.has_many {
        4
    } else {
        3
    };
    if a.localized {
        assert(x[n + 1] == 'l');
    } else if a.polymorphic {
        assert(x[n + 1] == 'p');
    }
    if b.localized {
        assert(y[n + 1] == 'l');
    } else if b.polymorphic {
        assert(y[n + 1] == 'p');
    }
}

impl Shape {
    /// The recorded form.
    pub fn encode(self) -> (r: String)
        ensures
            r@ == encoded(self),
    {
        cat3(
            if self.has_many {
                "many"
            } else {
                "one"
            },
            if self.localized {
                "+loc"
            } else {
                ""
            },
            if self.polymorphic {
                "+poly"
            } else {
                ""
            },
        )
    }

    /// The shape a recorded form stands for; nothing, for any other text.
    pub fn decode(value: &str) -> (r: Option<Shape>)
        ensures
            r == decoded(value@),
            forall|shape: Shape| r == Some(shape) <==> value@ == #[trigger] encoded(shape),
    {
        let flags: [bool; 2] = [false, true];
        let mut i: usize = 0;
        while i < 8
            invariant
                i <= 8,
                flags@ == seq![false, true],
                forall|shape: Shape|
                    #[trigger] encoded(shape) == value@ ==> form_number(shape) >= i,
            decreases 8 - i,
        {
            let shape = Shape {
                has_many: flags[i / 4],
                localized: flags[i / 2 % 2],
                polymorphic: flags[i % 2],
            };
            let form = shape.encode();
            if same(form.as_str(), value) {
                proof {
                    shapes_are_read_back(shape);
                    assert forall|other: Shape| #[trigger] encoded(other) == value@ implies other
                        == shape by {
                        forms_differ(other, shape);
                    }
                }
                return Some(shape);
            }
            assert forall|other: Shape| #[trigger] encoded(other) == value@ implies form_number(
                other,
            ) >= i + 1 by {
                if form_number(other) == i {
                    assert(other == shape);
                }
            }
            i += 1;
        }
        None
    }
}

/// A reference kept in the table itself or in a junction of it.
pub struct RefLeaf<'a> {
    /// The field's name with the groups around it.
    pub path: String,
    pub field: &'a FieldDefinition,
    pub localized: bool,
}

/// The mathematical value of a [`RefLeaf`].
#[verifier::ext_equal]
pub ghost struct RefLeafView {
    pub path: Seq<char>,
    pub field: FieldDefinition,
    pub localized: bool,
}

impl<'a> DeepView for RefLeaf<'a> {
    type V = RefLeafView;

    open spec fn deep_view(&self) -> RefLeafView {
        RefLeafView { path: self.path@, field: *self.field, localized: self.localized }
    }
}

/// A column a reference to one document keeps a value in, and the locale the rows
/// made from it belong to.
pub type RefColumn = (Seq<char>, Option<Seq<char>>);

/// The columns of a localized reference from the `i`-th locale on.
pub open spec fn ref_columns_from(
    path: Seq<char>,
    locales: Seq<Seq<char>>,
    i: int,
    done: Seq<RefColumn>,
) -> Result<Seq<RefColumn>, ErrorView>
    decreases locales.len() - i,
{
    if i < 0 || i >= locales.len() {
        Ok(done)
    } else {
        match locale_column_name(path, locales[i]) {
            Err(e) => Err(e),
            Ok(column) => ref_columns_from(
                path,
                locales,
                i + 1,
                done.push((column, Some(locales[i]))),
            ),
        }
    }
}

impl RefLeafView {
    /// How the reference keeps its values.
    pub open spec fn shape(self) -> Shape {
        Shape {
            has_many: !self.field.in_parent(),
            localized: self.localized,
            polymorphic: match self.field.relationship {
                Some(rc) => rc.polymorphic_spec(),
                None => false,
            },
        }
    }

    /// The columns that hold the value where it is one.
    pub open spec fn columns(self, locales: Seq<Seq<char>>) -> Result<Seq<RefColumn>, ErrorView> {
        if self.localized {
            ref_columns_from(self.path, locales, 0, Seq::empty())
        } else {
            Ok(seq![(self.path, None)])
        }
    }
}

impl<'a> RefLeaf<'a> {
    /// How the reference keeps its values.
    pub fn shape(&self) -> (r: Shape)
        ensures
            r == self.deep_view().shape(),
    {
        Shape {
            has_many: !self.field.has_parent_column(),
            localized: self.localized,
            polymorphic: match &self.field.relationship {
                Some(rc) => rc.is_polymorphic(),
                None => false,
            },
        }
    }

    fn columns(&self, locales: &Vec<String>) -> (r: Result<
        Vec<(String, Option<String>)>,
        DbError,
    >)
        ensures
            out(r) == self.deep_view().columns(locales.deep_view()),
    {
        let mut columns: Vec<(String, Option<String>)> = Vec::new();
        assert(columns.deep_view() =~= Seq::<RefColumn>::empty());
        if !self.localized {
            push_item(&mut columns, (self.path.clone(), None));
            assert(columns.deep_view() =~= seq![(self.path@, None::<Seq<char>>)]);
            return Ok(columns);
        }
        let ghost all = locales.deep_view();
        let mut i: usize = 0;
        while i < locales.len()
            invariant
                i <= locales.len(),
                all == locales.deep_view(),
                self.localized,
                ref_columns_from(self.path@, all, 0, Seq::empty()) == ref_columns_from(
                    self.path@,
                    all,
                    i as int,
                    columns.deep_view(),
                ),
            decreases locales.len() - i,
        {
            assert(all[i as int] == locales@[i as int]@);
            let column = locale_column(self.path.as_str(), locales[i].as_str())?;
            push_item(&mut columns, (column, Some(locales[i].clone())));
            i += 1;
        }
        Ok(columns)
    }
}

/// The references among some leaves, in order.
pub open spec fn references(found: Seq<LeafView>, enabled: bool) -> Seq<RefLeafView>
    decreases found.len(),
{
    if found.len() == 0 {
        Seq::empty()
    } else {
        let leaf = found.last();
        let before = references(found.drop_last(), enabled);
        match leaf.field.field_type {
            FieldType::Relationship | FieldType::Upload => before.push(
                RefLeafView {
                    path: leaf.path(),
                    field: leaf.field,
                    localized: leaf.localized() && enabled,
                },
            ),
            _ => before,
        }
    }
}

/// The references of a definition, in order. Those inside an array's or a block's
/// row are kept in the row and are left out.
pub open spec fn ref_leaves_of(fields: Seq<FieldDefinition>, enabled: bool) -> Seq<RefLeafView> {
    references(leaves(fields, Seq::empty(), false), enabled)
}

/// The references of a definition, in order.
pub fn ref_leaves<'a>(fields: &'a Vec<FieldDefinition>, locale_config: &LocaleConfig) -> (r: Vec<
    RefLeaf<'a>,
>)
    ensures
        r.deep_view() == ref_leaves_of(fields@, locale_config.enabled()),
{
    let found = walk_leaf_fields(fields);
    let enabled = locale_config.is_enabled();
    let ghost all = found.deep_view();
    let mut refs: Vec<RefLeaf<'a>> = Vec::new();
    let mut i: usize = 0;
    assert(all.take(0) =~= Seq::<LeafView>::empty());
    assert(refs.deep_view() =~= Seq::<RefLeafView>::empty());
    while i < found.len()
        invariant
            i <= found.len(),
            all == found.deep_view(),
            refs.deep_view() == references(all.take(i as int), enabled),
        decreases found.len() - i,
    {
        assert(all.take(i + 1).drop_last() =~= all.take(i as int));
        assert(all.take(i + 1).last() == found@[i as int].deep_view());
        let leaf = &found[i];
        match leaf.field.field_type {
            FieldType::Relationship | FieldType::Upload => push_item(
                &mut refs,
                RefLeaf {
                    path: leaf.path(),
                    field: leaf.field,
                    localized: leaf.localized() && enabled,
                },
            ),
            _ => {},
        }
        i += 1;
    }
    assert(all.take(i as int) =~= all);
    refs
}

/// The recorded form of one reference.
pub open spec fn shape_part(leaf: RefLeafView) -> Seq<char> {
    leaf.path + "="@ + encoded(leaf.shape())
}

/// The recorded forms of references.
pub open spec fn shape_parts(refs: Seq<RefLeafView>) -> Seq<Seq<char>> {
    Seq::new(refs.len(), |i: int| shape_part(refs[i]))
}

/// The recorded form of a table's references, by path.
pub open spec fn shape_record(refs: Seq<RefLeafView>) -> Seq<char> {
    join(sorted(shape_parts(refs)), ","@)
}

/// The recorded form of a table's references, by path.
pub fn shape_value<'a>(refs: &Vec<RefLeaf<'a>>) -> (r: String)
    ensures
        r@ == shape_record(refs.deep_view()),
{
    let ghost wanted = shape_parts(refs.deep_view());
    let mut parts: Vec<String> = Vec::new();
    let mut i: usize = 0;
    while i < refs.len()
        invariant
            i <= refs.len(),
            wanted == shape_parts(refs.deep_view()),
            parts.deep_view() =~= wanted.take(i as int),
        decreases refs.len() - i,
    {
        assert(refs.deep_view()[i as int] == refs@[i as int].deep_view());
        let shape = refs[i].shape().encode();
        push_item(&mut parts, cat3(refs[i].path.as_str(), "=", shape.as_str()));
        i += 1;
    }
    assert(parts.deep_view() =~= wanted);
    join_with(&sort_texts(&parts), ",")
}

/// The path and shape one recorded form stands for.
pub open spec fn read_part(part: Seq<char>) -> Option<(Seq<char>, Shape)> {
    match find_from(part, '=', 0) {
        None => None,
        Some(i) => match decoded(part.skip(i + 1)) {
            Some(shape) => Some((part.take(i), shape)),
            None => None,
        },
    }
}

/// The paths and shapes that recorded forms stand for.
pub open spec fn read_parts(parts: Seq<Seq<char>>) -> Seq<(Seq<char>, Shape)>
    decreases parts.len(),
{
    if parts.len() == 0 {
        Seq::empty()
    } else {
        let before = read_parts(parts.drop_last());
        match read_part(parts.last()) {
            Some(entry) => before.push(entry),
            None => before,
        }
    }
}

/// The shape recorded under a path.
pub open spec fn shape_under(recorded: Seq<(Seq<char>, Shape)>, path: Seq<char>) -> Option<Shape>
    decreases recorded.len(),
{
    if recorded.len() == 0 {
        None
    } else if recorded.last().0 == path {
        Some(recorded.last().1)
    } else {
        shape_under(recorded.drop_last(), path)
    }
}

/// The mathematical value of read-back shapes.
pub open spec fn recorded_view(recorded: Seq<(String, Shape)>) -> Seq<(Seq<char>, Shape)> {
    Seq::new(recorded.len(), |i: int| (recorded[i].0@, recorded[i].1))
}

fn parse_part(part: &str) -> (r: Option<(String, Shape)>)
    ensures
        match r {
            Some((path, shape)) => read_part(part@) == Some((path@, shape)),
            None => read_part(part@) is None,
        },
{
    match find_char(part, '=', 0) {
        None => None,
        Some(i) => {
            let n: usize = part.unicode_len();
            let tail = part.substring_char(i + 1, n);
            assert(tail@ =~= part@.skip(i + 1));
            let path = part.substring_char(0, i);
            assert(path@ =~= part@.take(i as int));
            match Shape::decode(tail) {
                Some(shape) => Some((path.to_owned(), shape)),
                None => None,
            }
        },
    }
}

/// The paths and shapes a recorded value stands for.
pub fn parse_shape_value(value: &str) -> (r: Vec<(String, Shape)>)
    ensures
        recorded_view(r@) == read_parts(pieces(value@, ',')),
{
    let parts = split(value, ',');
    let ghost all = parts.deep_view();
    let mut recorded: Vec<(String, Shape)> = Vec::new();
    let mut i: usize = 0;
    assert(all.take(0) =~= Seq::<Seq<char>>::empty());
    assert(recorded_view(recorded@) =~= Seq::<(Seq<char>, Shape)>::empty());
    while i < parts.len()
        invariant
            i <= parts.len(),
            all == parts.deep_view(),
            recorded_view(recorded@) == read_parts(all.take(i as int)),
        decreases parts.len() - i,
    {
        assert(all.take(i + 1).drop_last() =~= all.take(i as int));
        assert(all.take(i + 1).last() == parts@[i as int]@);
        match parse_part(parts[i].as_str()) {
            Some(entry) => {
                let ghost before = recorded@;
                recorded.push(entry);
                assert(recorded_view(recorded@) =~= recorded_view(before).push(
                    (entry.0@, entry.1),
                ));
            },
            None => {},
        }
        i += 1;
    }
    assert(all.take(i as int) =~= all);
    recorded
}

fn find_shape(recorded: &Vec<(String, Shape)>, path: &str) -> (r: Option<Shape>)
    ensures
        r == shape_under(recorded_view(recorded@), path@),
{
    let ghost all = recorded_view(recorded@);
    let mut found: Option<Shape> = None;
    let mut i: usize = 0;
    assert(all.take(0) =~= Seq::<(Seq<char>, Shape)>::empty());
    while i < recorded.len()
        invariant
            i <= recorded.len(),
            all == recorded_view(recorded@),
            found == shape_under(all.take(i as int), path@),
        decreases recorded.len() - i,
    {
        assert(all.take(i + 1).drop_last() =~= all.take(i as int));
        assert(all.take(i + 1).last() == (recorded@[i as int].0@, recorded@[i as int].1));
        if same(recorded[i].0.as_str(), path) {
            found = Some(recorded[i].1);
        }
        i += 1;
    }
    assert(all.take(i as int) =~= all);
    found
}

/// The collection and id a reference with several targets is stored as.
pub open spec fn poly_parts(value: Seq<char>) -> Option<(Seq<char>, Seq<char>)> {
    match find_from(value, '/', 0) {
        None => None,
        Some(i) => if i == 0 || i + 1 >= value.len() {
            None
        } else {
            Some((value.take(i), value.skip(i + 1)))
        },
    }
}

fn parse_poly_ref(value: &str) -> (r: Option<(String, String)>)
    ensures
        r.deep_view() == poly_parts(value@),
{
    let n: usize = value.unicode_len();
    match find_char(value, '/', 0) {
        None => None,
        Some(i) => if i == 0 || i + 1 >= n {
            None
        } else {
            let collection = value.substring_char(0, i);
            let id = value.substring_char(i + 1, n);
            assert(collection@ =~= value@.take(i as int));
            assert(id@ =~= value@.skip(i + 1));
            Some((collection.to_owned(), id.to_owned()))
        },
    }
}

/// The parameters of the row made from a stored value; none, where it is no
/// reference.
pub open spec fn row_params(
    parent: Seq<char>,
    value: Seq<char>,
    polymorphic: bool,
    locale: Option<Seq<char>>,
) -> Option<Seq<DbValueView>> {
    if value.len() == 0 {
        None
    } else {
        let keyed = if polymorphic {
            match poly_parts(value) {
                None => None,
                Some((collection, id)) => Some(
                    seq![
                        DbValueView::Text(parent),
                        DbValueView::Text(id),
                        DbValueView::Text(collection),
                    ],
                ),
            }
        } else {
            Some(seq![DbValueView::Text(parent), DbValueView::Text(value)])
        };
        match (keyed, locale) {
            (Some(params), Some(code)) => Some(params.push(DbValueView::Text(code))),
            (keyed, None) => keyed,
            (None, Some(_)) => None,
        }
    }
}

/// The parameters of the row made from a stored value; none, where it is no
/// reference.
pub fn junction_params(parent: &str, value: &str, polymorphic: bool, locale: Option<&str>) -> (r:
    Option<Vec<DbValue>>)
    ensures
        r.deep_view() == row_params(
            parent@,
            value@,
            polymorphic,
            match locale {
                Some(l) => Some(l@),
                None => None,
            },
        ),
{
    if value.is_empty() {
        return None;
    }
    let mut params: Vec<DbValue> = Vec::new();
    assert(params.deep_view() =~= Seq::<DbValueView>::empty());
    push_item(&mut params, text_value(parent));
    if polymorphic {
        match parse_poly_ref(value) {
            None => {
                return None;
            },
            Some((collection, id)) => {
                push_item(&mut params, text_value(id.as_str()));
                push_item(&mut params, text_value(collection.as_str()));
                assert(params.deep_view() =~= seq![
                    DbValueView::Text(parent@),
                    DbValueView::Text(id@),
                    DbValueView::Text(collection@),
                ]);
            },
        }
    } else {
        push_item(&mut params, text_value(value));
        assert(params.deep_view() =~= seq![
            DbValueView::Text(parent@),
            DbValueView::Text(value@),
        ]);
    }
    if let Some(code) = locale {
        push_item(&mut params, text_value(code));
    }
    Some(params)
}

/// The columns of a row made from a stored value, its order left out.
pub open spec fn insert_columns(polymorphic: bool, localized: bool) -> Seq<char> {
    "parent_id, related_id"@ + (if polymorphic {
        ", related_collection"@
    } else {
        ""@
    }) + (if localized {
        ", _locale"@
    } else {
        ""@
    })
}

/// The parameters of a row made from a stored value, in order.
pub open spec fn insert_placeholders(dialect: Dialect, polymorphic: bool, localized: bool) -> Seq<
    char,
> {
    placeholder_text(dialect, 1) + ", "@ + placeholder_text(dialect, 2) + (if polymorphic
        && localized {
        ", "@ + placeholder_text(dialect, 3) + ", "@ + placeholder_text(dialect, 4)
    } else if polymorphic || localized {
        ", "@ + placeholder_text(dialect, 3)
    } else {
        ""@
    })
}

/// The statement inserting a row made from a stored value, at order 0.
pub open spec fn insert_row_sql(
    dialect: Dialect,
    junction: Seq<char>,
    polymorphic: bool,
    localized: bool,
) -> Seq<char> {
    "INSERT INTO "@ + quoted(junction) + " ("@ + insert_columns(polymorphic, localized)
        + ", _order) VALUES ("@ + insert_placeholders(dialect, polymorphic, localized) + ", 0)"@
}

/// The statement inserting a row made from a stored value, at order 0.
pub fn junction_insert_sql(
    dialect: Dialect,
    junction: &str,
    polymorphic: bool,
    localized: bool,
) -> (r: String)
    ensures
        r@ == insert_row_sql(dialect, junction@, polymorphic, localized),
{
    let columns = cat3(
        "parent_id, related_id",
        if polymorphic {
            ", related_collection"
        } else {
            ""
        },
        if localized {
            ", _locale"
        } else {
            ""
        },
    );
    let p1 = placeholder(dialect, 1);
    let p2 = placeholder(dialect, 2);
    let p3 = placeholder(dialect, 3);
    let p4 = placeholder(dialect, 4);
    let rest = if polymorphic && localized {
        cat4(", ", p3.as_str(), ", ", p4.as_str())
    } else if polymorphic || localized {
        cat2(", ", p3.as_str())
    } else {
        "".to_owned()
    };
    let placeholders = cat4(p1.as_str(), ", ", p2.as_str(), rest.as_str());
    let junction = quote_ident(junction);
    cat7(
        "INSERT INTO ",
        junction.as_str(),
        " (",
        columns.as_str(),
        ", _order) VALUES (",
        placeholders.as_str(),
        ", 0)",
    )
}

/// What the operator is told of a stored value that is no reference.
pub open spec fn not_a_reference(
    table: Seq<char>,
    column: Seq<char>,
    parent: Seq<char>,
    value: Seq<char>,
) -> Seq<char> {
    "Not carrying '"@ + value + "' of '"@ + table + "."@ + column + "' for "@ + parent
        + ": not a reference"@
}

/// What is made of the rows of a page: the parameters of the rows to insert, and
/// the warnings.
pub open spec fn carried(
    rows: Seq<DbRowView>,
    table: Seq<char>,
    column: Seq<char>,
    polymorphic: bool,
    locale: Option<Seq<char>>,
) -> (Seq<Seq<DbValueView>>, Seq<Seq<char>>)
    decreases rows.len(),
{
    if rows.len() == 0 {
        (Seq::empty(), Seq::empty())
    } else {
        let (params, warnings) = carried(rows.drop_last(), table, column, polymorphic, locale);
        match (rows.last().text_at(0), rows.last().text_at(1)) {
            (Some(parent), Some(value)) => match row_params(parent, value, polymorphic, locale) {
                Some(row) => (params.push(row), warnings),
                None => (params, warnings.push(not_a_reference(table, column, parent, value))),
            },
            _ => (params, warnings),
        }
    }
}

/// The session after several warnings.
pub open spec fn all_warned(s: SessionView, warnings: Seq<Seq<char>>) -> SessionView {
    SessionView { warnings: s.warnings + warnings, ..s }
}

/// A column on its way into a junction.
pub ghost struct CopyView {
    pub table: Seq<char>,
    pub junction: Seq<char>,
    pub column: Seq<char>,
    pub polymorphic: bool,
    pub locale: Option<Seq<char>>,
}

impl CopyView {
    /// The rows of the column.
    pub open spec fn scan(self) -> ScanView {
        ScanView { table: self.table, columns: seq![self.column], active_only: false }
    }
}

/// Inserts a row for each document of a page; says how many were.
pub open spec fn copy_page_step(s: SessionView, copy: CopyView, rows: Seq<DbRowView>) -> Step<nat> {
    let (params, warnings) = carried(
        rows,
        copy.table,
        copy.column,
        copy.polymorphic,
        copy.locale,
    );
    let (s1, r) = execute_many_step(
        all_warned(s, warnings),
        insert_row_sql(s.dialect, copy.junction, copy.polymorphic, copy.locale is Some),
        params,
    );
    (
        s1,
        match r {
            Err(e) => Err(e),
            Ok(_) => Ok(params.len()),
        },
    )
}

/// Inserts a row for each document of a page and of those behind it, `n` having been
/// inserted before; says how many are inserted in all.
pub open spec fn copy_pages(s: SessionView, copy: CopyView, page: PageView, n: nat) -> Step<nat>
    decreases answers_left(s),
{
    let (s1, r) = copy_page_step(s, copy, page.rows);
    match r {
        Err(e) => (s1, Err(e)),
        Ok(more) => match page.next {
            None => (s1, Ok(together(n, more))),
            Some(after) => {
                let (s2, next) = page_step(s1, copy.scan(), Some(after));
                match next {
                    Err(e) => (s2, Err(e)),
                    Ok(next) => copy_pages(s2, copy, next, together(n, more)),
                }
            },
        },
    }
}

proof fn another_page_costs_an_answer(
    s: SessionView,
    copy: CopyView,
    rows: Seq<DbRowView>,
    after: Seq<char>,
)
    ensures
        ({
            let s1 = copy_page_step(s, copy, rows).0;
            let (s2, next) = page_step(s1, copy.scan(), Some(after));
            next is Ok ==> answers_left(s2) < answers_left(s)
        }),
{
}

/// Inserts a row for each document that has a value in the column; says how many were.
pub open spec fn copy_column_step(s: SessionView, copy: CopyView) -> Step<nat> {
    let (s1, page) = first_page_step(s, copy.scan());
    match page {
        Err(e) => (s1, Err(e)),
        Ok(page) => copy_pages(s1, copy, page, 0),
    }
}

struct Copy<'a> {
    table: &'a str,
    junction: &'a str,
    column: &'a str,
    polymorphic: bool,
    locale: Option<&'a str>,
}

impl<'a> Copy<'a> {
    spec fn view(self) -> CopyView {
        CopyView {
            table: self.table@,
            junction: self.junction@,
            column: self.column@,
            polymorphic: self.polymorphic,
            locale: match self.locale {
                Some(l) => Some(l@),
                None => None,
            },
        }
    }
}

fn copy_page<'a>(conn: &mut Session, copy: &Copy<'a>, rows: &Vec<DbRow>) -> (r: Result<
    usize,
    DbError,
>)
    ensures
        (final(conn)@, count_out(r)) == copy_page_step(old(conn)@, copy.view(), rows.deep_view()),
{
    let ghost all = rows.deep_view();
    let ghost start = conn@;
    let ghost view = copy.view();
    let mut params: Vec<Vec<DbValue>> = Vec::new();
    let mut i: usize = 0;
    assert(all.take(0) =~= Seq::<DbRowView>::empty());
    assert(params.deep_view() =~= Seq::<Seq<DbValueView>>::empty());
    assert(all_warned(start, Seq::empty()) =~= start);
    while i < rows.len()
        invariant
            i <= rows.len(),
            all == rows.deep_view(),
            view == copy.view(),
            (params.deep_view(), conn@) == ({
                let (p, w) = carried(
                    all.take(i as int),
                    view.table,
                    view.column,
                    view.polymorphic,
                    view.locale,
                );
                (p, all_warned(start, w))
            }),
        decreases rows.len() - i,
    {
        assert(all.take(i + 1).drop_last() =~= all.take(i as int));
        assert(all.take(i + 1).last() == rows@[i as int].deep_view());
        let ghost warnings = carried(
            all.take(i as int),
            view.table,
            view.column,
            view.polymorphic,
            view.locale,
        ).1;
        if let (Some(parent), Some(value)) = (rows[i].text_at(0), rows[i].text_at(1)) {
            match junction_params(
                parent.as_str(),
                value.as_str(),
                copy.polymorphic,
                copy.locale,
            ) {
                Some(row) => push_item(&mut params, row),
                None => {
                    let message = cat9(
                        "Not carrying '",
                        value.as_str(),
                        "' of '",
                        copy.table,
                        ".",
                        copy.column,
                        "' for ",
                        parent.as_str(),
                        ": not a reference",
                    );
                    let ghost text = message@;
                    conn.warn(message);
                    assert(conn@ =~= all_warned(start, warnings.push(text)));
                },
            }
        }
        i += 1;
    }
    assert(all.take(i as int) =~= all);
    let insert = junction_insert_sql(
        conn.dialect(),
        copy.junction,
        copy.polymorphic,
        copy.locale.is_some(),
    );
    let count: usize = params.len();
    conn.execute_many(insert, params)?;
    Ok(count)
}

fn copy_column<'a>(conn: &mut Session, copy: &Copy<'a>) -> (r: Result<usize, DbError>)
    ensures
        (final(conn)@, count_out(r)) == copy_column_step(old(conn)@, copy.view()),
{
    let scan = Scan::of_column(copy.table, copy.column);
    let ghost view = copy.view();
    let mut page = first_page(conn, &scan)?;
    let ghost start = conn@;
    let ghost first = page.deep_view();
    let mut copied: usize = 0;
    loop
        invariant
            view == copy.view(),
            scan.deep_view() == view.scan(),
            scan.columns@.len() == 1,
            copy_pages(start, view, first, 0) == copy_column_step(old(conn)@, view),
            copy_pages(start, view, first, 0) == copy_pages(
                conn@,
                view,
                page.deep_view(),
                copied as nat,
            ),
        decreases answers_left(conn@),
    {
        let ghost here = conn@;
        let more: usize = copy_page(conn, copy, &page.rows)?;
        copied = count_together(copied, more);
        match &page.next {
            None => {
                return Ok(copied);
            },
            Some(after) => {
                proof {
                    another_page_costs_an_answer(here, view, page.deep_view().rows, after@);
                }
                let next = next_page(conn, &scan, after.as_str())?;
                page = next;
            },
        }
    }
}

/// Inserts rows for the columns from the `i`-th on, `n` having been inserted before; says
/// how many are inserted in all.
pub open spec fn copy_columns_from(
    s: SessionView,
    table: Seq<char>,
    junction: Seq<char>,
    polymorphic: bool,
    columns: Seq<RefColumn>,
    i: int,
    n: nat,
) -> Step<nat>
    decreases columns.len() - i,
{
    if i < 0 || i >= columns.len() {
        (s, Ok(n))
    } else {
        let (s1, r) = copy_column_step(
            s,
            CopyView {
                table,
                junction,
                column: columns[i].0,
                polymorphic,
                locale: columns[i].1,
            },
        );
        match r {
            Err(e) => (s1, Err(e)),
            Ok(more) => copy_columns_from(
                s1,
                table,
                junction,
                polymorphic,
                columns,
                i + 1,
                together(n, more),
            ),
        }
    }
}

/// What is said of values that went into a junction.
pub open spec fn carried_in(
    table: Seq<char>,
    path: Seq<char>,
    junction: Seq<char>,
    n: nat,
) -> Seq<char> {
    "Carried "@ + decimal(n) + " value(s) of '"@ + table + "."@ + path + "' into '"@ + junction
        + "' (turned has-many)"@
}

/// What is said of a junction whose values went into the columns.
pub open spec fn carried_out(table: Seq<char>, path: Seq<char>, junction: Seq<char>) -> Seq<char> {
    "Carried '"@ + junction + "' into '"@ + table + "."@ + path + "' (turned has-one)"@
}

/// A step that says how many values went into a junction, with that said.
pub open spec fn told_carried(
    step: Step<nat>,
    table: Seq<char>,
    path: Seq<char>,
    junction: Seq<char>,
) -> Step<()> {
    match step.1 {
        Err(e) => (step.0, Err(e)),
        Ok(n) => (step.0.noted(carried_in(table, path, junction, n)), Ok(())),
    }
}

/// Fills a junction anew from the columns.
pub open spec fn column_to_junction_step(
    s: SessionView,
    table: Seq<char>,
    junction: Seq<char>,
    leaf: RefLeafView,
    columns: Seq<RefColumn>,
) -> Step<()> {
    let (s1, r) = within(
        execute_step(s, "DELETE FROM "@ + quoted(junction), Seq::empty()),
        "Failed to clear '"@ + junction + "'"@,
    );
    match r {
        Err(e) => (s1, Err(e)),
        Ok(_) => told_carried(
            copy_columns_from(s1, table, junction, leaf.shape().polymorphic, columns, 0, 0),
            table,
            leaf.path,
            junction,
        ),
    }
}

/// The statement setting a column of every document to its one row's value, or to
/// nothing where it has none.
pub open spec fn refill_sql(
    dialect: Dialect,
    table: Seq<char>,
    junction: Seq<char>,
    column: Seq<char>,
    polymorphic: bool,
    localized: bool,
) -> Seq<char> {
    "UPDATE "@ + quoted(table) + " SET "@ + quoted(column) + " = (SELECT "@ + (if polymorphic {
        "j.related_collection || '/' || j.related_id"@
    } else {
        "j.related_id"@
    }) + " FROM "@ + quoted(junction) + " j WHERE j.parent_id = "@ + quoted(table) + ".id"@ + (
    if localized {
        " AND j._locale = "@ + placeholder_text(dialect, 1)
    } else {
        ""@
    }) + ")"@
}

fn refill_statement(
    dialect: Dialect,
    table: &str,
    junction: &str,
    column: &str,
    polymorphic: bool,
    localized: bool,
) -> (r: String)
    ensures
        r@ == refill_sql(dialect, table@, junction@, column@, polymorphic, localized),
{
    let table = quote_ident(table);
    let column = quote_ident(column);
    let junction = quote_ident(junction);
    let mut sql = cat6(
        "UPDATE ",
        table.as_str(),
        " SET ",
        column.as_str(),
        " = (SELECT ",
        if polymorphic {
            "j.related_collection || '/' || j.related_id"
        } else {
            "j.related_id"
        },
    );
    sql.append(" FROM ");
    sql.append(junction.as_str());
    sql.append(" j WHERE j.parent_id = ");
    sql.append(table.as_str());
    sql.append(".id");
    if localized {
        let p1 = placeholder(dialect, 1);
        let clause = cat2(" AND j._locale = ", p1.as_str());
        sql.append(clause.as_str());
    } else {
        sql.append("");
    }
    sql.append(")");
    sql
}

/// The statement listing documents that hold several values.
pub open spec fn multiple_sql(junction: Seq<char>, localized: bool) -> Seq<char> {
    let group = if localized {
        "parent_id, _locale"@
    } else {
        "parent_id"@
    };
    "SELECT DISTINCT parent_id FROM (SELECT "@ + group + " FROM "@ + quoted(junction)
        + " GROUP BY "@ + group
        + " HAVING COUNT(*) > 1) multi ORDER BY parent_id LIMIT 10"@
}

/// Why a reference that holds several values is not made one of one.
pub open spec fn several_values(
    table: Seq<char>,
    junction: Seq<char>,
    path: Seq<char>,
    ids: Seq<Seq<char>>,
) -> Seq<char> {
    "Field '"@ + path + "' of '"@ + table
        + "' is has-one now, but documents hold more than one value in '"@ + junction
        + "' (for example: "@ + join(ids, ", "@)
        + "). A has-one field keeps a single value: remove the extra values — or turn has_many back on — then start again."@
}

/// Refuses where a document holds several values.
pub open spec fn refuse_multiple_step(
    s: SessionView,
    table: Seq<char>,
    junction: Seq<char>,
    leaf: RefLeafView,
) -> Step<()> {
    let (s1, rows) = query_all_step(s, multiple_sql(junction, leaf.localized), Seq::empty());
    (
        s1,
        match rows {
            Err(e) => Err(e),
            Ok(rows) => {
                let ids = texts_in_column(rows, 0);
                if ids.len() == 0 {
                    Ok(())
                } else {
                    Err(ErrorView::Refused(several_values(table, junction, leaf.path, ids)))
                }
            },
        },
    )
}

fn refuse_multiple_values<'a>(
    conn: &mut Session,
    table: &str,
    junction: &str,
    leaf: &RefLeaf<'a>,
) -> (r: Result<(), DbError>)
    ensures
        (final(conn)@, out(r)) == refuse_multiple_step(
            old(conn)@,
            table@,
            junction@,
            leaf.deep_view(),
        ),
{
    let group = if leaf.localized {
        "parent_id, _locale"
    } else {
        "parent_id"
    };
    let quoted_junction = quote_ident(junction);
    let sql = cat7(
        "SELECT DISTINCT parent_id FROM (SELECT ",
        group,
        " FROM ",
        quoted_junction.as_str(),
        " GROUP BY ",
        group,
        " HAVING COUNT(*) > 1) multi ORDER BY parent_id LIMIT 10",
    );
    let rows = conn.query_all(sql, no_params())?;
    let ids = texts_at(&rows, 0);
    if ids.len() == 0 {
        return Ok(());
    }
    let names = join_with(&ids, ", ");
    Err(
        DbError::Refused(
            cat9(
                "Field '",
                leaf.path.as_str(),
                "' of '",
                table,
                "' is has-one now, but documents hold more than one value in '",
                junction,
                "' (for example: ",
                names.as_str(),
                "). A has-one field keeps a single value: remove the extra values — or turn has_many back on — then start again.",
            ),
        ),
    )
}

/// Fills the columns from the `i`-th on from the junction.
pub open spec fn refill_from(
    s: SessionView,
    table: Seq<char>,
    junction: Seq<char>,
    polymorphic: bool,
    columns: Seq<RefColumn>,
    i: int,
) -> Step<()>
    decreases columns.len() - i,
{
    if i < 0 || i >= columns.len() {
        (s, Ok(()))
    } else {
        let (s1, r) = within(
            execute_step(
                s,
                refill_sql(
                    s.dialect,
                    table,
                    junction,
                    columns[i].0,
                    polymorphic,
                    columns[i].1 is Some,
                ),
                match columns[i].1 {
                    Some(locale) => seq![DbValueView::Text(locale)],
                    None => Seq::empty(),
                },
            ),
            "Failed to carry '"@ + junction + "' into '"@ + table + "."@ + columns[i].0 + "'"@,
        );
        match r {
            Err(e) => (s1, Err(e)),
            Ok(_) => refill_from(s1, table, junction, polymorphic, columns, i + 1),
        }
    }
}

/// Fills the columns anew from the junction, refused where a document holds
/// several values.
pub open spec fn junction_to_column_step(
    s: SessionView,
    table: Seq<char>,
    junction: Seq<char>,
    leaf: RefLeafView,
    columns: Seq<RefColumn>,
) -> Step<()> {
    let (s1, r) = refuse_multiple_step(s, table, junction, leaf);
    match r {
        Err(e) => (s1, Err(e)),
        Ok(_) => {
            let (s2, r2) = refill_from(
                s1,
                table,
                junction,
                leaf.shape().polymorphic,
                columns,
                0,
            );
            match r2 {
                Err(e) => (s2, Err(e)),
                Ok(_) => (s2.noted(carried_out(table, leaf.path, junction)), Ok(())),
            }
        },
    }
}

fn column_to_junction<'a>(
    conn: &mut Session,
    table: &str,
    junction: &str,
    leaf: &RefLeaf<'a>,
    columns: &Vec<(String, Option<String>)>,
) -> (r: Result<(), DbError>)
    ensures
        (final(conn)@, out(r)) == column_to_junction_step(
            old(conn)@,
            table@,
            junction@,
            leaf.deep_view(),
            columns.deep_view(),
        ),
{
    let quoted_junction = quote_ident(junction);
    let cleared = conn.execute(cat2("DELETE FROM ", quoted_junction.as_str()), no_params());
    add_context(cleared, cat3("Failed to clear '", junction, "'").as_str())?;
    let polymorphic = leaf.shape().polymorphic;
    let ghost all = columns.deep_view();
    let mut carried: usize = 0;
    let mut i: usize = 0;
    while i < columns.len()
        invariant
            i <= columns.len(),
            all == columns.deep_view(),
            polymorphic == leaf.deep_view().shape().polymorphic,
            column_to_junction_step(old(conn)@, table@, junction@, leaf.deep_view(), all)
                == told_carried(
                copy_columns_from(
                    conn@,
                    table@,
                    junction@,
                    polymorphic,
                    all,
                    i as int,
                    carried as nat,
                ),
                table@,
                leaf.deep_view().path,
                junction@,
            ),
        decreases columns.len() - i,
    {
        assert(all[i as int] == columns@[i as int].deep_view());
        let locale = match &columns[i].1 {
            Some(code) => Some(code.as_str()),
            None => None,
        };
        let copy = Copy {
            table,
            junction,
            column: columns[i].0.as_str(),
            polymorphic,
            locale,
        };
        let more: usize = copy_column(conn, &copy)?;
        carried = count_together(carried, more);
        i += 1;
    }
    let count = decimal_text(carried as u64);
    let head = cat6("Carried ", count.as_str(), " value(s) of '", table, ".", leaf.path.as_str());
    conn.note(cat4(head.as_str(), "' into '", junction, "' (turned has-many)"));
    Ok(())
}

fn junction_to_column<'a>(
    conn: &mut Session,
    table: &str,
    junction: &str,
    leaf: &RefLeaf<'a>,
    columns: &Vec<(String, Option<String>)>,
) -> (r: Result<(), DbError>)
    ensures
        (final(conn)@, out(r)) == junction_to_column_step(
            old(conn)@,
            table@,
            junction@,
            leaf.deep_view(),
            columns.deep_view(),
        ),
{
    refuse_multiple_values(conn, table, junction, leaf)?;
    let polymorphic = leaf.shape().polymorphic;
    let ghost start = conn@;
    let ghost all = columns.deep_view();
    let mut i: usize = 0;
    while i < columns.len()
        invariant
            i <= columns.len(),
            all == columns.deep_view(),
            polymorphic == leaf.deep_view().shape().polymorphic,
            ({
                let (s2, r2) = refill_from(start, table@, junction@, polymorphic, all, 0);
                junction_to_column_step(
                    old(conn)@,
                    table@,
                    junction@,
                    leaf.deep_view(),
                    all,
                ) == match r2 {
                    Err(e) => (s2, Err(e)),
                    Ok(_) => (
                        s2.noted(carried_out(table@, leaf.deep_view().path, junction@)),
                        Ok::<(), ErrorView>(()),
                    ),
                }
            }),
            refill_from(start, table@, junction@, polymorphic, all, 0) == refill_from(
                conn@,
                table@,
                junction@,
                polymorphic,
                all,
                i as int,
            ),
        decreases columns.len() - i,
    {
        assert(all[i as int] == columns@[i as int].deep_view());
        let sql = refill_statement(
            conn.dialect(),
            table,
            junction,
            columns[i].0.as_str(),
            polymorphic,
            columns[i].1.is_some(),
        );
        let params = match &columns[i].1 {
            Some(locale) => one_param(locale.as_str()),
            None => no_params(),
        };
        let filled = conn.execute(sql, params);
        add_context(
            filled,
            cat7(
                "Failed to carry '",
                junction,
                "' into '",
                table,
                ".",
                columns[i].0.as_str(),
                "'",
            ).as_str(),
        )?;
        i += 1;
    }
    conn.note(
        cat7(
            "Carried '",
            junction,
            "' into '",
            table,
            ".",
            leaf.path.as_str(),
            "' (turned has-one)",
        ),
    );
    Ok(())
}

/// The columns that the table has.
pub open spec fn held_columns(columns: Seq<RefColumn>, existing: Seq<Seq<char>>) -> Seq<RefColumn>
    decreases columns.len(),
{
    if columns.len() == 0 {
        Seq::empty()
    } else if existing.contains(columns.last().0) {
        held_columns(columns.drop_last(), existing).push(columns.last())
    } else {
        held_columns(columns.drop_last(), existing)
    }
}

fn keep_held(columns: Vec<(String, Option<String>)>, existing: &Vec<String>) -> (r: Vec<
    (String, Option<String>),
>)
    ensures
        r.deep_view() == held_columns(columns.deep_view(), existing.deep_view()),
{
    let ghost all = columns.deep_view();
    let mut kept: Vec<(String, Option<String>)> = Vec::new();
    let mut i: usize = 0;
    assert(all.take(0) =~= Seq::<RefColumn>::empty());
    assert(kept.deep_view() =~= Seq::<RefColumn>::empty());
    while i < columns.len()
        invariant
            i <= columns.len(),
            all == columns.deep_view(),
            kept.deep_view() == held_columns(all.take(i as int), existing.deep_view()),
        decreases columns.len() - i,
    {
        assert(all.take(i + 1).drop_last() =~= all.take(i as int));
        assert(all.take(i + 1).last() == columns@[i as int].deep_view());
        if contains(existing, columns[i].0.as_str()) {
            let locale = match &columns[i].1 {
                Some(code) => Some(code.clone()),
                None => None,
            };
            push_item(&mut kept, (columns[i].0.clone(), locale));
        }
        i += 1;
    }
    assert(all.take(i as int) =~= all);
    kept
}

/// Why a reference that changes in two ways at once is refused.
pub open spec fn two_changes(table: Seq<char>, path: Seq<char>) -> Seq<char> {
    "Field '"@ + path + "' of '"@ + table
        + "' changed has_many together with localized or with its number of target collections — its stored values can only be carried across one of those changes at a time. Revert one of them, start once, then apply it."@
}

/// Carries the values between the columns the table has and the junction.
pub open spec fn carry_between_step(
    s: SessionView,
    table: Seq<char>,
    junction: Seq<char>,
    leaf: RefLeafView,
    locales: Seq<Seq<char>>,
) -> Step<()> {
    let (s1, existing) = table_columns_step(s, table);
    match existing {
        Err(e) => (s1, Err(e)),
        Ok(existing) => match leaf.columns(locales) {
            Err(e) => (s1, Err(e)),
            Ok(columns) => {
                let held = held_columns(columns, existing);
                if held.len() == 0 {
                    (s1, Ok(()))
                } else if leaf.shape().has_many {
                    column_to_junction_step(s1, table, junction, leaf, held)
                } else {
                    junction_to_column_step(s1, table, junction, leaf, held)
                }
            },
        },
    }
}

/// Carries the values of one reference, where it changed between one and many.
pub open spec fn carry_leaf_step(
    s: SessionView,
    table: Seq<char>,
    leaf: RefLeafView,
    before: Shape,
    locales: Seq<Seq<char>>,
) -> Step<()> {
    let now = leaf.shape();
    if before.has_many == now.has_many {
        (s, Ok(()))
    } else if before.localized != now.localized || before.polymorphic != now.polymorphic {
        (s, Err(ErrorView::Refused(two_changes(table, leaf.path))))
    } else {
        let junction = join_table_name(table, leaf.path);
        let (s1, exists) = table_exists_step(s, junction);
        match exists {
            Err(e) => (s1, Err(e)),
            Ok(false) => (s1, Ok(())),
            Ok(true) => carry_between_step(s1, table, junction, leaf, locales),
        }
    }
}

fn carry_leaf<'a>(
    conn: &mut Session,
    table: &str,
    leaf: &RefLeaf<'a>,
    before: Shape,
    locales: &Vec<String>,
) -> (r: Result<(), DbError>)
    ensures
        (final(conn)@, out(r)) == carry_leaf_step(
            old(conn)@,
            table@,
            leaf.deep_view(),
            before,
            locales.deep_view(),
        ),
{
    let now = leaf.shape();
    if before.has_many == now.has_many {
        return Ok(());
    }
    if before.localized != now.localized || before.polymorphic != now.polymorphic {
        return Err(
            DbError::Refused(
                cat5(
                    "Field '",
                    leaf.path.as_str(),
                    "' of '",
                    table,
                    "' changed has_many together with localized or with its number of target collections — its stored values can only be carried across one of those changes at a time. Revert one of them, start once, then apply it.",
                ),
            ),
        );
    }
    let junction = join_table(table, leaf.path.as_str());
    if !table_exists(conn, junction.as_str())? {
        return Ok(());
    }
    let existing = get_table_columns(conn, table)?;
    let columns = leaf.columns(locales)?;
    let columns = keep_held(columns, &existing);
    if columns.len() == 0 {
        return Ok(());
    }
    if now.has_many {
        column_to_junction(conn, table, junction.as_str(), leaf, &columns)
    } else {
        junction_to_column(conn, table, junction.as_str(), leaf, &columns)
    }
}

/// Carries the references from the `i`-th on that have a recorded shape.
pub open spec fn carry_leaves_from(
    s: SessionView,
    table: Seq<char>,
    refs: Seq<RefLeafView>,
    recorded: Seq<(Seq<char>, Shape)>,
    locales: Seq<Seq<char>>,
    i: int,
) -> Step<()>
    decreases refs.len() - i,
{
    if i < 0 || i >= refs.len() {
        (s, Ok(()))
    } else {
        match shape_under(recorded, refs[i].path) {
            None => carry_leaves_from(s, table, refs, recorded, locales, i + 1),
            Some(before) => {
                let (s1, r) = carry_leaf_step(s, table, refs[i], before, locales);
                match r {
                    Err(e) => (s1, Err(e)),
                    Ok(_) => carry_leaves_from(s1, table, refs, recorded, locales, i + 1),
                }
            },
        }
    }
}

/// Carries the references of one table that changed since the record, and records
/// what they are now. Where nothing is on record they are only recorded.
pub open spec fn carry_owner_step(
    s: SessionView,
    table: Seq<char>,
    fields: Seq<FieldDefinition>,
    config: LocaleConfig,
) -> Step<()> {
    let refs = ref_leaves_of(fields, config.enabled());
    let current = shape_record(refs);
    let (s1, previous) = meta::get_step(s, cardinality_key(table));
    match previous {
        Err(e) => (s1, Err(e)),
        Ok(None) => meta::upsert_step(s1, cardinality_key(table), current),
        Ok(Some(previous)) => if previous == current {
            (s1, Ok(()))
        } else {
            let (s2, r) = carry_leaves_from(
                s1,
                table,
                refs,
                read_parts(pieces(previous, ',')),
                config.locales.deep_view(),
                0,
            );
            match r {
                Err(e) => (s2, Err(e)),
                Ok(_) => meta::upsert_step(s2, cardinality_key(table), current),
            }
        },
    }
}

fn carry_leaves<'a>(
    conn: &mut Session,
    table: &str,
    refs: &Vec<RefLeaf<'a>>,
    recorded: &Vec<(String, Shape)>,
    locales: &Vec<String>,
) -> (r: Result<(), DbError>)
    ensures
        (final(conn)@, out(r)) == carry_leaves_from(
            old(conn)@,
            table@,
            refs.deep_view(),
            recorded_view(recorded@),
            locales.deep_view(),
            0,
        ),
{
    let ghost all = refs.deep_view();
    let ghost known = recorded_view(recorded@);
    let ghost codes = locales.deep_view();
    let mut i: usize = 0;
    while i < refs.len()
        invariant
            i <= refs.len(),
            all == refs.deep_view(),
            known == recorded_view(recorded@),
            codes == locales.deep_view(),
            carry_leaves_from(old(conn)@, table@, all, known, codes, 0) == carry_leaves_from(
                conn@,
                table@,
                all,
                known,
                codes,
                i as int,
            ),
        decreases refs.len() - i,
    {
        assert(all[i as int] == refs@[i as int].deep_view());
        if let Some(before) = find_shape(recorded, refs[i].path.as_str()) {
            carry_leaf(conn, table, &refs[i], before, locales)?;
        }
        i += 1;
    }
    Ok(())
}

fn carry_owner(
    conn: &mut Session,
    table: &str,
    fields: &Vec<FieldDefinition>,
    locale_config: &LocaleConfig,
) -> (r: Result<(), DbError>)
    ensures
        (final(conn)@, out(r)) == carry_owner_step(old(conn)@, table@, fields@, *locale_config),
{
    let refs = ref_leaves(fields, locale_config);
    let current = shape_value(&refs);
    let key = cat2("reference_cardinality:", table);
    match meta::get(conn, key.as_str())? {
        None => {},
        Some(previous) => {
            if same(previous.as_str(), current.as_str()) {
                return Ok(());
            }
            let recorded = parse_shape_value(previous.as_str());
            carry_leaves(conn, table, &refs, &recorded, &locale_config.locales)?;
        },
    }
    meta::upsert(conn, key.as_str(), current.as_str())
}

/// Carries the references of the collections from the `i`-th on.
pub open spec fn carry_collections_from(
    s: SessionView,
    collections: Seq<CollectionDefinition>,
    config: LocaleConfig,
    i: int,
) -> Step<()>
    decreases collections.len() - i,
{
    if i < 0 || i >= collections.len() {
        (s, Ok(()))
    } else {
        let (s1, r) = carry_owner_step(
            s,
            collections[i].slug@,
            collections[i].fields@,
            config,
        );
        match r {
            Err(e) => (s1, Err(e)),
            Ok(_) => carry_collections_from(s1, collections, config, i + 1),
        }
    }
}

/// Carries the references of the globals from the `i`-th on.
pub open spec fn carry_globals_from(
    s: SessionView,
    globals: Seq<GlobalDefinition>,
    config: LocaleConfig,
    i: int,
) -> Step<()>
    decreases globals.len() - i,
{
    if i < 0 || i >= globals.len() {
        (s, Ok(()))
    } else {
        let (s1, r) = carry_owner_step(
            s,
            global_table_name(globals[i].slug@),
            globals[i].fields@,
            config,
        );
        match r {
            Err(e) => (s1, Err(e)),
            Ok(_) => carry_globals_from(s1, globals, config, i + 1),
        }
    }
}

/// Carries the references of every collection, then of every global.
pub open spec fn carry_step(s: SessionView, registry: Registry, config: LocaleConfig) -> Step<()> {
    let (s1, r) = carry_collections_from(s, registry.collections@, config, 0);
    match r {
        Err(e) => (s1, Err(e)),
        Ok(_) => carry_globals_from(s1, registry.globals@, config, 0),
    }
}

fn carry_collections(conn: &mut Session, registry: &Registry, locale_config: &LocaleConfig) -> (r:
    Result<(), DbError>)
    ensures
        (final(conn)@, out(r)) == carry_collections_from(
            old(conn)@,
            registry.collections@,
            *locale_config,
            0,
        ),
{
    let collections = &registry.collections;
    let mut i: usize = 0;
    while i < collections.len()
        invariant
            i <= collections.len(),
            collections == registry.collections,
            carry_collections_from(old(conn)@, collections@, *locale_config, 0)
                == carry_collections_from(conn@, collections@, *locale_config, i as int),
        decreases collections.len() - i,
    {
        carry_owner(
            conn,
            collections[i].slug.as_str(),
            &collections[i].fields,
            locale_config,
        )?;
        i += 1;
    }
    Ok(())
}

/// Carries the values of every reference that changed between one and many since
/// the last sync, and records what each is now.
pub fn carry_if_needed(conn: &mut Session, registry: &Registry, locale_config: &LocaleConfig) -> (r:
    Result<(), DbError>)
    ensures
        (final(conn)@, out(r)) == carry_step(old(conn)@, *registry, *locale_config),
{
    carry_collections(conn, registry, locale_config)?;
    let globals = &registry.globals;
    let ghost start = conn@;
    let mut i: usize = 0;
    while i < globals.len()
        invariant
            i <= globals.len(),
            globals == registry.globals,
            carry_globals_from(start, globals@, *locale_config, 0) == carry_step(
                old(conn)@,
                *registry,
                *locale_config,
            ),
            carry_globals_from(start, globals@, *locale_config, 0) == carry_globals_from(
                conn@,
                globals@,
                *locale_config,
                i as int,
            ),
        decreases globals.len() - i,
    {
        let table = global_table(globals[i].slug.as_str());
        carry_owner(conn, table.as_str(), &globals[i].fields, locale_config)?;
        i += 1;
    }
    Ok(())
}

proof fn a_form_has_no_comma(shape: Shape)
    ensures
        !encoded(shape).contains(','),
{
    reveal_strlit("many");
    reveal_strlit("one");
    reveal_strlit("+loc");
    reveal_strlit("+poly");
    reveal_strlit("");
}

/// A shape is read back from its recorded form.
pub proof fn shapes_are_read_back(shape: Shape)
    ensures
        decoded(encoded(shape)) == Some(shape),
{
    let found = choose|other: Shape| #[trigger] encoded(other) == encoded(shape);
    assert(encoded(shape) == encoded(shape));
    forms_differ(found, shape);
}

/// Only recorded forms are read: a text that stands for a shape is the form of that
/// shape.
pub proof fn only_recorded_forms_are_read(value: Seq<char>, shape: Shape)
    ensures
        decoded(value) == Some(shape) <==> value == encoded(shape),
{
    shapes_are_read_back(shape);
}

/// Whether the references of a table can be told apart in its record: no path is
/// there twice or holds a comma or an equals sign. Paths cannot be otherwise.
pub open spec fn distinct_paths(refs: Seq<RefLeafView>) -> bool {
    &&& forall|i: int|
        0 <= i < refs.len() ==> !(#[trigger] refs[i]).path.contains(',')
            && !refs[i].path.contains('=')
    &&& forall|i: int, j: int|
        0 <= i < j < refs.len() ==> (#[trigger] refs[i]).path != (#[trigger] refs[j]).path
}

proof fn a_part_is_read_back(leaf: RefLeafView)
    requires
        !leaf.path.contains('='),
        !leaf.path.contains(','),
    ensures
        read_part(shape_part(leaf)) == Some((leaf.path, leaf.shape())),
        !shape_part(leaf).contains(','),
{
    reveal_strlit("=");
    assert("="@ =~= seq!['=']);
    let shape = encoded(leaf.shape());
    find_separator(leaf.path, '=', shape);
    let part = shape_part(leaf);
    assert(part.take(leaf.path.len() as int) =~= leaf.path);
    assert(part.skip(leaf.path.len() as int + 1) =~= shape);
    shapes_are_read_back(leaf.shape());
    a_form_has_no_comma(leaf.shape());
    contains_joined(leaf.path + "="@, shape, ',');
    contains_joined(leaf.path, "="@, ',');
}

proof fn parts_are_read_back(parts: Seq<Seq<char>>, refs: Seq<RefLeafView>)
    requires
        distinct_paths(refs),
        forall|k: int| 0 <= k < parts.len() ==> shape_parts(refs).contains(#[trigger] parts[k]),
    ensures
        read_parts(parts).len() == parts.len(),
        forall|k: int|
            0 <= k < parts.len() ==> exists|i: int|
                0 <= i < refs.len() && parts[k] == shape_part(#[trigger] refs[i])
                    && #[trigger] read_parts(parts)[k] == (refs[i].path, refs[i].shape()),
    decreases parts.len(),
{
    if parts.len() > 0 {
        let front = parts.drop_last();
        assert forall|k: int| 0 <= k < front.len() implies shape_parts(refs).contains(
            #[trigger] front[k],
        ) by {
            assert(front[k] == parts[k]);
        }
        parts_are_read_back(front, refs);
        let last = parts[parts.len() - 1];
        assert(shape_parts(refs).contains(last));
        let i = choose|i: int| 0 <= i < shape_parts(refs).len() && shape_parts(refs)[i] == last;
        assert(refs[i].path == refs[i].path);
        a_part_is_read_back(refs[i]);
        assert forall|k: int| 0 <= k < parts.len() implies exists|i: int|
            0 <= i < refs.len() && parts[k] == shape_part(#[trigger] refs[i])
                && #[trigger] read_parts(parts)[k] == (refs[i].path, refs[i].shape()) by {
            if k < front.len() {
                assert(read_parts(parts)[k] == read_parts(front)[k]);
                assert(front[k] == parts[k]);
            } else {
                assert(parts[k] == shape_part(refs[i]));
            }
        }
    }
}

proof fn shape_found(recorded: Seq<(Seq<char>, Shape)>, path: Seq<char>, shape: Shape)
    requires
        recorded.contains((path, shape)),
        forall|k: int|
            0 <= k < recorded.len() && (#[trigger] recorded[k]).0 == path ==> recorded[k].1
                == shape,
    ensures
        shape_under(recorded, path) == Some(shape),
    decreases recorded.len(),
{
    let k = choose|k: int| 0 <= k < recorded.len() && recorded[k] == (path, shape);
    assert(recorded.len() > 0);
    if recorded.last().0 != path {
        let front = recorded.drop_last();
        assert(front[k] == (path, shape));
        assert forall|j: int| 0 <= j < front.len() && (#[trigger] front[j]).0 == path implies front[j].1
            == shape by {
            assert(front[j] == recorded[j]);
        }
        shape_found(front, path, shape);
    } else {
        assert(recorded[recorded.len() - 1].0 == path);
    }
}

/// The shape of every reference of a table is read back from the table's record.
pub proof fn a_record_tells_every_shape(refs: Seq<RefLeafView>, i: int)
    requires
        distinct_paths(refs),
        0 <= i < refs.len(),
    ensures
        shape_under(read_parts(pieces(shape_record(refs), ',')), refs[i].path) == Some(
            refs[i].shape(),
        ),
{
    let own = shape_parts(refs);
    let parts = sorted(own);
    reveal_strlit(",");
    assert(","@ =~= seq![',']);
    sorted_is_sorted(own);
    assert forall|k: int| 0 <= k < parts.len() implies own.contains(#[trigger] parts[k]) by {
        sorted_holds_the_same(own, parts[k]);
        assert(parts.contains(parts[k]));
    }
    assert forall|k: int| 0 <= k < parts.len() implies !(#[trigger] parts[k]).contains(',') by {
        assert(own.contains(parts[k]));
        let j = choose|j: int| 0 <= j < own.len() && own[j] == parts[k];
        assert(refs[j].path == refs[j].path);
        a_part_is_read_back(refs[j]);
    }
    split_undoes_join(parts, ',');
    parts_are_read_back(parts, refs);
    let recorded = read_parts(parts);
    let wanted = shape_part(refs[i]);
    assert(own[i] == wanted);
    assert(own.contains(wanted));
    sorted_holds_the_same(own, wanted);
    let k = choose|k: int| 0 <= k < parts.len() && parts[k] == wanted;
    a_part_is_read_back(refs[i]);
    assert(recorded[k] == (refs[i].path, refs[i].shape())) by {
        let j = choose|j: int|
            0 <= j < refs.len() && parts[k] == shape_part(#[trigger] refs[j]) && recorded[k] == (
                refs[j].path,
                refs[j].shape(),
            );
        a_part_is_read_back(refs[j]);
    }
    assert(recorded.contains((refs[i].path, refs[i].shape())));
    assert forall|m: int| 0 <= m < recorded.len() && (#[trigger] recorded[m]).0
        == refs[i].path implies recorded[m].1 == refs[i].shape() by {
        let j = choose|j: int|
            0 <= j < refs.len() && parts[m] == shape_part(#[trigger] refs[j]) && recorded[m] == (
                refs[j].path,
                refs[j].shape(),
            );
        assert(j == i);
    }
    shape_found(recorded, refs[i].path, refs[i].shape());
}

/// A table whose references are what its record says is left alone, and one without
/// a record is only recorded.
pub proof fn an_unchanged_table_carries_nothing(
    s: SessionView,
    table: Seq<char>,
    fields: Seq<FieldDefinition>,
    config: LocaleConfig,
)
    ensures
        ({
            let current = shape_record(ref_leaves_of(fields, config.enabled()));
            let (s1, previous) = meta::get_step(s, cardinality_key(table));
            &&& previous == Ok::<Option<Seq<char>>, ErrorView>(Some(current))
                ==> carry_owner_step(s, table, fields, config) == (s1, Ok::<(), ErrorView>(()))
            &&& previous == Ok::<Option<Seq<char>>, ErrorView>(None) ==> carry_owner_step(
                s,
                table,
                fields,
                config,
            ) == meta::upsert_step(s1, cardinality_key(table), current)
        }),
{
}

/// A reference that changed in two ways at once is refused before anything is asked.
pub proof fn two_changes_at_once_are_refused(
    s: SessionView,
    table: Seq<char>,
    leaf: RefLeafView,
    before: Shape,
    locales: Seq<Seq<char>>,
)
    requires
        before.has_many != leaf.shape().has_many,
        before.localized != leaf.shape().localized || before.polymorphic
            != leaf.shape().polymorphic,
    ensures
        carry_leaf_step(s, table, leaf, before, locales) == (
            s,
            Err::<(), ErrorView>(ErrorView::Refused(two_changes(table, leaf.path))),
        ),
{
}

/// Where a document holds several values, a reference made one of one is refused
/// with nothing changed: nothing is sent but reads.
pub proof fn several_values_are_refused(
    s: SessionView,
    table: Seq<char>,
    junction: Seq<char>,
    leaf: RefLeafView,
    columns: Seq<RefColumn>,
    rows: Seq<DbRowView>,
)
    requires
        query_all_step(s, multiple_sql(junction, leaf.localized), Seq::empty()).1 == Ok::<
            Seq<DbRowView>,
            ErrorView,
        >(rows),
        texts_in_column(rows, 0).len() > 0,
    ensures
        junction_to_column_step(s, table, junction, leaf, columns).1 == Err::<(), ErrorView>(
            ErrorView::Refused(
                several_values(table, junction, leaf.path, texts_in_column(rows, 0)),
            ),
        ),
        only_reads(s, junction_to_column_step(s, table, junction, leaf, columns).0),
{
    let s1 = junction_to_column_step(s, table, junction, leaf, columns).0;
    assert(s.sent =~= s1.sent.take(s.sent.len() as int));
}

/// A reference with several targets is read back as the collection and the id it was
/// stored as, where the collection's name holds no slash.
pub proof fn references_are_read_back(collection: Seq<char>, id: Seq<char>)
    requires
        collection.len() > 0,
        id.len() > 0,
        !collection.contains('/'),
    ensures
        poly_parts(collection + seq!['/'] + id) == Some((collection, id)),
{
    find_separator(collection, '/', id);
    let value = collection + seq!['/'] + id;
    assert(value.take(collection.len() as int) =~= collection);
    assert(value.skip(collection.len() as int + 1) =~= id);
}

} // verus!
