//! The definitions a schema is made from: fields, collections, globals and the
//! locales their content is kept in.
use crate::text::{
    cat3, copy_texts, find_char, find_from, find_separator, join, join_with, joined_lists_differ,
    push_item, same,
};
use vstd::prelude::*;

verus! {

/// What a field holds.
#[derive(Debug, Clone, Copy, PartialEq, Eq, Structural)]
pub enum FieldType {
    Text,
    Number,
    Textarea,
    Select,
    Radio,
    Checkbox,
    Date,
    Email,
    Json,
    Richtext,
    Code,
    Relationship,
    Upload,
    Array,
    Blocks,
    Group,
    Row,
    Collapsible,
    Tabs,
    Join,
}

impl FieldType {
    /// The word definitions use for this type.
    pub open spec fn word(self) -> Seq<char> {
        match self {
            FieldType::Text => "text"@,
            FieldType::Number => "number"@,
            FieldType::Textarea => "textarea"@,
            FieldType::Select => "select"@,
            FieldType::Radio => "radio"@,
            FieldType::Checkbox => "checkbox"@,
            FieldType::Date => "date"@,
            FieldType::Email => "email"@,
            FieldType::Json => "json"@,
            FieldType::Richtext => "richtext"@,
            FieldType::Code => "code"@,
            FieldType::Relationship => "relationship"@,
            FieldType::Upload => "upload"@,
            FieldType::Array => "array"@,
            FieldType::Blocks => "blocks"@,
            FieldType::Group => "group"@,
            FieldType::Row => "row"@,
            FieldType::Collapsible => "collapsible"@,
            FieldType::Tabs => "tabs"@,
            FieldType::Join => "join"@,
        }
    }

    /// The word definitions use for this type.
    pub fn as_str(self) -> (r: &'static str)
        ensures
            r@ == self.word(),
    {
        match self {
            FieldType::Text => "text",
            FieldType::Number => "number",
            FieldType::Textarea => "textarea",
            FieldType::Select => "select",
            FieldType::Radio => "radio",
            FieldType::Checkbox => "checkbox",
            FieldType::Date => "date",
            FieldType::Email => "email",
            FieldType::Json => "json",
            FieldType::Richtext => "richtext",
            FieldType::Code => "code",
            FieldType::Relationship => "relationship",
            FieldType::Upload => "upload",
            FieldType::Array => "array",
            FieldType::Blocks => "blocks",
            FieldType::Group => "group",
            FieldType::Row => "row",
            FieldType::Collapsible => "collapsible",
            FieldType::Tabs => "tabs",
            FieldType::Join => "join",
        }
    }
}

/// The collections a relationship or upload points at.
#[derive(Debug, Clone, PartialEq, Eq)]
pub struct RelationshipConfig {
    pub collection: String,
    pub has_many: bool,
    /// The target collections of a relationship that has several.
    pub polymorphic: Vec<String>,
}

impl RelationshipConfig {
    /// Whether an id alone does not say which collection it belongs to.
    pub open spec fn polymorphic_spec(self) -> bool {
        self.polymorphic@.len() > 0
    }

    pub fn new(collection: &str, has_many: bool) -> (r: RelationshipConfig)
        ensures
            r.collection@ == collection@,
            r.has_many == has_many,
            !r.polymorphic_spec(),
    {
        RelationshipConfig { collection: collection.to_owned(), has_many, polymorphic: Vec::new() }
    }

    /// Whether an id alone does not say which collection it belongs to.
    pub fn is_polymorphic(&self) -> (r: bool)
        ensures
            r == self.polymorphic_spec(),
    {
        self.polymorphic.len() > 0
    }
}

/// A field of a collection or global.
#[derive(Debug, PartialEq, Eq)]
pub struct FieldDefinition {
    pub name: String,
    pub field_type: FieldType,
    pub localized: bool,
    pub has_many: bool,
    /// Whether a date keeps the zone it was entered in.
    pub timezone: bool,
    /// The languages a code field may be written in.
    pub languages: Vec<String>,
    pub relationship: Option<RelationshipConfig>,
    /// The sub-fields of a group, array, row or collapsible.
    pub fields: Vec<FieldDefinition>,
    /// The pages of a tabs field.
    pub tabs: Vec<FieldTab>,
    /// The row kinds of a blocks field.
    pub blocks: Vec<BlockDefinition>,
}

/// One page of a tabs field.
#[derive(Debug, PartialEq, Eq)]
pub struct FieldTab {
    pub label: String,
    pub fields: Vec<FieldDefinition>,
}

/// One row kind of a blocks field.
#[derive(Debug, PartialEq, Eq)]
pub struct BlockDefinition {
    pub block_type: String,
    pub fields: Vec<FieldDefinition>,
}

impl FieldDefinition {
    /// A field with nothing set but its name and type.
    pub fn new(name: &str, field_type: FieldType) -> (r: FieldDefinition)
        ensures
            r.name@ == name@,
            r.field_type == field_type,
            !r.localized,
            !r.has_many,
            !r.timezone,
            r.languages@.len() == 0,
            r.relationship is None,
            r.fields@.len() == 0,
            r.tabs@.len() == 0,
            r.blocks@.len() == 0,
    {
        FieldDefinition {
            name: name.to_owned(),
            field_type,
            localized: false,
            has_many: false,
            timezone: false,
            languages: Vec::new(),
            relationship: None,
            fields: Vec::new(),
            tabs: Vec::new(),
            blocks: Vec::new(),
        }
    }

    /// Whether the field's ids are kept in rows of their own.
    pub open spec fn refers_to_many(self) -> bool {
        match self.relationship {
            Some(rc) => rc.has_many,
            None => false,
        }
    }

    /// Whether the field's value is kept in a column of the table it belongs to.
    pub open spec fn in_parent(self) -> bool {
        match self.field_type {
            FieldType::Array
            | FieldType::Blocks
            | FieldType::Group
            | FieldType::Row
            | FieldType::Collapsible
            | FieldType::Tabs
            | FieldType::Join => false,
            FieldType::Relationship | FieldType::Upload => !self.refers_to_many(),
            _ => true,
        }
    }

    /// Whether the field's value is kept in a column of the table it belongs to.
    pub fn has_parent_column(&self) -> (r: bool)
        ensures
            r == self.in_parent(),
    {
        match self.field_type {
            FieldType::Array
            | FieldType::Blocks
            | FieldType::Group
            | FieldType::Row
            | FieldType::Collapsible
            | FieldType::Tabs
            | FieldType::Join => false,
            FieldType::Relationship | FieldType::Upload => match &self.relationship {
                Some(rc) => !rc.has_many,
                None => true,
            },
            _ => true,
        }
    }

    /// Whether the field holds a list of plain values, kept as one JSON text.
    pub open spec fn scalar_list(self) -> bool {
        self.has_many && match self.field_type {
            FieldType::Text | FieldType::Number | FieldType::Select => true,
            _ => false,
        }
    }

    /// Whether the field holds a list of plain values, kept as one JSON text.
    pub fn is_has_many_scalar(&self) -> (r: bool)
        ensures
            r == self.scalar_list(),
    {
        self.has_many && match self.field_type {
            FieldType::Text | FieldType::Number | FieldType::Select => true,
            _ => false,
        }
    }

    /// Whether a zone is kept beside the field's value.
    pub open spec fn zoned(self) -> bool {
        self.field_type == FieldType::Date && self.timezone
    }

    /// Whether a zone is kept beside the field's value.
    pub fn has_tz_companion(&self) -> (r: bool)
        ensures
            r == self.zoned(),
    {
        self.field_type == FieldType::Date && self.timezone
    }

    /// Whether a language is kept beside the field's value.
    pub open spec fn tagged_with_language(self) -> bool {
        self.field_type == FieldType::Code && self.languages@.len() > 0
    }

    /// The columns kept beside the field's own column `name`.
    pub open spec fn companions(self, name: Seq<char>) -> Seq<Seq<char>> {
        if self.zoned() {
            seq![name + "_tz"@]
        } else if self.tagged_with_language() {
            seq![name + "_lang"@]
        } else {
            Seq::empty()
        }
    }

    /// The columns kept beside the field's own column `name`.
    pub fn companion_columns(&self, name: &str) -> (r: Vec<String>)
        ensures
            r.deep_view() == self.companions(name@),
    {
        let mut names: Vec<String> = Vec::new();
        assert(names.deep_view() =~= Seq::<Seq<char>>::empty());
        if self.has_tz_companion() {
            push_item(&mut names, name.to_owned().concat("_tz"));
        } else if self.field_type == FieldType::Code && self.languages.len() > 0 {
            push_item(&mut names, name.to_owned().concat("_lang"));
        }
        assert(names.deep_view() =~= self.companions(name@));
        names
    }
}

impl FieldTab {
    pub fn new(label: &str, fields: Vec<FieldDefinition>) -> (r: FieldTab)
        ensures
            r.label@ == label@,
            r.fields == fields,
    {
        FieldTab { label: label.to_owned(), fields }
    }
}

impl BlockDefinition {
    pub fn new(block_type: &str, fields: Vec<FieldDefinition>) -> (r: BlockDefinition)
        ensures
            r.block_type@ == block_type@,
            r.fields == fields,
    {
        BlockDefinition { block_type: block_type.to_owned(), fields }
    }
}

/// The mathematical value of a [`RelationshipConfig`].
#[verifier::ext_equal]
pub ghost struct RelationshipView {
    pub collection: Seq<char>,
    pub has_many: bool,
    pub polymorphic: Seq<Seq<char>>,
}

impl DeepView for RelationshipConfig {
    type V = RelationshipView;

    open spec fn deep_view(&self) -> RelationshipView {
        RelationshipView {
            collection: self.collection@,
            has_many: self.has_many,
            polymorphic: self.polymorphic.deep_view(),
        }
    }
}

impl RelationshipConfig {
    /// Another configuration equal to this one.
    pub fn copy(&self) -> (r: RelationshipConfig)
        ensures
            r.deep_view() == self.deep_view(),
    {
        RelationshipConfig {
            collection: self.collection.clone(),
            has_many: self.has_many,
            polymorphic: copy_texts(&self.polymorphic),
        }
    }
}

/// The mathematical value of a [`FieldDefinition`].
pub ghost struct FieldView {
    pub name: Seq<char>,
    pub field_type: FieldType,
    pub localized: bool,
    pub has_many: bool,
    pub timezone: bool,
    pub languages: Seq<Seq<char>>,
    pub relationship: Option<RelationshipView>,
    pub fields: Seq<FieldView>,
    pub tabs: Seq<TabView>,
    pub blocks: Seq<BlockView>,
}

/// The mathematical value of a [`FieldTab`].
pub ghost struct TabView {
    pub label: Seq<char>,
    pub fields: Seq<FieldView>,
}

/// The mathematical value of a [`BlockDefinition`].
pub ghost struct BlockView {
    pub block_type: Seq<char>,
    pub fields: Seq<FieldView>,
}

/// The mathematical value of a field.
pub open spec fn field_view(field: FieldDefinition) -> FieldView
    decreases field,
{
    FieldView {
        name: field.name@,
        field_type: field.field_type,
        localized: field.localized,
        has_many: field.has_many,
        timezone: field.timezone,
        languages: field.languages.deep_view(),
        relationship: field.relationship.deep_view(),
        fields: fields_view(field.fields@),
        tabs: tabs_view(field.tabs@),
        blocks: blocks_view(field.blocks@),
    }
}

/// The mathematical values of several fields.
pub open spec fn fields_view(fields: Seq<FieldDefinition>) -> Seq<FieldView>
    decreases fields,
{
    if fields.len() == 0 {
        Seq::empty()
    } else {
        fields_view(fields.drop_last()).push(field_view(fields.last()))
    }
}

/// The mathematical values of several pages.
pub open spec fn tabs_view(tabs: Seq<FieldTab>) -> Seq<TabView>
    decreases tabs,
{
    if tabs.len() == 0 {
        Seq::empty()
    } else {
        tabs_view(tabs.drop_last()).push(
            TabView { label: tabs.last().label@, fields: fields_view(tabs.last().fields@) },
        )
    }
}

/// The mathematical values of several row kinds.
pub open spec fn blocks_view(blocks: Seq<BlockDefinition>) -> Seq<BlockView>
    decreases blocks,
{
    if blocks.len() == 0 {
        Seq::empty()
    } else {
        blocks_view(blocks.drop_last()).push(
            BlockView {
                block_type: blocks.last().block_type@,
                fields: fields_view(blocks.last().fields@),
            },
        )
    }
}

impl FieldDefinition {
    /// Another field equal to this one.
    pub fn copy(&self) -> (r: FieldDefinition)
        ensures
            field_view(r) == field_view(*self),
        decreases self,
    {
        let relationship = match &self.relationship {
            Some(rc) => Some(rc.copy()),
            None => None,
        };
        FieldDefinition {
            name: self.name.clone(),
            field_type: self.field_type,
            localized: self.localized,
            has_many: self.has_many,
            timezone: self.timezone,
            languages: copy_texts(&self.languages),
            relationship,
            fields: copy_fields(&self.fields),
            tabs: copy_tabs(&self.tabs),
            blocks: copy_blocks(&self.blocks),
        }
    }
}

/// Other fields equal to these.
pub fn copy_fields(fields: &Vec<FieldDefinition>) -> (r: Vec<FieldDefinition>)
    ensures
        fields_view(r@) == fields_view(fields@),
    decreases fields,
{
    let mut copies: Vec<FieldDefinition> = Vec::new();
    let mut i: usize = 0;
    assert(fields@.take(0) =~= Seq::<FieldDefinition>::empty());
    while i < fields.len()
        invariant
            i <= fields.len(),
            fields_view(copies@) == fields_view(fields@.take(i as int)),
        decreases fields.len() - i,
    {
        assert(fields@.take(i + 1).drop_last() =~= fields@.take(i as int));
        assert(decreases_to!(fields => fields@[i as int]));
        let ghost before = copies@;
        copies.push(fields[i].copy());
        assert(copies@.drop_last() =~= before);
        i += 1;
    }
    assert(fields@.take(i as int) =~= fields@);
    copies
}

fn copy_tabs(tabs: &Vec<FieldTab>) -> (r: Vec<FieldTab>)
    ensures
        tabs_view(r@) == tabs_view(tabs@),
    decreases tabs,
{
    let mut copies: Vec<FieldTab> = Vec::new();
    let mut i: usize = 0;
    assert(tabs@.take(0) =~= Seq::<FieldTab>::empty());
    while i < tabs.len()
        invariant
            i <= tabs.len(),
            tabs_view(copies@) == tabs_view(tabs@.take(i as int)),
        decreases tabs.len() - i,
    {
        assert(tabs@.take(i + 1).drop_last() =~= tabs@.take(i as int));
        assert(decreases_to!(tabs => tabs@[i as int]));
        let ghost before = copies@;
        let fields = copy_fields(&tabs[i].fields);
        copies.push(FieldTab { label: tabs[i].label.clone(), fields });
        assert(copies@.drop_last() =~= before);
        i += 1;
    }
    assert(tabs@.take(i as int) =~= tabs@);
    copies
}

/// Other row kinds equal to these.
pub fn copy_blocks(blocks: &Vec<BlockDefinition>) -> (r: Vec<BlockDefinition>)
    ensures
        blocks_view(r@) == blocks_view(blocks@),
    decreases blocks,
{
    let mut copies: Vec<BlockDefinition> = Vec::new();
    let mut i: usize = 0;
    assert(blocks@.take(0) =~= Seq::<BlockDefinition>::empty());
    while i < blocks.len()
        invariant
            i <= blocks.len(),
            blocks_view(copies@) == blocks_view(blocks@.take(i as int)),
        decreases blocks.len() - i,
    {
        assert(blocks@.take(i + 1).drop_last() =~= blocks@.take(i as int));
        assert(decreases_to!(blocks => blocks@[i as int]));
        let ghost before = copies@;
        let fields = copy_fields(&blocks[i].fields);
        copies.push(BlockDefinition { block_type: blocks[i].block_type.clone(), fields });
        assert(copies@.drop_last() =~= before);
        i += 1;
    }
    assert(blocks@.take(i as int) =~= blocks@);
    copies
}

/// `name` below `prefix`: the two joined by a double underscore, or `name` alone
/// at the top.
pub open spec fn prefixed(prefix: Seq<char>, name: Seq<char>) -> Seq<char> {
    if prefix.len() == 0 {
        name
    } else {
        prefix + "__"@ + name
    }
}

/// `name` below `prefix`.
pub fn prefixed_name(prefix: &str, name: &str) -> (r: String)
    ensures
        r@ == prefixed(prefix@, name@),
{
    if prefix.is_empty() {
        name.to_owned()
    } else {
        prefix.to_owned().concat("__").concat(name)
    }
}

/// A field that is no layout, with where it stands.
pub struct Leaf<'a> {
    pub field: &'a FieldDefinition,
    /// The names of the groups around it, joined by double underscores.
    pub prefix: String,
    /// Whether a group around it is localized.
    pub inherited_localized: bool,
}

/// The mathematical value of a [`Leaf`].
#[verifier::ext_equal]
pub ghost struct LeafView {
    pub field: FieldDefinition,
    pub prefix: Seq<char>,
    pub inherited_localized: bool,
}

impl<'a> DeepView for Leaf<'a> {
    type V = LeafView;

    open spec fn deep_view(&self) -> LeafView {
        LeafView {
            field: *self.field,
            prefix: self.prefix@,
            inherited_localized: self.inherited_localized,
        }
    }
}

impl LeafView {
    /// The field's name with the groups around it.
    pub open spec fn path(self) -> Seq<char> {
        prefixed(self.prefix, self.field.name@)
    }

    /// Whether the field or a group around it is localized.
    pub open spec fn localized(self) -> bool {
        self.inherited_localized || self.field.localized
    }
}

impl<'a> Leaf<'a> {
    /// The field's name with the groups around it.
    pub fn path(&self) -> (r: String)
        ensures
            r@ == self.deep_view().path(),
    {
        prefixed_name(self.prefix.as_str(), self.field.name.as_str())
    }

    /// Whether the field or a group around it is localized.
    pub fn localized(&self) -> (r: bool)
        ensures
            r == self.deep_view().localized(),
    {
        self.inherited_localized || self.field.localized
    }
}

/// The leaves of `fields`, in order. A group adds its name to the prefix and
/// passes `localized` on; rows, collapsibles and tabs leave no trace.
pub open spec fn leaves(fields: Seq<FieldDefinition>, prefix: Seq<char>, inherited: bool) -> Seq<
    LeafView,
>
    decreases fields,
{
    if fields.len() == 0 {
        Seq::empty()
    } else {
        let field = fields.last();
        leaves(fields.drop_last(), prefix, inherited) + match field.field_type {
            FieldType::Group => leaves(
                field.fields@,
                prefixed(prefix, field.name@),
                inherited || field.localized,
            ),
            FieldType::Row | FieldType::Collapsible => leaves(field.fields@, prefix, inherited),
            FieldType::Tabs => tab_leaves(field.tabs@, prefix, inherited),
            _ => seq![LeafView { field, prefix, inherited_localized: inherited }],
        }
    }
}

/// The leaves of every page, in order.
pub open spec fn tab_leaves(tabs: Seq<FieldTab>, prefix: Seq<char>, inherited: bool) -> Seq<
    LeafView,
>
    decreases tabs,
{
    if tabs.len() == 0 {
        Seq::empty()
    } else {
        tab_leaves(tabs.drop_last(), prefix, inherited) + leaves(
            tabs.last().fields@,
            prefix,
            inherited,
        )
    }
}

fn collect_leaves<'a>(
    fields: &'a Vec<FieldDefinition>,
    prefix: &str,
    inherited: bool,
    found: &mut Vec<Leaf<'a>>,
)
    ensures
        final(found).deep_view() == old(found).deep_view() + leaves(fields@, prefix@, inherited),
    decreases fields,
{
    let ghost start = found.deep_view();
    let mut i: usize = 0;
    assert(fields@.take(0) =~= Seq::<FieldDefinition>::empty());
    assert(start + Seq::<LeafView>::empty() =~= start);
    while i < fields.len()
        invariant
            i <= fields.len(),
            found.deep_view() == start + leaves(fields@.take(i as int), prefix@, inherited),
        decreases fields.len() - i,
    {
        let field = &fields[i];
        let ghost before = leaves(fields@.take(i as int), prefix@, inherited);
        assert(fields@.take(i + 1).drop_last() =~= fields@.take(i as int));
        assert(fields@.take(i + 1).last() == *field);
        assert(decreases_to!(fields => fields@[i as int]));
        match field.field_type {
            FieldType::Group => {
                let below = prefixed_name(prefix, field.name.as_str());
                collect_leaves(&field.fields, below.as_str(), inherited || field.localized, found);
            },
            FieldType::Row | FieldType::Collapsible => {
                collect_leaves(&field.fields, prefix, inherited, found);
            },
            FieldType::Tabs => {
                collect_tab_leaves(&field.tabs, prefix, inherited, found);
            },
            _ => {
                push_item(
                    found,
                    Leaf { field, prefix: prefix.to_owned(), inherited_localized: inherited },
                );
            },
        }
        i += 1;
        assert(found.deep_view() =~= start + leaves(fields@.take(i as int), prefix@, inherited));
    }
    assert(fields@.take(i as int) =~= fields@);
}

fn collect_tab_leaves<'a>(
    tabs: &'a Vec<FieldTab>,
    prefix: &str,
    inherited: bool,
    found: &mut Vec<Leaf<'a>>,
)
    ensures
        final(found).deep_view() == old(found).deep_view() + tab_leaves(tabs@, prefix@, inherited),
    decreases tabs,
{
    let ghost start = found.deep_view();
    let mut i: usize = 0;
    assert(tabs@.take(0) =~= Seq::<FieldTab>::empty());
    assert(start + Seq::<LeafView>::empty() =~= start);
    while i < tabs.len()
        invariant
            i <= tabs.len(),
            found.deep_view() == start + tab_leaves(tabs@.take(i as int), prefix@, inherited),
        decreases tabs.len() - i,
    {
        assert(tabs@.take(i + 1).drop_last() =~= tabs@.take(i as int));
        assert(tabs@.take(i + 1).last() == tabs@[i as int]);
        assert(decreases_to!(tabs => tabs@[i as int]));
        collect_leaves(&tabs[i].fields, prefix, inherited, found);
        i += 1;
        assert(found.deep_view() =~= start + tab_leaves(tabs@.take(i as int), prefix@, inherited));
    }
    assert(tabs@.take(i as int) =~= tabs@);
}

/// The leaves of a definition's fields, in order.
pub fn walk_leaf_fields<'a>(fields: &'a Vec<FieldDefinition>) -> (r: Vec<Leaf<'a>>)
    ensures
        r.deep_view() == leaves(fields@, Seq::empty(), false),
{
    let mut found: Vec<Leaf<'a>> = Vec::new();
    assert(found.deep_view() =~= Seq::<LeafView>::empty());
    proof {
        reveal_strlit("");
    }
    assert(""@ =~= Seq::<char>::empty());
    collect_leaves(fields, "", false, &mut found);
    assert(found.deep_view() =~= leaves(fields@, Seq::empty(), false));
    found
}

/// The fields of a row of an array, in order. Rows, collapsibles and tabs leave no
/// trace; a group is kept whole.
pub open spec fn row_fields(fields: Seq<FieldDefinition>) -> Seq<FieldDefinition>
    decreases fields,
{
    if fields.len() == 0 {
        Seq::empty()
    } else {
        let field = fields.last();
        row_fields(fields.drop_last()) + match field.field_type {
            FieldType::Row | FieldType::Collapsible => row_fields(field.fields@),
            FieldType::Tabs => tab_row_fields(field.tabs@),
            _ => seq![field],
        }
    }
}

/// The row fields of every page, in order.
pub open spec fn tab_row_fields(tabs: Seq<FieldTab>) -> Seq<FieldDefinition>
    decreases tabs,
{
    if tabs.len() == 0 {
        Seq::empty()
    } else {
        tab_row_fields(tabs.drop_last()) + row_fields(tabs.last().fields@)
    }
}

/// The fields behind some references.
pub open spec fn referred(refs: Seq<&FieldDefinition>) -> Seq<FieldDefinition> {
    Seq::new(refs.len(), |i: int| *refs[i])
}

fn collect_row_fields<'a>(
    fields: &'a Vec<FieldDefinition>,
    found: &mut Vec<&'a FieldDefinition>,
)
    ensures
        referred(final(found)@) == referred(old(found)@) + row_fields(fields@),
    decreases fields,
{
    let ghost start = referred(found@);
    let mut i: usize = 0;
    assert(fields@.take(0) =~= Seq::<FieldDefinition>::empty());
    assert(start + Seq::<FieldDefinition>::empty() =~= start);
    while i < fields.len()
        invariant
            i <= fields.len(),
            referred(found@) == start + row_fields(fields@.take(i as int)),
        decreases fields.len() - i,
    {
        let field = &fields[i];
        assert(fields@.take(i + 1).drop_last() =~= fields@.take(i as int));
        assert(fields@.take(i + 1).last() == *field);
        assert(decreases_to!(fields => fields@[i as int]));
        match field.field_type {
            FieldType::Row | FieldType::Collapsible => {
                collect_row_fields(&field.fields, found);
            },
            FieldType::Tabs => {
                collect_tab_row_fields(&field.tabs, found);
            },
            _ => {
                let ghost before = found@;
                found.push(field);
                assert(referred(found@) =~= referred(before) + seq![*field]);
            },
        }
        i += 1;
        assert(referred(found@) =~= start + row_fields(fields@.take(i as int)));
    }
    assert(fields@.take(i as int) =~= fields@);
}

fn collect_tab_row_fields<'a>(tabs: &'a Vec<FieldTab>, found: &mut Vec<&'a FieldDefinition>)
    ensures
        referred(final(found)@) == referred(old(found)@) + tab_row_fields(tabs@),
    decreases tabs,
{
    let ghost start = referred(found@);
    let mut i: usize = 0;
    assert(tabs@.take(0) =~= Seq::<FieldTab>::empty());
    assert(start + Seq::<FieldDefinition>::empty() =~= start);
    while i < tabs.len()
        invariant
            i <= tabs.len(),
            referred(found@) == start + tab_row_fields(tabs@.take(i as int)),
        decreases tabs.len() - i,
    {
        assert(tabs@.take(i + 1).drop_last() =~= tabs@.take(i as int));
        assert(tabs@.take(i + 1).last() == tabs@[i as int]);
        assert(decreases_to!(tabs => tabs@[i as int]));
        collect_row_fields(&tabs[i].fields, found);
        i += 1;
        assert(referred(found@) =~= start + tab_row_fields(tabs@.take(i as int)));
    }
    assert(tabs@.take(i as int) =~= tabs@);
}

/// The fields of a row of an array, in order.
pub fn flatten_array_sub_fields<'a>(fields: &'a Vec<FieldDefinition>) -> (r: Vec<
    &'a FieldDefinition,
>)
    ensures
        referred(r@) == row_fields(fields@),
{
    let mut found: Vec<&'a FieldDefinition> = Vec::new();
    assert(referred(found@) =~= Seq::<FieldDefinition>::empty());
    collect_row_fields(fields, &mut found);
    assert(referred(found@) =~= row_fields(fields@));
    found
}

/// The locales content is kept in.
#[derive(Debug, PartialEq, Eq)]
pub struct LocaleConfig {
    pub default_locale: String,
    pub locales: Vec<String>,
    /// Whether a value missing in the locale read is taken from the default one.
    pub fallback: bool,
}

impl LocaleConfig {
    /// Whether content is kept per locale at all.
    pub open spec fn enabled(self) -> bool {
        self.locales@.len() > 0
    }

    /// One locale only, not kept apart.
    pub fn disabled() -> (r: LocaleConfig)
        ensures
            r.default_locale@ == "en"@,
            !r.enabled(),
            r.fallback,
    {
        LocaleConfig { default_locale: "en".to_owned(), locales: Vec::new(), fallback: true }
    }

    /// Another configuration equal to this one.
    pub fn copy(&self) -> (r: LocaleConfig)
        ensures
            r.default_locale@ == self.default_locale@,
            r.locales.deep_view() == self.locales.deep_view(),
            r.fallback == self.fallback,
    {
        LocaleConfig {
            default_locale: self.default_locale.clone(),
            locales: copy_texts(&self.locales),
            fallback: self.fallback,
        }
    }

    /// Whether content is kept per locale at all.
    pub fn is_enabled(&self) -> (r: bool)
        ensures
            r == self.enabled(),
    {
        self.locales.len() > 0
    }

    /// A text that changes with the default locale and with the locales.
    pub open spec fn fingerprint_text(self) -> Seq<char> {
        self.default_locale@ + ";"@ + join(self.locales.deep_view(), ","@)
    }

    /// A text that changes with the default locale and with the locales.
    pub fn fingerprint(&self) -> (r: String)
        ensures
            r@ == self.fingerprint_text(),
    {
        let locales = join_with(&self.locales, ",");
        cat3(self.default_locale.as_str(), ";", locales.as_str())
    }

    /// The default locale a fingerprint was taken under.
    pub open spec fn default_of(fingerprint: Seq<char>) -> Option<Seq<char>> {
        match find_from(fingerprint, ';', 0) {
            Some(i) => Some(fingerprint.take(i)),
            None => None,
        }
    }

    /// The default locale a fingerprint was taken under.
    pub fn default_locale_of_fingerprint(fingerprint: &str) -> (r: Option<String>)
        ensures
            r.deep_view() == Self::default_of(fingerprint@),
    {
        match find_char(fingerprint, ';', 0) {
            Some(i) => Some(fingerprint.substring_char(0, i).to_owned()),
            None => None,
        }
    }
}

/// Whether a collection keeps earlier versions of its documents.
#[derive(Debug, Clone, Copy, PartialEq, Eq, Structural)]
pub struct VersionsConfig {
    pub drafts: bool,
}

/// A kind of document, many of which may be stored.
#[derive(Debug, PartialEq, Eq)]
pub struct CollectionDefinition {
    pub slug: String,
    pub fields: Vec<FieldDefinition>,
    /// Whether a deleted document is only marked as such.
    pub soft_delete: bool,
    pub versions: Option<VersionsConfig>,
}

impl CollectionDefinition {
    pub fn new(slug: &str) -> (r: CollectionDefinition)
        ensures
            r.slug@ == slug@,
            r.fields@.len() == 0,
            !r.soft_delete,
            r.versions is None,
    {
        CollectionDefinition {
            slug: slug.to_owned(),
            fields: Vec::new(),
            soft_delete: false,
            versions: None,
        }
    }

    /// Whether a document may have a version that is not published yet.
    pub open spec fn drafts(self) -> bool {
        match self.versions {
            Some(v) => v.drafts,
            None => false,
        }
    }

    /// Whether a document may have a version that is not published yet.
    pub fn has_drafts(&self) -> (r: bool)
        ensures
            r == self.drafts(),
    {
        match &self.versions {
            Some(v) => v.drafts,
            None => false,
        }
    }
}

/// The mathematical value of a [`CollectionDefinition`].
pub ghost struct CollectionView {
    pub slug: Seq<char>,
    pub fields: Seq<FieldView>,
    pub soft_delete: bool,
    pub versions: Option<VersionsConfig>,
}

impl DeepView for CollectionDefinition {
    type V = CollectionView;

    open spec fn deep_view(&self) -> CollectionView {
        CollectionView {
            slug: self.slug@,
            fields: fields_view(self.fields@),
            soft_delete: self.soft_delete,
            versions: self.versions,
        }
    }
}

impl CollectionDefinition {
    /// Another definition equal to this one.
    pub fn copy(&self) -> (r: CollectionDefinition)
        ensures
            r.deep_view() == self.deep_view(),
    {
        CollectionDefinition {
            slug: self.slug.clone(),
            fields: copy_fields(&self.fields),
            soft_delete: self.soft_delete,
            versions: self.versions,
        }
    }
}

/// A document of which there is exactly one.
#[derive(Debug, PartialEq, Eq)]
pub struct GlobalDefinition {
    pub slug: String,
    pub fields: Vec<FieldDefinition>,
}

impl GlobalDefinition {
    pub fn new(slug: &str) -> (r: GlobalDefinition)
        ensures
            r.slug@ == slug@,
            r.fields@.len() == 0,
    {
        GlobalDefinition { slug: slug.to_owned(), fields: Vec::new() }
    }
}

/// The mathematical value of a [`GlobalDefinition`].
pub ghost struct GlobalView {
    pub slug: Seq<char>,
    pub fields: Seq<FieldView>,
}

impl DeepView for GlobalDefinition {
    type V = GlobalView;

    open spec fn deep_view(&self) -> GlobalView {
        GlobalView { slug: self.slug@, fields: fields_view(self.fields@) }
    }
}

impl GlobalDefinition {
    /// Another definition equal to this one.
    pub fn copy(&self) -> (r: GlobalDefinition)
        ensures
            r.deep_view() == self.deep_view(),
    {
        GlobalDefinition { slug: self.slug.clone(), fields: copy_fields(&self.fields) }
    }
}

/// The slugs of collections.
pub open spec fn collection_slugs(collections: Seq<CollectionDefinition>) -> Seq<Seq<char>> {
    Seq::new(collections.len(), |i: int| collections[i].slug@)
}

/// The slugs of globals.
pub open spec fn global_slugs(globals: Seq<GlobalDefinition>) -> Seq<Seq<char>> {
    Seq::new(globals.len(), |i: int| globals[i].slug@)
}

/// Where a slug stands among others: at the end, where it is not among them.
pub open spec fn place_of(slugs: Seq<Seq<char>>, slug: Seq<char>) -> int
    decreases slugs.len(),
{
    if slugs.len() == 0 {
        0
    } else if place_of(slugs.drop_last(), slug) < slugs.len() - 1 {
        place_of(slugs.drop_last(), slug)
    } else if slugs.last() == slug {
        slugs.len() - 1
    } else {
        slugs.len() as int
    }
}

/// Definitions with one at a place: in place of the one there, or behind the others.
pub open spec fn defined_at<D>(defs: Seq<D>, at: int, def: D) -> Seq<D> {
    if 0 <= at < defs.len() {
        defs.update(at, def)
    } else {
        defs.push(def)
    }
}

/// Every collection and global, in the order they were first defined.
#[derive(Debug, PartialEq, Eq)]
pub struct Registry {
    pub collections: Vec<CollectionDefinition>,
    pub globals: Vec<GlobalDefinition>,
}

impl Registry {
    /// Whether each collection and each global is defined once, as it is where they were
    /// registered.
    pub open spec fn well_formed(self) -> bool {
        collection_slugs(self.collections@).no_duplicates() && global_slugs(
            self.globals@,
        ).no_duplicates()
    }

    pub fn new() -> (r: Registry)
        ensures
            r.collections@.len() == 0,
            r.globals@.len() == 0,
            r.well_formed(),
    {
        Registry { collections: Vec::new(), globals: Vec::new() }
    }

    /// Defines a collection, in place of one of the same slug.
    pub fn register_collection(&mut self, def: CollectionDefinition)
        ensures
            final(self).collections@ == defined_at(
                old(self).collections@,
                place_of(collection_slugs(old(self).collections@), def.slug@),
                def,
            ),
            final(self).globals == old(self).globals,
            old(self).well_formed() ==> final(self).well_formed(),
    {
        let ghost before = self.collections@;
        let ghost slugs = collection_slugs(before);
        let mut at: usize = self.collections.len();
        let mut i: usize = 0;
        assert(slugs.take(0) =~= Seq::<Seq<char>>::empty());
        while i < self.collections.len()
            invariant
                i <= self.collections.len(),
                self.collections@ == before,
                self.globals == old(self).globals,
                slugs == collection_slugs(before),
                at <= before.len(),
                at < before.len() ==> at < i,
                place_of(slugs.take(i as int), def.slug@) == if at < i {
                    at as int
                } else {
                    i as int
                },
            decreases self.collections.len() - i,
        {
            assert(slugs.take(i + 1).drop_last() =~= slugs.take(i as int));
            assert(slugs.take(i + 1).last() == before[i as int].slug@);
            if at == self.collections.len() && same(
                self.collections[i].slug.as_str(),
                def.slug.as_str(),
            ) {
                at = i;
            }
            i += 1;
        }
        assert(slugs.take(i as int) =~= slugs);
        let ghost slug = def.slug@;
        let ghost after = defined_at(before, at as int, def);
        if at < self.collections.len() {
            self.collections.set(at, def);
        } else {
            self.collections.push(def);
        }
        proof {
            defined_once(slugs, slug);
            assert(collection_slugs(after) =~= defined_at(slugs, at as int, slug));
        }
    }

    /// Defines a global, in place of one of the same slug.
    pub fn register_global(&mut self, def: GlobalDefinition)
        ensures
            final(self).globals@ == defined_at(
                old(self).globals@,
                place_of(global_slugs(old(self).globals@), def.slug@),
                def,
            ),
            final(self).collections == old(self).collections,
            old(self).well_formed() ==> final(self).well_formed(),
    {
        let ghost before = self.globals@;
        let ghost slugs = global_slugs(before);
        let mut at: usize = self.globals.len();
        let mut i: usize = 0;
        assert(slugs.take(0) =~= Seq::<Seq<char>>::empty());
        while i < self.globals.len()
            invariant
                i <= self.globals.len(),
                self.globals@ == before,
                self.collections == old(self).collections,
                slugs == global_slugs(before),
                at <= before.len(),
                at < before.len() ==> at < i,
                place_of(slugs.take(i as int), def.slug@) == if at < i {
                    at as int
                } else {
                    i as int
                },
            decreases self.globals.len() - i,
        {
            assert(slugs.take(i + 1).drop_last() =~= slugs.take(i as int));
            assert(slugs.take(i + 1).last() == before[i as int].slug@);
            if at == self.globals.len() && same(self.globals[i].slug.as_str(), def.slug.as_str()) {
                at = i;
            }
            i += 1;
        }
        assert(slugs.take(i as int) =~= slugs);
        let ghost slug = def.slug@;
        let ghost after = defined_at(before, at as int, def);
        if at < self.globals.len() {
            self.globals.set(at, def);
        } else {
            self.globals.push(def);
        }
        proof {
            defined_once(slugs, slug);
            assert(global_slugs(after) =~= defined_at(slugs, at as int, slug));
        }
    }
}

proof fn placed_among(slugs: Seq<Seq<char>>, slug: Seq<char>)
    ensures
        0 <= place_of(slugs, slug) <= slugs.len(),
        place_of(slugs, slug) < slugs.len() ==> slugs[place_of(slugs, slug)] == slug,
        place_of(slugs, slug) == slugs.len() ==> !slugs.contains(slug),
    decreases slugs.len(),
{
    if slugs.len() > 0 {
        let front = slugs.drop_last();
        placed_among(front, slug);
        if place_of(slugs, slug) == slugs.len() && slugs.contains(slug) {
            let k = choose|k: int| 0 <= k < slugs.len() && slugs[k] == slug;
            if k < front.len() {
                assert(front[k] == slug);
            }
        }
    }
}

/// A slug that is defined, again or for the first time, has one place among the others,
/// where they had one each.
pub proof fn defined_once(slugs: Seq<Seq<char>>, slug: Seq<char>)
    ensures
        slugs.no_duplicates() ==> defined_at(slugs, place_of(slugs, slug), slug).no_duplicates(),
        defined_at(slugs, place_of(slugs, slug), slug).contains(slug),
        slugs.contains(slug) ==> defined_at(slugs, place_of(slugs, slug), slug) == slugs,
{
    placed_among(slugs, slug);
    let at = place_of(slugs, slug);
    let after = defined_at(slugs, at, slug);
    if at < slugs.len() {
        assert(after =~= slugs);
        assert(after[at] == slug);
    } else {
        assert(after[at] == slug);
        assert forall|i: int, j: int|
            slugs.no_duplicates() && 0 <= i < after.len() && 0 <= j < after.len() && i
                != j implies after[i] != after[j] by {
            if i < slugs.len() {
                assert(slugs.contains(slugs[i]));
            }
            if j < slugs.len() {
                assert(slugs.contains(slugs[j]));
            }
        }
    }
}

/// The default locale is read back from a fingerprint, where its code holds no
/// semicolon.
pub proof fn fingerprints_tell_the_default(config: LocaleConfig)
    requires
        !config.default_locale@.contains(';'),
    ensures
        LocaleConfig::default_of(config.fingerprint_text()) == Some(config.default_locale@),
{
    reveal_strlit(";");
    assert(";"@ =~= seq![';']);
    let locales = join(config.locales.deep_view(), ","@);
    find_separator(config.default_locale@, ';', locales);
    assert(config.fingerprint_text().take(config.default_locale@.len() as int)
        =~= config.default_locale@);
}

/// Two configurations with the same fingerprint have the same default locale and
/// the same locales, where no code holds a semicolon or a comma and both have
/// locales: a fingerprint changes with either.
pub proof fn fingerprints_tell_configurations_apart(a: LocaleConfig, b: LocaleConfig)
    requires
        !a.default_locale@.contains(';'),
        !b.default_locale@.contains(';'),
        a.enabled(),
        b.enabled(),
        forall|i: int|
            0 <= i < a.locales.deep_view().len() ==> !(
            #[trigger] a.locales.deep_view()[i]).contains(','),
        forall|i: int|
            0 <= i < b.locales.deep_view().len() ==> !(
            #[trigger] b.locales.deep_view()[i]).contains(','),
        a.fingerprint_text() == b.fingerprint_text(),
    ensures
        a.default_locale@ == b.default_locale@,
        a.locales.deep_view() == b.locales.deep_view(),
{
    fingerprints_tell_the_default(a);
    fingerprints_tell_the_default(b);
    reveal_strlit(",");
    reveal_strlit(";");
    assert(","@ =~= seq![',']);
    let n = a.default_locale@.len() as int + 1;
    let left = join(a.locales.deep_view(), ","@);
    let right = join(b.locales.deep_view(), ","@);
    assert(a.fingerprint_text().skip(n) =~= left);
    assert(b.fingerprint_text().skip(n) =~= right);
    joined_lists_differ(a.locales.deep_view(), b.locales.deep_view(), ',');
}

/// A field's value is kept in one place: in a column of its table, or in rows of
/// its own, never in both.
pub proof fn a_value_has_one_place(field: FieldDefinition)
    ensures
        !(field.in_parent() && has_own_rows(field)),
        field.field_type != FieldType::Group && field.field_type != FieldType::Row
            && field.field_type != FieldType::Collapsible && field.field_type != FieldType::Tabs
            && field.field_type != FieldType::Join ==> field.in_parent() || has_own_rows(field),
{
}

/// Whether a field keeps its value in rows of a table of its own: arrays and blocks,
/// and references to many documents.
pub open spec fn has_own_rows(field: FieldDefinition) -> bool {
    match field.field_type {
        FieldType::Array | FieldType::Blocks => true,
        FieldType::Relationship | FieldType::Upload => field.refers_to_many(),
        _ => false,
    }
}

} // verus!
