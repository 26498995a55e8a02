//! What a read of documents asks for.
use crate::json::{Json, JsonView, json_view};
use crate::snapshot::{LocaleContext, LocaleMode};

use vstd::prelude::*;

verus! {

/// What a filter asks of a field's value.
#[derive(Debug, PartialEq, Eq)]
pub enum FilterOp {
    Equals(String),
    NotEquals(String),
    Like(String),
    Contains(String),
    GreaterThan(String),
    LessThan(String),
    GreaterThanOrEqual(String),
    LessThanOrEqual(String),
    In(Vec<String>),
    NotIn(Vec<String>),
    Exists,
    NotExists,
}

/// The mathematical value of a [`FilterOp`].
#[verifier::ext_equal]
pub ghost enum FilterOpView {
    Equals(Seq<char>),
    NotEquals(Seq<char>),
    Like(Seq<char>),
    Contains(Seq<char>),
    GreaterThan(Seq<char>),
    LessThan(Seq<char>),
    GreaterThanOrEqual(Seq<char>),
    LessThanOrEqual(Seq<char>),
    In(Seq<Seq<char>>),
    NotIn(Seq<Seq<char>>),
    Exists,
    NotExists,
}

impl DeepView for FilterOp {
    type V = FilterOpView;

    open spec fn deep_view(&self) -> FilterOpView {
        match self {
            FilterOp::Equals(v) => FilterOpView::Equals(v@),
            FilterOp::NotEquals(v) => FilterOpView::NotEquals(v@),
            FilterOp::Like(v) => FilterOpView::Like(v@),
            FilterOp::Contains(v) => FilterOpView::Contains(v@),
            FilterOp::GreaterThan(v) => FilterOpView::GreaterThan(v@),
            FilterOp::LessThan(v) => FilterOpView::LessThan(v@),
            FilterOp::GreaterThanOrEqual(v) => FilterOpView::GreaterThanOrEqual(v@),
            FilterOp::LessThanOrEqual(v) => FilterOpView::LessThanOrEqual(v@),
            FilterOp::In(v) => FilterOpView::In(v.deep_view()),
            FilterOp::NotIn(v) => FilterOpView::NotIn(v.deep_view()),
            FilterOp::Exists => FilterOpView::Exists,
            FilterOp::NotExists => FilterOpView::NotExists,
        }
    }
}

/// A demand on one field.
#[derive(Debug, PartialEq, Eq)]
pub struct Filter {
    pub field: String,
    pub op: FilterOp,
}

/// The mathematical value of a [`Filter`].
#[verifier::ext_equal]
pub ghost struct FilterView {
    pub field: Seq<char>,
    pub op: FilterOpView,
}

impl DeepView for Filter {
    type V = FilterView;

    open spec fn deep_view(&self) -> FilterView {
        FilterView { field: self.field@, op: self.op.deep_view() }
    }
}

/// A demand a document has to meet.
#[derive(Debug, PartialEq, Eq)]
pub enum FilterClause {
    Single(Filter),
    /// One of the groups, and all of it.
    Or(Vec<Vec<Filter>>),
}

/// The mathematical value of a [`FilterClause`].
#[verifier::ext_equal]
pub ghost enum FilterClauseView {
    Single(FilterView),
    Or(Seq<Seq<FilterView>>),
}

impl DeepView for FilterClause {
    type V = FilterClauseView;

    open spec fn deep_view(&self) -> FilterClauseView {
        match self {
            FilterClause::Single(f) => FilterClauseView::Single(f.deep_view()),
            FilterClause::Or(groups) => FilterClauseView::Or(groups.deep_view()),
        }
    }
}

/// A read of several documents.
#[derive(Debug, PartialEq, Eq)]
pub struct FindQuery {
    pub filters: Vec<FilterClause>,
    /// Whether documents marked as deleted are read too.
    pub include_deleted: bool,
    pub order_by: Option<String>,
    pub limit: Option<u64>,
    pub offset: Option<u64>,
}

/// The mathematical value of a [`FindQuery`].
#[verifier::ext_equal]
pub ghost struct FindQueryView {
    pub filters: Seq<FilterClauseView>,
    pub include_deleted: bool,
    pub order_by: Option<Seq<char>>,
    pub limit: Option<u64>,
    pub offset: Option<u64>,
}

impl DeepView for FindQuery {
    type V = FindQueryView;

    open spec fn deep_view(&self) -> FindQueryView {
        FindQueryView {
            filters: self.filters.deep_view(),
            include_deleted: self.include_deleted,
            order_by: self.order_by.deep_view(),
            limit: self.limit,
            offset: self.offset,
        }
    }
}

/// The mathematical value of a [`LocaleContext`].
#[verifier::ext_equal]
pub ghost struct LocaleContextView {
    /// The one locale asked for, where it is one.
    pub single: Option<Seq<char>>,
    /// Whether every locale is asked for.
    pub all: bool,
    pub default_locale: Seq<char>,
    pub locales: Seq<Seq<char>>,
    pub fallback: bool,
}

impl DeepView for LocaleContext {
    type V = LocaleContextView;

    open spec fn deep_view(&self) -> LocaleContextView {
        LocaleContextView {
            single: match self.mode {
                LocaleMode::Single(locale) => Some(locale@),
                _ => None,
            },
            all: self.mode is All,
            default_locale: self.config.default_locale@,
            locales: self.config.locales.deep_view(),
            fallback: self.config.fallback,
        }
    }
}

/// The mathematical value of an optional locale context.
pub open spec fn context_view(ctx: Option<&LocaleContext>) -> Option<LocaleContextView> {
    match ctx {
        Some(c) => Some(c.deep_view()),
        None => None,
    }
}

/// Another locale context equal to this one.
pub fn copy_context(ctx: Option<&LocaleContext>) -> (r: Option<LocaleContext>)
    ensures
        r.deep_view() == context_view(ctx),
{
    match ctx {
        None => None,
        Some(c) => Some(
            LocaleContext {
                mode: match &c.mode {
                    LocaleMode::Default => LocaleMode::Default,
                    LocaleMode::Single(locale) => LocaleMode::Single(locale.clone()),
                    LocaleMode::All => LocaleMode::All,
                },
                config: c.config.copy(),
            },
        ),
    }
}

/// A stored version of a document.
#[derive(Debug, PartialEq, Eq)]
pub struct VersionSnapshot {
    pub status: String,
    pub snapshot: Json,
}

/// The mathematical value of a [`VersionSnapshot`].
#[verifier::ext_equal]
pub ghost struct VersionView {
    pub status: Seq<char>,
    pub snapshot: JsonView,
}

impl DeepView for VersionSnapshot {
    type V = VersionView;

    open spec fn deep_view(&self) -> VersionView {
        VersionView { status: self.status@, snapshot: json_view(self.snapshot) }
    }
}

impl VersionSnapshot {
    /// Another version equal to this one.
    pub fn copy(&self) -> (r: VersionSnapshot)
        ensures
            r.deep_view() == self.deep_view(),
    {
        VersionSnapshot { status: self.status.clone(), snapshot: self.snapshot.copy() }
    }
}

} // verus!
