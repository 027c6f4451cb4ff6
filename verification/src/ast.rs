//! The shapes of a parsed statement that a command is made from, as plain
//! values.
use vstd::prelude::*;

verus! {

/// One item of a `FROM` list: the text of its table and the number of tables
/// joined to it.
#[derive(Debug, PartialEq, Eq)]
pub struct Source {
    pub relation: String,
    pub joins: usize,
}

/// One item of a projection: `*`, or the text of anything else.
#[derive(Debug, PartialEq, Eq)]
pub enum Projected {
    Wildcard,
    Item(String),
}

/// One value expression of a `VALUES` row: the content of a quoted string,
/// the text of a number, or anything else.
#[derive(Debug, PartialEq, Eq)]
pub enum Literal {
    Quoted(String),
    Number(String),
    Other,
}

/// A flat `SELECT`.
#[derive(Debug, PartialEq, Eq)]
pub struct SelectAst {
    pub from: Vec<Source>,
    pub projection: Vec<Projected>,
}

/// An `INSERT`: its target, its column list, and the rows of its `VALUES`
/// list, if that is its source.
#[derive(Debug, PartialEq, Eq)]
pub struct InsertAst {
    pub table: String,
    pub columns: Vec<String>,
    pub rows: Option<Vec<Vec<Literal>>>,
}

/// A statement. A query that is not a flat `SELECT` holds nothing.
#[derive(Debug, PartialEq, Eq)]
pub enum Ast {
    Query(Option<SelectAst>),
    CreateTable,
    Insert(InsertAst),
    Update,
    Other,
}

pub ghost struct SourceView {
    pub relation: Seq<char>,
    pub joins: usize,
}

pub ghost enum ProjectedView {
    Wildcard,
    Item(Seq<char>),
}

pub ghost enum LiteralView {
    Quoted(Seq<char>),
    Number(Seq<char>),
    Other,
}

pub ghost struct SelectView {
    pub from: Seq<SourceView>,
    pub projection: Seq<ProjectedView>,
}

pub ghost struct InsertView {
    pub table: Seq<char>,
    pub columns: Seq<Seq<char>>,
    pub rows: Option<Seq<Seq<LiteralView>>>,
}

pub ghost enum AstView {
    Query(Option<SelectView>),
    CreateTable,
    Insert(InsertView),
    Update,
    Other,
}

impl DeepView for Source {
    type V = SourceView;

    open spec fn deep_view(&self) -> SourceView {
        SourceView { relation: self.relation@, joins: self.joins }
    }
}

impl DeepView for Projected {
    type V = ProjectedView;

    open spec fn deep_view(&self) -> ProjectedView {
        match self {
            Projected::Wildcard => ProjectedView::Wildcard,
            Projected::Item(text) => ProjectedView::Item(text@),
        }
    }
}

impl DeepView for Literal {
    type V = LiteralView;

    open spec fn deep_view(&self) -> LiteralView {
        match self {
            Literal::Quoted(text) => LiteralView::Quoted(text@),
            Literal::Number(text) => LiteralView::Number(text@),
            Literal::Other => LiteralView::Other,
        }
    }
}

impl DeepView for SelectAst {
    type V = SelectView;

    open spec fn deep_view(&self) -> SelectView {
        SelectView { from: self.from.deep_view(), projection: self.projection.deep_view() }
    }
}

impl DeepView for InsertAst {
    type V = InsertView;

    open spec fn deep_view(&self) -> InsertView {
        InsertView {
            table: self.table@,
            columns: self.columns.deep_view(),
            rows: self.rows.deep_view(),
        }
    }
}

impl DeepView for Ast {
    type V = AstView;

    open spec fn deep_view(&self) -> AstView {
        match self {
            Ast::Query(select) => AstView::Query(select.deep_view()),
            Ast::CreateTable => AstView::CreateTable,
            Ast::Insert(insert) => AstView::Insert(insert.deep_view()),
            Ast::Update => AstView::Update,
            Ast::Other => AstView::Other,
        }
    }
}

} // verus!
