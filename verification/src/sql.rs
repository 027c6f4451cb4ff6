//! The door to the SQL grammar: `sqlparser` parses, and this module reads from
//! its syntax tree the plain values that a command is made from.
//!
//! Nothing about `sqlparser` is proved. What is taken on trust is marked
//! `external_body` below and kept small; everything else is verified against
//! it.
use vstd::prelude::*;
use vstd::string::StringSliceAdditionalSpecFns;
use vstd::utf8::encode_utf8;
use sqlparser::ast::{Expr, SelectItem, SetExpr, Statement, Value};
use sqlparser::dialect::GenericDialect;
use sqlparser::parser::{Parser, ParserError};
use crate::ast::{Ast, AstView, InsertAst, Literal, LiteralView, Projected, SelectAst, Source};

verus! {

/// `sqlparser::ast::Statement`: one parsed statement, opaque here.
#[verifier::external_type_specification]
#[verifier::external_body]
pub struct ExStatement(sqlparser::ast::Statement);

/// `sqlparser::ast::Expr`: one parsed expression, opaque here.
#[verifier::external_type_specification]
#[verifier::external_body]
pub struct ExExpr(sqlparser::ast::Expr);

/// `sqlparser::parser::ParserError`: why a text did not parse, opaque here.
#[verifier::external_type_specification]
#[verifier::external_body]
pub struct ExParserError(sqlparser::parser::ParserError);

/// What `Parser::parse_sql` with the generic dialect makes of a text: its
/// statements in order, or the parser's error.
pub uninterp spec fn parsed(sql: Seq<char>) -> Result<Seq<Statement>, ParserError>;

/// What `str::to_uppercase` makes of a text.
pub uninterp spec fn upper(text: Seq<char>) -> Seq<char>;

/// The most bytes that a text handed to the parser may have.
pub const MAX_SQL_LEN: usize = 1024;

/// Why a text is kept from the parser.
#[derive(Debug, Clone, Copy, PartialEq, Eq, Structural)]
pub enum Refusal {
    /// It has more than `MAX_SQL_LEN` bytes.
    TooLong,
    /// In upper case it holds `GRANT`, `REVOKE` or `FLUSH`.
    Keyword,
}

/// Whether `word` stands in `text` at position `i`.
pub open spec fn holds_at(text: Seq<u8>, word: Seq<u8>, i: int) -> bool {
    0 <= i && i + word.len() <= text.len() && text.subrange(i, i + word.len()) == word
}

/// Whether `word` stands somewhere in `text`.
pub open spec fn holds(text: Seq<u8>, word: Seq<u8>) -> bool {
    exists|i: int| holds_at(text, word, i)
}

/// Whether a text, put in upper case, holds `word`, both taken as UTF-8.
pub open spec fn mentions(sql: Seq<char>, word: Seq<char>) -> bool {
    holds(encode_utf8(upper(sql)), encode_utf8(word))
}

/// Why a text is kept from the parser, if it is. The parser unwraps a failed
/// parse inside its `GRANT`, `REVOKE` and `FLUSH` statements, which it
/// enters on a word that is one of these in upper case; and it builds trees
/// as deep as the text is long.
pub open spec fn refusal(sql: Seq<char>) -> Option<Refusal> {
    if encode_utf8(sql).len() > MAX_SQL_LEN {
        Some(Refusal::TooLong)
    } else if mentions(sql, "GRANT"@) || mentions(sql, "REVOKE"@) || mentions(sql, "FLUSH"@) {
        Some(Refusal::Keyword)
    } else {
        None
    }
}

/// Whether a text may be handed to the parser.
pub open spec fn screened(sql: Seq<char>) -> bool {
    refusal(sql) is None
}

/// The statement at position `i` of what the parser makes of a screened
/// text, if there is one.
pub open spec fn statement_at(sql: Seq<char>, i: int) -> Option<Statement> {
    match parsed(sql) {
        Ok(stmts) => if screened(sql) && 0 <= i < stmts.len() {
            Some(stmts[i])
        } else {
            None
        },
        Err(_) => None,
    }
}

/// Whether a statement is one that the parser made of a screened text.
pub open spec fn parsed_statement(stmt: Statement) -> bool {
    exists|sql: Seq<char>, i: int| #[trigger] statement_at(sql, i) == Some(stmt)
}

/// What a statement of `sqlparser` holds of the shapes in [`crate::ast`].
pub uninterp spec fn ast_of(stmt: Statement) -> AstView;

/// What an expression of `sqlparser` is as a value of a `VALUES` row.
pub uninterp spec fn literal_of(expr: Expr) -> LiteralView;

/// The kinds of statement that are told apart.
#[derive(Debug, Clone, Copy, PartialEq, Eq, Structural)]
pub enum StatementKind {
    Query,
    CreateTable,
    Insert,
    Update,
    Other,
}

/// The kind of a statement.
pub open spec fn kind_of(a: AstView) -> StatementKind {
    match a {
        AstView::Query(_) => StatementKind::Query,
        AstView::CreateTable => StatementKind::CreateTable,
        AstView::Insert(_) => StatementKind::Insert,
        AstView::Update => StatementKind::Update,
        AstView::Other => StatementKind::Other,
    }
}

/// The rows of expressions as rows of values.
pub open spec fn literal_rows(rows: Seq<Vec<Expr>>) -> Seq<Seq<LiteralView>> {
    Seq::new(rows.len(), |i: int| Seq::new(rows[i]@.len(), |j: int| literal_of(rows[i]@[j])))
}

/// Calls `str::to_uppercase`. The contract only gives the result its name.
#[verifier::external_body]
fn to_upper(text: &str) -> (r: String)
    ensures
        r@ == upper(text@),
{
    text.to_uppercase()
}

/// Calls `Parser::parse_sql` with `GenericDialect`, on a screened text only.
/// The contract only gives the outcome its name: the same text always parses
/// to the same outcome.
///
/// That the call returns rests on this: in the parser and its tokenizer every
/// `unwrap`, `unreachable!`, `panic!` and `assert!` is guarded by a test just
/// before it, but for the three in `parse_grant`, `parse_revoke` and
/// `parse_flush`. Those are entered on an unquoted word whose `to_uppercase`
/// is `GRANT`, `REVOKE` or `FLUSH`; such a word is a piece of the text, and
/// `to_uppercase` works character by character, so the text in upper case
/// holds that keyword.
#[verifier::external_body]
fn parse_sql(sql: &str) -> (r: Result<Vec<Statement>, ParserError>)
    requires
        screened(sql@),
    ensures
        match r {
            Ok(v) => parsed(sql@) == Ok::<Seq<Statement>, ParserError>(v@),
            Err(e) => parsed(sql@) == Err::<Seq<Statement>, ParserError>(e),
        },
{
    Parser::parse_sql(&GenericDialect {}, sql)
}

/// Tells the variants of `Statement` apart: `Query`, `CreateTable`, `Insert`,
/// `Update`, and all others as one.
#[verifier::external_body]
fn statement_kind(stmt: &Statement) -> (k: StatementKind)
    ensures
        k == kind_of(ast_of(*stmt)),
{
    match stmt {
        Statement::Query(_) => StatementKind::Query,
        Statement::CreateTable(_) => StatementKind::CreateTable,
        Statement::Insert(_) => StatementKind::Insert,
        Statement::Update { .. } => StatementKind::Update,
        _ => StatementKind::Other,
    }
}

/// Reads a flat `SELECT` out of a `Statement::Query`: `SetExpr::as_select` on
/// the query's body, then for each item of `from` the text of its relation
/// (`to_string`) and the number of its joins, and for each item of the
/// projection `*` for a `SelectItem::Wildcard` or else its text
/// (`to_string`). Nothing for any other statement or body. `to_string`
/// panics on an identifier with a quote that is none of the four that the
/// tokenizer knows, which the parser never makes: only its statements are
/// admitted.
#[verifier::external_body]
fn select_of(stmt: &Statement) -> (r: Option<SelectAst>)
    requires
        parsed_statement(*stmt),
    ensures
        r.deep_view() == (match ast_of(*stmt) {
            AstView::Query(s) => s,
            _ => None,
        }),
{
    let Statement::Query(q) = stmt else { return None };
    let s = q.body.as_select()?;
    let from = s.from.iter().map(
        |t| Source { relation: t.relation.to_string(), joins: t.joins.len() },
    );
    let projection = s.projection.iter().map(
        |p| match p {
            SelectItem::Wildcard(_) => Projected::Wildcard,
            _ => Projected::Item(p.to_string()),
        },
    );
    Some(SelectAst { from: from.collect(), projection: projection.collect() })
}

/// Reads the target and the column list of a `Statement::Insert`, the fields
/// `table` and `columns`, each as its text (`to_string`). Nothing for any
/// other statement. Only statements of the parser are admitted, as for
/// `select_of`.
#[verifier::external_body]
fn insert_head(stmt: &Statement) -> (r: Option<(String, Vec<String>)>)
    requires
        parsed_statement(*stmt),
    ensures
        match ast_of(*stmt) {
            AstView::Insert(i) => r matches Some(h) && h.0@ == i.table && h.1.deep_view()
                == i.columns,
            _ => r is None,
        },
{
    match stmt {
        Statement::Insert(i) => Some(
            (i.table.to_string(), i.columns.iter().map(|c| c.to_string()).collect()),
        ),
        _ => None,
    }
}

/// Reads the rows of a `Statement::Insert` whose source is a `VALUES` list
/// (the field `source` holds a query whose body is `SetExpr::Values`): a
/// copy of the field `rows`. Nothing for any other source or statement. Only
/// statements of the parser are admitted: their expressions are no deeper
/// than a screened text is long.
#[verifier::external_body]
fn insert_rows(stmt: &Statement) -> (r: Option<Vec<Vec<Expr>>>)
    requires
        parsed_statement(*stmt),
    ensures
        match ast_of(*stmt) {
            AstView::Insert(i) => match (i.rows, r) {
                (Some(rows), Some(v)) => literal_rows(v@) == rows,
                (None, None) => true,
                _ => false,
            },
            _ => r is None,
        },
{
    let Statement::Insert(i) = stmt else { return None };
    match i.source.as_deref().map(|q| q.body.as_ref()) {
        Some(SetExpr::Values(v)) => Some(v.rows.clone()),
        _ => None,
    }
}

/// Tells the variants of `Expr` apart: a `Value::SingleQuotedString` with its
/// content, a `Value::Number` with its text, and all others as one.
#[verifier::external_body]
fn literal_in(expr: &Expr) -> (r: Literal)
    ensures
        r.deep_view() == literal_of(*expr),
{
    match expr {
        Expr::Value(Value::SingleQuotedString(s)) => Literal::Quoted(s.clone()),
        Expr::Value(Value::Number(n, _)) => Literal::Number(n.clone()),
        _ => Literal::Other,
    }
}

/// One row of expressions as a row of values.
fn lower_row(row: &Vec<Expr>) -> (r: Vec<Literal>)
    ensures
        r.deep_view() == Seq::new(row@.len(), |j: int| literal_of(row@[j])),
{
    let mut r: Vec<Literal> = Vec::new();
    let mut j: usize = 0;
    while j < row.len()
        invariant
            j <= row.len(),
            r.len() == j,
            forall|k: int| 0 <= k < j ==> #[trigger] r[k].deep_view() == literal_of(row@[k]),
        decreases row.len() - j,
    {
        r.push(literal_in(&row[j]));
        j += 1;
    }
    assert(r.deep_view() =~= Seq::new(row@.len(), |j: int| literal_of(row@[j])));
    r
}

/// The rows of expressions as rows of values.
fn lower_rows(rows: &Vec<Vec<Expr>>) -> (r: Vec<Vec<Literal>>)
    ensures
        r.deep_view() == literal_rows(rows@),
{
    let mut r: Vec<Vec<Literal>> = Vec::new();
    let mut i: usize = 0;
    while i < rows.len()
        invariant
            i <= rows.len(),
            r.len() == i,
            forall|k: int| 0 <= k < i ==> #[trigger] r[k].deep_view() == literal_rows(rows@)[k],
        decreases rows.len() - i,
    {
        r.push(lower_row(&rows[i]));
        i += 1;
    }
    assert(r.deep_view() =~= literal_rows(rows@));
    r
}

/// Reads from a statement of the parser the shapes that a command is made
/// from.
fn lower(stmt: &Statement) -> (a: Ast)
    requires
        parsed_statement(*stmt),
    ensures
        a.deep_view() == ast_of(*stmt),
{
    match statement_kind(stmt) {
        StatementKind::Query => Ast::Query(select_of(stmt)),
        StatementKind::CreateTable => Ast::CreateTable,
        StatementKind::Update => Ast::Update,
        StatementKind::Other => Ast::Other,
        StatementKind::Insert => {
            let rows = match insert_rows(stmt) {
                Some(exprs) => Some(lower_rows(&exprs)),
                None => None,
            };
            match insert_head(stmt) {
                Some((table, columns)) => Ast::Insert(InsertAst { table, columns, rows }),
                None => Ast::Other,
            }
        },
    }
}

/// Whether `word` stands somewhere in `text`.
pub fn contains_word(text: &[u8], word: &[u8]) -> (found: bool)
    ensures
        found == holds(text@, word@),
{
    if word.len() > text.len() {
        assert forall|i: int| !holds_at(text@, word@, i) by {}
        return false;
    }
    let last: usize = text.len() - word.len();
    let mut i: usize = 0;
    while i <= last
        invariant
            i <= last + 1,
            last == text.len() - word.len(),
            forall|k: int| 0 <= k < i ==> !holds_at(text@, word@, k),
        decreases last + 1 - i,
    {
        let mut j: usize = 0;
        while j < word.len() && text[i + j] == word[j]
            invariant
                j <= word.len(),
                i + word.len() <= text.len(),
                forall|k: int| 0 <= k < j ==> text[i + k] == word[k],
            decreases word.len() - j,
        {
            j += 1;
        }
        if j == word.len() {
            assert(text@.subrange(i as int, i + word.len()) =~= word@);
            assert(holds_at(text@, word@, i as int));
            return true;
        }
        assert(!holds_at(text@, word@, i as int)) by {
            if holds_at(text@, word@, i as int) {
                assert(text@.subrange(i as int, i + word.len())[j as int] == word@[j as int]);
            }
        }
        i += 1;
    }
    assert forall|k: int| !holds_at(text@, word@, k) by {}
    false
}

/// Why a text is kept from the parser, if it is.
pub fn screen(sql: &str) -> (r: Option<Refusal>)
    ensures
        r == refusal(sql@),
{
    if sql.as_bytes().len() > MAX_SQL_LEN {
        return Some(Refusal::TooLong);
    }
    let raised = to_upper(sql);
    let text = raised.as_str().as_bytes();
    let grant = "GRANT".as_bytes();
    let revoke = "REVOKE".as_bytes();
    let flush = "FLUSH".as_bytes();
    if contains_word(text, grant) || contains_word(text, revoke) || contains_word(text, flush) {
        Some(Refusal::Keyword)
    } else {
        None
    }
}

/// Why a text gave no statements: it was kept from the parser, or the parser
/// failed on it.
#[derive(Debug, PartialEq, Eq)]
pub enum Unread {
    Refused(Refusal),
    Parse(ParserError),
}

/// What reading a text gives: nothing where the text is kept from the
/// parser, else what the parser made of it.
pub open spec fn read(sql: Seq<char>) -> Result<Seq<Statement>, Unread> {
    match refusal(sql) {
        Some(why) => Err(Unread::Refused(why)),
        None => match parsed(sql) {
            Ok(stmts) => Ok(stmts),
            Err(e) => Err(Unread::Parse(e)),
        },
    }
}

/// Screens a text, parses it into its statements and reads the first of
/// them, if there is one.
pub fn first_statement(sql: &str) -> (r: Result<Option<Ast>, Unread>)
    ensures
        match read(sql@) {
            Ok(stmts) => r matches Ok(first) && first.deep_view() == (if stmts.len() == 0 {
                None
            } else {
                Some(ast_of(stmts[0]))
            }),
            Err(e) => r == Err::<Option<Ast>, Unread>(e),
        },
{
    match screen(sql) {
        Some(why) => Err(Unread::Refused(why)),
        None => match parse_sql(sql) {
            Ok(stmts) => {
                if stmts.len() == 0 {
                    Ok(None)
                } else {
                    assert(statement_at(sql@, 0) == Some(stmts[0]));
                    Ok(Some(lower(&stmts[0])))
                }
            },
            Err(e) => Err(Unread::Parse(e)),
        },
    }
}

} // verus!
