//! Commands: what a client asks for, made from one parsed statement.
use vstd::prelude::*;
use sqlparser::ast::Statement;
use sqlparser::parser::ParserError;
use crate::ast::{Ast, AstView, InsertAst, InsertView, Literal, LiteralView, Projected,
    ProjectedView, SelectAst, SelectView};
use crate::data::{Data, DataView, Schema};
use crate::number::{integer_literal, parse_integer};
use crate::sql::{ast_of, first_statement, read, Refusal, Unread};

verus! {

/// One request of a client.
///
/// `CreateTable` and `Update` only record that the statement was of that
/// kind: their fields are left empty.
#[derive(Debug, PartialEq, Eq)]
#[allow(inconsistent_fields)]
pub enum Command {
    CreateTable { name: String, columns: Vec<Schema> },
    Select { name: String, columns: Vec<String> },
    Insert { name: String, columns: Vec<String>, values: Vec<Data> },
    Update { name: String, columns: Vec<String> },
}

/// Why a text gave no command.
#[derive(Debug, PartialEq, Eq)]
pub enum Error {
    /// The text is not a statement of the grammar.
    Parse(ParserError),
    /// The statement is of a shape that is not served, with the reason.
    Unsupported(String),
}

#[allow(inconsistent_fields)]
pub ghost enum CommandView {
    CreateTable { name: Seq<char>, columns: Seq<Schema> },
    Select { name: Seq<char>, columns: Seq<Seq<char>> },
    Insert { name: Seq<char>, columns: Seq<Seq<char>>, values: Seq<DataView> },
    Update { name: Seq<char>, columns: Seq<Seq<char>> },
}

pub ghost enum ErrorView {
    Parse(ParserError),
    Unsupported(Seq<char>),
}

impl From<ParserError> for Error {
    fn from(err: ParserError) -> (res: Error) {
        Error::Parse(err)
    }
}

impl vstd::std_specs::convert::FromSpecImpl<ParserError> for Error {
    open spec fn obeys_from_spec() -> bool {
        true
    }

    open spec fn from_spec(err: ParserError) -> Error {
        Error::Parse(err)
    }
}

impl View for Command {
    type V = CommandView;

    open spec fn view(&self) -> CommandView {
        match self {
            Command::CreateTable { name, columns } => CommandView::CreateTable {
                name: name@,
                columns: columns@,
            },
            Command::Select { name, columns } => CommandView::Select {
                name: name@,
                columns: columns.deep_view(),
            },
            Command::Insert { name, columns, values } => CommandView::Insert {
                name: name@,
                columns: columns.deep_view(),
                values: values.deep_view(),
            },
            Command::Update { name, columns } => CommandView::Update {
                name: name@,
                columns: columns.deep_view(),
            },
        }
    }
}

impl View for Error {
    type V = ErrorView;

    open spec fn view(&self) -> ErrorView {
        match self {
            Error::Parse(e) => ErrorView::Parse(*e),
            Error::Unsupported(reason) => ErrorView::Unsupported(reason@),
        }
    }
}

/// An outcome of parsing, by the views of its command or error.
pub open spec fn outcome(res: Result<Command, Error>) -> Result<CommandView, ErrorView> {
    match res {
        Ok(c) => Ok(c@),
        Err(e) => Err(e@),
    }
}

/// The value that a literal of a `VALUES` row stands for, or the reason why
/// it stands for none: a quoted string is a text, a number that is an
/// integer literal is an integer.
pub open spec fn value_of(l: LiteralView) -> Result<DataView, Seq<char>> {
    match l {
        LiteralView::Quoted(text) => Ok(DataView::String(text)),
        LiteralView::Number(text) => match integer_literal(text) {
            Some(n) => Ok(DataView::Integer(n)),
            None => Err("insert number isn't a 64-bit integer"@),
        },
        LiteralView::Other => Err("insert value isn't a string or number literal"@),
    }
}

/// The values of a row in order, or the reason of the first literal that
/// stands for none.
pub open spec fn values_of(row: Seq<LiteralView>) -> Result<Seq<DataView>, Seq<char>>
    decreases row.len(),
{
    if row.len() == 0 {
        Ok(Seq::empty())
    } else {
        match values_of(row.drop_last()) {
            Err(reason) => Err(reason),
            Ok(values) => match value_of(row.last()) {
                Ok(v) => Ok(values.push(v)),
                Err(reason) => Err(reason),
            },
        }
    }
}

/// The text of a projected item: `*` for the wildcard.
pub open spec fn projection_text(p: ProjectedView) -> Seq<char> {
    match p {
        ProjectedView::Wildcard => "*"@,
        ProjectedView::Item(text) => text,
    }
}

/// The command of a flat `SELECT`: it names exactly one table, joined to
/// none, and projects the texts of its items in order.
pub open spec fn select_command(s: SelectView) -> Result<CommandView, Seq<char>> {
    if s.from.len() > 1 {
        Err("select query should contain exactly 1 table"@)
    } else if s.from.len() == 0 {
        Err("no first table?"@)
    } else if s.from[0].joins > 0 {
        Err("select query should contain exactly 1 table"@)
    } else {
        Ok(
            CommandView::Select {
                name: s.from[0].relation,
                columns: s.projection.map_values(|p: ProjectedView| projection_text(p)),
            },
        )
    }
}

/// The command of an `INSERT`: its source is a `VALUES` list, of which the
/// first row is read and must hold literals only.
pub open spec fn insert_command(i: InsertView) -> Result<CommandView, Seq<char>> {
    match i.rows {
        None => Err("insert source isn't a VALUES list"@),
        Some(rows) => if rows.len() == 0 {
            Err("insert has no row of values"@)
        } else {
            match values_of(rows[0]) {
                Err(reason) => Err(reason),
                Ok(values) => Ok(
                    CommandView::Insert { name: i.table, columns: i.columns, values },
                ),
            }
        },
    }
}

/// The command that a statement asks for, or the reason why it is not served.
pub open spec fn command_of(a: AstView) -> Result<CommandView, Seq<char>> {
    match a {
        AstView::Query(None) => Err("query isn't a Select"@),
        AstView::Query(Some(s)) => select_command(s),
        AstView::CreateTable => Ok(
            CommandView::CreateTable { name: Seq::empty(), columns: Seq::empty() },
        ),
        AstView::Insert(i) => insert_command(i),
        AstView::Update => Ok(CommandView::Update { name: Seq::empty(), columns: Seq::empty() }),
        AstView::Other => Err("unsupported query"@),
    }
}

/// A reason as an outcome: the statement is not served.
pub open spec fn unsupported(r: Result<CommandView, Seq<char>>) -> Result<
    CommandView,
    ErrorView,
> {
    match r {
        Ok(c) => Ok(c),
        Err(reason) => Err(ErrorView::Unsupported(reason)),
    }
}

/// The outcome for the first statement of a text, if it has one.
pub open spec fn first_command(first: Option<AstView>) -> Result<CommandView, ErrorView> {
    match first {
        None => Err(ErrorView::Unsupported("no statement"@)),
        Some(a) => unsupported(command_of(a)),
    }
}

/// The reason given for a text that is kept from the parser.
pub open spec fn refusal_reason(why: Refusal) -> Seq<char> {
    match why {
        Refusal::TooLong => "request is longer than 1024 bytes"@,
        Refusal::Keyword => "request holds GRANT, REVOKE or FLUSH"@,
    }
}

/// The outcome for what reading a text gave: a text kept from the parser is
/// not served, a failure of the parser is handed on, and else the outcome is
/// that for the first statement.
pub open spec fn parse_outcome(r: Result<Seq<Statement>, Unread>) -> Result<
    CommandView,
    ErrorView,
> {
    match r {
        Err(Unread::Refused(why)) => Err(ErrorView::Unsupported(refusal_reason(why))),
        Err(Unread::Parse(e)) => Err(ErrorView::Parse(e)),
        Ok(stmts) => first_command(
            if stmts.len() == 0 {
                None
            } else {
                Some(ast_of(stmts[0]))
            },
        ),
    }
}

/// Once a beginning of a row has a literal that stands for no value, the row
/// fails with the reason of that beginning.
pub proof fn lemma_values_of_fails_early(row: Seq<LiteralView>, n: int)
    requires
        0 <= n <= row.len(),
        values_of(row.take(n)) is Err,
    ensures
        values_of(row) == values_of(row.take(n)),
    decreases row.len() - n,
{
    if n < row.len() {
        assert(row.take(n + 1).drop_last() =~= row.take(n));
        lemma_values_of_fails_early(row, n + 1);
    } else {
        assert(row.take(n) =~= row);
    }
}

/// An error that says that a statement is not served.
fn refuse(reason: &str) -> (e: Error)
    ensures
        e@ == ErrorView::Unsupported(reason@),
{
    Error::Unsupported(reason.to_owned())
}

/// The value that a literal stands for.
fn value_in(l: &Literal) -> (r: Result<Data, Error>)
    ensures
        match value_of(l.deep_view()) {
            Ok(v) => r matches Ok(d) && d@ == v,
            Err(reason) => r matches Err(e) && e@ == ErrorView::Unsupported(reason),
        },
{
    match l {
        Literal::Quoted(text) => Ok(Data::String(text.clone())),
        Literal::Number(text) => match parse_integer(text.as_str()) {
            Some(n) => Ok(Data::Integer(n)),
            None => Err(refuse("insert number isn't a 64-bit integer")),
        },
        Literal::Other => Err(refuse("insert value isn't a string or number literal")),
    }
}

/// The values that the literals of a row stand for.
fn values_in(row: &Vec<Literal>) -> (r: Result<Vec<Data>, Error>)
    ensures
        match values_of(row.deep_view()) {
            Ok(vs) => r matches Ok(ds) && ds.deep_view() == vs,
            Err(reason) => r matches Err(e) && e@ == ErrorView::Unsupported(reason),
        },
{
    let ghost lits = row.deep_view();
    let mut values: Vec<Data> = Vec::new();
    let mut i: usize = 0;
    assert(lits.take(0) =~= Seq::<LiteralView>::empty());
    assert(values.deep_view() =~= Seq::<DataView>::empty());
    while i < row.len()
        invariant
            i <= row.len(),
            lits == row.deep_view(),
            values_of(lits.take(i as int)) == Ok::<Seq<DataView>, Seq<char>>(values.deep_view()),
        decreases row.len() - i,
    {
        let ghost before = values.deep_view();
        proof {
            assert(lits.take(i + 1).drop_last() =~= lits.take(i as int));
            assert(lits.take(i + 1).last() == row[i as int].deep_view());
        }
        match value_in(&row[i]) {
            Ok(d) => {
                values.push(d);
                assert(values.deep_view() =~= before.push(d@));
            },
            Err(e) => {
                proof {
                    lemma_values_of_fails_early(lits, i + 1);
                }
                return Err(e);
            },
        }
        i += 1;
    }
    assert(lits.take(i as int) =~= lits);
    Ok(values)
}

/// A copy of a list of texts.
fn clone_texts(texts: &Vec<String>) -> (r: Vec<String>)
    ensures
        r.deep_view() == texts.deep_view(),
{
    let mut r: Vec<String> = Vec::new();
    let mut i: usize = 0;
    while i < texts.len()
        invariant
            i <= texts.len(),
            r.len() == i,
            forall|k: int| 0 <= k < i ==> #[trigger] r[k]@ == texts[k]@,
        decreases texts.len() - i,
    {
        r.push(texts[i].clone());
        i += 1;
    }
    assert(r.deep_view() =~= texts.deep_view());
    r
}

/// The texts of the items of a projection.
fn projection_texts(items: &Vec<Projected>) -> (r: Vec<String>)
    ensures
        r.deep_view() == items.deep_view().map_values(|p: ProjectedView| projection_text(p)),
{
    let mut r: Vec<String> = Vec::new();
    let mut i: usize = 0;
    while i < items.len()
        invariant
            i <= items.len(),
            r.len() == i,
            forall|k: int| 0 <= k < i ==> #[trigger] r[k]@ == projection_text(items[k].deep_view()),
        decreases items.len() - i,
    {
        let text = match &items[i] {
            Projected::Wildcard => "*".to_owned(),
            Projected::Item(text) => text.clone(),
        };
        r.push(text);
        i += 1;
    }
    assert(r.deep_view() =~= items.deep_view().map_values(
        |p: ProjectedView| projection_text(p),
    ));
    r
}

impl Command {
    /// The command of a flat `SELECT`.
    fn from_select(s: &SelectAst) -> (res: Result<Command, Error>)
        ensures
            outcome(res) == unsupported(select_command(s.deep_view())),
    {
        if s.from.len() > 1 {
            return Err(refuse("select query should contain exactly 1 table"));
        }
        if s.from.len() == 0 {
            return Err(refuse("no first table?"));
        }
        assert(s.deep_view().from[0] == s.from[0].deep_view());
        if s.from[0].joins > 0 {
            return Err(refuse("select query should contain exactly 1 table"));
        }
        Ok(
            Command::Select {
                name: s.from[0].relation.clone(),
                columns: projection_texts(&s.projection),
            },
        )
    }

    /// The command of an `INSERT`.
    fn from_insert(i: &InsertAst) -> (res: Result<Command, Error>)
        ensures
            outcome(res) == unsupported(insert_command(i.deep_view())),
    {
        match &i.rows {
            None => Err(refuse("insert source isn't a VALUES list")),
            Some(rows) => {
                if rows.len() == 0 {
                    return Err(refuse("insert has no row of values"));
                }
                assert(rows.deep_view()[0] == rows[0].deep_view());
                match values_in(&rows[0]) {
                    Err(e) => Err(e),
                    Ok(values) => Ok(
                        Command::Insert {
                            name: i.table.clone(),
                            columns: clone_texts(&i.columns),
                            values,
                        },
                    ),
                }
            },
        }
    }

    /// The command that a statement asks for, or why it is not served.
    pub fn from_ast(ast: &Ast) -> (res: Result<Command, Error>)
        ensures
            outcome(res) == unsupported(command_of(ast.deep_view())),
    {
        match ast {
            Ast::Query(None) => Err(refuse("query isn't a Select")),
            Ast::Query(Some(s)) => Command::from_select(s),
            Ast::CreateTable => {
                let columns: Vec<Schema> = Vec::new();
                assert(columns@ =~= Seq::<Schema>::empty());
                Ok(Command::CreateTable { name: String::new(), columns })
            },
            Ast::Insert(i) => Command::from_insert(i),
            Ast::Update => {
                let columns: Vec<String> = Vec::new();
                assert(columns.deep_view() =~= Seq::<Seq<char>>::empty());
                Ok(Command::Update { name: String::new(), columns })
            },
            Ast::Other => Err(refuse("unsupported query")),
        }
    }

    /// The command that the first statement of a text asks for, or why there
    /// is none: the text is kept from the parser, does not parse, holds no
    /// statement, or its first statement is not served.
    pub fn parse(sql: &str) -> (res: Result<Command, Error>)
        ensures
            outcome(res) == parse_outcome(read(sql@)),
    {
        match first_statement(sql) {
            Err(Unread::Refused(Refusal::TooLong)) => Err(
                refuse("request is longer than 1024 bytes"),
            ),
            Err(Unread::Refused(Refusal::Keyword)) => Err(
                refuse("request holds GRANT, REVOKE or FLUSH"),
            ),
            Err(Unread::Parse(e)) => Err(Error::from(e)),
            Ok(None) => Err(refuse("no statement")),
            Ok(Some(ast)) => Command::from_ast(&ast),
        }
    }
}

} // verus!
