//! One exchange: a request is parsed, routed by the kind of its command,
//! served from the table, and answered.
//!
//! The functions here decide; waiting for the request, for the table's lock
//! and for the response to be sent is the caller's part.
use vstd::prelude::*;
use crate::cmd::{Command, CommandView, Error, ErrorView, parse_outcome};
use crate::data::{Data, DataView};
use crate::sql::read;
use crate::sstable::{flatten, taken, upserted};
use crate::table::{Table, conforms};

verus! {

/// The number of keys that a `Select` reads.
pub const READ_LIMIT: usize = 20;

/// How the table is held while a command is served.
#[derive(Debug, Clone, Copy, PartialEq, Eq, Structural)]
pub enum Lock {
    Read,
    Write,
}

/// Why an `Insert` cannot be served.
#[derive(Debug, Clone, Copy, PartialEq, Eq, Structural)]
pub enum RouteError {
    /// It has no values, so no key.
    NoValues,
    /// Its first value, the key, is not a text.
    KeyNotString,
}

/// What is to be done for a command.
#[derive(Debug, PartialEq, Eq)]
pub enum Route {
    /// Read the rows of the first `limit` keys.
    Read { limit: usize },
    /// Put `values` under `key`.
    Write { key: String, values: Vec<Data> },
    /// Nothing: the command is handed back.
    Echo(Command),
}

/// The answer of an exchange.
#[derive(Debug, PartialEq, Eq)]
pub enum Response {
    /// The values read.
    Results(Vec<Data>),
    /// The row was put.
    Inserted,
    /// The row does not fit the table.
    Rejected(crate::table::Error),
    /// The command is known and not carried out.
    Echo(Command),
    /// The request gave no command.
    Unexpected(Error),
    /// The command cannot be served.
    Misrouted(RouteError),
}

/// The states of an exchange, from the wait for its request to its answer.
#[derive(Debug, PartialEq, Eq)]
pub enum Exchange {
    AwaitingRequest,
    Parsed(Command),
    Routed(Route),
    Responded(Response),
}

pub ghost enum RouteView {
    Read { limit: usize },
    Write { key: Seq<char>, values: Seq<DataView> },
    Echo(CommandView),
}

pub ghost enum ResponseView {
    Results(Seq<DataView>),
    Inserted,
    Rejected(crate::table::Error),
    Echo(CommandView),
    Unexpected(ErrorView),
    Misrouted(RouteError),
}

pub ghost enum ExchangeView {
    AwaitingRequest,
    Parsed(CommandView),
    Routed(RouteView),
    Responded(ResponseView),
}

impl View for Route {
    type V = RouteView;

    open spec fn view(&self) -> RouteView {
        match self {
            Route::Read { limit } => RouteView::Read { limit: *limit },
            Route::Write { key, values } => RouteView::Write {
                key: key@,
                values: values.deep_view(),
            },
            Route::Echo(c) => RouteView::Echo(c@),
        }
    }
}

impl View for Response {
    type V = ResponseView;

    open spec fn view(&self) -> ResponseView {
        match self {
            Response::Results(values) => ResponseView::Results(values.deep_view()),
            Response::Inserted => ResponseView::Inserted,
            Response::Rejected(e) => ResponseView::Rejected(*e),
            Response::Echo(c) => ResponseView::Echo(c@),
            Response::Unexpected(e) => ResponseView::Unexpected(e@),
            Response::Misrouted(e) => ResponseView::Misrouted(*e),
        }
    }
}

impl View for Exchange {
    type V = ExchangeView;

    open spec fn view(&self) -> ExchangeView {
        match self {
            Exchange::AwaitingRequest => ExchangeView::AwaitingRequest,
            Exchange::Parsed(c) => ExchangeView::Parsed(c@),
            Exchange::Routed(r) => ExchangeView::Routed(r@),
            Exchange::Responded(r) => ExchangeView::Responded(r@),
        }
    }
}

/// What is to be done for a command: a `Select` reads with the fixed limit;
/// an `Insert` writes its values under its first value, which must be there
/// and be a text; any other command is handed back.
pub open spec fn routed(c: CommandView) -> Result<RouteView, RouteError> {
    match c {
        CommandView::Select { .. } => Ok(RouteView::Read { limit: READ_LIMIT }),
        CommandView::Insert { values, .. } => if values.len() == 0 {
            Err(RouteError::NoValues)
        } else {
            match values[0] {
                DataView::String(key) => Ok(RouteView::Write { key, values }),
                DataView::Integer(_) => Err(RouteError::KeyNotString),
            }
        },
        _ => Ok(RouteView::Echo(c)),
    }
}

/// The state after a request came in: an exchange that waited for it is
/// parsed, or answered with the reason why the request gave no command.
/// Every other state stays.
pub open spec fn received(x: ExchangeView, p: Result<CommandView, ErrorView>) -> ExchangeView {
    match x {
        ExchangeView::AwaitingRequest => match p {
            Ok(c) => ExchangeView::Parsed(c),
            Err(e) => ExchangeView::Responded(ResponseView::Unexpected(e)),
        },
        _ => x,
    }
}

/// The state after a step that needs no table: a parsed command is routed,
/// or answered where it cannot be served; a command to hand back is
/// answered with it. Every other state stays.
pub open spec fn advanced(x: ExchangeView) -> ExchangeView {
    match x {
        ExchangeView::Parsed(c) => match routed(c) {
            Ok(r) => ExchangeView::Routed(r),
            Err(e) => ExchangeView::Responded(ResponseView::Misrouted(e)),
        },
        ExchangeView::Routed(RouteView::Echo(c)) => ExchangeView::Responded(ResponseView::Echo(c)),
        _ => x,
    }
}

/// How the table must be held for the next step, if it is needed at all.
pub open spec fn lock_of(x: ExchangeView) -> Option<Lock> {
    match x {
        ExchangeView::Routed(RouteView::Read { .. }) => Some(Lock::Read),
        ExchangeView::Routed(RouteView::Write { .. }) => Some(Lock::Write),
        _ => None,
    }
}

/// What is to be done for a command.
pub fn route(cmd: Command) -> (r: Result<Route, RouteError>)
    ensures
        match routed(cmd@) {
            Ok(v) => r matches Ok(route) && route@ == v,
            Err(e) => r == Err::<Route, RouteError>(e),
        },
{
    match cmd {
        Command::Select { name, columns } => Ok(Route::Read { limit: READ_LIMIT }),
        Command::Insert { name, columns, values } => {
            if values.len() == 0 {
                return Err(RouteError::NoValues);
            }
            assert(values.deep_view()[0] == values[0]@);
            let key = match &values[0] {
                Data::String(text) => text.clone(),
                Data::Integer(_) => {
                    return Err(RouteError::KeyNotString);
                },
            };
            Ok(Route::Write { key, values })
        },
        other => Ok(Route::Echo(other)),
    }
}

impl Exchange {
    /// Takes the request in.
    pub fn receive(self, sql: &str) -> (x: Exchange)
        ensures
            x@ == received(self@, parse_outcome(read(sql@))),
    {
        match self {
            Exchange::AwaitingRequest => match Command::parse(sql) {
                Ok(cmd) => Exchange::Parsed(cmd),
                Err(e) => Exchange::Responded(Response::Unexpected(e)),
            },
            other => other,
        }
    }

    /// Takes the step that needs no table.
    pub fn advance(self) -> (x: Exchange)
        ensures
            x@ == advanced(self@),
    {
        match self {
            Exchange::Parsed(cmd) => match route(cmd) {
                Ok(r) => Exchange::Routed(r),
                Err(e) => Exchange::Responded(Response::Misrouted(e)),
            },
            Exchange::Routed(Route::Echo(cmd)) => Exchange::Responded(Response::Echo(cmd)),
            other => other,
        }
    }

    /// How the table must be held for the next step, if it is needed at all.
    pub fn lock(&self) -> (l: Option<Lock>)
        ensures
            l == lock_of(self@),
    {
        match self {
            Exchange::Routed(Route::Read { .. }) => Some(Lock::Read),
            Exchange::Routed(Route::Write { .. }) => Some(Lock::Write),
            _ => None,
        }
    }

    /// Whether the exchange has its answer.
    pub fn is_responded(&self) -> (b: bool)
        ensures
            b == (self@ is Responded),
    {
        match self {
            Exchange::Responded(_) => true,
            _ => false,
        }
    }

    /// Serves a read from the table: the answer holds the rows of the first
    /// `limit` keys. Every state but a routed read stays.
    pub fn serve_read(self, table: &Table) -> (x: Exchange)
        ensures
            match self@ {
                ExchangeView::Routed(RouteView::Read { limit }) => x@ == ExchangeView::Responded(
                    ResponseView::Results(
                        flatten(table.rows().take(taken(table.rows(), limit as int))),
                    ),
                ),
                _ => x@ == self@,
            },
    {
        match self {
            Exchange::Routed(Route::Read { limit }) => Exchange::Responded(
                Response::Results(table.read_all(limit)),
            ),
            other => other,
        }
    }

    /// Serves a write to the table: the row is put where it fits the table,
    /// and the answer says which. Every state but a routed write stays, and
    /// the table with it.
    pub fn serve_write(self, table: &mut Table) -> (x: Exchange)
        ensures
            final(table).name_spec() == old(table).name_spec(),
            final(table).schema_spec() == old(table).schema_spec(),
            match self@ {
                ExchangeView::Routed(RouteView::Write { key, values }) => if conforms(
                    values,
                    old(table).schema_spec(),
                ) {
                    &&& x@ == ExchangeView::Responded(ResponseView::Inserted)
                    &&& upserted(old(table).rows(), final(table).rows(), key, values)
                } else {
                    &&& x@ == ExchangeView::Responded(
                        ResponseView::Rejected(crate::table::Error::IncompatibleSchema),
                    )
                    &&& final(table).rows() == old(table).rows()
                },
                _ => x@ == self@ && final(table).rows() == old(table).rows(),
            },
    {
        match self {
            Exchange::Routed(Route::Write { key, values }) => {
                match table.insert(key, values.as_slice()) {
                    Ok(()) => Exchange::Responded(Response::Inserted),
                    Err(e) => Exchange::Responded(Response::Rejected(e)),
                }
            },
            other => other,
        }
    }
}

/// Every exchange reaches its answer. Once the request came in, two steps
/// without the table leave the exchange answered, or waiting for the table
/// under the lock of its route; the step with the table then answers it (see
/// `serve_read` and `serve_write`). An answered exchange stays as it is.
pub proof fn lemma_exchange_responds(p: Result<CommandView, ErrorView>)
    ensures
        ({
            let x = advanced(advanced(received(ExchangeView::AwaitingRequest, p)));
            &&& x is Responded <==> lock_of(x) is None
            &&& lock_of(x) == Some(Lock::Read) <==> x is Routed && x->Routed_0 is Read
            &&& lock_of(x) == Some(Lock::Write) <==> x is Routed && x->Routed_0 is Write
            &&& x is Responded ==> advanced(x) == x
        }),
{
}

} // verus!
