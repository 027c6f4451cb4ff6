use kvtable::cmd::{Command, Error};
use kvtable::data::{Data, Schema};
use kvtable::dispatch::{route, Exchange, Lock, Response, Route, RouteError, READ_LIMIT};
use kvtable::table::Table;

fn text(s: &str) -> Data {
    Data::String(s.to_string())
}

fn counters() -> Table {
    Table::new("default_table".to_string(), vec![Schema::String(12), Schema::Integer])
}

fn exchange(table: &mut Table, sql: &str) -> Response {
    let mut x = Exchange::AwaitingRequest.receive(sql).advance().advance();
    x = match x.lock() {
        Some(Lock::Read) => x.serve_read(table),
        Some(Lock::Write) => x.serve_write(table),
        None => x,
    };
    assert!(x.is_responded());
    match x {
        Exchange::Responded(response) => response,
        _ => unreachable!(),
    }
}

#[test]
fn read_limit_is_twenty() {
    assert_eq!(READ_LIMIT, 20);
}

#[test]
fn route_of_select_reads_with_the_fixed_limit() {
    let cmd = Command::Select { name: "t".to_string(), columns: vec!["*".to_string()] };
    assert_eq!(route(cmd), Ok(Route::Read { limit: 20 }));
}

#[test]
fn route_of_insert_writes_under_the_first_value() {
    let cmd = Command::Insert {
        name: "t".to_string(),
        columns: vec!["a".to_string(), "b".to_string()],
        values: vec![text("k"), Data::Integer(5)],
    };
    assert_eq!(
        route(cmd),
        Ok(Route::Write { key: "k".to_string(), values: vec![text("k"), Data::Integer(5)] })
    );
}

#[test]
fn route_of_insert_without_values_is_an_error() {
    let cmd = Command::Insert { name: "t".to_string(), columns: vec![], values: vec![] };
    assert_eq!(route(cmd), Err(RouteError::NoValues));
}

#[test]
fn route_of_insert_with_an_integer_key_is_an_error() {
    let cmd = Command::Insert {
        name: "t".to_string(),
        columns: vec![],
        values: vec![Data::Integer(1), text("k")],
    };
    assert_eq!(route(cmd), Err(RouteError::KeyNotString));
}

#[test]
fn route_of_the_rest_hands_the_command_back() {
    let create = Command::CreateTable { name: String::new(), columns: vec![] };
    assert_eq!(
        route(create),
        Ok(Route::Echo(Command::CreateTable { name: String::new(), columns: vec![] }))
    );
    let update = Command::Update { name: "u".to_string(), columns: vec!["c".to_string()] };
    assert_eq!(
        route(update),
        Ok(Route::Echo(Command::Update { name: "u".to_string(), columns: vec!["c".to_string()] }))
    );
}

#[test]
fn receive_parses_the_request() {
    assert_eq!(
        Exchange::AwaitingRequest.receive("SELECT a FROM t"),
        Exchange::Parsed(Command::Select { name: "t".to_string(), columns: vec!["a".to_string()] })
    );
    assert_eq!(
        Exchange::AwaitingRequest.receive("DELETE FROM t"),
        Exchange::Responded(Response::Unexpected(Error::Unsupported(
            "unsupported query".to_string()
        )))
    );
    assert!(matches!(
        Exchange::AwaitingRequest.receive("not sql at all"),
        Exchange::Responded(Response::Unexpected(Error::Parse(_)))
    ));
}

#[test]
fn advance_routes_then_answers_what_needs_no_table() {
    let x = Exchange::AwaitingRequest.receive("UPDATE t SET a = 1");
    assert_eq!(x.lock(), None);
    assert!(!x.is_responded());
    let x = x.advance();
    assert_eq!(
        x,
        Exchange::Routed(Route::Echo(Command::Update { name: String::new(), columns: vec![] }))
    );
    assert_eq!(x.lock(), None);
    let x = x.advance();
    assert_eq!(
        x,
        Exchange::Responded(Response::Echo(Command::Update {
            name: String::new(),
            columns: vec![]
        }))
    );
    assert!(x.is_responded());
    assert_eq!(
        x.advance(),
        Exchange::Responded(Response::Echo(Command::Update {
            name: String::new(),
            columns: vec![]
        }))
    );
}

#[test]
fn receive_leaves_the_other_states() {
    assert_eq!(
        Exchange::Routed(Route::Read { limit: 3 }).receive("SELECT a FROM t"),
        Exchange::Routed(Route::Read { limit: 3 })
    );
    assert_eq!(
        Exchange::Responded(Response::Inserted).receive("SELECT a FROM t"),
        Exchange::Responded(Response::Inserted)
    );
}

#[test]
fn advance_leaves_the_other_states() {
    assert_eq!(Exchange::AwaitingRequest.advance(), Exchange::AwaitingRequest);
    assert_eq!(
        Exchange::Routed(Route::Read { limit: 3 }).advance(),
        Exchange::Routed(Route::Read { limit: 3 })
    );
    assert_eq!(
        Exchange::Responded(Response::Inserted).advance(),
        Exchange::Responded(Response::Inserted)
    );
}

#[test]
fn lock_follows_the_route() {
    assert_eq!(Exchange::AwaitingRequest.lock(), None);
    assert_eq!(Exchange::Routed(Route::Read { limit: 1 }).lock(), Some(Lock::Read));
    assert_eq!(
        Exchange::Routed(Route::Write { key: "k".to_string(), values: vec![] }).lock(),
        Some(Lock::Write)
    );
    assert_eq!(Exchange::Responded(Response::Inserted).lock(), None);
}

#[test]
fn serve_read_answers_a_routed_read_only() {
    let mut table = counters();
    table.insert("b".to_string(), &[text("b"), Data::Integer(2)]).unwrap();
    table.insert("a".to_string(), &[text("a"), Data::Integer(1)]).unwrap();
    assert_eq!(
        Exchange::Routed(Route::Read { limit: 1 }).serve_read(&table),
        Exchange::Responded(Response::Results(vec![text("a"), Data::Integer(1)]))
    );
    assert_eq!(Exchange::AwaitingRequest.serve_read(&table), Exchange::AwaitingRequest);
    assert_eq!(
        Exchange::Routed(Route::Write { key: "k".to_string(), values: vec![] })
            .serve_read(&table),
        Exchange::Routed(Route::Write { key: "k".to_string(), values: vec![] })
    );
}

#[test]
fn serve_write_answers_a_routed_write_only() {
    let mut table = counters();
    let write = Exchange::Routed(Route::Write {
        key: "k".to_string(),
        values: vec![text("k"), Data::Integer(1)],
    });
    assert_eq!(write.serve_write(&mut table), Exchange::Responded(Response::Inserted));
    assert_eq!(table.read_all(20), vec![text("k"), Data::Integer(1)]);
    let read = Exchange::Routed(Route::Read { limit: 5 });
    assert_eq!(read.serve_write(&mut table), Exchange::Routed(Route::Read { limit: 5 }));
    assert_eq!(table.read_all(20), vec![text("k"), Data::Integer(1)]);
}

#[test]
fn serve_write_reports_a_row_that_does_not_fit() {
    let mut table = counters();
    let write = Exchange::Routed(Route::Write {
        key: "k".to_string(),
        values: vec![text("much too long a key"), Data::Integer(1)],
    });
    assert_eq!(
        write.serve_write(&mut table),
        Exchange::Responded(Response::Rejected(kvtable::table::Error::IncompatibleSchema))
    );
    assert!(table.read_all(20).is_empty());
}

#[test]
fn exchange_insert_then_select() {
    let mut table = counters();
    assert_eq!(
        exchange(&mut table, "INSERT INTO default_table (id, counter) VALUES ('b', 2)"),
        Response::Inserted
    );
    assert_eq!(
        exchange(&mut table, "INSERT INTO default_table (id, counter) VALUES ('a', 1)"),
        Response::Inserted
    );
    assert_eq!(
        exchange(&mut table, "SELECT * FROM default_table"),
        Response::Results(vec![text("a"), Data::Integer(1), text("b"), Data::Integer(2)])
    );
}

#[test]
fn exchange_select_reads_twenty_keys_at_most() {
    let mut table = counters();
    for i in 0..25 {
        let sql = format!("INSERT INTO t (id, counter) VALUES ('key_{:02}', {})", i, i);
        assert_eq!(exchange(&mut table, &sql), Response::Inserted);
    }
    match exchange(&mut table, "SELECT id FROM t") {
        Response::Results(values) => {
            assert_eq!(values.len(), 40);
            assert_eq!(values[0], text("key_00"));
            assert_eq!(values[39], Data::Integer(19));
        }
        other => panic!("{:?}", other),
    }
}

#[test]
fn exchange_insert_with_a_bad_key_is_a_routing_error() {
    let mut table = counters();
    assert_eq!(
        exchange(&mut table, "INSERT INTO t (counter, id) VALUES (1, 'a')"),
        Response::Misrouted(RouteError::KeyNotString)
    );
    assert!(table.read_all(20).is_empty());
}

#[test]
fn exchange_insert_without_values_is_a_routing_error() {
    let insert = Command::Insert { name: "t".to_string(), columns: vec![], values: vec![] };
    let x = Exchange::Parsed(insert).advance();
    assert_eq!(x, Exchange::Responded(Response::Misrouted(RouteError::NoValues)));
    assert_eq!(x.lock(), None);
}

#[test]
fn exchange_insert_that_does_not_fit_is_rejected() {
    let mut table = counters();
    assert_eq!(
        exchange(&mut table, "INSERT INTO t (id) VALUES ('a')"),
        Response::Rejected(kvtable::table::Error::IncompatibleSchema)
    );
    assert_eq!(
        exchange(&mut table, "INSERT INTO t (id, counter) VALUES ('thirteen chars', 1)"),
        Response::Rejected(kvtable::table::Error::IncompatibleSchema)
    );
    assert!(table.read_all(20).is_empty());
}

#[test]
fn exchange_answers_a_request_that_is_kept_from_the_parser() {
    let mut table = counters();
    assert_eq!(
        exchange(&mut table, "GRANT SELECT ON t TO u GRANTED BY 1"),
        Response::Unexpected(Error::Unsupported(
            "request holds GRANT, REVOKE or FLUSH".to_string()
        ))
    );
    assert_eq!(
        exchange(&mut table, &"SELECT a FROM t ".repeat(100)),
        Response::Unexpected(Error::Unsupported(
            "request is longer than 1024 bytes".to_string()
        ))
    );
}

#[test]
fn exchange_echoes_what_is_not_carried_out() {
    let mut table = counters();
    assert_eq!(
        exchange(&mut table, "CREATE TABLE t (id INT)"),
        Response::Echo(Command::CreateTable { name: String::new(), columns: vec![] })
    );
    assert_eq!(
        exchange(&mut table, "UPDATE t SET counter = 1"),
        Response::Echo(Command::Update { name: String::new(), columns: vec![] })
    );
}

#[test]
fn exchange_answers_a_request_that_gives_no_command() {
    let mut table = counters();
    assert!(matches!(
        exchange(&mut table, "SELECT * FROM"),
        Response::Unexpected(Error::Parse(_))
    ));
    assert_eq!(
        exchange(&mut table, "SELECT * FROM a, b"),
        Response::Unexpected(Error::Unsupported(
            "select query should contain exactly 1 table".to_string()
        ))
    );
    assert_eq!(
        exchange(&mut table, ""),
        Response::Unexpected(Error::Unsupported("no statement".to_string()))
    );
}
