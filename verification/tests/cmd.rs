use kvtable::ast::{Ast, InsertAst, Literal, Projected, SelectAst, Source};
use kvtable::cmd::{Command, Error};
use kvtable::data::Data;
use kvtable::sql::{contains_word, first_statement, screen, Refusal, Unread, MAX_SQL_LEN};
use sqlparser::dialect::GenericDialect;
use sqlparser::parser::Parser;

fn texts(items: &[&str]) -> Vec<String> {
    items.iter().map(|s| s.to_string()).collect()
}

fn unsupported(reason: &str) -> Result<Command, Error> {
    Err(Error::Unsupported(reason.to_string()))
}

fn select(name: &str, columns: &[&str]) -> Result<Command, Error> {
    Ok(Command::Select { name: name.to_string(), columns: texts(columns) })
}

fn lowered(sql: &str) -> Ast {
    first_statement(sql).unwrap().unwrap()
}

#[test]
fn parse_select_with_columns() {
    assert_eq!(Command::parse("SELECT a, b FROM t"), select("t", &["a", "b"]));
}

#[test]
fn parse_select_with_wildcard() {
    assert_eq!(Command::parse("SELECT * FROM t"), select("t", &["*"]));
}

#[test]
fn parse_insert_with_string_and_number() {
    assert_eq!(
        Command::parse("INSERT INTO t (a,b) VALUES ('x', 5)"),
        Ok(Command::Insert {
            name: "t".to_string(),
            columns: texts(&["a", "b"]),
            values: vec![Data::String("x".to_string()), Data::Integer(5)],
        })
    );
}

#[test]
fn parse_select_from_two_tables_is_unsupported() {
    assert_eq!(
        Command::parse("SELECT * FROM a, b"),
        unsupported("select query should contain exactly 1 table")
    );
}

#[test]
fn parse_insert_with_a_function_call_is_unsupported() {
    assert_eq!(
        Command::parse("INSERT INTO t (a) VALUES (foo())"),
        unsupported("insert value isn't a string or number literal")
    );
}

#[test]
fn parse_select_with_a_join_is_unsupported() {
    assert_eq!(
        Command::parse("SELECT * FROM a JOIN b ON a.x = b.x"),
        unsupported("select query should contain exactly 1 table")
    );
}

#[test]
fn parse_select_without_a_table_is_unsupported() {
    assert_eq!(Command::parse("SELECT 1"), unsupported("no first table?"));
}

#[test]
fn parse_union_is_unsupported() {
    assert_eq!(
        Command::parse("SELECT a FROM t UNION SELECT a FROM u"),
        unsupported("query isn't a Select")
    );
}

#[test]
fn parse_select_ignores_the_filter() {
    assert_eq!(Command::parse("SELECT * FROM t WHERE a = 1"), select("t", &["*"]));
}

#[test]
fn parse_select_renders_each_projected_item() {
    assert_eq!(
        Command::parse("select a as x, t.*, a + 1 from t"),
        select("t", &["a AS x", "t.*", "a + 1"])
    );
}

#[test]
fn parse_insert_reads_the_first_row_only() {
    assert_eq!(
        Command::parse("INSERT INTO t (a, b) VALUES ('x', 1), ('y', 2)"),
        Ok(Command::Insert {
            name: "t".to_string(),
            columns: texts(&["a", "b"]),
            values: vec![Data::String("x".to_string()), Data::Integer(1)],
        })
    );
}

#[test]
fn parse_insert_without_a_column_list() {
    assert_eq!(
        Command::parse("INSERT INTO t VALUES ('only')"),
        Ok(Command::Insert {
            name: "t".to_string(),
            columns: vec![],
            values: vec![Data::String("only".to_string())],
        })
    );
}

#[test]
fn parse_insert_from_a_query_is_unsupported() {
    assert_eq!(
        Command::parse("INSERT INTO t (a) SELECT a FROM u"),
        unsupported("insert source isn't a VALUES list")
    );
}

#[test]
fn parse_insert_of_default_values_is_unsupported() {
    assert_eq!(
        Command::parse("INSERT INTO t DEFAULT VALUES"),
        unsupported("insert source isn't a VALUES list")
    );
}

#[test]
fn parse_insert_takes_literals_only() {
    for sql in [
        "INSERT INTO t (a) VALUES (NULL)",
        "INSERT INTO t (a) VALUES (b)",
        "INSERT INTO t (a) VALUES (-5)",
        "INSERT INTO t (a) VALUES (1 + 2)",
        "INSERT INTO t (a) VALUES (true)",
        "INSERT INTO t (a, b) VALUES ('fine', NULL)",
    ] {
        assert_eq!(
            Command::parse(sql),
            unsupported("insert value isn't a string or number literal")
        );
    }
}

#[test]
fn parse_insert_takes_integers_only() {
    for sql in [
        "INSERT INTO t (a) VALUES (1.5)",
        "INSERT INTO t (a) VALUES (1e3)",
        "INSERT INTO t (a) VALUES (9223372036854775808)",
    ] {
        assert_eq!(Command::parse(sql), unsupported("insert number isn't a 64-bit integer"));
    }
    assert_eq!(
        Command::parse("INSERT INTO t (a) VALUES (9223372036854775807)"),
        Ok(Command::Insert {
            name: "t".to_string(),
            columns: texts(&["a"]),
            values: vec![Data::Integer(i64::MAX)],
        })
    );
}

#[test]
fn parse_insert_gives_the_reason_of_the_first_bad_value() {
    assert_eq!(
        Command::parse("INSERT INTO t (a, b, c) VALUES ('x', 1.5, NULL)"),
        unsupported("insert number isn't a 64-bit integer")
    );
    assert_eq!(
        Command::parse("INSERT INTO t (a, b, c) VALUES ('x', NULL, 1.5)"),
        unsupported("insert value isn't a string or number literal")
    );
}

#[test]
fn parse_create_table_is_recognised_only() {
    assert_eq!(
        Command::parse("CREATE TABLE t (id VARCHAR(255) PRIMARY KEY NOT NULL, counter INTEGER)"),
        Ok(Command::CreateTable { name: String::new(), columns: vec![] })
    );
}

#[test]
fn parse_update_is_recognised_only() {
    assert_eq!(
        Command::parse("UPDATE t SET a = 1 WHERE b = 2"),
        Ok(Command::Update { name: String::new(), columns: vec![] })
    );
}

#[test]
fn parse_other_statements_are_unsupported() {
    for sql in ["DELETE FROM t", "DROP TABLE t", "COMMIT"] {
        assert_eq!(Command::parse(sql), unsupported("unsupported query"));
    }
}

#[test]
fn parse_of_no_statement_is_unsupported() {
    assert_eq!(Command::parse(""), unsupported("no statement"));
    assert_eq!(Command::parse("   "), unsupported("no statement"));
    assert_eq!(Command::parse(";"), unsupported("no statement"));
}

#[test]
fn parse_reads_the_first_statement_only() {
    assert_eq!(Command::parse("SELECT a FROM t; DELETE FROM t"), select("t", &["a"]));
    assert_eq!(
        Command::parse("DELETE FROM t; SELECT a FROM t"),
        unsupported("unsupported query")
    );
}

#[test]
fn parse_failure_is_a_parse_error() {
    for sql in ["SELEC * FROM t", "SELECT * FROM", "INSERT INTO", "SELECT 'open", "((("] {
        assert!(matches!(Command::parse(sql), Err(Error::Parse(_))));
    }
}

#[test]
fn parse_error_is_the_parsers_own() {
    let want = Parser::parse_sql(&GenericDialect {}, "SELECT * FROM").unwrap_err();
    assert_eq!(Command::parse("SELECT * FROM"), Err(Error::Parse(want)));
}

#[test]
fn lower_reads_a_select() {
    assert_eq!(
        lowered("SELECT a, * FROM t, u JOIN v ON u.x = v.x"),
        Ast::Query(Some(SelectAst {
            from: vec![
                Source { relation: "t".to_string(), joins: 0 },
                Source { relation: "u".to_string(), joins: 1 },
            ],
            projection: vec![Projected::Item("a".to_string()), Projected::Wildcard],
        }))
    );
}

#[test]
fn lower_reads_a_query_that_is_no_select() {
    assert_eq!(lowered("SELECT a FROM t UNION SELECT a FROM u"), Ast::Query(None));
    assert_eq!(lowered("VALUES (1)"), Ast::Query(None));
}

#[test]
fn lower_reads_an_insert() {
    assert_eq!(
        lowered("INSERT INTO s.t (a, \"b\") VALUES ('x', 5, foo()), (1.5)"),
        Ast::Insert(InsertAst {
            table: "s.t".to_string(),
            columns: texts(&["a", "\"b\""]),
            rows: Some(vec![
                vec![
                    Literal::Quoted("x".to_string()),
                    Literal::Number("5".to_string()),
                    Literal::Other,
                ],
                vec![Literal::Number("1.5".to_string())],
            ]),
        })
    );
    assert_eq!(
        lowered("INSERT INTO t (a) SELECT a FROM u"),
        Ast::Insert(InsertAst { table: "t".to_string(), columns: texts(&["a"]), rows: None })
    );
}

#[test]
fn lower_tells_the_other_kinds_apart() {
    assert_eq!(lowered("CREATE TABLE t (a INT)"), Ast::CreateTable);
    assert_eq!(lowered("UPDATE t SET a = 1"), Ast::Update);
    assert_eq!(lowered("DELETE FROM t"), Ast::Other);
    assert_eq!(lowered("TRUNCATE TABLE t"), Ast::Other);
}

#[test]
fn first_statement_reads_the_first_or_none() {
    assert_eq!(first_statement(""), Ok(None));
    assert_eq!(first_statement("UPDATE t SET a = 1; SELECT 1"), Ok(Some(Ast::Update)));
    assert!(matches!(first_statement("SELECT * FROM"), Err(Unread::Parse(_))));
    assert_eq!(
        first_statement("REVOKE SELECT ON t FROM u"),
        Err(Unread::Refused(Refusal::Keyword))
    );
    assert_eq!(
        first_statement(&" ".repeat(MAX_SQL_LEN + 1)),
        Err(Unread::Refused(Refusal::TooLong))
    );
}

#[test]
fn from_ast_makes_a_select() {
    let ast = Ast::Query(Some(SelectAst {
        from: vec![Source { relation: "t".to_string(), joins: 0 }],
        projection: vec![
            Projected::Item("a".to_string()),
            Projected::Wildcard,
            Projected::Item("b".to_string()),
        ],
    }));
    assert_eq!(Command::from_ast(&ast), select("t", &["a", "*", "b"]));
}

#[test]
fn from_ast_wants_exactly_one_table() {
    let none = Ast::Query(Some(SelectAst { from: vec![], projection: vec![Projected::Wildcard] }));
    assert_eq!(Command::from_ast(&none), unsupported("no first table?"));
    let two = Ast::Query(Some(SelectAst {
        from: vec![
            Source { relation: "a".to_string(), joins: 0 },
            Source { relation: "b".to_string(), joins: 0 },
        ],
        projection: vec![Projected::Wildcard],
    }));
    assert_eq!(
        Command::from_ast(&two),
        unsupported("select query should contain exactly 1 table")
    );
    let joined = Ast::Query(Some(SelectAst {
        from: vec![Source { relation: "a".to_string(), joins: 2 }],
        projection: vec![Projected::Wildcard],
    }));
    assert_eq!(
        Command::from_ast(&joined),
        unsupported("select query should contain exactly 1 table")
    );
    assert_eq!(Command::from_ast(&Ast::Query(None)), unsupported("query isn't a Select"));
}

#[test]
fn from_ast_makes_an_insert_of_the_first_row() {
    let ast = Ast::Insert(InsertAst {
        table: "t".to_string(),
        columns: texts(&["a", "b"]),
        rows: Some(vec![
            vec![Literal::Quoted("k".to_string()), Literal::Number("12".to_string())],
            vec![Literal::Other],
        ]),
    });
    assert_eq!(
        Command::from_ast(&ast),
        Ok(Command::Insert {
            name: "t".to_string(),
            columns: texts(&["a", "b"]),
            values: vec![Data::String("k".to_string()), Data::Integer(12)],
        })
    );
}

#[test]
fn from_ast_refuses_an_insert_without_values() {
    let no_source =
        Ast::Insert(InsertAst { table: "t".to_string(), columns: vec![], rows: None });
    assert_eq!(Command::from_ast(&no_source), unsupported("insert source isn't a VALUES list"));
    let no_row =
        Ast::Insert(InsertAst { table: "t".to_string(), columns: vec![], rows: Some(vec![]) });
    assert_eq!(Command::from_ast(&no_row), unsupported("insert has no row of values"));
    let empty_row = Ast::Insert(InsertAst {
        table: "t".to_string(),
        columns: vec![],
        rows: Some(vec![vec![]]),
    });
    assert_eq!(
        Command::from_ast(&empty_row),
        Ok(Command::Insert { name: "t".to_string(), columns: vec![], values: vec![] })
    );
}

#[test]
fn from_ast_refuses_what_is_no_literal() {
    let row = |literals: Vec<Literal>| {
        Ast::Insert(InsertAst { table: "t".to_string(), columns: vec![], rows: Some(vec![literals]) })
    };
    assert_eq!(
        Command::from_ast(&row(vec![Literal::Quoted("a".to_string()), Literal::Other])),
        unsupported("insert value isn't a string or number literal")
    );
    assert_eq!(
        Command::from_ast(&row(vec![Literal::Number("12a".to_string())])),
        unsupported("insert number isn't a 64-bit integer")
    );
    assert_eq!(
        Command::from_ast(&row(vec![Literal::Number(String::new()), Literal::Other])),
        unsupported("insert number isn't a 64-bit integer")
    );
}

#[test]
fn from_ast_recognises_the_rest() {
    assert_eq!(
        Command::from_ast(&Ast::CreateTable),
        Ok(Command::CreateTable { name: String::new(), columns: vec![] })
    );
    assert_eq!(
        Command::from_ast(&Ast::Update),
        Ok(Command::Update { name: String::new(), columns: vec![] })
    );
    assert_eq!(Command::from_ast(&Ast::Other), unsupported("unsupported query"));
}

const HOLDS_KEYWORD: &str = "request holds GRANT, REVOKE or FLUSH";
const TOO_LONG: &str = "request is longer than 1024 bytes";

#[test]
fn parse_keeps_grant_revoke_and_flush_from_the_parser() {
    for sql in [
        "GRANT SELECT ON t TO u GRANTED BY 1",
        "REVOKE SELECT ON t FROM u GRANTED BY 1",
        "FLUSH RELAY LOGS FOR CHANNEL 1",
        "GRANT SELECT ON t TO u",
        "revoke select on t from u",
        "Flush Tables",
        "SELECT a FROM t; GRANT SELECT ON t TO u GRANTED BY 1",
        "SELECT a FROM t;\nflush relay logs for channel 1",
    ] {
        assert_eq!(Command::parse(sql), unsupported(HOLDS_KEYWORD));
    }
}

#[test]
fn parse_keeps_every_text_with_such_a_word_from_the_parser() {
    for sql in [
        "INSERT INTO t (a) VALUES ('flush')",
        "SELECT granted FROM t",
        "SELECT a FROM revoked",
        "SELECT a FROM t -- grant",
        "SELECT \"Grant\" FROM t",
    ] {
        assert_eq!(Command::parse(sql), unsupported(HOLDS_KEYWORD));
    }
}

#[test]
fn parse_goes_by_the_upper_case_of_every_character() {
    for sql in ["\u{fb02}ush tables", "flu\u{17f}h tables", "SELECT a FROM t; \u{fb02}USH x"] {
        assert_eq!(Command::parse(sql), unsupported(HOLDS_KEYWORD));
    }
}

#[test]
fn parse_takes_words_that_only_look_alike() {
    assert_eq!(Command::parse("SELECT gran, t FROM flus"), select("flus", &["gran", "t"]));
    assert_eq!(Command::parse("SELECT g_rant FROM revok"), select("revok", &["g_rant"]));
    assert_eq!(
        Command::parse("INSERT INTO t (a) VALUES ('caf\u{e9} \u{65e5}\u{672c}')"),
        Ok(Command::Insert {
            name: "t".to_string(),
            columns: texts(&["a"]),
            values: vec![Data::String("caf\u{e9} \u{65e5}\u{672c}".to_string())],
        })
    );
}

#[test]
fn parse_takes_a_text_of_the_largest_length() {
    let sql = format!("SELECT a FROM t{}", " ".repeat(MAX_SQL_LEN - 15));
    assert_eq!(sql.len(), 1024);
    assert_eq!(Command::parse(&sql), select("t", &["a"]));
}

#[test]
fn parse_refuses_a_longer_text() {
    let sql = format!("SELECT a FROM t{}", " ".repeat(MAX_SQL_LEN - 14));
    assert_eq!(sql.len(), 1025);
    assert_eq!(Command::parse(&sql), unsupported(TOO_LONG));
    let chain = format!("SELECT 1{} FROM t", " + 1".repeat(100_000));
    assert_eq!(Command::parse(&chain), unsupported(TOO_LONG));
}

#[test]
fn parse_counts_the_length_in_bytes() {
    let fits = format!("SELECT '{}' FROM t", "\u{e9}".repeat(504));
    assert_eq!(fits.len(), 1024);
    assert!(Command::parse(&fits).is_ok());
    let too_long = format!("SELECT '{}' FROM t", "\u{e9}".repeat(505));
    assert_eq!(too_long.chars().count(), 521);
    assert_eq!(Command::parse(&too_long), unsupported(TOO_LONG));
}

#[test]
fn parse_names_the_length_before_the_keyword() {
    let sql = format!("GRANT{}", " ".repeat(MAX_SQL_LEN));
    assert_eq!(Command::parse(&sql), unsupported(TOO_LONG));
}

#[test]
fn screen_says_why_a_text_is_kept_back() {
    assert_eq!(screen(""), None);
    assert_eq!(screen("SELECT a FROM t"), None);
    assert_eq!(screen("grant"), Some(Refusal::Keyword));
    assert_eq!(screen("xREVOKEx"), Some(Refusal::Keyword));
    assert_eq!(screen("a flush"), Some(Refusal::Keyword));
    assert_eq!(screen("gran t"), None);
    assert_eq!(screen(&"a".repeat(1024)), None);
    assert_eq!(screen(&"a".repeat(1025)), Some(Refusal::TooLong));
}

#[test]
fn contains_word_finds_a_word_anywhere() {
    assert!(contains_word(b"GRANT", b"GRANT"));
    assert!(contains_word(b"xGRANT", b"GRANT"));
    assert!(contains_word(b"GRANTx", b"GRANT"));
    assert!(contains_word(b"GRGRANT", b"GRANT"));
    assert!(contains_word(b"abc", b""));
    assert!(contains_word(b"", b""));
    assert!(!contains_word(b"", b"GRANT"));
    assert!(!contains_word(b"GRAN", b"GRANT"));
    assert!(!contains_word(b"GRAN T", b"GRANT"));
    assert!(!contains_word(b"TNARG", b"GRANT"));
    assert!(!contains_word(b"grant", b"GRANT"));
}

#[test]
fn error_is_made_from_a_parser_error() {
    let cause = Parser::parse_sql(&GenericDialect {}, "SELECT * FROM").unwrap_err();
    assert_eq!(Error::from(cause.clone()), Error::Parse(cause.clone()));
    let converted: Error = cause.clone().into();
    assert_eq!(converted, Error::Parse(cause));
}
