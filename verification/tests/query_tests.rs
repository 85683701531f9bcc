use cstack_sqlite::db::{Database, HandleDBQueryStatusCode, QueryReply};
use cstack_sqlite::row::Row;
use cstack_sqlite::statement::{ExecuteError, StatementError};

fn open_empty() -> Database {
    Database::try_new(Vec::new()).ok().unwrap()
}

fn run(db: &mut Database, line: &str) -> QueryReply {
    db.handle_query(line.as_bytes()).ok().unwrap()
}

#[test]
fn inserts_and_retrieves_row() {
    let mut db = open_empty();
    assert!(matches!(run(&mut db, "insert 1 user1 person1@example.com"), QueryReply::Executed));
    match run(&mut db, "select") {
        QueryReply::Selected(rows) => {
            assert_eq!(rows.len(), 1);
            assert_eq!(
                rows[0],
                Row::new(1, b"user1".to_vec(), b"person1@example.com".to_vec())
            );
        }
        _ => panic!("select did not return rows"),
    }
    let reply = run(&mut db, ".exit");
    assert!(matches!(reply, QueryReply::Exit));
    assert!(matches!(reply.status(), HandleDBQueryStatusCode::Exit));
}

#[test]
fn print_error_message_when_table_is_full() {
    let mut db = open_empty();
    let mut last = QueryReply::Empty;
    for i in 0..1401 {
        last = run(&mut db, &format!("insert {i} user{i} person{i}@example.com"));
    }
    assert!(matches!(last, QueryReply::ExecuteFailed(ExecuteError::TableFull)));
    assert!(matches!(run(&mut db, ".exit"), QueryReply::Exit));
}

#[test]
fn allows_inserting_strings_that_are_max_length() {
    let username = "a".repeat(32);
    let email = "a".repeat(255);
    let mut db = open_empty();
    assert!(matches!(
        run(&mut db, &format!("insert 1 {username} {email}")),
        QueryReply::Executed
    ));
    match run(&mut db, "select") {
        QueryReply::Selected(rows) => {
            assert_eq!(rows.len(), 1);
            assert_eq!(rows[0].username, username.as_bytes().to_vec());
            assert_eq!(rows[0].email, email.as_bytes().to_vec());
        }
        _ => panic!("select did not return rows"),
    }
}

#[test]
fn prints_error_message_if_strings_are_too_long() {
    let username = "a".repeat(33);
    let email = "a".repeat(256);
    let mut db = open_empty();
    match run(&mut db, &format!("insert 1 {username} {email}")) {
        QueryReply::ExecuteFailed(ExecuteError::SerializationFail(message)) => {
            assert_eq!(message, "String value for 'username' too long.");
        }
        _ => panic!("oversized insert did not fail"),
    }
    match run(&mut db, "select") {
        QueryReply::Selected(rows) => assert_eq!(rows.len(), 0),
        _ => panic!("select did not return rows"),
    }
}

#[test]
fn prints_an_error_message_if_id_is_negative() {
    let mut db = open_empty();
    match run(&mut db, "insert -1 cstack foo@bar.com") {
        QueryReply::StatementFailed(StatementError::ValidationError(message)) => {
            assert_eq!(message, "Integer value for 'id' cannot be negative");
        }
        _ => panic!("negative id did not fail validation"),
    }
    match run(&mut db, "select") {
        QueryReply::Selected(rows) => assert_eq!(rows.len(), 0),
        _ => panic!("select did not return rows"),
    }
}

#[test]
fn keeps_data_after_closing_connection() {
    let mut db = open_empty();
    assert!(matches!(run(&mut db, "insert 1 user1 person1@example.com"), QueryReply::Executed));
    assert!(matches!(run(&mut db, ".exit"), QueryReply::Exit));
    let file = db.file_image().clone();

    let mut reopened = Database::try_new(file).ok().unwrap();
    match run(&mut reopened, "select") {
        QueryReply::Selected(rows) => {
            assert_eq!(rows.len(), 1);
            assert_eq!(
                rows[0],
                Row::new(1, b"user1".to_vec(), b"person1@example.com".to_vec())
            );
        }
        _ => panic!("select did not return rows"),
    }
}

#[test]
fn blank_and_meta_commands() {
    let mut db = open_empty();
    assert!(matches!(run(&mut db, "   "), QueryReply::Empty));
    assert!(matches!(run(&mut db, ""), QueryReply::Empty));
    let reply = run(&mut db, ".tables");
    assert!(matches!(reply, QueryReply::MetaUnrecognised));
    assert!(matches!(reply.status(), HandleDBQueryStatusCode::Continue));
    assert!(matches!(
        run(&mut db, "drop everything"),
        QueryReply::StatementFailed(StatementError::UnrecognisedStatement)
    ));
}

#[test]
fn query_is_trimmed_before_parsing() {
    let mut db = open_empty();
    assert!(matches!(run(&mut db, "  insert 2 bob bob@example.com \n"), QueryReply::Executed));
    match run(&mut db, "\tselect\r\n") {
        QueryReply::Selected(rows) => {
            assert_eq!(rows.len(), 1);
            assert_eq!(rows[0].id, 2);
        }
        _ => panic!("select did not return rows"),
    }
}

#[test]
fn missing_tokens_are_syntax_errors() {
    let mut db = open_empty();
    match run(&mut db, "insert") {
        QueryReply::StatementFailed(StatementError::SynthaxError(m)) => {
            assert_eq!(m, "invalid id")
        }
        _ => panic!("bare insert did not fail"),
    }
    match run(&mut db, "insert 7") {
        QueryReply::StatementFailed(StatementError::SynthaxError(m)) => {
            assert_eq!(m, "invalid username")
        }
        _ => panic!("insert without username did not fail"),
    }
    match run(&mut db, "insert 7 bob") {
        QueryReply::StatementFailed(StatementError::SynthaxError(m)) => {
            assert_eq!(m, "invalid email")
        }
        _ => panic!("insert without email did not fail"),
    }
    match run(&mut db, "insert 4294967296 bob bob@example.com") {
        QueryReply::StatementFailed(StatementError::ValidationError(m)) => {
            assert_eq!(m, "Integer value for 'id' cannot be negative")
        }
        _ => panic!("overflowing id did not fail validation"),
    }
}
