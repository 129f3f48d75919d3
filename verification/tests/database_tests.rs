use omn::database::get_connection;
use omn::database::get_connection_given;
use omn::database::run_query;
use omn::database::DbConnection;
use omn::database::DbError;
use omn::database::DbUrl;

#[test]
fn parse_address_accepts_scheme_prefix() {
    assert!(DbUrl::from_str("db://host/db").is_ok());
    assert!(DbUrl::from_str("db://").is_ok());
    assert!(DbUrl::from_str("db://anything at all").is_ok());
}

#[test]
fn parse_address_rejects_other_strings() {
    assert_eq!(
        DbUrl::from_str("not-a-url").err(),
        Some(DbError::BadUrl(String::from("not-a-url")))
    );
    assert_eq!(DbUrl::from_str("").err(), Some(DbError::BadUrl(String::from(""))));
    assert_eq!(DbUrl::from_str("db:/").err(), Some(DbError::BadUrl(String::from("db:/"))));
    assert_eq!(DbUrl::from_str("DB://x").err(), Some(DbError::BadUrl(String::from("DB://x"))));
    assert_eq!(
        DbUrl::from_str("http://db").err(),
        Some(DbError::BadUrl(String::from("http://db")))
    );
}

#[test]
fn connect_with_available_store_succeeds() {
    assert!(get_connection_given("db://host/db", true).is_ok());
}

#[test]
fn connect_with_unavailable_store_fails() {
    assert_eq!(
        get_connection_given("db://host/db", false).err(),
        Some(DbError::ConnectionFailure)
    );
}

#[test]
fn connect_with_bad_address_reports_the_raw_string() {
    assert_eq!(
        get_connection_given("not-a-url", true).err(),
        Some(DbError::BadUrl(String::from("not-a-url")))
    );
    assert_eq!(
        get_connection_given("not-a-url", false).err(),
        Some(DbError::BadUrl(String::from("not-a-url")))
    );
}

#[test]
fn connect_outcome_depends_only_on_availability_for_valid_addresses() {
    match get_connection("db://host/db") {
        Ok(_) => {}
        Err(e) => assert_eq!(e, DbError::ConnectionFailure),
    }
}

#[test]
fn connect_with_bad_address_always_reports_it() {
    assert_eq!(
        get_connection("nope").err(),
        Some(DbError::BadUrl(String::from("nope")))
    );
}

#[test]
fn query_returns_the_default_of_the_requested_type() {
    let conn = get_connection_given("db://host/db", true).unwrap();
    let rows: Vec<i32> = run_query(&conn, "give me some numbers").unwrap();
    assert!(rows.is_empty());
    let n: u32 = run_query(&conn, "count me something").unwrap();
    assert_eq!(n, 0);
}

#[test]
fn query_accepts_any_connection() {
    let rows: Vec<i32> = run_query(&DbConnection, "select nothing").unwrap();
    assert_eq!(rows, Vec::<i32>::new());
}

#[test]
fn error_messages_carry_the_internal_detail() {
    assert_eq!(
        DbError::ConnectionFailure.message(),
        "Unable to connect to database"
    );
    assert_eq!(
        DbError::BadUrl(String::from("not-a-url")).message(),
        "Invalid db url: `not-a-url`"
    );
    assert_eq!(DbError::QueryFailure.message(), "Failed to execute query.");
}
