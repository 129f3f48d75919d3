//! A stand-in for an external data store: address validation, a connect
//! attempt that flakes out intermittently, and a query that returns a typed
//! default result.

use vstd::prelude::*;

verus! {

/// Failures the (simulated) external store can raise.
///
/// Each variant carries just enough to classify the failure and never more;
/// `BadUrl` keeps the raw address so the classification boundary can log it.
#[derive(Debug, PartialEq)]
pub enum DbError {
    ConnectionFailure,
    BadUrl(String),
    QueryFailure,
}

impl DbError {
    /// The operator-facing description of this failure.
    pub open spec fn spec_message(&self) -> Seq<char> {
        match self {
            DbError::ConnectionFailure => "Unable to connect to database"@,
            DbError::BadUrl(raw) => "Invalid db url: `"@ + raw@ + "`"@,
            DbError::QueryFailure => "Failed to execute query."@,
        }
    }

    /// Renders the operator-facing description of this failure.
    pub fn message(&self) -> (r: String)
        ensures
            r@ == self.spec_message(),
    {
        match self {
            DbError::ConnectionFailure => "Unable to connect to database".to_owned(),
            DbError::BadUrl(raw) => {
                let mut m = "Invalid db url: `".to_owned();
                m.append(raw.as_str());
                m.append("`");
                m
            },
            DbError::QueryFailure => "Failed to execute query.".to_owned(),
        }
    }
}

/// A live (simulated) link to the external store; it has no internal state.
pub struct DbConnection;

/// A store address that passed validation.
pub struct DbUrl;

/// An address is acceptable exactly when it begins with the `db://` scheme.
pub open spec fn valid_address(s: Seq<char>) -> bool {
    s.len() >= 5 && s.subrange(0, 5) == "db://"@
}

impl DbUrl {
    /// Validates a raw store address: succeeds exactly on addresses with the
    /// required scheme prefix, and reports the raw string otherwise.
    pub fn from_str(s: &str) -> (r: Result<DbUrl, DbError>)
        ensures
            valid_address(s@) ==> r matches Ok(_),
            !valid_address(s@) ==> (r matches Err(DbError::BadUrl(raw)) && raw@ == s@),
    {
        let n = s.unicode_len();
        let ok = n >= 5 && s.get_char(0) == 'd' && s.get_char(1) == 'b' && s.get_char(2) == ':'
            && s.get_char(3) == '/' && s.get_char(4) == '/';
        proof {
            reveal_strlit("db://");
        }
        if ok {
            proof {
                assert(s@.subrange(0, 5) =~= "db://"@);
            }
            Ok(DbUrl)
        } else {
            proof {
                if valid_address(s@) {
                    assert(s@.subrange(0, 5)[0] == s@[0]);
                    assert(s@.subrange(0, 5)[1] == s@[1]);
                    assert(s@.subrange(0, 5)[2] == s@[2]);
                    assert(s@.subrange(0, 5)[3] == s@[3]);
                    assert(s@.subrange(0, 5)[4] == s@[4]);
                }
            }
            Err(DbError::BadUrl(s.to_owned()))
        }
    }
}

/// Whether the simulated store should flake out right now.
///
/// Mirrors real-world intermittent unavailability by tying the decision to
/// the wall clock; nothing is promised about the outcome, and callers state
/// what holds either way.
pub fn check_availablility() -> bool {
    now_unix_seconds() % 3 == 0
}

/// Relies on `std::time::SystemTime::now` (with `duration_since` and
/// `Duration::as_secs`): whole seconds of wall-clock time since the Unix
/// epoch. The clock varies between calls, so no result is promised.
#[verifier::external_body]
fn now_unix_seconds() -> u64 {
    std::time::SystemTime::now()
        .duration_since(std::time::UNIX_EPOCH)
        .unwrap_or_default()
        .as_secs()
}

/// What a connect attempt returns once the availability decision is fixed:
/// a bad address is rejected with its raw text, an unavailable store refuses
/// the connection, and otherwise a fresh connection is handed out.
pub fn get_connection_given(db_url: &str, available: bool) -> (r: Result<DbConnection, DbError>)
    ensures
        !valid_address(db_url@) ==> (r matches Err(DbError::BadUrl(raw)) && raw@ == db_url@),
        valid_address(db_url@) && !available ==> r matches Err(DbError::ConnectionFailure),
        valid_address(db_url@) && available ==> r matches Ok(_),
{
    match DbUrl::from_str(db_url) {
        Err(e) => Err(e),
        Ok(_url) => {
            if !available {
                Err(DbError::ConnectionFailure)
            } else {
                Ok(DbConnection)
            }
        },
    }
}

/// Attempts to connect to the store at `db_url`. The availability of the
/// simulated store varies over time, so a valid address yields either a
/// connection or a `ConnectionFailure`; an invalid address is always
/// rejected with its raw text.
pub fn get_connection(db_url: &str) -> (r: Result<DbConnection, DbError>)
    ensures
        !valid_address(db_url@) ==> (r matches Err(DbError::BadUrl(raw)) && raw@ == db_url@),
        valid_address(db_url@) ==> (r matches Ok(_) || r matches Err(DbError::ConnectionFailure)),
{
    let available = !check_availablility();
    get_connection_given(db_url, available)
}

/// Runs a query on an open connection. The stand-in never fails and returns
/// the default value of the requested result type, but callers must treat
/// the call as fallible: a real backend substituted later can fail with
/// `QueryFailure`.
pub fn run_query<T: Default>(_conn: &DbConnection, _sql: &str) -> (r: Result<T, DbError>)
    ensures
        r matches Ok(v) && call_ensures(T::default, (), v),
{
    Ok(T::default())
}

} // verus!
