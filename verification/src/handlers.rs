//! The two request operations — describe the configuration and fetch
//! records — with every failure routed through the classification boundary.

use crate::classify::ClassifiedResponse;
use crate::classify::OmnError;
use crate::classify::generic_db_body;
use crate::database;
use crate::database::DbError;
use crate::database::valid_address;
use crate::json;
use crate::json::data_json;
use crate::json::settings_json;
use crate::settings::Settings;
use vstd::prelude::*;

verus! {

/// What one request invocation produces: the externally visible response,
/// and the operator log entry if the classification boundary recorded one.
pub struct HandlerOutcome {
    pub response: ClassifiedResponse,
    pub log: Option<String>,
}

/// Serves the configuration document. It never fails: the response is
/// always 200, and its body renders the loaded settings exactly.
pub fn info(settings: &Settings) -> (r: ClassifiedResponse)
    ensures
        r.status == 200,
        r.body@ == settings_json(settings.host@, settings.port, settings.db_url@),
{
    let body = json::render_settings(
        settings.host.as_str(),
        settings.port,
        settings.db_url.as_str(),
    );
    ClassifiedResponse { status: 200, body }
}

/// Routes a failure through the classification boundary.
fn respond_to_error(e: &OmnError) -> (r: HandlerOutcome)
    ensures
        r.response.status == e.spec_status(),
        r.response.body@ == e.spec_body(),
        e matches OmnError::Database(err) ==> (r.log matches Some(m) && m@ == err.spec_message()),
        e matches OmnError::Unlucky ==> r.log is None,
{
    let response = e.error_response();
    let log = e.log_line();
    HandlerOutcome { response, log }
}

/// What the fetch-records operation yields once the availability decision
/// of the simulated store is fixed: records on success, and otherwise the
/// classified response, with the internal detail in the log alone.
pub fn get_records_given(settings: &Settings, available: bool) -> (r: HandlerOutcome)
    ensures
        valid_address(settings.db_url@) && available ==> (r.response.status == 200
            && r.response.body@ == data_json(Seq::<i32>::empty()) && r.log is None),
        valid_address(settings.db_url@) && !available ==> (r.response.status == 500
            && r.response.body@ == generic_db_body() && (r.log matches Some(m) && m@
            == DbError::ConnectionFailure.spec_message())),
        !valid_address(settings.db_url@) ==> (r.response.status == 500 && r.response.body@
            == generic_db_body() && (r.log matches Some(m) && m@ == "Invalid db url: `"@
            + settings.db_url@ + "`"@)),
{
    match database::get_connection_given(settings.db_url.as_str(), available) {
        Err(e) => respond_to_error(&OmnError::Database(e)),
        Ok(conn) => {
            let queried: Result<Vec<i32>, DbError> = database::run_query(
                &conn,
                "give me some numbers",
            );
            match queried {
                Err(e) => respond_to_error(&OmnError::Database(e)),
                Ok(results) => {
                    proof {
                        assert(results@ == Seq::<i32>::empty());
                    }
                    let body = json::render_records(&results);
                    HandlerOutcome {
                        response: ClassifiedResponse { status: 200, body },
                        log: None,
                    }
                },
            }
        },
    }
}

/// Serves the fetch-records operation. The availability of the simulated
/// store varies over time, so with a valid address the outcome is either
/// the records or the classified connection failure; an invalid address is
/// always classified, with its raw text going to the log and never to the
/// body.
pub fn get_records(settings: &Settings) -> (r: HandlerOutcome)
    ensures
        !valid_address(settings.db_url@) ==> (r.response.status == 500 && r.response.body@
            == generic_db_body() && (r.log matches Some(m) && m@ == "Invalid db url: `"@
            + settings.db_url@ + "`"@)),
        valid_address(settings.db_url@) ==> ((r.response.status == 200 && r.response.body@
            == data_json(Seq::<i32>::empty()) && r.log is None) || (r.response.status == 500
            && r.response.body@ == generic_db_body() && (r.log matches Some(m) && m@
            == DbError::ConnectionFailure.spec_message()))),
{
    let available = !database::check_availablility();
    get_records_given(settings, available)
}

} // verus!
