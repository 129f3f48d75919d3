//! The classification boundary: one total, deterministic mapping from every
//! failure the service can raise to an externally visible response, and the
//! single place where internal detail is either logged or discarded.

use crate::database::DbError;
use vstd::prelude::*;

verus! {

/// Every failure the service can raise, unified under one closed type.
#[derive(Debug, PartialEq)]
pub enum OmnError {
    /// A failure originating in the external store dependency.
    Database(DbError),
    /// A handler-level failure unrelated to the dependency.
    Unlucky,
}

/// The externally visible outcome decided at the classification boundary:
/// a status code and a body.
#[derive(Debug, PartialEq)]
pub struct ClassifiedResponse {
    pub status: u16,
    pub body: String,
}

/// The one generic body shown for every dependency failure.
pub open spec fn generic_db_body() -> Seq<char> {
    "Some kind of DB problem."@
}

/// The literal text of the handler-level failure, which may be shown.
pub open spec fn unlucky_body() -> Seq<char> {
    "Very Unlucky!"@
}

impl OmnError {
    /// The externally visible status: every dependency failure collapses to
    /// the generic server error, while the handler-level failure keeps its
    /// own, distinct legally-restricted status.
    pub open spec fn spec_status(&self) -> u16 {
        match self {
            OmnError::Database(_) => 500,
            OmnError::Unlucky => 451,
        }
    }

    /// The externally visible body: the fixed generic message for every
    /// dependency failure, the literal display text for the handler-level
    /// failure.
    pub open spec fn spec_body(&self) -> Seq<char> {
        match self {
            OmnError::Database(_) => generic_db_body(),
            OmnError::Unlucky => unlucky_body(),
        }
    }

    /// What the classification boundary records for operators: the full
    /// internal detail of a dependency failure, and nothing for the
    /// handler-level failure.
    pub open spec fn spec_log(&self) -> Option<Seq<char>> {
        match self {
            OmnError::Database(err) => Some(err.spec_message()),
            OmnError::Unlucky => None,
        }
    }

    pub fn status_code(&self) -> (r: u16)
        ensures
            r == self.spec_status(),
    {
        match self {
            OmnError::Database(_) => 500,
            OmnError::Unlucky => 451,
        }
    }

    /// Classifies this failure: the response is fixed by the variant alone.
    pub fn error_response(&self) -> (r: ClassifiedResponse)
        ensures
            r.status == self.spec_status(),
            r.body@ == self.spec_body(),
    {
        let body = match self {
            OmnError::Database(_) => "Some kind of DB problem.".to_owned(),
            OmnError::Unlucky => "Very Unlucky!".to_owned(),
        };
        ClassifiedResponse { status: self.status_code(), body }
    }

    /// The operator log entry for this failure, if any.
    pub fn log_line(&self) -> (r: Option<String>)
        ensures
            self matches OmnError::Database(err) ==> (r matches Some(m) && m@
                == err.spec_message()),
            self matches OmnError::Unlucky ==> r is None,
    {
        match self {
            OmnError::Database(err) => Some(err.message()),
            OmnError::Unlucky => None,
        }
    }
}

/// The classifier is total and deterministic: every failure value falls
/// under exactly one of the two status classes, and the variant alone fixes
/// the whole response.
pub proof fn lemma_classification_total(e: &OmnError)
    ensures
        e.spec_status() == 500 <==> e matches OmnError::Database(_),
        e.spec_status() == 451 <==> e matches OmnError::Unlucky,
        e matches OmnError::Database(_) ==> e.spec_body() == generic_db_body(),
        e matches OmnError::Unlucky ==> e.spec_body() == unlucky_body(),
        e.spec_log() is Some <==> e matches OmnError::Database(_),
{
}

/// Dependency detail never reaches the external body: every dependency
/// failure shows the one generic body, whatever its internal detail, that
/// body is never the detail text itself, and the detail goes to the
/// operator log alone. Only the handler-level failure's literal text is
/// shown outside.
pub proof fn lemma_dependency_detail_hidden(d: &DbError)
    ensures
        OmnError::Database(*d).spec_body() == generic_db_body(),
        OmnError::Database(*d).spec_body() != d.spec_message(),
        OmnError::Database(*d).spec_log() == Some(d.spec_message()),
        OmnError::Unlucky.spec_body() == unlucky_body(),
{
    reveal_strlit("Some kind of DB problem.");
    reveal_strlit("Unable to connect to database");
    reveal_strlit("Failed to execute query.");
    reveal_strlit("Invalid db url: `");
    match d {
        DbError::ConnectionFailure => {
            assert(d.spec_message()[0] == 'U');
            assert(generic_db_body()[0] == 'S');
        },
        DbError::QueryFailure => {
            assert(d.spec_message()[0] == 'F');
            assert(generic_db_body()[0] == 'S');
        },
        DbError::BadUrl(raw) => {
            assert(("Invalid db url: `"@ + raw@)[0] == 'I');
            assert(d.spec_message()[0] == 'I');
            assert(generic_db_body()[0] == 'S');
        },
    }
}

} // verus!
