use vstd::prelude::*;

verus! {

/// Closed error taxonomy of the lunch-ordering core.
///
/// `Connection` stands for a database file that cannot be reached,
/// `Query` for a failing statement (malformed statement, constraint
/// violation), `Validation` for rejected form input, `NotFound` for a
/// lookup that matched no row, `Hash` for a password-hashing failure,
/// and `Registration` wraps whichever of the others interrupted the
/// atomic registration sequence.
#[derive(Debug)]
pub enum LunchOrderError {
    Connection,
    Query,
    Validation,
    NotFound,
    Hash,
    Registration(Box<LunchOrderError>),
}

impl LunchOrderError {
    /// Whether this error is a registration failure wrapping exactly the
    /// given underlying cause.
    pub open spec fn wraps(self, cause: LunchOrderError) -> bool {
        self matches LunchOrderError::Registration(c) && *c == cause
    }

    /// Short description of the error, for display by callers.
    pub fn describe(&self) -> (r: &'static str) {
        match self {
            LunchOrderError::Connection => "database connection failed",
            LunchOrderError::Query => "database query failed",
            LunchOrderError::Validation => "invalid input",
            LunchOrderError::NotFound => "no such row",
            LunchOrderError::Hash => "password hashing failed",
            LunchOrderError::Registration(_) => "registration failed",
        }
    }
}

} // verus!
