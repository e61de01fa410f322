//! Decisions of the read-only query surface: parameter defaults, the address role
//! filter, input checks and their status codes, and timeout labels.

use vstd::prelude::*;

use crate::client::{decimal_of, decimal_text};
use crate::text::{concat, push_str, str_eq};

verus! {

/// The version every response carries.
pub const API_VERSION: &'static str = "1.0";

/// Page size when none is asked for.
pub fn default_limit() -> (r: i64)
    ensures
        r == 100,
{
    100
}

/// Age in seconds from which an uneffected packet counts as stuck, when none is asked for.
pub fn default_min_age() -> (r: i64)
    ensures
        r == 900,
{
    900
}

/// The look-ahead of the expiring query in minutes, when none is asked for.
pub fn default_expiring_minutes() -> (r: i64)
    ensures
        r == 60,
{
    60
}

/// Which side of a transfer an address is looked up on.
#[derive(Clone, Copy, Debug, PartialEq, Eq, Structural)]
pub enum Role {
    Sender,
    Receiver,
    Both,
}

/// `sender` and `receiver` name their side; anything else means both.
pub fn parse_role(s: &str) -> (r: Role)
    ensures
        s@ == "sender"@ ==> r == Role::Sender,
        s@ == "receiver"@ ==> r == Role::Receiver,
        !(s@ == "sender"@ || s@ == "receiver"@) ==> r == Role::Both,
{
    proof {
        reveal_strlit("sender");
        reveal_strlit("receiver");
        assert("sender"@[0] != "receiver"@[0]);
    }
    if str_eq(s, "sender") {
        Role::Sender
    } else if str_eq(s, "receiver") {
        Role::Receiver
    } else {
        Role::Both
    }
}

/// A failed query.
#[derive(Clone, Copy, Debug, PartialEq, Eq, Structural)]
pub enum ApiError {
    BadRequest,
    NotFound,
    Internal,
}

impl ApiError {
    /// The HTTP status code of the failure.
    pub fn status(&self) -> (r: u16)
        ensures
            *self == ApiError::BadRequest ==> r == 400,
            *self == ApiError::NotFound ==> r == 404,
            *self == ApiError::Internal ==> r == 500,
    {
        match self {
            ApiError::BadRequest => 400,
            ApiError::NotFound => 404,
            ApiError::Internal => 500,
        }
    }
}

/// An address lookup needs an address.
pub fn check_address(address: &str) -> (r: Result<(), ApiError>)
    ensures
        r is Err <==> address@.len() == 0,
        r matches Err(e) ==> e == ApiError::BadRequest,
{
    if address.is_empty() {
        Err(ApiError::BadRequest)
    } else {
        Ok(())
    }
}

/// A packet with a timeout height is reported by height, otherwise by timestamp.
pub fn timeout_type(has_height: bool) -> (r: &'static str)
    ensures
        has_height ==> r@ == "height"@,
        !has_height ==> r@ == "timestamp"@,
{
    if has_height {
        "height"
    } else {
        "timestamp"
    }
}

/// A timeout height written `revision-height`.
pub fn height_label(revision_number: u64, revision_height: u64) -> (r: String)
    ensures
        r@ == decimal_of(revision_number as nat) + "-"@ + decimal_of(revision_height as nat),
{
    let mut s = decimal_text(revision_number);
    push_str(&mut s, "-");
    let h = decimal_text(revision_height);
    concat(s.as_str(), h.as_str())
}

} // verus!
