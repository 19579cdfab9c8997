//! Application errors and their mapping to HTTP replies, and the item lookup
//! handlers that produce them.

use vstd::prelude::*;
use vstd::string::*;

verus! {

/// Application-level errors.
pub enum AppError {
    NotFound,
    BadRequest(String),
    Internal,
}

/// The HTTP status of an error.
pub open spec fn status_of(e: AppError) -> u16 {
    match e {
        AppError::NotFound => 404,
        AppError::BadRequest(_) => 400,
        AppError::Internal => 500,
    }
}

/// The stable machine-readable code of an error.
pub open spec fn code_of(e: AppError) -> Seq<char> {
    match e {
        AppError::NotFound => seq!['N', 'O', 'T', '_', 'F', 'O', 'U', 'N', 'D'],
        AppError::BadRequest(_) => seq!['B', 'A', 'D', '_', 'R', 'E', 'Q', 'U', 'E', 'S', 'T'],
        AppError::Internal => seq!['I', 'N', 'T', 'E', 'R', 'N', 'A', 'L'],
    }
}

/// The human-readable text of an error: `not found`, `invalid input: {detail}`
/// or `internal error`.
pub open spec fn message_of(e: AppError) -> Seq<char> {
    match e {
        AppError::NotFound => seq!['n', 'o', 't', ' ', 'f', 'o', 'u', 'n', 'd'],
        AppError::BadRequest(detail) => seq!['i', 'n', 'v', 'a', 'l', 'i', 'd', ' ', 'i', 'n', 'p', 'u', 't', ':', ' '] + detail@,
        AppError::Internal => seq!['i', 'n', 't', 'e', 'r', 'n', 'a', 'l', ' ', 'e', 'r', 'r', 'o', 'r'],
    }
}

/// What an error becomes at the HTTP boundary: a status and a body
/// `{ "code": .., "message": .. }`.
pub struct ErrorReply {
    pub status: u16,
    pub code: &'static str,
    pub message: String,
}

impl AppError {
    /// The HTTP status: 404, 400 or 500.
    pub fn status_code(&self) -> (s: u16)
        ensures
            s == status_of(*self),
    {
        match self {
            AppError::NotFound => 404,
            AppError::BadRequest(_) => 400,
            AppError::Internal => 500,
        }
    }

    /// The machine-readable code: `NOT_FOUND`, `BAD_REQUEST` or `INTERNAL`.
    pub fn code(&self) -> (c: &'static str)
        ensures
            c@ == code_of(*self),
    {
        match self {
            AppError::NotFound => {
                proof { reveal_strlit("NOT_FOUND"); }
                assert("NOT_FOUND"@ =~= code_of(*self));
                "NOT_FOUND"
            },
            AppError::BadRequest(_) => {
                proof { reveal_strlit("BAD_REQUEST"); }
                assert("BAD_REQUEST"@ =~= code_of(*self));
                "BAD_REQUEST"
            },
            AppError::Internal => {
                proof { reveal_strlit("INTERNAL"); }
                assert("INTERNAL"@ =~= code_of(*self));
                "INTERNAL"
            },
        }
    }

    /// The human-readable text of the error.
    pub fn message(&self) -> (m: String)
        ensures
            m@ == message_of(*self),
    {
        match self {
            AppError::NotFound => {
                proof { reveal_strlit("not found"); }
                assert("not found"@ =~= message_of(*self));
                String::from_str("not found")
            },
            AppError::BadRequest(detail) => {
                proof { reveal_strlit("invalid input: "); }
                assert("invalid input: "@ =~= seq!['i', 'n', 'v', 'a', 'l', 'i', 'd', ' ', 'i', 'n', 'p', 'u', 't', ':', ' ']);
                let mut m = String::from_str("invalid input: ");
                m.append(detail.as_str());
                m
            },
            AppError::Internal => {
                proof { reveal_strlit("internal error"); }
                assert("internal error"@ =~= message_of(*self));
                String::from_str("internal error")
            },
        }
    }

    /// The reply for this error: its status, its code and its text.
    pub fn into_reply(self) -> (r: ErrorReply)
        ensures
            r.status == status_of(self),
            r.code@ == code_of(self),
            r.message@ == message_of(self),
    {
        let status = self.status_code();
        let code = self.code();
        let message = self.message();
        ErrorReply { status, code, message }
    }
}

/// An item served by the lookup handler.
pub struct Item {
    pub id: u64,
    pub name: &'static str,
}

/// The text of the error for a zero id.
pub open spec fn zero_id_text() -> Seq<char> {
    seq!['i', 'd', ' ', 'm', 'u', 's', 't', ' ', 'b', 'e', ' ', 'g', 'r', 'e', 'a', 't', 'e', 'r', ' ', 't', 'h', 'a', 'n', ' ', 'z', 'e', 'r', 'o']
}

/// The name of the one item there is.
pub open spec fn item_name() -> Seq<char> {
    seq!['T', 'o', 'k', 'i', 'o']
}

/// Looks up item `id`: id 0 is a bad request, id 1 is the item `Tokio`, any
/// other id is not found.
pub fn get_item(id: u64) -> (r: Result<Item, AppError>)
    ensures
        id == 0 ==> (r matches Err(AppError::BadRequest(detail)) && detail@ == zero_id_text()),
        id == 1 ==> (r matches Ok(item) && item.id == 1 && item.name@ == item_name()),
        id > 1 ==> r matches Err(AppError::NotFound),
{
    if id == 0 {
        proof { reveal_strlit("id must be greater than zero"); }
        assert("id must be greater than zero"@ =~= zero_id_text());
        Err(AppError::BadRequest(String::from_str("id must be greater than zero")))
    } else if id == 1 {
        proof { reveal_strlit("Tokio"); }
        assert("Tokio"@ =~= item_name());
        Ok(Item { id, name: "Tokio" })
    } else {
        Err(AppError::NotFound)
    }
}

/// The handler that always fails with an internal error.
pub fn boom() -> (r: Result<Item, AppError>)
    ensures
        r matches Err(AppError::Internal),
{
    Err(AppError::Internal)
}

} // verus!
