use vstd::prelude::*;

verus! {

/// The error kinds that the storage layer surfaces to its callers.
///
/// Absence of a record is not an error: `fetch` reports it as `None`.
#[derive(Clone, Copy, Debug, PartialEq, Eq, Structural)]
pub enum StoreError {
    /// The backend session could not be established or initialized.
    ConnectionFailure,
    /// An insert hit an identifier that already holds a live record.
    ConstraintViolation,
    /// The backend reported some other failure while running a query.
    BackendQueryFailure,
    /// A stored payload is not well-formed compressed data.
    CodecFailure,
}

/// The error the relational adapter surfaces for a failed statement,
/// classified by the SQLSTATE the backend reports: a unique violation
/// (23505) on the primary key is a constraint violation; anything else —
/// including a missing SQLSTATE — is a backend query failure.
pub fn classify_relational_error(sqlstate: Option<String>) -> (r: StoreError)
    ensures
        r == (match sqlstate {
            Some(s) => if s@ == "23505"@ {
                StoreError::ConstraintViolation
            } else {
                StoreError::BackendQueryFailure
            },
            None => StoreError::BackendQueryFailure,
        }),
{
    match sqlstate {
        Some(s) => {
            if s == "23505".to_owned() {
                StoreError::ConstraintViolation
            } else {
                StoreError::BackendQueryFailure
            }
        },
        None => StoreError::BackendQueryFailure,
    }
}

/// The error the document adapter surfaces for a failed write, classified
/// by the server's error code: a duplicate key (11000) on the document id
/// is a constraint violation; anything else a backend query failure.
pub fn classify_document_error(code: Option<i32>) -> (r: StoreError)
    ensures
        r == (match code {
            Some(c) => if c == 11000 {
                StoreError::ConstraintViolation
            } else {
                StoreError::BackendQueryFailure
            },
            None => StoreError::BackendQueryFailure,
        }),
{
    match code {
        Some(c) => {
            if c == 11000 {
                StoreError::ConstraintViolation
            } else {
                StoreError::BackendQueryFailure
            }
        },
        None => StoreError::BackendQueryFailure,
    }
}

} // verus!
