//! Classifying the catalog's answer for one reference.
use crate::reference::Reference;
use vstd::prelude::*;

verus! {

/// One catalog record returned for a name lookup.
pub struct Entry {
    pub id: u32,
    pub visible: u32,
    pub profile_url: String,
}

/// A lookup that failed in transport or decoding, with the HTTP status
/// where the service sent one.
#[derive(Clone, Copy, Debug, PartialEq, Eq)]
pub struct FetchFailure {
    pub status: Option<u16>,
}

/// Why a reference failed validation.
pub enum ValidationError {
    /// The catalog holds no visible entry of that name.
    NotFound { url: String },
    /// The lookup itself failed.
    ServiceError { url: String, status: Option<u16> },
    /// Several visible entries share the name.
    Ambiguous { url: String },
}

impl ValidationError {
    pub open spec fn url_view(&self) -> Seq<char> {
        match self {
            ValidationError::NotFound { url } => url@,
            ValidationError::ServiceError { url, .. } => url@,
            ValidationError::Ambiguous { url } => url@,
        }
    }

    /// The status shown for the failure: 404 for a missing entry, the
    /// service's status for a failed lookup, none for an ambiguous one.
    pub open spec fn status_view(&self) -> Option<u32> {
        match self {
            ValidationError::NotFound { .. } => Some(404),
            ValidationError::ServiceError { status, .. } => match status {
                Some(c) => Some(*c as u32),
                None => None,
            },
            ValidationError::Ambiguous { .. } => None,
        }
    }

    /// The reference line that failed.
    pub fn url(&self) -> (r: &str)
        ensures
            r@ == self.url_view(),
    {
        match self {
            ValidationError::NotFound { url } => url.as_str(),
            ValidationError::ServiceError { url, .. } => url.as_str(),
            ValidationError::Ambiguous { url } => url.as_str(),
        }
    }

    pub fn status_code(&self) -> (r: Option<u32>)
        ensures
            r == self.status_view(),
    {
        match self {
            ValidationError::NotFound { .. } => Some(404),
            ValidationError::ServiceError { status, .. } => match status {
                Some(c) => Some(*c as u32),
                None => None,
            },
            ValidationError::Ambiguous { .. } => None,
        }
    }
}

/// Decides a reference from what its lookup returned: a failed lookup is a
/// service error; no entry is not found; the last entry is the match where
/// it is the only one, and the reference is ambiguous otherwise.
pub fn check_url(reference: &Reference, fetched: Result<Vec<Entry>, FetchFailure>) -> (r: Result<
    Entry,
    ValidationError,
>)
    ensures
        match fetched {
            Err(f) => r matches Err(ValidationError::ServiceError { url, status }) && url@
                == reference.url_view() && status == f.status,
            Ok(v) => if v@.len() == 0 {
                r matches Err(ValidationError::NotFound { url }) && url@ == reference.url_view()
            } else if v@.len() == 1 {
                r == Ok::<Entry, ValidationError>(v@[0])
            } else {
                r matches Err(ValidationError::Ambiguous { url }) && url@ == reference.url_view()
            },
        },
{
    let mut entries = match fetched {
        Ok(v) => v,
        Err(f) => {
            return Err(
                ValidationError::ServiceError {
                    url: String::from_str(reference.url()),
                    status: f.status,
                },
            );
        },
    };
    let candidate = match entries.pop() {
        Some(e) => e,
        None => {
            return Err(ValidationError::NotFound { url: String::from_str(reference.url()) });
        },
    };
    if entries.len() > 0 {
        return Err(ValidationError::Ambiguous { url: String::from_str(reference.url()) });
    }
    Ok(candidate)
}

} // verus!
