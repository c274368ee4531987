//! The identity source's side: groups, their members and what can go wrong
//! when they are listed.

use crate::aws::iam::IamError;
use vstd::prelude::*;

pub mod iam;

verus! {

/// Why talking to the identity source failed.
#[derive(Debug)]
pub enum AwsError {
    IamError { underlying_error: IamError },
}

impl AwsError {
    /// Wraps an error of the group listing.
    pub fn from_iam_error(e: IamError) -> (r: AwsError)
        ensures
            r == (AwsError::IamError { underlying_error: e }),
    {
        AwsError::IamError { underlying_error: e }
    }

    /// The message of the error.
    pub open spec fn message(&self) -> Seq<char> {
        match self {
            AwsError::IamError { underlying_error } => "AWS error: error with IAM: "@
                + underlying_error.message(),
        }
    }

    /// Writes the error out as its message.
    pub fn to_string(&self) -> (s: String)
        ensures
            s@ == self.message(),
    {
        match self {
            AwsError::IamError { underlying_error } => {
                let inner = underlying_error.to_string();
                String::from_str("AWS error: error with IAM: ").concat(inner.as_str())
            },
        }
    }
}

} // verus!
