//! What makes two records speak of the same principal.

use crate::text::{eq_ignoring_case, lowercase};
use vstd::prelude::*;

verus! {

/// The identity of a principal: its ARN and its display name, case ignored.
pub struct PrincipalKey {
    pub arn: Seq<char>,
    pub name: Seq<char>,
}

/// The identity of the principal with this ARN and display name.
pub open spec fn principal_key(arn: Seq<char>, name: Seq<char>) -> PrincipalKey {
    PrincipalKey { arn: lowercase(arn), name: lowercase(name) }
}

/// Tells whether two pairs of ARN and display name speak of the same principal.
pub fn same_principal(arn: &str, name: &str, other_arn: &str, other_name: &str) -> (b: bool)
    ensures
        b == (principal_key(arn@, name@) == principal_key(other_arn@, other_name@)),
{
    eq_ignoring_case(arn, other_arn) && eq_ignoring_case(name, other_name)
}

} // verus!
