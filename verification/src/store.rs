//! Persistence-facing rules shared by every repository: the source-free store
//! error and bounded pagination.
use crate::auth::AuthError;
use crate::catalog_editing::existing_name_ok;
use vstd::prelude::*;

verus! {

/// A failed database operation. Never includes SQL, remote messages,
/// credentials or query parameters.
#[derive(Debug, Clone, Copy, PartialEq, Eq, Structural)]
pub struct StoreError;

impl StoreError {
    pub fn message(&self) -> (r: &'static str)
        ensures
            r@ == "Database operation failed"@,
    {
        "Database operation failed"
    }
}

impl From<StoreError> for AuthError {
    fn from(e: StoreError) -> (r: AuthError) {
        AuthError::Unavailable
    }
}

impl vstd::std_specs::convert::FromSpecImpl<StoreError> for AuthError {
    open spec fn obeys_from_spec() -> bool {
        true
    }

    open spec fn from_spec(v: StoreError) -> AuthError {
        AuthError::Unavailable
    }
}

/// One page of a list read with one row of lookahead: at most `size` rows, and
/// whether more follow.
pub fn page_rows<T>(rows: Vec<T>, size: usize) -> (r: (Vec<T>, bool))
    ensures
        r.1 == (rows@.len() > size),
        r.0@ == if rows@.len() > size {
            rows@.subrange(0, size as int)
        } else {
            rows@
        },
{
    let has_next = rows.len() > size;
    let mut rows = rows;
    rows.truncate(size);
    (rows, has_next)
}

/// The offset of a page of `size` rows.
pub fn page_offset(page: u32, size: u32) -> (r: i64)
    requires
        size <= 0x7FFF_FFFF,
    ensures
        r == page as int * size as int,
{
    proof {
        assert(page as int * size as int <= 0xFFFF_FFFF * 0x7FFF_FFFF) by (nonlinear_arith)
            requires
                page <= 0xFFFF_FFFF,
                size <= 0x7FFF_FFFF,
        ;
    }
    (page as i64) * (size as i64)
}

/// A public catalog lookup by name: the same identifier rule as catalog edits,
/// refused without detail.
pub fn public_name(name: &str) -> (r: Result<(), StoreError>)
    ensures
        r is Ok <==> existing_name_ok(name@),
{
    match crate::catalog_editing::existing_name(name) {
        Ok(()) => Ok(()),
        Err(_) => Err(StoreError),
    }
}

} // verus!
