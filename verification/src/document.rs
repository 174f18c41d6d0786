//! What a document-database backend computes around its round trips to the
//! database: the collection it uses, and how the database's replies become
//! the results of the storage operations.

use vstd::prelude::*;
use crate::error::StorageError;
use crate::storage::Secret;

verus! {

/// The name of the collection that holds the secrets.
pub const COLL_NAME: &'static str = "secrets";

/// The position of the first document that could not be decoded, or the
/// length where all could.
pub open spec fn first_failure(decoded: Seq<Result<Secret, StorageError>>) -> int
    decreases decoded.len(),
{
    if decoded.len() == 0 {
        0
    } else if decoded[0] is Err {
        0
    } else {
        1 + first_failure(decoded.drop_first())
    }
}

/// The result of listing all secrets, given each document found as decoded:
/// all the secrets in order, or the first failure to decode one.
pub fn gather(decoded: &Vec<Result<Secret, StorageError>>) -> (r: Result<
    Vec<Secret>,
    StorageError,
>)
    ensures
        0 <= first_failure(decoded@) <= decoded.len(),
        match r {
            Ok(secrets) => first_failure(decoded@) == decoded.len() && secrets.len()
                == decoded.len() && forall|i: int|
                0 <= i < decoded.len() ==> decoded[i] == Ok::<Secret, StorageError>(secrets[i]),
            Err(error) => first_failure(decoded@) < decoded.len() && decoded[first_failure(
                decoded@,
            )] is Err && error.detail@ == decoded[first_failure(decoded@)]->Err_0.detail@,
        },
{
    let mut secrets: Vec<Secret> = Vec::new();
    let mut i: usize = 0;
    assert(decoded@.skip(0) =~= decoded@);
    while i < decoded.len()
        invariant
            i <= decoded.len(),
            secrets.len() == i,
            forall|j: int| 0 <= j < i ==> decoded[j] == Ok::<Secret, StorageError>(secrets[j]),
            first_failure(decoded@) == i + first_failure(decoded@.skip(i as int)),
        decreases decoded.len() - i,
    {
        proof {
            assert(decoded@.skip(i as int).drop_first() =~= decoded@.skip(i + 1));
            assert(decoded@.skip(i as int)[0] == decoded[i as int]);
        }
        match &decoded[i] {
            Ok(secret) => {
                secrets.push(secret.clone());
            },
            Err(error) => {
                return Err(StorageError::new(error.detail.clone()));
            },
        }
        i += 1;
    }
    assert(decoded@.skip(i as int).len() == 0);
    Ok(secrets)
}

/// Whether a deletion that removed `deleted_count` documents removed a
/// record.
pub fn removed(deleted_count: i64) -> (r: bool)
    ensures
        r == (deleted_count > 0),
{
    deleted_count > 0
}

} // verus!
