//! The checksum by which an edited migration is noticed.
//!
//! The ledger of a store is written by `sqlx`, so a checksum made here has to
//! be the one that `sqlx` makes of the same script. It is therefore taken from
//! `sqlx` rather than computed anew.

use std::borrow::Cow;
use sqlx::migrate::{Migration, MigrationType};
use vstd::prelude::*;

verus! {

/// The checksum of a script: the SHA-384 digest of its text in UTF-8, as
/// `sqlx` stores it with an applied migration. It depends on the text
/// alone.
pub uninterp spec fn content_digest(content: Seq<char>) -> Seq<u8>;

/// Computes the checksum of a script.
///
/// Trusted: `sqlx::migrate::Migration::new`, which sets the `checksum` of
/// the migration it builds to the SHA-384 digest of the bytes of `sql`, and
/// to nothing else of its arguments. The contract only names that digest.
#[verifier::external_body]
pub(crate) fn digest(content: &str) -> (checksum: Vec<u8>)
    ensures
        checksum@ == content_digest(content@),
{
    let sql: Cow<'static, str> = Cow::Owned(content.to_owned());
    let migration = Migration::new(0, Cow::Borrowed(""), MigrationType::Simple, sql, false);
    migration.checksum.into_owned()
}

} // verus!
