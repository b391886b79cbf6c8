//! The ways an operation on the store can fail.

use vstd::prelude::*;

verus! {

/// Which rule a change would break.
#[derive(Debug, Clone, Copy, PartialEq, Eq, Structural)]
pub enum Rule {
    /// An identifier that must be new is taken.
    IdentifierTaken,
    /// The name of a category is taken.
    NameTaken,
    /// The owner that a row would belong to does not exist.
    OwnerMissing,
    /// The ledger account that an entry would belong to does not exist.
    AccountMissing,
    /// A category that notes would be filed under does not exist.
    CategoryMissing,
    /// A ledger entry is of no known kind or platform.
    EntryFields,
    /// A rating lies outside 1 to 10.
    Rating,
    /// A tag comes twice.
    TagTwice,
    /// A category comes twice.
    CategoryTwice,
    /// No identifier is left to hand out.
    NoIdentifierLeft,
    /// The tables handed in are not in order.
    OutOfOrder,
}

/// Why an operation was refused.
#[derive(Debug, Clone, Copy, PartialEq, Eq, Structural)]
pub enum StoreError {
    /// No storage location has been settled yet.
    NotConfigured,
    /// The row or file that the operation refers to does not exist.
    NotFound,
    /// A name handed in holds a blank or a statement separator.
    Validation,
    /// The change would break a uniqueness rule, a reference or a check:
    /// the rule says which.
    Constraint(Rule),
    /// The relay could not complete a request.
    Transport,
}

} // verus!
