use vstd::prelude::*;

verus! {

/// Why a store operation or a command failed.
#[derive(Clone, Copy, Debug, PartialEq, Eq, Structural)]
pub enum DbErr {
    /// No category has the key that an update asked for.
    CategoryNotFound,
    /// No record has the id that an update asked for.
    RecordNotFound,
    /// A category with the same external key already exists.
    Conflict,
    /// A record names a category key that no category has.
    MissingCategory,
    /// The surrogate ids of a table are used up.
    IdsExhausted,
    /// A total is too large to be written as a decimal number.
    TotalOutOfRange,
    /// The store could not be opened: its schema could not be brought up to
    /// date, or its saved rows break the store's invariant.
    StoreUnavailable,
}

impl DbErr {
    /// The human-readable message that callers of the command layer receive.
    pub fn message(&self) -> (r: String)
        ensures
            r@ == self.message_spec(),
    {
        match self {
            DbErr::CategoryNotFound => String::from_str("Category not found"),
            DbErr::RecordNotFound => String::from_str("Record not found"),
            DbErr::Conflict => String::from_str("A category with this key already exists"),
            DbErr::MissingCategory => String::from_str("The record refers to an unknown category"),
            DbErr::IdsExhausted => String::from_str("No identifiers are left in this table"),
            DbErr::TotalOutOfRange => String::from_str("Total is out of the decimal range"),
            DbErr::StoreUnavailable => String::from_str("The store is unavailable"),
        }
    }

    pub open spec fn message_spec(&self) -> Seq<char> {
        match self {
            DbErr::CategoryNotFound => "Category not found"@,
            DbErr::RecordNotFound => "Record not found"@,
            DbErr::Conflict => "A category with this key already exists"@,
            DbErr::MissingCategory => "The record refers to an unknown category"@,
            DbErr::IdsExhausted => "No identifiers are left in this table"@,
            DbErr::TotalOutOfRange => "Total is out of the decimal range"@,
            DbErr::StoreUnavailable => "The store is unavailable"@,
        }
    }
}

} // verus!
