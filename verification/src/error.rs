//! Rejections. A rejected operation leaves the project exactly as it was.

use vstd::prelude::*;

verus! {

/// The four kinds of rejection.
#[derive(Clone, Copy, PartialEq, Eq, Structural, Debug)]
pub enum ErrorKind {
    /// The project is in the wrong state for the operation.
    Precondition,
    /// An argument is unusable whatever the state.
    Validation,
    /// The caller did not prove control of the party it named.
    Authorization,
    /// A project or data item that does not exist was named.
    Lookup,
}

/// Why an operation was rejected.
#[derive(Clone, Copy, PartialEq, Eq, Structural, Debug)]
pub enum Error {
    /// The caller did not prove control of the party it named.
    Unauthorized,
    /// A contribution of zero or less.
    NonPositiveAmount,
    /// A contribution to a project that is no longer funding.
    NotFunding,
    /// A submission to a project whose annotation market is not open yet.
    StillFunding,
    /// A submission to an expired project.
    Expired,
    /// An annotation for a project whose escrow is used up.
    MarketClosed,
    /// A refund claimed while the escrow still pays annotators.
    StillAnnotating,
    /// A withdrawal from a project that has not expired.
    NotExpired,
    /// An annotation without a label.
    EmptyLabel,
    /// A submission for a data item the project does not hold.
    UnknownDataPoint,
    /// A project id that was never allocated.
    UnknownProject,
    /// A second initialization of a single project.
    AlreadyInitialized,
    /// An operation on a single project that was never initialized.
    NotInitialized,
    /// The custody balance or a ledger entry would leave the range of `i128`,
    /// or the project counter the range of `u32`.
    Overflow,
    /// A payout larger than what the project holds in custody.
    InsufficientCustody,
    /// A stored value that does not name a state.
    Conversion,
}

impl Error {
    /// The kind of rejection an error belongs to.
    pub open spec fn spec_kind(self) -> ErrorKind {
        match self {
            Error::Unauthorized => ErrorKind::Authorization,
            Error::NonPositiveAmount => ErrorKind::Validation,
            Error::EmptyLabel => ErrorKind::Validation,
            Error::Overflow => ErrorKind::Validation,
            Error::Conversion => ErrorKind::Validation,
            Error::UnknownDataPoint => ErrorKind::Lookup,
            Error::UnknownProject => ErrorKind::Lookup,
            Error::NotInitialized => ErrorKind::Lookup,
            Error::NotFunding => ErrorKind::Precondition,
            Error::StillFunding => ErrorKind::Precondition,
            Error::Expired => ErrorKind::Precondition,
            Error::MarketClosed => ErrorKind::Precondition,
            Error::StillAnnotating => ErrorKind::Precondition,
            Error::NotExpired => ErrorKind::Precondition,
            Error::AlreadyInitialized => ErrorKind::Precondition,
            Error::InsufficientCustody => ErrorKind::Precondition,
        }
    }

    /// The kind of rejection the error belongs to.
    #[verifier::when_used_as_spec(spec_kind)]
    pub fn kind(self) -> (k: ErrorKind)
        ensures
            k == self.spec_kind(),
    {
        match self {
            Error::Unauthorized => ErrorKind::Authorization,
            Error::NonPositiveAmount
            | Error::EmptyLabel
            | Error::Overflow
            | Error::Conversion => ErrorKind::Validation,
            Error::UnknownDataPoint | Error::UnknownProject | Error::NotInitialized => {
                ErrorKind::Lookup
            },
            Error::NotFunding
            | Error::StillFunding
            | Error::Expired
            | Error::MarketClosed
            | Error::StillAnnotating
            | Error::NotExpired
            | Error::AlreadyInitialized
            | Error::InsufficientCustody => ErrorKind::Precondition,
        }
    }

    /// The text of the rejection.
    pub open spec fn spec_message(self) -> Seq<char> {
        match self {
            Error::Unauthorized => "not authorized"@,
            Error::NonPositiveAmount => "amount must be positive"@,
            Error::NotFunding => "sale is not running"@,
            Error::StillFunding => "sale is still running"@,
            Error::Expired => "Withdraw, expired"@,
            Error::MarketClosed => "annotation is over"@,
            Error::StillAnnotating => "annotation is still running"@,
            Error::NotExpired => "not expired"@,
            Error::EmptyLabel => "label cannot be empty"@,
            Error::UnknownDataPoint => "no such data point"@,
            Error::UnknownProject => "no such project"@,
            Error::AlreadyInitialized => "already initialized"@,
            Error::NotInitialized => "not initialized"@,
            Error::Overflow => "amount out of range"@,
            Error::InsufficientCustody => "not enough funds in custody"@,
            Error::Conversion => "not a state"@,
        }
    }

    /// The text of the rejection.
    pub fn message(self) -> (m: &'static str)
        ensures
            m@ == self.spec_message(),
    {
        match self {
            Error::Unauthorized => "not authorized",
            Error::NonPositiveAmount => "amount must be positive",
            Error::NotFunding => "sale is not running",
            Error::StillFunding => "sale is still running",
            Error::Expired => "Withdraw, expired",
            Error::MarketClosed => "annotation is over",
            Error::StillAnnotating => "annotation is still running",
            Error::NotExpired => "not expired",
            Error::EmptyLabel => "label cannot be empty",
            Error::UnknownDataPoint => "no such data point",
            Error::UnknownProject => "no such project",
            Error::AlreadyInitialized => "already initialized",
            Error::NotInitialized => "not initialized",
            Error::Overflow => "amount out of range",
            Error::InsufficientCustody => "not enough funds in custody",
            Error::Conversion => "not a state",
        }
    }
}

} // verus!
