//! The failures of the engine. Every failure aborts the whole operation and
//! leaves the state as it was.

use vstd::prelude::*;
use vstd::string::*;
use crate::text::{decimal_digits, decimal_string};

verus! {

/// The five classes of failure.
#[derive(Clone, Copy, Debug, PartialEq, Eq, Structural)]
pub enum ErrorKind {
    /// The caller may not perform the operation.
    Authorization,
    /// An argument is malformed or over a limit.
    Validation,
    /// A series or item identifier does not resolve.
    NotFound,
    /// The series is in a state that forbids the operation.
    StateConflict,
    /// The attached deposit is too small.
    Funding,
}

/// A failed operation, with the threshold that was missed where there is one.
#[derive(Clone, Copy, Debug, PartialEq, Eq, Structural)]
pub enum Error {
    /// The caller is neither the owner nor an administrator.
    OnlyAdministrator,
    /// The caller is neither the owner, an administrator nor the creator.
    OnlyCreatorOrAdministrator,
    /// The caller is not the creator of the series.
    NotCreator,
    /// The caller does not hold the item.
    TokenOwnerOnly,
    /// The exchange rate is not greater than zero.
    RateNotPositive,
    /// The metadata of a series carries no title.
    TitleRequired,
    /// A royalty table names a malformed account.
    InvalidRoyaltyAccount,
    /// The purchase-time royalty table names the creator.
    CreatorInSplitList,
    /// The purchase-time royalty table has more than five accounts.
    TooManyRoyaltyBuyAccounts,
    /// The purchase-time royalty table sums to more than `max` basis points.
    RoyaltyBuyExceedsCap { max: u32 },
    /// The royalty table has more than ten accounts.
    TooManyRoyaltyAccounts,
    /// The royalty table sums to more than 9000 basis points.
    RoyaltyExceedsCap,
    /// The identifier is not of the kind that the operation works on.
    WrongSeriesKind,
    /// The royalty table has more recipients than the market can pay.
    TooManyPayoutReceivers,
    /// The royalties of a payout sum to more than 10000 basis points.
    PayoutOverflow,
    /// A payout was asked for without a limit on its recipients.
    MissingPayoutLimit,
    /// The start index of a listing is not below the number of entries.
    OutOfBounds,
    /// The limit of a listing is zero.
    ZeroLimit,
    /// The contract metadata is not well formed.
    InvalidMetadata,
    /// The raised copies limit does not fit in 64 bits.
    CopiesOverflow,
    /// The copies limit is below `minted`, the number of items minted so far.
    CopiesBelowSupply { minted: u64 },
    /// No series has the identifier.
    SeriesNotFound,
    /// No item has the identifier.
    TokenNotFound,
    /// The series is closed for minting.
    NotMintable,
    /// Every copy of the series has been minted.
    SupplyMaxed,
    /// The series has no price.
    NotForSale,
    /// The series has no copies limit.
    NoCopiesLimit,
    /// No sequence number is left for a new series.
    SequenceExhausted,
    /// The attached deposit is not exactly one smallest unit.
    OneYoctoRequired,
    /// The attached deposit is below `required`, the price plus the margin.
    DepositBelowPrice { required: u128 },
    /// The attached deposit does not cover `required`, the cost of storage.
    StorageNotCovered { required: u128 },
}

impl Error {
    /// The class of the failure.
    pub open spec fn spec_kind(self) -> ErrorKind {
        match self {
            Error::OnlyAdministrator
            | Error::OnlyCreatorOrAdministrator
            | Error::NotCreator
            | Error::TokenOwnerOnly => ErrorKind::Authorization,
            Error::SeriesNotFound | Error::TokenNotFound => ErrorKind::NotFound,
            Error::NotMintable
            | Error::SupplyMaxed
            | Error::NotForSale
            | Error::NoCopiesLimit
            | Error::SequenceExhausted => ErrorKind::StateConflict,
            Error::OneYoctoRequired
            | Error::DepositBelowPrice { .. }
            | Error::StorageNotCovered { .. } => ErrorKind::Funding,
            _ => ErrorKind::Validation,
        }
    }

    /// The class of the failure.
    pub fn kind(&self) -> (k: ErrorKind)
        ensures
            k == self.spec_kind(),
    {
        match self {
            Error::OnlyAdministrator
            | Error::OnlyCreatorOrAdministrator
            | Error::NotCreator
            | Error::TokenOwnerOnly => ErrorKind::Authorization,
            Error::SeriesNotFound | Error::TokenNotFound => ErrorKind::NotFound,
            Error::NotMintable
            | Error::SupplyMaxed
            | Error::NotForSale
            | Error::NoCopiesLimit
            | Error::SequenceExhausted => ErrorKind::StateConflict,
            Error::OneYoctoRequired
            | Error::DepositBelowPrice { .. }
            | Error::StorageNotCovered { .. } => ErrorKind::Funding,
            _ => ErrorKind::Validation,
        }
    }

    /// The text of the message: the violated condition and, where there is
    /// one, the threshold in decimal.
    pub open spec fn message_text(self) -> Seq<char> {
        match self {
            Error::OnlyAdministrator => "only the owner or an administrator may do this"@,
            Error::OnlyCreatorOrAdministrator => "only the creator, the owner or an administrator may do this"@,
            Error::NotCreator => "only the creator of the series may do this"@,
            Error::TokenOwnerOnly => "only the holder of the item may do this"@,
            Error::RateNotPositive => "the exchange rate must be greater than 0"@,
            Error::TitleRequired => "the metadata must carry a title"@,
            Error::InvalidRoyaltyAccount => "a royalty account is not a valid account id"@,
            Error::CreatorInSplitList => "the creator cannot be on the purchase split list"@,
            Error::TooManyRoyaltyBuyAccounts => "the purchase split list exceeds 5 accounts"@,
            Error::RoyaltyBuyExceedsCap { max } => "the purchase split list exceeds its maximum of basis points: "@
                + decimal_digits(max as nat),
            Error::TooManyRoyaltyAccounts => "the royalty table exceeds 10 accounts"@,
            Error::RoyaltyExceedsCap => "the royalty table exceeds its maximum of basis points: 9000"@,
            Error::WrongSeriesKind => "the identifier is of the wrong kind for this operation"@,
            Error::TooManyPayoutReceivers => "the market cannot pay out to that many receivers"@,
            Error::PayoutOverflow => "the payout exceeds 10000 basis points"@,
            Error::MissingPayoutLimit => "a payout needs a limit on its receivers"@,
            Error::OutOfBounds => "the start index is out of bounds"@,
            Error::ZeroLimit => "the limit cannot be 0"@,
            Error::InvalidMetadata => "the contract metadata is not well formed"@,
            Error::CopiesOverflow => "the copies limit does not fit in 64 bits"@,
            Error::CopiesBelowSupply { minted } => "the copies limit is below the number of minted items: "@
                + decimal_digits(minted as nat),
            Error::SeriesNotFound => "the series does not exist"@,
            Error::TokenNotFound => "the item does not exist"@,
            Error::NotMintable => "the series is not mintable"@,
            Error::SupplyMaxed => "the supply of the series is exhausted"@,
            Error::NotForSale => "the series is not for sale"@,
            Error::NoCopiesLimit => "the series has no copies limit"@,
            Error::SequenceExhausted => "no sequence number is left for a new series"@,
            Error::OneYoctoRequired => "the attached deposit must be exactly 1"@,
            Error::DepositBelowPrice { required } => "the attached deposit is less than the required minimum: "@
                + decimal_digits(required as nat),
            Error::StorageNotCovered { required } => "the attached deposit does not cover the storage cost: "@
                + decimal_digits(required as nat),
        }
    }

    /// A message for people, naming the violated condition and the threshold.
    pub fn message(&self) -> (m: String)
        ensures
            m@ == self.message_text(),
    {
        match self {
            Error::OnlyAdministrator => String::from_str("only the owner or an administrator may do this"),
            Error::OnlyCreatorOrAdministrator => String::from_str("only the creator, the owner or an administrator may do this"),
            Error::NotCreator => String::from_str("only the creator of the series may do this"),
            Error::TokenOwnerOnly => String::from_str("only the holder of the item may do this"),
            Error::RateNotPositive => String::from_str("the exchange rate must be greater than 0"),
            Error::TitleRequired => String::from_str("the metadata must carry a title"),
            Error::InvalidRoyaltyAccount => String::from_str("a royalty account is not a valid account id"),
            Error::CreatorInSplitList => String::from_str("the creator cannot be on the purchase split list"),
            Error::TooManyRoyaltyBuyAccounts => String::from_str("the purchase split list exceeds 5 accounts"),
            Error::RoyaltyBuyExceedsCap { max } => {
                let head = String::from_str("the purchase split list exceeds its maximum of basis points: ");
                let tail = decimal_string(*max as u128);
                head.concat(tail.as_str())
            },
            Error::TooManyRoyaltyAccounts => String::from_str("the royalty table exceeds 10 accounts"),
            Error::RoyaltyExceedsCap => String::from_str("the royalty table exceeds its maximum of basis points: 9000"),
            Error::WrongSeriesKind => String::from_str("the identifier is of the wrong kind for this operation"),
            Error::TooManyPayoutReceivers => String::from_str("the market cannot pay out to that many receivers"),
            Error::PayoutOverflow => String::from_str("the payout exceeds 10000 basis points"),
            Error::MissingPayoutLimit => String::from_str("a payout needs a limit on its receivers"),
            Error::OutOfBounds => String::from_str("the start index is out of bounds"),
            Error::ZeroLimit => String::from_str("the limit cannot be 0"),
            Error::InvalidMetadata => String::from_str("the contract metadata is not well formed"),
            Error::CopiesOverflow => String::from_str("the copies limit does not fit in 64 bits"),
            Error::CopiesBelowSupply { minted } => {
                let head = String::from_str("the copies limit is below the number of minted items: ");
                let tail = decimal_string(*minted as u128);
                head.concat(tail.as_str())
            },
            Error::SeriesNotFound => String::from_str("the series does not exist"),
            Error::TokenNotFound => String::from_str("the item does not exist"),
            Error::NotMintable => String::from_str("the series is not mintable"),
            Error::SupplyMaxed => String::from_str("the supply of the series is exhausted"),
            Error::NotForSale => String::from_str("the series is not for sale"),
            Error::NoCopiesLimit => String::from_str("the series has no copies limit"),
            Error::SequenceExhausted => String::from_str("no sequence number is left for a new series"),
            Error::OneYoctoRequired => String::from_str("the attached deposit must be exactly 1"),
            Error::DepositBelowPrice { required } => {
                let head = String::from_str("the attached deposit is less than the required minimum: ");
                let tail = decimal_string(*required);
                head.concat(tail.as_str())
            },
            Error::StorageNotCovered { required } => {
                let head = String::from_str("the attached deposit does not cover the storage cost: ");
                let tail = decimal_string(*required);
                head.concat(tail.as_str())
            },
        }
    }
}

} // verus!
