use mintick_nft::error::{Error, ErrorKind};

#[test]
fn every_error_has_its_kind() {
    assert_eq!(Error::OnlyAdministrator.kind(), ErrorKind::Authorization);
    assert_eq!(Error::OnlyCreatorOrAdministrator.kind(), ErrorKind::Authorization);
    assert_eq!(Error::NotCreator.kind(), ErrorKind::Authorization);
    assert_eq!(Error::TokenOwnerOnly.kind(), ErrorKind::Authorization);
    assert_eq!(Error::RateNotPositive.kind(), ErrorKind::Validation);
    assert_eq!(Error::TitleRequired.kind(), ErrorKind::Validation);
    assert_eq!(Error::InvalidRoyaltyAccount.kind(), ErrorKind::Validation);
    assert_eq!(Error::CreatorInSplitList.kind(), ErrorKind::Validation);
    assert_eq!(Error::TooManyRoyaltyBuyAccounts.kind(), ErrorKind::Validation);
    assert_eq!(Error::RoyaltyBuyExceedsCap { max: 8700 }.kind(), ErrorKind::Validation);
    assert_eq!(Error::TooManyRoyaltyAccounts.kind(), ErrorKind::Validation);
    assert_eq!(Error::RoyaltyExceedsCap.kind(), ErrorKind::Validation);
    assert_eq!(Error::WrongSeriesKind.kind(), ErrorKind::Validation);
    assert_eq!(Error::TooManyPayoutReceivers.kind(), ErrorKind::Validation);
    assert_eq!(Error::PayoutOverflow.kind(), ErrorKind::Validation);
    assert_eq!(Error::MissingPayoutLimit.kind(), ErrorKind::Validation);
    assert_eq!(Error::OutOfBounds.kind(), ErrorKind::Validation);
    assert_eq!(Error::ZeroLimit.kind(), ErrorKind::Validation);
    assert_eq!(Error::InvalidMetadata.kind(), ErrorKind::Validation);
    assert_eq!(Error::CopiesOverflow.kind(), ErrorKind::Validation);
    assert_eq!(Error::CopiesBelowSupply { minted: 3 }.kind(), ErrorKind::Validation);
    assert_eq!(Error::SeriesNotFound.kind(), ErrorKind::NotFound);
    assert_eq!(Error::TokenNotFound.kind(), ErrorKind::NotFound);
    assert_eq!(Error::NotMintable.kind(), ErrorKind::StateConflict);
    assert_eq!(Error::SupplyMaxed.kind(), ErrorKind::StateConflict);
    assert_eq!(Error::NotForSale.kind(), ErrorKind::StateConflict);
    assert_eq!(Error::NoCopiesLimit.kind(), ErrorKind::StateConflict);
    assert_eq!(Error::SequenceExhausted.kind(), ErrorKind::StateConflict);
    assert_eq!(Error::OneYoctoRequired.kind(), ErrorKind::Funding);
    assert_eq!(Error::DepositBelowPrice { required: 1 }.kind(), ErrorKind::Funding);
    assert_eq!(Error::StorageNotCovered { required: 1 }.kind(), ErrorKind::Funding);
}

#[test]
fn messages_name_the_threshold() {
    assert_eq!(
        Error::DepositBelowPrice { required: 5_050_000_000_000_000_000_000_000 }.message(),
        "the attached deposit is less than the required minimum: 5050000000000000000000000"
    );
    assert_eq!(
        Error::StorageNotCovered { required: 1_000_000_000_000_000_000_000 }.message(),
        "the attached deposit does not cover the storage cost: 1000000000000000000000"
    );
    assert_eq!(
        Error::RoyaltyBuyExceedsCap { max: 8700 }.message(),
        "the purchase split list exceeds its maximum of basis points: 8700"
    );
    assert_eq!(
        Error::CopiesBelowSupply { minted: 12 }.message(),
        "the copies limit is below the number of minted items: 12"
    );
    assert_eq!(Error::NotForSale.message(), "the series is not for sale");
    assert_eq!(Error::SupplyMaxed.message(), "the supply of the series is exhausted");
    assert_eq!(Error::RateNotPositive.message(), "the exchange rate must be greater than 0");
}
