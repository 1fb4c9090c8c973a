use open_annot::{Error, ErrorKind};

#[test]
fn errors_fall_into_four_kinds() {
    assert_eq!(Error::Unauthorized.kind(), ErrorKind::Authorization);
    assert_eq!(Error::NonPositiveAmount.kind(), ErrorKind::Validation);
    assert_eq!(Error::EmptyLabel.kind(), ErrorKind::Validation);
    assert_eq!(Error::Overflow.kind(), ErrorKind::Validation);
    assert_eq!(Error::Conversion.kind(), ErrorKind::Validation);
    assert_eq!(Error::UnknownDataPoint.kind(), ErrorKind::Lookup);
    assert_eq!(Error::UnknownProject.kind(), ErrorKind::Lookup);
    assert_eq!(Error::NotInitialized.kind(), ErrorKind::Lookup);
    assert_eq!(Error::NotFunding.kind(), ErrorKind::Precondition);
    assert_eq!(Error::StillFunding.kind(), ErrorKind::Precondition);
    assert_eq!(Error::Expired.kind(), ErrorKind::Precondition);
    assert_eq!(Error::MarketClosed.kind(), ErrorKind::Precondition);
    assert_eq!(Error::StillAnnotating.kind(), ErrorKind::Precondition);
    assert_eq!(Error::NotExpired.kind(), ErrorKind::Precondition);
    assert_eq!(Error::AlreadyInitialized.kind(), ErrorKind::Precondition);
    assert_eq!(Error::InsufficientCustody.kind(), ErrorKind::Precondition);
}

#[test]
fn errors_carry_their_text() {
    assert_eq!(Error::NonPositiveAmount.message(), "amount must be positive");
    assert_eq!(Error::NotFunding.message(), "sale is not running");
    assert_eq!(Error::StillFunding.message(), "sale is still running");
    assert_eq!(Error::Expired.message(), "Withdraw, expired");
    assert_eq!(Error::NotExpired.message(), "not expired");
    assert_eq!(Error::EmptyLabel.message(), "label cannot be empty");
    assert_eq!(Error::AlreadyInitialized.message(), "already initialized");
    assert_eq!(Error::NotInitialized.message(), "not initialized");
    assert_eq!(Error::Unauthorized.message(), "not authorized");
    assert_eq!(Error::UnknownDataPoint.message(), "no such data point");
    assert_eq!(Error::UnknownProject.message(), "no such project");
    assert_eq!(Error::Overflow.message(), "amount out of range");
    assert_eq!(Error::InsufficientCustody.message(), "not enough funds in custody");
    assert_eq!(Error::MarketClosed.message(), "annotation is over");
    assert_eq!(Error::StillAnnotating.message(), "annotation is still running");
    assert_eq!(Error::Conversion.message(), "not a state");
}
