use data_api::rejection::Rejection;

#[test]
fn refusals_carry_status_code_and_reason() {
    assert_eq!(Rejection::RateLimited.status(), 429);
    assert_eq!(Rejection::RateLimited.code(), "rate_limited");
    assert_eq!(Rejection::RateLimited.reason(), Some("Too many attempts. Try again later."));
    assert_eq!(Rejection::StoreError.status(), 500);
    assert_eq!(Rejection::StoreError.code(), "store_error");
    assert_eq!(Rejection::StoreError.reason(), None);
    assert_eq!(Rejection::WrongWord.status(), 403);
    assert_eq!(Rejection::WrongWord.code(), "wrong_word");
    assert_eq!(Rejection::WrongWord.reason(), Some("Not unlocked."));
    assert_eq!(Rejection::GrantStale.status(), 410);
    assert_eq!(Rejection::NotSet.status(), 404);
    assert_eq!(Rejection::SelfNomination.status(), 409);
    assert_eq!(Rejection::VisitorTokenRequired.reason(), Some("A visitor token is required."));
    assert_eq!(Rejection::VoteTokenRequired.reason(), Some("Token required."));
    assert_eq!(Rejection::UnknownOption.code(), "bad_option");
    assert_eq!(Rejection::UnknownOption.reason(), Some("Unknown option."));
    assert_eq!(Rejection::BadOptionLength.reason(), Some("Option too long."));
    assert_eq!(Rejection::BoardFull.status(), 403);
    assert_eq!(Rejection::NotOpen.code(), "not_open");
    assert_eq!(Rejection::NotClosed.reason(), Some("No closed poll."));
}
