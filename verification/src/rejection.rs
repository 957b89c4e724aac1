//! The ways a request is refused: an HTTP status, a machine-readable code
//! and, for most, a sentence for people.
use vstd::prelude::*;

verus! {

/// A refused request.
#[derive(PartialEq, Eq, Structural, Clone, Copy, Debug)]
pub enum Rejection {
    RateStoreError,
    RateLimited,
    StoreError,
    PresenceTokenRequired,
    RevisionNotFound,
    SeqRequired,
    FeatureOffForbidden,
    FeatureOff,
    AcceptNewOff,
    InvalidQuestion,
    InvalidContact,
    AskNotFound,
    AnswerRequired,
    AnswerTooLong,
    QuestionTooLong,
    CapsuleTooLarge,
    NoDeck,
    InvalidStrokes,
    EmptyStrokes,
    TooManyStrokes,
    InvalidPoints,
    TooManyPoints,
    InvalidPointShape,
    InvalidPointValue,
    PointOutOfRange,
    InvalidColor,
    InvalidWidth,
    IntakePaused,
    BadSchemaVersion,
    DescriptionTooLong,
    PayloadTooLarge,
    BoardFull,
    EntryNotFound,
    PinCap,
    NotKept,
    InvalidDisplayName,
    InvalidMessage,
    QueueFull,
    BadStatus,
    BadAction,
    PinningOff,
    NotApproved,
    VisitorTokenRequired,
    InvalidName,
    UserNotFound,
    SelfNomination,
    SlotsFull,
    DuplicateNomination,
    NeighbourNotFound,
    InvalidPlacements,
    TooManyPlacements,
    InvalidPlacement,
    DuplicatePlacement,
    InvalidWord,
    InvalidUrl,
    InvalidLabel,
    NotSet,
    WrongWord,
    GrantStale,
    PollNeedsQuestion,
    BadQuestion,
    PollNeedsOptions,
    BadOptions,
    BadOptionLength,
    DuplicateOption,
    InvalidOption,
    NoPoll,
    PollClosed,
    VoteTokenRequired,
    IdemRequired,
    UnknownOption,
    AlreadyVoted,
    NotOpen,
    NotClosed,
}

impl Rejection {
    /// The HTTP status of the refusal.
    pub open spec fn status_of(self) -> u16 {
        match self {
            Rejection::RateStoreError => 500,
            Rejection::RateLimited => 429,
            Rejection::StoreError => 500,
            Rejection::PresenceTokenRequired => 422,
            Rejection::RevisionNotFound => 404,
            Rejection::SeqRequired => 422,
            Rejection::FeatureOffForbidden => 403,
            Rejection::FeatureOff => 404,
            Rejection::AcceptNewOff => 403,
            Rejection::InvalidQuestion => 422,
            Rejection::InvalidContact => 422,
            Rejection::AskNotFound => 404,
            Rejection::AnswerRequired => 422,
            Rejection::AnswerTooLong => 422,
            Rejection::QuestionTooLong => 422,
            Rejection::CapsuleTooLarge => 422,
            Rejection::NoDeck => 404,
            Rejection::InvalidStrokes => 422,
            Rejection::EmptyStrokes => 422,
            Rejection::TooManyStrokes => 422,
            Rejection::InvalidPoints => 422,
            Rejection::TooManyPoints => 422,
            Rejection::InvalidPointShape => 422,
            Rejection::InvalidPointValue => 422,
            Rejection::PointOutOfRange => 422,
            Rejection::InvalidColor => 422,
            Rejection::InvalidWidth => 422,
            Rejection::IntakePaused => 403,
            Rejection::BadSchemaVersion => 422,
            Rejection::DescriptionTooLong => 422,
            Rejection::PayloadTooLarge => 422,
            Rejection::BoardFull => 403,
            Rejection::EntryNotFound => 404,
            Rejection::PinCap => 409,
            Rejection::NotKept => 409,
            Rejection::InvalidDisplayName => 422,
            Rejection::InvalidMessage => 422,
            Rejection::QueueFull => 422,
            Rejection::BadStatus => 422,
            Rejection::BadAction => 422,
            Rejection::PinningOff => 409,
            Rejection::NotApproved => 409,
            Rejection::VisitorTokenRequired => 422,
            Rejection::InvalidName => 422,
            Rejection::UserNotFound => 404,
            Rejection::SelfNomination => 409,
            Rejection::SlotsFull => 409,
            Rejection::DuplicateNomination => 409,
            Rejection::NeighbourNotFound => 404,
            Rejection::InvalidPlacements => 422,
            Rejection::TooManyPlacements => 422,
            Rejection::InvalidPlacement => 422,
            Rejection::DuplicatePlacement => 422,
            Rejection::InvalidWord => 422,
            Rejection::InvalidUrl => 422,
            Rejection::InvalidLabel => 422,
            Rejection::NotSet => 404,
            Rejection::WrongWord => 403,
            Rejection::GrantStale => 410,
            Rejection::PollNeedsQuestion => 422,
            Rejection::BadQuestion => 422,
            Rejection::PollNeedsOptions => 422,
            Rejection::BadOptions => 422,
            Rejection::BadOptionLength => 422,
            Rejection::DuplicateOption => 422,
            Rejection::InvalidOption => 422,
            Rejection::NoPoll => 404,
            Rejection::PollClosed => 403,
            Rejection::VoteTokenRequired => 422,
            Rejection::IdemRequired => 422,
            Rejection::UnknownOption => 422,
            Rejection::AlreadyVoted => 409,
            Rejection::NotOpen => 409,
            Rejection::NotClosed => 409,
        }
    }

    pub fn status(&self) -> (r: u16)
        ensures
            r == self.status_of(),
    {
        match self {
            Rejection::RateStoreError => 500,
            Rejection::RateLimited => 429,
            Rejection::StoreError => 500,
            Rejection::PresenceTokenRequired => 422,
            Rejection::RevisionNotFound => 404,
            Rejection::SeqRequired => 422,
            Rejection::FeatureOffForbidden => 403,
            Rejection::FeatureOff => 404,
            Rejection::AcceptNewOff => 403,
            Rejection::InvalidQuestion => 422,
            Rejection::InvalidContact => 422,
            Rejection::AskNotFound => 404,
            Rejection::AnswerRequired => 422,
            Rejection::AnswerTooLong => 422,
            Rejection::QuestionTooLong => 422,
            Rejection::CapsuleTooLarge => 422,
            Rejection::NoDeck => 404,
            Rejection::InvalidStrokes => 422,
            Rejection::EmptyStrokes => 422,
            Rejection::TooManyStrokes => 422,
            Rejection::InvalidPoints => 422,
            Rejection::TooManyPoints => 422,
            Rejection::InvalidPointShape => 422,
            Rejection::InvalidPointValue => 422,
            Rejection::PointOutOfRange => 422,
            Rejection::InvalidColor => 422,
            Rejection::InvalidWidth => 422,
            Rejection::IntakePaused => 403,
            Rejection::BadSchemaVersion => 422,
            Rejection::DescriptionTooLong => 422,
            Rejection::PayloadTooLarge => 422,
            Rejection::BoardFull => 403,
            Rejection::EntryNotFound => 404,
            Rejection::PinCap => 409,
            Rejection::NotKept => 409,
            Rejection::InvalidDisplayName => 422,
            Rejection::InvalidMessage => 422,
            Rejection::QueueFull => 422,
            Rejection::BadStatus => 422,
            Rejection::BadAction => 422,
            Rejection::PinningOff => 409,
            Rejection::NotApproved => 409,
            Rejection::VisitorTokenRequired => 422,
            Rejection::InvalidName => 422,
            Rejection::UserNotFound => 404,
            Rejection::SelfNomination => 409,
            Rejection::SlotsFull => 409,
            Rejection::DuplicateNomination => 409,
            Rejection::NeighbourNotFound => 404,
            Rejection::InvalidPlacements => 422,
            Rejection::TooManyPlacements => 422,
            Rejection::InvalidPlacement => 422,
            Rejection::DuplicatePlacement => 422,
            Rejection::InvalidWord => 422,
            Rejection::InvalidUrl => 422,
            Rejection::InvalidLabel => 422,
            Rejection::NotSet => 404,
            Rejection::WrongWord => 403,
            Rejection::GrantStale => 410,
            Rejection::PollNeedsQuestion => 422,
            Rejection::BadQuestion => 422,
            Rejection::PollNeedsOptions => 422,
            Rejection::BadOptions => 422,
            Rejection::BadOptionLength => 422,
            Rejection::DuplicateOption => 422,
            Rejection::InvalidOption => 422,
            Rejection::NoPoll => 404,
            Rejection::PollClosed => 403,
            Rejection::VoteTokenRequired => 422,
            Rejection::IdemRequired => 422,
            Rejection::UnknownOption => 422,
            Rejection::AlreadyVoted => 409,
            Rejection::NotOpen => 409,
            Rejection::NotClosed => 409,
        }
    }

    /// The machine-readable code of the refusal.
    pub open spec fn code_of(self) -> Seq<char> {
        match self {
            Rejection::RateStoreError => "rate_store_error"@,
            Rejection::RateLimited => "rate_limited"@,
            Rejection::StoreError => "store_error"@,
            Rejection::PresenceTokenRequired => "token_required"@,
            Rejection::RevisionNotFound => "revision_not_found"@,
            Rejection::SeqRequired => "seq_required"@,
            Rejection::FeatureOffForbidden => "feature_off"@,
            Rejection::FeatureOff => "feature_off"@,
            Rejection::AcceptNewOff => "accept_new_off"@,
            Rejection::InvalidQuestion => "invalid_question"@,
            Rejection::InvalidContact => "invalid_contact"@,
            Rejection::AskNotFound => "ask_not_found"@,
            Rejection::AnswerRequired => "answer_required"@,
            Rejection::AnswerTooLong => "answer_too_long"@,
            Rejection::QuestionTooLong => "question_too_long"@,
            Rejection::CapsuleTooLarge => "payload_too_large"@,
            Rejection::NoDeck => "no_deck"@,
            Rejection::InvalidStrokes => "invalid_strokes"@,
            Rejection::EmptyStrokes => "empty_strokes"@,
            Rejection::TooManyStrokes => "too_many_strokes"@,
            Rejection::InvalidPoints => "invalid_points"@,
            Rejection::TooManyPoints => "too_many_points"@,
            Rejection::InvalidPointShape => "invalid_point"@,
            Rejection::InvalidPointValue => "invalid_point"@,
            Rejection::PointOutOfRange => "out_of_range"@,
            Rejection::InvalidColor => "invalid_color"@,
            Rejection::InvalidWidth => "invalid_width"@,
            Rejection::IntakePaused => "intake_paused"@,
            Rejection::BadSchemaVersion => "bad_schema_version"@,
            Rejection::DescriptionTooLong => "description_too_long"@,
            Rejection::PayloadTooLarge => "payload_too_large"@,
            Rejection::BoardFull => "board_full"@,
            Rejection::EntryNotFound => "entry_not_found"@,
            Rejection::PinCap => "pin_cap"@,
            Rejection::NotKept => "not_kept"@,
            Rejection::InvalidDisplayName => "invalid_display_name"@,
            Rejection::InvalidMessage => "invalid_message"@,
            Rejection::QueueFull => "queue_full"@,
            Rejection::BadStatus => "bad_status"@,
            Rejection::BadAction => "bad_action"@,
            Rejection::PinningOff => "pinning_off"@,
            Rejection::NotApproved => "not_approved"@,
            Rejection::VisitorTokenRequired => "token_required"@,
            Rejection::InvalidName => "invalid_name"@,
            Rejection::UserNotFound => "user_not_found"@,
            Rejection::SelfNomination => "self_nomination"@,
            Rejection::SlotsFull => "slots_full"@,
            Rejection::DuplicateNomination => "duplicate"@,
            Rejection::NeighbourNotFound => "neighbour_not_found"@,
            Rejection::InvalidPlacements => "invalid_placements"@,
            Rejection::TooManyPlacements => "too_many_placements"@,
            Rejection::InvalidPlacement => "invalid_placement"@,
            Rejection::DuplicatePlacement => "duplicate_placement"@,
            Rejection::InvalidWord => "invalid_word"@,
            Rejection::InvalidUrl => "invalid_url"@,
            Rejection::InvalidLabel => "invalid_label"@,
            Rejection::NotSet => "not_set"@,
            Rejection::WrongWord => "wrong_word"@,
            Rejection::GrantStale => "grant_stale"@,
            Rejection::PollNeedsQuestion => "invalid_poll"@,
            Rejection::BadQuestion => "bad_question"@,
            Rejection::PollNeedsOptions => "invalid_poll"@,
            Rejection::BadOptions => "bad_options"@,
            Rejection::BadOptionLength => "bad_option"@,
            Rejection::DuplicateOption => "duplicate_option"@,
            Rejection::InvalidOption => "invalid_option"@,
            Rejection::NoPoll => "no_poll"@,
            Rejection::PollClosed => "poll_closed"@,
            Rejection::VoteTokenRequired => "token_required"@,
            Rejection::IdemRequired => "idem_required"@,
            Rejection::UnknownOption => "bad_option"@,
            Rejection::AlreadyVoted => "already_voted"@,
            Rejection::NotOpen => "not_open"@,
            Rejection::NotClosed => "not_closed"@,
        }
    }

    pub fn code(&self) -> (r: &'static str)
        ensures
            r@ == self.code_of(),
    {
        match self {
            Rejection::RateStoreError => "rate_store_error",
            Rejection::RateLimited => "rate_limited",
            Rejection::StoreError => "store_error",
            Rejection::PresenceTokenRequired => "token_required",
            Rejection::RevisionNotFound => "revision_not_found",
            Rejection::SeqRequired => "seq_required",
            Rejection::FeatureOffForbidden => "feature_off",
            Rejection::FeatureOff => "feature_off",
            Rejection::AcceptNewOff => "accept_new_off",
            Rejection::InvalidQuestion => "invalid_question",
            Rejection::InvalidContact => "invalid_contact",
            Rejection::AskNotFound => "ask_not_found",
            Rejection::AnswerRequired => "answer_required",
            Rejection::AnswerTooLong => "answer_too_long",
            Rejection::QuestionTooLong => "question_too_long",
            Rejection::CapsuleTooLarge => "payload_too_large",
            Rejection::NoDeck => "no_deck",
            Rejection::InvalidStrokes => "invalid_strokes",
            Rejection::EmptyStrokes => "empty_strokes",
            Rejection::TooManyStrokes => "too_many_strokes",
            Rejection::InvalidPoints => "invalid_points",
            Rejection::TooManyPoints => "too_many_points",
            Rejection::InvalidPointShape => "invalid_point",
            Rejection::InvalidPointValue => "invalid_point",
            Rejection::PointOutOfRange => "out_of_range",
            Rejection::InvalidColor => "invalid_color",
            Rejection::InvalidWidth => "invalid_width",
            Rejection::IntakePaused => "intake_paused",
            Rejection::BadSchemaVersion => "bad_schema_version",
            Rejection::DescriptionTooLong => "description_too_long",
            Rejection::PayloadTooLarge => "payload_too_large",
            Rejection::BoardFull => "board_full",
            Rejection::EntryNotFound => "entry_not_found",
            Rejection::PinCap => "pin_cap",
            Rejection::NotKept => "not_kept",
            Rejection::InvalidDisplayName => "invalid_display_name",
            Rejection::InvalidMessage => "invalid_message",
            Rejection::QueueFull => "queue_full",
            Rejection::BadStatus => "bad_status",
            Rejection::BadAction => "bad_action",
            Rejection::PinningOff => "pinning_off",
            Rejection::NotApproved => "not_approved",
            Rejection::VisitorTokenRequired => "token_required",
            Rejection::InvalidName => "invalid_name",
            Rejection::UserNotFound => "user_not_found",
            Rejection::SelfNomination => "self_nomination",
            Rejection::SlotsFull => "slots_full",
            Rejection::DuplicateNomination => "duplicate",
            Rejection::NeighbourNotFound => "neighbour_not_found",
            Rejection::InvalidPlacements => "invalid_placements",
            Rejection::TooManyPlacements => "too_many_placements",
            Rejection::InvalidPlacement => "invalid_placement",
            Rejection::DuplicatePlacement => "duplicate_placement",
            Rejection::InvalidWord => "invalid_word",
            Rejection::InvalidUrl => "invalid_url",
            Rejection::InvalidLabel => "invalid_label",
            Rejection::NotSet => "not_set",
            Rejection::WrongWord => "wrong_word",
            Rejection::GrantStale => "grant_stale",
            Rejection::PollNeedsQuestion => "invalid_poll",
            Rejection::BadQuestion => "bad_question",
            Rejection::PollNeedsOptions => "invalid_poll",
            Rejection::BadOptions => "bad_options",
            Rejection::BadOptionLength => "bad_option",
            Rejection::DuplicateOption => "duplicate_option",
            Rejection::InvalidOption => "invalid_option",
            Rejection::NoPoll => "no_poll",
            Rejection::PollClosed => "poll_closed",
            Rejection::VoteTokenRequired => "token_required",
            Rejection::IdemRequired => "idem_required",
            Rejection::UnknownOption => "bad_option",
            Rejection::AlreadyVoted => "already_voted",
            Rejection::NotOpen => "not_open",
            Rejection::NotClosed => "not_closed",
        }
    }

    /// The sentence for people, where the refusal has one.
    pub open spec fn reason_of(self) -> Option<Seq<char>> {
        match self {
            Rejection::RateStoreError => None,
            Rejection::RateLimited => Some("Too many attempts. Try again later."@),
            Rejection::StoreError => None,
            Rejection::PresenceTokenRequired => Some("A valid presence token is required."@),
            Rejection::RevisionNotFound => None,
            Rejection::SeqRequired => Some("Revision required."@),
            Rejection::FeatureOffForbidden => None,
            Rejection::FeatureOff => None,
            Rejection::AcceptNewOff => None,
            Rejection::InvalidQuestion => Some("Question is required."@),
            Rejection::InvalidContact => Some("Contact is too long."@),
            Rejection::AskNotFound => None,
            Rejection::AnswerRequired => Some("Answer the question first."@),
            Rejection::AnswerTooLong => Some("Answer is too long."@),
            Rejection::QuestionTooLong => Some("Question is too long."@),
            Rejection::CapsuleTooLarge => Some("Capsule body too large."@),
            Rejection::NoDeck => Some("No deck configured."@),
            Rejection::InvalidStrokes => Some("Expected an array of strokes."@),
            Rejection::EmptyStrokes => Some("A doodle needs at least one stroke."@),
            Rejection::TooManyStrokes => Some("Too many strokes."@),
            Rejection::InvalidPoints => Some("Stroke points missing."@),
            Rejection::TooManyPoints => Some("Too many points."@),
            Rejection::InvalidPointShape => Some("Point must be [x,y]."@),
            Rejection::InvalidPointValue => Some("Point value must be numeric."@),
            Rejection::PointOutOfRange => Some("Point value out of range."@),
            Rejection::InvalidColor => Some("Color must be a hex value."@),
            Rejection::InvalidWidth => Some("Width out of range."@),
            Rejection::IntakePaused => None,
            Rejection::BadSchemaVersion => Some("Unsupported schema version."@),
            Rejection::DescriptionTooLong => Some("Description too long."@),
            Rejection::PayloadTooLarge => Some("Payload too large."@),
            Rejection::BoardFull => Some("The board is full, come back later."@),
            Rejection::EntryNotFound => None,
            Rejection::PinCap => Some("Too many pinned drawings."@),
            Rejection::NotKept => Some("Only kept drawings can be pinned."@),
            Rejection::InvalidDisplayName => Some("Display name is required."@),
            Rejection::InvalidMessage => Some("Message is required."@),
            Rejection::QueueFull => Some("The guestbook is full, come back later."@),
            Rejection::BadStatus => None,
            Rejection::BadAction => None,
            Rejection::PinningOff => None,
            Rejection::NotApproved => Some("Only approved entries can be pinned."@),
            Rejection::VisitorTokenRequired => Some("A visitor token is required."@),
            Rejection::InvalidName => Some("Invalid neighbour username."@),
            Rejection::UserNotFound => Some("That profile does not exist."@),
            Rejection::SelfNomination => Some("You cannot nominate yourself."@),
            Rejection::SlotsFull => Some("Neighbour slots are full."@),
            Rejection::DuplicateNomination => Some("Already nominated."@),
            Rejection::NeighbourNotFound => None,
            Rejection::InvalidPlacements => Some("Expected a placements array."@),
            Rejection::TooManyPlacements => Some("Too many placements."@),
            Rejection::InvalidPlacement => Some("Placement needs a valid id and side."@),
            Rejection::DuplicatePlacement => Some("Duplicate placement id."@),
            Rejection::InvalidWord => Some("Word length out of range."@),
            Rejection::InvalidUrl => Some("URL length out of range."@),
            Rejection::InvalidLabel => Some("Label length out of range."@),
            Rejection::NotSet => Some("No secret configured."@),
            Rejection::WrongWord => Some("Not unlocked."@),
            Rejection::GrantStale => Some("Grant expired or invalidated."@),
            Rejection::PollNeedsQuestion => Some("Poll needs a question."@),
            Rejection::BadQuestion => Some("Question length out of range."@),
            Rejection::PollNeedsOptions => Some("Poll needs options."@),
            Rejection::BadOptions => Some("Option count out of range."@),
            Rejection::BadOptionLength => Some("Option too long."@),
            Rejection::DuplicateOption => Some("Duplicate option."@),
            Rejection::InvalidOption => Some("Option must be a string."@),
            Rejection::NoPoll => Some("There is no poll."@),
            Rejection::PollClosed => Some("This poll is closed."@),
            Rejection::VoteTokenRequired => Some("Token required."@),
            Rejection::IdemRequired => Some("Idempotency key required."@),
            Rejection::UnknownOption => Some("Unknown option."@),
            Rejection::AlreadyVoted => Some("Already voted."@),
            Rejection::NotOpen => Some("No open poll."@),
            Rejection::NotClosed => Some("No closed poll."@),
        }
    }

    pub fn reason(&self) -> (r: Option<&'static str>)
        ensures
            match r {
                Some(s) => self.reason_of() == Some(s@),
                None => self.reason_of() is None,
            },
    {
        match self {
            Rejection::RateStoreError => None,
            Rejection::RateLimited => Some("Too many attempts. Try again later."),
            Rejection::StoreError => None,
            Rejection::PresenceTokenRequired => Some("A valid presence token is required."),
            Rejection::RevisionNotFound => None,
            Rejection::SeqRequired => Some("Revision required."),
            Rejection::FeatureOffForbidden => None,
            Rejection::FeatureOff => None,
            Rejection::AcceptNewOff => None,
            Rejection::InvalidQuestion => Some("Question is required."),
            Rejection::InvalidContact => Some("Contact is too long."),
            Rejection::AskNotFound => None,
            Rejection::AnswerRequired => Some("Answer the question first."),
            Rejection::AnswerTooLong => Some("Answer is too long."),
            Rejection::QuestionTooLong => Some("Question is too long."),
            Rejection::CapsuleTooLarge => Some("Capsule body too large."),
            Rejection::NoDeck => Some("No deck configured."),
            Rejection::InvalidStrokes => Some("Expected an array of strokes."),
            Rejection::EmptyStrokes => Some("A doodle needs at least one stroke."),
            Rejection::TooManyStrokes => Some("Too many strokes."),
            Rejection::InvalidPoints => Some("Stroke points missing."),
            Rejection::TooManyPoints => Some("Too many points."),
            Rejection::InvalidPointShape => Some("Point must be [x,y]."),
            Rejection::InvalidPointValue => Some("Point value must be numeric."),
            Rejection::PointOutOfRange => Some("Point value out of range."),
            Rejection::InvalidColor => Some("Color must be a hex value."),
            Rejection::InvalidWidth => Some("Width out of range."),
            Rejection::IntakePaused => None,
            Rejection::BadSchemaVersion => Some("Unsupported schema version."),
            Rejection::DescriptionTooLong => Some("Description too long."),
            Rejection::PayloadTooLarge => Some("Payload too large."),
            Rejection::BoardFull => Some("The board is full, come back later."),
            Rejection::EntryNotFound => None,
            Rejection::PinCap => Some("Too many pinned drawings."),
            Rejection::NotKept => Some("Only kept drawings can be pinned."),
            Rejection::InvalidDisplayName => Some("Display name is required."),
            Rejection::InvalidMessage => Some("Message is required."),
            Rejection::QueueFull => Some("The guestbook is full, come back later."),
            Rejection::BadStatus => None,
            Rejection::BadAction => None,
            Rejection::PinningOff => None,
            Rejection::NotApproved => Some("Only approved entries can be pinned."),
            Rejection::VisitorTokenRequired => Some("A visitor token is required."),
            Rejection::InvalidName => Some("Invalid neighbour username."),
            Rejection::UserNotFound => Some("That profile does not exist."),
            Rejection::SelfNomination => Some("You cannot nominate yourself."),
            Rejection::SlotsFull => Some("Neighbour slots are full."),
            Rejection::DuplicateNomination => Some("Already nominated."),
            Rejection::NeighbourNotFound => None,
            Rejection::InvalidPlacements => Some("Expected a placements array."),
            Rejection::TooManyPlacements => Some("Too many placements."),
            Rejection::InvalidPlacement => Some("Placement needs a valid id and side."),
            Rejection::DuplicatePlacement => Some("Duplicate placement id."),
            Rejection::InvalidWord => Some("Word length out of range."),
            Rejection::InvalidUrl => Some("URL length out of range."),
            Rejection::InvalidLabel => Some("Label length out of range."),
            Rejection::NotSet => Some("No secret configured."),
            Rejection::WrongWord => Some("Not unlocked."),
            Rejection::GrantStale => Some("Grant expired or invalidated."),
            Rejection::PollNeedsQuestion => Some("Poll needs a question."),
            Rejection::BadQuestion => Some("Question length out of range."),
            Rejection::PollNeedsOptions => Some("Poll needs options."),
            Rejection::BadOptions => Some("Option count out of range."),
            Rejection::BadOptionLength => Some("Option too long."),
            Rejection::DuplicateOption => Some("Duplicate option."),
            Rejection::InvalidOption => Some("Option must be a string."),
            Rejection::NoPoll => Some("There is no poll."),
            Rejection::PollClosed => Some("This poll is closed."),
            Rejection::VoteTokenRequired => Some("Token required."),
            Rejection::IdemRequired => Some("Idempotency key required."),
            Rejection::UnknownOption => Some("Unknown option."),
            Rejection::AlreadyVoted => Some("Already voted."),
            Rejection::NotOpen => Some("No open poll."),
            Rejection::NotClosed => Some("No closed poll."),
        }
    }
}

} // verus!
