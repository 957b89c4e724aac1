//! Questions that visitors ask and the owner answers, drafts and publishes.
use vstd::prelude::*;
use crate::helpers::{feature_enabled, owned_or_empty};
use crate::json::Json;
use crate::rejection::Rejection;
use crate::text::{text_eq, trim};

verus! {

pub const QUESTION_MAX: usize = 500;
pub const ANSWER_MAX: usize = 2000;
pub const CONTACT_MAX: usize = 200;
pub const RETENTION_PENDING: i64 = 400;
pub const RETENTION_DRAFT: i64 = 200;
pub const RETENTION_PUBLISHED: i64 = 200;
pub const RETENTION_REJECTED: i64 = 400;
pub const RATE_MAX: i64 = 25;
pub const RATE_WINDOW_MS: i64 = 600_000;

/// A submitted question.
pub struct Submit {
    pub question: Option<String>,
    pub contact: Option<String>,
    pub ip: Option<String>,
}

/// Questions are taken while the feature is on and `asksAcceptNew` is not
/// `false`.
pub fn submit_gate(settings: &Json) -> (r: Result<(), Rejection>)
    ensures
        r == if !crate::helpers::switched_on(settings@, "asks"@) {
            Err(Rejection::FeatureOffForbidden)
        } else if settings@.bool_at("asksAcceptNew"@) == Some(false) {
            Err(Rejection::AcceptNewOff)
        } else {
            Ok(())
        },
{
    if !feature_enabled(settings, "asks") {
        return Err(Rejection::FeatureOffForbidden);
    }
    let accept_new = match settings.bool_at("asksAcceptNew") {
        Some(b) => b,
        None => true,
    };
    if !accept_new {
        return Err(Rejection::AcceptNewOff);
    }
    Ok(())
}

/// Published questions are listed while the feature is on.
pub fn list_gate(settings: &Json) -> (r: Result<(), Rejection>)
    ensures
        r == if crate::helpers::switched_on(settings@, "asks"@) {
            Ok(())
        } else {
            Err(Rejection::FeatureOff)
        },
{
    if feature_enabled(settings, "asks") {
        Ok(())
    } else {
        Err(Rejection::FeatureOff)
    }
}

/// An accepted question; an empty contact is stored as none.
pub struct Question {
    pub question: String,
    pub contact: Option<String>,
}

pub open spec fn question_spec(question: Seq<char>, contact: Seq<char>) -> Result<(), Rejection> {
    if question.len() == 0 || question.len() > QUESTION_MAX {
        Err(Rejection::InvalidQuestion)
    } else if contact.len() > CONTACT_MAX {
        Err(Rejection::InvalidContact)
    } else {
        Ok(())
    }
}

/// A question of 1 to `QUESTION_MAX` characters, a contact of at most
/// `CONTACT_MAX`.
pub fn check_question(body: &Submit) -> (r: Result<Question, Rejection>)
    ensures
        match r {
            Ok(q) => {
                &&& question_spec(
                    crate::helpers::text_or_empty(body.question),
                    crate::helpers::text_or_empty(body.contact),
                ) is Ok
                &&& q.question@ == crate::helpers::text_or_empty(body.question)
                &&& q.contact == if crate::helpers::text_or_empty(body.contact).len() == 0 {
                    None::<String>
                } else {
                    body.contact
                }
            },
            Err(e) => question_spec(
                crate::helpers::text_or_empty(body.question),
                crate::helpers::text_or_empty(body.contact),
            ) == Err::<(), Rejection>(e),
        },
{
    let question = owned_or_empty(&body.question);
    let contact = owned_or_empty(&body.contact);
    let qn = question.as_str().unicode_len();
    if qn == 0 || qn > QUESTION_MAX {
        return Err(Rejection::InvalidQuestion);
    }
    let cn = contact.as_str().unicode_len();
    if cn > CONTACT_MAX {
        return Err(Rejection::InvalidContact);
    }
    let contact = if cn == 0 {
        None
    } else {
        match &body.contact {
            Some(c) => Some(c.clone()),
            None => None,
        }
    };
    Ok(Question { question, contact })
}

/// How many questions of each status are kept, newest first.
pub fn retention_caps() -> (r: [(&'static str, i64); 4])
    ensures
        r@[0].0@ == "pending"@ && r@[0].1 == RETENTION_PENDING,
        r@[1].0@ == "draft"@ && r@[1].1 == RETENTION_DRAFT,
        r@[2].0@ == "published"@ && r@[2].1 == RETENTION_PUBLISHED,
        r@[3].0@ == "rejected"@ && r@[3].1 == RETENTION_REJECTED,
{
    [
        ("pending", RETENTION_PENDING),
        ("draft", RETENTION_DRAFT),
        ("published", RETENTION_PUBLISHED),
        ("rejected", RETENTION_REJECTED),
    ]
}

/// What publishing a question does.
#[derive(PartialEq, Eq, Structural, Clone, Copy, Debug)]
pub enum PublishStep {
    /// It is published already.
    Already,
    /// Publish it.
    Publish,
}

pub open spec fn publish_spec(status: Seq<char>, question: Seq<char>, answer: Option<Seq<char>>) -> Result<
    PublishStep,
    Rejection,
> {
    let a = match answer {
        Some(t) => t,
        None => Seq::empty(),
    };
    if status == "published"@ {
        Ok(PublishStep::Already)
    } else if a.len() == 0 {
        Err(Rejection::AnswerRequired)
    } else if a.len() > ANSWER_MAX {
        Err(Rejection::AnswerTooLong)
    } else if question.len() > QUESTION_MAX {
        Err(Rejection::QuestionTooLong)
    } else {
        Ok(PublishStep::Publish)
    }
}

/// A question is published once it has an answer within bounds.
pub fn publish_check(status: &str, question: &str, answer: Option<&str>) -> (r: Result<
    PublishStep,
    Rejection,
>)
    ensures
        r == publish_spec(
            status@,
            question@,
            match answer {
                Some(a) => Some(a@),
                None => None,
            },
        ),
{
    if text_eq(status, "published") {
        return Ok(PublishStep::Already);
    }
    let an = match answer {
        Some(a) => a.unicode_len(),
        None => 0,
    };
    if an == 0 {
        return Err(Rejection::AnswerRequired);
    }
    if an > ANSWER_MAX {
        return Err(Rejection::AnswerTooLong);
    }
    if question.unicode_len() > QUESTION_MAX {
        return Err(Rejection::QuestionTooLong);
    }
    Ok(PublishStep::Publish)
}

/// The listing position of a newly published question: a draft keeps its
/// position; anything else goes after the last published one (after 0 when
/// none can be read).
pub fn publish_order(status: &str, order_idx: i32, max_published: Option<i64>) -> (r: i64)
    requires
        max_published matches Some(m) ==> m < i64::MAX,
    ensures
        r == if status@ == "draft"@ {
            order_idx as i64
        } else {
            match max_published {
                Some(m) => (m + 1) as i64,
                None => 1,
            }
        },
{
    if text_eq(status, "draft") {
        order_idx as i64
    } else {
        match max_published {
            Some(m) => m + 1,
            None => 1,
        }
    }
}

/// The answer text of a draft request: the trimmed `answer` string, empty
/// when missing or not a string.
pub open spec fn draft_text(body: crate::json::JVal) -> Seq<char> {
    crate::text::trimmed(
        match body.str_at("answer"@) {
            Some(a) => a,
            None => Seq::empty(),
        },
    )
}

/// The answer a draft stores: at most `ANSWER_MAX` characters, none when
/// empty.
pub fn draft_answer(body: &Json) -> (r: Result<Option<String>, Rejection>)
    ensures
        match r {
            Ok(Some(a)) => a@ == draft_text(body@) && 0 < a@.len() <= ANSWER_MAX,
            Ok(None) => draft_text(body@).len() == 0,
            Err(e) => e == Rejection::AnswerTooLong && draft_text(body@).len() > ANSWER_MAX,
        },
{
    let raw: &str = match body.str_at("answer") {
        Some(a) => a,
        None => "",
    };
    proof {
        reveal_strlit("");
    }
    let answer = trim(raw);
    let n = answer.as_str().unicode_len();
    if n > ANSWER_MAX {
        return Err(Rejection::AnswerTooLong);
    }
    if n == 0 {
        Ok(None)
    } else {
        Ok(Some(answer))
    }
}


/// A question is taken exactly when it has 1 to 500 characters and its
/// contact at most 200; a bad question is reported before a bad contact.
pub proof fn lemma_question_bounds(question: Seq<char>, contact: Seq<char>)
    ensures
        question_spec(question, contact) is Ok <==> (1 <= question.len() <= 500 && contact.len()
            <= 200),
        !(1 <= question.len() <= 500) ==> question_spec(question, contact) == Err::<(), Rejection>(
            Rejection::InvalidQuestion,
        ),
        (1 <= question.len() <= 500 && contact.len() > 200) ==> question_spec(question, contact)
            == Err::<(), Rejection>(Rejection::InvalidContact),
{
}

/// Publishing a published question changes nothing; any other question is
/// published exactly when its answer has 1 to 2000 characters and the
/// question at most 500.
pub proof fn lemma_publish_bounds(status: Seq<char>, question: Seq<char>, answer: Seq<char>)
    ensures
        status == "published"@ ==> publish_spec(status, question, Some(answer)) == Ok::<
            PublishStep,
            Rejection,
        >(PublishStep::Already),
        status != "published"@ ==> (publish_spec(status, question, Some(answer)) == Ok::<
            PublishStep,
            Rejection,
        >(PublishStep::Publish) <==> (1 <= answer.len() <= 2000 && question.len() <= 500)),
        status != "published"@ ==> publish_spec(status, question, None) == Err::<
            PublishStep,
            Rejection,
        >(Rejection::AnswerRequired),
{
}

} // verus!
