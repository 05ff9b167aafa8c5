//! Validation and statement planning for storing practice answers. The
//! request's identifiers are validated before anything reaches storage, and
//! the batch-insert statement is built with one positional argument slot per
//! value, assigned in insertion order, via [`crate::argumenter::Argumenter`].

use vstd::prelude::*;
use vstd::string::*;
use crate::argumenter::{positional_arg, Argumenter};

verus! {

/// Whether `s` is a textual UUID, in any of the forms the identifier parser
/// accepts (simple, hyphenated, urn, or braced hexadecimal digits).
pub uninterp spec fn is_uuid_str(s: Seq<char>) -> bool;

/// Relies on `uuid::Uuid::try_parse`: whether it accepts a string depends on
/// the characters alone.
#[verifier::external_body]
fn uuid_accepted(s: &str) -> (r: bool)
    ensures
        r == is_uuid_str(s@),
{
    uuid::Uuid::try_parse(s).is_ok()
}

/// A request rejected before it reaches storage.
#[derive(Debug, PartialEq, Eq, Structural)]
pub enum ValidationError {
    /// The user identifier is not a UUID.
    MalformedUserId,
    /// The batch holds no answers.
    EmptyBatch,
    /// Some answer identifier is not a UUID.
    MalformedAnswerId,
}

/// A planned batch insert: the statement text and its parameters, one per
/// positional argument, in order.
#[derive(Debug)]
pub struct AnswerBatch {
    pub statement: String,
    pub params: Vec<String>,
}

/// The fixed head of the batch-insert statement.
pub open spec fn insert_prefix() -> Seq<char> {
    "INSERT INTO card_practice (user_id, answer_id) VALUES "@
}

/// The `k`-th (1-based) tuple of the statement's VALUES list.
pub open spec fn value_tuple(k: nat) -> Seq<char> {
    seq!['('] + positional_arg((2 * k - 1) as nat) + seq![','] + positional_arg(2 * k) + seq![')']
}

/// The VALUES list for `n` answers: the tuples, comma-separated.
pub open spec fn values_text(n: nat) -> Seq<char>
    decreases n,
{
    if n == 0 {
        Seq::empty()
    } else if n == 1 {
        value_tuple(1)
    } else {
        values_text((n - 1) as nat) + seq![','] + value_tuple(n)
    }
}

/// The whole batch-insert statement for `n` answers.
pub open spec fn insert_statement(n: nat) -> Seq<char> {
    insert_prefix() + values_text(n)
}

/// The parameter list for the statement: the user's identifier before each
/// answer, in insertion order.
pub open spec fn batch_params(user: Seq<char>, answers: Seq<Seq<char>>) -> Seq<Seq<char>> {
    Seq::new(
        2 * answers.len(),
        |k: int|
            if k % 2 == 0 {
                user
            } else {
                answers[k / 2]
            },
    )
}

/// Validates a store-answers request and plans its batch insert: the user
/// identifier must be a UUID, the batch nonempty, and every answer identifier
/// a UUID; the plan's statement and parameters are pinned down exactly by
/// [`insert_statement`] and [`batch_params`].
pub fn build_store_answers(user_id: &String, answer_ids: &Vec<String>) -> (r: Result<
    AnswerBatch,
    ValidationError,
>)
    ensures
        match r {
            Ok(batch) => ({
                &&& is_uuid_str(user_id@)
                &&& answer_ids@.len() > 0
                &&& forall|i: int|
                    0 <= i < answer_ids@.len() ==> is_uuid_str(
                        #[trigger] answer_ids.deep_view()[i],
                    )
                &&& batch.statement@ == insert_statement(answer_ids@.len() as nat)
                &&& batch.params.deep_view() == batch_params(user_id@, answer_ids.deep_view())
            }),
            Err(ValidationError::MalformedUserId) => !is_uuid_str(user_id@),
            Err(ValidationError::EmptyBatch) => is_uuid_str(user_id@) && answer_ids@.len() == 0,
            Err(ValidationError::MalformedAnswerId) => is_uuid_str(user_id@) && answer_ids@.len()
                > 0 && exists|i: int|
                0 <= i < answer_ids@.len() && !is_uuid_str(#[trigger] answer_ids.deep_view()[i]),
        },
{
    if !uuid_accepted(user_id.as_str()) {
        return Err(ValidationError::MalformedUserId);
    }
    if answer_ids.len() == 0 {
        return Err(ValidationError::EmptyBatch);
    }
    let ghost answers = answer_ids.deep_view();
    let mut arg: Argumenter<String> = Argumenter { values: Vec::new() };
    let mut stmt = String::from_str("INSERT INTO card_practice (user_id, answer_id) VALUES ");
    proof {
        assert(stmt@ =~= insert_statement(0));
        assert(arg.values.deep_view() =~= batch_params(user_id@, answers.take(0)));
    }
    let n = answer_ids.len();
    for i in 0..n
        invariant
            n == answer_ids@.len(),
            answers == answer_ids.deep_view(),
            is_uuid_str(user_id@),
            n > 0,
            arg.values@.len() == 2 * i,
            arg.values.deep_view() == batch_params(user_id@, answers.take(i as int)),
            stmt@ == insert_statement(i as nat),
            forall|j: int| 0 <= j < i ==> is_uuid_str(#[trigger] answers[j]),
    {
        let answer = &answer_ids[i];
        if !uuid_accepted(answer.as_str()) {
            proof {
                assert(!is_uuid_str(answers[i as int]));
            }
            return Err(ValidationError::MalformedAnswerId);
        }
        let ghost prev = arg.values.deep_view();
        let p1 = arg.add(user_id.clone());
        let p2 = arg.add(answer.clone());
        if i > 0 {
            stmt.append(",");
        }
        stmt.append("(");
        stmt.append(p1.as_str());
        stmt.append(",");
        stmt.append(p2.as_str());
        stmt.append(")");
        proof {
            reveal_strlit("(");
            reveal_strlit(",");
            reveal_strlit(")");
            assert(p1@ == positional_arg((2 * i + 1) as nat));
            assert(p2@ == positional_arg((2 * i + 2) as nat));
            assert(stmt@ =~= insert_prefix() + values_text((i + 1) as nat));
            assert(arg.values.deep_view() =~= prev.push(user_id@).push(answers[i as int]));
            assert(batch_params(user_id@, answers.take(i + 1)) =~= prev.push(user_id@).push(
                answers[i as int],
            ));
        }
    }
    proof {
        assert(answers.take(n as int) =~= answers);
    }
    Ok(AnswerBatch { statement: stmt, params: arg.values })
}

} // verus!
