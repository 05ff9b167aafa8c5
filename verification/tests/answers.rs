use dealer::answers::{build_store_answers, ValidationError};

const USER: &str = "550e8400-e29b-41d4-a716-446655440000";
const ANSWER_A: &str = "67e55044-10b1-426f-9247-bb680e5fe0c8";
const ANSWER_B: &str = "936da01f-9abd-4d9d-80c7-02af85c822a8";

#[test]
fn a_valid_batch_is_planned_with_positional_arguments() {
    let answers = vec![ANSWER_A.to_owned(), ANSWER_B.to_owned()];
    let batch = build_store_answers(&USER.to_owned(), &answers).unwrap();
    assert_eq!(
        batch.statement,
        "INSERT INTO card_practice (user_id, answer_id) VALUES ($1,$2),($3,$4)"
    );
    assert_eq!(
        batch.params,
        vec![USER.to_owned(), ANSWER_A.to_owned(), USER.to_owned(), ANSWER_B.to_owned()]
    );
}

#[test]
fn three_answers_yield_three_comma_separated_tuples() {
    let answers = vec![ANSWER_A.to_owned(), ANSWER_B.to_owned(), ANSWER_A.to_owned()];
    let batch = build_store_answers(&USER.to_owned(), &answers).unwrap();
    assert_eq!(
        batch.statement,
        "INSERT INTO card_practice (user_id, answer_id) VALUES ($1,$2),($3,$4),($5,$6)"
    );
}

#[test]
fn a_single_answer_yields_one_tuple() {
    let answers = vec![ANSWER_A.to_owned()];
    let batch = build_store_answers(&USER.to_owned(), &answers).unwrap();
    assert_eq!(
        batch.statement,
        "INSERT INTO card_practice (user_id, answer_id) VALUES ($1,$2)"
    );
    assert_eq!(batch.params, vec![USER.to_owned(), ANSWER_A.to_owned()]);
}

#[test]
fn a_malformed_user_id_is_rejected() {
    let answers = vec![ANSWER_A.to_owned()];
    let r = build_store_answers(&"not-a-uuid".to_owned(), &answers);
    assert_eq!(r.unwrap_err(), ValidationError::MalformedUserId);
}

#[test]
fn an_empty_batch_is_rejected() {
    let r = build_store_answers(&USER.to_owned(), &vec![]);
    assert_eq!(r.unwrap_err(), ValidationError::EmptyBatch);
}

#[test]
fn a_malformed_answer_id_is_rejected() {
    let answers = vec![ANSWER_A.to_owned(), "broken".to_owned()];
    let r = build_store_answers(&USER.to_owned(), &answers);
    assert_eq!(r.unwrap_err(), ValidationError::MalformedAnswerId);
}

#[test]
fn unhyphenated_and_urn_forms_are_accepted() {
    let answers = vec!["67e5504410b1426f9247bb680e5fe0c8".to_owned()];
    assert!(build_store_answers(&USER.to_owned(), &answers).is_ok());
    let answers = vec!["urn:uuid:67e55044-10b1-426f-9247-bb680e5fe0c8".to_owned()];
    assert!(build_store_answers(&USER.to_owned(), &answers).is_ok());
}
