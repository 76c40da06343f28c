use octobors::review::{Approval, CommentEffect, Review, ReviewState, Reviews};

fn review(name: &str, state: ReviewState) -> Review {
    Review {
        user_name: name.to_string(),
        state,
    }
}

#[test]
fn empty() {
    let reviews = Reviews::new("example", CommentEffect::Ignore);
    assert!(!reviews.approved(Approval::Required));
    assert!(reviews.approved(Approval::Optional));
}

#[test]
fn commented() {
    let mut reviews = Reviews::new("example", CommentEffect::Ignore);
    reviews.record(review("a", ReviewState::Commented));
    assert!(!reviews.approved(Approval::Required));
    assert!(reviews.approved(Approval::Optional));

    let mut reviews = Reviews::new("example", CommentEffect::RequestsChange);
    reviews.record(review("a", ReviewState::Commented));
    assert!(!reviews.approved(Approval::Required));
    assert!(!reviews.approved(Approval::Optional));

    // A self-comment shouldn't have any influence.
    let mut reviews = Reviews::new("example", CommentEffect::RequestsChange);
    reviews.record(review("example", ReviewState::Commented));
    assert!(!reviews.approved(Approval::Required));
    assert!(reviews.approved(Approval::Optional));
}

#[test]
fn approve() {
    let mut reviews = Reviews::new("example", CommentEffect::Ignore);
    reviews.record(review("a", ReviewState::Approved));
    assert!(reviews.approved(Approval::Required));
    assert!(reviews.approved(Approval::Optional));
}

#[test]
fn disapprove() {
    let mut reviews = Reviews::new("example", CommentEffect::Ignore);
    reviews.record(review("a", ReviewState::ChangesRequested));
    assert!(!reviews.approved(Approval::Required));
    assert!(!reviews.approved(Approval::Optional));
}

#[test]
fn disapprove_then_approve() {
    let mut reviews = Reviews::new("example", CommentEffect::Ignore);
    reviews.record(review("a", ReviewState::ChangesRequested));
    reviews.record(review("a", ReviewState::Approved));
    assert!(reviews.approved(Approval::Required));
    assert!(reviews.approved(Approval::Optional));
}

#[test]
fn approve_then_disapprove() {
    let mut reviews = Reviews::new("example", CommentEffect::Ignore);
    reviews.record(review("a", ReviewState::Approved));
    reviews.record(review("a", ReviewState::ChangesRequested));
    assert!(!reviews.approved(Approval::Required));
    assert!(!reviews.approved(Approval::Optional));
}

#[test]
fn disapprove_then_comment() {
    let mut reviews = Reviews::new("example", CommentEffect::Ignore);
    reviews.record(review("a", ReviewState::ChangesRequested));
    reviews.record(review("a", ReviewState::Commented));
    assert!(!reviews.approved(Approval::Required));
    assert!(!reviews.approved(Approval::Optional));

    let mut reviews = Reviews::new("example", CommentEffect::RequestsChange);
    reviews.record(review("a", ReviewState::ChangesRequested));
    reviews.record(review("a", ReviewState::Commented));
    assert!(!reviews.approved(Approval::Required));
    assert!(!reviews.approved(Approval::Optional));
}

#[test]
fn approve_then_comment() {
    let mut reviews = Reviews::new("example", CommentEffect::Ignore);
    reviews.record(review("a", ReviewState::Approved));
    reviews.record(review("a", ReviewState::Commented));
    assert!(reviews.approved(Approval::Required));
    assert!(reviews.approved(Approval::Optional));

    // A comment newer than the writer's own approval is never a
    // regression, even when comments count as requesting changes.
    let mut reviews = Reviews::new("example", CommentEffect::RequestsChange);
    reviews.record(review("a", ReviewState::Approved));
    reviews.record(review("a", ReviewState::Commented));
    assert!(reviews.approved(Approval::Required));
    assert!(reviews.approved(Approval::Optional));
}

#[test]
fn approve_and_disapprove() {
    let mut reviews = Reviews::new("example", CommentEffect::Ignore);
    reviews.record(review("a", ReviewState::Approved));
    reviews.record(review("b", ReviewState::ChangesRequested));
    assert!(!reviews.approved(Approval::Required));
    assert!(!reviews.approved(Approval::Optional));

    let mut reviews = Reviews::new("example", CommentEffect::Ignore);
    reviews.record(review("d", ReviewState::ChangesRequested));
    reviews.record(review("c", ReviewState::Approved));
    assert!(!reviews.approved(Approval::Required));
    assert!(!reviews.approved(Approval::Optional));
}

#[test]
fn pending_reviews_are_ignored() {
    let mut reviews = Reviews::new("example", CommentEffect::RequestsChange);
    reviews.record(review("a", ReviewState::Pending));
    assert!(!reviews.approved(Approval::Required));
    assert!(reviews.approved(Approval::Optional));
}

#[test]
fn record_reviews_folds_in_order() {
    let reviews = Reviews::new("example", CommentEffect::Ignore).record_reviews(&vec![
        review("a", ReviewState::ChangesRequested),
        review("b", ReviewState::Approved),
        review("a", ReviewState::Approved),
    ]);
    assert!(reviews.approved(Approval::Required));
}

#[test]
fn missing_approvals_lists_standing_change_requests() {
    let reviews = Reviews::new("example", CommentEffect::Ignore).record_reviews(&vec![
        review("a", ReviewState::ChangesRequested),
        review("b", ReviewState::Approved),
        review("c", ReviewState::ChangesRequested),
    ]);
    assert_eq!(
        reviews.missing_approvals_from_users(),
        vec!["a".to_string(), "c".to_string()]
    );

    let reviews = Reviews::new("example", CommentEffect::Ignore)
        .record_reviews(&vec![review("b", ReviewState::Approved)]);
    assert!(reviews.missing_approvals_from_users().is_empty());
}

#[test]
fn one_entry_per_user() {
    let mut reviews = Reviews::new("example", CommentEffect::Ignore);
    reviews.record(review("a", ReviewState::ChangesRequested));
    reviews.record(review("a", ReviewState::Approved));
    reviews.record(review("a", ReviewState::ChangesRequested));
    assert_eq!(
        reviews.review_by_nick,
        vec![("a".to_string(), octobors::review::Status::ChangeRequested)]
    );
}
