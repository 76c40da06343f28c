use octobors::context::{MergeMethod, RepoConfig};
use octobors::process::{
    has_label, labels_to_add, labels_to_remove, Actions, Analyzer, Comment, IssueState, Pr,
    Presence, RemoteData, StatusState,
};
use octobors::review::{Review, ReviewState};
use octobors::review::ReviewState::{Approved, ChangesRequested, Commented};

const NOW: i64 = 1_700_000_000;

fn review(user_name: &str, state: ReviewState) -> Review {
    Review {
        user_name: user_name.to_string(),
        state,
    }
}

fn make_context() -> (Pr, RepoConfig) {
    let config = RepoConfig {
        name: "the-project".to_string(),
        needs_description_label: Some("needs-description".to_string()),
        required_statuses: vec!["status1".to_string()],
        ci_passed_label: Some("ci-passed".to_string()),
        reviewed_label: Some("reviewed".to_string()),
        skip_review_label: None,
        block_merge_label: Some("block-merge".to_string()),
        automerge_grace_period: Some(10),
        merge_method: MergeMethod::Rebase,
        comment_requests_change: false,
        react_to_comments: false,
    };

    let pr = Pr {
        id: 13482,
        author: "author".to_owned(),
        number: 1,
        commit_sha: "somesha".to_string(),
        draft: false,
        state: IssueState::Open,
        updated_at: NOW - 50,
        labels: Vec::new(),
        has_description: true,
        requested_reviewers_remaining: 0,
    };

    (pr, config)
}

fn make_analyzer(pr: Pr, config: RepoConfig) -> Analyzer {
    let mut analyzer = Analyzer::new(pr, config, NOW, Vec::new(), "bors".to_string());
    analyzer.reviews = RemoteData::Local(vec![
        review("1", ReviewState::Commented),
        review("2", ReviewState::Approved),
        review("3", ReviewState::Commented),
    ]);
    analyzer.statuses = RemoteData::Local(vec![
        ("status1".to_string(), StatusState::Success),
        ("status2".to_string(), StatusState::Failure),
    ]);
    analyzer
}

#[test]
fn ok_pr_actions() {
    let (pr, config) = make_context();
    let analyzer = make_analyzer(pr, config);
    assert_eq!(
        analyzer.required_actions().unwrap(),
        *Actions::noop()
            .set_merge(true)
            .set_label("reviewed", Presence::Present)
            .set_label("ci-passed", Presence::Present)
            .set_label("needs-description", Presence::Absent)
    );
}

#[test]
fn merge_blocked_by_label() {
    let (mut pr, mut config) = make_context();
    config.block_merge_label = Some("blocked!".to_string());
    pr.labels.push("blocked!".to_string());
    let analyzer = make_analyzer(pr, config);
    assert_eq!(
        analyzer.required_actions().unwrap(),
        *Actions::noop()
            .set_merge(false)
            .set_label("reviewed", Presence::Present)
            .set_label("ci-passed", Presence::Present)
            .set_label("needs-description", Presence::Absent)
    );
}

#[test]
fn trivial_merge_not_blocked_on_pending_reviews() {
    let (mut pr, mut config) = make_context();

    // It's trivial
    config.skip_review_label = Some("trivial :)".to_string());
    pr.labels.push("trivial :)".to_string());

    // But a few reviews are pending
    pr.requested_reviewers_remaining = 42;

    let analyzer = make_analyzer(pr, config);

    assert_eq!(
        analyzer.required_actions().unwrap(),
        *Actions::noop()
            .set_merge(true)
            .set_label("reviewed", Presence::Present)
            .set_label("ci-passed", Presence::Present)
            .set_label("needs-description", Presence::Absent)
    );
}

#[test]
fn trivial_merge_blocked_on_requested_changes() {
    let (mut pr, mut config) = make_context();

    // It's trivial
    config.skip_review_label = Some("trivial :)".to_string());
    pr.labels.push("trivial :)".to_string());

    // But a few reviews are pending
    pr.requested_reviewers_remaining = 41;

    let mut analyzer = make_analyzer(pr, config);

    // But one review asked for changes
    analyzer.reviews = RemoteData::Local(vec![review("1", ReviewState::ChangesRequested)]);

    assert_eq!(
        analyzer.required_actions().unwrap(),
        *Actions::noop()
            .set_merge(false)
            .set_label("reviewed", Presence::Absent)
            .set_label("ci-passed", Presence::Present)
            .set_label("needs-description", Presence::Absent)
    );
}

#[test]
fn trivial_merge_with_approval() {
    let (mut pr, mut config) = make_context();

    // It's trivial
    config.skip_review_label = Some("trivial :)".to_string());
    pr.labels.push("trivial :)".to_string());

    // But a few reviews are pending
    pr.requested_reviewers_remaining = 41;

    let mut analyzer = make_analyzer(pr, config);

    // But one review approved
    analyzer.reviews = RemoteData::Local(vec![review("1", ReviewState::Approved)]);

    assert_eq!(
        analyzer.required_actions().unwrap(),
        *Actions::noop()
            .set_merge(true)
            .set_label("reviewed", Presence::Present)
            .set_label("ci-passed", Presence::Present)
            .set_label("needs-description", Presence::Absent)
    );
}

#[test]
fn draft_pr_actions() {
    let (mut pr, config) = make_context();
    pr.draft = true;
    let analyzer = make_analyzer(pr, config);
    assert_eq!(analyzer.required_actions().unwrap(), Actions::noop());
}

#[test]
fn closed_pr_actions() {
    let (mut pr, config) = make_context();
    pr.state = IssueState::Closed;
    let analyzer = make_analyzer(pr, config);
    assert_eq!(analyzer.required_actions().unwrap(), Actions::noop());
}

#[test]
fn stale_pr_actions() {
    let (mut pr, config) = make_context();
    pr.updated_at = NOW - 61 * 60;
    let analyzer = make_analyzer(pr, config);
    assert_eq!(analyzer.required_actions().unwrap(), Actions::noop());
}

#[test]
fn no_description_pr_actions() {
    let (mut pr, config) = make_context();
    pr.has_description = false;
    let analyzer = make_analyzer(pr, config);
    assert_eq!(
        analyzer.required_actions().unwrap(),
        *Actions::noop()
            .set_merge(false)
            .set_label("reviewed", Presence::Present)
            .set_label("ci-passed", Presence::Present)
            .set_label("needs-description", Presence::Present)
    );
}

#[test]
fn no_description_none_required_pr_actions() {
    let (mut pr, mut config) = make_context();
    config.needs_description_label = None;
    pr.has_description = false;
    let analyzer = make_analyzer(pr, config);
    assert_eq!(
        analyzer.required_actions().unwrap(),
        *Actions::noop()
            .set_merge(true)
            .set_label("reviewed", Presence::Present)
            .set_label("ci-passed", Presence::Present)
    );
}

fn assert_approved_without_review_label(approved: bool, cases: Vec<Review>) {
    let (pr, mut config) = make_context();
    config.reviewed_label = None;
    let mut analyzer = make_analyzer(pr, config);
    analyzer.reviews = RemoteData::Local(cases);
    assert_eq!(
        analyzer.required_actions().unwrap(),
        *Actions::noop()
            .set_merge(approved)
            .set_label("ci-passed", Presence::Present)
            .set_label("needs-description", Presence::Absent)
    );
}

#[test]
fn review_not_required_if_label_not_configured() {
    assert_approved_without_review_label(true, vec![]);
    assert_approved_without_review_label(true, vec![review("1", Approved)]);
    assert_approved_without_review_label(true, vec![review("1", Commented)]);
    assert_approved_without_review_label(false, vec![review("1", ChangesRequested)]);
}

#[test]
fn changes_requested_still_blocks_if_label_not_configured() {
    let (pr, mut config) = make_context();
    config.reviewed_label = None;
    let mut analyzer = make_analyzer(pr, config);
    analyzer.reviews = RemoteData::Local(vec![Review {
        user_name: "me".to_string(),
        state: ReviewState::ChangesRequested,
    }]);
    assert_eq!(
        analyzer.required_actions().unwrap(),
        *Actions::noop()
            .set_merge(false)
            .set_label("ci-passed", Presence::Present)
            .set_label("needs-description", Presence::Absent)
    );
}

#[test]
fn no_ci_passed_label() {
    let (pr, mut config) = make_context();
    config.ci_passed_label = None;
    let analyzer = make_analyzer(pr, config);
    assert_eq!(
        analyzer.required_actions().unwrap(),
        *Actions::noop()
            .set_merge(true)
            .set_label("reviewed", Presence::Present)
            .set_label("needs-description", Presence::Absent)
    );
}

fn assert_ci_failed_actions(cases: Vec<(&str, StatusState)>) {
    let (pr, mut config) = make_context();
    config.required_statuses = vec!["required1".to_string(), "required2".to_string()];
    let mut analyzer = make_analyzer(pr, config);
    analyzer.statuses = RemoteData::Local(
        cases
            .into_iter()
            .map(|(a, b): (&str, StatusState)| (a.to_string(), b))
            .collect(),
    );
    assert_eq!(
        analyzer.required_actions().unwrap(),
        *Actions::noop()
            .set_merge(false)
            .set_label("reviewed", Presence::Present)
            .set_label("ci-passed", Presence::Absent)
            .set_label("needs-description", Presence::Absent)
    );
}

#[test]
fn required_ci_not_passed_pr_actions() {
    // No passes
    assert_ci_failed_actions(vec![]);

    // One pass, other missing
    assert_ci_failed_actions(vec![("required1", StatusState::Success)]);
    assert_ci_failed_actions(vec![("required2", StatusState::Success)]);

    // One passed, other failed

    assert_ci_failed_actions(vec![
        ("required2", StatusState::Success),
        ("required1", StatusState::Error),
    ]);
    assert_ci_failed_actions(vec![
        ("required2", StatusState::Success),
        ("required1", StatusState::Failure),
    ]);
    assert_ci_failed_actions(vec![
        ("required2", StatusState::Success),
        ("required1", StatusState::Pending),
    ]);
    assert_ci_failed_actions(vec![
        ("required1", StatusState::Success),
        ("required2", StatusState::Error),
    ]);
    assert_ci_failed_actions(vec![
        ("required1", StatusState::Success),
        ("required2", StatusState::Failure),
    ]);
    assert_ci_failed_actions(vec![
        ("required1", StatusState::Success),
        ("required2", StatusState::Pending),
    ]);

    // Failing statuses with a non-required pass

    assert_ci_failed_actions(vec![("not-required", StatusState::Success)]);

    assert_ci_failed_actions(vec![
        ("not-required", StatusState::Success),
        ("required1", StatusState::Error),
        ("required2", StatusState::Success),
    ]);

    assert_ci_failed_actions(vec![
        ("required1", StatusState::Failure),
        ("not-required", StatusState::Success),
        ("required2", StatusState::Success),
    ]);

    assert_ci_failed_actions(vec![
        ("required1", StatusState::Pending),
        ("not-required", StatusState::Success),
        ("required2", StatusState::Success),
    ]);
}

fn assert_approved(approved: bool, cases: Vec<Review>) {
    let (pr, config) = make_context();
    let mut analyzer = make_analyzer(pr, config);
    analyzer.reviews = RemoteData::Local(cases);
    assert_eq!(
        analyzer.required_actions().unwrap(),
        *Actions::noop()
            .set_merge(approved)
            .set_label("reviewed", Presence::should_be_present(approved))
            .set_label("ci-passed", Presence::Present)
            .set_label("needs-description", Presence::Absent)
    );
}

#[test]
fn review_approval_pr_actions() {
    // No reviews
    assert_approved(false, vec![]);

    // One non-approving review
    assert_approved(false, vec![review("1", ChangesRequested)]);
    assert_approved(false, vec![review("1", Commented)]);

    // One person approved, another disapproves
    assert_approved(
        false,
        vec![review("1", Approved), review("2", ChangesRequested)],
    );

    // One person approves, another comments
    assert_approved(true, vec![review("1", Approved), review("2", Commented)]);

    // One person approves
    assert_approved(true, vec![review("1", Approved)]);

    // One person disapproves and then later approves
    assert_approved(
        true,
        vec![review("1", ChangesRequested), review("1", Approved)],
    );

    // One person disapproves and then later comments
    assert_approved(
        false,
        vec![review("1", ChangesRequested), review("1", Commented)],
    );

    // One person approves and then later comments
    assert_approved(true, vec![review("1", Approved), review("1", Commented)]);
}

fn assert_merge_with_grace_period(
    grace_period: Option<u64>,
    updated_seconds_ago: i64,
    merge: bool,
) {
    let (mut pr, mut config) = make_context();
    config.automerge_grace_period = grace_period;
    pr.updated_at = NOW - updated_seconds_ago;
    let analyzer = make_analyzer(pr, config);
    assert_eq!(
        analyzer.required_actions().unwrap(),
        *Actions::noop()
            .set_merge(merge)
            .set_label("reviewed", Presence::Present)
            .set_label("ci-passed", Presence::Present)
            .set_label("needs-description", Presence::Absent)
    );
}

#[test]
fn grace_period_prevents_merge() {
    // No grace period means it will always merge
    assert_merge_with_grace_period(None, 0, true);
    assert_merge_with_grace_period(None, -1, true);

    // Falling within a grace period means it will not merge
    assert_merge_with_grace_period(Some(1), 0, false);

    // Falling after a grace period means it will merge
    assert_merge_with_grace_period(Some(1), 2, true);
}

fn assert_merge_with_requested_reviews(requested_reviewers: usize, merge: bool) {
    let (mut pr, config) = make_context();
    pr.requested_reviewers_remaining = requested_reviewers;
    let analyzer = make_analyzer(pr, config);
    assert_eq!(
        analyzer.required_actions().unwrap().merge,
        Actions::noop().set_merge(merge).merge
    );
}

#[test]
fn requested_reviews() {
    assert_merge_with_requested_reviews(0, true);
    assert_merge_with_requested_reviews(1, false);
    assert_merge_with_requested_reviews(2, false);
    assert_merge_with_requested_reviews(3, false);
}

#[test]
fn remote_data_is_required_for_extended_checks() {
    let (pr, config) = make_context();
    let analyzer = Analyzer::new(pr, config, NOW, Vec::new(), "bors".to_string());
    assert!(analyzer.required_actions().is_none());
}

#[test]
fn draft_pr_needs_no_remote_data() {
    let (mut pr, config) = make_context();
    pr.draft = true;
    let analyzer = Analyzer::new(pr, config, NOW, Vec::new(), "bors".to_string());
    assert_eq!(analyzer.required_actions().unwrap(), Actions::noop());
}

#[test]
fn mention_gets_a_status_answer() {
    let (mut pr, mut config) = make_context();
    config.react_to_comments = true;
    pr.has_description = false;
    let comments = vec![Comment {
        author: "alice".to_string(),
        body: "Hey @bors, why is this stuck?".to_string(),
    }];
    let mut analyzer = Analyzer::new(pr, config, NOW, comments, "bors".to_string());
    analyzer.reviews = RemoteData::Local(vec![review("1", ReviewState::Approved)]);
    analyzer.statuses = RemoteData::Local(vec![("status1".to_string(), StatusState::Success)]);
    assert_eq!(
        analyzer.required_actions().unwrap(),
        *Actions::noop()
            .set_merge(false)
            .set_label("reviewed", Presence::Present)
            .set_label("ci-passed", Presence::Present)
            .set_label("needs-description", Presence::Present)
            .post_comment("### Merge status\n- This PR lacks a description.\n".to_string())
    );
}

#[test]
fn answered_mention_stays_silent() {
    let (pr, mut config) = make_context();
    config.react_to_comments = true;
    let comments = vec![
        Comment {
            author: "alice".to_string(),
            body: "@bors what now?".to_string(),
        },
        Comment {
            author: "bors".to_string(),
            body: "### Merge status\nSorry, I was taking a nice little nap; will get back to work now!\n"
                .to_string(),
        },
    ];
    let mut analyzer = Analyzer::new(pr, config, NOW, comments, "bors".to_string());
    analyzer.reviews = RemoteData::Local(vec![review("1", ReviewState::Approved)]);
    analyzer.statuses = RemoteData::Local(vec![("status1".to_string(), StatusState::Success)]);
    assert_eq!(
        analyzer.required_actions().unwrap(),
        *Actions::noop()
            .set_merge(true)
            .set_label("reviewed", Presence::Present)
            .set_label("ci-passed", Presence::Present)
            .set_label("needs-description", Presence::Absent)
    );
}

#[test]
fn status_answer_names_users_owing_approval() {
    let (pr, mut config) = make_context();
    config.react_to_comments = true;
    let comments = vec![Comment {
        author: "alice".to_string(),
        body: "ping @bors".to_string(),
    }];
    let mut analyzer = Analyzer::new(pr, config, NOW, comments, "bors".to_string());
    analyzer.reviews = RemoteData::Local(vec![
        review("carol", ReviewState::ChangesRequested),
        review("dave", ReviewState::ChangesRequested),
    ]);
    analyzer.statuses = RemoteData::Local(vec![("status1".to_string(), StatusState::Success)]);
    assert_eq!(
        analyzer.required_actions().unwrap(),
        *Actions::noop()
            .set_merge(false)
            .set_label("reviewed", Presence::Absent)
            .set_label("ci-passed", Presence::Present)
            .set_label("needs-description", Presence::Absent)
            .post_comment(
                "### Merge status\n- There are some missing review approvals. Missing approvals from: @carol, @dave.\n"
                    .to_string()
            )
    );
}

#[test]
fn draft_with_mention_still_changes_no_labels() {
    let (mut pr, mut config) = make_context();
    config.react_to_comments = true;
    pr.draft = true;
    let comments = vec![Comment {
        author: "alice".to_string(),
        body: "@bors?".to_string(),
    }];
    let mut analyzer = Analyzer::new(pr, config, NOW, comments, "bors".to_string());
    analyzer.reviews = RemoteData::Local(vec![review("1", ReviewState::Approved)]);
    analyzer.statuses = RemoteData::Local(vec![("status1".to_string(), StatusState::Success)]);
    assert_eq!(
        analyzer.required_actions().unwrap(),
        *Actions::noop()
            .set_merge(false)
            .post_comment("### Merge status\n- This PR is a draft.\n".to_string())
    );
}

#[test]
fn label_diff_helpers() {
    let current = vec!["a".to_string(), "b".to_string()];
    let wanted = vec!["b".to_string(), "c".to_string()];
    assert_eq!(labels_to_add(&current, &wanted), vec!["c".to_string()]);
    assert_eq!(labels_to_remove(&current, &wanted), vec!["b".to_string()]);
    assert_eq!(has_label(&current, &"b".to_string()), Some(1));
    assert_eq!(has_label(&current, &"z".to_string()), None);
}

#[test]
fn required_actions_is_idempotent() {
    let (pr, config) = make_context();
    let analyzer = make_analyzer(pr, config);
    let first = analyzer.required_actions().unwrap();
    let second = analyzer.required_actions().unwrap();
    assert_eq!(first, second);
}
