//! Analyzing one pull request snapshot: which labels it should carry,
//! whether it may merge, and why merging is withheld.

use vstd::prelude::*;
use vstd::string::{StrSliceExecFns, StringExecFns};
use crate::context::RepoConfig;
use crate::review::{
    lemma_approved_by_verdicts,
    cr_users_from, table_of_history, verdict_of_history, Approval, CommentEffect, Review, Reviews,
    Status,
};
use crate::strutil::{chars_of, contains_chars, contains_seq, extend_chars, str_views};

verus! {

/// Whether the pull request is open or closed.
#[derive(Debug, Clone, Copy, PartialEq, Eq, Structural)]
pub enum IssueState {
    Open,
    Closed,
}

/// The state one status check reports.
#[derive(Debug, Clone, Copy, PartialEq, Eq, Structural)]
pub enum StatusState {
    Pending,
    Success,
    Failure,
    Error,
}

/// An immutable snapshot of a pull request, taken once per analysis pass.
#[derive(Debug, Clone)]
pub struct Pr {
    pub id: u64,
    pub author: String,
    pub number: u64,
    pub commit_sha: String,
    pub draft: bool,
    pub state: IssueState,
    /// Seconds since the epoch of the last update.
    pub updated_at: i64,
    pub labels: Vec<String>,
    pub has_description: bool,
    pub requested_reviewers_remaining: usize,
}

/// One issue comment: who wrote it and its text.
#[derive(Debug, Clone)]
pub struct Comment {
    pub author: String,
    pub body: String,
}

/// Data that is either still on the platform or already fetched.
pub enum RemoteData<T> {
    Remote,
    Local(T),
}

/// A label may either be wanted on the pull request or wanted gone.
#[derive(Debug, Clone, Copy, PartialEq, Eq, Structural)]
pub enum Presence {
    Present,
    Absent,
}

impl Presence {
    /// Translate a computed boolean into the wanted presence.
    pub fn should_be_present(should: bool) -> (r: Presence)
        ensures
            r == (if should {
                Presence::Present
            } else {
                Presence::Absent
            }),
    {
        if should {
            Presence::Present
        } else {
            Presence::Absent
        }
    }
}

/// What the bot should do to a pull request after one analysis pass.
#[derive(Debug, Default, Clone, PartialEq, Eq)]
pub struct Actions {
    pub merge: bool,
    pub add_labels: Vec<String>,
    pub remove_labels: Vec<String>,
    pub post_comment: Vec<String>,
}

/// Insert a label name into a set-like list unless it is already there.
pub open spec fn spec_insert_label(s: Seq<Seq<char>>, l: Seq<char>) -> Seq<Seq<char>> {
    if s.contains(l) {
        s
    } else {
        s.push(l)
    }
}

fn vec_contains_string(v: &Vec<String>, s: &String) -> (r: bool)
    ensures
        r == str_views(v@).contains(s@),
{
    let mut i: usize = 0;
    while i < v.len()
        invariant
            i <= v@.len(),
            forall|j: int| 0 <= j < i ==> v@[j]@ != s@,
        decreases v@.len() - i,
    {
        if v[i] == *s {
            assert(str_views(v@)[i as int] == s@);
            return true;
        }
        i += 1;
    }
    assert forall|j: int| 0 <= j < str_views(v@).len() implies str_views(v@)[j] != s@ by {}
    false
}

impl Actions {
    /// An empty pass result: no merge, no label changes, nothing to post.
    pub fn noop() -> (r: Actions)
        ensures
            r.merge == false,
            r.add_labels@.len() == 0,
            r.remove_labels@.len() == 0,
            r.post_comment@.len() == 0,
    {
        Actions {
            merge: false,
            add_labels: Vec::new(),
            remove_labels: Vec::new(),
            post_comment: Vec::new(),
        }
    }

    /// Ask for the label to be on the pull request or off it. Each list
    /// keeps one copy of a name.
    pub fn set_label(&mut self, label: &str, presence: Presence) -> (ret: &mut Actions)
        ensures
            *final(self) == *final(ret),
            ret.merge == old(self).merge,
            ret.post_comment == old(self).post_comment,
            presence == Presence::Present ==> str_views(ret.add_labels@) == spec_insert_label(
                str_views(old(self).add_labels@),
                label@,
            ) && ret.remove_labels == old(self).remove_labels,
            presence == Presence::Absent ==> str_views(ret.remove_labels@) == spec_insert_label(
                str_views(old(self).remove_labels@),
                label@,
            ) && ret.add_labels == old(self).add_labels,
    {
        let l = label.to_owned();
        match presence {
            Presence::Present => {
                if !vec_contains_string(&self.add_labels, &l) {
                    self.add_labels.push(l);
                    proof {
                        assert(str_views(self.add_labels@) =~~= str_views(
                            old(self).add_labels@,
                        ).push(label@));
                    }
                }
            }
            Presence::Absent => {
                if !vec_contains_string(&self.remove_labels, &l) {
                    self.remove_labels.push(l);
                    proof {
                        assert(str_views(self.remove_labels@) =~~= str_views(
                            old(self).remove_labels@,
                        ).push(label@));
                    }
                }
            }
        }
        self
    }

    /// Record the merge verdict.
    pub fn set_merge(&mut self, should_merge: bool) -> (ret: &mut Actions)
        ensures
            *final(self) == *final(ret),
            ret.merge == should_merge,
            ret.add_labels == old(self).add_labels,
            ret.remove_labels == old(self).remove_labels,
            ret.post_comment == old(self).post_comment,
    {
        self.merge = should_merge;
        self
    }

    /// Queue a comment to be posted.
    pub fn post_comment(&mut self, comment: String) -> (ret: &mut Actions)
        ensures
            *final(self) == *final(ret),
            ret.merge == old(self).merge,
            ret.add_labels == old(self).add_labels,
            ret.remove_labels == old(self).remove_labels,
            ret.post_comment@ == old(self).post_comment@.push(comment),
    {
        self.post_comment.push(comment);
        self
    }
}

/// The position of `name` among `labels`, if it is there.
pub fn has_label(labels: &Vec<String>, name: &String) -> (r: Option<usize>)
    ensures
        match r {
            Some(i) => i < labels@.len() && labels@[i as int]@ == name@ && forall|j: int|
                0 <= j < i ==> labels@[j]@ != name@,
            None => forall|j: int| 0 <= j < labels@.len() ==> labels@[j]@ != name@,
        },
{
    let mut i: usize = 0;
    while i < labels.len()
        invariant
            i <= labels@.len(),
            forall|j: int| 0 <= j < i ==> labels@[j]@ != name@,
        decreases labels@.len() - i,
    {
        if labels[i] == *name {
            return Some(i);
        }
        i += 1;
    }
    None
}

/// The state reported for the check called `name`; a later report on the
/// same name wins.
pub open spec fn status_of(statuses: Seq<(String, StatusState)>, name: Seq<char>) -> Option<
    StatusState,
>
    decreases statuses.len(),
{
    if statuses.len() == 0 {
        None
    } else if statuses.last().0@ == name {
        Some(statuses.last().1)
    } else {
        status_of(statuses.drop_last(), name)
    }
}

fn status_lookup(statuses: &Vec<(String, StatusState)>, name: &String) -> (r: Option<StatusState>)
    ensures
        r == status_of(statuses@, name@),
{
    let mut i = statuses.len();
    proof {
        assert(statuses@.take(i as int) =~= statuses@);
    }
    while i > 0
        invariant
            i <= statuses@.len(),
            status_of(statuses@, name@) == status_of(statuses@.take(i as int), name@),
        decreases i,
    {
        proof {
            assert(statuses@.take(i as int).last() == statuses@[i - 1]);
            assert(statuses@.take(i as int).drop_last() =~= statuses@.take(i - 1));
        }
        let e = &statuses[i - 1];
        if e.0 == *name {
            return Some(e.1);
        }
        i -= 1;
    }
    None
}

/// All the required checks report success.
pub open spec fn spec_statuses_passed(
    statuses: Seq<(String, StatusState)>,
    required: Seq<String>,
) -> bool {
    forall|i: int|
        0 <= i < required.len() ==> status_of(statuses, required[i]@) == Some(StatusState::Success)
}

fn statuses_passed(statuses: &Vec<(String, StatusState)>, required: &Vec<String>) -> (r: bool)
    ensures
        r == spec_statuses_passed(statuses@, required@),
{
    let mut i: usize = 0;
    while i < required.len()
        invariant
            i <= required@.len(),
            forall|j: int|
                0 <= j < i ==> status_of(statuses@, required@[j]@) == Some(StatusState::Success),
        decreases required@.len() - i,
    {
        let ok = match status_lookup(statuses, &required[i]) {
            Some(StatusState::Success) => true,
            _ => false,
        };
        if !ok {
            return false;
        }
        i += 1;
    }
    true
}

/// The marker opening every status comment the bot posts.
pub open spec fn sigil() -> Seq<char> {
    "### Merge status"@
}

/// The way the bot is addressed in a comment.
pub open spec fn mention_of(bot: Seq<char>) -> Seq<char> {
    "@"@ + bot
}

/// Scanning the comments in order: a mention of the bot by someone else
/// asks for a status answer; a later status comment by the bot itself
/// answers it. The scan tells whether an answer is still owed.
pub open spec fn spec_wants_response_from(
    comments: Seq<Comment>,
    i: int,
    bot: Seq<char>,
    looking: bool,
) -> bool
    decreases comments.len() - i,
    when 0 <= i
{
    if i >= comments.len() {
        looking
    } else {
        let c = comments[i];
        let l1 = if looking && c.author@ == bot && sigil().len() <= c.body@.len()
            && c.body@.subrange(0, sigil().len() as int) == sigil() {
            false
        } else {
            looking
        };
        let l2 = if c.author@ != bot && contains_seq(c.body@, mention_of(bot)) {
            true
        } else {
            l1
        };
        spec_wants_response_from(comments, i + 1, bot, l2)
    }
}

fn wants_response(comments: &Vec<Comment>, bot: &String) -> (r: bool)
    ensures
        r == spec_wants_response_from(comments@, 0, bot@, false),
{
    let sigil_chars = chars_of("### Merge status");
    let mut mention_chars = chars_of("@");
    let bot_chars = chars_of(bot.as_str());
    extend_chars(&mut mention_chars, &bot_chars);
    let mut looking = false;
    let mut i: usize = 0;
    while i < comments.len()
        invariant
            i <= comments@.len(),
            sigil_chars@ == sigil(),
            mention_chars@ == mention_of(bot@),
            spec_wants_response_from(comments@, 0, bot@, false) == spec_wants_response_from(
                comments@,
                i as int,
                bot@,
                looking,
            ),
        decreases comments@.len() - i,
    {
        let ghost looked = looking;
        let c = &comments[i];
        let body_chars = chars_of(c.body.as_str());
        if looking && c.author == *bot && crate::strutil::starts_with_chars(
            &body_chars,
            &sigil_chars,
        ) {
            looking = false;
        }
        if !(c.author == *bot) && contains_chars(&body_chars, &mention_chars) {
            looking = true;
        }
        proof {
            assert(spec_wants_response_from(comments@, i as int, bot@, looked)
                == spec_wants_response_from(comments@, i + 1, bot@, looking));
        }
        i += 1;
    }
    looking
}

/// The users owing an approval, each mentioned, separated by commas.
pub open spec fn mention_list_from(users: Seq<Seq<char>>, from: int) -> Seq<char>
    decreases users.len() - from,
    when 0 <= from
{
    if from >= users.len() {
        Seq::empty()
    } else if from == users.len() - 1 {
        "@"@ + users[from]
    } else {
        "@"@ + users[from] + ", "@ + mention_list_from(users, from + 1)
    }
}

fn mention_list_exec(users: &Vec<String>, from: usize) -> (r: String)
    requires
        from <= users@.len(),
    ensures
        r@ == mention_list_from(str_views(users@), from as int),
    decreases users@.len() - from,
{
    if from >= users.len() {
        let r = String::new();
        proof {
            assert(r@ =~= mention_list_from(str_views(users@), from as int));
        }
        r
    } else if from == users.len() - 1 {
        let mut s = String::new();
        s.append("@");
        s.append(users[from].as_str());
        proof {
            assert(s@ =~= mention_list_from(str_views(users@), from as int));
        }
        s
    } else {
        let mut s = String::new();
        s.append("@");
        s.append(users[from].as_str());
        s.append(", ");
        let rest = mention_list_exec(users, from + 1);
        s.append(rest.as_str());
        proof {
            assert(s@ =~= mention_list_from(str_views(users@), from as int));
        }
        s
    }
}

/// The sentence explaining that approvals are missing, with the policy on
/// comments and the users still owing one.
pub open spec fn approval_sentence(crc: bool, users: Seq<Seq<char>>) -> Seq<char> {
    "- There are some missing review approvals"@ + (if crc {
        " (and comments count as request-changes)"@
    } else {
        Seq::<char>::empty()
    }) + (if users.len() > 0 {
        ". Missing approvals from: "@ + mention_list_from(users, 0)
    } else {
        Seq::<char>::empty()
    }) + ".\n"@
}

fn render_approval_sentence(crc: bool, users: &Vec<String>) -> (r: String)
    ensures
        r@ == approval_sentence(crc, str_views(users@)),
{
    let mut s = String::new();
    s.append("- There are some missing review approvals");
    if crc {
        s.append(" (and comments count as request-changes)");
    }
    if users.len() > 0 {
        s.append(". Missing approvals from: ");
        let list = mention_list_exec(users, 0);
        s.append(list.as_str());
    }
    s.append(".\n");
    proof {
        assert(s@ =~= approval_sentence(crc, str_views(users@)));
    }
    s
}

/// A piece of text included only under a condition.
pub open spec fn seg(cond: bool, text: Seq<char>) -> Seq<char> {
    if cond {
        text
    } else {
        Seq::empty()
    }
}

/// The bullet list explaining each reason merging is withheld, in a fixed
/// order. Inactivity is deliberately silent.
pub open spec fn explanation_body(
    draft: bool,
    closed: bool,
    missing_reviews: bool,
    approval_missing: bool,
    crc: bool,
    users: Seq<Seq<char>>,
    ci_failing: bool,
    missing_desc: bool,
    blocked: bool,
    block_label: Seq<char>,
    inside_grace: bool,
) -> Seq<char> {
    seg(draft, "- This PR is a draft.\n"@) + seg(closed, "- This PR is closed.\n"@) + seg(
        missing_reviews,
        "- Still waiting for the requested reviews.\n"@,
    ) + seg(approval_missing, approval_sentence(crc, users)) + seg(
        ci_failing,
        "- Github checks haven't passed yet.\n"@,
    ) + seg(missing_desc, "- This PR lacks a description.\n"@) + seg(
        blocked,
        "- This PR is blocked by the '"@ + block_label + "' label.\n"@,
    ) + seg(inside_grace, "- In grace period; I'll retry in a bit.\n"@)
}

/// The whole status comment: the marker line, then the reasons, or an
/// excuse when there is nothing to report.
pub open spec fn status_comment_text(body: Seq<char>) -> Seq<char> {
    sigil() + "\n"@ + (if body.len() == 0 {
        "Sorry, I was taking a nice little nap; will get back to work now!\n"@
    } else {
        body
    })
}

#[verifier::rlimit(80)]
fn render_explanation(
    draft: bool,
    closed: bool,
    missing_reviews: bool,
    approval_missing: bool,
    crc: bool,
    users: &Vec<String>,
    ci_failing: bool,
    missing_desc: bool,
    blocked: bool,
    block_label: &str,
    inside_grace: bool,
) -> (r: String)
    ensures
        r@ == explanation_body(
            draft,
            closed,
            missing_reviews,
            approval_missing,
            crc,
            str_views(users@),
            ci_failing,
            missing_desc,
            blocked,
            block_label@,
            inside_grace,
        ),
{
    let mut s = String::new();
    let ghost mut p: Seq<char> = Seq::empty();
    if draft {
        s.append("- This PR is a draft.\n");
    }
    proof {
        p = p + seg(draft, "- This PR is a draft.\n"@);
        assert(s@ =~= p);
    }
    if closed {
        s.append("- This PR is closed.\n");
    }
    proof {
        p = p + seg(closed, "- This PR is closed.\n"@);
        assert(s@ =~= p);
    }
    if missing_reviews {
        s.append("- Still waiting for the requested reviews.\n");
    }
    proof {
        p = p + seg(missing_reviews, "- Still waiting for the requested reviews.\n"@);
        assert(s@ =~= p);
    }
    if approval_missing {
        let sentence = render_approval_sentence(crc, users);
        s.append(sentence.as_str());
    }
    proof {
        p = p + seg(approval_missing, approval_sentence(crc, str_views(users@)));
        assert(s@ =~= p);
    }
    if ci_failing {
        s.append("- Github checks haven't passed yet.\n");
    }
    proof {
        p = p + seg(ci_failing, "- Github checks haven't passed yet.\n"@);
        assert(s@ =~= p);
    }
    if missing_desc {
        s.append("- This PR lacks a description.\n");
    }
    proof {
        p = p + seg(missing_desc, "- This PR lacks a description.\n"@);
        assert(s@ =~= p);
    }
    if blocked {
        s.append("- This PR is blocked by the '");
        s.append(block_label);
        s.append("' label.\n");
    }
    proof {
        p = p + seg(blocked, "- This PR is blocked by the '"@ + block_label@ + "' label.\n"@);
        assert(s@ =~= p);
    }
    if inside_grace {
        s.append("- In grace period; I'll retry in a bit.\n");
    }
    proof {
        p = p + seg(inside_grace, "- In grace period; I'll retry in a bit.\n"@);
        assert(s@ =~= p);
        assert(p =~= explanation_body(
            draft,
            closed,
            missing_reviews,
            approval_missing,
            crc,
            str_views(users@),
            ci_failing,
            missing_desc,
            blocked,
            block_label@,
            inside_grace,
        ));
    }
    s
}

fn render_status_comment(body: String) -> (r: String)
    ensures
        r@ == status_comment_text(body@),
{
    let mut s = String::new();
    s.append("### Merge status");
    s.append("\n");
    if body.as_str().unicode_len() == 0 {
        s.append("Sorry, I was taking a nice little nap; will get back to work now!\n");
    } else {
        s.append(body.as_str());
    }
    proof {
        assert(s@ =~= status_comment_text(body@));
    }
    s
}

/// One `set_label` effect on the pair of (wanted, unwanted) label lists.
pub open spec fn label_step(
    lists: (Seq<Seq<char>>, Seq<Seq<char>>),
    label: Option<String>,
    present: bool,
) -> (Seq<Seq<char>>, Seq<Seq<char>>) {
    match label {
        None => lists,
        Some(l) => if present {
            (spec_insert_label(lists.0, l@), lists.1)
        } else {
            (lists.0, spec_insert_label(lists.1, l@))
        },
    }
}

/// One pull request, its repository policy, the clock, and whatever
/// platform data has been fetched so far.
pub struct Analyzer {
    pub pr: Pr,
    pub config: RepoConfig,
    /// Seconds since the epoch at the start of the pass.
    pub now: i64,
    pub reviews: RemoteData<Vec<Review>>,
    pub statuses: RemoteData<Vec<(String, StatusState)>>,
    pub pr_comments: Vec<Comment>,
    pub bot_nick: String,
}

impl Analyzer {
    pub open spec fn spec_has_pr_label(self, l: Seq<char>) -> bool {
        str_views(self.pr.labels@).contains(l)
    }

    /// Reviews are required when a reviewed label is configured and the
    /// pull request does not carry the configured skip label.
    pub open spec fn spec_requires_reviews(self) -> bool {
        &&& !(match self.config.skip_review_label {
            Some(l) => self.spec_has_pr_label(l@),
            None => false,
        })
        &&& self.config.reviewed_label is Some
    }

    /// More than an hour without updates.
    pub open spec fn spec_inactive(self) -> bool {
        self.now - self.pr.updated_at > 3600
    }

    /// A draft, closed or inactive pull request ends the pass untouched.
    pub open spec fn spec_terminal(self) -> bool {
        self.pr.draft || self.pr.state == IssueState::Closed || self.spec_inactive()
    }

    pub open spec fn spec_missing_reviews(self) -> bool {
        self.spec_requires_reviews() && self.pr.requested_reviewers_remaining != 0
    }

    pub open spec fn spec_blocked_by_label(self) -> bool {
        match self.config.block_merge_label {
            Some(l) => self.spec_has_pr_label(l@),
            None => false,
        }
    }

    pub open spec fn spec_missing_description(self) -> bool {
        self.config.needs_description_label is Some && !self.pr.has_description
    }

    /// No grace period, or the last update left the window already.
    pub open spec fn spec_outside_grace_period(self) -> bool {
        match self.config.automerge_grace_period {
            None => true,
            Some(g) => self.now - g > self.pr.updated_at,
        }
    }

    /// Some reason to withhold merging was found without platform data.
    pub open spec fn spec_basic_blocked(self) -> bool {
        self.spec_terminal() || self.spec_missing_reviews() || self.spec_blocked_by_label()
            || self.spec_missing_description() || !self.spec_outside_grace_period()
    }

    /// Whether the pass reads reviews and statuses: always when comment
    /// reactions are on, otherwise only when nothing blocked it cheaply.
    pub open spec fn spec_needs_extended(self) -> bool {
        self.config.react_to_comments || !self.spec_basic_blocked()
    }

    /// Whether this analyzer holds all the data the pass will read.
    pub open spec fn spec_data_ready(self) -> bool {
        self.spec_needs_extended() ==> (self.reviews is Local && self.statuses is Local)
    }

    pub open spec fn local_reviews(self) -> Seq<Review> {
        match self.reviews {
            RemoteData::Local(v) => v@,
            RemoteData::Remote => Seq::empty(),
        }
    }

    pub open spec fn local_statuses(self) -> Seq<(String, StatusState)> {
        match self.statuses {
            RemoteData::Local(v) => v@,
            RemoteData::Remote => Seq::empty(),
        }
    }

    pub open spec fn spec_comment_effect(self) -> CommentEffect {
        if self.config.comment_requests_change {
            CommentEffect::RequestsChange
        } else {
            CommentEffect::Ignore
        }
    }

    pub open spec fn spec_approval_policy(self) -> Approval {
        if self.spec_requires_reviews() {
            Approval::Required
        } else {
            Approval::Optional
        }
    }

    /// Approval judged over the folded review history: no user with a
    /// standing change request, and an approval unless none is required.
    pub open spec fn spec_history_approved(self) -> bool {
        &&& forall|u: Seq<char>|
            verdict_of_history(self.pr.author@, self.spec_comment_effect(), self.local_reviews(), u)
                != Some(Status::ChangeRequested)
        &&& ((exists|u: Seq<char>|
            verdict_of_history(self.pr.author@, self.spec_comment_effect(), self.local_reviews(), u)
                == Some(Status::Approved)) || self.spec_approval_policy() == Approval::Optional)
    }

    pub open spec fn spec_ci_failing(self) -> bool {
        self.spec_needs_extended() && !spec_statuses_passed(
            self.local_statuses(),
            self.config.required_statuses@,
        )
    }

    pub open spec fn spec_approval_missing(self) -> bool {
        self.spec_needs_extended() && !self.spec_history_approved()
    }

    /// The users owing an approval, in the order the table lists them.
    pub open spec fn spec_from_users(self) -> Seq<Seq<char>> {
        cr_users_from(
            table_of_history(self.pr.author@, self.spec_comment_effect(), self.local_reviews()),
            0,
        )
    }

    pub open spec fn spec_missing_review(self) -> bool {
        self.spec_missing_reviews() || self.spec_approval_missing()
    }

    pub open spec fn spec_any_reason(self) -> bool {
        self.spec_basic_blocked() || self.spec_ci_failing() || self.spec_approval_missing()
    }

    /// Merging is wanted only when no reason stands against it.
    pub open spec fn spec_merge(self) -> bool {
        !self.spec_any_reason()
    }

    pub open spec fn spec_block_label(self) -> Seq<char> {
        match self.config.block_merge_label {
            Some(l) => l@,
            None => Seq::empty(),
        }
    }

    /// The text explaining why merging is withheld.
    pub open spec fn spec_explanation(self) -> Seq<char> {
        explanation_body(
            self.pr.draft,
            self.pr.state == IssueState::Closed,
            self.spec_missing_reviews(),
            self.spec_approval_missing(),
            self.config.comment_requests_change,
            self.spec_from_users(),
            self.spec_ci_failing(),
            self.spec_missing_description(),
            self.spec_blocked_by_label(),
            self.spec_block_label(),
            !self.spec_outside_grace_period(),
        )
    }

    /// The comments the pass posts: the status answer when one is owed.
    pub open spec fn spec_comments(self) -> Seq<Seq<char>> {
        if self.config.react_to_comments && spec_wants_response_from(
            self.pr_comments@,
            0,
            self.bot_nick@,
            false,
        ) {
            seq![status_comment_text(self.spec_explanation())]
        } else {
            Seq::empty()
        }
    }

    /// The labels the pass wants on the pull request and off it, in the
    /// order they are decided: reviewed, CI passed, needs description.
    pub open spec fn spec_label_lists(self) -> (Seq<Seq<char>>, Seq<Seq<char>>) {
        if self.spec_terminal() {
            (Seq::empty(), Seq::empty())
        } else {
            let p1 = label_step(
                (Seq::empty(), Seq::empty()),
                self.config.reviewed_label,
                !self.spec_missing_review(),
            );
            let p2 = label_step(p1, self.config.ci_passed_label, !self.spec_ci_failing());
            label_step(p2, self.config.needs_description_label, !self.pr.has_description)
        }
    }

    /// A fresh analyzer: everything known locally but the reviews and
    /// statuses, which are still on the platform.
    pub fn new(
        pr: Pr,
        config: RepoConfig,
        now: i64,
        pr_comments: Vec<Comment>,
        bot_nick: String,
    ) -> (r: Analyzer)
        ensures
            r.pr == pr,
            r.config == config,
            r.now == now,
            r.pr_comments == pr_comments,
            r.bot_nick == bot_nick,
            r.reviews is Remote,
            r.statuses is Remote,
    {
        Analyzer {
            pr,
            config,
            now,
            reviews: RemoteData::Remote,
            statuses: RemoteData::Remote,
            pr_comments,
            bot_nick,
        }
    }

    fn requires_reviews(&self) -> (r: bool)
        ensures
            r == self.spec_requires_reviews(),
    {
        if let Some(l) = &self.config.skip_review_label {
            match has_label(&self.pr.labels, l) {
                Some(i) => {
                    proof {
                        assert(str_views(self.pr.labels@)[i as int] == l@);
                    }
                    return false;
                }
                None => {
                    proof {
                        assert forall|j: int|
                            0 <= j < str_views(self.pr.labels@).len() implies str_views(
                            self.pr.labels@,
                        )[j] != l@ by {}
                    }
                }
            }
        }
        match &self.config.reviewed_label {
            Some(_) => true,
            None => false,
        }
    }

    fn merge_blocked_by_label(&self) -> (r: bool)
        ensures
            r == self.spec_blocked_by_label(),
    {
        match &self.config.block_merge_label {
            Some(l) => match has_label(&self.pr.labels, l) {
                Some(i) => {
                    proof {
                        assert(str_views(self.pr.labels@)[i as int] == l@);
                    }
                    true
                }
                None => {
                    proof {
                        assert forall|j: int|
                            0 <= j < str_views(self.pr.labels@).len() implies str_views(
                            self.pr.labels@,
                        )[j] != l@ by {}
                    }
                    false
                }
            },
            None => false,
        }
    }

    fn outside_grace_period(&self) -> (r: bool)
        ensures
            r == self.spec_outside_grace_period(),
    {
        match &self.config.automerge_grace_period {
            None => true,
            Some(g) => (self.now as i128) - (*g as i128) > (self.pr.updated_at as i128),
        }
    }

    fn is_inactive(&self) -> (r: bool)
        ensures
            r == self.spec_inactive(),
    {
        (self.now as i128) - (self.pr.updated_at as i128) > 3600
    }

    /// Analyze the snapshot. `None` reports that reviews or statuses are
    /// still on the platform although the pass needs them; the caller
    /// fetches them and asks again.
    #[verifier::rlimit(100)]
    pub fn required_actions(&self) -> (r: Option<Actions>)
        ensures
            r is Some <==> self.spec_data_ready(),
            (match r {
                Some(a) => {
                    &&& a.merge == self.spec_merge()
                    &&& str_views(a.add_labels@) == self.spec_label_lists().0
                    &&& str_views(a.remove_labels@) == self.spec_label_lists().1
                    &&& str_views(a.post_comment@) == self.spec_comments()
                }
                None => true,
            }),
    {
        let mut actions = Actions::noop();

        let requires_reviews = self.requires_reviews();
        let draft = self.pr.draft;
        let closed = matches!(self.pr.state, IssueState::Closed);
        let inactive = self.is_inactive();
        let missing_reviews = requires_reviews && self.pr.requested_reviewers_remaining != 0;
        let blocked = self.merge_blocked_by_label();
        let missing_desc = match &self.config.needs_description_label {
            Some(_) => !self.pr.has_description,
            None => false,
        };
        let outside_grace = self.outside_grace_period();
        let basic_blocked = draft || closed || inactive || missing_reviews || blocked
            || missing_desc || !outside_grace;
        assert(basic_blocked == self.spec_basic_blocked());
        let needs_extended = self.config.react_to_comments || !basic_blocked;

        let mut missing_approval = false;
        let mut ci_failing = false;
        let mut from_users: Vec<String> = Vec::new();
        if needs_extended {
            let reviews = match &self.reviews {
                RemoteData::Local(v) => v,
                RemoteData::Remote => {
                    return None;
                }
            };
            let statuses = match &self.statuses {
                RemoteData::Local(v) => v,
                RemoteData::Remote => {
                    return None;
                }
            };
            ci_failing = !statuses_passed(statuses, &self.config.required_statuses);
            let effect = if self.config.comment_requests_change {
                CommentEffect::RequestsChange
            } else {
                CommentEffect::Ignore
            };
            let req = if requires_reviews {
                Approval::Required
            } else {
                Approval::Optional
            };
            let table = Reviews::new(self.pr.author.as_str(), effect).record_reviews(reviews);
            let approved = table.approved(req);
            proof {
                lemma_approved_by_verdicts(table, req);
                assert(effect == self.spec_comment_effect());
                assert(req == self.spec_approval_policy());
                assert(reviews@ == self.local_reviews());
                let a = self.pr.author@;
                let eff = self.spec_comment_effect();
                let rs = self.local_reviews();
                assert forall|u: Seq<char>|
                    table.verdict(u) == verdict_of_history(a, eff, rs, u) by {}
                if approved {
                    assert forall|u: Seq<char>|
                        verdict_of_history(a, eff, rs, u) != Some(
                            Status::ChangeRequested,
                        ) by {
                        assert(table.verdict(u) != Some(Status::ChangeRequested));
                    }
                    if req == Approval::Required {
                        let u = choose|u: Seq<char>|
                            table.verdict(u) == Some(Status::Approved);
                        assert(verdict_of_history(a, eff, rs, u) == Some(Status::Approved));
                    }
                    assert(self.spec_history_approved());
                } else {
                    if exists|u: Seq<char>|
                        table.verdict(u) == Some(Status::ChangeRequested) {
                        let u = choose|u: Seq<char>|
                            table.verdict(u) == Some(Status::ChangeRequested);
                        assert(verdict_of_history(a, eff, rs, u) == Some(
                            Status::ChangeRequested,
                        ));
                        assert(!self.spec_history_approved());
                    } else {
                        assert forall|u: Seq<char>|
                            verdict_of_history(a, eff, rs, u) != Some(
                                Status::Approved,
                            ) by {
                            assert(table.verdict(u) != Some(Status::Approved));
                        }
                        assert(!self.spec_history_approved());
                    }
                }
                assert(approved == self.spec_history_approved());
            }
            if !approved {
                missing_approval = true;
                from_users = table.missing_approvals_from_users();
            }
            assert(ci_failing == self.spec_ci_failing());
            assert(missing_approval == self.spec_approval_missing());
            assert(missing_approval ==> str_views(from_users@) == self.spec_from_users());
        }

        if self.config.react_to_comments {
            if wants_response(&self.pr_comments, &self.bot_nick) {
                let block_label: &str = match &self.config.block_merge_label {
                    Some(l) => l.as_str(),
                    None => "",
                };
                proof {
                    reveal_strlit("");
                    assert(block_label@ =~= self.spec_block_label());
                }
                let ghost gusers = str_views(from_users@);
                proof {
                    if !missing_approval {
                        assert(gusers =~~= Seq::<Seq<char>>::empty());
                        assert(seg(false, approval_sentence(
                            self.config.comment_requests_change,
                            self.spec_from_users(),
                        )) =~= seg(false, approval_sentence(
                            self.config.comment_requests_change,
                            gusers,
                        )));
                    }
                }
                let body = render_explanation(
                    draft,
                    closed,
                    missing_reviews,
                    missing_approval,
                    self.config.comment_requests_change,
                    &from_users,
                    ci_failing,
                    missing_desc,
                    blocked,
                    block_label,
                    !outside_grace,
                );
                proof {
                    assert(body@ =~= self.spec_explanation());
                }
                let text = render_status_comment(body);
                actions.post_comment(text);
            }
        }
        proof {
            assert(str_views(actions.post_comment@) =~~= self.spec_comments());
        }

        if draft || closed || inactive {
            proof {
                assert(str_views(actions.add_labels@) =~~= self.spec_label_lists().0);
                assert(str_views(actions.remove_labels@) =~~= self.spec_label_lists().1);
            }
            return Some(actions);
        }

        let missing_review = missing_reviews || missing_approval;
        let statuses_ok = !ci_failing;
        let ghost lists0: (Seq<Seq<char>>, Seq<Seq<char>>) = (Seq::empty(), Seq::empty());
        proof {
            assert(str_views(actions.add_labels@) =~~= lists0.0);
            assert(str_views(actions.remove_labels@) =~~= lists0.1);
        }
        if let Some(label) = &self.config.reviewed_label {
            actions.set_label(label.as_str(), Presence::should_be_present(!missing_review));
        }
        let ghost lists1 = label_step(lists0, self.config.reviewed_label, !self.spec_missing_review());
        proof {
            assert(str_views(actions.add_labels@) == lists1.0);
            assert(str_views(actions.remove_labels@) == lists1.1);
        }
        if let Some(label) = &self.config.ci_passed_label {
            actions.set_label(label.as_str(), Presence::should_be_present(statuses_ok));
        }
        let ghost lists2 = label_step(lists1, self.config.ci_passed_label, !self.spec_ci_failing());
        proof {
            assert(str_views(actions.add_labels@) == lists2.0);
            assert(str_views(actions.remove_labels@) == lists2.1);
        }
        if let Some(label) = &self.config.needs_description_label {
            actions.set_label(label.as_str(), Presence::should_be_present(!self.pr.has_description));
        }
        let ghost lists3 = label_step(
            lists2,
            self.config.needs_description_label,
            !self.pr.has_description,
        );
        proof {
            assert(str_views(actions.add_labels@) == lists3.0);
            assert(str_views(actions.remove_labels@) == lists3.1);
            assert(lists3 == self.spec_label_lists());
        }

        let any = basic_blocked || ci_failing || missing_approval;
        actions.set_merge(!any);
        assert(actions.merge == self.spec_merge());
        Some(actions)
    }
}

/// A draft, closed or inactive pull request gets no label changes and no
/// merge from its pass; with comment reactions off the pass is a complete
/// noop.
pub proof fn lemma_terminal_pass_is_noop(a: Analyzer)
    requires
        a.spec_terminal(),
    ensures
        !a.spec_merge(),
        a.spec_label_lists().0 == Seq::<Seq<char>>::empty(),
        a.spec_label_lists().1 == Seq::<Seq<char>>::empty(),
        !a.config.react_to_comments ==> a.spec_comments() == Seq::<Seq<char>>::empty(),
{
}

/// The pass is a function of the snapshot alone: together with the
/// contract of `required_actions`, which pins every field of the result to
/// these spec functions, two passes over one unchanged snapshot return
/// identical actions.
pub proof fn lemma_required_actions_deterministic(a: Analyzer, b: Analyzer)
    requires
        a == b,
    ensures
        a.spec_merge() == b.spec_merge(),
        a.spec_label_lists() == b.spec_label_lists(),
        a.spec_comments() == b.spec_comments(),
{
}

/// The entries of `wanted` at or after `from` that are missing from
/// `labels`, kept in order.
pub open spec fn spec_labels_to_add(
    labels: Seq<Seq<char>>,
    wanted: Seq<Seq<char>>,
    from: int,
) -> Seq<Seq<char>>
    decreases wanted.len() - from,
    when 0 <= from
{
    if from >= wanted.len() {
        Seq::empty()
    } else if labels.contains(wanted[from]) {
        spec_labels_to_add(labels, wanted, from + 1)
    } else {
        seq![wanted[from]] + spec_labels_to_add(labels, wanted, from + 1)
    }
}

/// The entries of `unwanted` at or after `from` that are present among
/// `labels`, kept in order.
pub open spec fn spec_labels_to_remove(
    labels: Seq<Seq<char>>,
    unwanted: Seq<Seq<char>>,
    from: int,
) -> Seq<Seq<char>>
    decreases unwanted.len() - from,
    when 0 <= from
{
    if from >= unwanted.len() {
        Seq::empty()
    } else if labels.contains(unwanted[from]) {
        seq![unwanted[from]] + spec_labels_to_remove(labels, unwanted, from + 1)
    } else {
        spec_labels_to_remove(labels, unwanted, from + 1)
    }
}

fn labels_to_add_from(labels: &Vec<String>, wanted: &Vec<String>, from: usize) -> (r: Vec<String>)
    requires
        from <= wanted@.len(),
    ensures
        str_views(r@) == spec_labels_to_add(str_views(labels@), str_views(wanted@), from as int),
    decreases wanted@.len() - from,
{
    if from >= wanted.len() {
        let out: Vec<String> = Vec::new();
        proof {
            assert(str_views(out@) =~~= spec_labels_to_add(
                str_views(labels@),
                str_views(wanted@),
                from as int,
            ));
        }
        out
    } else if vec_contains_string(labels, &wanted[from]) {
        labels_to_add_from(labels, wanted, from + 1)
    } else {
        let mut rest = labels_to_add_from(labels, wanted, from + 1);
        let mut out: Vec<String> = Vec::new();
        out.push(wanted[from].clone());
        out.append(&mut rest);
        proof {
            assert(str_views(out@) =~~= spec_labels_to_add(
                str_views(labels@),
                str_views(wanted@),
                from as int,
            ));
        }
        out
    }
}

fn labels_to_remove_from(labels: &Vec<String>, unwanted: &Vec<String>, from: usize) -> (r: Vec<
    String,
>)
    requires
        from <= unwanted@.len(),
    ensures
        str_views(r@) == spec_labels_to_remove(
            str_views(labels@),
            str_views(unwanted@),
            from as int,
        ),
    decreases unwanted@.len() - from,
{
    if from >= unwanted.len() {
        let out: Vec<String> = Vec::new();
        proof {
            assert(str_views(out@) =~~= spec_labels_to_remove(
                str_views(labels@),
                str_views(unwanted@),
                from as int,
            ));
        }
        out
    } else if vec_contains_string(labels, &unwanted[from]) {
        let mut rest = labels_to_remove_from(labels, unwanted, from + 1);
        let mut out: Vec<String> = Vec::new();
        out.push(unwanted[from].clone());
        out.append(&mut rest);
        proof {
            assert(str_views(out@) =~~= spec_labels_to_remove(
                str_views(labels@),
                str_views(unwanted@),
                from as int,
            ));
        }
        out
    } else {
        labels_to_remove_from(labels, unwanted, from + 1)
    }
}

/// The labels a pass wants added that the pull request does not carry yet.
pub fn labels_to_add(labels: &Vec<String>, wanted: &Vec<String>) -> (r: Vec<String>)
    ensures
        str_views(r@) == spec_labels_to_add(str_views(labels@), str_views(wanted@), 0),
{
    labels_to_add_from(labels, wanted, 0)
}

/// The labels a pass wants gone that the pull request actually carries.
pub fn labels_to_remove(labels: &Vec<String>, unwanted: &Vec<String>) -> (r: Vec<String>)
    ensures
        str_views(r@) == spec_labels_to_remove(str_views(labels@), str_views(unwanted@), 0),
{
    labels_to_remove_from(labels, unwanted, 0)
}

} // verus!
