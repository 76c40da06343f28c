//! Folding a chronological review history into one standing opinion per
//! user, and deciding approval from those opinions.

use vstd::prelude::*;
use crate::strutil::str_views;

verus! {

/// State carried by one review event on the platform.
#[derive(Debug, Clone, Copy, PartialEq, Eq, Structural)]
pub enum ReviewState {
    Approved,
    ChangesRequested,
    Commented,
    Pending,
}

/// One review event: who wrote it and what it said.
#[derive(Debug, Clone)]
pub struct Review {
    pub user_name: String,
    pub state: ReviewState,
}

/// The standing opinion retained for a user.
#[derive(Debug, Clone, Copy, PartialEq, Eq, Structural)]
pub enum Status {
    Approved,
    ChangeRequested,
}

/// Whether at least one approval is needed for `approved` to hold.
#[derive(Debug, Clone, Copy, PartialEq, Eq, Structural)]
pub enum Approval {
    Required,
    Optional,
}

/// How a plain comment review is counted.
#[derive(Debug, Clone, Copy, PartialEq, Eq, Structural)]
pub enum CommentEffect {
    RequestsChange,
    Ignore,
}

/// Latest meaningful review state per user, excluding the author.
#[derive(Debug, Clone)]
pub struct Reviews {
    pub review_by_nick: Vec<(String, Status)>,
    pub comment_effect: CommentEffect,
    pub author: String,
}

/// The first entry for `user` in `s`, if any. With unique names it is the
/// only one.
pub open spec fn find_status(s: Seq<(String, Status)>, user: Seq<char>) -> Option<Status>
    decreases s.len(),
{
    if s.len() == 0 {
        None
    } else if s[0].0@ == user {
        Some(s[0].1)
    } else {
        find_status(s.subrange(1, s.len() as int), user)
    }
}

proof fn lemma_find_none(s: Seq<(String, Status)>, user: Seq<char>)
    requires
        forall|i: int| 0 <= i < s.len() ==> s[i].0@ != user,
    ensures
        find_status(s, user) is None,
    decreases s.len(),
{
    if s.len() > 0 {
        lemma_find_none(s.subrange(1, s.len() as int), user);
    }
}

proof fn lemma_find_at(s: Seq<(String, Status)>, user: Seq<char>, i: int)
    requires
        0 <= i < s.len(),
        s[i].0@ == user,
        forall|j: int| 0 <= j < i ==> s[j].0@ != user,
    ensures
        find_status(s, user) == Some(s[i].1),
    decreases s.len(),
{
    if i > 0 {
        lemma_find_at(s.subrange(1, s.len() as int), user, i - 1);
    }
}

proof fn lemma_find_some_exists(s: Seq<(String, Status)>, user: Seq<char>)
    requires
        find_status(s, user) is Some,
    ensures
        exists|i: int|
            0 <= i < s.len() && s[i].0@ == user && s[i].1 == find_status(s, user)->Some_0,
    decreases s.len(),
{
    if s.len() > 0 && s[0].0@ != user {
        lemma_find_some_exists(s.subrange(1, s.len() as int), user);
        let j = choose|j: int|
            0 <= j < s.len() - 1 && s.subrange(1, s.len() as int)[j].0@ == user
                && s.subrange(1, s.len() as int)[j].1 == find_status(s, user)->Some_0;
        assert(s[j + 1].0@ == user && s[j + 1].1 == find_status(s, user)->Some_0);
    }
}

/// The first index carrying an entry for `user`, if any.
pub open spec fn first_named(s: Seq<(String, Status)>, user: Seq<char>) -> Option<int>
    decreases s.len(),
{
    if s.len() == 0 {
        None
    } else if s[0].0@ == user {
        Some(0int)
    } else {
        match first_named(s.subrange(1, s.len() as int), user) {
            Some(i) => Some(i + 1),
            None => None,
        }
    }
}

proof fn lemma_first_named_none(s: Seq<(String, Status)>, user: Seq<char>)
    requires
        forall|i: int| 0 <= i < s.len() ==> s[i].0@ != user,
    ensures
        first_named(s, user) is None,
    decreases s.len(),
{
    if s.len() > 0 {
        lemma_first_named_none(s.subrange(1, s.len() as int), user);
    }
}

proof fn lemma_first_named_at(s: Seq<(String, Status)>, user: Seq<char>, i: int)
    requires
        0 <= i < s.len(),
        s[i].0@ == user,
        forall|j: int| 0 <= j < i ==> s[j].0@ != user,
    ensures
        first_named(s, user) == Some(i),
    decreases s.len(),
{
    if i > 0 {
        lemma_first_named_at(s.subrange(1, s.len() as int), user, i - 1);
    }
}

/// What a single event turns a single event writer's table into.
pub open spec fn step_entries(
    entries: Seq<(String, Status)>,
    author: Seq<char>,
    effect: CommentEffect,
    review: Review,
) -> Seq<(String, Status)> {
    if review.user_name@ == author {
        entries
    } else {
        match meaningful_status(find_status(entries, review.user_name@), review.state, effect) {
            None => entries,
            Some(st) => match first_named(entries, review.user_name@) {
                Some(i) => entries.update(i, (entries[i].0, st)),
                None => entries.push((review.user_name, st)),
            },
        }
    }
}

/// The whole table after a history is folded in submission order: entries
/// appear in the order users first gained one and are overwritten in
/// place.
pub open spec fn table_of_history(
    author: Seq<char>,
    effect: CommentEffect,
    reviews: Seq<Review>,
) -> Seq<(String, Status)>
    decreases reviews.len(),
{
    if reviews.len() == 0 {
        Seq::empty()
    } else {
        step_entries(
            table_of_history(author, effect, reviews.drop_last()),
            author,
            effect,
            reviews.last(),
        )
    }
}

proof fn lemma_first_named_none_inv(s: Seq<(String, Status)>, user: Seq<char>)
    requires
        first_named(s, user) is None,
    ensures
        forall|i: int| 0 <= i < s.len() ==> s[i].0@ != user,
    decreases s.len(),
{
    if s.len() > 0 {
        lemma_first_named_none_inv(s.subrange(1, s.len() as int), user);
        assert forall|i: int| 0 <= i < s.len() implies s[i].0@ != user by {
            if i > 0 {
                assert(s.subrange(1, s.len() as int)[i - 1] == s[i]);
            }
        }
    }
}

proof fn lemma_first_named_some_inv(s: Seq<(String, Status)>, user: Seq<char>)
    requires
        first_named(s, user) is Some,
    ensures
        ({
            let i = first_named(s, user)->Some_0;
            0 <= i < s.len() && s[i].0@ == user && forall|j: int| 0 <= j < i ==> s[j].0@ != user
        }),
    decreases s.len(),
{
    if s.len() > 0 && s[0].0@ != user {
        let sub = s.subrange(1, s.len() as int);
        lemma_first_named_some_inv(sub, user);
        let i = first_named(sub, user)->Some_0;
        assert(s[i + 1] == sub[i]);
        assert forall|j: int| 0 <= j < i + 1 implies s[j].0@ != user by {
            if j > 0 {
                assert(sub[j - 1] == s[j]);
            }
        }
    }
}

/// What a single event turns a user's prior standing opinion into; `None`
/// means the event is not meaningful and the prior opinion stays.
pub open spec fn meaningful_status(
    prior: Option<Status>,
    state: ReviewState,
    effect: CommentEffect,
) -> Option<Status> {
    match state {
        ReviewState::Approved => Some(Status::Approved),
        ReviewState::ChangesRequested => Some(Status::ChangeRequested),
        ReviewState::Commented => if effect == CommentEffect::RequestsChange && prior != Some(
            Status::Approved,
        ) {
            Some(Status::ChangeRequested)
        } else {
            None
        },
        ReviewState::Pending => None,
    }
}

/// The standing opinion `user` holds after the whole history `reviews` is
/// folded in submission order, starting from no opinion. Events by the
/// author of the pull request never count.
pub open spec fn verdict_of_history(
    author: Seq<char>,
    effect: CommentEffect,
    reviews: Seq<Review>,
    user: Seq<char>,
) -> Option<Status>
    decreases reviews.len(),
{
    if reviews.len() == 0 {
        None
    } else {
        let prior = verdict_of_history(author, effect, reviews.drop_last(), user);
        let last = reviews.last();
        if last.user_name@ == user && user != author {
            match meaningful_status(prior, last.state, effect) {
                Some(s) => Some(s),
                None => prior,
            }
        } else {
            prior
        }
    }
}

/// What one recorded event leaves as the event writer's standing opinion.
pub open spec fn spec_record_verdict(r: Reviews, review: Review) -> Option<Status> {
    if review.user_name@ == r.spec_author() {
        r.verdict(review.user_name@)
    } else {
        match meaningful_status(r.verdict(review.user_name@), review.state, r.effect()) {
            Some(s) => Some(s),
            None => r.verdict(review.user_name@),
        }
    }
}

fn find_index(entries: &Vec<(String, Status)>, user: &String) -> (r: Option<usize>)
    ensures
        match r {
            Some(i) => i < entries@.len() && entries@[i as int].0@ == user@ && forall|j: int|
                0 <= j < i ==> entries@[j].0@ != user@,
            None => forall|j: int| 0 <= j < entries@.len() ==> entries@[j].0@ != user@,
        },
{
    let mut i: usize = 0;
    while i < entries.len()
        invariant
            i <= entries@.len(),
            forall|j: int| 0 <= j < i ==> entries@[j].0@ != user@,
        decreases entries@.len() - i,
    {
        if entries[i].0 == *user {
            return Some(i);
        }
        i += 1;
    }
    None
}

impl Reviews {
    /// The entries of the opinion table, in the order they were created.
    pub open spec fn entries(self) -> Seq<(String, Status)> {
        self.review_by_nick@
    }

    /// The pull request author, whose own reviews are ignored.
    pub open spec fn spec_author(self) -> Seq<char> {
        self.author@
    }

    /// How comment reviews are counted.
    pub open spec fn effect(self) -> CommentEffect {
        self.comment_effect
    }

    /// Each user holds at most one entry.
    pub open spec fn wf(self) -> bool {
        forall|i: int, j: int|
            0 <= i < j < self.entries().len() ==> self.entries()[i].0@ != self.entries()[j].0@
    }

    /// The standing opinion recorded for `user`, if any.
    pub open spec fn verdict(self, user: Seq<char>) -> Option<Status> {
        find_status(self.entries(), user)
    }

    /// Whether the table counts as approved under the given policy: any
    /// standing change request vetoes; otherwise one approval suffices, and
    /// none is needed when approval is optional.
    pub open spec fn spec_approved(self, approval_required: Approval) -> bool {
        &&& forall|i: int|
            0 <= i < self.entries().len() ==> self.entries()[i].1 != Status::ChangeRequested
        &&& ((exists|i: int|
            0 <= i < self.entries().len() && self.entries()[i].1 == Status::Approved)
            || approval_required == Approval::Optional)
    }

    pub fn new(author: &str, comment_effect: CommentEffect) -> (r: Reviews)
        ensures
            r.entries().len() == 0,
            r.spec_author() == author@,
            r.effect() == comment_effect,
            r.wf(),
    {
        Reviews { review_by_nick: Vec::new(), author: author.to_owned(), comment_effect }
    }

    /// Check whether all the standing opinions are approving.
    pub fn approved(&self, approval_required: Approval) -> (r: bool)
        ensures
            r == self.spec_approved(approval_required),
    {
        let mut approved = matches!(approval_required, Approval::Optional);
        let mut i: usize = 0;
        while i < self.review_by_nick.len()
            invariant
                i <= self.entries().len(),
                forall|j: int| 0 <= j < i ==> self.entries()[j].1 != Status::ChangeRequested,
                approved == ((exists|j: int|
                    0 <= j < i && self.entries()[j].1 == Status::Approved) || approval_required
                    == Approval::Optional),
            decreases self.entries().len() - i,
        {
            match self.review_by_nick[i].1 {
                Status::Approved => {
                    approved = true;
                    assert(self.entries()[i as int].1 == Status::Approved);
                }
                Status::ChangeRequested => {
                    return false;
                }
            }
            i += 1;
        }
        approved
    }

    /// Record a whole history in submission order.
    pub fn record_reviews(self, reviews: &Vec<Review>) -> (r: Reviews)
        requires
            self.entries().len() == 0,
        ensures
            r.wf(),
            r.spec_author() == self.spec_author(),
            r.effect() == self.effect(),
            r.entries() == table_of_history(self.spec_author(), self.effect(), reviews@),
            forall|u: Seq<char>|
                r.verdict(u) == verdict_of_history(
                    self.spec_author(),
                    self.effect(),
                    reviews@,
                    u,
                ),
    {
        let mut cur = self;
        let mut i: usize = 0;
        proof {
            assert(cur.entries() =~= table_of_history(
                self.spec_author(),
                self.effect(),
                reviews@.take(0),
            ));
        }
        while i < reviews.len()
            invariant
                i <= reviews@.len(),
                cur.wf(),
                cur.spec_author() == self.spec_author(),
                cur.effect() == self.effect(),
                cur.entries() == table_of_history(
                    self.spec_author(),
                    self.effect(),
                    reviews@.take(i as int),
                ),
                forall|u: Seq<char>|
                    cur.verdict(u) == verdict_of_history(
                        self.spec_author(),
                        self.effect(),
                        reviews@.take(i as int),
                        u,
                    ),
            decreases reviews@.len() - i,
        {
            let rv = &reviews[i];
            let event = Review { user_name: rv.user_name.clone(), state: rv.state };
            assert(event == reviews@[i as int]);
            let ghost prev = cur;
            cur.record(event);
            proof {
                let taken = reviews@.take(i + 1);
                assert(taken.drop_last() =~= reviews@.take(i as int));
                assert(taken.last() == reviews@[i as int]);
                assert forall|u: Seq<char>|
                    cur.verdict(u) == verdict_of_history(
                        self.spec_author(),
                        self.effect(),
                        taken,
                        u,
                    ) by {
                    if u != reviews@[i as int].user_name@ {
                        assert(cur.verdict(u) == prev.verdict(u));
                    }
                }
            }
            i += 1;
        }
        proof {
            assert(reviews@.take(reviews@.len() as int) =~= reviews@);
        }
        cur
    }

    /// Record one event. `Approved` and `ChangeRequested` overwrite the
    /// writer's standing opinion; comments count only under the configured
    /// effect and never demote the writer's own earlier approval.
    pub fn record(&mut self, review: Review)
        requires
            old(self).wf(),
        ensures
            final(self).wf(),
            final(self).spec_author() == old(self).spec_author(),
            final(self).effect() == old(self).effect(),
            final(self).verdict(review.user_name@) == spec_record_verdict(*old(self), review),
            final(self).entries() == step_entries(
                old(self).entries(),
                old(self).spec_author(),
                old(self).effect(),
                review,
            ),
            forall|u: Seq<char>|
                u != review.user_name@ ==> final(self).verdict(u) == old(self).verdict(u),
    {
        if review.user_name == self.author {
            return;
        }
        let prior_idx = find_index(&self.review_by_nick, &review.user_name);
        let prior: Option<Status> = match prior_idx {
            Some(i) => Some(self.review_by_nick[i].1),
            None => None,
        };
        proof {
            match prior_idx {
                Some(i) => lemma_find_at(self.entries(), review.user_name@, i as int),
                None => lemma_find_none(self.entries(), review.user_name@),
            }
        }
        assert(prior == old(self).verdict(review.user_name@));

        let status_opt: Option<Status> = match review.state {
            ReviewState::Approved => Some(Status::Approved),
            ReviewState::ChangesRequested => Some(Status::ChangeRequested),
            ReviewState::Commented => {
                if matches!(self.comment_effect, CommentEffect::RequestsChange) {
                    if matches!(prior, Some(Status::Approved)) {
                        // A comment that is newer than the writer's own
                        // approval is not a request for changes.
                        None
                    } else {
                        Some(Status::ChangeRequested)
                    }
                } else {
                    None
                }
            }
            ReviewState::Pending => None,
        };
        assert(status_opt == meaningful_status(prior, review.state, old(self).effect()));

        if let Some(status) = status_opt {
            match prior_idx {
                Some(i) => {
                    let entry = vstd::std_specs::vec::vec_index_mut(&mut self.review_by_nick, i);
                    entry.1 = status;
                    proof {
                        let olds = old(self).entries();
                        let news = self.entries();
                        assert(news =~= olds.update(i as int, (olds[i as int].0, status)));
                        lemma_first_named_at(olds, review.user_name@, i as int);
                        assert forall|x: int| 0 <= x < news.len() implies news[x].0@ == olds[x].0@
                            by {}
                        lemma_find_at(news, review.user_name@, i as int);
                        assert forall|u: Seq<char>| u != review.user_name@ implies find_status(
                            news,
                            u,
                        ) == find_status(olds, u) by {
                            lemma_stable_under_named_update(olds, news, u);
                        }
                    }
                }
                None => {
                    self.review_by_nick.push((review.user_name, status));
                    proof {
                        let olds = old(self).entries();
                        let news = self.entries();
                        let n = olds.len() as int;
                        lemma_first_named_none(olds, review.user_name@);
                        lemma_find_at(news, news[n].0@, n);
                        assert forall|u: Seq<char>| u != news[n].0@ implies find_status(news, u)
                            == find_status(olds, u) by {
                            lemma_stable_under_named_update(olds, news, u);
                        }
                    }
                }
            }
        }
    }
}

/// `find_status` for `u` only depends on the entries whose name is `u`;
/// here `news` keeps every entry of `olds` that is named `u` in place.
proof fn lemma_stable_under_named_update(
    olds: Seq<(String, Status)>,
    news: Seq<(String, Status)>,
    u: Seq<char>,
)
    requires
        news.len() >= olds.len(),
        forall|x: int| 0 <= x < olds.len() ==> (olds[x].0@ == u <==> news[x].0@ == u),
        forall|x: int| 0 <= x < olds.len() && olds[x].0@ == u ==> news[x] == olds[x],
        forall|x: int| olds.len() <= x < news.len() ==> news[x].0@ != u,
    ensures
        find_status(news, u) == find_status(olds, u),
{
    match find_status(olds, u) {
        Some(st) => {
            lemma_find_some_exists(olds, u);
            let i = choose|i: int| 0 <= i < olds.len() && olds[i].0@ == u && olds[i].1 == st;
            let first = least_named(olds, u, i);
            lemma_find_at(olds, u, first);
            lemma_find_at(news, u, first);
        }
        None => {
            assert forall|x: int| 0 <= x < olds.len() implies olds[x].0@ != u by {
                if olds[x].0@ == u {
                    let f = least_named(olds, u, x);
                    lemma_find_at(olds, u, f);
                }
            }
            lemma_find_none(olds, u);
            lemma_find_none(news, u);
        }
    }
}

/// Given some index named `u`, produce the least such index.
proof fn least_named(s: Seq<(String, Status)>, u: Seq<char>, i: int) -> (r: int)
    requires
        0 <= i < s.len(),
        s[i].0@ == u,
    ensures
        0 <= r <= i,
        s[r].0@ == u,
        forall|j: int| 0 <= j < r ==> s[j].0@ != u,
    decreases i,
{
    if exists|j: int| 0 <= j < i && s[j].0@ == u {
        let j = choose|j: int| 0 <= j < i && s[j].0@ == u;
        least_named(s, u, j)
    } else {
        i
    }
}

/// A standing `ChangeRequested` from any user vetoes approval, whatever
/// other users said and whether or not approval is required.
pub proof fn lemma_change_request_vetoes(r: Reviews, user: Seq<char>, approval: Approval)
    requires
        r.wf(),
        r.verdict(user) == Some(Status::ChangeRequested),
    ensures
        !r.spec_approved(approval),
{
    lemma_find_some_exists(r.entries(), user);
}

/// When no user holds a standing `ChangeRequested`, optional approval holds.
pub proof fn lemma_no_change_request_optional_approved(r: Reviews)
    requires
        r.wf(),
        forall|u: Seq<char>| r.verdict(u) != Some(Status::ChangeRequested),
    ensures
        r.spec_approved(Approval::Optional),
{
    assert forall|i: int| 0 <= i < r.entries().len() implies r.entries()[i].1
        != Status::ChangeRequested by {
        let u = r.entries()[i].0@;
        let f = least_named(r.entries(), u, i);
        lemma_find_at(r.entries(), u, f);
        assert(f == i);  // wf: two entries cannot share the name u
        assert(r.verdict(u) != Some(Status::ChangeRequested));
    }
}

/// The table built from a history holds at most one entry per user, and
/// that entry is the user's chronologically-latest meaningful state.
pub proof fn lemma_table_of_history_latest(
    author: Seq<char>,
    effect: CommentEffect,
    reviews: Seq<Review>,
    user: Seq<char>,
)
    ensures
        ({
            let t = table_of_history(author, effect, reviews);
            (forall|i: int, j: int| 0 <= i < j < t.len() ==> t[i].0@ != t[j].0@) && find_status(
                t,
                user,
            ) == verdict_of_history(author, effect, reviews, user)
        }),
    decreases reviews.len(),
{
    let t = table_of_history(author, effect, reviews);
    if reviews.len() == 0 {
    } else {
        let prev = table_of_history(author, effect, reviews.drop_last());
        let last = reviews.last();
        lemma_table_of_history_latest(author, effect, reviews.drop_last(), user);
        lemma_table_of_history_latest(author, effect, reviews.drop_last(), last.user_name@);
        if last.user_name@ != author {
            match meaningful_status(find_status(prev, last.user_name@), last.state, effect) {
                None => {}
                Some(st) => {
                    match first_named(prev, last.user_name@) {
                        Some(i) => {
                            lemma_first_named_some_inv(prev, last.user_name@);
                            assert(t =~= prev.update(i, (prev[i].0, st)));
                            if user == last.user_name@ {
                                lemma_find_at(t, user, i);
                            } else {
                                lemma_stable_under_named_update(prev, t, user);
                            }
                        }
                        None => {
                            lemma_first_named_none_inv(prev, last.user_name@);
                            assert(t == prev.push((last.user_name, st)));
                            if user == last.user_name@ {
                                lemma_find_at(t, user, prev.len() as int);
                            } else {
                                lemma_stable_under_named_update(prev, t, user);
                            }
                        }
                    }
                }
            }
        }
    }
}

/// Approval under a policy, phrased over standing opinions instead of
/// table entries: no standing change request, and (unless approval is
/// optional) at least one standing approval.
pub proof fn lemma_approved_by_verdicts(r: Reviews, required: Approval)
    requires
        r.wf(),
    ensures
        r.spec_approved(required) == ((forall|u: Seq<char>|
            r.verdict(u) != Some(Status::ChangeRequested)) && ((exists|u: Seq<char>|
            r.verdict(u) == Some(Status::Approved)) || required == Approval::Optional)),
{
    let ent = r.entries();
    assert forall|i: int| 0 <= i < ent.len() implies r.verdict(ent[i].0@) == Some(ent[i].1) by {
        let u = ent[i].0@;
        let f = least_named(ent, u, i);
        lemma_find_at(ent, u, f);
        assert(f == i);
    }
    assert forall|u: Seq<char>| r.verdict(u) is Some implies exists|i: int|
        0 <= i < ent.len() && ent[i].0@ == u && ent[i].1 == r.verdict(u)->Some_0 by {
        lemma_find_some_exists(ent, u);
    }
}

/// The users the table is still waiting on, in entry order.
pub open spec fn cr_users_from(entries: Seq<(String, Status)>, from: int) -> Seq<Seq<char>>
    decreases entries.len() - from,
    when 0 <= from
{
    if from >= entries.len() {
        Seq::empty()
    } else if entries[from].1 == Status::ChangeRequested {
        seq![entries[from].0@] + cr_users_from(entries, from + 1)
    } else {
        cr_users_from(entries, from + 1)
    }
}

fn cr_users_exec(entries: &Vec<(String, Status)>, from: usize) -> (r: Vec<String>)
    requires
        from <= entries@.len(),
    ensures
        str_views(r@) == cr_users_from(entries@, from as int),
    decreases entries@.len() - from,
{
    if from >= entries.len() {
        let out: Vec<String> = Vec::new();
        proof {
            assert(str_views(out@) =~~= cr_users_from(entries@, from as int));
        }
        out
    } else if matches!(entries[from].1, Status::ChangeRequested) {
        let rest = cr_users_exec(entries, from + 1);
        let mut out: Vec<String> = Vec::new();
        out.push(entries[from].0.clone());
        let mut rest = rest;
        out.append(&mut rest);
        proof {
            assert(str_views(out@) =~~= cr_users_from(entries@, from as int));
        }
        out
    } else {
        cr_users_exec(entries, from + 1)
    }
}

impl Reviews {
    /// The users whose standing opinion still asks for changes: the ones
    /// an approval is still expected from.
    pub fn missing_approvals_from_users(&self) -> (r: Vec<String>)
        ensures
            str_views(r@) == cr_users_from(self.entries(), 0),
    {
        cr_users_exec(&self.review_by_nick, 0)
    }
}

/// Review events written by the pull request author never change any
/// user's standing opinion.
pub proof fn lemma_self_reviews_ignored(
    author: Seq<char>,
    effect: CommentEffect,
    reviews: Seq<Review>,
    event: Review,
    user: Seq<char>,
)
    requires
        event.user_name@ == author,
    ensures
        verdict_of_history(author, effect, reviews.push(event), user) == verdict_of_history(
            author,
            effect,
            reviews,
            user,
        ),
{
    assert(reviews.push(event).drop_last() =~= reviews);
    assert(reviews.push(event).last() == event);
}

} // verus!
