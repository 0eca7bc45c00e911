use vstd::prelude::*;
use crate::creation::{
    options_valid, texts, trim_of, trim_options, validate_trimmed_options, CreatePollRequest,
};
use crate::error::{AppError, AppResult, ErrorKind};
use crate::ledger::{
    has_vote, keyed, keys_unique, lemma_tally_absent, lemma_tally_positive, lemma_tally_push,
    lemma_tally_update, lemma_tally_without_poll, status_of, tally, vote_index, vote_of,
    without_poll, VoteLedger, VoteStatus,
};
use crate::model::{
    lemma_sum_all_zero, lemma_sum_bounds_each, sum_votes, DeltaOutcome, OptionView, Poll,
    PollOption, PollView, VoteRecord, VoteView,
};

verus! {

/// Relies on chrono's `From<SystemTime> for DateTime<Utc>`, which also
/// takes a clock set before 1970, and on `DateTime::timestamp_millis`: the
/// current time in milliseconds since the Unix epoch. Nothing is promised of
/// its value.
#[verifier::external_body]
fn now_millis() -> (r: i64) {
    chrono::DateTime::<chrono::Utc>::from(std::time::SystemTime::now()).timestamp_millis()
}

/// The authenticated principal of a request, as the identity collaborator
/// hands it over: `sub` is the principal's id.
#[derive(Debug)]
pub struct Claims {
    pub sub: String,
    pub exp: usize,
}

/// The body of a vote or vote-change request.
#[derive(Debug)]
pub struct CastVoteRequest {
    pub option_id: u64,
    pub user_id: String,
}

/// The body of a request that only a poll's creator may make.
#[derive(Debug)]
pub struct CreatorOnly {
    pub user_id: String,
}

/// The polls and the vote ledger, as one value.
pub struct StoreView {
    pub polls: Seq<PollView>,
    pub ledger: Seq<VoteView>,
}

/// The options of a new poll made of the texts `t`.
pub open spec fn fresh_options(t: Seq<Seq<char>>) -> Seq<OptionView> {
    Seq::new(t.len(), |i: int| OptionView { id: i as nat, text: t[i], votes: 0 })
}

/// The trimmed texts of raw option texts.
pub open spec fn trimmed_texts(raw: Seq<String>) -> Seq<Seq<char>> {
    raw.map_values(|s: String| trim_of(s@))
}

impl StoreView {
    /// Each poll keeps its total equal to the sum of its counters and sits
    /// at the position of its id; no two ledger records share a (poll, user)
    /// pair; each record names an existing poll and one of its options; and
    /// each option's counter is the number of records that select it.
    pub open spec fn wf(self) -> bool {
        &&& forall|i: int|
            0 <= i < self.polls.len() ==> (#[trigger] self.polls[i]).wf() && self.polls[i].id == i
        &&& keys_unique(self.ledger)
        &&& forall|k: int|
            0 <= k < self.ledger.len() ==> #[trigger] self.ledger[k].poll < self.polls.len()
                && self.polls[self.ledger[k].poll as int].has_option(self.ledger[k].option as int)
        &&& self.counts_match()
    }

    /// Each option's counter is the number of ledger records that select it.
    pub open spec fn counts_match(self) -> bool {
        forall|p: int, o: int|
            0 <= p < self.polls.len() && 0 <= o < self.polls[p].options.len()
                ==> #[trigger] self.polls[p].options[o].votes == tally(self.ledger, p as nat, o as nat)
    }

    pub open spec fn has_poll(self, p: int) -> bool {
        0 <= p < self.polls.len()
    }

    /// Why casting a vote of user `u` for option `o` of poll `p` fails, if
    /// it does: a missing poll, an option the poll lacks, a closed poll, a
    /// vote the user already holds there, or a counter at its limit.
    pub open spec fn cast_error(self, p: int, u: Seq<char>, o: int) -> Option<ErrorKind> {
        if !self.has_poll(p) {
            Some(ErrorKind::NotFound)
        } else if !self.polls[p].has_option(o) {
            Some(ErrorKind::BadRequest)
        } else if self.polls[p].is_closed {
            Some(ErrorKind::BadRequest)
        } else if has_vote(self.ledger, p as nat, u) {
            Some(ErrorKind::Conflict)
        } else if !self.polls[p].delta_fits(o, 1) {
            Some(ErrorKind::Internal)
        } else {
            None
        }
    }

    /// The store after user `u` cast a vote for option `o` of poll `p` at
    /// time `at`: the option and the total count one more, and the ledger
    /// holds the vote.
    pub open spec fn cast_applied(self, p: int, u: Seq<char>, o: int, at: int) -> StoreView {
        StoreView {
            polls: self.polls.update(p, self.polls[p].with_delta(o, 1)),
            ledger: self.ledger.push(
                VoteView { poll: p as nat, user: u, option: o as nat, created_at: at },
            ),
        }
    }

    /// Why moving the vote of user `u` in poll `p` to option `o` fails, if it
    /// does: no vote of the user in the poll (also where there is no such
    /// poll); then, as for a cast, an option the poll lacks or a closed poll;
    /// or a move to the option already selected.
    pub open spec fn change_error(self, p: int, u: Seq<char>, o: int) -> Option<ErrorKind> {
        if p < 0 || !has_vote(self.ledger, p as nat, u) {
            Some(ErrorKind::BadRequest)
        } else if !self.polls[p].has_option(o) {
            Some(ErrorKind::BadRequest)
        } else if self.polls[p].is_closed {
            Some(ErrorKind::BadRequest)
        } else if vote_of(self.ledger, p as nat, u) == o {
            Some(ErrorKind::Conflict)
        } else {
            None
        }
    }

    /// The store after user `u` moved their vote in poll `p` to option `o`:
    /// the old option counts one less, the new one one more, the total is
    /// kept, and the ledger record names the new option.
    pub open spec fn change_applied(self, p: int, u: Seq<char>, o: int) -> StoreView {
        let i = vote_index(self.ledger, p as nat, u);
        let prev = self.ledger[i].option as int;
        StoreView {
            polls: self.polls.update(p, self.polls[p].with_delta(prev, -1).with_delta(o, 1)),
            ledger: self.ledger.update(i, VoteView { option: o as nat, ..self.ledger[i] }),
        }
    }

    /// Why a close or a reset of poll `p` by principal `c` fails, if it
    /// does: a missing poll, or a caller other than its creator.
    pub open spec fn lifecycle_error(self, p: int, c: Seq<char>) -> Option<ErrorKind> {
        if !self.has_poll(p) {
            Some(ErrorKind::NotFound)
        } else if self.polls[p].creator != c {
            Some(ErrorKind::Forbidden)
        } else {
            None
        }
    }

    /// The store after poll `p` was closed.
    pub open spec fn close_applied(self, p: int) -> StoreView {
        StoreView { polls: self.polls.update(p, self.polls[p].closed()), ..self }
    }

    /// The store after poll `p` was reset: its counters at zero, open again,
    /// and none of its votes left in the ledger.
    pub open spec fn reset_applied(self, p: int) -> StoreView {
        StoreView {
            polls: self.polls.update(p, self.polls[p].cleared()),
            ledger: without_poll(self.ledger, p as nat),
        }
    }

    /// The polls whose creator is `c`, in store order.
    pub open spec fn polls_of(self, c: Seq<char>) -> Seq<PollView> {
        self.polls.filter(|p: PollView| p.creator == c)
    }
}

/// The poll store and the vote ledger.
pub struct VoteStore {
    polls: Vec<Poll>,
    ledger: VoteLedger,
}

impl View for VoteStore {
    type V = StoreView;

    closed spec fn view(&self) -> StoreView {
        StoreView { polls: self.polls@.map_values(|p: Poll| p@), ledger: self.ledger@ }
    }
}

impl VoteStore {
    pub closed spec fn wf(&self) -> bool {
        &&& self@.wf()
        &&& self.ledger.wf()
    }

    /// A store with no polls and no votes.
    pub fn new() -> (r: VoteStore)
        ensures
            r.wf(),
            r@.polls.len() == 0,
            r@.ledger.len() == 0,
    {
        let r = VoteStore { polls: Vec::new(), ledger: VoteLedger::new() };
        proof {
            assert(r@.polls =~= Seq::<PollView>::empty());
        }
        r
    }

    /// Every store that `new` and the operations of this module produce
    /// keeps, between operations, each poll's total equal to the sum of its
    /// option counters and each counter equal to the number of votes that
    /// select it, and never holds two votes of one user in one poll.
    pub proof fn lemma_invariants(&self)
        requires
            self.wf(),
        ensures
            self@.wf(),
            forall|p: int|
                0 <= p < self@.polls.len() ==> (#[trigger] self@.polls[p]).total_votes
                    == sum_votes(self@.polls[p].options),
            forall|p: int, o: int|
                0 <= p < self@.polls.len() && 0 <= o < self@.polls[p].options.len()
                    ==> #[trigger] self@.polls[p].options[o].votes == tally(
                    self@.ledger,
                    p as nat,
                    o as nat,
                ),
            keys_unique(self@.ledger),
    {
        assert forall|p: int| 0 <= p < self@.polls.len() implies (
        #[trigger] self@.polls[p]).total_votes == sum_votes(self@.polls[p].options) by {
            assert(self@.polls[p].wf());
        }
    }

    fn copy_all(&self) -> (r: Vec<Poll>)
        ensures
            r@.map_values(|p: Poll| p@) == self@.polls,
    {
        let mut out: Vec<Poll> = Vec::new();
        let n = self.polls.len();
        for i in 0..n
            invariant
                n == self.polls@.len(),
                out@.len() == i,
                forall|j: int| 0 <= j < i ==> #[trigger] out@[j]@ == self.polls@[j]@,
        {
            out.push(self.polls[i].snapshot());
        }
        assert(out@.map_values(|p: Poll| p@) =~= self@.polls);
        out
    }
}

/// Creates a poll of the trimmed option texts of `payload`, made by
/// `payload.creator_id`, open and with every counter at zero. Fails with a
/// validation error, leaving the store as it was, unless the trimmed texts
/// number at least two, none is empty and no two are equal.
pub fn create_poll(store: &mut VoteStore, payload: CreatePollRequest) -> (r: AppResult<Poll>)
    requires
        old(store).wf(),
    ensures
        final(store).wf(),
        r is Ok <==> options_valid(trimmed_texts(payload.options@)),
        r matches Err(e) ==> e is ValidationError && final(store)@ == old(store)@,
        r matches Ok(p) ==> {
            &&& final(store)@.polls == old(store)@.polls.push(p@)
            &&& final(store)@.ledger == old(store)@.ledger
            &&& p@.id == old(store)@.polls.len()
            &&& p@.question == payload.question@
            &&& p@.creator == payload.creator_id@
            &&& p@.options == fresh_options(trimmed_texts(payload.options@))
            &&& !p@.is_closed
            &&& p@.total_votes == 0
        },
{
    let trimmed = trim_options(&payload.options);
    match validate_trimmed_options(&trimmed) {
        Err(e) => { return Err(e); },
        Ok(()) => {},
    }
    let ghost t = trimmed_texts(payload.options@);
    let mut options: Vec<PollOption> = Vec::new();
    let n = trimmed.len();
    for i in 0..n
        invariant
            n == trimmed@.len(),
            texts(trimmed@) == t,
            options@.len() == i,
            forall|j: int|
                0 <= j < i ==> #[trigger] options@[j]@ == (OptionView {
                    id: j as nat,
                    text: t[j],
                    votes: 0,
                }),
    {
        options.push(PollOption { id: i as u64, text: trimmed[i].clone(), votes: 0 });
    }
    let ghost pre = store@;
    let poll = Poll {
        id: store.polls.len() as u64,
        question: payload.question,
        creator_id: payload.creator_id,
        options,
        is_closed: false,
        created_at: now_millis(),
        total_votes: 0,
    };
    proof {
        assert(poll@.options =~= fresh_options(t));
        lemma_sum_all_zero(poll@.options);
    }
    let result = poll.snapshot();
    store.polls.push(poll);
    proof {
        let post = store@;
        assert(post.polls =~= pre.polls.push(result@));
        let n = pre.polls.len() as int;
        assert forall|q: int, k: int|
            0 <= q < post.polls.len() && 0 <= k < post.polls[q].options.len()
                implies #[trigger] post.polls[q].options[k].votes == tally(
            post.ledger,
            q as nat,
            k as nat,
        ) by {
            if q == n {
                assert forall|j: int| 0 <= j < pre.ledger.len() implies (
                #[trigger] pre.ledger[j]).poll != q as nat by {
                    assert(pre.ledger[j].poll < pre.polls.len());
                }
                lemma_tally_absent(pre.ledger, q as nat, k as nat);
            }
        }
    }
    Ok(result)
}

/// The poll with id `poll_id`; fails with not-found where there is none.
pub fn get_poll(store: &VoteStore, poll_id: u64) -> (r: AppResult<Poll>)
    requires
        store.wf(),
    ensures
        r is Ok <==> store@.has_poll(poll_id as int),
        r matches Ok(p) ==> p@ == store@.polls[poll_id as int],
        r matches Err(e) ==> e is NotFound,
{
    if poll_id >= store.polls.len() as u64 {
        return Err(AppError::NotFound("Poll not found".to_string()));
    }
    Ok(store.polls[poll_id as usize].snapshot())
}

/// Every poll, in store order.
pub fn get_all_polls(store: &VoteStore) -> (r: Vec<Poll>)
    ensures
        r@.map_values(|p: Poll| p@) == store@.polls,
{
    store.copy_all()
}

/// The polls created by the requesting principal, in store order.
pub fn get_polls_by_user(store: &VoteStore, claims: &Claims) -> (r: Vec<Poll>)
    ensures
        r@.map_values(|p: Poll| p@) == store@.polls_of(claims.sub@),
{
    let all = store.copy_all();
    let ghost ps = store@.polls;
    let ghost pred = |p: PollView| p.creator == claims.sub@;
    let mut out: Vec<Poll> = Vec::new();
    let n = all.len();
    for i in 0..n
        invariant
            n == all@.len(),
            all@.map_values(|p: Poll| p@) == ps,
            pred == (|p: PollView| p.creator == claims.sub@),
            out@.map_values(|p: Poll| p@) == ps.subrange(0, i as int).filter(pred),
    {
        proof {
            reveal(Seq::filter);
            assert(ps.subrange(0, i + 1).drop_last() =~= ps.subrange(0, i as int));
            assert(ps.subrange(0, i + 1).last() == all@[i as int]@);
        }
        if all[i].creator_id == claims.sub {
            let ghost before = out@.map_values(|p: Poll| p@);
            out.push(all[i].snapshot());
            proof {
                assert(out@.map_values(|p: Poll| p@) =~= before.push(all@[i as int]@));
            }
        }
    }
    proof {
        assert(ps.subrange(0, n as int) =~= ps);
    }
    out
}

/// Casts the requesting principal's vote for option `payload.option_id` of
/// poll `poll_id`. The ledger insert comes first and decides whether the
/// principal has voted already; the counters move only after it succeeded,
/// and where they cannot, the insert is undone. Returns the poll as it then
/// stands.
pub fn cast_vote(
    store: &mut VoteStore,
    poll_id: u64,
    claims: &Claims,
    payload: &CastVoteRequest,
) -> (r: AppResult<Poll>)
    requires
        old(store).wf(),
    ensures
        final(store).wf(),
        r is Ok <==> old(store)@.cast_error(poll_id as int, claims.sub@, payload.option_id as int)
            is None,
        r matches Err(e) ==> Some(e.spec_kind()) == old(store)@.cast_error(
            poll_id as int,
            claims.sub@,
            payload.option_id as int,
        ) && final(store)@ == old(store)@,
        r matches Ok(p) ==> final(store)@ == old(store)@.cast_applied(
            poll_id as int,
            claims.sub@,
            payload.option_id as int,
            final(store)@.ledger.last().created_at,
        ) && p@ == final(store)@.polls[poll_id as int],
{
    let ghost pre = store@;
    let option_id = payload.option_id;
    if poll_id >= store.polls.len() as u64 {
        return Err(AppError::NotFound("Poll not found".to_string()));
    }
    let pi = poll_id as usize;
    assert(store.polls@[pi as int]@ == pre.polls[pi as int]);
    if option_id >= store.polls[pi].options.len() as u64 {
        return Err(AppError::BadRequest("Invalid option id for this poll".to_string()));
    }
    if store.polls[pi].is_closed {
        return Err(AppError::BadRequest("Poll is closed; voting is not allowed".to_string()));
    }
    let at = now_millis();
    let rec = VoteRecord { poll_id, user_id: claims.sub.clone(), option_id, created_at: at };
    match store.ledger.insert(rec) {
        Err(e) => {
            return Err(e);
        },
        Ok(()) => {},
    }
    let mut updated = store.polls[pi].snapshot();
    let outcome = updated.apply_option_delta(option_id, 1);
    if outcome != DeltaOutcome::Modified {
        store.ledger.remove_last();
        proof {
            assert(store@.ledger =~= pre.ledger);
            assert(store@.polls == pre.polls);
        }
        return Err(AppError::InternalError("Failed to increment vote for option".to_string()));
    }
    store.polls.set(pi, updated);
    proof {
        let post = store@;
        let target = pre.cast_applied(pi as int, claims.sub@, option_id as int, at as int);
        assert(post.polls =~= target.polls);
        assert(post.ledger =~= target.ledger);
        assert forall|k: int| 0 <= k < post.ledger.len() implies #[trigger] post.ledger[k].poll
            < post.polls.len() && post.polls[post.ledger[k].poll as int].has_option(
            post.ledger[k].option as int,
        ) by {
            if k < pre.ledger.len() {
                assert(post.ledger[k] == pre.ledger[k]);
            }
        }
        let v = VoteView {
            poll: pi as nat,
            user: claims.sub@,
            option: option_id as nat,
            created_at: at as int,
        };
        assert forall|q: int, k: int|
            0 <= q < post.polls.len() && 0 <= k < post.polls[q].options.len()
                implies #[trigger] post.polls[q].options[k].votes == tally(
            post.ledger,
            q as nat,
            k as nat,
        ) by {
            lemma_tally_push(pre.ledger, v, q as nat, k as nat);
            assert(pre.polls[q].options[k].votes == tally(pre.ledger, q as nat, k as nat));
        }
    }
    Ok(store.polls[pi].snapshot())
}

/// Moves the requesting principal's vote in poll `poll_id` to option
/// `payload.option_id`. Both counters and the ledger record change
/// together, or nothing changes. Returns the poll as it then stands.
pub fn change_vote(
    store: &mut VoteStore,
    poll_id: u64,
    claims: &Claims,
    payload: &CastVoteRequest,
) -> (r: AppResult<Poll>)
    requires
        old(store).wf(),
    ensures
        final(store).wf(),
        r is Ok <==> old(store)@.change_error(poll_id as int, claims.sub@, payload.option_id as int)
            is None,
        r matches Err(e) ==> Some(e.spec_kind()) == old(store)@.change_error(
            poll_id as int,
            claims.sub@,
            payload.option_id as int,
        ) && final(store)@ == old(store)@,
        r matches Ok(p) ==> final(store)@ == old(store)@.change_applied(
            poll_id as int,
            claims.sub@,
            payload.option_id as int,
        ) && p@ == final(store)@.polls[poll_id as int],
{
    let ghost pre = store@;
    let option_id = payload.option_id;
    let i = match store.ledger.find(poll_id, &claims.sub) {
        None => {
            return Err(AppError::BadRequest("User has not voted yet".to_string()));
        },
        Some(i) => i,
    };
    let n = store.polls.len();
    proof {
        assert(keyed(pre.ledger[i as int], poll_id as nat, claims.sub@));
        assert(pre.ledger[i as int].poll < pre.polls.len());
    }
    let pi = poll_id as usize;
    assert(pi < n && store.polls@[pi as int]@ == pre.polls[pi as int]);
    if option_id >= store.polls[pi].options.len() as u64 {
        return Err(AppError::BadRequest("Invalid option id for this poll".to_string()));
    }
    if store.polls[pi].is_closed {
        return Err(AppError::BadRequest("Poll is closed; voting is not allowed".to_string()));
    }
    let previous = store.ledger.option_at(i);
    if previous == option_id {
        return Err(AppError::Conflict("You already voted for this option".to_string()));
    }
    proof {
        let l = pre.ledger;
        assert(keyed(l[i as int], poll_id as nat, claims.sub@));
        assert(l[i as int].poll < pre.polls.len());
        lemma_tally_positive(l, i as int, poll_id as nat, previous as nat);
        assert(pre.polls[pi as int].options[previous as int].votes == tally(
            l,
            poll_id as nat,
            previous as nat,
        ));
        assert(pre.polls[pi as int].wf());
        lemma_sum_bounds_each(pre.polls[pi as int].options, previous as int);
    }
    let mut updated = store.polls[pi].snapshot();
    if updated.apply_option_delta(previous, -1) != DeltaOutcome::Modified {
        return Err(AppError::InternalError("Failed to move the vote".to_string()));
    }
    if updated.apply_option_delta(option_id, 1) != DeltaOutcome::Modified {
        return Err(AppError::InternalError("Failed to move the vote".to_string()));
    }
    store.polls.set(pi, updated);
    store.ledger.set_option(i, option_id);
    proof {
        let post = store@;
        let target = pre.change_applied(pi as int, claims.sub@, option_id as int);
        assert(post.polls =~= target.polls);
        assert(post.ledger =~= target.ledger);
        assert forall|k: int| 0 <= k < post.ledger.len() implies #[trigger] post.ledger[k].poll
            < post.polls.len() && post.polls[post.ledger[k].poll as int].has_option(
            post.ledger[k].option as int,
        ) by {
            assert(pre.ledger[k].poll < pre.polls.len());
        }
        let old_rec = pre.ledger[i as int];
        let new_rec = VoteView { option: option_id as nat, ..old_rec };
        assert forall|q: int, k: int|
            0 <= q < post.polls.len() && 0 <= k < post.polls[q].options.len()
                implies #[trigger] post.polls[q].options[k].votes == tally(
            post.ledger,
            q as nat,
            k as nat,
        ) by {
            lemma_tally_update(pre.ledger, i as int, new_rec, q as nat, k as nat);
            assert(pre.polls[q].options[k].votes == tally(pre.ledger, q as nat, k as nat));
        }
    }
    Ok(store.polls[pi].snapshot())
}

/// Closes poll `poll_id` to further votes; only its creator may. Closing a
/// closed poll succeeds and changes nothing. Returns the poll as it then
/// stands.
pub fn close_poll(store: &mut VoteStore, poll_id: u64, claims: &Claims) -> (r: AppResult<Poll>)
    requires
        old(store).wf(),
    ensures
        final(store).wf(),
        r is Ok <==> old(store)@.lifecycle_error(poll_id as int, claims.sub@) is None,
        r matches Err(e) ==> Some(e.spec_kind()) == old(store)@.lifecycle_error(
            poll_id as int,
            claims.sub@,
        ) && final(store)@ == old(store)@,
        r matches Ok(p) ==> final(store)@ == old(store)@.close_applied(poll_id as int) && p@
            == final(store)@.polls[poll_id as int],
{
    let ghost pre = store@;
    if poll_id >= store.polls.len() as u64 {
        return Err(AppError::NotFound("The poll id does not exist".to_string()));
    }
    let pi = poll_id as usize;
    assert(store.polls@[pi as int]@ == pre.polls[pi as int]);
    if store.polls[pi].creator_id != claims.sub {
        return Err(
            AppError::Forbidden("Only the creator of the poll is allowed to close it".to_string()),
        );
    }
    let mut updated = store.polls[pi].snapshot();
    updated.is_closed = true;
    store.polls.set(pi, updated);
    proof {
        let post = store@;
        assert(post.polls =~= pre.close_applied(pi as int).polls);
        assert forall|k: int| 0 <= k < post.ledger.len() implies #[trigger] post.ledger[k].poll
            < post.polls.len() && post.polls[post.ledger[k].poll as int].has_option(
            post.ledger[k].option as int,
        ) by {
            assert(pre.ledger[k].poll < pre.polls.len());
        }
    }
    Ok(store.polls[pi].snapshot())
}

/// Resets poll `poll_id`; only its creator may. Every counter of the poll
/// goes to zero, the poll opens again, and every ledger record of the poll
/// goes, in one step; other polls and their records stay as they were.
/// Returns the poll as it then stands.
pub fn reset_poll(store: &mut VoteStore, poll_id: u64, claims: &Claims) -> (r: AppResult<Poll>)
    requires
        old(store).wf(),
    ensures
        final(store).wf(),
        r is Ok <==> old(store)@.lifecycle_error(poll_id as int, claims.sub@) is None,
        r matches Err(e) ==> Some(e.spec_kind()) == old(store)@.lifecycle_error(
            poll_id as int,
            claims.sub@,
        ) && final(store)@ == old(store)@,
        r matches Ok(p) ==> final(store)@ == old(store)@.reset_applied(poll_id as int) && p@
            == final(store)@.polls[poll_id as int],
{
    let ghost pre = store@;
    if poll_id >= store.polls.len() as u64 {
        return Err(AppError::NotFound("The poll id does not exist".to_string()));
    }
    let pi = poll_id as usize;
    assert(store.polls@[pi as int]@ == pre.polls[pi as int]);
    if store.polls[pi].creator_id != claims.sub {
        return Err(
            AppError::Forbidden("Only the creator of the poll is allowed to reset it".to_string()),
        );
    }
    let mut updated = store.polls[pi].snapshot();
    updated.clear();
    store.polls.set(pi, updated);
    store.ledger.purge_poll(poll_id);
    proof {
        broadcast use vstd::seq_lib::group_filter_ensures;

        let post = store@;
        assert(post.polls =~= pre.reset_applied(pi as int).polls);
        assert forall|k: int| 0 <= k < post.ledger.len() implies #[trigger] post.ledger[k].poll
            < post.polls.len() && post.polls[post.ledger[k].poll as int].has_option(
            post.ledger[k].option as int,
        ) by {
            let v = post.ledger[k];
            assert(without_poll(pre.ledger, pi as nat).contains(v));
            pre.ledger.lemma_filter_contains_rev(|v: VoteView| v.poll != pi as nat, v);
            let j = choose|j: int| 0 <= j < pre.ledger.len() && pre.ledger[j] == v;
            assert(pre.ledger[j].poll < pre.polls.len());
        }
        assert forall|q: int, k: int|
            0 <= q < post.polls.len() && 0 <= k < post.polls[q].options.len()
                implies #[trigger] post.polls[q].options[k].votes == tally(
            post.ledger,
            q as nat,
            k as nat,
        ) by {
            lemma_tally_without_poll(pre.ledger, pi as nat, q as nat, k as nat);
            assert(pre.polls[q].options[k].votes == tally(pre.ledger, q as nat, k as nat));
        }
    }
    Ok(store.polls[pi].snapshot())
}

/// Whether the requesting principal has voted in poll `poll_id`, and for
/// which option. Reads the ledger only.
pub fn check_user_vote(store: &VoteStore, poll_id: u64, claims: &Claims) -> (r: VoteStatus)
    requires
        store.wf(),
    ensures
        r == status_of(store@.ledger, poll_id as nat, claims.sub@),
{
    store.ledger.check(poll_id, &claims.sub)
}

} // verus!
