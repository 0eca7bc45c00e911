use vstd::prelude::*;
use crate::coordinator::StoreView;
use crate::error::ErrorKind;
use crate::ledger::{
    has_vote, keyed, keys_unique, lemma_tally_positive, lemma_vote_index_unique, status_of, tally,
    vote_index, vote_of,
};
use crate::model::{lemma_sum_bounds_each, VoteView};

verus! {

/// The records that votes of `users` for option `o` of poll `p`, cast at
/// `times`, add.
pub open spec fn votes_for(p: int, users: Seq<Seq<char>>, times: Seq<int>, o: int) -> Seq<
    VoteView,
> {
    Seq::new(
        users.len(),
        |i: int| VoteView { poll: p as nat, user: users[i], option: o as nat, created_at: times[i] },
    )
}

/// The store after each of `users`, in order, cast a vote for option `o` of
/// poll `p`, the i-th at time `times[i]`.
pub open spec fn cast_all(s: StoreView, p: int, users: Seq<Seq<char>>, times: Seq<int>, o: int) -> StoreView
    decreases users.len(),
{
    if users.len() == 0 {
        s
    } else {
        cast_all(s, p, users.drop_last(), times.drop_last(), o).cast_applied(
            p,
            users.last(),
            o,
            times.last(),
        )
    }
}

/// No user occurs twice.
pub open spec fn distinct(users: Seq<Seq<char>>) -> bool {
    forall|i: int, j: int| 0 <= i < users.len() && 0 <= j < users.len() && i != j ==> users[i]
        != users[j]
}

proof fn lemma_cast_all_shape(s: StoreView, p: int, users: Seq<Seq<char>>, times: Seq<int>, o: int)
    requires
        s.has_poll(p),
        s.polls[p].has_option(o),
        times.len() == users.len(),
        s.polls[p].total_votes + users.len() <= u64::MAX,
    ensures
        ({
            let t = cast_all(s, p, users, times, o);
            &&& t.polls.len() == s.polls.len()
            &&& forall|q: int| 0 <= q < s.polls.len() && q != p ==> t.polls[q] == s.polls[q]
            &&& t.polls[p].options.len() == s.polls[p].options.len()
            &&& t.polls[p].is_closed == s.polls[p].is_closed
            &&& t.polls[p].total_votes == s.polls[p].total_votes + users.len()
            &&& t.polls[p].options[o].votes == s.polls[p].options[o].votes + users.len()
            &&& forall|k: int|
                0 <= k < s.polls[p].options.len() && k != o ==> t.polls[p].options[k]
                    == s.polls[p].options[k]
            &&& t.ledger == s.ledger + votes_for(p, users, times, o)
        }),
    decreases users.len(),
{
    if users.len() > 0 {
        let prev = users.drop_last();
        let prev_t = times.drop_last();
        lemma_cast_all_shape(s, p, prev, prev_t, o);
        let t0 = cast_all(s, p, prev, prev_t, o);
        let t = cast_all(s, p, users, times, o);
        assert(votes_for(p, users, times, o) =~= votes_for(p, prev, prev_t, o).push(
            VoteView { poll: p as nat, user: users.last(), option: o as nat, created_at: times.last() },
        ));
        assert(t.ledger =~= s.ledger + votes_for(p, users, times, o));
        assert forall|k: int|
            0 <= k < s.polls[p].options.len() && k != o implies t.polls[p].options[k]
            == s.polls[p].options[k] by {
            assert(t.polls[p].options[k] == t0.polls[p].options[k]);
        }
    }
}

/// Distinct users who each cast one vote for option `o` of an open poll `p`,
/// none of whom had voted there, all succeed, in whatever order they come and
/// at whatever times: the option's counter and the poll's total rise by
/// exactly their number, the other options keep theirs, and the ledger gains
/// exactly one record for each of them and no other.
pub proof fn lemma_distinct_voters_all_count(
    s: StoreView,
    p: int,
    users: Seq<Seq<char>>,
    times: Seq<int>,
    o: int,
)
    requires
        s.wf(),
        s.has_poll(p),
        s.polls[p].has_option(o),
        !s.polls[p].is_closed,
        distinct(users),
        times.len() == users.len(),
        forall|i: int| 0 <= i < users.len() ==> !has_vote(s.ledger, p as nat, #[trigger] users[i]),
        s.polls[p].total_votes + users.len() <= u64::MAX,
    ensures
        forall|k: int|
            0 <= k < users.len() ==> (#[trigger] cast_all(s, p, users.take(k), times.take(k), o)).cast_error(
                p,
                users[k],
                o,
            ) is None,
        ({
            let t = cast_all(s, p, users, times, o);
            &&& t.polls[p].options[o].votes == s.polls[p].options[o].votes + users.len()
            &&& t.polls[p].total_votes == s.polls[p].total_votes + users.len()
            &&& forall|k: int|
                0 <= k < s.polls[p].options.len() && k != o ==> t.polls[p].options[k]
                    == s.polls[p].options[k]
            &&& forall|q: int| 0 <= q < s.polls.len() && q != p ==> t.polls[q] == s.polls[q]
            &&& t.ledger == s.ledger + votes_for(p, users, times, o)
            &&& forall|i: int|
                0 <= i < users.len() ==> has_vote(t.ledger, p as nat, #[trigger] users[i])
        }),
{
    lemma_cast_all_shape(s, p, users, times, o);
    assert forall|k: int| 0 <= k < users.len() implies (#[trigger] cast_all(
        s,
        p,
        users.take(k),
        times.take(k),
        o,
    )).cast_error(p, users[k], o) is None by {
        let pre = users.take(k);
        let pre_t = times.take(k);
        lemma_cast_all_shape(s, p, pre, pre_t, o);
        let t = cast_all(s, p, pre, pre_t, o);
        lemma_sum_bound(s, p, o);
        if has_vote(t.ledger, p as nat, users[k]) {
            let i = choose|i: int| 0 <= i < t.ledger.len() && keyed(t.ledger[i], p as nat, users[k]);
            if i < s.ledger.len() {
                assert(t.ledger[i] == s.ledger[i]);
            } else {
                let m = i - s.ledger.len();
                assert(t.ledger[i] == votes_for(p, pre, pre_t, o)[m]);
                assert(pre[m] == users[m]);
            }
        }
    }
    let t = cast_all(s, p, users, times, o);
    assert forall|i: int| 0 <= i < users.len() implies has_vote(
        t.ledger,
        p as nat,
        #[trigger] users[i],
    ) by {
        let j = s.ledger.len() + i;
        assert(t.ledger[j] == votes_for(p, users, times, o)[i]);
    }
}

proof fn lemma_sum_bound(s: StoreView, p: int, o: int)
    requires
        s.wf(),
        s.has_poll(p),
        s.polls[p].has_option(o),
    ensures
        s.polls[p].options[o].votes <= s.polls[p].total_votes,
{
    assert(s.polls[p].wf());
    lemma_sum_bounds_each(s.polls[p].options, o);
}

/// After a user's vote for option `o1` of a poll succeeded, a second vote of
/// the same user in that poll, for any of its options, fails with a
/// conflict. So of the two exactly one counts: the poll's total and option
/// `o1` rise by one, every other option keeps its counter, and the ledger
/// holds exactly one record of the user there, for `o1`.
pub proof fn lemma_second_vote_conflicts(
    s: StoreView,
    p: int,
    u: Seq<char>,
    o1: int,
    o2: int,
    at: int,
)
    requires
        s.wf(),
        s.cast_error(p, u, o1) is None,
        s.polls[p].has_option(o2),
    ensures
        ({
            let t = s.cast_applied(p, u, o1, at);
            &&& t.cast_error(p, u, o2) == Some(ErrorKind::Conflict)
            &&& t.polls[p].total_votes == s.polls[p].total_votes + 1
            &&& t.polls[p].options[o1].votes == s.polls[p].options[o1].votes + 1
            &&& forall|k: int|
                0 <= k < s.polls[p].options.len() && k != o1 ==> t.polls[p].options[k]
                    == s.polls[p].options[k]
            &&& keys_unique(t.ledger)
            &&& has_vote(t.ledger, p as nat, u)
            &&& vote_of(t.ledger, p as nat, u) == o1
        }),
{
    let t = s.cast_applied(p, u, o1, at);
    let k = s.ledger.len() as int;
    assert(keyed(t.ledger[k], p as nat, u));
    assert forall|x: int, y: int|
        0 <= x < t.ledger.len() && 0 <= y < t.ledger.len() && x != y implies !keyed(
        #[trigger] t.ledger[x],
        t.ledger[y].poll,
        #[trigger] t.ledger[y].user,
    ) by {
        if x == k {
            assert(t.ledger[y] == s.ledger[y]);
        } else if y == k {
            assert(t.ledger[x] == s.ledger[x]);
        } else {
            assert(!keyed(s.ledger[x], s.ledger[y].poll, s.ledger[y].user));
        }
    }
    lemma_vote_index_unique(t.ledger, p as nat, u, k);
}

/// Moving a vote from option `a` to option `b` takes one from `a`, gives one
/// to `b`, keeps the total and every other option, and points the user's
/// ledger record at `b`, all in one transition.
pub proof fn lemma_change_moves_one_vote(s: StoreView, p: int, u: Seq<char>, b: int)
    requires
        s.wf(),
        s.change_error(p, u, b) is None,
    ensures
        ({
            let a = vote_of(s.ledger, p as nat, u) as int;
            let t = s.change_applied(p, u, b);
            &&& a != b
            &&& t.polls[p].options[a].votes + 1 == s.polls[p].options[a].votes
            &&& t.polls[p].options[b].votes == s.polls[p].options[b].votes + 1
            &&& t.polls[p].total_votes == s.polls[p].total_votes
            &&& forall|k: int|
                0 <= k < s.polls[p].options.len() && k != a && k != b ==> t.polls[p].options[k]
                    == s.polls[p].options[k]
            &&& has_vote(t.ledger, p as nat, u)
            &&& vote_of(t.ledger, p as nat, u) == b
        }),
{
    let i = vote_index(s.ledger, p as nat, u);
    let t = s.change_applied(p, u, b);
    let a = s.ledger[i].option as int;
    assert(s.ledger[i].poll < s.polls.len());
    assert(s.polls[p].has_option(a));
    lemma_sum_bound(s, p, a);
    lemma_tally_positive(s.ledger, i, p as nat, a as nat);
    assert(s.polls[p].options[a].votes == tally(s.ledger, p as nat, a as nat));
    let mid = s.polls[p].with_delta(a, -1);
    assert(mid.options[b] == s.polls[p].options[b]);
    assert(t.polls[p].options[a] == mid.options[a]);
    assert(keyed(t.ledger[i], p as nat, u));
    assert(keys_unique(t.ledger)) by {
        assert forall|x: int, y: int|
            0 <= x < t.ledger.len() && 0 <= y < t.ledger.len() && x != y implies !keyed(
            #[trigger] t.ledger[x],
            t.ledger[y].poll,
            #[trigger] t.ledger[y].user,
        ) by {
            assert(!keyed(s.ledger[x], s.ledger[y].poll, s.ledger[y].user));
        }
    }
    lemma_vote_index_unique(t.ledger, p as nat, u, i);
}

/// On a closed poll both a vote and a change of vote fail.
pub proof fn lemma_closed_poll_rejects_votes(s: StoreView, p: int, u: Seq<char>, o: int)
    requires
        s.has_poll(p),
        s.polls[p].is_closed,
    ensures
        s.cast_error(p, u, o) is Some,
        s.change_error(p, u, o) is Some,
{
}

/// After a reset of poll `p`, each of its options counts zero, its total is
/// zero, it is open, and no user is recorded as having voted in it; any
/// other poll `q`, and what a check reports of it for any user, are as
/// before.
pub proof fn lemma_reset_clears_only_its_poll(s: StoreView, p: int, q: int, u: Seq<char>)
    requires
        s.wf(),
        s.has_poll(p),
    ensures
        ({
            let t = s.reset_applied(p);
            &&& forall|k: int|
                0 <= k < t.polls[p].options.len() ==> #[trigger] t.polls[p].options[k].votes == 0
            &&& t.polls[p].options.len() == s.polls[p].options.len()
            &&& t.polls[p].total_votes == 0
            &&& !t.polls[p].is_closed
            &&& !status_of(t.ledger, p as nat, u).has_voted
            &&& (s.has_poll(q) && q != p ==> t.polls[q] == s.polls[q] && status_of(
                t.ledger,
                q as nat,
                u,
            ) == status_of(s.ledger, q as nat, u))
        }),
{
    broadcast use vstd::seq_lib::group_filter_ensures;

    let t = s.reset_applied(p);
    let pred = |v: VoteView| v.poll != p as nat;
    if has_vote(t.ledger, p as nat, u) {
        let i = choose|i: int| 0 <= i < t.ledger.len() && keyed(t.ledger[i], p as nat, u);
        assert(pred(t.ledger[i]));
    }
    if s.has_poll(q) && q != p {
        if has_vote(s.ledger, q as nat, u) {
            let j = vote_index(s.ledger, q as nat, u);
            assert(pred(s.ledger[j]));
            assert(t.ledger.contains(s.ledger[j]));
            let i = choose|i: int| 0 <= i < t.ledger.len() && t.ledger[i] == s.ledger[j];
            assert(keyed(t.ledger[i], q as nat, u));
        }
        if has_vote(t.ledger, q as nat, u) {
            let i = vote_index(t.ledger, q as nat, u);
            let v = t.ledger[i];
            assert(t.ledger.contains(v));
            s.ledger.lemma_filter_contains_rev(pred, v);
            let j = choose|j: int| 0 <= j < s.ledger.len() && s.ledger[j] == v;
            assert(keyed(s.ledger[j], q as nat, u));
            lemma_vote_index_unique(s.ledger, q as nat, u, j);
        }
    }
}

/// A close or a reset by anyone but the poll's creator fails as forbidden.
pub proof fn lemma_only_creator_manages(s: StoreView, p: int, c: Seq<char>)
    requires
        s.has_poll(p),
        s.polls[p].creator != c,
    ensures
        s.lifecycle_error(p, c) == Some(ErrorKind::Forbidden),
{
}

} // verus!
