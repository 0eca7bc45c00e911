use vstd::prelude::*;
use crate::error::AppError;
use crate::model::{VoteRecord, VoteView};

verus! {

/// The record of which option each user currently has selected in each
/// poll. It holds at most one record per (poll, user) pair, and its own
/// insert is where that is decided.
#[derive(Debug)]
pub struct VoteLedger {
    records: Vec<VoteRecord>,
}

/// The answer to "has this user voted in this poll, and for what".
#[derive(Clone, Copy, Debug, PartialEq, Eq, Structural)]
pub struct VoteStatus {
    pub has_voted: bool,
    pub option_id: Option<u64>,
}

/// Record `v` belongs to poll `p` and user `u`.
pub open spec fn keyed(v: VoteView, p: nat, u: Seq<char>) -> bool {
    v.poll == p && v.user == u
}

/// Some record of `l` belongs to poll `p` and user `u`.
pub open spec fn has_vote(l: Seq<VoteView>, p: nat, u: Seq<char>) -> bool {
    exists|i: int| 0 <= i < l.len() && keyed(#[trigger] l[i], p, u)
}

/// No two records of `l` share a (poll, user) pair.
pub open spec fn keys_unique(l: Seq<VoteView>) -> bool {
    forall|i: int, j: int|
        0 <= i < l.len() && 0 <= j < l.len() && i != j ==> !keyed(
            #[trigger] l[i],
            l[j].poll,
            #[trigger] l[j].user,
        )
}

/// The position of the record of poll `p` and user `u`.
pub open spec fn vote_index(l: Seq<VoteView>, p: nat, u: Seq<char>) -> int {
    choose|i: int| 0 <= i < l.len() && keyed(#[trigger] l[i], p, u)
}

/// The option that user `u` has selected in poll `p`.
pub open spec fn vote_of(l: Seq<VoteView>, p: nat, u: Seq<char>) -> nat {
    l[vote_index(l, p, u)].option
}

/// The records of `l` that do not belong to poll `p`, in their order.
pub open spec fn without_poll(l: Seq<VoteView>, p: nat) -> Seq<VoteView> {
    l.filter(|v: VoteView| v.poll != p)
}

/// What a check of poll `p` and user `u` reports of `l`.
pub open spec fn status_of(l: Seq<VoteView>, p: nat, u: Seq<char>) -> VoteStatus {
    if has_vote(l, p, u) {
        VoteStatus { has_voted: true, option_id: Some(vote_of(l, p, u) as u64) }
    } else {
        VoteStatus { has_voted: false, option_id: None }
    }
}

/// One where record `v` selects option `o` of poll `p`, zero otherwise.
pub open spec fn selects(v: VoteView, p: nat, o: nat) -> nat {
    if v.poll == p && v.option == o {
        1
    } else {
        0
    }
}

/// How many records of `l` select option `o` of poll `p`.
pub open spec fn tally(l: Seq<VoteView>, p: nat, o: nat) -> nat
    decreases l.len(),
{
    if l.len() == 0 {
        0
    } else {
        tally(l.drop_last(), p, o) + selects(l.last(), p, o)
    }
}

pub proof fn lemma_tally_push(l: Seq<VoteView>, v: VoteView, p: nat, o: nat)
    ensures
        tally(l.push(v), p, o) == tally(l, p, o) + selects(v, p, o),
{
    assert(l.push(v).drop_last() =~= l);
}

pub proof fn lemma_tally_update(l: Seq<VoteView>, i: int, v: VoteView, p: nat, o: nat)
    requires
        0 <= i < l.len(),
    ensures
        tally(l.update(i, v), p, o) + selects(l[i], p, o) == tally(l, p, o) + selects(v, p, o),
    decreases l.len(),
{
    let u = l.update(i, v);
    if i == l.len() - 1 {
        assert(u.drop_last() =~= l.drop_last());
    } else {
        assert(u.drop_last() =~= l.drop_last().update(i, v));
        lemma_tally_update(l.drop_last(), i, v, p, o);
    }
}

/// A record that selects option `o` of poll `p` makes the tally positive.
pub proof fn lemma_tally_positive(l: Seq<VoteView>, i: int, p: nat, o: nat)
    requires
        0 <= i < l.len(),
        l[i].poll == p,
        l[i].option == o,
    ensures
        tally(l, p, o) >= 1,
    decreases l.len(),
{
    if i < l.len() - 1 {
        lemma_tally_positive(l.drop_last(), i, p, o);
    }
}

/// Where no record names poll `p`, nothing is tallied for it.
pub proof fn lemma_tally_absent(l: Seq<VoteView>, p: nat, o: nat)
    requires
        forall|k: int| 0 <= k < l.len() ==> (#[trigger] l[k]).poll != p,
    ensures
        tally(l, p, o) == 0,
    decreases l.len(),
{
    if l.len() > 0 {
        assert(l.last() == l[l.len() - 1]);
        lemma_tally_absent(l.drop_last(), p, o);
    }
}

/// Dropping the records of poll `p` zeroes its tallies and keeps those of
/// every other poll.
pub proof fn lemma_tally_without_poll(l: Seq<VoteView>, p: nat, q: nat, o: nat)
    ensures
        tally(without_poll(l, p), q, o) == if q == p {
            0
        } else {
            tally(l, q, o)
        },
    decreases l.len(),
{
    reveal(Seq::filter);
    if l.len() > 0 {
        lemma_tally_without_poll(l.drop_last(), p, q, o);
        let f = without_poll(l.drop_last(), p);
        if l.last().poll != p {
            lemma_tally_push(f, l.last(), q, o);
        }
    }
}

/// In a ledger without repeated keys, a record with the key is the one
/// that `vote_index` names.
pub proof fn lemma_vote_index_unique(l: Seq<VoteView>, p: nat, u: Seq<char>, i: int)
    requires
        keys_unique(l),
        0 <= i < l.len(),
        keyed(l[i], p, u),
    ensures
        vote_index(l, p, u) == i,
{
    let k = vote_index(l, p, u);
    assert(0 <= k < l.len() && keyed(l[k], p, u));
    if k != i {
        assert(!keyed(l[k], l[i].poll, l[i].user));
    }
}

impl VoteRecord {
    /// A copy of this record.
    pub fn duplicate(&self) -> (r: VoteRecord)
        ensures
            r@ == self@,
    {
        VoteRecord {
            poll_id: self.poll_id,
            user_id: self.user_id.clone(),
            option_id: self.option_id,
            created_at: self.created_at,
        }
    }
}

impl View for VoteLedger {
    type V = Seq<VoteView>;

    closed spec fn view(&self) -> Seq<VoteView> {
        self.records@.map_values(|r: VoteRecord| r@)
    }
}

impl VoteLedger {
    pub open spec fn wf(&self) -> bool {
        keys_unique(self@)
    }

    pub fn new() -> (r: VoteLedger)
        ensures
            r@ == Seq::<VoteView>::empty(),
            r.wf(),
    {
        VoteLedger { records: Vec::new() }
    }

    /// The position of the record of poll `poll_id` and user `user_id`.
    pub fn find(&self, poll_id: u64, user_id: &String) -> (r: Option<usize>)
        requires
            self.wf(),
        ensures
            r is None <==> !has_vote(self@, poll_id as nat, user_id@),
            r matches Some(i) ==> i < self@.len() && i == vote_index(
                self@,
                poll_id as nat,
                user_id@,
            ),
    {
        let n = self.records.len();
        for i in 0..n
            invariant
                n == self.records@.len(),
                self.wf(),
                forall|j: int| 0 <= j < i ==> !keyed(#[trigger] self@[j], poll_id as nat, user_id@),
        {
            let rec = &self.records[i];
            if rec.poll_id == poll_id && rec.user_id == *user_id {
                assert(keyed(self@[i as int], poll_id as nat, user_id@));
                proof {
                    lemma_vote_index_unique(self@, poll_id as nat, user_id@, i as int);
                }
                return Some(i);
            }
        }
        None
    }

    /// The option of the record at position `i`.
    pub fn option_at(&self, i: usize) -> (r: u64)
        requires
            i < self@.len(),
        ensures
            r as nat == self@[i as int].option,
    {
        self.records[i].option_id
    }

    /// Whether user `user_id` has voted in poll `poll_id`, and for which
    /// option.
    pub fn check(&self, poll_id: u64, user_id: &String) -> (r: VoteStatus)
        requires
            self.wf(),
        ensures
            r == status_of(self@, poll_id as nat, user_id@),
    {
        match self.find(poll_id, user_id) {
            Some(i) => VoteStatus { has_voted: true, option_id: Some(self.records[i].option_id) },
            None => VoteStatus { has_voted: false, option_id: None },
        }
    }

    /// Adds `rec`, unless a record of the same poll and user is present:
    /// then the ledger is left as it was and the insert fails with a
    /// conflict.
    pub fn insert(&mut self, rec: VoteRecord) -> (r: Result<(), AppError>)
        requires
            old(self).wf(),
        ensures
            final(self).wf(),
            r is Ok <==> !has_vote(old(self)@, rec@.poll, rec@.user),
            r is Ok ==> final(self)@ == old(self)@.push(rec@),
            r matches Err(e) ==> e is Conflict && final(self)@ == old(self)@,
    {
        match self.find(rec.poll_id, &rec.user_id) {
            Some(_) => Err(
                AppError::Conflict("You have already voted in this poll".to_string()),
            ),
            None => {
                let ghost pre = self@;
                self.records.push(rec);
                proof {
                    assert(self@ =~= pre.push(rec@));
                    assert forall|i: int, j: int|
                        0 <= i < self@.len() && 0 <= j < self@.len() && i != j implies !keyed(
                        #[trigger] self@[i],
                        self@[j].poll,
                        #[trigger] self@[j].user,
                    ) by {
                        if i == pre.len() as int {
                            assert(self@[j] == pre[j]);
                        } else if j == pre.len() as int {
                            assert(self@[i] == pre[i]);
                        }
                    }
                }
                Ok(())
            },
        }
    }

    /// Removes the record added last.
    pub fn remove_last(&mut self)
        requires
            old(self).wf(),
            old(self)@.len() > 0,
        ensures
            final(self).wf(),
            final(self)@ == old(self)@.drop_last(),
    {
        let ghost pre = self@;
        let _ = self.records.pop();
        proof {
            assert(self@ =~= pre.drop_last());
        }
    }

    /// Points the record at position `i` to option `option_id`.
    pub fn set_option(&mut self, i: usize, option_id: u64)
        requires
            old(self).wf(),
            i < old(self)@.len(),
        ensures
            final(self).wf(),
            final(self)@ == old(self)@.update(
                i as int,
                VoteView { option: option_id as nat, ..old(self)@[i as int] },
            ),
    {
        let ghost pre = self@;
        let old_rec = &self.records[i];
        let rec = VoteRecord {
            poll_id: old_rec.poll_id,
            user_id: old_rec.user_id.clone(),
            option_id,
            created_at: old_rec.created_at,
        };
        self.records.set(i, rec);
        proof {
            assert(self@ =~= pre.update(
                i as int,
                VoteView { option: option_id as nat, ..pre[i as int] },
            ));
            assert forall|a: int, b: int|
                0 <= a < self@.len() && 0 <= b < self@.len() && a != b implies !keyed(
                #[trigger] self@[a],
                self@[b].poll,
                #[trigger] self@[b].user,
            ) by {
                assert(!keyed(pre[a], pre[b].poll, pre[b].user));
            }
        }
    }

    /// Removes every record of poll `poll_id`, keeping the others in order.
    pub fn purge_poll(&mut self, poll_id: u64)
        requires
            old(self).wf(),
        ensures
            final(self).wf(),
            final(self)@ == without_poll(old(self)@, poll_id as nat),
    {
        let ghost pre = self@;
        let ghost pred = |v: VoteView| v.poll != poll_id as nat;
        let mut kept: Vec<VoteRecord> = Vec::new();
        let ghost mut src: Seq<int> = Seq::empty();
        let n = self.records.len();
        for i in 0..n
            invariant
                n == self.records@.len(),
                pre == self@,
                keys_unique(pre),
                pred == (|v: VoteView| v.poll != poll_id as nat),
                kept@.map_values(|r: VoteRecord| r@) == pre.subrange(0, i as int).filter(pred),
                src.len() == kept@.len(),
                forall|k: int|
                    0 <= k < src.len() ==> 0 <= #[trigger] src[k] < i && pre[src[k]]
                        == kept@[k]@,
                forall|a: int, b: int| 0 <= a < b < src.len() ==> src[a] < src[b],
        {
            let ghost before = kept@.map_values(|r: VoteRecord| r@);
            proof {
                reveal(Seq::filter);
                assert(pre.subrange(0, i + 1).drop_last() =~= pre.subrange(0, i as int));
                assert(pre.subrange(0, i + 1).last() == pre[i as int]);
            }
            if self.records[i].poll_id != poll_id {
                kept.push(self.records[i].duplicate());
                proof {
                    src = src.push(i as int);
                    let after = kept@.map_values(|r: VoteRecord| r@);
                    assert(after =~= before.push(pre[i as int]));
                }
            }
        }
        proof {
            let fin = kept@.map_values(|r: VoteRecord| r@);
            assert forall|a: int, b: int|
                0 <= a < fin.len() && 0 <= b < fin.len() && a != b implies !keyed(
                #[trigger] fin[a],
                fin[b].poll,
                #[trigger] fin[b].user,
            ) by {
                assert(fin[a] == pre[src[a]]);
                assert(fin[b] == pre[src[b]]);
                assert(src[a] != src[b]);
            }
        }
        proof {
            assert(pre.subrange(0, n as int) =~= pre);
        }
        self.records = kept;
        proof {
            assert(self@ == without_poll(pre, poll_id as nat));
        }
    }
}

} // verus!
