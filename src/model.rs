use vstd::prelude::*;

verus! {

/// One choice of a poll. Its id is its position among the poll's options.
#[derive(Debug)]
pub struct PollOption {
    pub id: u64,
    pub text: String,
    pub votes: u64,
}

/// A poll: a question, its ordered options with their counters, who made
/// it and whether voting is closed.
#[derive(Debug)]
pub struct Poll {
    pub id: u64,
    pub question: String,
    pub creator_id: String,
    pub options: Vec<PollOption>,
    pub is_closed: bool,
    /// Milliseconds since the Unix epoch.
    pub created_at: i64,
    pub total_votes: u64,
}

/// The entry of the vote ledger that records which option a user has
/// selected in a poll. It is identified by its (poll, user) pair, of which
/// the ledger holds at most one.
#[derive(Debug)]
pub struct VoteRecord {
    pub poll_id: u64,
    pub user_id: String,
    pub option_id: u64,
    /// Milliseconds since the Unix epoch.
    pub created_at: i64,
}

pub struct OptionView {
    pub id: nat,
    pub text: Seq<char>,
    pub votes: nat,
}

pub struct PollView {
    pub id: nat,
    pub question: Seq<char>,
    pub creator: Seq<char>,
    pub options: Seq<OptionView>,
    pub is_closed: bool,
    pub created_at: int,
    pub total_votes: nat,
}

pub struct VoteView {
    pub poll: nat,
    pub user: Seq<char>,
    pub option: nat,
    pub created_at: int,
}

/// What the targeted counter update did.
#[derive(Clone, Copy, Debug, PartialEq, Eq, Structural)]
pub enum DeltaOutcome {
    /// No option with that id exists.
    NoMatch,
    /// The option exists but its counter was left as it was.
    Unmodified,
    /// The option's counter and the poll's total both moved by the delta.
    Modified,
}

impl View for PollOption {
    type V = OptionView;

    open spec fn view(&self) -> OptionView {
        OptionView { id: self.id as nat, text: self.text@, votes: self.votes as nat }
    }
}

impl View for Poll {
    type V = PollView;

    open spec fn view(&self) -> PollView {
        PollView {
            id: self.id as nat,
            question: self.question@,
            creator: self.creator_id@,
            options: self.options@.map_values(|o: PollOption| o@),
            is_closed: self.is_closed,
            created_at: self.created_at as int,
            total_votes: self.total_votes as nat,
        }
    }
}

impl View for VoteRecord {
    type V = VoteView;

    open spec fn view(&self) -> VoteView {
        VoteView {
            poll: self.poll_id as nat,
            user: self.user_id@,
            option: self.option_id as nat,
            created_at: self.created_at as int,
        }
    }
}

/// The sum of the counters of `opts`.
pub open spec fn sum_votes(opts: Seq<OptionView>) -> nat
    decreases opts.len(),
{
    if opts.len() == 0 {
        0
    } else {
        sum_votes(opts.drop_last()) + opts.last().votes
    }
}

/// Every counter of `opts` is zero.
pub open spec fn all_zero(opts: Seq<OptionView>) -> bool {
    forall|i: int| 0 <= i < opts.len() ==> #[trigger] opts[i].votes == 0
}

impl PollView {
    /// The total is the sum of the option counters, and each option's id is
    /// its position.
    pub open spec fn wf(self) -> bool {
        &&& self.total_votes == sum_votes(self.options)
        &&& forall|i: int| 0 <= i < self.options.len() ==> #[trigger] self.options[i].id == i
    }

    pub open spec fn has_option(self, o: int) -> bool {
        0 <= o < self.options.len()
    }

    /// Whether moving option `o` and the total by `d` keeps both counters
    /// within their range.
    pub open spec fn delta_fits(self, o: int, d: int) -> bool {
        &&& self.options[o].votes + d >= 0
        &&& self.total_votes + d <= u64::MAX
    }

    /// This poll with option `o` and the total moved by `d`.
    pub open spec fn with_delta(self, o: int, d: int) -> PollView {
        PollView {
            options: self.options.update(
                o,
                OptionView { votes: (self.options[o].votes + d) as nat, ..self.options[o] },
            ),
            total_votes: (self.total_votes + d) as nat,
            ..self
        }
    }

    /// This poll closed to further votes.
    pub open spec fn closed(self) -> PollView {
        PollView { is_closed: true, ..self }
    }

    /// This poll with every counter at zero and open again.
    pub open spec fn cleared(self) -> PollView {
        PollView {
            options: self.options.map_values(|o: OptionView| OptionView { votes: 0, ..o }),
            total_votes: 0,
            is_closed: false,
            ..self
        }
    }
}

pub proof fn lemma_sum_update(opts: Seq<OptionView>, k: int, v: OptionView)
    requires
        0 <= k < opts.len(),
    ensures
        sum_votes(opts.update(k, v)) + opts[k].votes == sum_votes(opts) + v.votes,
    decreases opts.len(),
{
    let u = opts.update(k, v);
    if k == opts.len() - 1 {
        assert(u.drop_last() =~= opts.drop_last());
    } else {
        assert(u.drop_last() =~= opts.drop_last().update(k, v));
        lemma_sum_update(opts.drop_last(), k, v);
    }
}

pub proof fn lemma_sum_bounds_each(opts: Seq<OptionView>, k: int)
    requires
        0 <= k < opts.len(),
    ensures
        opts[k].votes <= sum_votes(opts),
    decreases opts.len(),
{
    if k < opts.len() - 1 {
        lemma_sum_bounds_each(opts.drop_last(), k);
    }
}

pub proof fn lemma_sum_all_zero(opts: Seq<OptionView>)
    requires
        all_zero(opts),
    ensures
        sum_votes(opts) == 0,
    decreases opts.len(),
{
    if opts.len() > 0 {
        lemma_sum_all_zero(opts.drop_last());
    }
}

impl PollOption {
    /// A copy of this option with its counter set to `votes`.
    pub fn with_votes(&self, votes: u64) -> (r: PollOption)
        ensures
            r@ == (OptionView { votes: votes as nat, ..self@ }),
    {
        PollOption { id: self.id, text: self.text.clone(), votes }
    }
}

impl Poll {
    /// A copy of this poll.
    pub fn snapshot(&self) -> (r: Poll)
        ensures
            r@ == self@,
    {
        let mut options: Vec<PollOption> = Vec::new();
        let n = self.options.len();
        for i in 0..n
            invariant
                n == self.options@.len(),
                options@.len() == i,
                forall|j: int| 0 <= j < i ==> #[trigger] options@[j]@ == self.options@[j]@,
        {
            let o = &self.options[i];
            options.push(o.with_votes(o.votes));
        }
        assert(options@.map_values(|o: PollOption| o@) =~= self.options@.map_values(
            |o: PollOption| o@,
        ));
        Poll {
            id: self.id,
            question: self.question.clone(),
            creator_id: self.creator_id.clone(),
            options,
            is_closed: self.is_closed,
            created_at: self.created_at,
            total_votes: self.total_votes,
        }
    }

    /// Sets every counter to zero and opens the poll again.
    pub fn clear(&mut self)
        requires
            old(self)@.wf(),
        ensures
            final(self)@.wf(),
            final(self)@ == old(self)@.cleared(),
    {
        let ghost pre = self@;
        let n = self.options.len();
        for i in 0..n
            invariant
                n == self.options@.len(),
                n == pre.options.len(),
                self.id == pre.id,
                self.question@ == pre.question,
                self.creator_id@ == pre.creator,
                self.created_at == pre.created_at,
                forall|j: int|
                    0 <= j < n ==> #[trigger] self.options@[j]@ == (if j < i {
                        OptionView { votes: 0, ..pre.options[j] }
                    } else {
                        pre.options[j]
                    }),
        {
            let o = self.options[i].with_votes(0);
            self.options.set(i, o);
        }
        self.total_votes = 0;
        self.is_closed = false;
        proof {
            assert(self@.options =~= pre.cleared().options);
            lemma_sum_all_zero(self@.options);
        }
    }

    /// Moves the counter of option `option_id` and the poll's total by
    /// `delta` in one step. The poll is left as it was where no such option
    /// exists, where `delta` is zero, or where a counter would leave its
    /// range.
    pub fn apply_option_delta(&mut self, option_id: u64, delta: i64) -> (r: DeltaOutcome)
        requires
            old(self)@.wf(),
        ensures
            final(self)@.wf(),
            !old(self)@.has_option(option_id as int) ==> r == DeltaOutcome::NoMatch,
            old(self)@.has_option(option_id as int) && (delta == 0 || !old(self)@.delta_fits(
                option_id as int,
                delta as int,
            )) ==> r == DeltaOutcome::Unmodified,
            r != DeltaOutcome::Modified ==> final(self)@ == old(self)@,
            r == DeltaOutcome::Modified ==> final(self)@ == old(self)@.with_delta(
                option_id as int,
                delta as int,
            ),
            r == DeltaOutcome::Modified <==> old(self)@.has_option(option_id as int) && delta != 0
                && old(self)@.delta_fits(option_id as int, delta as int),
    {
        let ghost pre = self@;
        if option_id as usize >= self.options.len() || option_id >= self.options.len() as u64 {
            return DeltaOutcome::NoMatch;
        }
        let i = option_id as usize;
        if delta == 0 {
            return DeltaOutcome::Unmodified;
        }
        let votes = self.options[i].votes;
        proof {
            lemma_sum_bounds_each(pre.options, i as int);
        }
        let (new_votes, new_total) = if delta > 0 {
            let d = delta as u64;
            if self.total_votes > u64::MAX - d {
                return DeltaOutcome::Unmodified;
            }
            (votes + d, self.total_votes + d)
        } else {
            let d: u64 = if delta == i64::MIN {
                (i64::MAX as u64) + 1
            } else {
                (-delta) as u64
            };
            if votes < d {
                return DeltaOutcome::Unmodified;
            }
            (votes - d, self.total_votes - d)
        };
        let o = self.options[i].with_votes(new_votes);
        self.options.set(i, o);
        self.total_votes = new_total;
        proof {
            let nv = OptionView { votes: new_votes as nat, ..pre.options[i as int] };
            lemma_sum_update(pre.options, i as int, nv);
            assert(self@.options =~= pre.options.update(i as int, nv));
            assert(self@ == pre.with_delta(i as int, delta as int));
        }
        DeltaOutcome::Modified
    }
}

} // verus!
