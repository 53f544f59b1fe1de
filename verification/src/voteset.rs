//! The votes that the engine has accepted: how they are stored, picked out
//! and counted, and what holds of the counts.

use vstd::prelude::*;
use crate::types::{bytes_eq, votes_view, Target, Vote, VoteType, VoteView};

verus! {

/// Whether `count` votes are more than two thirds of `total` authorities.
pub open spec fn above_threshold(total: int, count: int) -> bool {
    3 * count > 2 * total
}

/// Whether a vote belongs to the given height, round and phase.
pub open spec fn in_slot(v: VoteView, height: usize, round: usize, vote_type: VoteType) -> bool {
    v.height == height && v.round == round && v.vote_type == vote_type
}

/// Whether two votes come from the same voter at the same height, round and phase.
pub open spec fn same_ballot(a: VoteView, b: VoteView) -> bool {
    a.height == b.height && a.round == b.round && a.vote_type == b.vote_type && a.voter
        == b.voter
}

/// Whether some vote of `votes` shares its ballot with `v`.
pub open spec fn has_ballot(votes: Seq<VoteView>, v: VoteView) -> bool {
    exists|i: int| 0 <= i < votes.len() && same_ballot(#[trigger] votes[i], v)
}

/// The votes among the first `k` of `votes` that belong to a height, round and
/// phase, in arrival order.
pub open spec fn select_upto(
    votes: Seq<VoteView>,
    k: nat,
    height: usize,
    round: usize,
    vote_type: VoteType,
) -> Seq<VoteView>
    decreases k,
{
    if k == 0 {
        Seq::empty()
    } else {
        let rest = select_upto(votes, (k - 1) as nat, height, round, vote_type);
        if in_slot(votes[k - 1], height, round, vote_type) {
            rest.push(votes[k - 1])
        } else {
            rest
        }
    }
}

/// All votes of `votes` that belong to a height, round and phase.
pub open spec fn select(
    votes: Seq<VoteView>,
    height: usize,
    round: usize,
    vote_type: VoteType,
) -> Seq<VoteView> {
    select_upto(votes, votes.len(), height, round, vote_type)
}

/// How many of the first `k` votes are for `proposal`.
pub open spec fn tally_upto(votes: Seq<VoteView>, k: nat, proposal: Seq<u8>) -> nat
    decreases k,
{
    if k == 0 {
        0
    } else {
        tally_upto(votes, (k - 1) as nat, proposal) + if votes[k - 1].proposal == proposal {
            1nat
        } else {
            0nat
        }
    }
}

/// How many votes of `votes` are for `proposal`.
pub open spec fn tally(votes: Seq<VoteView>, proposal: Seq<u8>) -> nat {
    tally_upto(votes, votes.len(), proposal)
}

/// The votes among the first `k` of `votes` that belong to a height, round and
/// phase and are for `proposal`, in arrival order.
pub open spec fn polc_upto(
    votes: Seq<VoteView>,
    k: nat,
    height: usize,
    round: usize,
    vote_type: VoteType,
    proposal: Seq<u8>,
) -> Seq<VoteView>
    decreases k,
{
    if k == 0 {
        Seq::empty()
    } else {
        let rest = polc_upto(votes, (k - 1) as nat, height, round, vote_type, proposal);
        if in_slot(votes[k - 1], height, round, vote_type) && votes[k - 1].proposal == proposal {
            rest.push(votes[k - 1])
        } else {
            rest
        }
    }
}

/// The evidence for `proposal`: every vote for it at a height, round and phase.
pub open spec fn polc(
    votes: Seq<VoteView>,
    height: usize,
    round: usize,
    vote_type: VoteType,
    proposal: Seq<u8>,
) -> Seq<VoteView> {
    polc_upto(votes, votes.len(), height, round, vote_type, proposal)
}

/// The proposal of the earliest vote, from position `from` on, whose proposal
/// has more than two thirds of `total` votes in `votes`.
pub open spec fn first_winner_from(votes: Seq<VoteView>, total: int, from: int) -> Option<Seq<u8>>
    decreases votes.len() - from,
{
    if from < 0 || from >= votes.len() {
        None
    } else if above_threshold(total, tally(votes, votes[from].proposal) as int) {
        Some(votes[from].proposal)
    } else {
        first_winner_from(votes, total, from + 1)
    }
}

/// The first proposal, in arrival order, with more than two thirds of `total` votes.
pub open spec fn first_winner(votes: Seq<VoteView>, total: int) -> Option<Seq<u8>> {
    first_winner_from(votes, total, 0)
}

/// How many of the first `k` entries of `rounds` equal `round`.
pub open spec fn occurrences_upto(rounds: Seq<usize>, k: nat, round: usize) -> nat
    decreases k,
{
    if k == 0 {
        0
    } else {
        occurrences_upto(rounds, (k - 1) as nat, round) + if rounds[k - 1] == round {
            1nat
        } else {
            0nat
        }
    }
}

/// How many entries of `rounds` equal `round`.
pub open spec fn occurrences(rounds: Seq<usize>, round: usize) -> nat {
    occurrences_upto(rounds, rounds.len(), round)
}

/// The votes of one height, round and phase, in arrival order.
#[derive(Debug)]
pub struct VoteSet {
    pub votes: Vec<Vote>,
}

impl View for VoteSet {
    type V = Seq<VoteView>;

    open spec fn view(&self) -> Seq<VoteView> {
        votes_view(self.votes@)
    }
}

impl VoteSet {
    /// The number of votes in the set.
    pub fn count(&self) -> (n: usize)
        ensures
            n == self@.len(),
    {
        self.votes.len()
    }

    /// The number of votes in the set that are for `proposal`.
    pub fn votes_for(&self, proposal: &Target) -> (n: usize)
        ensures
            n == tally(self@, proposal@),
    {
        let mut n: usize = 0;
        let mut i: usize = 0;
        while i < self.votes.len()
            invariant
                i <= self.votes.len(),
                n == tally_upto(self@, i as nat, proposal@),
                n <= i,
            decreases self.votes.len() - i,
        {
            if bytes_eq(&self.votes[i].proposal, proposal) {
                n += 1;
            }
            i += 1;
        }
        n
    }

    /// The first proposal, in arrival order, that more than two thirds of
    /// `total` authorities voted for in this set.
    pub fn first_above(&self, total: usize) -> (winner: Option<Target>)
        ensures
            crate::types::opt_bytes_view(winner) == first_winner(self@, total as int),
    {
        let mut i: usize = 0;
        while i < self.votes.len()
            invariant
                i <= self.votes.len(),
                first_winner(self@, total as int) == first_winner_from(self@, total as int, i as int),
            decreases self.votes.len() - i,
        {
            let n = self.votes_for(&self.votes[i].proposal);
            if (n as u128) * 3 > (total as u128) * 2 {
                return Some(crate::types::copy_bytes(&self.votes[i].proposal));
            }
            i += 1;
        }
        None
    }

    /// The votes of the set at a height, round and phase that are for
    /// `proposal`: the evidence of a lock on it.
    pub fn abstract_polc(
        &self,
        height: usize,
        round: usize,
        vote_type: VoteType,
        proposal: &Target,
    ) -> (out: Vec<Vote>)
        ensures
            votes_view(out@) == polc(self@, height, round, vote_type, proposal@),
    {
        let mut out: Vec<Vote> = Vec::new();
        let mut i: usize = 0;
        while i < self.votes.len()
            invariant
                i <= self.votes.len(),
                votes_view(out@) == polc_upto(
                    self@,
                    i as nat,
                    height,
                    round,
                    vote_type,
                    proposal@,
                ),
            decreases self.votes.len() - i,
        {
            let v = &self.votes[i];
            if v.height == height && v.round == round && v.vote_type == vote_type && bytes_eq(
                &v.proposal,
                proposal,
            ) {
                let ghost before = votes_view(out@);
                out.push(v.clone());
                assert(votes_view(out@) =~= before.push(self@[i as int]));
            }
            i += 1;
        }
        assert(votes_view(out@) =~= polc_upto(self@, self@.len(), height, round, vote_type, proposal@));
        out
    }
}

/// The mathematical value of a [`VoteCollector`].
pub struct CollectorView {
    /// Every accepted vote, in arrival order.
    pub votes: Seq<VoteView>,
    /// The round of every prevote accepted since the counts were last cleared.
    pub prevote_rounds: Seq<usize>,
}

impl CollectorView {
    /// No two accepted votes share a voter, height, round and phase.
    pub open spec fn wf(self) -> bool {
        forall|i: int, j: int|
            0 <= i < j < self.votes.len() ==> !same_ballot(
                #[trigger] self.votes[i],
                #[trigger] self.votes[j],
            )
    }

    /// The collector after `v` is offered, and whether `v` was accepted: a vote
    /// is accepted unless its voter already voted at that height, round and phase.
    pub open spec fn add(self, v: VoteView) -> (CollectorView, bool) {
        if has_ballot(self.votes, v) {
            (self, false)
        } else {
            (
                CollectorView {
                    votes: self.votes.push(v),
                    prevote_rounds: if v.vote_type == VoteType::Prevote {
                        self.prevote_rounds.push(v.round)
                    } else {
                        self.prevote_rounds
                    },
                },
                true,
            )
        }
    }

    /// The number of prevotes counted for `round`.
    pub open spec fn prevote_count(self, round: usize) -> nat {
        occurrences(self.prevote_rounds, round)
    }

    /// The collector with its prevote counts forgotten.
    pub open spec fn clear_prevote_count(self) -> CollectorView {
        CollectorView { votes: self.votes, prevote_rounds: Seq::empty() }
    }

    /// The collector with its stored votes released.
    pub open spec fn release_votes(self) -> CollectorView {
        CollectorView { votes: Seq::empty(), prevote_rounds: self.prevote_rounds }
    }

    /// Whether every stored vote is of `height`.
    pub open spec fn all_at(self, height: usize) -> bool {
        forall|i: int| 0 <= i < self.votes.len() ==> (#[trigger] self.votes[i]).height == height
    }
}

/// Collects the votes that the engine accepted and counts prevotes by round.
#[derive(Debug)]
pub struct VoteCollector {
    pub votes: Vec<Vote>,
    pub prevote_rounds: Vec<usize>,
}

impl View for VoteCollector {
    type V = CollectorView;

    open spec fn view(&self) -> CollectorView {
        CollectorView { votes: votes_view(self.votes@), prevote_rounds: self.prevote_rounds@ }
    }
}

impl VoteCollector {
    /// A collector that holds no vote.
    pub fn new() -> (c: Self)
        ensures
            c@.votes.len() == 0,
            c@.prevote_rounds.len() == 0,
            c@.wf(),
    {
        VoteCollector { votes: Vec::new(), prevote_rounds: Vec::new() }
    }

    /// Offers a vote. It is stored, and `true` returned, unless its voter
    /// already voted at that height, round and phase.
    pub fn add(&mut self, vote: Vote) -> (novel: bool)
        ensures
            final(self)@ == old(self)@.add(vote@).0,
            novel == old(self)@.add(vote@).1,
            old(self)@.wf() ==> final(self)@.wf(),
    {
        let mut i: usize = 0;
        while i < self.votes.len()
            invariant
                i <= self.votes.len(),
                *self == *old(self),
                forall|j: int| 0 <= j < i ==> !same_ballot(#[trigger] self@.votes[j], vote@),
            decreases self.votes.len() - i,
        {
            let v = &self.votes[i];
            if v.height == vote.height && v.round == vote.round && v.vote_type == vote.vote_type
                && bytes_eq(&v.voter, &vote.voter) {
                assert(same_ballot(self@.votes[i as int], vote@));
                return false;
            }
            i += 1;
        }
        if vote.vote_type == VoteType::Prevote {
            self.prevote_rounds.push(vote.round);
        }
        let ghost value = vote@;
        self.votes.push(vote);
        assert(self@.votes =~= old(self)@.votes.push(value));
        true
    }

    /// The votes stored for a height, round and phase, if there are any.
    pub fn get_voteset(&self, height: usize, round: usize, vote_type: VoteType) -> (set: Option<
        VoteSet,
    >)
        ensures
            select(self@.votes, height, round, vote_type).len() == 0 ==> set.is_none(),
            select(self@.votes, height, round, vote_type).len() > 0 ==> set.is_some()
                && set.unwrap()@ == select(self@.votes, height, round, vote_type),
    {
        let mut out: Vec<Vote> = Vec::new();
        let mut i: usize = 0;
        while i < self.votes.len()
            invariant
                i <= self.votes.len(),
                votes_view(out@) == select_upto(self@.votes, i as nat, height, round, vote_type),
            decreases self.votes.len() - i,
        {
            let v = &self.votes[i];
            if v.height == height && v.round == round && v.vote_type == vote_type {
                let ghost before = votes_view(out@);
                out.push(v.clone());
                assert(votes_view(out@) =~= before.push(self@.votes[i as int]));
            }
            i += 1;
        }
        if out.len() == 0 {
            None
        } else {
            Some(VoteSet { votes: out })
        }
    }

    /// The number of prevotes counted for `round`.
    pub fn prevote_count(&self, round: usize) -> (n: usize)
        ensures
            n == self@.prevote_count(round),
    {
        let mut n: usize = 0;
        let mut i: usize = 0;
        while i < self.prevote_rounds.len()
            invariant
                i <= self.prevote_rounds.len(),
                n == occurrences_upto(self.prevote_rounds@, i as nat, round),
                n <= i,
            decreases self.prevote_rounds.len() - i,
        {
            if self.prevote_rounds[i] == round {
                n += 1;
            }
            i += 1;
        }
        n
    }

    /// Forgets the prevote counts; the votes themselves stay.
    pub fn clear_prevote_count(&mut self)
        ensures
            final(self)@ == old(self)@.clear_prevote_count(),
    {
        self.prevote_rounds = Vec::new();
        assert(self@.prevote_rounds =~= Seq::<usize>::empty());
    }

    /// Releases every stored vote; the prevote counts stay.
    pub fn release_votes(&mut self)
        ensures
            final(self)@ == old(self)@.release_votes(),
            final(self)@.wf(),
    {
        self.votes = Vec::new();
        assert(self@.votes =~= Seq::<VoteView>::empty());
    }
}

/// Offering a vote a second time changes nothing and is refused.
pub proof fn lemma_add_idempotent(c: CollectorView, v: VoteView)
    ensures
        c.add(v).0.add(v).0 == c.add(v).0,
        !c.add(v).0.add(v).1,
{
    if !has_ballot(c.votes, v) {
        let after = c.add(v).0;
        assert(same_ballot(after.votes[c.votes.len() as int], v));
    }
}

/// Every vote picked for a height, round and phase belongs there.
pub proof fn lemma_select_members(
    votes: Seq<VoteView>,
    k: nat,
    height: usize,
    round: usize,
    vote_type: VoteType,
)
    requires
        k <= votes.len(),
    ensures
        forall|i: int|
            0 <= i < select_upto(votes, k, height, round, vote_type).len() ==> in_slot(
                #[trigger] select_upto(votes, k, height, round, vote_type)[i],
                height,
                round,
                vote_type,
            ),
    decreases k,
{
    if k > 0 {
        lemma_select_members(votes, (k - 1) as nat, height, round, vote_type);
        let rest = select_upto(votes, (k - 1) as nat, height, round, vote_type);
        let all = select_upto(votes, k, height, round, vote_type);
        assert forall|i: int| 0 <= i < all.len() implies in_slot(
            #[trigger] all[i],
            height,
            round,
            vote_type,
        ) by {
            if i < rest.len() {
                assert(all[i] == rest[i]);
            }
        }
    }
}

/// Every vote in the evidence for a proposal is a vote for that proposal at
/// the height, round and phase asked for.
pub proof fn lemma_polc_members(
    votes: Seq<VoteView>,
    k: nat,
    height: usize,
    round: usize,
    vote_type: VoteType,
    proposal: Seq<u8>,
)
    requires
        k <= votes.len(),
    ensures
        forall|i: int|
            0 <= i < polc_upto(votes, k, height, round, vote_type, proposal).len() ==> {
                let v = #[trigger] polc_upto(votes, k, height, round, vote_type, proposal)[i];
                in_slot(v, height, round, vote_type) && v.proposal == proposal
            },
    decreases k,
{
    if k > 0 {
        lemma_polc_members(votes, (k - 1) as nat, height, round, vote_type, proposal);
        let rest = polc_upto(votes, (k - 1) as nat, height, round, vote_type, proposal);
        let all = polc_upto(votes, k, height, round, vote_type, proposal);
        assert forall|i: int| 0 <= i < all.len() implies in_slot(
            #[trigger] all[i],
            height,
            round,
            vote_type,
        ) && all[i].proposal == proposal by {
            if i < rest.len() {
                assert(all[i] == rest[i]);
            }
        }
    }
}

/// Among votes of one height, round and phase, the evidence for a proposal
/// has as many votes as the proposal's tally.
pub proof fn lemma_polc_len_is_tally(
    votes: Seq<VoteView>,
    k: nat,
    height: usize,
    round: usize,
    vote_type: VoteType,
    proposal: Seq<u8>,
)
    requires
        k <= votes.len(),
        forall|i: int| 0 <= i < votes.len() ==> in_slot(#[trigger] votes[i], height, round, vote_type),
    ensures
        polc_upto(votes, k, height, round, vote_type, proposal).len() == tally_upto(
            votes,
            k,
            proposal,
        ),
    decreases k,
{
    if k > 0 {
        lemma_polc_len_is_tally(votes, (k - 1) as nat, height, round, vote_type, proposal);
    }
}

/// A proposal that wins has votes of more than two thirds of `total`.
pub proof fn lemma_winner_is_above(votes: Seq<VoteView>, total: int, from: int)
    requires
        0 <= from,
    ensures
        first_winner_from(votes, total, from).is_some() ==> above_threshold(
            total,
            tally(votes, first_winner_from(votes, total, from).unwrap()) as int,
        ),
    decreases votes.len() - from,
{
    if from < votes.len() && !above_threshold(total, tally(votes, votes[from].proposal) as int) {
        lemma_winner_is_above(votes, total, from + 1);
    }
}

/// Where no proposal wins, from `from` on, no vote from there on is for a
/// proposal with votes of more than two thirds of `total`.
pub proof fn lemma_no_winner_means_none_above(votes: Seq<VoteView>, total: int, from: int)
    requires
        0 <= from,
    ensures
        first_winner_from(votes, total, from).is_none() ==> forall|i: int|
            from <= i < votes.len() ==> !above_threshold(
                total,
                tally(votes, (#[trigger] votes[i]).proposal) as int,
            ),
    decreases votes.len() - from,
{
    if from < votes.len() {
        lemma_no_winner_means_none_above(votes, total, from + 1);
    }
}

/// The votes for two different proposals are different votes: together the
/// two tallies are at most the number of votes looked at.
pub proof fn lemma_two_tallies_fit(votes: Seq<VoteView>, k: nat, p: Seq<u8>, q: Seq<u8>)
    requires
        p != q,
    ensures
        tally_upto(votes, k, p) + tally_upto(votes, k, q) <= k,
    decreases k,
{
    if k > 0 {
        lemma_two_tallies_fit(votes, (k - 1) as nat, p, q);
    }
}

/// A proposal with a vote in its tally is the proposal of some vote.
pub proof fn lemma_tallied_proposal_occurs(votes: Seq<VoteView>, k: nat, p: Seq<u8>)
    requires
        k <= votes.len(),
        tally_upto(votes, k, p) > 0,
    ensures
        exists|i: int| 0 <= i < k && (#[trigger] votes[i]).proposal == p,
    decreases k,
{
    if votes[k - 1].proposal != p {
        lemma_tallied_proposal_occurs(votes, (k - 1) as nat, p);
    }
}

/// Among at most one vote per authority, a proposal with votes of more than
/// two thirds of the authorities is the only one, so it wins in whatever
/// order the votes came in.
pub proof fn lemma_winner_is_unique(votes: Seq<VoteView>, total: int, p: Seq<u8>)
    requires
        votes.len() <= total,
        above_threshold(total, tally(votes, p) as int),
    ensures
        first_winner(votes, total) == Some(p),
{
    lemma_tallied_proposal_occurs(votes, votes.len(), p);
    lemma_no_winner_means_none_above(votes, total, 0);
    lemma_winner_is_above(votes, total, 0);
    let q = first_winner(votes, total).unwrap();
    if q != p {
        lemma_two_tallies_fit(votes, votes.len(), p, q);
    }
}

/// Every vote picked from a collector is one of its stored votes.
pub proof fn lemma_select_is_stored(
    votes: Seq<VoteView>,
    k: nat,
    height: usize,
    round: usize,
    vote_type: VoteType,
)
    requires
        k <= votes.len(),
    ensures
        forall|i: int|
            0 <= i < select_upto(votes, k, height, round, vote_type).len() ==> exists|m: int|
                0 <= m < k && votes[m] == #[trigger] select_upto(
                    votes,
                    k,
                    height,
                    round,
                    vote_type,
                )[i],
    decreases k,
{
    if k > 0 {
        lemma_select_is_stored(votes, (k - 1) as nat, height, round, vote_type);
        let rest = select_upto(votes, (k - 1) as nat, height, round, vote_type);
        let all = select_upto(votes, k, height, round, vote_type);
        assert forall|i: int| 0 <= i < all.len() implies exists|m: int|
            0 <= m < k && votes[m] == #[trigger] all[i] by {
            if i < rest.len() {
                assert(all[i] == rest[i]);
                let m = choose|m: int| 0 <= m < k - 1 && votes[m] == rest[i];
                assert(votes[m] == all[i]);
            } else {
                assert(votes[k - 1] == all[i]);
            }
        }
    }
}

/// In the votes of one height, round and phase no voter occurs twice.
pub proof fn lemma_vote_set_has_no_voter_twice(
    c: CollectorView,
    k: nat,
    height: usize,
    round: usize,
    vote_type: VoteType,
)
    requires
        c.wf(),
        k <= c.votes.len(),
    ensures
        forall|i: int, j: int|
            0 <= i < j < select_upto(c.votes, k, height, round, vote_type).len()
                ==> (#[trigger] select_upto(c.votes, k, height, round, vote_type)[i]).voter
                != (#[trigger] select_upto(c.votes, k, height, round, vote_type)[j]).voter,
    decreases k,
{
    if k > 0 {
        lemma_vote_set_has_no_voter_twice(c, (k - 1) as nat, height, round, vote_type);
        lemma_select_is_stored(c.votes, (k - 1) as nat, height, round, vote_type);
        lemma_select_members(c.votes, (k - 1) as nat, height, round, vote_type);
        let rest = select_upto(c.votes, (k - 1) as nat, height, round, vote_type);
        let all = select_upto(c.votes, k, height, round, vote_type);
        assert forall|i: int, j: int| 0 <= i < j < all.len() implies (#[trigger] all[i]).voter
            != (#[trigger] all[j]).voter by {
            if j < rest.len() {
                assert(all[i] == rest[i] && all[j] == rest[j]);
            } else {
                assert(all[i] == rest[i]);
                assert(all[j] == c.votes[k - 1]);
                let m = choose|m: int| 0 <= m < k - 1 && c.votes[m] == rest[i];
                assert(!same_ballot(c.votes[m], c.votes[k - 1]));
            }
        }
    }
}

/// The votes picked for a height, round and phase are the stored votes that
/// belong there, in the order in which they came.
pub proof fn lemma_select_is_filter(
    votes: Seq<VoteView>,
    k: nat,
    height: usize,
    round: usize,
    vote_type: VoteType,
)
    requires
        k <= votes.len(),
    ensures
        select_upto(votes, k, height, round, vote_type) == votes.take(k as int).filter(
            |v: VoteView| in_slot(v, height, round, vote_type),
        ),
    decreases k,
{
    let pred = |v: VoteView| in_slot(v, height, round, vote_type);
    if k > 0 {
        lemma_select_is_filter(votes, (k - 1) as nat, height, round, vote_type);
        assert(votes.take(k as int).drop_last() =~= votes.take(k - 1));
        assert(votes.take(k as int).last() == votes[k - 1]);
    }
    reveal_with_fuel(Seq::filter, 2);
}

/// The tally of a proposal is the number of votes for it.
pub proof fn lemma_tally_is_filter_len(votes: Seq<VoteView>, k: nat, proposal: Seq<u8>)
    requires
        k <= votes.len(),
    ensures
        tally_upto(votes, k, proposal) == votes.take(k as int).filter(
            |v: VoteView| v.proposal == proposal,
        ).len(),
    decreases k,
{
    if k > 0 {
        lemma_tally_is_filter_len(votes, (k - 1) as nat, proposal);
        assert(votes.take(k as int).drop_last() =~= votes.take(k - 1));
        assert(votes.take(k as int).last() == votes[k - 1]);
    }
    reveal_with_fuel(Seq::filter, 2);
}

/// How many of the proposals `proposals` equal `p`.
pub open spec fn copies(proposals: Seq<Seq<u8>>, p: Seq<u8>) -> nat
    decreases proposals.len(),
{
    if proposals.len() == 0 {
        0
    } else {
        copies(proposals.drop_last(), p) + if proposals.last() == p {
            1nat
        } else {
            0nat
        }
    }
}

/// The tallies of the proposals `proposals` among the first `k` votes, added up.
pub open spec fn tally_sum(votes: Seq<VoteView>, k: nat, proposals: Seq<Seq<u8>>) -> nat
    decreases proposals.len(),
{
    if proposals.len() == 0 {
        0
    } else {
        tally_sum(votes, k, proposals.drop_last()) + tally_upto(votes, k, proposals.last())
    }
}

/// One more vote adds to the sum of tallies once for every listed copy of its proposal.
pub proof fn lemma_tally_sum_step(votes: Seq<VoteView>, k: nat, proposals: Seq<Seq<u8>>)
    requires
        0 < k <= votes.len(),
    ensures
        tally_sum(votes, k, proposals) == tally_sum(votes, (k - 1) as nat, proposals) + copies(
            proposals,
            votes[k - 1].proposal,
        ),
    decreases proposals.len(),
{
    if proposals.len() > 0 {
        lemma_tally_sum_step(votes, k, proposals.drop_last());
    }
}

/// The tallies of a vote set add up to its count: over any list that names
/// every proposal voted for exactly once, the sum of the tallies is the
/// number of votes.
pub proof fn lemma_tallies_add_up(votes: Seq<VoteView>, k: nat, proposals: Seq<Seq<u8>>)
    requires
        k <= votes.len(),
        forall|i: int| 0 <= i < k ==> copies(proposals, (#[trigger] votes[i]).proposal) == 1,
    ensures
        tally_sum(votes, k, proposals) == k,
    decreases k,
{
    if k > 0 {
        lemma_tallies_add_up(votes, (k - 1) as nat, proposals);
        lemma_tally_sum_step(votes, k, proposals);
    } else {
        lemma_tally_sum_of_nothing(votes, proposals);
    }
}

/// Before any vote every tally is zero, and so is their sum.
pub proof fn lemma_tally_sum_of_nothing(votes: Seq<VoteView>, proposals: Seq<Seq<u8>>)
    ensures
        tally_sum(votes, 0, proposals) == 0,
    decreases proposals.len(),
{
    if proposals.len() > 0 {
        lemma_tally_sum_of_nothing(votes, proposals.drop_last());
    }
}

/// A collector in which no voter is stored twice stays so when a vote is offered.
pub proof fn lemma_add_keeps_wf(c: CollectorView, v: VoteView)
    requires
        c.wf(),
    ensures
        c.add(v).0.wf(),
{
}

} // verus!
