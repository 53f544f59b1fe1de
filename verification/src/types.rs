//! The messages that the engine and its host exchange, and their values.

use vstd::prelude::*;

verus! {

/// An authority's identity, as opaque bytes.
pub type Address = Vec<u8>;

/// The content of a proposal, as opaque bytes. The empty string stands for nil.
pub type Target = Vec<u8>;

/// The two voting phases of a round.
#[derive(Clone, Copy, Debug, PartialEq, Eq, Hash, Structural)]
pub enum VoteType {
    Prevote,
    Precommit,
}

/// A vote of one authority for one proposal (or nil) at a height, round and phase.
#[derive(Debug, PartialEq, Eq)]
pub struct Vote {
    pub vote_type: VoteType,
    pub height: usize,
    pub round: usize,
    pub proposal: Target,
    pub voter: Address,
}

/// The mathematical value of a [`Vote`].
pub struct VoteView {
    pub vote_type: VoteType,
    pub height: usize,
    pub round: usize,
    pub proposal: Seq<u8>,
    pub voter: Seq<u8>,
}

impl View for Vote {
    type V = VoteView;

    open spec fn view(&self) -> VoteView {
        VoteView {
            vote_type: self.vote_type,
            height: self.height,
            round: self.round,
            proposal: self.proposal@,
            voter: self.voter@,
        }
    }
}

/// The values of a sequence of votes, in the same order.
pub open spec fn votes_view(votes: Seq<Vote>) -> Seq<VoteView> {
    Seq::new(votes.len(), |i: int| votes[i]@)
}

/// The value of an optional byte string.
pub open spec fn opt_bytes_view(o: Option<Vec<u8>>) -> Option<Seq<u8>> {
    match o {
        Some(b) => Some(b@),
        None => None,
    }
}

/// The values of a list of byte strings, in the same order.
pub open spec fn addresses_view(list: Seq<Vec<u8>>) -> Seq<Seq<u8>> {
    Seq::new(list.len(), |i: int| list[i]@)
}

/// A fresh copy of a byte string.
pub fn copy_bytes(bytes: &Vec<u8>) -> (out: Vec<u8>)
    ensures
        out@ == bytes@,
{
    let mut out: Vec<u8> = Vec::new();
    let mut i: usize = 0;
    while i < bytes.len()
        invariant
            i <= bytes.len(),
            out@ == bytes@.take(i as int),
        decreases bytes.len() - i,
    {
        out.push(bytes[i]);
        assert(bytes@.take(i + 1) =~= bytes@.take(i as int).push(bytes@[i as int]));
        i += 1;
    }
    assert(bytes@.take(bytes.len() as int) =~= bytes@);
    out
}

/// Whether two byte strings hold the same bytes.
pub fn bytes_eq(a: &Vec<u8>, b: &Vec<u8>) -> (same: bool)
    ensures
        same == (a@ == b@),
{
    if a.len() != b.len() {
        return false;
    }
    let mut i: usize = 0;
    while i < a.len()
        invariant
            i <= a.len(),
            a.len() == b.len(),
            forall|j: int| 0 <= j < i ==> a@[j] == b@[j],
        decreases a.len() - i,
    {
        if a[i] != b[i] {
            return false;
        }
        i += 1;
    }
    assert(a@ =~= b@);
    true
}

impl Clone for Vote {
    fn clone(&self) -> (out: Self)
        ensures
            out@ == self@,
    {
        Vote {
            vote_type: self.vote_type,
            height: self.height,
            round: self.round,
            proposal: copy_bytes(&self.proposal),
            voter: copy_bytes(&self.voter),
        }
    }
}

/// A fresh copy of a list of votes.
pub fn copy_votes(votes: &Vec<Vote>) -> (out: Vec<Vote>)
    ensures
        votes_view(out@) == votes_view(votes@),
{
    let mut out: Vec<Vote> = Vec::new();
    let mut i: usize = 0;
    while i < votes.len()
        invariant
            i <= votes.len(),
            out.len() == i,
            forall|j: int| 0 <= j < i ==> out@[j]@ == votes@[j]@,
        decreases votes.len() - i,
    {
        out.push(votes[i].clone());
        i += 1;
    }
    assert(votes_view(out@) =~= votes_view(votes@));
    out
}

/// A candidate proposal that the host supplies for a height.
#[derive(Debug, PartialEq, Eq)]
pub struct Feed {
    pub height: usize,
    pub proposal: Target,
}

/// The mathematical value of a [`Feed`].
pub struct FeedView {
    pub height: usize,
    pub proposal: Seq<u8>,
}

impl View for Feed {
    type V = FeedView;

    open spec fn view(&self) -> FeedView {
        FeedView { height: self.height, proposal: self.proposal@ }
    }
}

/// A proof of lock change: the proposal locked on, the round of the lock and
/// the votes that justify it.
#[derive(Debug, PartialEq, Eq)]
pub struct LockStatus {
    pub proposal: Target,
    pub round: usize,
    pub votes: Vec<Vote>,
}

/// The mathematical value of a [`LockStatus`].
pub struct LockView {
    pub proposal: Seq<u8>,
    pub round: usize,
    pub votes: Seq<VoteView>,
}

impl View for LockStatus {
    type V = LockView;

    open spec fn view(&self) -> LockView {
        LockView { proposal: self.proposal@, round: self.round, votes: votes_view(self.votes@) }
    }
}

/// The value of an optional lock.
pub open spec fn opt_lock_view(o: Option<LockStatus>) -> Option<LockView> {
    match o {
        Some(l) => Some(l@),
        None => None,
    }
}

/// The value of an optional feed.
pub open spec fn opt_feed_view(o: Option<Feed>) -> Option<FeedView> {
    match o {
        Some(f) => Some(f@),
        None => None,
    }
}

/// A proposal for a height and round. `lock_round` and `lock_votes` are
/// present exactly when the proposer holds a proof of lock change.
#[derive(Debug, PartialEq, Eq)]
pub struct Proposal {
    pub height: usize,
    pub round: usize,
    pub content: Target,
    pub lock_round: Option<usize>,
    pub lock_votes: Option<Vec<Vote>>,
    pub proposer: Address,
}

/// The mathematical value of a [`Proposal`].
pub struct ProposalView {
    pub height: usize,
    pub round: usize,
    pub content: Seq<u8>,
    pub lock_round: Option<usize>,
    pub lock_votes: Option<Seq<VoteView>>,
    pub proposer: Seq<u8>,
}

impl ProposalView {
    /// The lock round and the lock votes come together or not at all.
    pub open spec fn wf(self) -> bool {
        self.lock_round.is_some() == self.lock_votes.is_some()
    }
}

impl View for Proposal {
    type V = ProposalView;

    open spec fn view(&self) -> ProposalView {
        ProposalView {
            height: self.height,
            round: self.round,
            content: self.content@,
            lock_round: self.lock_round,
            lock_votes: match self.lock_votes {
                Some(v) => Some(votes_view(v@)),
                None => None,
            },
            proposer: self.proposer@,
        }
    }
}

/// The host's announcement that a height is committed, with the authorities
/// of the next height and, optionally, a new block interval in milliseconds.
#[derive(Debug, PartialEq, Eq)]
pub struct RichStatus {
    pub height: usize,
    pub interval: Option<u64>,
    pub authority_list: Vec<Address>,
}

/// The mathematical value of a [`RichStatus`].
pub struct RichStatusView {
    pub height: usize,
    pub interval: Option<u64>,
    pub authority_list: Seq<Seq<u8>>,
}

impl View for RichStatus {
    type V = RichStatusView;

    open spec fn view(&self) -> RichStatusView {
        RichStatusView {
            height: self.height,
            interval: self.interval,
            authority_list: addresses_view(self.authority_list@),
        }
    }
}

/// The decision of a height: the proposal agreed on and the votes that locked it.
#[derive(Debug, PartialEq, Eq)]
pub struct Commit {
    pub height: usize,
    pub proposal: Target,
    pub lock_votes: Vec<Vote>,
}

/// The mathematical value of a [`Commit`].
pub struct CommitView {
    pub height: usize,
    pub proposal: Seq<u8>,
    pub lock_votes: Seq<VoteView>,
}

impl View for Commit {
    type V = CommitView;

    open spec fn view(&self) -> CommitView {
        CommitView {
            height: self.height,
            proposal: self.proposal@,
            lock_votes: votes_view(self.lock_votes@),
        }
    }
}

/// Every message that the engine takes from or hands to its host.
#[derive(Debug, PartialEq, Eq)]
pub enum BftMsg {
    Proposal(Proposal),
    Vote(Vote),
    Feed(Feed),
    RichStatus(RichStatus),
    Commit(Commit),
}

/// The mathematical value of a [`BftMsg`].
pub enum MsgView {
    Proposal(ProposalView),
    Vote(VoteView),
    Feed(FeedView),
    RichStatus(RichStatusView),
    Commit(CommitView),
}

impl View for BftMsg {
    type V = MsgView;

    open spec fn view(&self) -> MsgView {
        match *self {
            BftMsg::Proposal(p) => MsgView::Proposal(p@),
            BftMsg::Vote(v) => MsgView::Vote(v@),
            BftMsg::Feed(f) => MsgView::Feed(f@),
            BftMsg::RichStatus(s) => MsgView::RichStatus(s@),
            BftMsg::Commit(c) => MsgView::Commit(c@),
        }
    }
}

/// A fresh copy of a list of byte strings.
pub fn copy_addresses(list: &Vec<Vec<u8>>) -> (out: Vec<Vec<u8>>)
    ensures
        addresses_view(out@) == addresses_view(list@),
{
    let mut out: Vec<Vec<u8>> = Vec::new();
    let mut i: usize = 0;
    while i < list.len()
        invariant
            i <= list.len(),
            out.len() == i,
            forall|j: int| 0 <= j < i ==> out@[j]@ == list@[j]@,
        decreases list.len() - i,
    {
        out.push(copy_bytes(&list[i]));
        i += 1;
    }
    assert(addresses_view(out@) =~= addresses_view(list@));
    out
}

impl Clone for Feed {
    fn clone(&self) -> (out: Self)
        ensures
            out@ == self@,
    {
        Feed { height: self.height, proposal: copy_bytes(&self.proposal) }
    }
}

impl Clone for LockStatus {
    fn clone(&self) -> (out: Self)
        ensures
            out@ == self@,
    {
        LockStatus {
            proposal: copy_bytes(&self.proposal),
            round: self.round,
            votes: copy_votes(&self.votes),
        }
    }
}

impl Clone for Proposal {
    fn clone(&self) -> (out: Self)
        ensures
            out@ == self@,
    {
        Proposal {
            height: self.height,
            round: self.round,
            content: copy_bytes(&self.content),
            lock_round: self.lock_round,
            lock_votes: match &self.lock_votes {
                Some(votes) => Some(copy_votes(votes)),
                None => None,
            },
            proposer: copy_bytes(&self.proposer),
        }
    }
}

impl Clone for RichStatus {
    fn clone(&self) -> (out: Self)
        ensures
            out@ == self@,
    {
        RichStatus {
            height: self.height,
            interval: self.interval,
            authority_list: copy_addresses(&self.authority_list),
        }
    }
}

impl Clone for Commit {
    fn clone(&self) -> (out: Self)
        ensures
            out@ == self@,
    {
        Commit {
            height: self.height,
            proposal: copy_bytes(&self.proposal),
            lock_votes: copy_votes(&self.lock_votes),
        }
    }
}

impl Clone for BftMsg {
    fn clone(&self) -> (out: Self)
        ensures
            out@ == self@,
    {
        match self {
            BftMsg::Proposal(p) => BftMsg::Proposal(p.clone()),
            BftMsg::Vote(v) => BftMsg::Vote(v.clone()),
            BftMsg::Feed(f) => BftMsg::Feed(f.clone()),
            BftMsg::RichStatus(s) => BftMsg::RichStatus(s.clone()),
            BftMsg::Commit(c) => BftMsg::Commit(c.clone()),
        }
    }
}

/// The values of a sequence of messages, in the same order.
pub open spec fn msgs_view(msgs: Seq<BftMsg>) -> Seq<MsgView> {
    Seq::new(msgs.len(), |i: int| msgs[i]@)
}

} // verus!
