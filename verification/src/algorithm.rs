//! The engine: its steps, its state, the model of what each message and
//! timeout does to it, and the functions that do it.

use vstd::prelude::*;
use vstd::arithmetic::power2::{lemma2_to64, pow2};
use crate::params::{
    share_of, BftParams, BftTimer, PRECOMMIT_SHARE, PREVOTE_SHARE, PROPOSE_SHARE,
};
use crate::timer::TimeoutInfo;
use crate::types::{
    addresses_view, bytes_eq, copy_bytes, copy_votes, msgs_view, opt_bytes_view, opt_feed_view,
    opt_lock_view, votes_view, Address, BftMsg, Commit, Feed, FeedView, LockStatus, LockView,
    MsgView, Proposal, ProposalView, RichStatus, RichStatusView, Target, Vote, VoteType, VoteView,
    CommitView,
};
use crate::voteset::{
    above_threshold, first_winner, occurrences, polc, select, CollectorView, VoteCollector,
    VoteSet,
};

verus! {

/// The height at which a fresh engine starts.
pub const INIT_HEIGHT: usize = 1;

/// The round at which every height starts.
pub const INIT_ROUND: usize = 0;

/// The largest exponent of the propose timeout's backoff.
pub const PROPOSAL_TIMES_COEF: usize = 10;

/// How many base durations pass before a vote is sent again.
pub const TIMEOUT_RETRANSE_MULTIPLE: u32 = 15;

/// The steps of a round, in the order in which a round passes through them.
#[derive(Debug, PartialEq, Eq, PartialOrd, Ord, Clone, Copy, Hash, Structural)]
pub enum Step {
    Propose,
    ProposeWait,
    Prevote,
    PrevoteWait,
    Precommit,
    PrecommitWait,
    Commit,
    CommitWait,
}

impl Step {
    /// The position of the step in a round, from 0 for `Propose` to 7 for `CommitWait`.
    pub open spec fn rank(self) -> int {
        match self {
            Step::Propose => 0,
            Step::ProposeWait => 1,
            Step::Prevote => 2,
            Step::PrevoteWait => 3,
            Step::Precommit => 4,
            Step::PrecommitWait => 5,
            Step::Commit => 6,
            Step::CommitWait => 7,
        }
    }

    /// The position of the step in a round, as a byte.
    pub fn to_u8(self) -> (b: u8)
        ensures
            b == self.rank(),
    {
        match self {
            Step::Propose => 0,
            Step::ProposeWait => 1,
            Step::Prevote => 2,
            Step::PrevoteWait => 3,
            Step::Precommit => 4,
            Step::PrecommitWait => 5,
            Step::Commit => 6,
            Step::CommitWait => 7,
        }
    }

    /// The step at position `s`. Only 0 to 7 are positions of a step.
    pub fn from(s: u8) -> (step: Step)
        requires
            s <= 7,
        ensures
            step.rank() == s,
    {
        if s == 0 {
            Step::Propose
        } else if s == 1 {
            Step::ProposeWait
        } else if s == 2 {
            Step::Prevote
        } else if s == 3 {
            Step::PrevoteWait
        } else if s == 4 {
            Step::Precommit
        } else if s == 5 {
            Step::PrecommitWait
        } else if s == 6 {
            Step::Commit
        } else {
            Step::CommitWait
        }
    }
}

impl Default for Step {
    fn default() -> (step: Step)
        ensures
            step == Step::Propose,
    {
        Step::Propose
    }
}

/// The mathematical value of the engine: its state, and everything it has
/// handed out and that nobody has taken yet.
pub struct BftView {
    pub height: usize,
    pub round: usize,
    pub step: Step,
    pub feed: Option<FeedView>,
    pub proposal: Option<Seq<u8>>,
    pub votes: CollectorView,
    pub lock_status: Option<LockView>,
    pub last_commit_round: Option<usize>,
    pub last_commit_proposal: Option<Seq<u8>>,
    pub authority_list: Seq<Seq<u8>>,
    pub timer: BftTimer,
    pub address: Seq<u8>,
    pub outbox: Seq<MsgView>,
    pub timers: Seq<TimeoutInfo>,
}

/// The highest round, among the first `k` counted prevotes, that is at least
/// `round` and has prevotes of more than two thirds of `total` authorities;
/// `round` itself, with `false`, where there is none.
pub open spec fn catch_up_upto(rounds: Seq<usize>, k: nat, total: int, round: usize) -> (
    bool,
    usize,
)
    decreases k,
{
    if k == 0 {
        (false, round)
    } else {
        let (found, best) = catch_up_upto(rounds, (k - 1) as nat, total, round);
        let r = rounds[k - 1];
        if above_threshold(total, occurrences(rounds, r) as int) && r >= best {
            (true, r)
        } else {
            (found, best)
        }
    }
}

/// The round that a replica at `round` catches up to, and whether there is one.
pub open spec fn catch_up(rounds: Seq<usize>, total: int, round: usize) -> (bool, usize) {
    catch_up_upto(rounds, rounds.len(), total, round)
}

impl BftView {
    /// The engine's invariant: heights start at 1, the last commit's round and
    /// proposal are kept together, no voter is stored twice, and every stored
    /// vote is of the current height.
    pub open spec fn wf(self) -> bool {
        &&& self.height >= 1
        &&& self.last_commit_round.is_some() == self.last_commit_proposal.is_some()
        &&& self.votes.wf()
        &&& self.votes.all_at(self.height)
    }

    /// The number of authorities of the current height.
    pub open spec fn total(self) -> int {
        self.authority_list.len() as int
    }

    /// The engine after it asked for a timeout of `delay` milliseconds on `step`.
    pub open spec fn set_timer(self, delay: u128, step: Step) -> BftView {
        BftView {
            timers: self.timers.push(
                TimeoutInfo { delay, height: self.height, round: self.round, step },
            ),
            ..self
        }
    }

    /// The engine after it handed `m` to the host.
    pub open spec fn send(self, m: MsgView) -> BftView {
        BftView { outbox: self.outbox.push(m), ..self }
    }

    /// A vote of this replica.
    pub open spec fn own_vote(
        self,
        vote_type: VoteType,
        height: usize,
        round: usize,
        proposal: Seq<u8>,
    ) -> MsgView {
        MsgView::Vote(VoteView { vote_type, height, round, proposal, voter: self.address })
    }

    /// The propose timeout of the current round, in milliseconds: the base
    /// duration doubled once per round, at most ten times.
    pub open spec fn propose_delay(self) -> u128 {
        (share_of(self.timer.total_duration, PROPOSE_SHARE) * pow2(
            (if self.round > PROPOSAL_TIMES_COEF {
                PROPOSAL_TIMES_COEF
            } else {
                self.round
            }) as nat,
        )) as u128
    }

    /// The time after which a prevote is sent again, in milliseconds.
    pub open spec fn prevote_retransmit_delay(self) -> u128 {
        (share_of(self.timer.total_duration, PREVOTE_SHARE) * TIMEOUT_RETRANSE_MULTIPLE) as u128
    }

    /// The time after which a precommit is sent again, in milliseconds.
    pub open spec fn precommit_retransmit_delay(self) -> u128 {
        (share_of(self.timer.total_duration, PRECOMMIT_SHARE) * TIMEOUT_RETRANSE_MULTIPLE) as u128
    }

    /// Whether a message of the height before, at `round`, comes from a peer
    /// that still needs this replica's votes of that height.
    pub open spec fn lags_one_height(self, height: usize, round: usize) -> bool {
        &&& height == self.height - 1
        &&& self.last_commit_round.is_some()
        &&& round >= self.last_commit_round.unwrap()
    }

    /// The engine after it sent its prevote and precommit of the last height
    /// again, for `round`.
    pub open spec fn retransmit_vote(self, round: usize) -> BftView {
        let height = (self.height - 1) as usize;
        let proposal = self.last_commit_proposal.unwrap();
        self.send(self.own_vote(VoteType::Prevote, height, round, proposal)).send(
            self.own_vote(VoteType::Precommit, height, round, proposal),
        )
    }

    /// Whether this replica proposes in the current round: it is the authority
    /// at position (height + round) mod N.
    pub open spec fn is_proposer(self) -> bool {
        self.total() > 0 && self.authority_list[(self.height + self.round) % self.total()]
            == self.address
    }

    /// Finds out whether this replica proposes; a replica that does not, among
    /// at least one authority, asks for the propose timeout.
    pub open spec fn determine_proposer(self) -> (BftView, bool) {
        if self.total() == 0 {
            (self, false)
        } else if self.is_proposer() {
            (self, true)
        } else {
            (self.set_timer(self.propose_delay(), Step::ProposeWait), false)
        }
    }

    /// Whether the engine holds a candidate for the current height.
    pub open spec fn has_fresh_feed(self) -> bool {
        self.feed.is_some() && self.feed.unwrap().height == self.height
    }

    /// Sends a proposal: the locked content with its proof, else the feed of
    /// this height; with neither, asks for the propose timeout instead.
    pub open spec fn try_transmit_proposal(self) -> (BftView, bool) {
        if self.lock_status.is_some() {
            let lock = self.lock_status.unwrap();
            (
                self.send(
                    MsgView::Proposal(
                        ProposalView {
                            height: self.height,
                            round: self.round,
                            content: lock.proposal,
                            lock_round: Some(lock.round),
                            lock_votes: Some(lock.votes),
                            proposer: self.address,
                        },
                    ),
                ),
                true,
            )
        } else if self.has_fresh_feed() {
            (
                self.send(
                    MsgView::Proposal(
                        ProposalView {
                            height: self.height,
                            round: self.round,
                            content: self.feed.unwrap().proposal,
                            lock_round: None,
                            lock_votes: None,
                            proposer: self.address,
                        },
                    ),
                ),
                true,
            )
        } else {
            (self.set_timer(self.propose_delay(), Step::ProposeWait), false)
        }
    }

    /// What this replica votes for: the locked content, else the proposal it
    /// took up, else nil.
    pub open spec fn vote_target(self) -> Seq<u8> {
        if self.lock_status.is_some() {
            self.lock_status.unwrap().proposal
        } else if self.proposal.is_some() {
            self.proposal.unwrap()
        } else {
            Seq::empty()
        }
    }

    /// Sends this replica's prevote and asks for the timeout that repeats it.
    pub open spec fn transmit_prevote(self) -> BftView {
        self.send(
            self.own_vote(VoteType::Prevote, self.height, self.round, self.vote_target()),
        ).set_timer(self.prevote_retransmit_delay(), Step::Prevote)
    }

    /// Sends this replica's precommit and asks for the timeout that repeats it.
    pub open spec fn broadcast_precommit(self) -> BftView {
        self.send(
            self.own_vote(VoteType::Precommit, self.height, self.round, self.vote_target()),
        ).set_timer(self.precommit_retransmit_delay(), Step::Precommit)
    }

    /// Starts the current round: the proposer that can propose does so and
    /// prevotes; every other replica waits for a proposal.
    pub open spec fn new_round_start(self) -> BftView {
        let (s1, proposer) = self.determine_proposer();
        if proposer {
            let (s2, sent) = s1.try_transmit_proposal();
            if sent {
                BftView { step: Step::Prevote, ..s2.transmit_prevote() }
            } else {
                BftView { step: Step::ProposeWait, ..s2 }
            }
        } else {
            BftView { step: Step::ProposeWait, ..s1 }
        }
    }

    /// Sorts an incoming proposal: one of a lagging peer is answered with the
    /// last height's votes, one of another height or round is dropped, one of
    /// the current height and round is kept (`true`).
    pub open spec fn handle_proposal(self, p: ProposalView) -> (BftView, bool) {
        if self.lags_one_height(p.height, p.round) {
            (self.retransmit_vote(p.round), false)
        } else if p.height != self.height || p.round != self.round {
            (self, false)
        } else {
            (self, true)
        }
    }

    /// Whether a proposal's lock replaces what the engine holds: it carries a
    /// lock, and the engine has none or one that is not later.
    pub open spec fn adopts_lock(self, p: ProposalView) -> bool {
        p.lock_round.is_some() && (self.lock_status.is_none() || self.lock_status.unwrap().round
            <= p.lock_round.unwrap())
    }

    /// Takes up a proposal of the current height and round by the locking rule.
    pub open spec fn save_proposal(self, p: ProposalView) -> BftView {
        if self.adopts_lock(p) {
            BftView {
                round: p.round,
                proposal: Some(p.content),
                lock_status: Some(
                    LockView {
                        proposal: p.content,
                        round: p.lock_round.unwrap(),
                        votes: p.lock_votes.unwrap(),
                    },
                ),
                ..self
            }
        } else if p.lock_votes.is_none() && self.lock_status.is_none() && p.round == self.round {
            BftView { proposal: Some(p.content), ..self }
        } else {
            self
        }
    }

    /// Offers a vote to the engine, and says whether it was stored.
    pub open spec fn try_save_vote(self, v: VoteView) -> (BftView, bool) {
        if self.lags_one_height(v.height, v.round) {
            (self.retransmit_vote(v.round), false)
        } else if v.height == self.height && v.round == self.round - 1 {
            (
                self.send(self.own_vote(VoteType::Precommit, v.height, v.round, Seq::empty())),
                false,
            )
        } else if v.height == self.height && v.round >= self.round {
            (BftView { votes: self.votes.add(v).0, ..self }, self.votes.add(v).1)
        } else {
            (self, false)
        }
    }

    /// Locks on `proposal` at the current round, with the votes for it in `set`
    /// as evidence.
    pub open spec fn set_polc(
        self,
        proposal: Seq<u8>,
        set: Seq<VoteView>,
        vote_type: VoteType,
    ) -> BftView {
        BftView {
            proposal: Some(proposal),
            lock_status: Some(
                LockView {
                    proposal,
                    round: self.round,
                    votes: polc(set, self.height, self.round, vote_type, proposal),
                },
            ),
            ..self
        }
    }

    /// Gives up the lock and the proposal.
    pub open spec fn clean_polc(self) -> BftView {
        BftView { proposal: None, lock_status: None, ..self }
    }

    /// What the prevotes of the current round do to an earlier lock: a proposal
    /// with more than two thirds of them replaces it, nil releases it. The
    /// flag says whether the lock changed.
    pub open spec fn update_lock(self, set: Seq<VoteView>) -> (BftView, bool) {
        let winner = first_winner(set, self.total());
        if winner.is_some() && self.lock_status.is_some() && self.lock_status.unwrap().round
            < self.round {
            if winner.unwrap().len() == 0 {
                (self.clean_polc(), true)
            } else {
                (self.set_polc(winner.unwrap(), set, VoteType::Prevote), true)
            }
        } else {
            (self, false)
        }
    }

    /// Looks at the prevotes: the engine moves to the highest round, from its
    /// own on, with prevotes of more than two thirds, updates its lock there
    /// and, at step `Prevote`, asks for the prevote-wait timeout.
    pub open spec fn check_prevote(self) -> (BftView, bool) {
        let (found, round) = catch_up(self.votes.prevote_rounds, self.total(), self.round);
        let moved = BftView { round, ..self };
        let set = select(self.votes.votes, self.height, round, VoteType::Prevote);
        if !found {
            (self, false)
        } else if set.len() == 0 {
            (moved, false)
        } else {
            let (locked, changed) = moved.update_lock(set);
            let wait: u128 = if changed || set.len() == self.total() {
                0
            } else {
                share_of(self.timer.total_duration, PREVOTE_SHARE) as u128
            };
            if self.step == Step::Prevote {
                (locked.set_timer(wait, Step::PrevoteWait), true)
            } else {
                (locked, true)
            }
        }
    }

    /// Looks at the precommits of the current round. More than two thirds for
    /// nil start the next round; more than two thirds for a proposal lock it.
    pub open spec fn check_precommit(self) -> (BftView, bool) {
        let set = select(self.votes.votes, self.height, self.round, VoteType::Precommit);
        let winner = first_winner(set, self.total());
        if set.len() == 0 || !above_threshold(self.total(), set.len() as int) {
            (self, false)
        } else if winner.is_some() && winner.unwrap().len() == 0 {
            (
                BftView {
                    proposal: if self.lock_status.is_none() {
                        None
                    } else {
                        self.proposal
                    },
                    round: (self.round + 1) as usize,
                    ..self
                }.new_round_start(),
                false,
            )
        } else {
            let locked = if winner.is_some() {
                self.set_polc(winner.unwrap(), set, VoteType::Precommit)
            } else {
                self
            };
            let wait: u128 = if winner.is_some() || set.len() == self.total() {
                0
            } else {
                share_of(self.timer.total_duration, PRECOMMIT_SHARE) as u128
            };
            if self.step == Step::Precommit {
                (locked.set_timer(wait, Step::PrecommitWait), true)
            } else {
                (locked, true)
            }
        }
    }

    /// Commits what the engine is locked on, if it holds a lock.
    pub open spec fn proc_commit(self) -> (BftView, bool) {
        if self.lock_status.is_some() {
            let lock = self.lock_status.unwrap();
            (
                BftView {
                    last_commit_round: Some(self.round),
                    last_commit_proposal: Some(lock.proposal),
                    ..self.send(
                        MsgView::Commit(
                            CommitView {
                                height: self.height,
                                proposal: lock.proposal,
                                lock_votes: lock.votes,
                            },
                        ),
                    )
                },
                true,
            )
        } else {
            (self, false)
        }
    }

    /// Takes a status of the current height or a later one: the engine moves to
    /// the height after it, at round 0, with the new authorities.
    pub open spec fn try_handle_status(self, status: RichStatusView) -> (BftView, bool) {
        if status.height >= self.height {
            (
                BftView {
                    height: (status.height + 1) as usize,
                    round: 0,
                    proposal: None,
                    lock_status: None,
                    votes: self.votes.clear_prevote_count().release_votes(),
                    authority_list: status.authority_list,
                    timer: if status.interval.is_some() {
                        BftTimer { total_duration: status.interval.unwrap() }
                    } else {
                        self.timer
                    },
                    ..self
                },
                true,
            )
        } else {
            (self, false)
        }
    }

    /// Takes a feed of the current height or a later one.
    pub open spec fn try_handle_feed(self, feed: FeedView) -> (BftView, bool) {
        if feed.height >= self.height {
            (BftView { feed: Some(feed), ..self }, true)
        } else {
            (self, false)
        }
    }

    /// The engine with its step set to `step` if `flag` holds.
    pub open spec fn step_if(self, flag: bool, step: Step) -> BftView {
        if flag {
            BftView { step, ..self }
        } else {
            self
        }
    }

    /// The engine after a proposal came in.
    pub open spec fn on_proposal(self, p: ProposalView) -> BftView {
        let (s1, kept) = self.handle_proposal(p);
        if self.step.rank() > Step::ProposeWait.rank() {
            self
        } else if !kept {
            s1
        } else {
            let s2 = s1.save_proposal(p);
            if s2.step == Step::ProposeWait {
                let s3 = BftView { step: Step::Prevote, ..s2 }.transmit_prevote();
                let (s4, ok) = s3.check_prevote();
                s4.step_if(ok, Step::PrevoteWait)
            } else {
                s2
            }
        }
    }

    /// The engine after a prevote came in.
    pub open spec fn on_prevote(self, v: VoteView) -> BftView {
        let s1 = self.try_save_vote(v).0;
        if self.step.rank() > Step::PrevoteWait.rank() {
            self
        } else if s1.step.rank() >= Step::Prevote.rank() {
            let (s2, ok) = s1.check_prevote();
            s2.step_if(ok, Step::PrevoteWait)
        } else {
            s1
        }
    }

    /// The engine after a precommit came in.
    pub open spec fn on_precommit(self, v: VoteView) -> BftView {
        let s1 = self.try_save_vote(v).0;
        if self.step.rank() < Step::Precommit.rank() {
            s1
        } else if self.step == Step::Precommit || self.step == Step::PrecommitWait {
            let (s2, ok) = s1.check_precommit();
            s2.step_if(ok, Step::PrecommitWait)
        } else {
            self
        }
    }

    /// The engine after the host's message `msg` came in.
    pub open spec fn process(self, msg: MsgView) -> BftView {
        match msg {
            MsgView::Proposal(p) => self.on_proposal(p),
            MsgView::Vote(v) => if v.vote_type == VoteType::Prevote {
                self.on_prevote(v)
            } else {
                self.on_precommit(v)
            },
            MsgView::Feed(f) => {
                let (s1, ok) = self.try_handle_feed(f);
                if ok && s1.step == Step::ProposeWait {
                    s1.new_round_start()
                } else {
                    s1
                }
            },
            MsgView::RichStatus(status) => {
                let (s1, ok) = self.try_handle_status(status);
                if ok {
                    s1.new_round_start()
                } else {
                    s1
                }
            },
            MsgView::Commit(_) => self,
        }
    }

    /// Whether a timeout is out of date: it was asked for at an earlier height,
    /// at an earlier round of this height, or at another step of this round.
    pub open spec fn is_stale(self, tm: TimeoutInfo) -> bool {
        ||| tm.height < self.height
        ||| (tm.height == self.height && tm.round < self.round)
        ||| (tm.height == self.height && tm.round == self.round && tm.step != self.step)
    }

    /// Whether a timeout can be one that the engine asked for up to now: it
    /// names the current height and round, or earlier ones.
    pub open spec fn asked_by_now(self, tm: TimeoutInfo) -> bool {
        tm.height < self.height || (tm.height == self.height && tm.round <= self.round)
    }

    /// The engine after the timeout `tm` came back.
    pub open spec fn timeout_process(self, tm: TimeoutInfo) -> BftView {
        if self.is_stale(tm) {
            self
        } else {
            match tm.step {
                Step::ProposeWait => {
                    let s1 = BftView { step: Step::Prevote, ..self }.broadcast_precommit();
                    let (s2, ok) = s1.check_prevote();
                    s2.step_if(ok, Step::PrevoteWait)
                },
                Step::Prevote => self.transmit_prevote(),
                Step::PrevoteWait => {
                    let s1 = BftView { step: Step::Precommit, ..self }.broadcast_precommit();
                    let (s2, ok) = s1.check_precommit();
                    s2.step_if(ok, Step::PrecommitWait)
                },
                Step::Precommit => self.transmit_prevote().broadcast_precommit(),
                Step::PrecommitWait => BftView {
                    step: Step::CommitWait,
                    ..BftView { step: Step::Commit, ..self }.proc_commit().0
                },
                _ => self,
            }
        }
    }
}

/// The consensus engine of one replica. Messages and timeouts go in through
/// [`Bft::process`] and [`Bft::timeout_process`]; what the engine wants sent
/// and the timeouts it asks for pile up in `outbox` and `timers`.
#[derive(Debug)]
pub struct Bft {
    pub height: usize,
    pub round: usize,
    pub step: Step,
    pub feed: Option<Feed>,
    pub proposal: Option<Target>,
    pub votes: VoteCollector,
    pub lock_status: Option<LockStatus>,
    pub last_commit_round: Option<usize>,
    pub last_commit_proposal: Option<Target>,
    pub authority_list: Vec<Address>,
    pub params: BftParams,
    pub outbox: Vec<BftMsg>,
    pub timers: Vec<TimeoutInfo>,
}

impl View for Bft {
    type V = BftView;

    open spec fn view(&self) -> BftView {
        BftView {
            height: self.height,
            round: self.round,
            step: self.step,
            feed: opt_feed_view(self.feed),
            proposal: opt_bytes_view(self.proposal),
            votes: self.votes@,
            lock_status: opt_lock_view(self.lock_status),
            last_commit_round: self.last_commit_round,
            last_commit_proposal: opt_bytes_view(self.last_commit_proposal),
            authority_list: addresses_view(self.authority_list@),
            timer: self.params.timer,
            address: self.params.address@,
            outbox: msgs_view(self.outbox@),
            timers: self.timers@,
        }
    }
}

impl Bft {
    /// The engine of the replica `local_address` before anything happened: at
    /// height 1, round 0, step `Propose`, with no authorities yet.
    pub fn initialize(local_address: Address) -> (engine: Self)
        ensures
            engine@.wf(),
            crate::safety::commits_in_order(engine@),
            engine@ == (BftView {
                height: INIT_HEIGHT,
                round: INIT_ROUND,
                step: Step::Propose,
                feed: None,
                proposal: None,
                votes: CollectorView { votes: Seq::empty(), prevote_rounds: Seq::empty() },
                lock_status: None,
                last_commit_round: None,
                last_commit_proposal: None,
                authority_list: Seq::empty(),
                timer: BftTimer { total_duration: crate::params::DEFAULT_TOTAL_DURATION },
                address: local_address@,
                outbox: Seq::empty(),
                timers: Seq::empty(),
            }),
    {
        let engine = Bft {
            height: INIT_HEIGHT,
            round: INIT_ROUND,
            step: Step::Propose,
            feed: None,
            proposal: None,
            votes: VoteCollector::new(),
            lock_status: None,
            last_commit_round: None,
            last_commit_proposal: None,
            authority_list: Vec::new(),
            params: BftParams::new(local_address),
            outbox: Vec::new(),
            timers: Vec::new(),
        };
        assert(engine@.votes.votes =~= Seq::empty());
        assert(engine@.votes.prevote_rounds =~= Seq::empty());
        assert(engine@.authority_list =~= Seq::empty());
        assert(engine@.outbox =~= Seq::empty());
        assert(engine@.timers =~= Seq::empty());
        engine
    }

    /// Hands over the messages that wait to be sent, oldest first.
    pub fn take_outbox(&mut self) -> (msgs: Vec<BftMsg>)
        ensures
            msgs_view(msgs@) == old(self)@.outbox,
            final(self)@ == (BftView { outbox: Seq::empty(), ..old(self)@ }),
    {
        let mut msgs: Vec<BftMsg> = Vec::new();
        std::mem::swap(&mut self.outbox, &mut msgs);
        assert(self@.outbox =~= Seq::empty());
        msgs
    }

    /// Hands over the timeouts that wait to be scheduled, oldest first.
    pub fn take_timers(&mut self) -> (timers: Vec<TimeoutInfo>)
        ensures
            timers@ == old(self)@.timers,
            final(self)@ == (BftView { timers: Seq::empty(), ..old(self)@ }),
    {
        let mut timers: Vec<TimeoutInfo> = Vec::new();
        std::mem::swap(&mut self.timers, &mut timers);
        assert(self@.timers =~= Seq::empty());
        timers
    }

    /// Asks for a timeout of `delay` milliseconds on `step`, at the current
    /// height and round.
    pub fn set_timer(&mut self, delay: u128, step: Step)
        ensures
            final(self)@ == old(self)@.set_timer(delay, step),
    {
        self.timers.push(TimeoutInfo { delay, height: self.height, round: self.round, step });
    }

    /// Hands a message to the host.
    pub fn send_bft_msg(&mut self, msg: BftMsg)
        ensures
            final(self)@ == old(self)@.send(msg@),
    {
        let ghost value = msg@;
        self.outbox.push(msg);
        assert(self@.outbox =~= old(self)@.outbox.push(value));
    }

    /// Whether `count` votes are more than two thirds of the authorities.
    pub fn cal_above_threshold(&self, count: usize) -> (above: bool)
        ensures
            above == above_threshold(self@.total(), count as int),
    {
        (count as u128) * 3 > (self.authority_list.len() as u128) * 2
    }

    /// Whether `count` votes are one from every authority.
    pub fn cal_all_vote(&self, count: usize) -> (all: bool)
        ensures
            all == (count == self@.total()),
    {
        count == self.authority_list.len()
    }

    /// Sets the step.
    pub fn change_to_step(&mut self, step: Step)
        ensures
            final(self)@ == (BftView { step, ..old(self)@ }),
    {
        self.step = step;
    }

    /// Moves to the next round of the current height.
    pub fn goto_next_round(&mut self)
        requires
            old(self)@.round < usize::MAX,
        ensures
            final(self)@ == (BftView { round: (old(self)@.round + 1) as usize, ..old(self)@ }),
    {
        self.round += 1;
    }

    /// Forgets what belongs to the finished height: the proposal, the lock,
    /// the votes with their counts, and the authorities.
    pub fn clean_save_info(&mut self)
        ensures
            final(self)@ == (BftView {
                proposal: None,
                lock_status: None,
                votes: old(self)@.votes.clear_prevote_count().release_votes(),
                authority_list: Seq::empty(),
                ..old(self)@
            }),
    {
        self.proposal = None;
        self.lock_status = None;
        self.votes.clear_prevote_count();
        self.votes.release_votes();
        self.authority_list = Vec::new();
        assert(self@.authority_list =~= Seq::empty());
    }

    /// Moves to round 0 of `new_height`, with nothing kept of the height before
    /// but the last commit, the feed and the timer.
    pub fn goto_new_height(&mut self, new_height: usize)
        ensures
            final(self)@ == (BftView {
                height: new_height,
                round: 0,
                proposal: None,
                lock_status: None,
                votes: old(self)@.votes.clear_prevote_count().release_votes(),
                authority_list: Seq::empty(),
                ..old(self)@
            }),
    {
        self.clean_save_info();
        self.height = new_height;
        self.round = 0;
    }

    /// A vote of this replica.
    fn own_vote(&self, vote_type: VoteType, height: usize, round: usize, proposal: Target) -> (msg:
        BftMsg)
        ensures
            msg@ == self@.own_vote(vote_type, height, round, proposal@),
    {
        BftMsg::Vote(
            Vote { vote_type, height, round, proposal, voter: copy_bytes(&self.params.address) },
        )
    }

    /// Sends this replica's prevote and precommit of the last height again, for
    /// a peer that is still there.
    pub fn retransmit_vote(&mut self, round: usize)
        requires
            old(self)@.wf(),
            old(self)@.last_commit_round.is_some(),
        ensures
            final(self)@ == old(self)@.retransmit_vote(round),
    {
        let height = self.height - 1;
        let (first, second) = match &self.last_commit_proposal {
            Some(p) => (copy_bytes(p), copy_bytes(p)),
            None => (Vec::new(), Vec::new()),
        };
        let prevote = self.own_vote(VoteType::Prevote, height, round, first);
        self.send_bft_msg(prevote);
        let precommit = self.own_vote(VoteType::Precommit, height, round, second);
        self.send_bft_msg(precommit);
    }

    /// The propose timeout of the current round, in milliseconds.
    pub fn propose_delay(&self) -> (delay: u128)
        ensures
            delay == self@.propose_delay(),
    {
        let coef: usize = if self.round > PROPOSAL_TIMES_COEF {
            PROPOSAL_TIMES_COEF
        } else {
            self.round
        };
        proof {
            lemma2_to64();
        }
        let factor: u128 = if coef == 0 {
            1
        } else if coef == 1 {
            2
        } else if coef == 2 {
            4
        } else if coef == 3 {
            8
        } else if coef == 4 {
            16
        } else if coef == 5 {
            32
        } else if coef == 6 {
            64
        } else if coef == 7 {
            128
        } else if coef == 8 {
            256
        } else if coef == 9 {
            512
        } else {
            1024
        };
        assert(factor == pow2(coef as nat));
        let base: u64 = self.params.timer.get_propose();
        assert(base * factor <= 0xffff_ffff_ffff_ffff * 1024) by (nonlinear_arith)
            requires
                base <= 0xffff_ffff_ffff_ffff,
                factor <= 1024,
        ;
        (base as u128) * factor
    }

    /// Whether this replica proposes in the current round. A replica that does
    /// not, among at least one authority, asks for the propose timeout.
    pub fn determine_proposer(&mut self) -> (proposer: bool)
        ensures
            final(self)@ == old(self)@.determine_proposer().0,
            proposer == old(self)@.determine_proposer().1,
    {
        let count = self.authority_list.len();
        if count == 0 {
            return false;
        }
        let nonce: u128 = (self.height as u128) + (self.round as u128);
        let index: usize = (nonce % (count as u128)) as usize;
        if bytes_eq(&self.params.address, &self.authority_list[index]) {
            return true;
        }
        let delay = self.propose_delay();
        self.set_timer(delay, Step::ProposeWait);
        false
    }

    /// Sends the proposal of this replica, if it has one to send: the locked
    /// content with its proof, else the feed of this height. With neither it
    /// asks for the propose timeout.
    pub fn try_transmit_proposal(&mut self) -> (sent: bool)
        ensures
            final(self)@ == old(self)@.try_transmit_proposal().0,
            sent == old(self)@.try_transmit_proposal().1,
    {
        let msg: Option<BftMsg> = match &self.lock_status {
            Some(lock) => Some(
                BftMsg::Proposal(
                    Proposal {
                        height: self.height,
                        round: self.round,
                        content: copy_bytes(&lock.proposal),
                        lock_round: Some(lock.round),
                        lock_votes: Some(copy_votes(&lock.votes)),
                        proposer: copy_bytes(&self.params.address),
                    },
                ),
            ),
            None => match &self.feed {
                Some(feed) => if feed.height == self.height {
                    Some(
                        BftMsg::Proposal(
                            Proposal {
                                height: self.height,
                                round: self.round,
                                content: copy_bytes(&feed.proposal),
                                lock_round: None,
                                lock_votes: None,
                                proposer: copy_bytes(&self.params.address),
                            },
                        ),
                    )
                } else {
                    None
                },
                None => None,
            },
        };
        match msg {
            Some(m) => {
                self.send_bft_msg(m);
                true
            },
            None => {
                let delay = self.propose_delay();
                self.set_timer(delay, Step::ProposeWait);
                false
            },
        }
    }

    /// Sorts an incoming proposal: one of a peer that lags by a height is
    /// answered with the last height's votes, one of another height or round
    /// is dropped, one of the current height and round is handed back.
    pub fn handle_proposal(&mut self, proposal: Proposal) -> (kept: Option<Proposal>)
        requires
            old(self)@.wf(),
        ensures
            final(self)@ == old(self)@.handle_proposal(proposal@).0,
            kept.is_some() == old(self)@.handle_proposal(proposal@).1,
            kept.is_some() ==> kept.unwrap()@ == proposal@,
    {
        let lags = match self.last_commit_round {
            Some(last) => proposal.height == self.height - 1 && proposal.round >= last,
            None => false,
        };
        if lags {
            self.retransmit_vote(proposal.round);
            None
        } else if proposal.height != self.height || proposal.round != self.round {
            None
        } else {
            Some(proposal)
        }
    }

    /// Takes up a proposal of the current height and round. One with a lock is
    /// adopted, lock and all, if the engine holds no lock or one of a round
    /// that is not later; one without is taken up only by an engine without a
    /// lock; any other is ignored.
    pub fn save_proposal(&mut self, proposal: Proposal)
        requires
            proposal@.wf(),
        ensures
            final(self)@ == old(self)@.save_proposal(proposal@),
    {
        let Proposal { height: _, round, content, lock_round, lock_votes, proposer: _ } = proposal;
        let has_lock = self.lock_status.is_some();
        let adopts = match (&lock_round, &self.lock_status) {
            (Some(theirs), Some(mine)) => mine.round <= *theirs,
            (Some(_), None) => true,
            (None, _) => false,
        };
        if adopts {
            match (lock_round, lock_votes) {
                (Some(lock_round), Some(votes)) => {
                    self.round = round;
                    self.proposal = Some(copy_bytes(&content));
                    self.lock_status = Some(LockStatus { proposal: content, round: lock_round, votes });
                },
                _ => {},
            }
        } else if lock_votes.is_none() && !has_lock && round == self.round {
            self.proposal = Some(content);
        }
    }

    /// What this replica votes for: the locked content, else the proposal it
    /// took up, else nil.
    pub fn vote_target(&self) -> (target: Target)
        ensures
            target@ == self@.vote_target(),
    {
        match &self.lock_status {
            Some(lock) => copy_bytes(&lock.proposal),
            None => match &self.proposal {
                Some(p) => copy_bytes(p),
                None => Vec::new(),
            },
        }
    }

    /// Sends this replica's prevote and asks for the timeout that repeats it.
    pub fn transmit_prevote(&mut self)
        ensures
            final(self)@ == old(self)@.transmit_prevote(),
    {
        let target = self.vote_target();
        let msg = self.own_vote(VoteType::Prevote, self.height, self.round, target);
        self.send_bft_msg(msg);
        let base: u64 = self.params.timer.get_prevote();
        self.set_timer((base as u128) * (TIMEOUT_RETRANSE_MULTIPLE as u128), Step::Prevote);
    }

    /// Sends this replica's precommit and asks for the timeout that repeats it.
    pub fn broadcast_precommit(&mut self)
        ensures
            final(self)@ == old(self)@.broadcast_precommit(),
    {
        let target = self.vote_target();
        let msg = self.own_vote(VoteType::Precommit, self.height, self.round, target);
        self.send_bft_msg(msg);
        let base: u64 = self.params.timer.get_precommit();
        self.set_timer((base as u128) * (TIMEOUT_RETRANSE_MULTIPLE as u128), Step::Precommit);
    }

    /// Offers a vote to the engine. A vote of the height before is answered
    /// with the last height's votes, one of the round before with a nil
    /// precommit; one of the current height, from the current round on, goes
    /// to the collector. The result says whether the vote was stored.
    pub fn try_save_vote(&mut self, vote: Vote) -> (saved: bool)
        requires
            old(self)@.wf(),
        ensures
            final(self)@ == old(self)@.try_save_vote(vote@).0,
            saved == old(self)@.try_save_vote(vote@).1,
            final(self)@.wf(),
    {
        let lags = match self.last_commit_round {
            Some(last) => vote.height == self.height - 1 && vote.round >= last,
            None => false,
        };
        if lags {
            self.retransmit_vote(vote.round);
            false
        } else if vote.height == self.height && self.round > 0 && vote.round == self.round - 1 {
            let msg = self.own_vote(VoteType::Precommit, vote.height, vote.round, Vec::new());
            self.send_bft_msg(msg);
            false
        } else if vote.height == self.height && vote.round >= self.round {
            self.votes.add(vote)
        } else {
            false
        }
    }

    /// Locks on `hash` at the current round, with the votes for it in
    /// `voteset` as evidence.
    pub fn set_polc(&mut self, hash: &Target, voteset: &VoteSet, vote_type: VoteType)
        ensures
            final(self)@ == old(self)@.set_polc(hash@, voteset@, vote_type),
    {
        self.proposal = Some(copy_bytes(hash));
        self.lock_status = Some(
            LockStatus {
                proposal: copy_bytes(hash),
                round: self.round,
                votes: voteset.abstract_polc(self.height, self.round, vote_type, hash),
            },
        );
    }

    /// Gives up the lock and the proposal.
    pub fn clean_polc(&mut self)
        ensures
            final(self)@ == old(self)@.clean_polc(),
    {
        self.proposal = None;
        self.lock_status = None;
    }

    /// Looks at the prevotes. The engine moves to the highest round, from its
    /// own on, that has prevotes of more than two thirds of the authorities;
    /// there a proposal with more than two thirds replaces an earlier lock, and
    /// nil releases it. At step `Prevote` the prevote-wait timeout is asked for.
    /// The result says whether such a round with stored prevotes was found.
    #[verifier::rlimit(50)]
    pub fn check_prevote(&mut self) -> (ok: bool)
        requires
            old(self)@.wf(),
        ensures
            final(self)@ == old(self)@.check_prevote().0,
            ok == old(self)@.check_prevote().1,
            final(self)@.wf(),
    {
        let total = self.authority_list.len();
        let mut found = false;
        let mut best: usize = self.round;
        let mut i: usize = 0;
        while i < self.votes.prevote_rounds.len()
            invariant
                *self == *old(self),
                i <= self.votes.prevote_rounds.len(),
                total == self@.total(),
                (found, best) == catch_up_upto(
                    self@.votes.prevote_rounds,
                    i as nat,
                    total as int,
                    self.round,
                ),
            decreases self.votes.prevote_rounds.len() - i,
        {
            let r: usize = self.votes.prevote_rounds[i];
            let count = self.votes.prevote_count(r);
            if self.cal_above_threshold(count) && r >= best {
                found = true;
                best = r;
            }
            i += 1;
        }
        if !found {
            return false;
        }
        self.round = best;
        match self.votes.get_voteset(self.height, self.round, VoteType::Prevote) {
            None => false,
            Some(set) => {
                let all = self.cal_all_vote(set.count());
                let earlier_lock = match &self.lock_status {
                    Some(lock) => lock.round < self.round,
                    None => false,
                };
                let mut changed = false;
                if earlier_lock {
                    match set.first_above(total) {
                        Some(hash) => {
                            if hash.len() == 0 {
                                self.clean_polc();
                            } else {
                                self.set_polc(&hash, &set, VoteType::Prevote);
                            }
                            changed = true;
                        },
                        None => {},
                    }
                }
                let wait: u128 = if changed || all {
                    0
                } else {
                    self.params.timer.get_prevote() as u128
                };
                if self.step == Step::Prevote {
                    self.set_timer(wait, Step::PrevoteWait);
                }
                true
            },
        }
    }

    /// Looks at the precommits of the current round. With more than two thirds
    /// for nil the engine starts the next round and returns `false`; with more
    /// than two thirds for a proposal it locks on it. At step `Precommit` the
    /// precommit-wait timeout is asked for. The result says whether the round
    /// has precommits of more than two thirds that do not send it on.
    #[verifier::rlimit(50)]
    pub fn check_precommit(&mut self) -> (ok: bool)
        requires
            old(self)@.wf(),
            old(self)@.round < usize::MAX,
        ensures
            final(self)@ == old(self)@.check_precommit().0,
            ok == old(self)@.check_precommit().1,
            final(self)@.wf(),
    {
        let total = self.authority_list.len();
        match self.votes.get_voteset(self.height, self.round, VoteType::Precommit) {
            None => false,
            Some(set) => {
                let all = self.cal_all_vote(set.count());
                if !self.cal_above_threshold(set.count()) {
                    return false;
                }
                let mut locked = false;
                match set.first_above(total) {
                    Some(hash) => {
                        if hash.len() == 0 {
                            if self.lock_status.is_none() {
                                self.proposal = None;
                            }
                            self.goto_next_round();
                            self.new_round_start();
                            return false;
                        } else {
                            self.set_polc(&hash, &set, VoteType::Precommit);
                            locked = true;
                        }
                    },
                    None => {},
                }
                let wait: u128 = if locked || all {
                    0
                } else {
                    self.params.timer.get_precommit() as u128
                };
                if self.step == Step::Precommit {
                    self.set_timer(wait, Step::PrecommitWait);
                }
                true
            },
        }
    }

    /// Commits what the engine is locked on: the commit goes to the host, and
    /// the round and the proposal are kept for peers that are still at this
    /// height. Without a lock nothing happens.
    pub fn proc_commit(&mut self) -> (committed: bool)
        requires
            old(self)@.wf(),
        ensures
            final(self)@ == old(self)@.proc_commit().0,
            committed == old(self)@.proc_commit().1,
            final(self)@.wf(),
    {
        let pair: Option<(BftMsg, Target)> = match &self.lock_status {
            Some(lock) => Some(
                (
                    BftMsg::Commit(
                        Commit {
                            height: self.height,
                            proposal: copy_bytes(&lock.proposal),
                            lock_votes: copy_votes(&lock.votes),
                        },
                    ),
                    copy_bytes(&lock.proposal),
                ),
            ),
            None => None,
        };
        match pair {
            Some((msg, proposal)) => {
                self.send_bft_msg(msg);
                self.last_commit_round = Some(self.round);
                self.last_commit_proposal = Some(proposal);
                true
            },
            None => false,
        }
    }

    /// Takes a status of the current height or a later one: the engine moves
    /// to the height after it, at round 0, with the status's authorities and,
    /// if it names one, its block interval. An earlier status is refused.
    pub fn try_handle_status(&mut self, rich_status: RichStatus) -> (taken: bool)
        requires
            old(self)@.wf(),
            rich_status.height < usize::MAX,
        ensures
            final(self)@ == old(self)@.try_handle_status(rich_status@).0,
            taken == old(self)@.try_handle_status(rich_status@).1,
            final(self)@.wf(),
    {
        if rich_status.height >= self.height {
            self.goto_new_height(rich_status.height + 1);
            self.authority_list = rich_status.authority_list;
            match rich_status.interval {
                Some(interval) => {
                    self.params.timer.set_total_duration(interval);
                },
                None => {},
            }
            true
        } else {
            false
        }
    }

    /// Takes a feed of the current height or a later one; an earlier one is refused.
    pub fn try_handle_feed(&mut self, feed: Feed) -> (taken: bool)
        ensures
            final(self)@ == old(self)@.try_handle_feed(feed@).0,
            taken == old(self)@.try_handle_feed(feed@).1,
    {
        if feed.height >= self.height {
            self.feed = Some(feed);
            true
        } else {
            false
        }
    }

    /// Starts the current round. The proposer that can propose does so, sends
    /// its prevote and goes to `Prevote`; every other replica goes to
    /// `ProposeWait`.
    pub fn new_round_start(&mut self)
        ensures
            final(self)@ == old(self)@.new_round_start(),
    {
        if self.determine_proposer() {
            if self.try_transmit_proposal() {
                self.transmit_prevote();
                self.change_to_step(Step::Prevote);
            } else {
                self.change_to_step(Step::ProposeWait);
            }
        } else {
            self.change_to_step(Step::ProposeWait);
        }
    }

    /// Whether the engine can take `msg` now: the message is well formed, and
    /// the round can still be counted up.
    pub fn can_process(&self, msg: &BftMsg) -> (ok: bool)
        ensures
            ok == (self@.round < usize::MAX && acceptable(msg@)),
    {
        let formed = match msg {
            BftMsg::Proposal(p) => p.lock_round.is_some() == p.lock_votes.is_some(),
            BftMsg::RichStatus(status) => status.height < usize::MAX,
            _ => true,
        };
        formed && self.round < usize::MAX
    }

    /// Whether the engine can take a timeout now: the round can still be
    /// counted up.
    pub fn can_timeout(&self) -> (ok: bool)
        ensures
            ok == (self@.round < usize::MAX),
    {
        self.round < usize::MAX
    }

    /// Takes one message of the host and does everything that follows from it.
    #[verifier::rlimit(50)]
    pub fn process(&mut self, bft_msg: BftMsg)
        requires
            old(self)@.wf(),
            old(self)@.round < usize::MAX,
            acceptable(bft_msg@),
        ensures
            final(self)@ == old(self)@.process(bft_msg@),
            final(self)@.wf(),
            final(self).height >= old(self).height,
            final(self).height == old(self).height ==> final(self).round >= old(self).round,
            final(self).height == old(self).height && final(self).round == old(self).round
                ==> final(self).step.rank() >= old(self).step.rank(),
            crate::safety::grows_without_commit(old(self)@.outbox, final(self)@.outbox),
    {
        proof {
            crate::safety::lemma_process_is_monotone(old(self)@, bft_msg@);
            crate::safety::lemma_process_keeps_step_order(old(self)@, bft_msg@);
            crate::safety::lemma_process_commits_nothing(old(self)@, bft_msg@);
        }
        match bft_msg {
            BftMsg::Proposal(proposal) => {
                if self.step.to_u8() <= 1 {
                    match self.handle_proposal(proposal) {
                        Some(prop) => {
                            self.save_proposal(prop);
                            if self.step == Step::ProposeWait {
                                self.change_to_step(Step::Prevote);
                                self.transmit_prevote();
                                if self.check_prevote() {
                                    self.change_to_step(Step::PrevoteWait);
                                }
                            }
                        },
                        None => {},
                    }
                }
            },
            BftMsg::Vote(vote) => {
                if vote.vote_type == VoteType::Prevote {
                    if self.step.to_u8() <= 3 {
                        let _ = self.try_save_vote(vote);
                        if self.step.to_u8() >= 2 && self.check_prevote() {
                            self.change_to_step(Step::PrevoteWait);
                        }
                    }
                } else {
                    if self.step.to_u8() < 4 {
                        let _ = self.try_save_vote(vote);
                    } else if self.step == Step::Precommit || self.step == Step::PrecommitWait {
                        let _ = self.try_save_vote(vote);
                        if self.check_precommit() {
                            self.change_to_step(Step::PrecommitWait);
                        }
                    }
                }
            },
            BftMsg::Feed(feed) => {
                if self.try_handle_feed(feed) && self.step == Step::ProposeWait {
                    self.new_round_start();
                }
            },
            BftMsg::RichStatus(rich_status) => {
                if self.try_handle_status(rich_status) {
                    self.new_round_start();
                }
            },
            BftMsg::Commit(_) => {},
        }
    }

    /// Takes one timeout that came back. One that is out of date changes
    /// nothing; any other makes the step that it was asked for.
    #[verifier::rlimit(50)]
    pub fn timeout_process(&mut self, tminfo: &TimeoutInfo)
        requires
            old(self)@.wf(),
            old(self)@.round < usize::MAX,
        ensures
            final(self)@ == old(self)@.timeout_process(*tminfo),
            old(self)@.is_stale(*tminfo) ==> final(self)@ == old(self)@,
            final(self)@.wf(),
            final(self).height == old(self).height,
            final(self).round >= old(self).round,
            old(self)@.asked_by_now(*tminfo) && final(self).round == old(self).round
                ==> final(self).step.rank() >= old(self).step.rank(),
    {
        proof {
            crate::safety::lemma_timeout_is_monotone(old(self)@, *tminfo);
            if old(self)@.asked_by_now(*tminfo) {
                crate::safety::lemma_timeout_keeps_step_order(old(self)@, *tminfo);
            }
        }
        if tminfo.height < self.height {
            return;
        }
        if tminfo.height == self.height && tminfo.round < self.round {
            return;
        }
        if tminfo.height == self.height && tminfo.round == self.round && tminfo.step != self.step {
            return;
        }
        match tminfo.step {
            Step::ProposeWait => {
                self.change_to_step(Step::Prevote);
                self.broadcast_precommit();
                if self.check_prevote() {
                    self.change_to_step(Step::PrevoteWait);
                }
            },
            Step::Prevote => {
                self.transmit_prevote();
            },
            Step::PrevoteWait => {
                self.change_to_step(Step::Precommit);
                self.broadcast_precommit();
                if self.check_precommit() {
                    self.change_to_step(Step::PrecommitWait);
                }
            },
            Step::Precommit => {
                self.transmit_prevote();
                self.broadcast_precommit();
            },
            Step::PrecommitWait => {
                self.change_to_step(Step::Commit);
                let _ = self.proc_commit();
                self.change_to_step(Step::CommitWait);
            },
            _ => {},
        }
    }
}

/// Whether a message can be handed to the engine: a proposal's lock round and
/// lock votes come together, and the height after a status can be counted.
pub open spec fn acceptable(msg: MsgView) -> bool {
    match msg {
        MsgView::Proposal(p) => p.wf(),
        MsgView::RichStatus(status) => status.height < usize::MAX,
        _ => true,
    }
}

} // verus!
