//! What holds of the engine: rounds and steps only move on, locks rest on
//! votes of more than two thirds, and no height is committed twice.

use vstd::prelude::*;
use crate::algorithm::{acceptable, catch_up, catch_up_upto, BftView, Step};
use crate::timer::TimeoutInfo;
use crate::types::{LockView, MsgView, ProposalView, VoteType, VoteView};
use crate::voteset::{
    above_threshold, first_winner, in_slot, lemma_add_idempotent, lemma_add_keeps_wf,
    lemma_polc_len_is_tally, lemma_polc_members, lemma_select_members, lemma_winner_is_above,
    occurrences, select,
};

verus! {

/// Catching up never goes back, and where it finds a round, that round is the
/// highest of the counted rounds that are at least `round` and have prevotes
/// of more than two thirds of `total` authorities.
pub proof fn lemma_catch_up_is_highest(rounds: Seq<usize>, k: nat, total: int, round: usize)
    requires
        k <= rounds.len(),
    ensures
        ({
            let (found, best) = catch_up_upto(rounds, k, total, round);
            &&& best >= round
            &&& !found ==> best == round
            &&& found ==> above_threshold(total, occurrences(rounds, best) as int)
            &&& forall|j: int|
                0 <= j < k && rounds[j] >= round && above_threshold(
                    total,
                    occurrences(rounds, #[trigger] rounds[j]) as int,
                ) ==> found && rounds[j] <= best
        }),
    decreases k,
{
    if k > 0 {
        lemma_catch_up_is_highest(rounds, (k - 1) as nat, total, round);
    }
}

/// Within a height the round never goes down, and the height never goes
/// down, whatever message comes in.
#[verifier::rlimit(50)]
pub proof fn lemma_process_is_monotone(s: BftView, msg: MsgView)
    requires
        s.wf(),
        s.round < usize::MAX,
        acceptable(msg),
    ensures
        s.process(msg).height >= s.height,
        s.process(msg).height == s.height ==> s.process(msg).round >= s.round,
{
    lemma_catch_up_is_highest(
        s.votes.prevote_rounds,
        s.votes.prevote_rounds.len(),
        s.total(),
        s.round,
    );
    match msg {
        MsgView::Vote(v) => {
            let s1 = s.try_save_vote(v).0;
            lemma_catch_up_is_highest(
                s1.votes.prevote_rounds,
                s1.votes.prevote_rounds.len(),
                s1.total(),
                s1.round,
            );
        },
        _ => {},
    }
}

/// Within a height the round never goes down, and the height never goes
/// down, whatever timeout comes back.
#[verifier::rlimit(50)]
pub proof fn lemma_timeout_is_monotone(s: BftView, tm: TimeoutInfo)
    requires
        s.wf(),
        s.round < usize::MAX,
    ensures
        s.timeout_process(tm).height == s.height,
        s.timeout_process(tm).round >= s.round,
{
    lemma_catch_up_is_highest(
        s.votes.prevote_rounds,
        s.votes.prevote_rounds.len(),
        s.total(),
        s.round,
    );
}

/// While height and round stay, a message never takes the step back.
#[verifier::rlimit(50)]
pub proof fn lemma_process_keeps_step_order(s: BftView, msg: MsgView)
    requires
        s.wf(),
        s.round < usize::MAX,
        acceptable(msg),
    ensures
        s.process(msg).height == s.height && s.process(msg).round == s.round ==> s.process(
            msg,
        ).step.rank() >= s.step.rank(),
{
}

/// While height and round stay, a timeout that was asked for at the current
/// height and round, or before, never takes the step back.
#[verifier::rlimit(50)]
pub proof fn lemma_timeout_keeps_step_order(s: BftView, tm: TimeoutInfo)
    requires
        s.wf(),
        s.round < usize::MAX,
        s.asked_by_now(tm),
    ensures
        s.timeout_process(tm).height == s.height && s.timeout_process(tm).round == s.round
            ==> s.timeout_process(tm).step.rank() >= s.step.rank(),
{
}

/// A timeout that is out of date changes nothing.
pub proof fn lemma_stale_timeout_is_ignored(s: BftView, tm: TimeoutInfo)
    requires
        s.is_stale(tm),
    ensures
        s.timeout_process(tm) == s,
{
}

/// The lock of a proposal that carries one is adopted exactly when the engine
/// holds no lock or one whose round is not later; otherwise nothing changes.
pub proof fn lemma_lock_update_rule(s: BftView, p: ProposalView)
    requires
        p.wf(),
        p.lock_round.is_some(),
    ensures
        (s.lock_status.is_none() || s.lock_status.unwrap().round <= p.lock_round.unwrap())
            <==> s.save_proposal(p).lock_status == Some(
            LockView {
                proposal: p.content,
                round: p.lock_round.unwrap(),
                votes: p.lock_votes.unwrap(),
            },
        ),
        !(s.lock_status.is_none() || s.lock_status.unwrap().round <= p.lock_round.unwrap())
            ==> s.save_proposal(p) == s,
{
}

/// Whether `lock` is a proof of lock change at `height`: votes of one phase
/// for its proposal at its round, from more than two thirds of `total`.
pub open spec fn justified(lock: LockView, height: usize, vote_type: VoteType, total: int) -> bool {
    &&& above_threshold(total, lock.votes.len() as int)
    &&& forall|i: int|
        0 <= i < lock.votes.len() ==> in_slot(
            #[trigger] lock.votes[i],
            height,
            lock.round,
            vote_type,
        ) && lock.votes[i].proposal == lock.proposal
}

/// A lock that the prevotes install is a proof of lock change: it sits at the
/// round the engine is then in and holds prevotes for its proposal at that
/// round from more than two thirds of the authorities.
#[verifier::rlimit(50)]
pub proof fn lemma_prevote_lock_is_justified(s: BftView)
    requires
        s.wf(),
    ensures
        ({
            let t = s.check_prevote().0;
            t.lock_status.is_some() && t.lock_status != s.lock_status ==> t.lock_status.unwrap().round
                == t.round && justified(
                t.lock_status.unwrap(),
                s.height,
                VoteType::Prevote,
                s.total(),
            )
        }),
{
    let (found, round) = catch_up(s.votes.prevote_rounds, s.total(), s.round);
    let set = select(s.votes.votes, s.height, round, VoteType::Prevote);
    let winner = first_winner(set, s.total());
    let t = s.check_prevote().0;
    if t.lock_status.is_some() && t.lock_status != s.lock_status {
        let p = winner.unwrap();
        lemma_select_members(s.votes.votes, s.votes.votes.len(), s.height, round, VoteType::Prevote);
        lemma_winner_is_above(set, s.total(), 0);
        lemma_polc_members(set, set.len(), s.height, round, VoteType::Prevote, p);
        lemma_polc_len_is_tally(set, set.len(), s.height, round, VoteType::Prevote, p);
    }
}

/// When the precommits of the round hold more than two thirds for a proposal,
/// the engine locks on it with exactly those precommits as evidence.
#[verifier::rlimit(50)]
pub proof fn lemma_precommit_lock_is_justified(s: BftView)
    requires
        s.wf(),
        s.round < usize::MAX,
    ensures
        ({
            let (t, ok) = s.check_precommit();
            let winner = first_winner(
                select(s.votes.votes, s.height, s.round, VoteType::Precommit),
                s.total(),
            );
            ok && winner.is_some() ==> {
                &&& t.lock_status.is_some()
                &&& t.height == s.height
                &&& t.round == s.round
                &&& t.lock_status.unwrap().proposal == winner.unwrap()
                &&& t.lock_status.unwrap().round == s.round
                &&& justified(t.lock_status.unwrap(), s.height, VoteType::Precommit, s.total())
            }
        }),
{
    let set = select(s.votes.votes, s.height, s.round, VoteType::Precommit);
    let winner = first_winner(set, s.total());
    if s.check_precommit().1 && winner.is_some() {
        let p = winner.unwrap();
        lemma_select_members(
            s.votes.votes,
            s.votes.votes.len(),
            s.height,
            s.round,
            VoteType::Precommit,
        );
        lemma_winner_is_above(set, s.total(), 0);
        lemma_polc_members(set, set.len(), s.height, s.round, VoteType::Precommit, p);
        lemma_polc_len_is_tally(set, set.len(), s.height, s.round, VoteType::Precommit, p);
    }
}

/// A commit carries the height, and the proposal and the votes of the lock;
/// an engine without a lock commits nothing.
pub proof fn lemma_commit_carries_the_lock(s: BftView)
    ensures
        s.lock_status.is_some() ==> s.proc_commit().1 && s.proc_commit().0.outbox
            == s.outbox.push(
            MsgView::Commit(
                crate::types::CommitView {
                    height: s.height,
                    proposal: s.lock_status.unwrap().proposal,
                    lock_votes: s.lock_status.unwrap().votes,
                },
            ),
        ),
        s.lock_status.is_none() ==> s.proc_commit() == (s, false),
{
}

/// A commit that follows on precommits for a proposal from more than two
/// thirds of the authorities carries that proposal and those precommits: when
/// the engine, at step `Precommit` or `PrecommitWait`, finds such precommits
/// and the timeout of `PrecommitWait` then comes back, the commit that goes
/// out is for the current height and holds the winning proposal with the
/// precommits for it at the current round.
#[verifier::rlimit(50)]
pub proof fn lemma_commit_holds_the_precommits(s: BftView, delay: u128)
    requires
        s.wf(),
        s.round < usize::MAX,
        s.step == Step::Precommit || s.step == Step::PrecommitWait,
        s.check_precommit().1,
        first_winner(
            select(s.votes.votes, s.height, s.round, VoteType::Precommit),
            s.total(),
        ).is_some(),
    ensures
        ({
            let winner = first_winner(
                select(s.votes.votes, s.height, s.round, VoteType::Precommit),
                s.total(),
            ).unwrap();
            let waiting = s.check_precommit().0.step_if(true, Step::PrecommitWait);
            let after = waiting.timeout_process(
                TimeoutInfo {
                    delay,
                    height: s.height,
                    round: s.round,
                    step: Step::PrecommitWait,
                },
            );
            &&& after.step == Step::CommitWait
            &&& after.outbox.len() > 0
            &&& after.outbox.last() is Commit
            &&& after.outbox.last()->Commit_0.height == s.height
            &&& after.outbox.last()->Commit_0.proposal == winner
            &&& justified(
                LockView {
                    proposal: winner,
                    round: s.round,
                    votes: after.outbox.last()->Commit_0.lock_votes,
                },
                s.height,
                VoteType::Precommit,
                s.total(),
            )
        }),
{
    lemma_precommit_lock_is_justified(s);
    let waiting = s.check_precommit().0.step_if(true, Step::PrecommitWait);
    lemma_commit_carries_the_lock(BftView { step: Step::Commit, ..waiting });
}

/// Whether `later` holds everything that `earlier` holds, followed by
/// messages of which none is a commit.
pub open spec fn grows_without_commit(earlier: Seq<MsgView>, later: Seq<MsgView>) -> bool {
    &&& earlier.len() <= later.len()
    &&& forall|i: int| 0 <= i < earlier.len() ==> later[i] == earlier[i]
    &&& forall|i: int| earlier.len() <= i < later.len() ==> !(#[trigger] later[i] is Commit)
}

/// No message of the host makes the engine commit.
#[verifier::rlimit(50)]
pub proof fn lemma_process_commits_nothing(s: BftView, msg: MsgView)
    requires
        s.wf(),
        s.round < usize::MAX,
        acceptable(msg),
    ensures
        grows_without_commit(s.outbox, s.process(msg).outbox),
{
}

/// Only the timeout of `PrecommitWait` makes the engine commit: it then hands
/// out one commit, for its current height, and waits at `CommitWait`.
#[verifier::rlimit(50)]
pub proof fn lemma_timeout_commits_at_most_once(s: BftView, tm: TimeoutInfo)
    requires
        s.wf(),
        s.round < usize::MAX,
    ensures
        ({
            let t = s.timeout_process(tm);
            let committed = !s.is_stale(tm) && tm.step == Step::PrecommitWait
                && s.lock_status.is_some();
            &&& !committed ==> grows_without_commit(s.outbox, t.outbox)
            &&& committed ==> t.step == Step::CommitWait && t.height == s.height && t.outbox
                == s.outbox.push(
                MsgView::Commit(
                    crate::types::CommitView {
                        height: s.height,
                        proposal: s.lock_status.unwrap().proposal,
                        lock_votes: s.lock_status.unwrap().votes,
                    },
                ),
            )
        }),
{
}

/// After a commit the engine is done with its height: at `CommitWait` a
/// message either takes it to a later height or leaves height, round and step
/// as they are and hands out nothing.
#[verifier::rlimit(50)]
pub proof fn lemma_commit_wait_lasts(s: BftView, msg: MsgView)
    requires
        s.wf(),
        s.round < usize::MAX,
        acceptable(msg),
        s.step == Step::CommitWait,
    ensures
        ({
            let t = s.process(msg);
            t.height > s.height || (t.height == s.height && t.round == s.round && t.step
                == Step::CommitWait && t.outbox == s.outbox && t.timers == s.timers)
        }),
{
}

/// At `CommitWait` a timeout that was asked for at the current height and
/// round, or before, changes nothing.
pub proof fn lemma_commit_wait_ignores_timeouts(s: BftView, tm: TimeoutInfo)
    requires
        s.step == Step::CommitWait,
        s.asked_by_now(tm),
    ensures
        s.timeout_process(tm) == s,
{
}

/// A vote that is offered to the engine a second time changes nothing that is
/// stored, and is not stored again.
pub proof fn lemma_vote_is_saved_once(s: BftView, v: VoteView)
    requires
        s.wf(),
    ensures
        s.try_save_vote(v).0.try_save_vote(v).0.votes == s.try_save_vote(v).0.votes,
        !s.try_save_vote(v).0.try_save_vote(v).1,
{
    lemma_add_idempotent(s.votes, v);
}

/// What happens to an engine: a message of the host comes in, or a timeout
/// comes back.
pub enum Event {
    Message(MsgView),
    Timeout(TimeoutInfo),
}

/// The engine after one event.
pub open spec fn step(s: BftView, e: Event) -> BftView {
    match e {
        Event::Message(msg) => s.process(msg),
        Event::Timeout(tm) => s.timeout_process(tm),
    }
}

/// Whether an event can happen to the engine: the round can still be counted
/// up, a message is one that the engine takes, and a timeout is one that the
/// engine can have asked for.
pub open spec fn fits(s: BftView, e: Event) -> bool {
    &&& s.round < usize::MAX
    &&& match e {
        Event::Message(msg) => acceptable(msg),
        Event::Timeout(tm) => s.asked_by_now(tm),
    }
}

/// The engine after a sequence of events.
pub open spec fn run(s: BftView, events: Seq<Event>) -> BftView
    decreases events.len(),
{
    if events.len() == 0 {
        s
    } else {
        step(run(s, events.drop_last()), events.last())
    }
}

/// Whether each event of a sequence fits the engine that it happens to.
pub open spec fn fits_all(s: BftView, events: Seq<Event>) -> bool
    decreases events.len(),
{
    events.len() == 0 || (fits_all(s, events.drop_last()) && fits(
        run(s, events.drop_last()),
        events.last(),
    ))
}

/// The height of a commit.
pub open spec fn commit_height(m: MsgView) -> usize {
    m->Commit_0.height
}

/// Whether the commits that wait in the outbox are in order: their heights
/// go strictly up, none is above the engine's height, and with a commit for
/// its own height out the engine waits at `CommitWait`.
pub open spec fn commits_in_order(s: BftView) -> bool {
    &&& forall|i: int|
        0 <= i < s.outbox.len() && #[trigger] s.outbox[i] is Commit ==> commit_height(s.outbox[i])
            <= s.height
    &&& forall|i: int|
        0 <= i < s.outbox.len() && #[trigger] s.outbox[i] is Commit && commit_height(s.outbox[i])
            == s.height ==> s.step == Step::CommitWait
    &&& forall|i: int, j: int|
        0 <= i < j < s.outbox.len() && #[trigger] s.outbox[i] is Commit
            && #[trigger] s.outbox[j] is Commit ==> commit_height(s.outbox[i]) < commit_height(
            s.outbox[j],
        )
}

/// One event leaves the commits in order.
#[verifier::rlimit(50)]
pub proof fn lemma_step_keeps_commits_in_order(s: BftView, e: Event)
    requires
        s.wf(),
        commits_in_order(s),
        fits(s, e),
    ensures
        commits_in_order(step(s, e)),
        step(s, e).wf(),
{
    let t = step(s, e);
    match e {
        Event::Message(msg) => {
            lemma_process_commits_nothing(s, msg);
            lemma_process_is_monotone(s, msg);
            lemma_process_keeps_wf(s, msg);
            if s.step == Step::CommitWait {
                lemma_commit_wait_lasts(s, msg);
            }
            assert forall|i: int| 0 <= i < t.outbox.len() && #[trigger] t.outbox[i] is Commit implies i
                < s.outbox.len() && t.outbox[i] == s.outbox[i] by {}
        },
        Event::Timeout(tm) => {
            lemma_timeout_commits_at_most_once(s, tm);
            lemma_timeout_is_monotone(s, tm);
            lemma_timeout_keeps_wf(s, tm);
            if s.step == Step::CommitWait {
                lemma_commit_wait_ignores_timeouts(s, tm);
            }
            let committed = !s.is_stale(tm) && tm.step == Step::PrecommitWait
                && s.lock_status.is_some();
            if !committed {
                assert forall|i: int|
                    0 <= i < t.outbox.len() && #[trigger] t.outbox[i] is Commit implies i
                    < s.outbox.len() && t.outbox[i] == s.outbox[i] by {}
            } else {
                assert(s.step == Step::PrecommitWait);
                assert forall|i: int| 0 <= i < s.outbox.len() implies t.outbox[i]
                    == s.outbox[i] by {}
            }
        },
    }
}

/// Whether two states hold the same records: the height, the stored votes
/// and the last commit.
pub open spec fn same_records(s: BftView, t: BftView) -> bool {
    &&& t.height == s.height
    &&& t.votes == s.votes
    &&& t.last_commit_round == s.last_commit_round
    &&& t.last_commit_proposal == s.last_commit_proposal
}

/// Starting a round touches no record.
pub proof fn lemma_round_start_keeps_records(s: BftView)
    ensures
        same_records(s, s.new_round_start()),
{
}

/// Looking at the prevotes touches no record.
pub proof fn lemma_check_prevote_keeps_records(s: BftView)
    ensures
        same_records(s, s.check_prevote().0),
{
}

/// Looking at the precommits touches no record.
pub proof fn lemma_check_precommit_keeps_records(s: BftView)
    ensures
        same_records(s, s.check_precommit().0),
{
    let moved = BftView {
        proposal: if s.lock_status.is_none() {
            None
        } else {
            s.proposal
        },
        round: (s.round + 1) as usize,
        ..s
    };
    lemma_round_start_keeps_records(moved);
}

/// Offering a vote leaves the engine's invariant in place.
pub proof fn lemma_try_save_vote_keeps_wf(s: BftView, v: VoteView)
    requires
        s.wf(),
    ensures
        s.try_save_vote(v).0.wf(),
        s.try_save_vote(v).0.height == s.height,
        s.try_save_vote(v).0.step == s.step,
        s.try_save_vote(v).0.round == s.round,
{
    lemma_add_keeps_wf(s.votes, v);
}

/// A message leaves the engine's invariant in place.
#[verifier::rlimit(50)]
pub proof fn lemma_process_keeps_wf(s: BftView, msg: MsgView)
    requires
        s.wf(),
        s.round < usize::MAX,
        acceptable(msg),
    ensures
        s.process(msg).wf(),
{
    match msg {
        MsgView::Proposal(p) => {
            let s2 = s.handle_proposal(p).0.save_proposal(p);
            let s3 = BftView { step: Step::Prevote, ..s2 }.transmit_prevote();
            assert(same_records(s, s3));
            lemma_check_prevote_keeps_records(s3);
        },
        MsgView::Vote(v) => {
            let s1 = s.try_save_vote(v).0;
            lemma_try_save_vote_keeps_wf(s, v);
            lemma_check_prevote_keeps_records(s1);
            lemma_check_precommit_keeps_records(s1);
        },
        MsgView::Feed(f) => {
            lemma_round_start_keeps_records(s.try_handle_feed(f).0);
        },
        MsgView::RichStatus(status) => {
            lemma_round_start_keeps_records(s.try_handle_status(status).0);
        },
        MsgView::Commit(_) => {},
    }
}

/// A timeout leaves the engine's invariant in place.
#[verifier::rlimit(50)]
pub proof fn lemma_timeout_keeps_wf(s: BftView, tm: TimeoutInfo)
    requires
        s.wf(),
        s.round < usize::MAX,
    ensures
        s.timeout_process(tm).wf(),
{
    let to_prevote = BftView { step: Step::Prevote, ..s }.broadcast_precommit();
    let to_precommit = BftView { step: Step::Precommit, ..s }.broadcast_precommit();
    assert(same_records(s, to_prevote));
    assert(same_records(s, to_precommit));
    lemma_check_prevote_keeps_records(to_prevote);
    lemma_check_precommit_keeps_records(to_precommit);
}

/// However many messages come in and timeouts come back, the commits that
/// pile up in the outbox are for strictly rising heights: no height is
/// committed twice, and a later commit is for a later height.
pub proof fn lemma_one_commit_per_height(s: BftView, events: Seq<Event>)
    requires
        s.wf(),
        commits_in_order(s),
        fits_all(s, events),
    ensures
        commits_in_order(run(s, events)),
        run(s, events).wf(),
    decreases events.len(),
{
    if events.len() > 0 {
        lemma_one_commit_per_height(s, events.drop_last());
        lemma_step_keeps_commits_in_order(run(s, events.drop_last()), events.last());
    }
}

} // verus!
