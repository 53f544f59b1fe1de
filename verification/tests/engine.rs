use bft_rs::algorithm::{Bft, Step};
use bft_rs::timer::TimeoutInfo;
use bft_rs::types::{BftMsg, Commit, Feed, LockStatus, Proposal, RichStatus, Vote, VoteType};

fn authorities() -> Vec<Vec<u8>> {
    vec![vec![0u8], vec![1u8], vec![2u8], vec![3u8]]
}

fn engine_at_height_one(me: u8) -> Bft {
    let mut engine = Bft::initialize(vec![me]);
    engine.authority_list = authorities();
    engine
}

fn vote(vote_type: VoteType, height: usize, round: usize, proposal: &[u8], voter: u8) -> Vote {
    Vote { vote_type, height, round, proposal: proposal.to_vec(), voter: vec![voter] }
}

fn timeout(height: usize, round: usize, step: Step) -> TimeoutInfo {
    TimeoutInfo { delay: 0, height, round, step }
}

fn status(height: usize) -> RichStatus {
    RichStatus { height, interval: None, authority_list: authorities() }
}

#[test]
fn fresh_engine_starts_at_height_one_round_zero() {
    let engine = Bft::initialize(vec![7u8]);
    assert_eq!(engine.height, 1);
    assert_eq!(engine.round, 0);
    assert_eq!(engine.step, Step::Propose);
    assert!(engine.authority_list.is_empty());
    assert!(engine.outbox.is_empty());
    assert!(engine.timers.is_empty());
    assert_eq!(engine.params.address, vec![7u8]);
    assert_eq!(engine.params.timer.total_duration, 3000);
}

#[test]
fn happy_path_commits_and_advances() {
    let x = [9u8, 9, 9];
    let mut engine = engine_at_height_one(0);
    engine.new_round_start();
    assert_eq!(engine.step, Step::ProposeWait);
    assert_eq!(
        engine.take_timers(),
        vec![TimeoutInfo { delay: 2400, height: 1, round: 0, step: Step::ProposeWait }]
    );
    assert!(engine.take_outbox().is_empty());

    engine.process(BftMsg::Proposal(Proposal {
        height: 1,
        round: 0,
        content: x.to_vec(),
        lock_round: None,
        lock_votes: None,
        proposer: vec![1u8],
    }));
    assert_eq!(engine.step, Step::Prevote);
    assert_eq!(engine.take_outbox(), vec![BftMsg::Vote(vote(VoteType::Prevote, 1, 0, &x, 0))]);
    assert_eq!(
        engine.take_timers(),
        vec![TimeoutInfo { delay: 1500, height: 1, round: 0, step: Step::Prevote }]
    );

    engine.process(BftMsg::Vote(vote(VoteType::Prevote, 1, 0, &x, 1)));
    engine.process(BftMsg::Vote(vote(VoteType::Prevote, 1, 0, &x, 2)));
    assert_eq!(engine.step, Step::Prevote);
    engine.process(BftMsg::Vote(vote(VoteType::Prevote, 1, 0, &x, 3)));
    assert_eq!(engine.step, Step::PrevoteWait);
    assert_eq!(
        engine.take_timers(),
        vec![TimeoutInfo { delay: 100, height: 1, round: 0, step: Step::PrevoteWait }]
    );

    engine.timeout_process(&timeout(1, 0, Step::PrevoteWait));
    assert_eq!(engine.step, Step::Precommit);
    assert_eq!(engine.take_outbox(), vec![BftMsg::Vote(vote(VoteType::Precommit, 1, 0, &x, 0))]);
    assert_eq!(
        engine.take_timers(),
        vec![TimeoutInfo { delay: 1500, height: 1, round: 0, step: Step::Precommit }]
    );

    engine.process(BftMsg::Vote(vote(VoteType::Precommit, 1, 0, &x, 1)));
    engine.process(BftMsg::Vote(vote(VoteType::Precommit, 1, 0, &x, 2)));
    assert_eq!(engine.step, Step::Precommit);
    assert!(engine.lock_status.is_none());
    engine.process(BftMsg::Vote(vote(VoteType::Precommit, 1, 0, &x, 3)));
    assert_eq!(engine.step, Step::PrecommitWait);
    assert_eq!(
        engine.take_timers(),
        vec![TimeoutInfo { delay: 0, height: 1, round: 0, step: Step::PrecommitWait }]
    );
    let evidence = vec![
        vote(VoteType::Precommit, 1, 0, &x, 1),
        vote(VoteType::Precommit, 1, 0, &x, 2),
        vote(VoteType::Precommit, 1, 0, &x, 3),
    ];
    assert_eq!(
        engine.lock_status,
        Some(LockStatus { proposal: x.to_vec(), round: 0, votes: evidence.clone() })
    );

    engine.timeout_process(&timeout(1, 0, Step::PrecommitWait));
    assert_eq!(engine.step, Step::CommitWait);
    assert_eq!(
        engine.take_outbox(),
        vec![BftMsg::Commit(Commit { height: 1, proposal: x.to_vec(), lock_votes: evidence })]
    );
    assert_eq!(engine.last_commit_round, Some(0));
    assert_eq!(engine.last_commit_proposal, Some(x.to_vec()));

    engine.process(BftMsg::RichStatus(status(1)));
    assert_eq!(engine.height, 2);
    assert_eq!(engine.round, 0);
    assert!(engine.lock_status.is_none());
    assert!(engine.proposal.is_none());
    assert_eq!(engine.authority_list, authorities());
    // (2 + 0) mod 4 = 2: another replica proposes.
    assert_eq!(engine.step, Step::ProposeWait);
}

#[test]
fn nil_precommits_start_the_next_round() {
    let mut engine = engine_at_height_one(0);
    engine.step = Step::Precommit;
    engine.proposal = Some(vec![5u8]);
    engine.process(BftMsg::Vote(vote(VoteType::Precommit, 1, 0, &[], 1)));
    engine.process(BftMsg::Vote(vote(VoteType::Precommit, 1, 0, &[], 2)));
    assert_eq!(engine.round, 0);
    let _ = engine.take_outbox();
    let _ = engine.take_timers();
    engine.process(BftMsg::Vote(vote(VoteType::Precommit, 1, 0, &[], 3)));
    assert_eq!(engine.round, 1);
    assert_eq!(engine.height, 1);
    assert!(engine.proposal.is_none());
    // (1 + 1) mod 4 = 2: this replica waits for the proposal of round 1.
    assert_eq!(engine.step, Step::ProposeWait);
    assert!(engine.take_outbox().is_empty());
    assert_eq!(
        engine.take_timers(),
        vec![TimeoutInfo { delay: 4800, height: 1, round: 1, step: Step::ProposeWait }]
    );
}

#[test]
fn nil_precommits_keep_the_proposal_of_a_locked_engine() {
    let mut engine = engine_at_height_one(0);
    engine.step = Step::Precommit;
    engine.proposal = Some(vec![5u8]);
    engine.lock_status = Some(LockStatus { proposal: vec![5u8], round: 0, votes: vec![] });
    engine.process(BftMsg::Vote(vote(VoteType::Precommit, 1, 0, &[], 1)));
    engine.process(BftMsg::Vote(vote(VoteType::Precommit, 1, 0, &[], 2)));
    engine.process(BftMsg::Vote(vote(VoteType::Precommit, 1, 0, &[], 3)));
    assert_eq!(engine.round, 1);
    assert_eq!(engine.proposal, Some(vec![5u8]));
    assert!(engine.lock_status.is_some());
}

#[test]
fn locked_proposer_carries_its_lock_into_the_next_round() {
    let y = [4u8, 2];
    let mut engine = Bft::initialize(vec![2u8]);
    engine.process(BftMsg::RichStatus(status(4)));
    assert_eq!(engine.height, 5);
    // (5 + 0) mod 4 = 1: not this replica.
    assert_eq!(engine.step, Step::ProposeWait);
    let prevotes = vec![
        vote(VoteType::Prevote, 5, 0, &y, 0),
        vote(VoteType::Prevote, 5, 0, &y, 1),
        vote(VoteType::Prevote, 5, 0, &y, 3),
    ];
    engine.lock_status = Some(LockStatus { proposal: y.to_vec(), round: 0, votes: prevotes.clone() });
    engine.proposal = Some(y.to_vec());
    engine.step = Step::Precommit;
    for voter in [0u8, 1, 3] {
        engine.process(BftMsg::Vote(vote(VoteType::Precommit, 5, 0, &[], voter)));
        if voter != 3 {
            let _ = engine.take_outbox();
        }
    }
    // (5 + 1) mod 4 = 2: this replica proposes in round 1.
    assert_eq!(engine.round, 1);
    assert_eq!(engine.step, Step::Prevote);
    assert_eq!(
        engine.take_outbox(),
        vec![
            BftMsg::Proposal(Proposal {
                height: 5,
                round: 1,
                content: y.to_vec(),
                lock_round: Some(0),
                lock_votes: Some(prevotes),
                proposer: vec![2u8],
            }),
            BftMsg::Vote(vote(VoteType::Prevote, 5, 1, &y, 2)),
        ]
    );
}

#[test]
fn later_prevotes_replace_an_earlier_lock() {
    let y = [1u8];
    let z = [2u8];
    let mut engine = engine_at_height_one(0);
    engine.round = 1;
    engine.step = Step::Prevote;
    engine.proposal = Some(y.to_vec());
    engine.lock_status = Some(LockStatus { proposal: y.to_vec(), round: 1, votes: vec![] });
    for voter in [1u8, 2, 3] {
        engine.process(BftMsg::Vote(vote(VoteType::Prevote, 1, 2, &z, voter)));
    }
    assert_eq!(engine.round, 2);
    assert_eq!(engine.step, Step::PrevoteWait);
    assert_eq!(engine.proposal, Some(z.to_vec()));
    assert_eq!(
        engine.lock_status,
        Some(LockStatus {
            proposal: z.to_vec(),
            round: 2,
            votes: vec![
                vote(VoteType::Prevote, 1, 2, &z, 1),
                vote(VoteType::Prevote, 1, 2, &z, 2),
                vote(VoteType::Prevote, 1, 2, &z, 3),
            ],
        })
    );
    assert_eq!(
        engine.take_timers(),
        vec![TimeoutInfo { delay: 0, height: 1, round: 2, step: Step::PrevoteWait }]
    );
    assert_eq!(engine.vote_target(), z.to_vec());
    let _ = engine.take_outbox();
    engine.transmit_prevote();
    assert_eq!(engine.take_outbox(), vec![BftMsg::Vote(vote(VoteType::Prevote, 1, 2, &z, 0))]);
}

#[test]
fn later_nil_prevotes_release_an_earlier_lock() {
    let y = [1u8];
    let mut engine = engine_at_height_one(0);
    engine.round = 1;
    engine.step = Step::Prevote;
    engine.proposal = Some(y.to_vec());
    engine.lock_status = Some(LockStatus { proposal: y.to_vec(), round: 1, votes: vec![] });
    for voter in [1u8, 2, 3] {
        engine.process(BftMsg::Vote(vote(VoteType::Prevote, 1, 2, &[], voter)));
    }
    assert_eq!(engine.round, 2);
    assert!(engine.lock_status.is_none());
    assert!(engine.proposal.is_none());
}

#[test]
fn votes_of_the_last_height_are_answered_with_the_last_commit() {
    let w = [8u8, 8];
    let mut engine = Bft::initialize(vec![0u8]);
    engine.process(BftMsg::RichStatus(status(9)));
    assert_eq!(engine.height, 10);
    engine.last_commit_round = Some(1);
    engine.last_commit_proposal = Some(w.to_vec());
    let _ = engine.take_outbox();
    let _ = engine.take_timers();
    let (round, step) = (engine.round, engine.step);
    let stored = engine.votes.votes.len();

    let saved = engine.try_save_vote(vote(VoteType::Prevote, 9, 3, &[7u8], 2));
    assert!(!saved);
    assert_eq!(
        engine.take_outbox(),
        vec![
            BftMsg::Vote(vote(VoteType::Prevote, 9, 3, &w, 0)),
            BftMsg::Vote(vote(VoteType::Precommit, 9, 3, &w, 0)),
        ]
    );
    assert_eq!((engine.height, engine.round, engine.step), (10, round, step));
    assert_eq!(engine.votes.votes.len(), stored);
    assert!(engine.take_timers().is_empty());

    // Below the round of the last commit nothing is sent.
    assert!(!engine.try_save_vote(vote(VoteType::Prevote, 9, 0, &[7u8], 2)));
    assert!(engine.take_outbox().is_empty());
}

#[test]
fn votes_of_the_last_height_are_dropped_before_any_commit() {
    let mut engine = Bft::initialize(vec![0u8]);
    engine.process(BftMsg::RichStatus(status(1)));
    let _ = engine.take_outbox();
    assert!(!engine.try_save_vote(vote(VoteType::Prevote, 1, 0, &[7u8], 2)));
    assert!(engine.take_outbox().is_empty());
    assert!(engine.votes.votes.is_empty());
}

#[test]
fn votes_of_the_round_before_are_answered_with_a_nil_precommit() {
    let mut engine = engine_at_height_one(0);
    engine.round = 3;
    assert!(!engine.try_save_vote(vote(VoteType::Prevote, 1, 2, &[7u8], 2)));
    assert_eq!(engine.take_outbox(), vec![BftMsg::Vote(vote(VoteType::Precommit, 1, 2, &[], 0))]);
    assert!(engine.votes.votes.is_empty());
    // Two rounds back: dropped in silence.
    assert!(!engine.try_save_vote(vote(VoteType::Prevote, 1, 1, &[7u8], 2)));
    assert!(engine.take_outbox().is_empty());
}

#[test]
fn propose_timeout_backs_off_up_to_ten_doublings() {
    let mut engine = engine_at_height_one(0);
    engine.round = 12;
    // (1 + 12) mod 4 = 1: not this replica.
    engine.new_round_start();
    assert_eq!(engine.step, Step::ProposeWait);
    assert_eq!(
        engine.take_timers(),
        vec![TimeoutInfo { delay: 2400 * 1024, height: 1, round: 12, step: Step::ProposeWait }]
    );
    engine.round = 3;
    assert_eq!(engine.propose_delay(), 2400 * 8);
    engine.round = 10;
    assert_eq!(engine.propose_delay(), 2400 * 1024);
    engine.round = 0;
    assert_eq!(engine.propose_delay(), 2400);
}

#[test]
fn proposer_without_lock_or_feed_waits() {
    let mut engine = engine_at_height_one(1);
    engine.new_round_start();
    assert_eq!(engine.step, Step::ProposeWait);
    assert!(engine.take_outbox().is_empty());
    assert_eq!(
        engine.take_timers(),
        vec![TimeoutInfo { delay: 2400, height: 1, round: 0, step: Step::ProposeWait }]
    );
    // A feed of another height does not help.
    engine.feed = Some(Feed { height: 2, proposal: vec![3u8] });
    engine.new_round_start();
    assert_eq!(engine.step, Step::ProposeWait);
    assert!(engine.take_outbox().is_empty());
}

#[test]
fn proposer_with_feed_proposes_and_prevotes() {
    let mut engine = engine_at_height_one(1);
    engine.new_round_start();
    let _ = engine.take_timers();
    engine.process(BftMsg::Feed(Feed { height: 1, proposal: vec![3u8, 4] }));
    assert_eq!(engine.step, Step::Prevote);
    assert_eq!(
        engine.take_outbox(),
        vec![
            BftMsg::Proposal(Proposal {
                height: 1,
                round: 0,
                content: vec![3u8, 4],
                lock_round: None,
                lock_votes: None,
                proposer: vec![1u8],
            }),
            // The proposer has not taken up its own feed as a proposal: it prevotes nil.
            BftMsg::Vote(vote(VoteType::Prevote, 1, 0, &[], 1)),
        ]
    );
    assert_eq!(
        engine.take_timers(),
        vec![TimeoutInfo { delay: 1500, height: 1, round: 0, step: Step::Prevote }]
    );
}

#[test]
fn empty_authority_list_leaves_the_engine_waiting() {
    let mut engine = Bft::initialize(vec![0u8]);
    engine.new_round_start();
    assert_eq!(engine.step, Step::ProposeWait);
    assert!(engine.take_outbox().is_empty());
    assert!(engine.take_timers().is_empty());
    assert!(!engine.determine_proposer());
}

#[test]
fn early_feed_and_status_are_refused() {
    let mut engine = Bft::initialize(vec![0u8]);
    engine.process(BftMsg::RichStatus(status(3)));
    assert_eq!(engine.height, 4);
    assert!(!engine.try_handle_feed(Feed { height: 3, proposal: vec![1u8] }));
    assert!(engine.feed.is_none());
    assert!(engine.try_handle_feed(Feed { height: 6, proposal: vec![1u8] }));
    assert_eq!(engine.feed, Some(Feed { height: 6, proposal: vec![1u8] }));
    assert!(!engine.try_handle_status(status(2)));
    assert_eq!(engine.height, 4);
    assert!(engine.try_handle_status(RichStatus {
        height: 4,
        interval: Some(6000),
        authority_list: vec![vec![9u8]],
    }));
    assert_eq!(engine.height, 5);
    assert_eq!(engine.authority_list, vec![vec![9u8]]);
    assert_eq!(engine.params.timer.total_duration, 6000);
}

#[test]
fn proposal_with_a_lock_is_adopted_unless_the_own_lock_is_later() {
    let lock_votes = vec![vote(VoteType::Prevote, 1, 2, &[6u8], 1)];
    let incoming = Proposal {
        height: 1,
        round: 4,
        content: vec![6u8],
        lock_round: Some(2),
        lock_votes: Some(lock_votes.clone()),
        proposer: vec![1u8],
    };
    let adopted = Some(LockStatus { proposal: vec![6u8], round: 2, votes: lock_votes });

    let mut unlocked = engine_at_height_one(0);
    unlocked.round = 4;
    unlocked.save_proposal(incoming.clone());
    assert_eq!(unlocked.lock_status, adopted);
    assert_eq!(unlocked.proposal, Some(vec![6u8]));

    let mut same_round = engine_at_height_one(0);
    same_round.round = 4;
    same_round.lock_status = Some(LockStatus { proposal: vec![5u8], round: 2, votes: vec![] });
    same_round.save_proposal(incoming.clone());
    assert_eq!(same_round.lock_status, adopted);

    let mut later = engine_at_height_one(0);
    later.round = 4;
    let own = Some(LockStatus { proposal: vec![5u8], round: 3, votes: vec![] });
    later.lock_status = own.clone();
    later.proposal = Some(vec![5u8]);
    later.save_proposal(incoming);
    assert_eq!(later.lock_status, own);
    assert_eq!(later.proposal, Some(vec![5u8]));

    // Without a lock on either side the content is taken up.
    let mut plain = engine_at_height_one(0);
    plain.save_proposal(Proposal {
        height: 1,
        round: 0,
        content: vec![7u8],
        lock_round: None,
        lock_votes: None,
        proposer: vec![1u8],
    });
    assert_eq!(plain.proposal, Some(vec![7u8]));
    assert!(plain.lock_status.is_none());
}

#[test]
fn proposals_of_other_rounds_are_dropped() {
    let mut engine = engine_at_height_one(0);
    engine.new_round_start();
    let _ = engine.take_timers();
    engine.process(BftMsg::Proposal(Proposal {
        height: 1,
        round: 1,
        content: vec![7u8],
        lock_round: None,
        lock_votes: None,
        proposer: vec![2u8],
    }));
    assert_eq!(engine.step, Step::ProposeWait);
    assert!(engine.proposal.is_none());
    assert!(engine.take_outbox().is_empty());
    engine.process(BftMsg::Proposal(Proposal {
        height: 2,
        round: 0,
        content: vec![7u8],
        lock_round: None,
        lock_votes: None,
        proposer: vec![2u8],
    }));
    assert!(engine.proposal.is_none());
}

#[test]
fn stale_timeouts_change_nothing() {
    let mut engine = Bft::initialize(vec![0u8]);
    engine.process(BftMsg::RichStatus(status(4)));
    engine.round = 2;
    engine.step = Step::Prevote;
    let _ = engine.take_outbox();
    let _ = engine.take_timers();
    for stale in [
        timeout(4, 9, Step::Prevote),
        timeout(5, 1, Step::Prevote),
        timeout(5, 2, Step::ProposeWait),
        timeout(5, 2, Step::PrecommitWait),
    ] {
        engine.timeout_process(&stale);
        assert_eq!((engine.height, engine.round, engine.step), (5, 2, Step::Prevote));
        assert!(engine.outbox.is_empty());
        assert!(engine.timers.is_empty());
    }
    engine.timeout_process(&timeout(5, 2, Step::Prevote));
    assert_eq!(engine.take_outbox(), vec![BftMsg::Vote(vote(VoteType::Prevote, 5, 2, &[], 0))]);
}

#[test]
fn propose_wait_timeout_sends_a_precommit_and_moves_to_prevote() {
    let mut engine = engine_at_height_one(0);
    engine.new_round_start();
    let _ = engine.take_timers();
    engine.timeout_process(&timeout(1, 0, Step::ProposeWait));
    assert_eq!(engine.step, Step::Prevote);
    assert_eq!(engine.take_outbox(), vec![BftMsg::Vote(vote(VoteType::Precommit, 1, 0, &[], 0))]);
    assert_eq!(
        engine.take_timers(),
        vec![TimeoutInfo { delay: 1500, height: 1, round: 0, step: Step::Precommit }]
    );
}

#[test]
fn precommit_timeout_repeats_both_votes() {
    let mut engine = engine_at_height_one(0);
    engine.step = Step::Precommit;
    engine.proposal = Some(vec![3u8]);
    engine.timeout_process(&timeout(1, 0, Step::Precommit));
    assert_eq!(engine.step, Step::Precommit);
    assert_eq!(
        engine.take_outbox(),
        vec![
            BftMsg::Vote(vote(VoteType::Prevote, 1, 0, &[3u8], 0)),
            BftMsg::Vote(vote(VoteType::Precommit, 1, 0, &[3u8], 0)),
        ]
    );
}

#[test]
fn commit_without_lock_emits_nothing() {
    let mut engine = engine_at_height_one(0);
    engine.step = Step::PrecommitWait;
    engine.timeout_process(&timeout(1, 0, Step::PrecommitWait));
    assert_eq!(engine.step, Step::CommitWait);
    assert!(engine.take_outbox().is_empty());
    assert_eq!(engine.last_commit_round, None);
}

#[test]
fn all_votes_in_make_the_wait_zero() {
    let x = [9u8];
    let mut engine = engine_at_height_one(0);
    engine.step = Step::Prevote;
    for voter in [0u8, 1, 2, 3] {
        engine.process(BftMsg::Vote(vote(VoteType::Prevote, 1, 0, &x, voter)));
    }
    // The third prevote moved the engine on; the fourth comes at PrevoteWait.
    assert_eq!(engine.step, Step::PrevoteWait);
    assert_eq!(
        engine.take_timers(),
        vec![TimeoutInfo { delay: 100, height: 1, round: 0, step: Step::PrevoteWait }]
    );
    engine.step = Step::Prevote;
    assert!(engine.check_prevote());
    assert_eq!(
        engine.take_timers(),
        vec![TimeoutInfo { delay: 0, height: 1, round: 0, step: Step::PrevoteWait }]
    );
}

#[test]
fn thresholds_are_strictly_above_two_thirds() {
    let engine = engine_at_height_one(0);
    assert!(!engine.cal_above_threshold(2));
    assert!(engine.cal_above_threshold(3));
    assert!(engine.cal_all_vote(4));
    assert!(!engine.cal_all_vote(3));
    let mut six = Bft::initialize(vec![0u8]);
    six.authority_list = vec![vec![0u8], vec![1], vec![2], vec![3], vec![4], vec![5]];
    assert!(!six.cal_above_threshold(4));
    assert!(six.cal_above_threshold(5));
}

#[test]
fn steps_are_numbered_in_order() {
    let all = [
        Step::Propose,
        Step::ProposeWait,
        Step::Prevote,
        Step::PrevoteWait,
        Step::Precommit,
        Step::PrecommitWait,
        Step::Commit,
        Step::CommitWait,
    ];
    for (i, step) in all.iter().enumerate() {
        assert_eq!(Step::from(i as u8), *step);
        assert_eq!(step.to_u8(), i as u8);
    }
    assert_eq!(Step::default(), Step::Propose);
    assert!(Step::Propose < Step::ProposeWait);
    assert!(Step::PrecommitWait < Step::Commit);
}

#[test]
fn a_height_is_committed_once() {
    let x = [9u8];
    let mut engine = engine_at_height_one(0);
    engine.step = Step::Precommit;
    for voter in [1u8, 2, 3] {
        engine.process(BftMsg::Vote(vote(VoteType::Precommit, 1, 0, &x, voter)));
    }
    assert_eq!(engine.step, Step::PrecommitWait);
    engine.timeout_process(&timeout(1, 0, Step::PrecommitWait));
    let commits = engine
        .take_outbox()
        .into_iter()
        .filter(|m| matches!(m, BftMsg::Commit(_)))
        .count();
    assert_eq!(commits, 1);
    assert_eq!(engine.step, Step::CommitWait);
    let _ = engine.take_timers();

    // The same timeout again, late votes, proposals and feeds: nothing more comes out.
    engine.timeout_process(&timeout(1, 0, Step::PrecommitWait));
    engine.timeout_process(&timeout(1, 0, Step::Precommit));
    engine.process(BftMsg::Vote(vote(VoteType::Precommit, 1, 0, &x, 0)));
    engine.process(BftMsg::Vote(vote(VoteType::Prevote, 1, 0, &x, 0)));
    engine.process(BftMsg::Proposal(Proposal {
        height: 1,
        round: 0,
        content: x.to_vec(),
        lock_round: None,
        lock_votes: None,
        proposer: vec![1u8],
    }));
    engine.process(BftMsg::Feed(Feed { height: 1, proposal: x.to_vec() }));
    engine.process(BftMsg::Commit(Commit { height: 1, proposal: x.to_vec(), lock_votes: vec![] }));
    assert!(engine.take_outbox().is_empty());
    assert!(engine.take_timers().is_empty());
    assert_eq!((engine.height, engine.round, engine.step), (1, 0, Step::CommitWait));
}

#[test]
fn height_advance_releases_the_votes() {
    let mut engine = engine_at_height_one(0);
    engine.step = Step::Prevote;
    engine.process(BftMsg::Vote(vote(VoteType::Prevote, 1, 0, &[1u8], 1)));
    engine.process(BftMsg::Vote(vote(VoteType::Precommit, 1, 0, &[1u8], 1)));
    assert_eq!(engine.votes.votes.len(), 2);
    assert_eq!(engine.votes.prevote_count(0), 1);
    engine.feed = Some(Feed { height: 1, proposal: vec![1u8] });
    engine.process(BftMsg::RichStatus(status(1)));
    assert_eq!(engine.height, 2);
    assert!(engine.votes.votes.is_empty());
    assert_eq!(engine.votes.prevote_count(0), 0);
    assert_eq!(engine.feed, Some(Feed { height: 1, proposal: vec![1u8] }));
}

#[test]
fn round_and_step_do_not_go_back() {
    let x = [9u8];
    let mut engine = engine_at_height_one(0);
    engine.new_round_start();
    let mut seen = (engine.height, engine.round, engine.step);
    let mut inputs: Vec<BftMsg> = Vec::new();
    inputs.push(BftMsg::Proposal(Proposal {
        height: 1,
        round: 0,
        content: x.to_vec(),
        lock_round: None,
        lock_votes: None,
        proposer: vec![1u8],
    }));
    for voter in [1u8, 2, 3] {
        inputs.push(BftMsg::Vote(vote(VoteType::Prevote, 1, 0, &x, voter)));
        inputs.push(BftMsg::Vote(vote(VoteType::Prevote, 1, 3, &x, voter)));
        inputs.push(BftMsg::Vote(vote(VoteType::Precommit, 1, 3, &[], voter)));
    }
    inputs.push(BftMsg::RichStatus(status(7)));
    for msg in inputs {
        engine.process(msg);
        let now = (engine.height, engine.round, engine.step);
        assert!(now.0 >= seen.0);
        if now.0 == seen.0 {
            assert!(now.1 >= seen.1);
            if now.1 == seen.1 {
                assert!(now.2 >= seen.2);
            }
        }
        seen = now;
    }
    assert_eq!(seen, (8, 0, Step::ProposeWait));
}

#[test]
fn catching_up_takes_the_highest_round_with_enough_prevotes() {
    let x = [9u8];
    let mut engine = engine_at_height_one(0);
    engine.step = Step::ProposeWait;
    for voter in [1u8, 2, 3] {
        engine.process(BftMsg::Vote(vote(VoteType::Prevote, 1, 5, &x, voter)));
        engine.process(BftMsg::Vote(vote(VoteType::Prevote, 1, 2, &x, voter)));
    }
    engine.process(BftMsg::Vote(vote(VoteType::Prevote, 1, 7, &x, 1)));
    // Below step Prevote the prevotes are stored and not yet looked at.
    assert_eq!(engine.round, 0);
    engine.step = Step::Prevote;
    assert!(engine.check_prevote());
    assert_eq!(engine.round, 5);
    assert_eq!(
        engine.take_timers(),
        vec![TimeoutInfo { delay: 100, height: 1, round: 5, step: Step::PrevoteWait }]
    );
    // Nothing at or above the round has enough prevotes any more.
    engine.round = 6;
    assert!(!engine.check_prevote());
    assert_eq!(engine.round, 6);
}

#[test]
fn precommits_short_of_two_thirds_decide_nothing() {
    let x = [9u8];
    let mut engine = engine_at_height_one(0);
    engine.step = Step::Precommit;
    assert!(!engine.check_precommit());
    engine.process(BftMsg::Vote(vote(VoteType::Precommit, 1, 0, &x, 1)));
    engine.process(BftMsg::Vote(vote(VoteType::Precommit, 1, 0, &x, 2)));
    assert_eq!(engine.step, Step::Precommit);
    assert!(engine.lock_status.is_none());
    // More than two thirds in all, and no proposal with more than two thirds.
    engine.process(BftMsg::Vote(vote(VoteType::Precommit, 1, 0, &[], 3)));
    assert_eq!(engine.step, Step::PrecommitWait);
    assert!(engine.lock_status.is_none());
    assert_eq!(
        engine.take_timers(),
        vec![TimeoutInfo { delay: 100, height: 1, round: 0, step: Step::PrecommitWait }]
    );
}

#[test]
fn malformed_messages_are_told_apart() {
    let mut engine = engine_at_height_one(0);
    let half = Proposal {
        height: 1,
        round: 0,
        content: vec![1u8],
        lock_round: Some(0),
        lock_votes: None,
        proposer: vec![1u8],
    };
    assert!(!engine.can_process(&BftMsg::Proposal(half)));
    let whole = Proposal {
        height: 1,
        round: 0,
        content: vec![1u8],
        lock_round: Some(0),
        lock_votes: Some(vec![]),
        proposer: vec![1u8],
    };
    assert!(engine.can_process(&BftMsg::Proposal(whole)));
    assert!(engine.can_process(&BftMsg::RichStatus(status(usize::MAX - 1))));
    assert!(!engine.can_process(&BftMsg::RichStatus(status(usize::MAX))));
    assert!(engine.can_process(&BftMsg::Feed(Feed { height: 0, proposal: vec![] })));
    assert!(engine.can_timeout());
    engine.round = usize::MAX;
    assert!(!engine.can_timeout());
    assert!(!engine.can_process(&BftMsg::Feed(Feed { height: 0, proposal: vec![] })));
}
