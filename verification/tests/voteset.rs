use bft_rs::algorithm::Step;
use bft_rs::params::{BftParams, BftTimer};
use bft_rs::timer::{Alarm, TimeoutInfo, WaitTimer};
use bft_rs::types::{
    bytes_eq, copy_addresses, copy_bytes, copy_votes, BftMsg, Commit, Feed, LockStatus, Proposal,
    RichStatus, Vote, VoteType,
};
use bft_rs::voteset::VoteCollector;

fn ballot(vote_type: VoteType, height: usize, round: usize, proposal: &[u8], voter: u8) -> Vote {
    Vote { vote_type, height, round, proposal: proposal.to_vec(), voter: vec![voter] }
}

#[test]
fn a_vote_is_stored_once() {
    let mut once = VoteCollector::new();
    assert!(once.add(ballot(VoteType::Prevote, 1, 0, &[1u8], 7)));
    let mut twice = VoteCollector::new();
    assert!(twice.add(ballot(VoteType::Prevote, 1, 0, &[1u8], 7)));
    assert!(!twice.add(ballot(VoteType::Prevote, 1, 0, &[1u8], 7)));
    assert_eq!(once.votes, twice.votes);
    assert_eq!(once.prevote_rounds, twice.prevote_rounds);
    let a = once.get_voteset(1, 0, VoteType::Prevote).unwrap();
    let b = twice.get_voteset(1, 0, VoteType::Prevote).unwrap();
    assert_eq!(a.votes, b.votes);
    assert_eq!(b.count(), 1);
}

#[test]
fn a_voter_cannot_change_its_vote() {
    let mut c = VoteCollector::new();
    assert!(c.add(ballot(VoteType::Prevote, 1, 0, &[1u8], 7)));
    assert!(!c.add(ballot(VoteType::Prevote, 1, 0, &[2u8], 7)));
    assert!(c.add(ballot(VoteType::Precommit, 1, 0, &[2u8], 7)));
    assert!(c.add(ballot(VoteType::Prevote, 1, 1, &[2u8], 7)));
    assert!(c.add(ballot(VoteType::Prevote, 2, 0, &[2u8], 7)));
    assert_eq!(c.votes.len(), 4);
}

#[test]
fn vote_sets_count_by_proposal() {
    let mut c = VoteCollector::new();
    assert!(c.get_voteset(1, 0, VoteType::Prevote).is_none());
    c.add(ballot(VoteType::Prevote, 1, 0, &[1u8], 0));
    c.add(ballot(VoteType::Prevote, 1, 0, &[2u8], 1));
    c.add(ballot(VoteType::Prevote, 1, 0, &[1u8], 2));
    c.add(ballot(VoteType::Prevote, 1, 0, &[1u8], 3));
    c.add(ballot(VoteType::Precommit, 1, 0, &[1u8], 3));
    c.add(ballot(VoteType::Prevote, 1, 1, &[1u8], 3));
    let set = c.get_voteset(1, 0, VoteType::Prevote).unwrap();
    assert_eq!(set.count(), 4);
    assert_eq!(set.votes_for(&vec![1u8]), 3);
    assert_eq!(set.votes_for(&vec![2u8]), 1);
    assert_eq!(set.votes_for(&vec![]), 0);
    assert_eq!(set.votes_for(&vec![1u8]) + set.votes_for(&vec![2u8]), set.count());
    assert_eq!(set.first_above(4), Some(vec![1u8]));
    assert_eq!(set.first_above(5), None);
    assert_eq!(
        set.abstract_polc(1, 0, VoteType::Prevote, &vec![1u8]),
        vec![
            ballot(VoteType::Prevote, 1, 0, &[1u8], 0),
            ballot(VoteType::Prevote, 1, 0, &[1u8], 2),
            ballot(VoteType::Prevote, 1, 0, &[1u8], 3),
        ]
    );
    assert!(set.abstract_polc(1, 1, VoteType::Prevote, &vec![1u8]).is_empty());
    assert!(c.get_voteset(2, 0, VoteType::Prevote).is_none());
}

#[test]
fn prevote_counts_go_by_round_and_can_be_cleared() {
    let mut c = VoteCollector::new();
    c.add(ballot(VoteType::Prevote, 1, 0, &[1u8], 0));
    c.add(ballot(VoteType::Prevote, 1, 0, &[1u8], 1));
    c.add(ballot(VoteType::Prevote, 1, 3, &[1u8], 1));
    c.add(ballot(VoteType::Precommit, 1, 0, &[1u8], 1));
    c.add(ballot(VoteType::Prevote, 1, 0, &[1u8], 1));
    assert_eq!(c.prevote_count(0), 2);
    assert_eq!(c.prevote_count(3), 1);
    assert_eq!(c.prevote_count(1), 0);
    c.clear_prevote_count();
    assert_eq!(c.prevote_count(0), 0);
    assert_eq!(c.votes.len(), 4);
}

#[test]
fn timer_splits_the_interval_in_thirtieths() {
    let mut timer = BftTimer::default();
    assert_eq!(timer.total_duration, 3000);
    assert_eq!(timer.get_propose(), 2400);
    assert_eq!(timer.get_prevote(), 100);
    assert_eq!(timer.get_precommit(), 100);
    assert_eq!(timer.get_commit(), 400);
    timer.set_total_duration(1000);
    assert_eq!(timer.get_propose(), 800);
    assert_eq!(timer.get_prevote(), 33);
    assert_eq!(timer.get_commit(), 133);
    timer.set_total_duration(u64::MAX);
    assert_eq!(timer.get_propose(), 14757395258967641292);
    let params = BftParams::new(vec![1u8, 2]);
    assert_eq!(params.address, vec![1u8, 2]);
    assert_eq!(params.timer, BftTimer::default());
}

#[test]
fn byte_helpers_copy_and_compare() {
    let a = vec![1u8, 2, 3];
    assert_eq!(copy_bytes(&a), a);
    assert!(bytes_eq(&a, &vec![1u8, 2, 3]));
    assert!(!bytes_eq(&a, &vec![1u8, 2]));
    assert!(!bytes_eq(&a, &vec![1u8, 2, 4]));
    assert!(bytes_eq(&vec![], &vec![]));
    let votes = vec![ballot(VoteType::Prevote, 1, 0, &[1u8], 0)];
    assert_eq!(copy_votes(&votes), votes);
    assert_eq!(votes[0].clone(), votes[0]);
}

#[test]
fn messages_are_copied_field_by_field() {
    let votes = vec![ballot(VoteType::Prevote, 3, 1, &[1u8], 0)];
    let proposal = Proposal {
        height: 3,
        round: 2,
        content: vec![1u8],
        lock_round: Some(1),
        lock_votes: Some(votes.clone()),
        proposer: vec![4u8],
    };
    assert_eq!(proposal.clone(), proposal);
    let plain = Proposal {
        height: 3,
        round: 2,
        content: vec![1u8],
        lock_round: None,
        lock_votes: None,
        proposer: vec![4u8],
    };
    assert_eq!(plain.clone(), plain);
    assert_ne!(plain.clone(), proposal);
    let status =
        RichStatus { height: 3, interval: Some(9), authority_list: vec![vec![1u8], vec![2u8, 3]] };
    assert_eq!(status.clone(), status);
    assert_eq!(copy_addresses(&status.authority_list), status.authority_list);
    let commit = Commit { height: 3, proposal: vec![1u8], lock_votes: votes.clone() };
    assert_eq!(commit.clone(), commit);
    let lock = LockStatus { proposal: vec![1u8], round: 1, votes };
    assert_eq!(lock.clone(), lock);
    let feed = Feed { height: 3, proposal: vec![1u8, 2] };
    assert_eq!(feed.clone(), feed);
    for msg in [
        BftMsg::Proposal(proposal),
        BftMsg::Vote(ballot(VoteType::Precommit, 3, 1, &[], 2)),
        BftMsg::Feed(feed),
        BftMsg::RichStatus(status),
        BftMsg::Commit(commit),
    ] {
        assert_eq!(msg.clone(), msg);
    }
}

fn info(delay: u128, round: usize) -> TimeoutInfo {
    TimeoutInfo { delay, height: 1, round, step: Step::ProposeWait }
}

#[test]
fn timeouts_come_back_when_due_and_in_order() {
    let mut timer = WaitTimer::new();
    assert_eq!(timer.next_due(), None);
    assert!(timer.take_due(1000).is_empty());
    timer.set(10, info(300, 0));
    timer.set(20, info(100, 1));
    timer.set(30, info(90, 2));
    timer.set(40, info(500, 3));
    assert_eq!(
        timer.waiting,
        vec![
            Alarm { due: 310, info: info(300, 0) },
            Alarm { due: 120, info: info(100, 1) },
            Alarm { due: 120, info: info(90, 2) },
            Alarm { due: 540, info: info(500, 3) },
        ]
    );
    assert_eq!(timer.next_due(), Some(120));
    assert!(timer.take_due(119).is_empty());
    assert_eq!(timer.take_due(120), vec![info(100, 1), info(90, 2)]);
    assert_eq!(timer.next_due(), Some(310));
    assert_eq!(timer.take_due(1000), vec![info(300, 0), info(500, 3)]);
    assert_eq!(timer.next_due(), None);
    assert!(timer.waiting.is_empty());
}

#[test]
fn a_timeout_beyond_the_clock_is_due_at_its_end() {
    let mut timer = WaitTimer::new();
    timer.set(u128::MAX - 5, info(6, 0));
    timer.set(u128::MAX - 5, info(5, 1));
    assert_eq!(timer.next_due(), Some(u128::MAX));
    assert!(timer.take_due(u128::MAX - 1).is_empty());
    assert_eq!(timer.take_due(u128::MAX), vec![info(6, 0), info(5, 1)]);
}
