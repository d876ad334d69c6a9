use crowdchain::types::Contract;
use crowdchain::types::Error;

const SELF_ACCOUNT: u64 = 0;

fn with_roster(members: &[u64]) -> Contract {
    let mut c = Contract::init();
    for m in members {
        assert!(c.add_trusted_member(SELF_ACCOUNT, SELF_ACCOUNT, *m).is_ok());
    }
    c
}

#[test]
fn majority_execution_scenario() {
    // roster of three; two supporting votes beat floor(3 / 2) = 1
    let mut c = with_roster(&[10, 11, 12]);
    let pid = c.create_proposal(10, "fund the commons".to_string()).unwrap();
    assert!(c.vote(11, pid, true).is_ok());
    assert!(c.vote(12, pid, true).is_ok());
    assert!(c.execute_proposal(pid).is_ok());
    assert!(c.get_proposal(pid).executed);
    // a second execution fails on the terminal state
    assert_eq!(c.execute_proposal(pid), Err(Error::InvalidState));
}

#[test]
fn execution_needs_strict_majority() {
    let mut c = with_roster(&[10, 11, 12]);
    let pid = c.create_proposal(10, "p".to_string()).unwrap();
    assert!(c.vote(11, pid, true).is_ok());
    // one vote does not strictly exceed floor(3 / 2) = 1
    assert_eq!(c.execute_proposal(pid), Err(Error::PreconditionFailed));
    assert!(c.vote(12, pid, true).is_ok());
    assert!(c.execute_proposal(pid).is_ok());
}

#[test]
fn execute_unknown_proposal_fails() {
    let mut c = with_roster(&[10]);
    assert_eq!(c.execute_proposal(4), Err(Error::NotFound));
}

#[test]
fn add_trusted_member_is_privileged() {
    let mut c = Contract::init();
    assert_eq!(c.add_trusted_member(5, SELF_ACCOUNT, 5), Err(Error::PermissionDenied));
    assert!(!c.is_a_trusted_member(5));
    assert!(c.add_trusted_member(SELF_ACCOUNT, SELF_ACCOUNT, 5).is_ok());
    assert!(c.is_a_trusted_member(5));
}

#[test]
fn create_proposal_needs_membership() {
    let mut c = with_roster(&[10]);
    assert_eq!(c.create_proposal(99, "p".to_string()), Err(Error::PermissionDenied));
    let pid = c.create_proposal(10, "p".to_string()).unwrap();
    assert_eq!(pid, 0);
    let p = c.get_proposal(pid);
    assert_eq!(p.id, 0);
    assert_eq!(p.proposer, 10);
    assert_eq!(p.description, "p");
    assert_eq!(p.votes_for, 0);
    assert_eq!(p.votes_against, 0);
    assert!(!p.executed);
}

#[test]
fn vote_paths() {
    let mut c = with_roster(&[10, 11]);
    let pid = c.create_proposal(10, "p".to_string()).unwrap();
    assert_eq!(c.vote(99, pid, true), Err(Error::PermissionDenied));
    assert_eq!(c.vote(10, 7, true), Err(Error::NotFound));
    assert!(c.vote(10, pid, true).is_ok());
    assert!(c.vote(11, pid, false).is_ok());
    let p = c.get_proposal(pid);
    assert_eq!(p.votes_for, 1);
    assert_eq!(p.votes_against, 1);
}

#[test]
fn votes_after_execution_are_rejected() {
    let mut c = with_roster(&[10]);
    let pid = c.create_proposal(10, "p".to_string()).unwrap();
    assert!(c.vote(10, pid, true).is_ok());
    assert!(c.execute_proposal(pid).is_ok());
    assert_eq!(c.vote(10, pid, true), Err(Error::InvalidState));
}

#[test]
fn repeat_votes_all_count() {
    let mut c = with_roster(&[10, 11, 12]);
    let pid = c.create_proposal(10, "p".to_string()).unwrap();
    assert!(c.vote(10, pid, true).is_ok());
    assert!(c.vote(10, pid, true).is_ok());
    assert_eq!(c.get_proposal(pid).votes_for, 2);
    // two votes from one member still clear the bar
    assert!(c.execute_proposal(pid).is_ok());
}

#[test]
fn proposal_ids_increment() {
    let mut c = with_roster(&[10]);
    assert_eq!(c.create_proposal(10, "a".to_string()).unwrap(), 0);
    assert_eq!(c.create_proposal(10, "b".to_string()).unwrap(), 1);
    let all = c.get_all_proposals();
    assert_eq!(all.len(), 2);
    assert_eq!(all[1].description, "b");
}

#[test]
fn treasury_accumulates() {
    let mut c = Contract::init();
    assert_eq!(c.treasury, 0);
    c.contribute_to_treasury(40);
    c.contribute_to_treasury(2);
    assert_eq!(c.treasury, 42);
}

#[test]
fn verify_user_respects_bans() {
    let mut c = Contract::init();
    // no public operation inserts a ban, so seed the set directly
    c.banned_users.items.push(9);
    assert_eq!(c.verify_user(9), Err(Error::PermissionDenied));
    assert!(!c.verified_users.items.contains(&9));
    c.unban_user(9);
    assert!(c.verify_user(9).is_ok());
    assert!(c.verified_users.items.contains(&9));
}

#[test]
fn verify_user_is_idempotent() {
    let mut c = Contract::init();
    assert!(c.verify_user(4).is_ok());
    assert!(c.verify_user(4).is_ok());
    assert_eq!(c.verified_users.items, vec![4]);
}

#[test]
fn unban_absent_user_is_noop() {
    let mut c = Contract::init();
    c.unban_user(4);
    assert!(c.banned_users.items.is_empty());
}
