use crowdchain::types::Contract;
use crowdchain::types::Error;
use crowdchain::types::Transfer;

fn with_profile(id: u64, name: &str) -> Contract {
    let mut c = Contract::init();
    assert!(c.create_profile(id, name.to_string(), None).is_ok());
    c
}

fn plain_campaign(c: &mut Contract, creator: u64, end_time: u64, goal: u64) -> u64 {
    c.create_campaign(
        creator,
        end_time,
        "title".to_string(),
        "about".to_string(),
        "img".to_string(),
        goal,
        "code".to_string(),
    )
    .unwrap()
}

#[test]
fn kyc_gate_on_large_campaigns() {
    let mut c = with_profile(1, "ann");
    let r = c.create_campaign(
        1,
        100,
        "big".to_string(),
        "d".to_string(),
        "i".to_string(),
        5_000_001,
        "x".to_string(),
    );
    assert_eq!(r, Err(Error::PermissionDenied));
    assert!(c.verify_kyc(0, 0, 1).is_ok());
    let r2 = c.create_campaign(
        1,
        100,
        "big".to_string(),
        "d".to_string(),
        "i".to_string(),
        5_000_001,
        "x".to_string(),
    );
    assert_eq!(r2, Ok(0));
    let cam = c.get_campaign(0);
    assert_eq!(cam.total_contributions, 0);
    assert!(cam.contributions.is_empty());
    assert!(!cam.claimed);
}

#[test]
fn threshold_campaign_needs_no_kyc() {
    let mut c = with_profile(1, "ann");
    let r = c.create_campaign(
        1,
        100,
        "t".to_string(),
        "d".to_string(),
        "i".to_string(),
        5_000_000,
        "x".to_string(),
    );
    assert_eq!(r, Ok(0));
}

#[test]
fn create_campaign_without_profile_fails() {
    let mut c = Contract::init();
    let r = c.create_campaign(
        9,
        100,
        "t".to_string(),
        "d".to_string(),
        "i".to_string(),
        10,
        "x".to_string(),
    );
    assert_eq!(r, Err(Error::NotFound));
}

#[test]
fn campaign_ids_are_assigned_in_order() {
    let mut c = with_profile(1, "ann");
    assert_eq!(plain_campaign(&mut c, 1, 100, 10), 0);
    assert_eq!(plain_campaign(&mut c, 1, 100, 10), 1);
    assert_eq!(c.get_user_profile(1).created_campaigns, vec![0, 1]);
}

#[test]
fn campaign_claim_scenario() {
    let mut c = with_profile(1, "creator");
    assert!(c.create_profile(2, "backer".to_string(), None).is_ok());
    let id = plain_campaign(&mut c, 1, 100, 1_000_000);
    assert!(c.contribute(2, 1_000_000, 50, id).is_ok());
    // before the deadline the claim path is closed
    assert_eq!(c.withdraw(50, id), Err(Error::PreconditionFailed));
    // even exactly at the deadline
    assert_eq!(c.withdraw(100, id), Err(Error::PreconditionFailed));
    // after the deadline it succeeds once, paying the creator in full
    assert_eq!(c.withdraw(101, id), Ok(Transfer { to: 1, amount: 1_000_000 }));
    assert!(c.get_campaign(id).claimed);
    // and never again
    assert_eq!(c.withdraw(102, id), Err(Error::InvalidState));
}

#[test]
fn withdraw_needs_funding_goal() {
    let mut c = with_profile(1, "creator");
    assert!(c.create_profile(2, "backer".to_string(), None).is_ok());
    let id = plain_campaign(&mut c, 1, 100, 1_000);
    assert!(c.contribute(2, 999, 50, id).is_ok());
    assert_eq!(c.withdraw(101, id), Err(Error::PreconditionFailed));
}

#[test]
fn withdraw_unknown_campaign_fails() {
    let mut c = Contract::init();
    assert_eq!(c.withdraw(5, 3), Err(Error::NotFound));
}

#[test]
fn contribute_records_pledges_and_dedups_profile() {
    let mut c = with_profile(1, "creator");
    assert!(c.create_profile(2, "backer".to_string(), None).is_ok());
    let id = plain_campaign(&mut c, 1, 100, 500);
    assert!(c.contribute(2, 100, 10, id).is_ok());
    assert!(c.contribute(2, 150, 20, id).is_ok());
    let cam = c.get_campaign(id);
    assert_eq!(cam.total_contributions, 250);
    assert_eq!(cam.contributions.len(), 2);
    assert_eq!(cam.contributions[0].contributor, 2);
    assert_eq!(cam.contributions[0].amount, 100);
    assert_eq!(cam.contributions[1].amount, 150);
    // recorded once in the backer's profile
    assert_eq!(c.get_user_profile(2).contributions, vec![id]);
}

#[test]
fn contribute_error_paths() {
    let mut c = with_profile(1, "creator");
    let id = plain_campaign(&mut c, 1, 100, 500);
    assert_eq!(c.contribute(2, 10, 10, 99), Err(Error::NotFound));
    assert_eq!(c.contribute(2, 10, 10, id), Err(Error::NotFound));
    assert!(c.create_profile(2, "backer".to_string(), None).is_ok());
    assert_eq!(c.contribute(2, 10, 100, id), Err(Error::PreconditionFailed));
    assert_eq!(c.contribute(2, 10, 200, id), Err(Error::PreconditionFailed));
}

#[test]
fn withdraw_funds_paths() {
    let mut c = with_profile(1, "creator");
    assert!(c.create_profile(2, "backer".to_string(), None).is_ok());
    let id = plain_campaign(&mut c, 1, 100, 500);
    assert!(c.contribute(2, 600, 10, id).is_ok());
    assert_eq!(c.withdraw_funds(2, id, 7), Err(Error::PermissionDenied));
    assert_eq!(c.withdraw_funds(1, 42, 7), Err(Error::NotFound));
    // the goal is met but no audit aggregates were ever seeded for this ID,
    // so the repeatable path fails without touching the campaign
    assert_eq!(c.withdraw_funds(1, id, 7), Err(Error::NotFound));
    assert_eq!(c.get_campaign(id).total_contributions, 600);
}

#[test]
fn withdraw_funds_needs_goal() {
    let mut c = with_profile(1, "creator");
    assert!(c.create_profile(2, "backer".to_string(), None).is_ok());
    let id = plain_campaign(&mut c, 1, 100, 500);
    assert!(c.contribute(2, 100, 10, id).is_ok());
    assert_eq!(c.withdraw_funds(1, id, 7), Err(Error::PreconditionFailed));
}

#[test]
fn cancel_campaign_refunds_whole_pool_to_each_contributor() {
    let mut c = with_profile(1, "creator");
    assert!(c.create_profile(2, "backer".to_string(), None).is_ok());
    assert!(c.create_profile(3, "other".to_string(), None).is_ok());
    let id = plain_campaign(&mut c, 1, 100, 500);
    assert!(c.contribute(2, 100, 10, id).is_ok());
    assert!(c.contribute(3, 50, 20, id).is_ok());
    assert_eq!(c.cancel_campaign(2, 30, id), Err(Error::PermissionDenied));
    let refunds = c.cancel_campaign(1, 30, id).unwrap();
    // each contributor is refunded the whole pooled total, not their share
    assert_eq!(refunds, vec![Transfer { to: 2, amount: 150 }, Transfer { to: 3, amount: 150 }]);
    assert_eq!(c.cancel_campaign(1, 31, id), Err(Error::NotFound));
}

#[test]
fn cancel_after_deadline_fails() {
    let mut c = with_profile(1, "creator");
    let id = plain_campaign(&mut c, 1, 100, 500);
    assert_eq!(c.cancel_campaign(1, 100, id), Err(Error::PreconditionFailed));
}

#[test]
fn refund_contributors_on_failed_campaign() {
    let mut c = with_profile(1, "creator");
    assert!(c.create_profile(2, "backer".to_string(), None).is_ok());
    let id = plain_campaign(&mut c, 1, 100, 500);
    assert!(c.contribute(2, 100, 10, id).is_ok());
    assert_eq!(c.refund_contributors(50, id), Err(Error::PreconditionFailed));
    let refunds = c.refund_contributors(101, id).unwrap();
    assert_eq!(refunds, vec![Transfer { to: 2, amount: 100 }]);
    assert_eq!(c.refund_contributors(101, id), Err(Error::NotFound));
}

#[test]
fn refund_blocked_when_goal_met() {
    let mut c = with_profile(1, "creator");
    assert!(c.create_profile(2, "backer".to_string(), None).is_ok());
    let id = plain_campaign(&mut c, 1, 100, 500);
    assert!(c.contribute(2, 500, 10, id).is_ok());
    assert_eq!(c.refund_contributors(101, id), Err(Error::PreconditionFailed));
}

#[test]
fn modify_funding_goal_paths() {
    let mut c = with_profile(1, "creator");
    assert!(c.create_profile(2, "backer".to_string(), None).is_ok());
    let id = plain_campaign(&mut c, 1, 100, 500);
    assert_eq!(c.modify_funding_goal(2, id, 900), Err(Error::PermissionDenied));
    assert!(c.modify_funding_goal(1, id, 900).is_ok());
    assert_eq!(c.get_campaign(id).amount_required, 900);
    assert!(c.contribute(2, 10, 10, id).is_ok());
    assert_eq!(c.modify_funding_goal(1, id, 100), Err(Error::PreconditionFailed));
    assert_eq!(c.modify_funding_goal(1, 77, 100), Err(Error::NotFound));
}

#[test]
fn campaign_status_strings() {
    let mut c = with_profile(1, "creator");
    assert!(c.create_profile(2, "backer".to_string(), None).is_ok());
    let id = plain_campaign(&mut c, 1, 100, 500);
    assert_eq!(c.get_campaign_status(10, id), "Crowdfunding active");
    assert!(c.contribute(2, 500, 10, id).is_ok());
    assert_eq!(c.get_campaign_status(10, id), "Funding goal reached");
    assert_eq!(c.get_campaign_status(101, id), "Crowdfunding ended");
    assert!(c.withdraw(101, id).is_ok());
    assert_eq!(c.get_campaign_status(101, id), "Funds claimed");
}

#[test]
fn campaign_listings_and_pagination() {
    let mut c = with_profile(1, "creator");
    let a = plain_campaign(&mut c, 1, 100, 10);
    let b = plain_campaign(&mut c, 1, 200, 20);
    let d = plain_campaign(&mut c, 1, 300, 30);
    assert_eq!(c.get_all_campaigns_deprecated().len(), 3);
    let all = c.get_all_the_campaign_deprecated();
    assert_eq!(all.len(), 3);
    assert_eq!(all[0].0, a);
    assert_eq!(all[2].0, d);
    let page = c.get_all_campaigns(1, 1);
    assert_eq!(page.len(), 1);
    assert_eq!(page[0].0, b);
    assert_eq!(page[0].1.crowdfunding_end_time, 200);
    assert_eq!(c.get_all_campaigns(-1, 5).len(), 0);
    assert_eq!(c.get_all_campaigns(0, -1).len(), 3);
    assert_eq!(c.get_all_campaigns(5, 2).len(), 0);
}

#[test]
fn contribution_sums_per_user() {
    let mut c = with_profile(1, "creator");
    assert!(c.create_profile(2, "backer".to_string(), None).is_ok());
    assert!(c.create_profile(3, "other".to_string(), None).is_ok());
    let a = plain_campaign(&mut c, 1, 100, 500);
    let b = plain_campaign(&mut c, 1, 100, 500);
    assert!(c.contribute(2, 100, 10, a).is_ok());
    assert!(c.contribute(2, 40, 11, b).is_ok());
    assert!(c.contribute(3, 7, 12, b).is_ok());
    assert_eq!(c.get_user_total_contributions(2), 140);
    assert_eq!(c.get_user_total_contributions(3), 7);
    assert_eq!(c.get_user_total_contributions(9), 0);
    assert_eq!(c.get_user_contribution_to_campaign(b, 2), Ok(40));
    assert_eq!(c.get_user_contribution_to_campaign(a, 3), Ok(0));
    assert_eq!(c.get_user_contribution_to_campaign(42, 2), Err(Error::NotFound));
    let pledges = c.get_campaign_contributions(b);
    assert_eq!(pledges.len(), 2);
    assert_eq!(pledges[0].contributor, 2);
    assert_eq!(pledges[1].amount, 7);
}
