use crowdchain::types::Contract;
use crowdchain::types::Error;

#[test]
fn profile_round_trip() {
    let mut c = Contract::init();
    let r = c.create_profile(1, "ann".to_string(), Some("hi there".to_string()));
    assert!(r.is_ok());
    let p = c.get_user_profile(1);
    assert_eq!(p.username, "ann");
    assert_eq!(p.bio, Some("hi there".to_string()));
    assert!(!p.kyc_verified);
    assert!(p.contributions.is_empty());
    assert!(p.created_campaigns.is_empty());
}

#[test]
fn profile_round_trip_without_bio() {
    let mut c = Contract::init();
    assert!(c.create_profile(7, "bo".to_string(), None).is_ok());
    let p = c.get_user_profile(7);
    assert_eq!(p.username, "bo");
    assert_eq!(p.bio, None);
    assert!(!p.kyc_verified);
}

#[test]
fn duplicate_profile_rejected() {
    let mut c = Contract::init();
    assert!(c.create_profile(1, "ann".to_string(), None).is_ok());
    let r = c.create_profile(1, "ann again".to_string(), None);
    assert_eq!(r, Err(Error::AlreadyExists));
    assert_eq!(c.get_user_profile(1).username, "ann");
}

#[test]
fn update_profile_changes_only_bio() {
    let mut c = Contract::init();
    assert!(c.create_profile(1, "ann".to_string(), Some("old".to_string())).is_ok());
    assert!(c.update_profile(1, Some("new".to_string())).is_ok());
    let p = c.get_user_profile(1);
    assert_eq!(p.username, "ann");
    assert_eq!(p.bio, Some("new".to_string()));
    assert!(c.update_profile(1, None).is_ok());
    assert_eq!(c.get_user_profile(1).bio, None);
}

#[test]
fn update_profile_without_profile_fails() {
    let mut c = Contract::init();
    assert_eq!(c.update_profile(5, Some("x".to_string())), Err(Error::NotFound));
}

#[test]
fn verify_kyc_is_privileged() {
    let mut c = Contract::init();
    assert!(c.create_profile(1, "ann".to_string(), None).is_ok());
    assert_eq!(c.verify_kyc(2, 0, 1), Err(Error::PermissionDenied));
    assert!(!c.get_user_profile(1).kyc_verified);
    assert!(c.verify_kyc(0, 0, 1).is_ok());
    assert!(c.get_user_profile(1).kyc_verified);
}

#[test]
fn verify_kyc_unknown_user_fails() {
    let mut c = Contract::init();
    assert_eq!(c.verify_kyc(0, 0, 9), Err(Error::NotFound));
}

#[test]
fn remove_profile_is_privileged() {
    let mut c = Contract::init();
    assert!(c.create_profile(1, "ann".to_string(), None).is_ok());
    assert_eq!(c.remove_profile(3, 0, 1), Err(Error::PermissionDenied));
    assert!(c.user_exists(1));
    assert!(c.remove_profile(0, 0, 1).is_ok());
    assert!(!c.user_exists(1));
    // removing an absent profile is a quiet no-op
    assert!(c.remove_profile(0, 0, 1).is_ok());
}

#[test]
fn existence_checks() {
    let mut c = Contract::init();
    assert!(!c.do_i_exists(1));
    assert!(!c.user_exists(1));
    assert!(c.create_profile(1, "ann".to_string(), None).is_ok());
    assert!(c.do_i_exists(1));
    assert!(c.user_exists(1));
    assert!(!c.user_exists(2));
}
