use crowdchain::types::Contract;
use crowdchain::types::Error;
use crowdchain::types::Transfer;

#[test]
fn loan_interest_scenario() {
    let mut c = Contract::init();
    let req = c.create_loan_request(2, 100, 10, 30);
    assert_eq!(req, 0);
    // acceptance needs the full requested amount attached
    assert_eq!(c.accept_loan_request(3, 99, 7, req), Err(Error::PreconditionFailed));
    let loan_id = c.accept_loan_request(3, 100, 7, req).unwrap();
    assert_eq!(loan_id, 0);
    let l = c.get_loan(loan_id);
    assert_eq!(l.borrower, 2);
    assert_eq!(l.lender, 3);
    assert_eq!(l.amount, 100);
    assert_eq!(l.interest_rate, 10);
    assert_eq!(l.start_time, 7);
    assert!(!l.repaid);
    assert!(c.get_loan_request(req).fulfilled);
    // repayment needs principal plus floored interest: 100 + 10 = 110
    assert_eq!(c.repay_loan(2, 109, loan_id), Err(Error::PreconditionFailed));
    assert_eq!(c.repay_loan(3, 110, loan_id), Err(Error::PermissionDenied));
    assert_eq!(c.repay_loan(2, 110, loan_id), Ok(Transfer { to: 3, amount: 110 }));
    assert!(c.get_loan(loan_id).repaid);
    // repaid flips exactly once
    assert_eq!(c.repay_loan(2, 110, loan_id), Err(Error::InvalidState));
}

#[test]
fn interest_rounds_down() {
    let mut c = Contract::init();
    let req = c.create_loan_request(2, 10, 15, 30);
    let loan_id = c.accept_loan_request(3, 10, 0, req).unwrap();
    // 10 + floor(10 * 15 / 100) = 11
    assert_eq!(c.repay_loan(2, 10, loan_id), Err(Error::PreconditionFailed));
    assert_eq!(c.repay_loan(2, 11, loan_id), Ok(Transfer { to: 3, amount: 11 }));
}

#[test]
fn zero_interest_loan() {
    let mut c = Contract::init();
    let req = c.create_loan_request(2, 100, 0, 30);
    let loan_id = c.accept_loan_request(3, 100, 0, req).unwrap();
    assert_eq!(c.repay_loan(2, 100, loan_id), Ok(Transfer { to: 3, amount: 100 }));
}

#[test]
fn accept_paths() {
    let mut c = Contract::init();
    assert_eq!(c.accept_loan_request(3, 100, 0, 9), Err(Error::NotFound));
    let req = c.create_loan_request(2, 50, 5, 30);
    assert!(c.accept_loan_request(3, 50, 0, req).is_ok());
    // a fulfilled request cannot be accepted again
    assert_eq!(c.accept_loan_request(4, 50, 0, req), Err(Error::InvalidState));
}

#[test]
fn repay_unknown_loan_fails() {
    let mut c = Contract::init();
    assert_eq!(c.repay_loan(2, 100, 5), Err(Error::NotFound));
}

#[test]
fn request_ids_increment() {
    let mut c = Contract::init();
    assert_eq!(c.create_loan_request(2, 10, 1, 5), 0);
    assert_eq!(c.create_loan_request(4, 20, 2, 5), 1);
    let all = c.get_all_loan_requests();
    assert_eq!(all.len(), 2);
    assert_eq!(all[0].0, 0);
    assert_eq!(all[0].1.borrower, 2);
    assert_eq!(all[1].1.amount, 20);
}

#[test]
fn loan_listing_pagination() {
    let mut c = Contract::init();
    for i in 0..3u64 {
        let req = c.create_loan_request(2, 10 + i, 0, 5);
        assert!(c.accept_loan_request(3, 10 + i, 0, req).is_ok());
    }
    assert_eq!(c.get_all_loans(0, 3).len(), 3);
    let page = c.get_all_loans(1, 1);
    assert_eq!(page.len(), 1);
    assert_eq!(page[0].0, 1);
    assert_eq!(page[0].1.amount, 11);
    assert_eq!(c.get_all_loans(-2, 3).len(), 0);
    assert_eq!(c.get_all_loans(1, -1).len(), 2);
    assert_eq!(c.get_all_loans(9, 1).len(), 0);
}
