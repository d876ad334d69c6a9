//! The loan ledger: request, acceptance and repayment of flat-rate loans.

use vstd::prelude::*;

use crate::keyed::lemma_remove_insert_is_update;
use crate::types::Contract;
use crate::types::Error;
use crate::types::Loan;
use crate::types::LoanRequest;
use crate::types::Transfer;
use crate::types::only_loan_ledgers_changed;
use crate::types::only_loan_requests_changed;
use crate::types::only_loans_changed;

verus! {

/// The exact repayment figure of a loan: principal plus flat interest,
/// rounded down.
pub open spec fn repayment_due(l: Loan) -> int {
    l.amount + (l.amount as int) * (l.interest_rate as int) / 100
}

/// `accept_loan_request` succeeds exactly when the request exists, is still
/// open, and the attached value covers the requested amount.
pub open spec fn accept_ok(s: Contract, loan_request_id: u64, deposit: u64) -> bool {
    &&& s.loan_requests.contains_spec(loan_request_id)
    &&& !s.loan_requests.get_spec(loan_request_id).fulfilled
    &&& deposit >= s.loan_requests.get_spec(loan_request_id).amount
}

/// `repay_loan` succeeds exactly when the loan exists, the caller is its
/// borrower, it is not yet repaid, and the attached value covers the
/// repayment figure.
pub open spec fn repay_ok(s: Contract, caller: u64, loan_id: u64, deposit: u64) -> bool {
    &&& s.loans.contains_spec(loan_id)
    &&& s.loans.get_spec(loan_id).borrower == caller
    &&& !s.loans.get_spec(loan_id).repaid
    &&& deposit >= repayment_due(s.loans.get_spec(loan_id))
}

/// How a successful `repay_loan` changes the state: the loan is marked
/// repaid, in place, and nothing else moves.
pub open spec fn repay_post(pre: Contract, post: Contract, loan_id: u64) -> bool {
    &&& only_loans_changed(pre, post)
    &&& post.loans.seq() == pre.loans.seq().update(
        pre.loans.key_index(loan_id),
        (loan_id, Loan { repaid: true, ..pre.loans.get_spec(loan_id) }),
    )
    &&& post.loans.contains_spec(loan_id)
    &&& post.loans.get_spec(loan_id) == Loan { repaid: true, ..pre.loans.get_spec(loan_id) }
    &&& forall|k: u64| k != loan_id ==> post.loans.contains_spec(k) == pre.loans.contains_spec(k)
    &&& forall|k: u64|
        k != loan_id && pre.loans.contains_spec(k) ==> post.loans.get_spec(k)
            == pre.loans.get_spec(k)
}

impl Contract {
    /// Opens a loan request under the next request ID; always succeeds.
    pub fn create_loan_request(
        &mut self,
        caller: u64,
        amount: u64,
        interest_rate: u8,
        duration: u64,
    ) -> (r: u64)
        requires
            old(self).wf(),
            old(self).next_loan_request_id < u64::MAX,
        ensures
            final(self).wf(),
            r == old(self).next_loan_request_id,
            final(self).next_loan_request_id == old(self).next_loan_request_id + 1,
            final(self).loan_requests.seq() == old(self).loan_requests.seq().push(
                (
                    r,
                    LoanRequest {
                        borrower: caller,
                        amount,
                        interest_rate,
                        duration,
                        fulfilled: false,
                    },
                ),
            ),
            only_loan_requests_changed(*old(self), *final(self)),
    {
        let loan_request_id = self.next_loan_request_id;
        let loan_request = LoanRequest { borrower: caller, amount, interest_rate, duration, fulfilled: false };
        self.loan_requests.push_new(loan_request_id, loan_request);
        self.next_loan_request_id = self.next_loan_request_id + 1;
        proof {
            assert forall|k: u64| self.loan_requests.contains_spec(k) implies k
                < self.next_loan_request_id by {}
        }
        loan_request_id
    }

    /// Accepts an open loan request: marks it fulfilled and creates the loan
    /// under the next loan ID, with the caller as lender and `now` as the
    /// loan's start time. The request must still be open and the attached
    /// value must cover the requested amount; the attached value is what
    /// funds the borrower.
    pub fn accept_loan_request(
        &mut self,
        caller: u64,
        deposit: u64,
        now: u64,
        loan_request_id: u64,
    ) -> (r: Result<u64, Error>)
        requires
            old(self).wf(),
            old(self).next_loan_id < u64::MAX,
        ensures
            final(self).wf(),
            r is Ok <==> accept_ok(*old(self), loan_request_id, deposit),
            !old(self).loan_requests.contains_spec(loan_request_id) ==> r == Err::<u64, Error>(
                Error::NotFound,
            ),
            old(self).loan_requests.contains_spec(loan_request_id) && old(
                self,
            ).loan_requests.get_spec(loan_request_id).fulfilled ==> r == Err::<u64, Error>(
                Error::InvalidState,
            ),
            old(self).loan_requests.contains_spec(loan_request_id) && !old(
                self,
            ).loan_requests.get_spec(loan_request_id).fulfilled && deposit < old(
                self,
            ).loan_requests.get_spec(loan_request_id).amount ==> r == Err::<u64, Error>(
                Error::PreconditionFailed,
            ),
            r is Err ==> *final(self) == *old(self),
            r is Ok ==> {
                let req = old(self).loan_requests.get_spec(loan_request_id);
                let loan_id = old(self).next_loan_id;
                let loan = Loan {
                    loan_id,
                    borrower: req.borrower,
                    lender: caller,
                    amount: req.amount,
                    interest_rate: req.interest_rate,
                    duration: req.duration,
                    start_time: now,
                    repaid: false,
                };
                &&& r == Ok::<u64, Error>(loan_id)
                &&& final(self).next_loan_id == loan_id + 1
                &&& final(self).loan_requests.seq() == old(self).loan_requests.seq().update(
                    old(self).loan_requests.key_index(loan_request_id),
                    (loan_request_id, LoanRequest { fulfilled: true, ..req }),
                )
                &&& final(self).loan_requests.get_spec(loan_request_id) == LoanRequest {
                    fulfilled: true,
                    ..req
                }
                &&& forall|k: u64|
                    final(self).loan_requests.contains_spec(k) == old(
                        self,
                    ).loan_requests.contains_spec(k)
                &&& forall|k: u64|
                    k != loan_request_id && old(self).loan_requests.contains_spec(k) ==> final(self).loan_requests.get_spec(k) == old(self).loan_requests.get_spec(k)
                &&& final(self).loans.seq() == old(self).loans.seq().push((loan_id, loan))
                &&& final(self).loans.contains_spec(loan_id)
                &&& final(self).loans.get_spec(loan_id) == loan
                &&& forall|k: u64|
                    k != loan_id ==> final(self).loans.contains_spec(k) == old(
                        self,
                    ).loans.contains_spec(k)
                &&& forall|k: u64|
                    k != loan_id && old(self).loans.contains_spec(k) ==> final(self).loans.get_spec(k) == old(self).loans.get_spec(k)
                &&& only_loan_ledgers_changed(*old(self), *final(self))
            },
    {
        let idx = match self.loan_requests.index_of(loan_request_id) {
            None => {
                return Err(Error::NotFound);
            },
            Some(i) => i,
        };
        let req = self.loan_requests.at(idx).1;
        if req.fulfilled {
            return Err(Error::InvalidState);
        }
        if deposit < req.amount {
            return Err(Error::PreconditionFailed);
        }
        let ghost pre = *self;
        let (rk, mut request) = self.loan_requests.remove_at(idx);
        request.fulfilled = true;
        self.loan_requests.insert_at(idx, rk, request);
        proof {
            lemma_remove_insert_is_update(pre.loan_requests.seq(), idx as int, (rk, request));
        }
        let loan_id = self.next_loan_id;
        let loan = Loan {
            loan_id,
            borrower: request.borrower,
            lender: caller,
            amount: request.amount,
            interest_rate: request.interest_rate,
            duration: request.duration,
            start_time: now,
            repaid: false,
        };
        proof {
            if self.loans.contains_spec(loan_id) {
                assert(loan_id < pre.next_loan_id);
            }
        }
        self.loans.push_new(loan_id, loan);
        self.next_loan_id = self.next_loan_id + 1;
        proof {
            assert forall|k: u64| self.loan_requests.contains_spec(k) implies k
                < self.next_loan_request_id by {
                if k != loan_request_id {
                    assert(pre.loan_requests.contains_spec(k));
                }
            }
            assert forall|k: u64| self.loans.contains_spec(k) implies k < self.next_loan_id by {
                if k != loan_id {
                    assert(pre.loans.contains_spec(k));
                }
            }
        }
        Ok(loan_id)
    }

    /// Repays a loan in full: only the borrower can repay, once, with an
    /// attached value of at least the repayment figure; the whole figure is
    /// then forwarded to the lender.
    pub fn repay_loan(&mut self, caller: u64, deposit: u64, loan_id: u64) -> (r: Result<
        Transfer,
        Error,
    >)
        requires
            old(self).wf(),
            old(self).loans.contains_spec(loan_id) ==> (old(self).loans.get_spec(loan_id).amount
                as int) * (old(self).loans.get_spec(loan_id).interest_rate as int) <= u64::MAX
                && repayment_due(old(self).loans.get_spec(loan_id)) <= u64::MAX,
        ensures
            final(self).wf(),
            r is Ok <==> repay_ok(*old(self), caller, loan_id, deposit),
            !old(self).loans.contains_spec(loan_id) ==> r == Err::<Transfer, Error>(
                Error::NotFound,
            ),
            old(self).loans.contains_spec(loan_id) && old(self).loans.get_spec(loan_id).borrower
                != caller ==> r == Err::<Transfer, Error>(Error::PermissionDenied),
            old(self).loans.contains_spec(loan_id) && old(self).loans.get_spec(loan_id).borrower
                == caller && old(self).loans.get_spec(loan_id).repaid ==> r == Err::<
                Transfer,
                Error,
            >(Error::InvalidState),
            old(self).loans.contains_spec(loan_id) && old(self).loans.get_spec(loan_id).borrower
                == caller && !old(self).loans.get_spec(loan_id).repaid && deposit < repayment_due(
                old(self).loans.get_spec(loan_id),
            ) ==> r == Err::<Transfer, Error>(Error::PreconditionFailed),
            r is Err ==> *final(self) == *old(self),
            r is Ok ==> {
                let l = old(self).loans.get_spec(loan_id);
                &&& repay_post(*old(self), *final(self), loan_id)
                &&& r == Ok::<Transfer, Error>(
                    Transfer { to: l.lender, amount: repayment_due(l) as u64 },
                )
            },
    {
        let idx = match self.loans.index_of(loan_id) {
            None => {
                return Err(Error::NotFound);
            },
            Some(i) => i,
        };
        let l = self.loans.at(idx).1;
        if l.borrower != caller {
            return Err(Error::PermissionDenied);
        }
        if l.repaid {
            return Err(Error::InvalidState);
        }
        let interest_amount = l.amount * (l.interest_rate as u64) / 100;
        let total_repayment = l.amount + interest_amount;
        if deposit < total_repayment {
            return Err(Error::PreconditionFailed);
        }
        let ghost pre = *self;
        let (lk, mut loan) = self.loans.remove_at(idx);
        loan.repaid = true;
        self.loans.insert_at(idx, lk, loan);
        proof {
            lemma_remove_insert_is_update(pre.loans.seq(), idx as int, (lk, loan));
            assert forall|k: u64| self.loans.contains_spec(k) implies k < self.next_loan_id by {
                if k != loan_id {
                    assert(pre.loans.contains_spec(k));
                }
            }
        }
        Ok(Transfer { to: loan.lender, amount: total_repayment })
    }

    /// The loan request stored under `loan_request_id`.
    pub fn get_loan_request(&self, loan_request_id: u64) -> (r: LoanRequest)
        requires
            self.wf(),
            self.loan_requests.contains_spec(loan_request_id),
        ensures
            r == self.loan_requests.get_spec(loan_request_id),
    {
        *self.loan_requests.get(loan_request_id).unwrap()
    }

    /// Every loan request, oldest first, with its ID.
    pub fn get_all_loan_requests(&self) -> (r: Vec<(u64, LoanRequest)>)
        ensures
            r@ == self.loan_requests.seq(),
    {
        let n = self.loan_requests.len();
        let mut out: Vec<(u64, LoanRequest)> = Vec::new();
        let mut i: usize = 0;
        while i < n
            invariant
                n == self.loan_requests.seq().len(),
                i <= n,
                out@ == self.loan_requests.seq().take(i as int),
            decreases n - i,
        {
            out.push(*self.loan_requests.at(i));
            proof {
                assert(out@ =~= self.loan_requests.seq().take(i + 1 as int));
            }
            i += 1;
        }
        proof {
            assert(out@ =~= self.loan_requests.seq());
        }
        out
    }

    /// The loan stored under `loan_id`.
    pub fn get_loan(&self, loan_id: u64) -> (r: Loan)
        requires
            self.wf(),
            self.loans.contains_spec(loan_id),
        ensures
            r == self.loans.get_spec(loan_id),
    {
        *self.loans.get(loan_id).unwrap()
    }

    /// A page of the loan list, in insertion order: skips `from_index`
    /// entries, then yields at most `limit`. A negative `from_index` skips
    /// everything; a negative `limit` takes everything that is left.
    pub fn get_all_loans(&self, from_index: i32, limit: i32) -> (r: Vec<(u64, Loan)>)
        ensures
            from_index < 0 ==> r@ == Seq::<(u64, Loan)>::empty(),
            from_index >= 0 ==> {
                let s = self.loans.seq();
                let start = if from_index as int <= s.len() {
                    from_index as int
                } else {
                    s.len() as int
                };
                let end = if limit < 0 || start + limit as int > s.len() {
                    s.len() as int
                } else {
                    start + limit as int
                };
                r@ == s.subrange(start, end)
            },
    {
        let mut out: Vec<(u64, Loan)> = Vec::new();
        if from_index < 0 {
            proof {
                assert(out@ =~= Seq::<(u64, Loan)>::empty());
            }
            return out;
        }
        let n = self.loans.len();
        let from = from_index as usize;
        let start = if from <= n {
            from
        } else {
            n
        };
        let remaining = n - start;
        let end = if limit < 0 {
            n
        } else if (limit as usize) < remaining {
            start + (limit as usize)
        } else {
            n
        };
        let mut i: usize = start;
        while i < end
            invariant
                n == self.loans.seq().len(),
                start <= i <= end <= n,
                out@ == self.loans.seq().subrange(start as int, i as int),
            decreases end - i,
        {
            out.push(*self.loans.at(i));
            proof {
                assert(out@ =~= self.loans.seq().subrange(start as int, i + 1 as int));
            }
            i += 1;
        }
        out
    }
}

} // verus!
