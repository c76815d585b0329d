use vstd::prelude::*;
use crate::address::U256;
use crate::error::ElusivError;

verus! {

/// The persisted state of a computation that spans many invocations.
/// `round` counts completed steps out of `total_rounds`; `fee_payer` paid
/// up front and is reimbursed when the computation finalizes.
#[derive(Clone, Copy, Debug, PartialEq, Eq)]
pub struct ComputationRecord {
    pub is_active: bool,
    pub round: u64,
    pub total_rounds: u64,
    pub fee_payer: U256,
}

/// What a finalized computation hands to the reimbursement collaborator.
#[derive(Clone, Copy, Debug, PartialEq, Eq)]
pub struct Reimbursement {
    pub fee_payer: U256,
    pub round: u64,
    pub total_rounds: u64,
}

impl ComputationRecord {
    /// `round` never passes `total_rounds`.
    pub open spec fn wf(self) -> bool {
        self.round <= self.total_rounds
    }

    /// An idle record.
    pub fn new() -> (r: ComputationRecord)
        ensures
            r.wf(),
            !r.is_active,
            r.round == 0,
            r.total_rounds == 0,
    {
        ComputationRecord { is_active: false, round: 0, total_rounds: 0, fee_payer: [0u8; 32] }
    }
}

/// The record after `start`, or its error.
pub open spec fn start_spec(c: ComputationRecord, total_rounds: u64, fee_payer: U256) -> Result<ComputationRecord, ElusivError> {
    if c.is_active {
        Err(ElusivError::AlreadyActive)
    } else {
        Ok(ComputationRecord { is_active: true, round: 0, total_rounds, fee_payer })
    }
}

/// The record after `advance`, or its error.
pub open spec fn advance_spec(c: ComputationRecord) -> Result<ComputationRecord, ElusivError> {
    if !c.is_active {
        Err(ElusivError::NotActive)
    } else if c.round >= c.total_rounds {
        Err(ElusivError::AlreadyComplete)
    } else {
        Ok(ComputationRecord { round: (c.round + 1) as u64, ..c })
    }
}

/// Whether the last round was reached.
pub open spec fn is_complete_spec(c: ComputationRecord) -> bool {
    c.round == c.total_rounds
}

/// The record and the reimbursement after `finalize`, or its error.
pub open spec fn finalize_spec(c: ComputationRecord) -> Result<(ComputationRecord, Reimbursement), ElusivError> {
    if !c.is_active {
        Err(ElusivError::NotActive)
    } else if !is_complete_spec(c) {
        Err(ElusivError::NotComplete)
    } else {
        Ok((
            ComputationRecord { is_active: false, ..c },
            Reimbursement { fee_payer: c.fee_payer, round: c.round, total_rounds: c.total_rounds },
        ))
    }
}

/// The record after `k` successful advances, if each succeeds.
pub open spec fn advance_times(c: ComputationRecord, k: nat) -> Result<ComputationRecord, ElusivError>
    decreases k,
{
    if k == 0 {
        Ok(c)
    } else {
        match advance_times(c, (k - 1) as nat) {
            Err(e) => Err(e),
            Ok(d) => advance_spec(d),
        }
    }
}

/// Storage of a computation that requires multiple transactions to finish.
pub trait PartialComputationAccount {
    spec fn record(&self) -> ComputationRecord;

    fn get_is_active(&self) -> (r: bool)
        ensures
            r == self.record().is_active,
    ;

    fn set_is_active(&mut self, value: bool)
        ensures
            final(self).record() == (ComputationRecord { is_active: value, ..old(self).record() }),
    ;

    fn get_round(&self) -> (r: u64)
        ensures
            r == self.record().round,
    ;

    fn set_round(&mut self, value: u64)
        ensures
            final(self).record() == (ComputationRecord { round: value, ..old(self).record() }),
    ;

    fn get_total_rounds(&self) -> (r: u64)
        ensures
            r == self.record().total_rounds,
    ;

    fn set_total_rounds(&mut self, value: u64)
        ensures
            final(self).record() == (ComputationRecord { total_rounds: value, ..old(self).record() }),
    ;

    fn get_fee_payer(&self) -> (r: U256)
        ensures
            r == self.record().fee_payer,
    ;

    fn set_fee_payer(&mut self, value: U256)
        ensures
            final(self).record() == (ComputationRecord { fee_payer: value, ..old(self).record() }),
    ;
}

impl PartialComputationAccount for ComputationRecord {
    open spec fn record(&self) -> ComputationRecord {
        *self
    }

    fn get_is_active(&self) -> (r: bool) {
        self.is_active
    }

    fn set_is_active(&mut self, value: bool) {
        self.is_active = value;
    }

    fn get_round(&self) -> (r: u64) {
        self.round
    }

    fn set_round(&mut self, value: u64) {
        self.round = value;
    }

    fn get_total_rounds(&self) -> (r: u64) {
        self.total_rounds
    }

    fn set_total_rounds(&mut self, value: u64) {
        self.total_rounds = value;
    }

    fn get_fee_payer(&self) -> (r: U256) {
        self.fee_payer
    }

    fn set_fee_payer(&mut self, value: U256) {
        self.fee_payer = value;
    }
}

/// Starts a computation of `total_rounds` rounds paid by `fee_payer`, unless
/// one is active.
pub fn start<T: PartialComputationAccount>(account: &mut T, total_rounds: u64, fee_payer: U256) -> (r: Result<(), ElusivError>)
    ensures
        start_spec(old(account).record(), total_rounds, fee_payer) matches Ok(c) ==> r is Ok && final(account).record() == c,
        start_spec(old(account).record(), total_rounds, fee_payer) matches Err(e) ==> r == Err::<(), ElusivError>(e)
            && final(account).record() == old(account).record(),
{
    if account.get_is_active() {
        return Err(ElusivError::AlreadyActive);
    }
    account.set_round(0);
    account.set_total_rounds(total_rounds);
    account.set_fee_payer(fee_payer);
    account.set_is_active(true);
    Ok(())
}

/// Completes one round of the active computation.
pub fn advance<T: PartialComputationAccount>(account: &mut T) -> (r: Result<(), ElusivError>)
    ensures
        advance_spec(old(account).record()) matches Ok(c) ==> r is Ok && final(account).record() == c,
        advance_spec(old(account).record()) matches Err(e) ==> r == Err::<(), ElusivError>(e)
            && final(account).record() == old(account).record(),
{
    if !account.get_is_active() {
        return Err(ElusivError::NotActive);
    }
    let round = account.get_round();
    if round >= account.get_total_rounds() {
        return Err(ElusivError::AlreadyComplete);
    }
    account.set_round(round + 1);
    Ok(())
}

/// Whether the last round was reached.
pub fn is_complete<T: PartialComputationAccount>(account: &T) -> (r: bool)
    ensures
        r == is_complete_spec(account.record()),
{
    account.get_round() == account.get_total_rounds()
}

/// Ends the completed computation, making the record reusable, and returns
/// whom to reimburse.
pub fn finalize<T: PartialComputationAccount>(account: &mut T) -> (r: Result<Reimbursement, ElusivError>)
    ensures
        finalize_spec(old(account).record()) matches Ok(p) ==> r == Ok::<Reimbursement, ElusivError>(p.1)
            && final(account).record() == p.0,
        finalize_spec(old(account).record()) matches Err(e) ==> r == Err::<Reimbursement, ElusivError>(e)
            && final(account).record() == old(account).record(),
{
    if !account.get_is_active() {
        return Err(ElusivError::NotActive);
    }
    if !is_complete(account) {
        return Err(ElusivError::NotComplete);
    }
    let reimbursement = Reimbursement {
        fee_payer: account.get_fee_payer(),
        round: account.get_round(),
        total_rounds: account.get_total_rounds(),
    };
    account.set_is_active(false);
    Ok(reimbursement)
}

/// Every transition keeps `round <= total_rounds`, and `advance` moves
/// `round` up by exactly one.
pub proof fn lemma_transitions_keep_invariant(c: ComputationRecord, total_rounds: u64, fee_payer: U256)
    requires
        c.wf(),
    ensures
        start_spec(c, total_rounds, fee_payer) matches Ok(d) ==> d.wf(),
        advance_spec(c) matches Ok(d) ==> d.wf() && d.round == c.round + 1,
        finalize_spec(c) matches Ok(p) ==> p.0.wf() && !p.0.is_active,
{
}

/// The record after `k <= total_rounds` advances from a fresh start is at
/// round `k`, still active.
pub proof fn lemma_advance_times(c: ComputationRecord, k: nat)
    requires
        c.is_active,
        c.round == 0,
        k <= c.total_rounds,
    ensures
        advance_times(c, k) == Ok::<ComputationRecord, ElusivError>(ComputationRecord { round: k as u64, ..c }),
    decreases k,
{
    if k > 0 {
        lemma_advance_times(c, (k - 1) as nat);
    }
}

/// Lifecycle of a tracker: an idle record started with `n` rounds and payer
/// `p` is complete after exactly `n` advances; one more advance fails with
/// `AlreadyComplete`; starting again before finalizing fails with
/// `AlreadyActive`; finalizing reimburses `p` and lets a new start succeed.
pub proof fn lemma_tracker_lifecycle(c: ComputationRecord, n: u64, p: U256, n2: u64, p2: U256)
    requires
        !c.is_active,
    ensures
        start_spec(c, n, p) is Ok,
        advance_times(start_spec(c, n, p)->Ok_0, n as nat) is Ok,
        ({
            let done = advance_times(start_spec(c, n, p)->Ok_0, n as nat)->Ok_0;
            &&& is_complete_spec(done)
            &&& advance_spec(done) == Err::<ComputationRecord, ElusivError>(ElusivError::AlreadyComplete)
            &&& start_spec(done, n2, p2) == Err::<ComputationRecord, ElusivError>(ElusivError::AlreadyActive)
            &&& finalize_spec(done) is Ok
            &&& (finalize_spec(done)->Ok_0).1 == (Reimbursement { fee_payer: p, round: n, total_rounds: n })
            &&& start_spec((finalize_spec(done)->Ok_0).0, n2, p2) is Ok
        }),
{
    let s = start_spec(c, n, p)->Ok_0;
    lemma_advance_times(s, n as nat);
}

} // verus!
