use elusiv::computation::{advance, finalize, is_complete, start, ComputationRecord, PartialComputationAccount, Reimbursement};
use elusiv::error::ElusivError;

const PAYER: [u8; 32] = [4u8; 32];

#[test]
fn tracker_five_rounds() {
    let mut record = ComputationRecord::new();
    assert_eq!(advance(&mut record), Err(ElusivError::NotActive));
    assert_eq!(start(&mut record, 5, PAYER), Ok(()));
    assert!(record.get_is_active());
    assert_eq!(record.get_fee_payer(), PAYER);
    for round in 0..5u64 {
        assert!(!is_complete(&record));
        assert_eq!(record.get_round(), round);
        assert_eq!(advance(&mut record), Ok(()));
    }
    assert!(is_complete(&record));
    assert_eq!(advance(&mut record), Err(ElusivError::AlreadyComplete));
    assert_eq!(record.get_round(), 5);
    assert_eq!(start(&mut record, 3, [9u8; 32]), Err(ElusivError::AlreadyActive));
    assert_eq!(record.get_total_rounds(), 5);

    assert_eq!(
        finalize(&mut record),
        Ok(Reimbursement { fee_payer: PAYER, round: 5, total_rounds: 5 })
    );
    assert!(!record.get_is_active());
    assert_eq!(finalize(&mut record), Err(ElusivError::NotActive));
    assert_eq!(start(&mut record, 2, [9u8; 32]), Ok(()));
    assert_eq!(record.get_round(), 0);
    assert_eq!(record.get_total_rounds(), 2);
    assert_eq!(record.get_fee_payer(), [9u8; 32]);
}

#[test]
fn finalize_before_last_round_fails() {
    let mut record = ComputationRecord::new();
    start(&mut record, 2, PAYER).unwrap();
    advance(&mut record).unwrap();
    assert_eq!(finalize(&mut record), Err(ElusivError::NotComplete));
    assert!(record.get_is_active());
    advance(&mut record).unwrap();
    assert!(finalize(&mut record).is_ok());
}

#[test]
fn zero_round_computation_is_complete_at_once() {
    let mut record = ComputationRecord::new();
    start(&mut record, 0, PAYER).unwrap();
    assert!(is_complete(&record));
    assert_eq!(advance(&mut record), Err(ElusivError::AlreadyComplete));
    assert_eq!(finalize(&mut record), Ok(Reimbursement { fee_payer: PAYER, round: 0, total_rounds: 0 }));
}

#[test]
fn record_setters() {
    let mut record = ComputationRecord::new();
    record.set_round(3);
    record.set_total_rounds(4);
    record.set_is_active(true);
    record.set_fee_payer([1u8; 32]);
    assert_eq!(record, ComputationRecord { is_active: true, round: 3, total_rounds: 4, fee_payer: [1u8; 32] });
    advance(&mut record).unwrap();
    assert!(is_complete(&record));
}
