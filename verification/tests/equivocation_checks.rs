use file_bank::equivocation::{
    Call, EquivocationHandler, EquivocationProof, HandleEquivocation, InvalidTransaction,
    KeyOwnerProofSystem, OffenceError, Pallet, RRSCEquivocationOffence, ReportOffence, Slot,
    SubmitTransaction, TransactionSource, TransactionValidityError, RRSC_KEY_TYPE,
};
use file_bank::types::AccountId;

/// Key proofs name their owner in their first byte; an empty proof is bad.
struct Keys;

impl KeyOwnerProofSystem for Keys {
    fn spec_owner(&self, key_type: [u8; 4], key: [u8; 32], proof: Vec<u8>) -> Option<AccountId> {
        self.check_proof(key_type, key, &proof)
    }

    fn check_proof(&self, key_type: [u8; 4], _key: [u8; 32], proof: &Vec<u8>) -> Option<AccountId> {
        assert_eq!(&key_type, b"rrsc");
        proof.first().map(|b| *b as AccountId)
    }
}

/// Offences known so far, by offender and slot.
struct Offences {
    known: Vec<(AccountId, Slot)>,
}

impl ReportOffence for Offences {
    fn spec_report_result(
        &self,
        _reporters: Vec<AccountId>,
        offence: RRSCEquivocationOffence<AccountId>,
    ) -> Result<(), OffenceError> {
        if self.known.contains(&(offence.offender, offence.slot)) {
            Err(OffenceError::DuplicateReport)
        } else {
            Ok(())
        }
    }

    fn spec_after_report(&self, _reporters: Vec<AccountId>, offence: RRSCEquivocationOffence<AccountId>) -> Self {
        let mut known = self.known.clone();
        if !known.contains(&(offence.offender, offence.slot)) {
            known.push((offence.offender, offence.slot));
        }
        Offences { known }
    }

    fn spec_known(&self, offenders: Vec<AccountId>, time_slot: Slot) -> bool {
        self.is_known_offence(&offenders, time_slot)
    }

    fn report_offence(
        &mut self,
        _reporters: Vec<AccountId>,
        offence: RRSCEquivocationOffence<AccountId>,
    ) -> Result<(), OffenceError> {
        if self.known.contains(&(offence.offender, offence.slot)) {
            return Err(OffenceError::DuplicateReport);
        }
        self.known.push((offence.offender, offence.slot));
        Ok(())
    }

    fn is_known_offence(&self, offenders: &Vec<AccountId>, time_slot: Slot) -> bool {
        offenders.iter().all(|o| self.known.contains(&(*o, time_slot)))
    }
}

/// A pool that refuses everything but counts what it was given.
struct Pool {
    seen: usize,
}

impl SubmitTransaction for Pool {
    fn spec_after_submit(&self, _call: Call) -> Self {
        Pool { seen: self.seen + 1 }
    }

    fn submit_unsigned_transaction(&mut self, _call: Call) -> Result<(), ()> {
        self.seen += 1;
        Err(())
    }
}

fn report(proof: Vec<u8>) -> Call {
    Call::ReportEquivocationUnsigned {
        equivocation_proof: EquivocationProof {
            offender: [3u8; 32],
            slot: 0x0102,
            first_header: vec![1],
            second_header: vec![2],
        },
        key_owner_proof: proof,
    }
}

fn handler(known: Vec<(AccountId, Slot)>) -> EquivocationHandler<Offences, Pool> {
    EquivocationHandler::new(Offences { known }, Pool { seen: 0 }, 11, 64)
}

fn rrsc<H: HandleEquivocation>(handle_equivocation: H) -> Pallet<Keys, H> {
    Pallet { key_owner_proof_system: Keys, handle_equivocation }
}

fn invalid(i: InvalidTransaction) -> TransactionValidityError {
    TransactionValidityError::Invalid(i)
}

#[test]
fn reports_from_the_network_are_refused() {
    let p = rrsc(handler(Vec::new()));
    let r = p.validate_unsigned(TransactionSource::External, &report(vec![4]));
    assert_eq!(r.unwrap_err(), invalid(InvalidTransaction::Call));
    let r = p.validate_unsigned(TransactionSource::Local, &Call::Other);
    assert_eq!(r.unwrap_err(), invalid(InvalidTransaction::Call));
}

#[test]
fn reports_need_a_good_proof_and_a_new_offence() {
    let p = rrsc(handler(vec![(4, 0x0102)]));
    let r = p.validate_unsigned(TransactionSource::Local, &report(Vec::new()));
    assert_eq!(r.unwrap_err(), invalid(InvalidTransaction::BadProof));
    let r = p.validate_unsigned(TransactionSource::InBlock, &report(vec![4]));
    assert_eq!(r.unwrap_err(), invalid(InvalidTransaction::Stale));
}

#[test]
fn a_valid_report_is_tagged_by_offender_and_slot() {
    let p = rrsc(handler(Vec::new()));
    let v = p.validate_unsigned(TransactionSource::Local, &report(vec![4])).unwrap();
    assert_eq!(v.priority, u64::MAX);
    assert_eq!(v.longevity, 64);
    assert!(!v.propagate);
    assert!(v.requires.is_empty());
    let mut tag = vec![64u8];
    tag.extend_from_slice(b"RRSCEquivocation");
    tag.extend_from_slice(&[3u8; 32]);
    tag.extend_from_slice(&[2, 1, 0, 0, 0, 0, 0, 0]);
    assert_eq!(v.provides, vec![tag]);
}

#[test]
fn pre_dispatch_checks_the_proof_again() {
    let p = rrsc(handler(vec![(4, 0x0102)]));
    assert_eq!(p.pre_dispatch(&report(vec![5])), Ok(()));
    assert_eq!(p.pre_dispatch(&report(vec![4])), Err(invalid(InvalidTransaction::Stale)));
    assert_eq!(p.pre_dispatch(&report(Vec::new())), Err(invalid(InvalidTransaction::BadProof)));
    assert_eq!(p.pre_dispatch(&Call::Other), Err(invalid(InvalidTransaction::Call)));
}

#[test]
fn the_unit_handler_knows_every_offence() {
    let r = rrsc(()).validate_unsigned(TransactionSource::Local, &report(vec![4]));
    assert_eq!(r.unwrap_err(), invalid(InvalidTransaction::Stale));
    assert_eq!(().block_author(), None);
    assert_eq!(().report_longevity(), 0);
}

#[test]
fn the_handler_wires_reports_through() {
    let mut h = handler(Vec::new());
    assert_eq!(h.block_author(), Some(11));
    let offence = RRSCEquivocationOffence { slot: 9, session_index: 2, validator_set_count: 10, offender: 4 };
    assert_eq!(offence.offenders(), vec![4]);
    assert_eq!((offence.time_slot(), offence.session_index(), offence.validator_set_count()), (9, 2, 10));
    assert_eq!(h.report_offence(vec![11], offence), Ok(()));
    assert!(h.is_known_offence(&vec![4], 9));
    let again = RRSCEquivocationOffence { slot: 9, session_index: 2, validator_set_count: 10, offender: 4 };
    assert_eq!(h.report_offence(vec![11], again), Err(OffenceError::DuplicateReport));
    let proof = EquivocationProof { offender: [3u8; 32], slot: 9, first_header: vec![], second_header: vec![] };
    assert_eq!(h.submit_unsigned_equivocation_report(proof, vec![4]), Ok(()));
    assert_eq!(h.pool.seen, 1);
    assert_eq!(&RRSC_KEY_TYPE, b"rrsc");
}

#[test]
fn pre_dispatch_answers_as_validation_does() {
    let p = rrsc(handler(vec![(4, 0x0102)]));
    for proof in [vec![5u8], vec![4u8], Vec::new()] {
        for source in [TransactionSource::Local, TransactionSource::InBlock] {
            let v = p.validate_unsigned(source, &report(proof.clone()));
            let d = p.pre_dispatch(&report(proof.clone()));
            match (v, d) {
                (Ok(_), Ok(())) => {},
                (Err(a), Err(b)) => assert_eq!(a, b),
                _ => panic!("the two checks disagree"),
            }
        }
    }
}
