//! Reports of RRSC equivocations: a validator that released two blocks in
//! one slot.  Unsigned reports are accepted only from the local node or from a
//! block, once per offender and slot, and only while the offence is not known.
use vstd::prelude::*;
use crate::perbill::{perbill_from_rational, perbill_square, rational_parts};
use crate::scale::{encode_tag, le_u64};
use crate::types::{AccountId, DispatchResult};

verus! {

/// A slot of the RRSC consensus.
pub type Slot = u64;

/// The index of a session.
pub type SessionIndex = u32;

/// The public key of an RRSC authority.
pub type AuthorityId = [u8; 32];

/// The key type of RRSC authorities: `b"rrsc"`.
pub const RRSC_KEY_TYPE: [u8; 4] = [114u8, 114u8, 115u8, 99u8];

/// The kind of the offence: `b"rrsc:equivocatio"`.
pub const OFFENCE_ID: [u8; 16] = [
    114u8, 114u8, 115u8, 99u8, 58u8, 101u8, 113u8, 117u8, 105u8, 118u8, 111u8, 99u8, 97u8, 116u8,
    105u8, 111u8,
];

/// Where a transaction came from.
#[derive(Clone, Copy, PartialEq, Eq, Structural, Debug)]
pub enum TransactionSource {
    /// It is in a block that was imported.
    InBlock,
    /// It was made by this node.
    Local,
    /// It came from the network.
    External,
}

/// Why a transaction is invalid.
#[derive(Clone, Copy, PartialEq, Eq, Structural, Debug)]
pub enum InvalidTransaction {
    /// The call may not be made this way.
    Call,
    /// A proof in it does not hold.
    BadProof,
    /// It is out of date.
    Stale,
}

/// Why a transaction was refused.
#[derive(Clone, Copy, PartialEq, Eq, Structural, Debug)]
pub enum TransactionValidityError {
    Invalid(InvalidTransaction),
}

/// Why an offence could not be reported.
#[derive(Clone, Copy, PartialEq, Eq, Structural, Debug)]
pub enum OffenceError {
    DuplicateReport,
    Other(u8),
}

/// How a valid transaction is to be handled.
#[derive(Debug)]
pub struct ValidTransaction {
    pub priority: u64,
    pub requires: Vec<Vec<u8>>,
    pub provides: Vec<Vec<u8>>,
    pub longevity: u64,
    pub propagate: bool,
}

/// Whether a transaction is valid, and how it is to be handled.
pub type TransactionValidity = Result<ValidTransaction, TransactionValidityError>;

/// A proof that an authority released two blocks in one slot; the headers
/// are kept encoded.
#[derive(Debug)]
pub struct EquivocationProof {
    pub offender: AuthorityId,
    pub slot: Slot,
    pub first_header: Vec<u8>,
    pub second_header: Vec<u8>,
}

/// A call of the RRSC pallet, as far as its unsigned validation reads it.
#[derive(Debug)]
pub enum Call {
    /// An unsigned report of an equivocation, with the encoded proof that the
    /// offender's key belongs to a validator.
    ReportEquivocationUnsigned { equivocation_proof: EquivocationProof, key_owner_proof: Vec<u8> },
    /// Any other call.
    Other,
}

/// An RRSC equivocation offence report.
///
/// When a validator released two or more blocks at the same slot.
#[derive(Debug)]
pub struct RRSCEquivocationOffence<FullIdentification> {
    /// A rrsc slot in which this incident happened.
    pub slot: Slot,
    /// The session index in which the incident happened.
    pub session_index: SessionIndex,
    /// The size of the validator set at the time of the offence.
    pub validator_set_count: u32,
    /// The authority that produced the equivocation.
    pub offender: FullIdentification,
}

impl<FullIdentification: Clone> RRSCEquivocationOffence<FullIdentification> {
    /// The offenders: the one offender.
    pub fn offenders(&self) -> (r: Vec<FullIdentification>)
        ensures
            r@.len() == 1,
            cloned::<FullIdentification>(self.offender, r@[0]),
    {
        let mut v: Vec<FullIdentification> = Vec::new();
        v.push(self.offender.clone());
        v
    }

    pub fn session_index(&self) -> (r: SessionIndex)
        ensures
            r == self.session_index,
    {
        self.session_index
    }

    pub fn validator_set_count(&self) -> (r: u32)
        ensures
            r == self.validator_set_count,
    {
        self.validator_set_count
    }

    /// The slot in which the offence happened.
    pub fn time_slot(&self) -> (r: Slot)
        ensures
            r == self.slot,
    {
        self.slot
    }

    /// The fraction of their stake, in parts per billion, that the offenders
    /// lose: `min((3k / n)^2, 1)` for `k` offenders among `n` validators, as
    /// `Perbill` computes it.
    pub fn slash_fraction(offenders_count: u32, validator_set_count: u32) -> (r: u32)
        requires
            3 * offenders_count <= u32::MAX,
        ensures
            r == slash_parts(offenders_count, validator_set_count),
    {
        let x = perbill_from_rational(3 * offenders_count, validator_set_count);
        perbill_square(x)
    }
}

/// The slash of `slash_fraction`, in parts per billion.
pub open spec fn slash_parts(offenders_count: u32, validator_set_count: u32) -> int {
    let x = rational_parts(3 * offenders_count, validator_set_count as int);
    rational_parts(x * x, 1_000_000_000_000_000_000)
}

/// What the runtime does with equivocation reports.  A runtime picks an
/// implementation; `()` reports nothing and takes every offence as known.
pub trait HandleEquivocation {
    /// How many blocks an equivocation report stays valid.
    spec fn spec_longevity(&self) -> u64;

    /// How many blocks an equivocation report stays valid.
    fn report_longevity(&self) -> (r: u64)
        ensures
            r == self.spec_longevity(),
    ;

    /// Reports an offence proved by the given reporters.
    fn report_offence(
        &mut self,
        reporters: Vec<AccountId>,
        offence: RRSCEquivocationOffence<AccountId>,
    ) -> Result<(), OffenceError>;

    /// Whether all of `offenders` at the given slot have been reported.
    spec fn spec_known_offence(&self, offenders: Vec<AccountId>, time_slot: Slot) -> bool;

    /// Whether all of the offenders at the given slot have been reported;
    /// the answer depends on which offenders the list holds, not on the list
    /// itself.
    fn is_known_offence(&self, offenders: &Vec<AccountId>, time_slot: Slot) -> (r: bool)
        ensures
            r == self.spec_known_offence(*offenders, time_slot),
            forall|v: Vec<AccountId>| v@ == offenders@ ==> #[trigger] self.spec_known_offence(v, time_slot) == r,
    ;

    /// Makes and submits an unsigned equivocation report.
    fn submit_unsigned_equivocation_report(
        &mut self,
        equivocation_proof: EquivocationProof,
        key_owner_proof: Vec<u8>,
    ) -> DispatchResult;

    /// The author of the current block, if known.
    fn block_author(&self) -> Option<AccountId>;
}

impl HandleEquivocation for () {
    open spec fn spec_longevity(&self) -> u64 {
        0
    }

    fn report_longevity(&self) -> (r: u64) {
        0
    }

    fn report_offence(
        &mut self,
        _reporters: Vec<AccountId>,
        _offence: RRSCEquivocationOffence<AccountId>,
    ) -> (r: Result<(), OffenceError>)
        ensures
            r is Ok,
    {
        Ok(())
    }

    open spec fn spec_known_offence(&self, offenders: Vec<AccountId>, time_slot: Slot) -> bool {
        true
    }

    fn is_known_offence(&self, _offenders: &Vec<AccountId>, _time_slot: Slot) -> (r: bool) {
        true
    }

    fn submit_unsigned_equivocation_report(
        &mut self,
        _equivocation_proof: EquivocationProof,
        _key_owner_proof: Vec<u8>,
    ) -> (r: DispatchResult)
        ensures
            r is Ok,
    {
        Ok(())
    }

    fn block_author(&self) -> (r: Option<AccountId>)
        ensures
            r is None,
    {
        None
    }
}

/// A system that offences are reported to, such as the runtime's offences
/// pallet.
pub trait ReportOffence: Sized {
    /// What reporting `offence` by `reporters` answers.
    spec fn spec_report_result(
        &self,
        reporters: Vec<AccountId>,
        offence: RRSCEquivocationOffence<AccountId>,
    ) -> Result<(), OffenceError>;

    /// The system once `offence` by `reporters` is reported.
    spec fn spec_after_report(&self, reporters: Vec<AccountId>, offence: RRSCEquivocationOffence<AccountId>) -> Self;

    /// Whether all of `offenders` at the given slot have been reported.
    spec fn spec_known(&self, offenders: Vec<AccountId>, time_slot: Slot) -> bool;

    /// Reports an offence proved by the given reporters.
    fn report_offence(
        &mut self,
        reporters: Vec<AccountId>,
        offence: RRSCEquivocationOffence<AccountId>,
    ) -> (r: Result<(), OffenceError>)
        ensures
            r == old(self).spec_report_result(reporters, offence),
            *final(self) == old(self).spec_after_report(reporters, offence),
    ;

    /// Whether all of the offenders at the given slot have been reported;
    /// the answer depends on which offenders the list holds, not on the list
    /// itself.
    fn is_known_offence(&self, offenders: &Vec<AccountId>, time_slot: Slot) -> (r: bool)
        ensures
            r == self.spec_known(*offenders, time_slot),
            forall|v: Vec<AccountId>| v@ == offenders@ ==> #[trigger] self.spec_known(v, time_slot) == r,
    ;
}

/// The node's pool of transactions.
pub trait SubmitTransaction: Sized {
    /// The pool once `call` is submitted to it.
    spec fn spec_after_submit(&self, call: Call) -> Self;

    /// Submits an unsigned call; `Err` where the pool refused it.
    fn submit_unsigned_transaction(&mut self, call: Call) -> (r: Result<(), ()>)
        ensures
            *final(self) == old(self).spec_after_submit(call),
    ;
}

/// The handler that wires reports together: offences go to `reporter`,
/// reports made on this node go to `pool`, and the author of the current
/// block, as the authorship pallet knows it, is the reporter.
pub struct EquivocationHandler<R, S> {
    pub reporter: R,
    pub pool: S,
    pub author: AccountId,
    /// How many blocks a report stays valid.
    pub longevity: u64,
}

impl<R, S> EquivocationHandler<R, S> {
    pub fn new(reporter: R, pool: S, author: AccountId, longevity: u64) -> (r: Self)
        ensures
            r.reporter == reporter,
            r.pool == pool,
            r.author == author,
            r.longevity == longevity,
    {
        EquivocationHandler { reporter, pool, author, longevity }
    }
}

impl<R: ReportOffence, S: SubmitTransaction> HandleEquivocation for EquivocationHandler<R, S> {
    open spec fn spec_longevity(&self) -> u64 {
        self.longevity
    }

    fn report_longevity(&self) -> (r: u64) {
        self.longevity
    }

    fn report_offence(
        &mut self,
        reporters: Vec<AccountId>,
        offence: RRSCEquivocationOffence<AccountId>,
    ) -> (r: Result<(), OffenceError>)
        ensures
            r == old(self).reporter.spec_report_result(reporters, offence),
            final(self).reporter == old(self).reporter.spec_after_report(reporters, offence),
            final(self).pool == old(self).pool,
            final(self).author == old(self).author,
            final(self).longevity == old(self).longevity,
    {
        self.reporter.report_offence(reporters, offence)
    }

    open spec fn spec_known_offence(&self, offenders: Vec<AccountId>, time_slot: Slot) -> bool {
        self.reporter.spec_known(offenders, time_slot)
    }

    fn is_known_offence(&self, offenders: &Vec<AccountId>, time_slot: Slot) -> (r: bool) {
        self.reporter.is_known_offence(offenders, time_slot)
    }

    /// Submits the report as an unsigned call to the pool; whether the pool
    /// took it or not, the submission counts as done.
    fn submit_unsigned_equivocation_report(
        &mut self,
        equivocation_proof: EquivocationProof,
        key_owner_proof: Vec<u8>,
    ) -> (r: DispatchResult)
        ensures
            r is Ok,
            final(self).pool == old(self).pool.spec_after_submit(
                (Call::ReportEquivocationUnsigned { equivocation_proof, key_owner_proof }),
            ),
            final(self).reporter == old(self).reporter,
            final(self).author == old(self).author,
            final(self).longevity == old(self).longevity,
    {
        let call = Call::ReportEquivocationUnsigned { equivocation_proof, key_owner_proof };
        let _ = self.pool.submit_unsigned_transaction(call);
        Ok(())
    }

    fn block_author(&self) -> (r: Option<AccountId>)
        ensures
            r == Some(self.author),
    {
        Some(self.author)
    }
}

/// Checks key-ownership proofs of authorities.
pub trait KeyOwnerProofSystem {
    /// The validator that owns the key `(key_type, key)`, if `proof` shows it.
    spec fn spec_owner(&self, key_type: [u8; 4], key: AuthorityId, proof: Vec<u8>) -> Option<AccountId>;

    /// The validator that owns the key `(key_type, key)`, if `proof` shows it.
    fn check_proof(&self, key_type: [u8; 4], key: AuthorityId, proof: &Vec<u8>) -> (r: Option<AccountId>)
        ensures
            r == self.spec_owner(key_type, key, *proof),
    ;
}

/// The verdict on a report, given what the key-ownership check found and
/// whether the offence is known already: a bad proof, a stale report, or
/// `Ok`.
pub open spec fn verdict(checked: Option<AccountId>, known: bool) -> Result<(), TransactionValidityError> {
    match checked {
        None => Err(TransactionValidityError::Invalid(InvalidTransaction::BadProof)),
        Some(_) => if known {
            Err(TransactionValidityError::Invalid(InvalidTransaction::Stale))
        } else {
            Ok(())
        },
    }
}

/// The verdict on a report whose key-ownership check found `checked` and
/// whose offence is `known` or not.
pub fn offence_verdict(checked: Option<AccountId>, known: bool) -> (r: Result<(), TransactionValidityError>)
    ensures
        r == verdict(checked, known),
{
    match checked {
        None => Err(TransactionValidityError::Invalid(InvalidTransaction::BadProof)),
        Some(_) => if known {
            Err(TransactionValidityError::Invalid(InvalidTransaction::Stale))
        } else {
            Ok(())
        },
    }
}

/// What the checks of a report give: a bad proof where the key-ownership
/// system finds no owner of the offender's key; else the verdict on whether
/// the handler knows the offence of that owner, alone, at the slot.
pub open spec fn report_verdict<K: KeyOwnerProofSystem, H: HandleEquivocation>(
    keys: K,
    handler: H,
    equivocation_proof: EquivocationProof,
    key_owner_proof: Vec<u8>,
) -> Result<(), TransactionValidityError> {
    let owner = keys.spec_owner(RRSC_KEY_TYPE, equivocation_proof.offender, key_owner_proof);
    match owner {
        None => verdict(None, false),
        Some(o) => verdict(owner, known_offence(handler, seq![o], equivocation_proof.slot)),
    }
}

/// Whether `handler` knows the offence of the validators `offenders` at
/// `slot`.
pub open spec fn known_offence<H: HandleEquivocation>(handler: H, offenders: Seq<AccountId>, slot: Slot) -> bool {
    handler.spec_known_offence(choose|v: Vec<AccountId>| v@ == offenders, slot)
}

/// `r` is the verdict of the checks of a report (see `report_verdict`).
pub open spec fn checked_verdict<K: KeyOwnerProofSystem, H: HandleEquivocation>(
    keys: K,
    handler: H,
    equivocation_proof: EquivocationProof,
    key_owner_proof: Vec<u8>,
    r: Result<(), TransactionValidityError>,
) -> bool {
    r == report_verdict(keys, handler, equivocation_proof, key_owner_proof)
}

/// Checks the report's key-ownership proof for the offender, and whether the
/// offence of that validator at the slot is known already.
pub fn is_known_offence<K: KeyOwnerProofSystem, H: HandleEquivocation>(
    keys: &K,
    handler: &H,
    equivocation_proof: &EquivocationProof,
    key_owner_proof: &Vec<u8>,
) -> (r: Result<(), TransactionValidityError>)
    ensures
        checked_verdict(*keys, *handler, *equivocation_proof, *key_owner_proof, r),
{
    let checked = keys.check_proof(RRSC_KEY_TYPE, equivocation_proof.offender, key_owner_proof);
    let known = match checked {
        Some(offender) => {
            let mut offenders: Vec<AccountId> = Vec::new();
            offenders.push(offender);
            let known = handler.is_known_offence(&offenders, equivocation_proof.slot);
            proof {
                assert(offenders@ =~= seq![offender]);
                let v = choose|v: Vec<AccountId>| v@ == seq![offender];
                assert(v@ == offenders@);
                assert(handler.spec_known_offence(v, equivocation_proof.slot) == known);
            }
            known
        },
        None => false,
    };
    offence_verdict(checked, known)
}

/// The tag prefix of equivocation reports: `b"RRSCEquivocation"`.
pub open spec fn report_prefix() -> Seq<u8> {
    seq![82u8, 82u8, 83u8, 67u8, 69u8, 113u8, 117u8, 105u8, 118u8, 111u8, 99u8, 97u8, 116u8, 105u8, 111u8, 110u8]
}

/// The tag that a report of `offender` at `slot` provides: the prefix
/// (with its length), the offender and the slot, SCALE-encoded.
pub open spec fn report_tag(offender: AuthorityId, slot: Slot) -> Seq<u8> {
    seq![64u8] + report_prefix() + offender@ + le_u64(slot)
}

/// How a valid report of `offender` at `slot` is handled: at the highest
/// priority, once per offender and slot, for `longevity` blocks, never passed
/// on to other nodes.
pub fn valid_report(offender: AuthorityId, slot: Slot, longevity: u64) -> (v: ValidTransaction)
    ensures
        v.priority == u64::MAX,
        v.requires@.len() == 0,
        v.provides@.len() == 1,
        v.provides@[0]@ == report_tag(offender, slot),
        v.longevity == longevity,
        !v.propagate,
{
    let prefix: Vec<u8> = vec![82u8, 82u8, 83u8, 67u8, 69u8, 113u8, 117u8, 105u8, 118u8, 111u8, 99u8, 97u8, 116u8, 105u8, 111u8, 110u8];
    assert(prefix@ =~= report_prefix());
    let tag = encode_tag(&prefix, offender, slot);
    let mut provides: Vec<Vec<u8>> = Vec::new();
    provides.push(tag);
    ValidTransaction {
        priority: u64::MAX,
        requires: Vec::new(),
        provides,
        longevity,
        propagate: false,
    }
}

/// The RRSC pallet, as far as the checks of unsigned reports go: the system
/// that checks key-ownership proofs and the handler of equivocations that the
/// runtime configures.
pub struct Pallet<K, H> {
    pub key_owner_proof_system: K,
    pub handle_equivocation: H,
}

impl<K: KeyOwnerProofSystem, H: HandleEquivocation> Pallet<K, H> {
    /// What `validate_unsigned` answers to `call` from `source`.
    pub open spec fn validate_unsigned_post(&self, source: TransactionSource, call: Call, r: TransactionValidity) -> bool {
        match call {
            Call::ReportEquivocationUnsigned { equivocation_proof, key_owner_proof } => if source
                == TransactionSource::External {
                r == Err::<ValidTransaction, TransactionValidityError>(
                    TransactionValidityError::Invalid(InvalidTransaction::Call),
                )
            } else {
                match r {
                    Ok(v) => {
                        &&& checked_verdict(
                            self.key_owner_proof_system,
                            self.handle_equivocation,
                            equivocation_proof,
                            key_owner_proof,
                            Ok(()),
                        )
                        &&& v.priority == u64::MAX
                        &&& v.requires@.len() == 0
                        &&& v.provides@.len() == 1
                        &&& v.provides@[0]@ == report_tag(equivocation_proof.offender, equivocation_proof.slot)
                        &&& v.longevity == self.handle_equivocation.spec_longevity()
                        &&& !v.propagate
                    },
                    Err(e) => checked_verdict(
                        self.key_owner_proof_system,
                        self.handle_equivocation,
                        equivocation_proof,
                        key_owner_proof,
                        Err(e),
                    ),
                }
            },
            Call::Other => r == Err::<ValidTransaction, TransactionValidityError>(
                TransactionValidityError::Invalid(InvalidTransaction::Call),
            ),
        }
    }

    /// What `pre_dispatch` answers to `call`.
    pub open spec fn pre_dispatch_post(&self, call: Call, r: Result<(), TransactionValidityError>) -> bool {
        match call {
            Call::ReportEquivocationUnsigned { equivocation_proof, key_owner_proof } => checked_verdict(
                self.key_owner_proof_system,
                self.handle_equivocation,
                equivocation_proof,
                key_owner_proof,
                r,
            ),
            Call::Other => r == Err::<(), TransactionValidityError>(
                TransactionValidityError::Invalid(InvalidTransaction::Call),
            ),
        }
    }

    /// Validates an unsigned call: only reports of equivocations, only from this
    /// node or from a block, and only with a good key-ownership proof for an
    /// offence not known yet.
    pub fn validate_unsigned(&self, source: TransactionSource, call: &Call) -> (r: TransactionValidity)
        ensures
            self.validate_unsigned_post(source, *call, r),
    {
        match call {
            Call::ReportEquivocationUnsigned { equivocation_proof, key_owner_proof } => {
                match source {
                    TransactionSource::Local | TransactionSource::InBlock => {},
                    _ => {
                        return Err(TransactionValidityError::Invalid(InvalidTransaction::Call));
                    },
                }
                is_known_offence(&self.key_owner_proof_system, &self.handle_equivocation, equivocation_proof, key_owner_proof)?;
                let longevity = self.handle_equivocation.report_longevity();
                Ok(valid_report(equivocation_proof.offender, equivocation_proof.slot, longevity))
            },
            Call::Other => Err(TransactionValidityError::Invalid(InvalidTransaction::Call)),
        }
    }

    /// Checks a call before it is dispatched: only reports of equivocations, with
    /// a good key-ownership proof for an offence not known yet.
    pub fn pre_dispatch(&self, call: &Call) -> (r: Result<(), TransactionValidityError>)
        ensures
            self.pre_dispatch_post(*call, r),
    {
        match call {
            Call::ReportEquivocationUnsigned { equivocation_proof, key_owner_proof } => is_known_offence(
                &self.key_owner_proof_system,
                &self.handle_equivocation,
                equivocation_proof,
                key_owner_proof,
            ),
            Call::Other => Err(TransactionValidityError::Invalid(InvalidTransaction::Call)),
        }
    }
}

/// For a report from this node or from a block, `pre_dispatch` answers as
/// `validate_unsigned` does: it fails with the same error, or passes where
/// the report is valid.
pub proof fn law_pre_dispatch_agrees<K: KeyOwnerProofSystem, H: HandleEquivocation>(
    p: Pallet<K, H>,
    source: TransactionSource,
    call: Call,
    rv: TransactionValidity,
    rp: Result<(), TransactionValidityError>,
)
    requires
        source != TransactionSource::External,
        p.validate_unsigned_post(source, call, rv),
        p.pre_dispatch_post(call, rp),
    ensures
        rp is Ok <==> rv is Ok,
        forall|e: TransactionValidityError| rp == Err::<(), TransactionValidityError>(e)
            <==> rv == Err::<ValidTransaction, TransactionValidityError>(e),
{
}

} // verus!
