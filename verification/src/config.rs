//! What the file bank asks of the runtime it runs in.
//!
//! A runtime that includes the file bank implements `Config`: it supplies the
//! current block, the schedulers, the miners' accounting, the currency and a
//! source of randomness.  The queries answer from the runtime's state as it
//! stands; the file bank reads them through the `spec_` functions.  Each call
//! that changes another part of the runtime is recorded, with its arguments,
//! in `spec_effects`; it keeps the block and the file bank's account, and its
//! `Result` is the runtime's.
//!
//! An implementation writes each `spec_` function as a plain function that
//! gives the same answer as the query beside it.
use vstd::prelude::*;
use crate::types::{AccountId, Balance, BlockNumber, DispatchError, DispatchResult};

verus! {

/// A call of the file bank that changes the runtime, with its arguments.
#[derive(Clone, Copy, PartialEq, Eq, Structural, Debug)]
pub enum Effect {
    /// Power added to a miner.
    AddPower(AccountId, u128),
    /// Power taken from a miner.
    SubPower(AccountId, u128),
    /// Used space added to a miner.
    AddSpace(AccountId, u128),
    /// Used space taken from a miner.
    SubSpace(AccountId, u128),
    /// Space added to what the users bought in all.
    AddPurchasedSpace(u128),
    /// Space taken from what the users bought in all.
    SubPurchasedSpace(u128),
    /// Money moved: from, to, amount.
    Transfer(AccountId, AccountId, Balance),
}

pub trait Config {
    /// The current block number.
    spec fn spec_block_number(&self) -> BlockNumber;

    fn block_number(&self) -> (r: BlockNumber)
        ensures
            r == self.spec_block_number(),
    ;

    /// Whether `acc` is a scheduler.
    spec fn spec_contains_scheduler(&self, acc: AccountId) -> bool;

    fn contains_scheduler(&self, acc: AccountId) -> (r: bool)
        ensures
            r == self.spec_contains_scheduler(acc),
    ;

    /// The controller account of the scheduler whose stash is `acc`.
    spec fn spec_controller_acc(&self, acc: AccountId) -> AccountId;

    fn get_controller_acc(&self, acc: AccountId) -> (r: AccountId)
        ensures
            r == self.spec_controller_acc(acc),
    ;

    /// The controller account of the first scheduler.
    spec fn spec_first_controller(&self) -> Result<AccountId, DispatchError>;

    fn get_first_controller(&self) -> (r: Result<AccountId, DispatchError>)
        ensures
            r == self.spec_first_controller(),
    ;

    /// The author of the current block, as the consensus digest names it.
    spec fn spec_block_author(&self) -> Option<AccountId>;

    fn find_author(&self) -> (r: Option<AccountId>)
        ensures
            r == self.spec_block_author(),
    ;

    /// The state of the miner `acc`.
    spec fn spec_miner_state(&self, acc: AccountId) -> Result<Vec<u8>, DispatchError>;

    fn get_miner_state(&self, acc: AccountId) -> (r: Result<Vec<u8>, DispatchError>)
        ensures
            match (r, self.spec_miner_state(acc)) {
                (Ok(s), Ok(t)) => s@ == t@,
                (Err(e), Err(f)) => e == f,
                _ => false,
            },
    ;

    /// The power and the used space of the miner `acc`.
    spec fn spec_power_and_space(&self, acc: AccountId) -> Result<(u128, u128), DispatchError>;

    fn get_power_and_space(&self, acc: AccountId) -> (r: Result<(u128, u128), DispatchError>)
        ensures
            r == self.spec_power_and_space(acc),
    ;

    /// The id of the miner `acc`.
    spec fn spec_miner_id(&self, acc: AccountId) -> Result<u64, DispatchError>;

    fn get_miner_id(&self, acc: AccountId) -> (r: Result<u64, DispatchError>)
        ensures
            r == self.spec_miner_id(acc),
    ;

    /// The storage space that the miners offer in all.
    spec fn spec_total_space(&self) -> Result<u128, DispatchError>;

    fn get_space(&self) -> (r: Result<u128, DispatchError>)
        ensures
            r == self.spec_total_space(),
    ;

    /// The account of the file bank, into which package fees are paid.
    spec fn spec_pallet_account(&self) -> AccountId;

    /// The calls that changed the runtime so far, in order, each recorded
    /// whatever it answered.
    spec fn spec_effects(&self) -> Vec<Effect>;

    fn pallet_account(&self) -> (r: AccountId)
        ensures
            r == self.spec_pallet_account(),
    ;

    fn add_power(&mut self, acc: AccountId, power: u128) -> (r: DispatchResult)
        ensures
            final(self).spec_block_number() == old(self).spec_block_number(),
            final(self).spec_pallet_account() == old(self).spec_pallet_account(),
            final(self).spec_effects()@ == old(self).spec_effects()@.push(Effect::AddPower(acc, power)),
    ;

    fn sub_power(&mut self, acc: AccountId, power: u128) -> (r: DispatchResult)
        ensures
            final(self).spec_block_number() == old(self).spec_block_number(),
            final(self).spec_pallet_account() == old(self).spec_pallet_account(),
            final(self).spec_effects()@ == old(self).spec_effects()@.push(Effect::SubPower(acc, power)),
    ;

    fn add_space(&mut self, acc: AccountId, size: u128) -> (r: DispatchResult)
        ensures
            final(self).spec_block_number() == old(self).spec_block_number(),
            final(self).spec_pallet_account() == old(self).spec_pallet_account(),
            final(self).spec_effects()@ == old(self).spec_effects()@.push(Effect::AddSpace(acc, size)),
    ;

    fn sub_space(&mut self, acc: AccountId, size: u128) -> (r: DispatchResult)
        ensures
            final(self).spec_block_number() == old(self).spec_block_number(),
            final(self).spec_pallet_account() == old(self).spec_pallet_account(),
            final(self).spec_effects()@ == old(self).spec_effects()@.push(Effect::SubSpace(acc, size)),
    ;

    fn add_purchased_space(&mut self, size: u128) -> (r: DispatchResult)
        ensures
            final(self).spec_block_number() == old(self).spec_block_number(),
            final(self).spec_pallet_account() == old(self).spec_pallet_account(),
            final(self).spec_effects()@ == old(self).spec_effects()@.push(Effect::AddPurchasedSpace(size)),
    ;

    fn sub_purchased_space(&mut self, size: u128) -> (r: DispatchResult)
        ensures
            final(self).spec_block_number() == old(self).spec_block_number(),
            final(self).spec_pallet_account() == old(self).spec_pallet_account(),
            final(self).spec_effects()@ == old(self).spec_effects()@.push(Effect::SubPurchasedSpace(size)),
    ;

    /// Moves `amount` from `from` to `to`; the source account may die.
    fn transfer(&mut self, from: AccountId, to: AccountId, amount: Balance) -> (r: DispatchResult)
        ensures
            final(self).spec_block_number() == old(self).spec_block_number(),
            final(self).spec_pallet_account() == old(self).spec_pallet_account(),
            final(self).spec_effects()@ == old(self).spec_effects()@.push(Effect::Transfer(from, to, amount)),
    ;

    /// The random value of the chain for `subject`, as the chain's state
    /// stands; it depends on the subject's bytes alone.
    spec fn spec_random(&self, subject: Vec<u8>) -> Vec<u8>;

    /// A random value of the chain for `subject`.
    fn random(&self, subject: &Vec<u8>) -> (r: Vec<u8>)
        ensures
            forall|v: Vec<u8>| v@ == subject@ ==> #[trigger] self.spec_random(v)@ == r@,
    ;
}

} // verus!
