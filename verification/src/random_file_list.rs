//! The file bank's services to the pallets that challenge miners.
use vstd::prelude::*;
use crate::config::Config;
use crate::file::all_have_packages;
use crate::pallet::Pallet;
use crate::random::Challenge;
use crate::types::{AccountId, DispatchError, DispatchResult};

verus! {

/// What a pallet that challenges miners asks of the file bank: challenges to
/// send out, and the clean-up once a challenge failed.
pub trait RandomFileList<E: Config> {
    /// The state on which the services are called.
    spec fn well_formed(&self) -> bool;

    /// Challenges may be drawn from the state.
    spec fn ready_to_draw(&self) -> bool;

    /// The file `file_hash` may be cleared from the state.
    spec fn may_clear(&self, file_hash: Seq<u8>) -> bool;

    /// The challenges of this block.
    fn get_random_challenge_data(&self, env: &E) -> Result<Vec<Challenge>, DispatchError>
        requires
            self.ready_to_draw(),
    ;

    /// Deletes one filler of a miner.
    fn delete_filler(&mut self, miner_acc: AccountId, filler_id: Vec<u8>) -> (r: DispatchResult)
        requires
            old(self).well_formed(),
        ensures
            final(self).well_formed(),
    ;

    /// Deletes every filler of a miner.
    fn delete_miner_all_filler(&mut self, miner_acc: AccountId) -> (r: DispatchResult)
        requires
            old(self).well_formed(),
        ensures
            final(self).well_formed(),
    ;

    /// Deletes a file.
    fn clear_file(&mut self, env: &mut E, file_hash: Vec<u8>) -> (r: DispatchResult)
        requires
            old(self).well_formed(),
            old(self).may_clear(file_hash@),
        ensures
            final(self).well_formed(),
    ;

    /// Asks the current scheduler to recover a lost shard.
    fn add_recovery_file(&mut self, env: &E, file_id: Vec<u8>) -> (r: DispatchResult)
        requires
            old(self).well_formed(),
        ensures
            final(self).well_formed(),
    ;

    /// Asks a miner to delete data.
    fn add_invalid_file(&mut self, miner_acc: AccountId, file_hash: Vec<u8>) -> (r: DispatchResult)
        requires
            old(self).well_formed(),
        ensures
            final(self).well_formed(),
    ;

    /// Whether an account may submit transactions from an offchain worker.
    fn contains_member(&self, acc: AccountId) -> bool;
}

impl<E: Config> RandomFileList<E> for Pallet {
    open spec fn well_formed(&self) -> bool {
        self.wf()
    }

    open spec fn ready_to_draw(&self) -> bool {
        self.may_draw()
    }

    open spec fn may_clear(&self, file_hash: Seq<u8>) -> bool {
        self.file@.contains_key(file_hash) ==> all_have_packages(*self, self.file@[file_hash].user)
    }

    fn get_random_challenge_data(&self, env: &E) -> (r: Result<Vec<Challenge>, DispatchError>)
        ensures
            self.challenges_drawn(*env, r),
    {
        Pallet::get_random_challenge_data(self, env)
    }

    fn delete_filler(&mut self, miner_acc: AccountId, filler_id: Vec<u8>) -> (r: DispatchResult)
        ensures
            Pallet::delete_filler_post(*old(self), *final(self), miner_acc, filler_id@, r),
    {
        Pallet::delete_filler(self, miner_acc, filler_id)
    }

    fn delete_miner_all_filler(&mut self, miner_acc: AccountId) -> (r: DispatchResult)
        ensures
            Pallet::delete_miner_all_filler_post(*old(self), *final(self), miner_acc, r),
    {
        Pallet::delete_miner_all_filler(self, miner_acc)
    }

    fn clear_file(&mut self, env: &mut E, file_hash: Vec<u8>) -> (r: DispatchResult)
        ensures
            Pallet::clear_file_result(*old(self), *final(self), file_hash@, r),
            Pallet::clear_file_effects(*old(self), *old(env), *final(env), file_hash@, r),
    {
        Pallet::clear_file(self, env, file_hash)
    }

    fn add_recovery_file(&mut self, env: &E, file_id: Vec<u8>) -> (r: DispatchResult)
        ensures
            Pallet::add_recovery_file_post(*old(self), *final(self), *env, file_id@, r),
    {
        Pallet::add_recovery_file(self, env, file_id)
    }

    fn add_invalid_file(&mut self, miner_acc: AccountId, file_hash: Vec<u8>) -> (r: DispatchResult)
        ensures
            Pallet::add_invalid_file_post(*old(self), *final(self), miner_acc, file_hash@, r),
    {
        Pallet::add_invalid_file(self, miner_acc, file_hash)
    }

    fn contains_member(&self, acc: AccountId) -> (r: bool)
        ensures
            r == self.members@.contains(acc),
    {
        Pallet::contains_member(self, acc)
    }
}

} // verus!
