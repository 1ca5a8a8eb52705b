//! Members: the accounts whose offchain workers may submit transactions, and
//! other small parts of the file bank's interface.
use vstd::prelude::*;
use crate::bytes::contains_account;
use crate::config::Config;
use crate::pallet::{Pallet, touching};
use crate::types::{AccountId, Balance, BlockNumber, DispatchError, DispatchResult, Error, Origin, ensure_root};

verus! {

/// The accounts of `s` other than `acc`, in their order.
pub open spec fn without_account(s: Seq<AccountId>, acc: AccountId) -> Seq<AccountId> {
    s.filter(|x: AccountId| x != acc)
}

impl Pallet {
    /// What `add_member` does.
    pub open spec fn add_member_post(old: Pallet, new: Pallet, origin: Origin, acc: AccountId, r: DispatchResult) -> bool {
        if origin != Origin::Root {
            r == Err::<(), DispatchError>(DispatchError::BadOrigin) && new == old
        } else if old.members@.contains(acc) {
            r == Err::<(), DispatchError>(DispatchError::Module(Error::AlreadyExist)) && new == old
        } else if old.members@.len() >= old.string_limit {
            r == Err::<(), DispatchError>(DispatchError::Module(Error::StorageLimitReached))
                && new == old
        } else {
            &&& r is Ok
            &&& new.members@ == old.members@.push(acc)
            &&& old.keeps(&new, touching(false, false, false, false, false, true, false, false))
        }
    }

    /// The root origin adds `acc` to the members.
    pub fn add_member(&mut self, origin: Origin, acc: AccountId) -> (r: DispatchResult)
        requires
            old(self).wf(),
        ensures
            final(self).wf(),
            Self::add_member_post(*old(self), *final(self), origin, acc, r),
    {
        ensure_root(origin)?;
        if contains_account(&self.members, acc) {
            return Err(DispatchError::Module(Error::AlreadyExist));
        }
        if self.members.len() as u64 >= self.string_limit as u64 {
            return Err(DispatchError::Module(Error::StorageLimitReached));
        }
        self.members.push(acc);
        Ok(())
    }

    /// What `del_member` does.
    pub open spec fn del_member_post(old: Pallet, new: Pallet, origin: Origin, acc: AccountId, r: DispatchResult) -> bool {
        if origin != Origin::Root {
            r == Err::<(), DispatchError>(DispatchError::BadOrigin) && new == old
        } else {
            &&& r is Ok
            &&& new.members@ == without_account(old.members@, acc)
            &&& old.keeps(&new, touching(false, false, false, false, false, true, false, false))
        }
    }

    /// The root origin removes `acc` from the members.
    pub fn del_member(&mut self, origin: Origin, acc: AccountId) -> (r: DispatchResult)
        requires
            old(self).wf(),
        ensures
            final(self).wf(),
            Self::del_member_post(*old(self), *final(self), origin, acc, r),
    {
        ensure_root(origin)?;
        let ghost all = self.members@;
        let mut kept: Vec<AccountId> = Vec::new();
        let mut j: usize = 0;
        while j < self.members.len()
            invariant
                self.members@ == all,
                j <= all.len(),
                kept@ == without_account(all.subrange(0, j as int), acc),
            decreases all.len() - j,
        {
            proof {
                assert(all.subrange(0, j + 1).drop_last() =~= all.subrange(0, j as int));
                reveal(Seq::filter);
            }
            let x = self.members[j];
            if x != acc {
                kept.push(x);
            }
            j = j + 1;
            proof {
                assert(kept@ =~= without_account(all.subrange(0, j as int), acc));
            }
        }
        assert(all.subrange(0, all.len() as int) =~= all);
        self.members = kept;
        Ok(())
    }

    /// Whether `acc` is a member.
    pub fn contains_member(&self, acc: AccountId) -> (r: bool)
        ensures
            r == self.members@.contains(acc),
    {
        contains_account(&self.members, acc)
    }

    /// Sets the unit price to 100.
    pub fn update_price_for_tests(&mut self) -> (r: DispatchResult)
        ensures
            r is Ok,
            final(self).unit_price == 100,
            final(self).file == old(self).file,
            final(self).purchased_package == old(self).purchased_package,
            final(self).filler_map == old(self).filler_map,
            final(self).members == old(self).members,
            final(self).events == old(self).events,
    {
        let price: Balance = 100;
        self.unit_price = price;
        Ok(())
    }

    /// The number of indexed fillers.
    pub fn get_fillermap_length(&self) -> (r: Result<u32, DispatchError>)
        requires
            self.wf(),
            self.filler_keys_map@.len() <= u32::MAX,
        ensures
            r == Ok::<u32, DispatchError>(self.filler_keys_map@.len() as u32),
    {
        let n = self.filler_keys_map.len();
        Ok(n as u32)
    }

    /// The number of indexed files.
    pub fn get_file_map_length(&self) -> (r: Result<u32, DispatchError>)
        requires
            self.wf(),
            self.file_keys_map@.len() <= u32::MAX,
        ensures
            r == Ok::<u32, DispatchError>(self.file_keys_map@.len() as u32),
    {
        let n = self.file_keys_map.len();
        Ok(n as u32)
    }

    /// Whether the file of index `index` is stored.
    pub fn judge_file_exist(&self, index: u32) -> (r: bool)
        requires
            self.wf(),
        ensures
            r == (self.file_keys_map@.contains_key(index) && self.file_keys_map@[index].0),
    {
        match self.file_keys_map.get(&index) {
            Some(k) => k.active,
            None => false,
        }
    }

    /// Whether there is a filler of index `index`.
    pub fn judge_filler_exist(&self, index: u32) -> (r: bool)
        requires
            self.wf(),
        ensures
            r == self.filler_keys_map@.contains_key(index),
    {
        self.filler_keys_map.contains_key(&index)
    }
}

/// The current block number.
pub fn current_block_number<E: Config>(env: &E) -> (r: BlockNumber)
    ensures
        r == env.spec_block_number(),
{
    env.block_number()
}

} // verus!
