//! Files: their declaration by users, their upload by schedulers, their
//! deletion, and the lists of data that miners are asked to delete.
use vstd::prelude::*;
use crate::bytes::{bytes_list, contains_account, copy_bytes, without_bytes};
use crate::config::{Config, Effect};
use crate::lists::{list_of, others_same, push_items, retain_items, without_hash};
use crate::package::space_after;
use crate::pallet::{Pallet, touching, nothing};
use crate::types::{
    AccountId, DispatchError, DispatchResult, Error, Event, EventView, FileInfo, FileInfoView,
    FileKey, FileState, Origin, PackageDetails, SliceInfo, SliceInfoView, ensure_signed,
    slice_list,
};

verus! {

/// `x` occurs first at position `i` of `s`.
pub open spec fn first_at<A>(s: Seq<A>, x: A, i: int) -> bool {
    &&& 0 <= i < s.len()
    &&& s[i] == x
    &&& forall|k: int| 0 <= k < i ==> s[k] != x
}

/// The record of a file that `sender` declares first, under `name`.
pub open spec fn declared(index: u32, sender: AccountId, name: Seq<u8>) -> FileInfoView {
    FileInfoView {
        file_size: 0,
        index,
        file_state: FileState::Pending,
        user: seq![sender],
        file_name: seq![name],
        slice_info: Seq::empty(),
    }
}

/// The package of `acc` in `pk`, if any.
pub open spec fn package_in(pk: Map<AccountId, PackageDetails>, acc: AccountId) -> Option<PackageDetails> {
    if pk.contains_key(acc) {
        Some(pk[acc])
    } else {
        None
    }
}

/// The packages after each of `users` in turn is given back `size` bytes,
/// and the first error.
pub open spec fn release_users(pk: Map<AccountId, PackageDetails>, users: Seq<AccountId>, size: u128) -> (
    Map<AccountId, PackageDetails>,
    Option<Error>,
)
    decreases users.len(),
{
    if users.len() == 0 {
        (pk, None)
    } else {
        match space_after(package_in(pk, users[0]), 2, size) {
            Err(e) => (pk, Some(e)),
            Ok(q) => release_users(pk.insert(users[0], q), users.drop_first(), size),
        }
    }
}

/// The list under `acc` in `m`, empty where there is none.
pub open spec fn list_in(m: Map<AccountId, Seq<Seq<u8>>>, acc: AccountId) -> Seq<Seq<u8>> {
    if m.contains_key(acc) {
        m[acc]
    } else {
        Seq::empty()
    }
}

/// The lists of data to delete after the shard of each slice in turn is put
/// on the list of its miner, and the first error.
pub open spec fn flag_shards(m: Map<AccountId, Seq<Seq<u8>>>, slices: Seq<SliceInfoView>, limit: u32) -> (
    Map<AccountId, Seq<Seq<u8>>>,
    Option<Error>,
)
    decreases slices.len(),
{
    if slices.len() == 0 {
        (m, None)
    } else {
        let s = slices[0];
        if s.shard_id.len() > limit {
            (m, Some(Error::BoundedVecError))
        } else if list_in(m, s.miner_acc).len() + 1 > limit {
            (m, Some(Error::StorageLimitReached))
        } else {
            flag_shards(
                m.insert(s.miner_acc, list_in(m, s.miner_acc).push(s.shard_id)),
                slices.drop_first(),
                limit,
            )
        }
    }
}

/// Every user of the list has a package.
pub open spec fn all_have_packages(p: Pallet, users: Seq<AccountId>) -> bool {
    forall|i: int| 0 <= i < users.len() ==> #[trigger] p.purchased_package@.contains_key(users[i])
}

/// The views of a list of accounts copied one by one.
pub fn copy_accounts(a: &Vec<AccountId>) -> (r: Vec<AccountId>)
    ensures
        r@ == a@,
{
    let mut r: Vec<AccountId> = Vec::new();
    let mut i: usize = 0;
    while i < a.len()
        invariant
            i <= a.len(),
            r@ == a@.subrange(0, i as int),
        decreases a.len() - i,
    {
        r.push(a[i]);
        i = i + 1;
        assert(r@ =~= a@.subrange(0, i as int));
    }
    assert(a@.subrange(0, a.len() as int) =~= a@);
    r
}

impl Pallet {
    /// What `add_invalid_file` does.
    pub open spec fn add_invalid_file_post(old: Pallet, new: Pallet, miner_acc: AccountId, file_hash: Seq<u8>, r: DispatchResult) -> bool {
        if file_hash.len() > old.string_limit {
            r == Err::<(), DispatchError>(DispatchError::Module(Error::BoundedVecError)) && new == old
        } else if list_of(old.invalid_file, miner_acc).len() + 1 > old.string_limit {
            r == Err::<(), DispatchError>(DispatchError::Module(Error::StorageLimitReached))
                && new == old
        } else {
            &&& r is Ok
            &&& list_of(new.invalid_file, miner_acc) == list_of(old.invalid_file, miner_acc).push(file_hash)
            &&& others_same(old.invalid_file, new.invalid_file, miner_acc)
            &&& new.invalid_file@ == old.invalid_file@.insert(
                miner_acc,
                list_of(old.invalid_file, miner_acc).push(file_hash),
            )
            &&& old.keeps(&new, touching(false, false, false, false, true, false, false, false))
        }
    }

    /// Puts `file_hash` on the list of data that `miner_acc` is asked to
    /// delete.
    pub fn add_invalid_file(&mut self, miner_acc: AccountId, file_hash: Vec<u8>) -> (r: DispatchResult)
        requires
            old(self).wf(),
        ensures
            final(self).wf(),
            Self::add_invalid_file_post(*old(self), *final(self), miner_acc, file_hash@, r),
    {
        if file_hash.len() as u64 > self.string_limit as u64 {
            return Err(DispatchError::Module(Error::BoundedVecError));
        }
        let ghost h = file_hash@;
        let mut items: Vec<Vec<u8>> = Vec::new();
        items.push(file_hash);
        assert(bytes_list(items@) =~= seq![h]);
        let limit = self.string_limit;
        match push_items(&mut self.invalid_file, miner_acc, items, limit) {
            Ok(()) => {
                assert(list_of(old(self).invalid_file, miner_acc) + seq![h] =~= list_of(old(self).invalid_file, miner_acc).push(h));
                Ok(())
            },
            Err(e) => Err(DispatchError::Module(e)),
        }
    }

    /// What `clear_invalid_file` does.
    pub open spec fn clear_invalid_file_post(old: Pallet, new: Pallet, origin: Origin, file_hash: Seq<u8>, r: DispatchResult) -> bool {
        match origin {
            Origin::Signed(s) => if file_hash.len() > old.string_limit {
                r == Err::<(), DispatchError>(DispatchError::Module(Error::BoundedVecError))
                    && new == old
            } else {
                &&& r is Ok
                &&& list_of(new.invalid_file, s) == without_bytes(list_of(old.invalid_file, s), file_hash)
                &&& others_same(old.invalid_file, new.invalid_file, s)
                &&& new.events_view() == old.events_view().push(
                    EventView::ClearInvalidFile { acc: s, file_hash: file_hash },
                )
                &&& old.keeps(&new, touching(false, false, false, false, true, false, false, true))
            },
            _ => r == Err::<(), DispatchError>(DispatchError::BadOrigin) && new
                == old,
        }
    }

    /// A miner reports that it deleted `file_hash`: it leaves the miner's list
    /// of data to delete.
    pub fn clear_invalid_file(&mut self, origin: Origin, file_hash: Vec<u8>) -> (r: DispatchResult)
        requires
            old(self).wf(),
        ensures
            final(self).wf(),
            Self::clear_invalid_file_post(*old(self), *final(self), origin, file_hash@, r),
    {
        let sender = ensure_signed(origin)?;
        if file_hash.len() as u64 > self.string_limit as u64 {
            return Err(DispatchError::Module(Error::BoundedVecError));
        }
        retain_items(&mut self.invalid_file, sender, &file_hash);
        self.deposit_event(Event::ClearInvalidFile { acc: sender, file_hash });
        Ok(())
    }

    /// Replaces the record of a file, keeping its place.
    fn put_file(&mut self, hash: Vec<u8>, f: FileInfo)
        requires
            old(self).wf(),
            f.user.len() == f.file_name.len(),
            hash.len() <= old(self).string_limit,
            forall|i: u32| #[trigger] old(self).file_keys_map@.contains_key(i) && old(self).file_keys_map@[i].1
                == hash@ ==> f.index == i && (old(self).file_keys_map@[i].0 ==> f.file_state == FileState::Active),
            f.index <= old(self).file_index_count,
            old(self).file_keys_map@.contains_key(f.index) ==> old(self).file_keys_map@[f.index].1 == hash@,
        ensures
            final(self).wf(),
            final(self).file@ == old(self).file@.insert(hash@, f@),
            final(self).file_keys_map == old(self).file_keys_map,
            final(self).file_index_count == old(self).file_index_count,
            old(self).keeps(final(self), touching(true, false, false, false, false, false, false, false)),
    {
        let ghost hv = hash@;
        let ghost fv = f@;
        self.file.insert(hash, f);
        assert forall|h: Seq<u8>| #[trigger] self.file@.contains_key(h) implies self.file@[h].user.len()
            == self.file@[h].file_name.len() && h.len() <= self.string_limit by {
            if h != hv {
                assert(old(self).file@.contains_key(h));
            }
        }
    }

    /// What `upload_declaration` does.
    pub open spec fn upload_declaration_post(old: Pallet, new: Pallet, origin: Origin, file_hash: Seq<u8>, file_name: Seq<u8>, r: DispatchResult) -> bool {
        match origin {
            Origin::Signed(s) => if file_hash.len() > old.string_limit || file_name.len()
                > old.string_limit {
                r == Err::<(), DispatchError>(DispatchError::Module(Error::Overflow))
                    && new == old
            } else if old.file@.contains_key(file_hash) {
                let f = old.file@[file_hash];
                if f.user.contains(s) {
                    r == Err::<(), DispatchError>(DispatchError::Module(Error::Declarated))
                        && new == old
                } else {
                    match space_after(old.package_of(s), 1, f.file_size as u128) {
                        Err(e) => r == Err::<(), DispatchError>(DispatchError::Module(e))
                            && new == old,
                        Ok(p) => {
                            &&& new.purchased_package@ == old.purchased_package@.insert(s, p)
                            &&& if old.held_by(s).len() >= old.item_limit {
                                &&& r == Err::<(), DispatchError>(DispatchError::Module(Error::StorageLimitReached))
                                &&& old.keeps(&new, touching(false, false, false, false, false, false, true, false))
                            } else {
                                &&& new.held_by(s) == old.held_by(s).push(
                                    crate::types::UserFileSliceInfoView { file_hash: file_hash, file_size: f.file_size },
                                )
                                &&& forall|a: AccountId| a != s ==> #[trigger] new.held_by(a) == old.held_by(a)
                                &&& if f.user.len() >= old.string_limit {
                                    &&& r == Err::<(), DispatchError>(DispatchError::Module(Error::StorageLimitReached))
                                    &&& old.keeps(&new, touching(false, true, false, false, false, false, true, false))
                                } else {
                                    &&& r is Ok
                                    &&& new.file@ == old.file@.insert(
                                        file_hash,
                                        FileInfoView {
                                            user: f.user.push(s),
                                            file_name: f.file_name.push(file_name),
                                            ..f
                                        },
                                    )
                                    &&& new.file_keys_map == old.file_keys_map
                                    &&& new.file_index_count == old.file_index_count
                                    &&& new.events_view() == old.events_view().push(
                                        EventView::UploadDeclaration { acc: s, file_hash: file_hash, file_name: file_name },
                                    )
                                    &&& old.keeps(&new, touching(true, true, false, false, false, false, true, true))
                                }
                            }
                        },
                    }
                }
            } else if old.file_index_count + 1 > u32::MAX {
                r == Err::<(), DispatchError>(DispatchError::Module(Error::Overflow))
                    && new == old
            } else if old.string_limit < 7 {
                r == Err::<(), DispatchError>(DispatchError::Module(Error::BoundedVecError))
                    && new == old
            } else {
                let index = (old.file_index_count + 1) as u32;
                &&& r is Ok
                &&& new.file@ == old.file@.insert(file_hash, declared(index, s, file_name))
                &&& new.file_index_count == index
                &&& new.file_keys_map@ == old.file_keys_map@.insert(index, (false, file_hash))
                &&& new.events_view() == old.events_view().push(
                    EventView::UploadDeclaration { acc: s, file_hash: file_hash, file_name: file_name },
                )
                &&& old.keeps(&new, touching(true, false, false, false, false, false, false, true))
            },
            _ => r == Err::<(), DispatchError>(DispatchError::BadOrigin) && new
                == old,
        }
    }

    /// `sender` declares that it holds the file `file_hash` under the name
    /// `file_name`.  A known file gains the sender as a user, the sender's
    /// package gives up the file's size and the sender holds the file; an
    /// unknown file is recorded as pending, under the next file index.
    pub fn upload_declaration(&mut self, origin: Origin, file_hash: Vec<u8>, file_name: Vec<u8>) -> (r:
        DispatchResult)
        requires
            old(self).wf(),
        ensures
            final(self).wf(),
            Self::upload_declaration_post(*old(self), *final(self), origin, file_hash@, file_name@, r),
            files_index_exact(*old(self)) ==> files_index_exact(*final(self)),
    {
        let sender = ensure_signed(origin)?;
        if file_hash.len() as u64 > self.string_limit as u64 {
            return Err(DispatchError::Module(Error::Overflow));
        }
        if file_name.len() as u64 > self.string_limit as u64 {
            return Err(DispatchError::Module(Error::Overflow));
        }
        let ghost mut hold_state = *self;
        match self.file.find(&file_hash) {
            Some(i) => {
                let file_size = self.file.entries[i].1.file_size;
                if contains_account(&self.file.entries[i].1.user, sender) {
                    return Err(DispatchError::Module(Error::Declarated));
                }
                self.update_user_space(sender, 1, file_size as u128)?;
                let ghost after_space = *self;
                self.add_user_hold_fileslice(sender, copy_bytes(&file_hash), file_size)?;
                proof {
                    hold_state = *self;
                }
                assert(self.file == old(self).file);
                if self.file.entries[i].1.user.len() as u64 >= self.string_limit as u64 {
                    return Err(DispatchError::Module(Error::StorageLimitReached));
                }
                let (k, mut f) = self.file.remove_at(i);
                assert(old(self).file@.contains_key(k@));
                f.user.push(sender);
                let ghost names = f.file_name@;
                f.file_name.push(copy_bytes(&file_name));
                assert(bytes_list(f.file_name@) =~= bytes_list(names).push(file_name@));
                let ghost mid = *self;
                self.file.insert_at(i, k, f);
                proof {
                    assert forall|h: Seq<u8>| #[trigger] self.file@.contains_key(h) implies self.file@[h].user.len()
                        == self.file@[h].file_name.len() && h.len() <= self.string_limit by {
                        if h != file_hash@ {
                            assert(old(self).file@.contains_key(h));
                        }
                    }
                    assert(self.file@ =~= old(self).file@.insert(file_hash@, self.file@[file_hash@]));
                }
            },
            None => {
                let count = match self.file_index_count.checked_add(1) {
                    Some(c) => c,
                    None => return Err(DispatchError::Module(Error::Overflow)),
                };
                if self.string_limit < 7 {
                    return Err(DispatchError::Module(Error::BoundedVecError));
                }
                let mut user: Vec<AccountId> = Vec::new();
                user.push(sender);
                let mut names: Vec<Vec<u8>> = Vec::new();
                names.push(copy_bytes(&file_name));
                let info = FileInfo {
                    file_size: 0,
                    index: count,
                    file_state: FileState::Pending,
                    user,
                    file_name: names,
                    slice_info: Vec::new(),
                };
                assert(info@.user =~= seq![sender]);
                assert(info@.file_name =~= seq![file_name@]);
                assert(info@.slice_info =~= Seq::<SliceInfoView>::empty());
                assert(info@ == declared(count, sender, file_name@));
                self.file_index_count = count;
                self.put_file(copy_bytes(&file_hash), info);
                self.file_keys_map.insert(count, FileKey { active: false, file_hash: copy_bytes(&file_hash) });
            },
        }
        self.deposit_event(Event::UploadDeclaration { acc: sender, file_hash, file_name });
        proof {
            assert forall|a: AccountId| a != sender implies #[trigger] self.held_by(a) == old(self).held_by(a) by {
                assert(self.user_hold_file_list == hold_state.user_hold_file_list);
                assert(hold_state.held_by(a) == old(self).held_by(a));
            }
        }
        Ok(())
    }

    /// Records that `user` holds the file `file_hash` of `file_size` bytes.
    pub fn add_user_hold_fileslice(&mut self, user: AccountId, file_hash: Vec<u8>, file_size: u64) -> (r:
        DispatchResult)
        requires
            old(self).wf(),
        ensures
            final(self).wf(),
            if old(self).held_by(user).len() >= old(self).item_limit {
                r == Err::<(), DispatchError>(DispatchError::Module(Error::StorageLimitReached))
                    && *final(self) == *old(self)
            } else {
                &&& r is Ok
                &&& final(self).held_by(user) == old(self).held_by(user).push(
                    crate::types::UserFileSliceInfoView { file_hash: file_hash@, file_size },
                )
                &&& forall|a: AccountId| a != user ==> #[trigger] final(self).held_by(a) == old(self).held_by(a)
                &&& old(self).keeps(final(self), touching(false, true, false, false, false, false, false, false))
            },
    {
        let info = crate::types::UserFileSliceInfo { file_hash, file_size };
        let limit = self.item_limit;
        match crate::lists::push_held(&mut self.user_hold_file_list, user, info, limit) {
            Ok(()) => {
                proof {
                    assert forall|a: AccountId| a != user implies #[trigger] self.held_by(a) == old(self).held_by(a) by {
                        assert(crate::lists::held_of(self.user_hold_file_list, a) == crate::lists::held_of(old(self).user_hold_file_list, a));
                    }
                }
                Ok(())
            },
            Err(e) => Err(DispatchError::Module(e)),
        }
    }

    /// What `clear_file` does to a file that exists: each user gets the
    /// file's size back in turn, each slice's shard goes on its miner's list
    /// of data to delete, and the file leaves the file table and its index.
    pub open spec fn clear_file_post(old: Pallet, new: Pallet, hash: Seq<u8>, r: DispatchResult) -> bool {
        let f = old.file@[hash];
        let rel = release_users(old.purchased_package@, f.user, f.file_size as u128);
        if rel.1 is Some {
            &&& r == Err::<(), DispatchError>(DispatchError::Module(rel.1->0))
            &&& new.purchased_package@ == rel.0
            &&& old.keeps(&new, touching(false, true, false, false, false, false, true, true))
        } else {
            let flag = flag_shards(old.invalid_file@, f.slice_info, old.string_limit);
            &&& new.purchased_package@ == rel.0
            &&& old.keeps(&new, touching(true, true, false, false, true, false, true, true))
            &&& r is Ok ==> {
                &&& flag.1 is None
                &&& new.invalid_file@ == flag.0
                &&& new.file@ == old.file@.remove(hash)
                &&& new.file_keys_map@ == old.file_keys_map@.remove(f.index)
                &&& new.file_index_count == old.file_index_count
            }
            &&& r is Err ==> {
                &&& new.file == old.file
                &&& new.file_keys_map == old.file_keys_map
                &&& new.file_index_count == old.file_index_count
            }
        }
    }

    /// Gives each of `users` in turn `size` bytes back.
    fn release_all(&mut self, users: &Vec<AccountId>, size: u128) -> (r: DispatchResult)
        requires
            old(self).wf(),
            all_have_packages(*old(self), users@),
        ensures
            final(self).wf(),
            ({
                let rel = release_users(old(self).purchased_package@, users@, size);
                &&& final(self).purchased_package@ == rel.0
                &&& match rel.1 {
                    Some(e) => r == Err::<(), DispatchError>(DispatchError::Module(e)),
                    None => r is Ok,
                }
                &&& old(self).keeps(final(self), touching(false, false, false, false, false, false, true, false))
            }),
    {
        let n = users.len();
        let mut j: usize = 0;
        assert(users@.subrange(0, n as int) =~= users@);
        while j < n
            invariant
                self.wf(),
                n == users.len(),
                j <= n,
                all_have_packages(*self, users@),
                old(self).keeps(self, touching(false, false, false, false, false, false, true, false)),
                release_users(old(self).purchased_package@, users@, size) == release_users(
                    self.purchased_package@,
                    users@.subrange(j as int, n as int),
                    size,
                ),
            decreases n - j,
        {
            let u = users[j];
            let ghost sub = users@.subrange(j as int, n as int);
            proof {
                assert(sub[0] == u);
                assert(sub.drop_first() =~= users@.subrange(j + 1, n as int));
                assert(self.purchased_package@.contains_key(users@[j as int]));
            }
            let ghost before = *self;
            match self.update_user_space(u, 2, size) {
                Ok(()) => {},
                Err(e) => {
                    return Err(e);
                },
            }
            proof {
                assert forall|i: int| 0 <= i < users@.len() implies #[trigger] self.purchased_package@.contains_key(users@[i]) by {
                    assert(before.purchased_package@.contains_key(users@[i]));
                }
            }
            j = j + 1;
        }
        proof {
            assert(users@.subrange(n as int, n as int) =~= Seq::<AccountId>::empty());
        }
        Ok(())
    }

    /// What `clear_file` does, for any hash.
    pub open spec fn clear_file_result(old: Pallet, new: Pallet, hash: Seq<u8>, r: DispatchResult) -> bool {
        if hash.len() > old.string_limit {
            r == Err::<(), DispatchError>(DispatchError::Module(Error::BoundedVecError)) && new == old
        } else if !old.file@.contains_key(hash) {
            r == Err::<(), DispatchError>(DispatchError::Module(Error::FileNonExistent)) && new == old
        } else {
            &&& Self::clear_file_post(old, new, hash, r)
            &&& new.user_hold_file_list == old.user_hold_file_list
            &&& new.events == old.events
        }
    }

    /// What `clear_file` does to the runtime: after the users got their space
    /// back, the space of each slice in turn is taken from its miner, up to
    /// the first step that fails, and all of them where it succeeds; nothing
    /// where the file is not cleared for a library error before that.  A
    /// file without slices that its users can take back succeeds.
    pub open spec fn clear_file_effects<E: Config>(old: Pallet, env0: E, env1: E, hash: Seq<u8>, r: DispatchResult) -> bool {
        let f = old.file@[hash];
        let all = slice_space_effects(f.slice_info);
        if hash.len() > old.string_limit || !old.file@.contains_key(hash) || release_users(
            old.purchased_package@,
            f.user,
            f.file_size as u128,
        ).1 is Some {
            env1 == env0
        } else {
            &&& exists|t: int| 0 <= t <= all.len() && env1.spec_effects()@ == env0.spec_effects()@ + all.take(t)
            &&& r is Ok ==> env1.spec_effects()@ == env0.spec_effects()@ + all
            &&& f.slice_info.len() == 0 ==> r is Ok && env1 == env0
        }
    }

    /// Deletes the file `file_hash`: its users get its size back, its
    /// miners are asked to delete its shards and lose the space, and it
    /// leaves the file table and the file index.
    pub fn clear_file<E: Config>(&mut self, env: &mut E, file_hash: Vec<u8>) -> (r: DispatchResult)
        requires
            old(self).wf(),
            old(self).file@.contains_key(file_hash@) ==> all_have_packages(*old(self), old(self).file@[file_hash@].user),
        ensures
            final(self).wf(),
            Self::clear_file_result(*old(self), *final(self), file_hash@, r),
            Self::clear_file_effects(*old(self), *old(env), *final(env), file_hash@, r),
    {
        if file_hash.len() as u64 > self.string_limit as u64 {
            return Err(DispatchError::Module(Error::BoundedVecError));
        }
        let i = match self.file.find(&file_hash) {
            Some(i) => i,
            None => return Err(DispatchError::Module(Error::FileNonExistent)),
        };
        let users = copy_accounts(&self.file.entries[i].1.user);
        let size = self.file.entries[i].1.file_size as u128;
        let index = self.file.entries[i].1.index;
        let ghost f = self.file@[file_hash@];
        self.release_all(&users, size)?;
        let ghost after_release = *self;
        let ghost e0 = env.spec_effects()@;
        let ghost all = slice_space_effects(f.slice_info);
        let n = self.file.entries[i].1.slice_info.len();
        let mut j: usize = 0;
        proof {
            assert(self.file.entries@[i as int].1@ == f);
            assert(f.slice_info.subrange(0, n as int) =~= f.slice_info);
            assert(users@ == f.user);
        }
        while j < n
            invariant
                self.wf(),
                i < self.file.seq().len(),
                self.file == old(self).file,
                self.file.seq()[i as int].1 == f,
                n == f.slice_info.len(),
                j <= n,
                after_release.keeps(self, touching(false, false, false, false, true, false, false, false)),
                flag_shards(old(self).invalid_file@, f.slice_info, self.string_limit)
                    == flag_shards(self.invalid_file@, f.slice_info.subrange(j as int, n as int), self.string_limit),
                after_release.invalid_file == old(self).invalid_file,
                old(self).file@.contains_key(file_hash@),
                f == old(self).file@[file_hash@],
                file_hash.len() <= self.string_limit,
                release_users(old(self).purchased_package@, f.user, f.file_size as u128).1 is None,
                after_release.purchased_package@ == release_users(old(self).purchased_package@, f.user, f.file_size as u128).0,
                old(self).keeps(&after_release, touching(false, false, false, false, false, false, true, false)),
                e0 == old(env).spec_effects()@,
                all == slice_space_effects(f.slice_info),
                env.spec_effects()@ == e0 + all.take(j as int),
                j == 0 ==> *env == *old(env),
                0 <= j <= all.len(),
            decreases n - j,
        {
            let ghost sub = f.slice_info.subrange(j as int, n as int);
            proof {
                assert(sub[0] == f.slice_info[j as int]);
                assert(sub.drop_first() =~= f.slice_info.subrange(j + 1, n as int));
                assert(self.file.entries@[i as int].1@ == f);
            }
            let miner = self.file.entries[i].1.slice_info[j].miner_acc;
            let shard = copy_bytes(&self.file.entries[i].1.slice_info[j].shard_id);
            let shard_size = self.file.entries[i].1.slice_info[j].shard_size;
            let flagged = self.add_invalid_file(miner, shard);
            if flagged.is_err() {
                proof {
                    assert(0 <= j <= all.len() && env.spec_effects()@ == e0 + all.take(j as int));
                }
                return flagged;
            }
            let taken = env.sub_space(miner, shard_size as u128);
            proof {
                assert(all[j as int] == Effect::SubSpace(miner, shard_size as u128));
                assert(all.take(j + 1) =~= all.take(j as int).push(all[j as int]));
                assert(e0 + all.take(j + 1) =~= (e0 + all.take(j as int)).push(all[j as int]));
            }
            if taken.is_err() {
                proof {
                    assert(0 <= j + 1 <= all.len() && env.spec_effects()@ == e0 + all.take(j + 1));
                }
                return taken;
            }
            j = j + 1;
        }
        proof {
            assert(all.take(n as int) =~= all);
            assert(e0 + Seq::<Effect>::empty() =~= e0);
        }
        proof {
            assert(f.slice_info.subrange(n as int, n as int) =~= Seq::<SliceInfoView>::empty());
        }
        let _ = self.file.remove(&file_hash);
        let _ = self.file_keys_map.remove(&index);
        proof {
            assert forall|h: Seq<u8>| #[trigger] self.file@.contains_key(h) implies self.file@[h].user.len()
                == self.file@[h].file_name.len() && h.len() <= self.string_limit by {
                assert(old(self).file@.contains_key(h));
            }
        }
        Ok(())
    }

    /// What `clear_user_file` does when `user` holds the existing file
    /// `hash`: a file with other users only loses `user` (at its first place)
    /// and gives its size back to `user`'s package; the last user's file is
    /// cleared as `clear_file` does.  Then `user` no longer holds the file.
    pub open spec fn clear_user_file_post(old: Pallet, new: Pallet, hash: Seq<u8>, user: AccountId, r: DispatchResult) -> bool {
        let f = old.file@[hash];
        if !f.user.contains(user) {
            r == Err::<(), DispatchError>(DispatchError::Module(Error::NotOwner)) && new == old
        } else if f.user.len() > 1 {
            forall|i: int| #[trigger] first_at(f.user, user, i) ==> {
                &&& new.file@ == old.file@.insert(
                    hash,
                    FileInfoView { user: f.user.remove(i), file_name: f.file_name.remove(i), ..f },
                )
                &&& new.file_keys_map == old.file_keys_map
                &&& new.file_index_count == old.file_index_count
                &&& match space_after(old.package_of(user), 2, f.file_size as u128) {
                    Err(e) => {
                        &&& r == Err::<(), DispatchError>(DispatchError::Module(e))
                        &&& old.keeps(&new, touching(true, false, false, false, false, false, false, false))
                    },
                    Ok(p) => {
                        &&& r is Ok
                        &&& new.purchased_package@ == old.purchased_package@.insert(user, p)
                        &&& new.held_by(user) == without_hash(old.held_by(user), hash)
                        &&& forall|a: AccountId| a != user ==> #[trigger] new.held_by(a) == old.held_by(a)
                        &&& old.keeps(&new, touching(true, true, false, false, false, false, true, false))
                    },
                }
            }
        } else {
            &&& Self::clear_file_post(old, new, hash, r)
            &&& new.events == old.events
            &&& r is Ok ==> {
                &&& new.held_by(user) == without_hash(old.held_by(user), hash)
                &&& forall|a: AccountId| a != user ==> #[trigger] new.held_by(a) == old.held_by(a)
            }
            &&& r is Err ==> new.user_hold_file_list == old.user_hold_file_list
        }
    }

    /// What `clear_user_file` does to the runtime: nothing, but where `user`
    /// is the file's last user, what `clear_file` does.
    pub open spec fn clear_user_file_effects<E: Config>(
        old: Pallet,
        env0: E,
        env1: E,
        hash: Seq<u8>,
        user: AccountId,
        r: DispatchResult,
    ) -> bool {
        let f = old.file@[hash];
        if f.user.contains(user) && f.user.len() <= 1 {
            Self::clear_file_effects(old, env0, env1, hash, r)
        } else {
            env1 == env0
        }
    }

    /// `user` gives up the file `file_hash`.
    pub fn clear_user_file<E: Config>(&mut self, env: &mut E, file_hash: Vec<u8>, user: AccountId) -> (r: DispatchResult)
        requires
            old(self).wf(),
            old(self).file@.contains_key(file_hash@),
            old(self).file@[file_hash@].user.contains(user) ==> old(self).purchased_package@.contains_key(user),
        ensures
            final(self).wf(),
            Self::clear_user_file_post(*old(self), *final(self), file_hash@, user, r),
            Self::clear_user_file_effects(*old(self), *old(env), *final(env), file_hash@, user, r),
            final(self).events == old(self).events,
    {
        let i = match self.file.find(&file_hash) {
            Some(i) => i,
            None => return Err(DispatchError::Module(Error::FileNonExistent)),
        };
        let ghost f = self.file@[file_hash@];
        assert(self.file.entries@[i as int].1@ == f);
        if !contains_account(&self.file.entries[i].1.user, user) {
            return Err(DispatchError::Module(Error::NotOwner));
        }
        if self.file.entries[i].1.user.len() > 1 {
            let size = self.file.entries[i].1.file_size as u128;
            let mut p: usize = 0;
            while p < self.file.entries[i].1.user.len() && self.file.entries[i].1.user[p] != user
                invariant
                    i < self.file.entries.len(),
                    self.file.entries@[i as int].1@ == f,
                    f.user.contains(user),
                    p <= f.user.len(),
                    forall|k: int| 0 <= k < p ==> f.user[k] != user,
                decreases f.user.len() - p,
            {
                p = p + 1;
            }
            proof {
                if p == f.user.len() {
                    let k = choose|k: int| 0 <= k < f.user.len() && f.user[k] == user;
                    assert(f.user[k] == user);
                }
                assert(first_at(f.user, user, p as int));
                assert forall|i2: int| #[trigger] first_at(f.user, user, i2) implies i2 == p by {
                    if i2 < p {
                        assert(f.user[i2] != user);
                    }
                    if i2 > p {
                        assert(f.user[p as int] == user);
                    }
                }
                assert(self.purchased_package@.contains_key(f.user[p as int]));
            }
            let (k, mut info) = self.file.remove_at(i);
            info.user.remove(p);
            let ghost names = info.file_name@;
            info.file_name.remove(p);
            assert(bytes_list(info.file_name@) =~= bytes_list(names).remove(p as int));
            self.file.insert_at(i, k, info);
            proof {
                assert forall|h: Seq<u8>| #[trigger] self.file@.contains_key(h) implies self.file@[h].user.len()
                    == self.file@[h].file_name.len() && h.len() <= self.string_limit by {
                    if h != file_hash@ {
                        assert(old(self).file@.contains_key(h));
                    } else {
                        assert(old(self).file@.contains_key(h));
                    }
                }
                assert(self.file@[file_hash@].user =~= f.user.remove(p as int));
                assert(self.file@[file_hash@].file_name =~= f.file_name.remove(p as int));
                assert(self.file@ =~= old(self).file@.insert(
                    file_hash@,
                    FileInfoView { user: f.user.remove(p as int), file_name: f.file_name.remove(p as int), ..f },
                ));
            }
            let ghost after_file = *self;
            self.update_user_space(user, 2, size)?;
            let ghost after_space = *self;
            crate::lists::retain_held(&mut self.user_hold_file_list, user, &file_hash);
            proof {
                assert forall|a: AccountId| a != user implies #[trigger] self.held_by(a) == old(self).held_by(a) by {
                    assert(crate::lists::held_of(self.user_hold_file_list, a) == crate::lists::held_of(after_space.user_hold_file_list, a));
                }
                assert(self.held_by(user) == crate::lists::held_of(self.user_hold_file_list, user));
            }
            Ok(())
        } else {
            proof {
                assert(f.user.len() == 1);
                let k = choose|k: int| 0 <= k < f.user.len() && f.user[k] == user;
                assert(f.user[0] == user);
                assert(all_have_packages(*self, f.user));
            }
            self.clear_file(env, copy_bytes(&file_hash))?;
            let ghost after_clear = *self;
            crate::lists::retain_held(&mut self.user_hold_file_list, user, &file_hash);
            proof {
                assert forall|a: AccountId| a != user implies #[trigger] self.held_by(a) == old(self).held_by(a) by {
                    assert(crate::lists::held_of(self.user_hold_file_list, a) == crate::lists::held_of(after_clear.user_hold_file_list, a));
                }
            }
            Ok(())
        }
    }

    /// What `delete_file` does.
    pub open spec fn delete_file_post(old: Pallet, new: Pallet, origin: Origin, fileid: Seq<u8>, r: DispatchResult) -> bool {
        match origin {
            Origin::Signed(s) => if fileid.len() > old.string_limit {
                r == Err::<(), DispatchError>(DispatchError::Module(Error::BoundedVecError))
                    && new == old
            } else if !old.file@.contains_key(fileid) {
                r == Err::<(), DispatchError>(DispatchError::Module(Error::FileNonExistent))
                    && new == old
            } else {
                exists|mid: Pallet| {
                    &&& #[trigger] Self::clear_user_file_post(old, mid, fileid, s, r)
                    &&& mid.events == old.events
                    &&& r is Ok ==> new.events_view() == mid.events_view().push(
                        EventView::DeleteFile { acc: s, fileid: fileid },
                    ) && mid.keeps(&new, touching(false, false, false, false, false, false, false, true))
                    &&& r is Err ==> new == mid
                }
            },
            _ => r == Err::<(), DispatchError>(DispatchError::BadOrigin) && new
                == old,
        }
    }

    /// The signer deletes its file `fileid`.
    pub fn delete_file<E: Config>(&mut self, env: &mut E, origin: Origin, fileid: Vec<u8>) -> (r: DispatchResult)
        requires
            old(self).wf(),
            match origin {
                Origin::Signed(s) => old(self).file@.contains_key(fileid@) && old(self).file@[fileid@].user.contains(s)
                    ==> old(self).purchased_package@.contains_key(s),
                _ => true,
            },
        ensures
            final(self).wf(),
            Self::delete_file_post(*old(self), *final(self), origin, fileid@, r),
            match origin {
                Origin::Signed(s) => if fileid@.len() <= old(self).string_limit && old(self).file@.contains_key(fileid@) {
                    Self::clear_user_file_effects(*old(self), *old(env), *final(env), fileid@, s, r)
                } else {
                    *final(env) == *old(env)
                },
                _ => *final(env) == *old(env),
            },
    {
        let sender = ensure_signed(origin)?;
        if fileid.len() as u64 > self.string_limit as u64 {
            return Err(DispatchError::Module(Error::BoundedVecError));
        }
        if !self.file.contains_key(&fileid) {
            return Err(DispatchError::Module(Error::FileNonExistent));
        }
        let ghost before = *self;
        match self.clear_user_file(env, copy_bytes(&fileid), sender) {
            Ok(()) => {},
            Err(e) => {
                proof {
                    assert(Self::clear_user_file_post(before, *self, fileid@, sender, Err(e)));
                    let w = *self;
                    assert(Self::clear_user_file_post(*old(self), w, fileid@, sender, Err(e)) && w.events == old(self).events);
                }
                return Err(e);
            },
        }
        let ghost mid = *self;
        proof {
            assert(Self::clear_user_file_post(before, mid, fileid@, sender, Ok(())));
        }
        self.deposit_event(Event::DeleteFile { acc: sender, fileid });
        proof {
            assert(Self::clear_user_file_post(*old(self), mid, fileid@, sender, Ok(())) && mid.events == old(self).events);
        }
        Ok(())
    }

    /// A scheduler reports that the file `file_hash`, which `user` declared,
    /// is stored: `user`'s package gives up `file_size` bytes, the file
    /// becomes active with its slices, `user` holds it, and each slice's
    /// miner makes room for it (see `replace_file`).
    pub fn upload<E: Config>(
        &mut self,
        env: &mut E,
        origin: Origin,
        file_hash: Vec<u8>,
        file_size: u64,
        slice_info: Vec<SliceInfo>,
        user: AccountId,
    ) -> (r: DispatchResult)
        requires
            old(self).wf(),
        ensures
            final(self).wf(),
            files_index_exact(*old(self)) ==> files_index_exact(*final(self)),
            match origin {
                Origin::Signed(s) => if !old(env).spec_contains_scheduler(s) {
                    r == Err::<(), DispatchError>(DispatchError::Module(Error::ScheduleNonExistent))
                        && *final(self) == *old(self) && *final(env) == *old(env)
                } else if file_hash.len() > old(self).string_limit {
                    r == Err::<(), DispatchError>(DispatchError::Module(Error::BoundedVecError))
                        && *final(self) == *old(self) && *final(env) == *old(env)
                } else if !old(self).file@.contains_key(file_hash@) {
                    r == Err::<(), DispatchError>(DispatchError::Module(Error::FileNonExistent))
                        && *final(self) == *old(self) && *final(env) == *old(env)
                } else {
                    match space_after(old(self).package_of(user), 1, file_size as u128) {
                        Err(e) => r == Err::<(), DispatchError>(DispatchError::Module(e)) && *final(self)
                            == *old(self) && *final(env) == *old(env),
                        Ok(p) => {
                            let f = old(self).file@[file_hash@];
                            &&& final(self).purchased_package@ == old(self).purchased_package@.insert(user, p)
                            &&& if !f.user.contains(user) {
                                &&& r == Err::<(), DispatchError>(DispatchError::Module(Error::UserNotDeclared))
                                &&& old(self).keeps(final(self), touching(false, false, false, false, false, false, true, false))
                                &&& *final(env) == *old(env)
                            } else if f.file_state == FileState::Active {
                                &&& r == Err::<(), DispatchError>(DispatchError::Module(Error::FileExistent))
                                &&& old(self).keeps(final(self), touching(false, false, false, false, false, false, true, false))
                                &&& *final(env) == *old(env)
                            } else if slice_info.len() > old(self).string_limit || old(self).string_limit < 6 {
                                &&& r == Err::<(), DispatchError>(DispatchError::Module(Error::BoundedVecError))
                                &&& old(self).keeps(final(self), touching(false, false, false, false, false, false, true, false))
                                &&& *final(env) == *old(env)
                            } else if !old(self).file_keys_map@.contains_key(f.index) {
                                &&& r == Err::<(), DispatchError>(DispatchError::Module(Error::FileNonExistent))
                                &&& old(self).keeps(final(self), touching(false, false, false, false, false, false, true, false))
                                &&& *final(env) == *old(env)
                            } else {
                                &&& final(self).file@ == old(self).file@.insert(
                                    file_hash@,
                                    FileInfoView {
                                        file_size,
                                        slice_info: slice_list(slice_info@),
                                        file_state: FileState::Active,
                                        ..f
                                    },
                                )
                                &&& final(self).file_keys_map@ == old(self).file_keys_map@.insert(
                                    f.index,
                                    (true, old(self).file_keys_map@[f.index].1),
                                )
                                &&& final(self).file_index_count == old(self).file_index_count
                                &&& if old(self).held_by(user).len() >= old(self).item_limit {
                                    &&& r == Err::<(), DispatchError>(DispatchError::Module(Error::StorageLimitReached))
                                    &&& old(self).keeps(final(self), touching(true, false, false, false, false, false, true, false))
                                    &&& *final(env) == *old(env)
                                } else {
                                    &&& final(self).held_by(user) == old(self).held_by(user).push(
                                        crate::types::UserFileSliceInfoView { file_hash: file_hash@, file_size },
                                    )
                                    &&& forall|a: AccountId| a != user ==> #[trigger] final(self).held_by(a) == old(self).held_by(a)
                                    &&& old(self).keeps(final(self), touching(true, true, false, true, true, false, true, true))
                                    &&& r is Ok ==> final(self).events_view() == old(self).events_view().push(
                                        EventView::FileUpload { acc: user },
                                    )
                                    &&& r is Err ==> final(self).events == old(self).events
                                    &&& slice_info.len() == 0 ==> r is Ok && *final(env) == *old(env)
                                    &&& r is Ok ==> exists|p: Pallet, q: Pallet|
                                        #[trigger] rooms_made(p, q, *old(env), *final(env), slice_targets(slice_list(slice_info@)))
                                            && same_room(p, *old(self)) && same_room(q, *final(self))
                                }
                            }
                        },
                    }
                },
                _ => r == Err::<(), DispatchError>(DispatchError::BadOrigin) && *final(self)
                    == *old(self) && *final(env) == *old(env),
            },
    {
        let sender = ensure_signed(origin)?;
        if !env.contains_scheduler(sender) {
            return Err(DispatchError::Module(Error::ScheduleNonExistent));
        }
        if file_hash.len() as u64 > self.string_limit as u64 {
            return Err(DispatchError::Module(Error::BoundedVecError));
        }
        let i = match self.file.find(&file_hash) {
            Some(i) => i,
            None => return Err(DispatchError::Module(Error::FileNonExistent)),
        };
        let ghost f = self.file@[file_hash@];
        self.update_user_space(user, 1, file_size as u128)?;
        assert(self.file.entries@[i as int].1@ == f);
        if !contains_account(&self.file.entries[i].1.user, user) {
            return Err(DispatchError::Module(Error::UserNotDeclared));
        }
        if self.file.entries[i].1.file_state == FileState::Active {
            return Err(DispatchError::Module(Error::FileExistent));
        }
        if slice_info.len() as u64 > self.string_limit as u64 || self.string_limit < 6 {
            return Err(DispatchError::Module(Error::BoundedVecError));
        }
        let index = self.file.entries[i].1.index;
        let ki = match self.file_keys_map.find(&index) {
            Some(ki) => ki,
            None => return Err(DispatchError::Module(Error::FileNonExistent)),
        };
        // The miners and sizes of the slices, for making room after the file is stored.
        let mut targets: Vec<(AccountId, u64)> = Vec::new();
        let mut j: usize = 0;
        while j < slice_info.len()
            invariant
                j <= slice_info.len(),
                targets@ == slice_targets(slice_list(slice_info@)).subrange(0, j as int),
            decreases slice_info.len() - j,
        {
            targets.push((slice_info[j].miner_acc, slice_info[j].shard_size));
            j = j + 1;
            assert(targets@ =~= slice_targets(slice_list(slice_info@)).subrange(0, j as int));
        }
        assert(targets@ =~= slice_targets(slice_list(slice_info@)));
        let (kk, key) = self.file_keys_map.remove_at(ki);
        let ghost old_key = key@;
        self.file_keys_map.insert_at(ki, kk, FileKey { active: true, file_hash: key.file_hash });
        let (k, mut info) = self.file.remove_at(i);
        let ghost sv = slice_list(slice_info@);
        info.file_size = file_size;
        info.slice_info = slice_info;
        info.file_state = FileState::Active;
        self.file.insert_at(i, k, info);
        proof {
            assert forall|h: Seq<u8>| #[trigger] self.file@.contains_key(h) implies self.file@[h].user.len()
                == self.file@[h].file_name.len() && h.len() <= self.string_limit by {
                assert(old(self).file@.contains_key(h));
            }
            assert(self.file@ =~= old(self).file@.insert(
                file_hash@,
                FileInfoView { file_size, slice_info: sv, file_state: FileState::Active, ..f },
            ));
            assert(self.file_keys_map@ =~= old(self).file_keys_map@.insert(f.index, (true, old(self).file_keys_map@[f.index].1)));
            if files_index_exact(*old(self)) {
                assert forall|h: Seq<u8>| #[trigger] self.file@.contains_key(h) implies {
                    &&& 1 <= self.file@[h].index <= self.file_index_count
                    &&& self.file_keys_map@.contains_key(self.file@[h].index)
                    &&& self.file_keys_map@[self.file@[h].index] == (self.file@[h].file_state == FileState::Active, h)
                } by {
                    assert(old(self).file@.contains_key(h));
                    if h != file_hash@ {
                        assert(old(self).file@[h].index != f.index);
                    }
                }
            }
        }
        let ghost before_hold = *self;
        self.add_user_hold_fileslice(user, copy_bytes(&file_hash), file_size)?;
        let ghost after_hold = *self;
        let ghost env_before = *env;
        match self.replace_for_slices(env, &targets) {
            Ok(()) => {
                proof {
                    assert(rooms_made(after_hold, *self, env_before, *env, targets@));
                    if targets@.len() == 0 {
                        assert(*env == env_before);
                    }
                }
            },
            Err(e) => {
                proof {
                    assert forall|a: AccountId| a != user implies #[trigger] self.held_by(a) == old(self).held_by(a) by {
                        assert(self.held_by(a) == after_hold.held_by(a));
                        assert(before_hold.held_by(a) == old(self).held_by(a));
                    }
                }
                return Err(e);
            },
        }
        self.deposit_event(Event::FileUpload { acc: user });
        proof {
            assert forall|a: AccountId| a != user implies #[trigger] self.held_by(a) == old(self).held_by(a) by {
                assert(self.held_by(a) == after_hold.held_by(a));
                assert(before_hold.held_by(a) == old(self).held_by(a));
            }
        }
        Ok(())
    }

    /// Makes room at each miner for its slice in turn (see `replace_file`),
    /// and stops at the first that fails.
    fn replace_for_slices<E: Config>(&mut self, env: &mut E, targets: &Vec<(AccountId, u64)>) -> (r: DispatchResult)
        requires
            old(self).wf(),
        ensures
            final(self).wf(),
            old(self).keeps(final(self), touching(false, false, false, true, true, false, false, false)),
            r is Ok ==> rooms_made(*old(self), *final(self), *old(env), *final(env), targets@),
            r is Err ==> exists|j: int, mid: Pallet, e: E|
                0 <= j < targets@.len() && rooms_made(*old(self), mid, *old(env), e, targets@.take(j))
                    && #[trigger] Pallet::replace_file_post(
                    mid,
                    *final(self),
                    e,
                    *final(env),
                    targets@[j].0,
                    targets@[j].1,
                    r,
                ),
    {
        let mut j: usize = 0;
        proof {
            assert(targets@.take(0) =~= Seq::<(AccountId, u64)>::empty());
        }
        while j < targets.len()
            invariant
                self.wf(),
                old(self).keeps(self, touching(false, false, false, true, true, false, false, false)),
                0 <= j <= targets@.len(),
                rooms_made(*old(self), *self, *old(env), *env, targets@.take(j as int)),
            decreases targets.len() - j,
        {
            let (miner, size) = targets[j];
            let ghost before = *self;
            let ghost env_before = *env;
            let res = self.replace_file(env, miner, size);
            match res {
                Ok(()) => {},
                Err(e) => {
                    proof {
                        assert(Pallet::replace_file_post(
                            before,
                            *self,
                            env_before,
                            *env,
                            targets@[j as int].0,
                            targets@[j as int].1,
                            Err::<(), DispatchError>(e),
                        ));
                        assert(rooms_made(*old(self), before, *old(env), env_before, targets@.take(j as int)));
                    }
                    return Err(e);
                },
            }
            proof {
                let next = targets@.take(j + 1);
                assert(next.drop_last() =~= targets@.take(j as int));
                assert(next.last() == targets@[j as int]);
                assert(rooms_made(*old(self), before, *old(env), env_before, next.drop_last()));
                assert(Pallet::replace_file_post(before, *self, env_before, *env, next.last().0, next.last().1, Ok(())));
            }
            j = j + 1;
        }
        proof {
            assert(targets@.take(targets@.len() as int) =~= targets@);
        }
        Ok(())
    }

    /// What `add_recovery_file` does, where `env` is the runtime.
    pub open spec fn add_recovery_file_post<E: Config>(old: Pallet, new: Pallet, env: E, shard_id: Seq<u8>, r: DispatchResult) -> bool {
        let file_id = shard_id.subrange(0, shard_id.len() - 4);
        let limit = old.string_limit;
        if current_scheduler(env) is Err {
            r == Err::<(), DispatchError>(current_scheduler(env)->Err_0) && new == old
        } else if shard_id.len() < 4 {
            r == Err::<(), DispatchError>(DispatchError::Module(Error::Overflow)) && new == old
        } else if file_id.len() > limit {
            r == Err::<(), DispatchError>(DispatchError::Module(Error::BoundedVecError)) && new == old
        } else if !old.file@.contains_key(file_id) {
            r == Err::<(), DispatchError>(DispatchError::Module(Error::FileNonExistent)) && new == old
        } else {
            let acc = current_scheduler(env)->Ok_0;
            let f = old.file@[file_id];
            &&& new.file@ == old.file@.insert(
                file_id,
                FileInfoView { slice_info: without_shard(f.slice_info, shard_id), ..f },
            )
            &&& new.file_keys_map == old.file_keys_map
            &&& new.file_index_count == old.file_index_count
            &&& if shard_id.len() > limit {
                &&& r == Err::<(), DispatchError>(DispatchError::Module(Error::BoundedVecError))
                &&& old.keeps(&new, touching(true, false, false, false, false, false, false, false))
            } else if list_of(old.file_recovery, acc).len() + 1 > limit {
                &&& r == Err::<(), DispatchError>(DispatchError::Module(Error::StorageLimitReached))
                &&& old.keeps(&new, touching(true, false, false, false, false, false, false, false))
            } else {
                &&& r is Ok
                &&& list_of(new.file_recovery, acc) == list_of(old.file_recovery, acc).push(shard_id)
                &&& others_same(old.file_recovery, new.file_recovery, acc)
                &&& old.keeps(&new, touching(true, false, true, false, false, false, false, false))
            }
        }
    }

    /// The shard `shard_id` of a file is lost: it leaves the file's slices and
    /// goes on the list of shards that the current scheduler is to recover.
    /// The file's hash is the shard id without its last four bytes.
    pub fn add_recovery_file<E: Config>(&mut self, env: &E, shard_id: Vec<u8>) -> (r: DispatchResult)
        requires
            old(self).wf(),
        ensures
            final(self).wf(),
            Self::add_recovery_file_post(*old(self), *final(self), *env, shard_id@, r),
    {
        let acc = get_current_scheduler(env)?;
        if shard_id.len() < 4 {
            return Err(DispatchError::Module(Error::Overflow));
        }
        let length = shard_id.len() - 4;
        let file_id = crate::bytes::prefix_bytes(&shard_id, length);
        if file_id.len() as u64 > self.string_limit as u64 {
            return Err(DispatchError::Module(Error::BoundedVecError));
        }
        let i = match self.file.find(&file_id) {
            Some(i) => i,
            None => return Err(DispatchError::Module(Error::FileNonExistent)),
        };
        let ghost f = self.file@[file_id@];
        assert(self.file.entries@[i as int].1@ == f);
        let (k, info) = self.file.remove_at(i);
        let FileInfo { file_size, index, file_state, user, file_name, slice_info } = info;
        let kept = retain_other_slices(slice_info, &shard_id);
        let info = FileInfo { file_size, index, file_state, user, file_name, slice_info: kept };
        self.file.insert_at(i, k, info);
        proof {
            assert forall|h: Seq<u8>| #[trigger] self.file@.contains_key(h) implies self.file@[h].user.len()
                == self.file@[h].file_name.len() && h.len() <= self.string_limit by {
                assert(old(self).file@.contains_key(h));
            }
            assert(self.file@ =~= old(self).file@.insert(
                file_id@,
                FileInfoView { slice_info: without_shard(f.slice_info, shard_id@), ..f },
            ));
        }
        if shard_id.len() as u64 > self.string_limit as u64 {
            return Err(DispatchError::Module(Error::BoundedVecError));
        }
        let ghost sv = shard_id@;
        let mut items: Vec<Vec<u8>> = Vec::new();
        items.push(shard_id);
        assert(bytes_list(items@) =~= seq![sv]);
        let limit = self.string_limit;
        match push_items(&mut self.file_recovery, acc, items, limit) {
            Ok(()) => {
                assert(list_of(old(self).file_recovery, acc) + seq![sv] =~= list_of(old(self).file_recovery, acc).push(sv));
                Ok(())
            },
            Err(e) => Err(DispatchError::Module(e)),
        }
    }

    /// What `recover_file` does with the report on the shard `shard_id`:
    /// with `avail` the shard is stored again as `slice`; otherwise the file
    /// is cleared as `clear_file` does.
    pub open spec fn recover_file_post<E: Config>(
        old: Pallet,
        new: Pallet,
        env0: E,
        env1: E,
        origin: Origin,
        shard_id: Seq<u8>,
        slice: SliceInfoView,
        avail: bool,
        r: DispatchResult,
    ) -> bool {
        let file_id = shard_id.subrange(0, shard_id.len() - 4);
        let limit = old.string_limit;
        if shard_id.len() < 4 {
            r == Err::<(), DispatchError>(DispatchError::Module(Error::Overflow)) && new == old
        } else if file_id.len() > limit {
            r == Err::<(), DispatchError>(DispatchError::Module(Error::BoundedVecError)) && new == old
        } else {
            match origin {
                Origin::Signed(s) => if shard_id.len() > limit {
                    r == Err::<(), DispatchError>(DispatchError::Module(Error::BoundedVecError))
                        && new == old
                } else {
                    &&& list_of(new.file_recovery, s) == without_bytes(list_of(old.file_recovery, s), shard_id)
                    &&& others_same(old.file_recovery, new.file_recovery, s)
                    &&& if !old.file@.contains_key(file_id) {
                        &&& r == Err::<(), DispatchError>(DispatchError::Module(Error::FileNonExistent))
                        &&& old.keeps(&new, touching(false, false, true, false, false, false, false, false))
                    } else if avail {
                        let f = old.file@[file_id];
                        if f.slice_info.len() >= limit || limit < 6 {
                            &&& r == Err::<(), DispatchError>(DispatchError::Module(
                                if f.slice_info.len() >= limit { Error::StorageLimitReached } else { Error::BoundedVecError },
                            ))
                            &&& old.keeps(&new, touching(false, false, true, false, false, false, false, false))
                        } else {
                            &&& r is Ok
                            &&& new.file@ == old.file@.insert(
                                file_id,
                                FileInfoView {
                                    slice_info: f.slice_info.push(slice),
                                    file_state: FileState::Active,
                                    ..f
                                },
                            )
                            &&& new.file_keys_map == old.file_keys_map
                            &&& new.file_index_count == old.file_index_count
                            &&& new.events_view() == old.events_view().push(
                                EventView::RecoverFile { acc: s, file_hash: shard_id },
                            )
                            &&& old.keeps(&new, touching(true, false, true, false, false, false, false, true))
                        }
                    } else {
                        &&& Self::clear_file_result(
                            Pallet { file_recovery: new.file_recovery, ..old },
                            Pallet { events: old.events, ..new },
                            file_id,
                            r,
                        )
                        &&& Self::clear_file_effects(old, env0, env1, file_id, r)
                        &&& old.keeps(&new, touching(true, true, true, false, true, false, true, true))
                        &&& new.user_hold_file_list == old.user_hold_file_list
                        &&& r is Ok ==> new.file@ == old.file@.remove(file_id)
                            && new.events_view() == old.events_view().push(
                            EventView::RecoverFile { acc: s, file_hash: shard_id },
                        )
                        &&& r is Err ==> new.events == old.events
                    }
                },
                _ => r == Err::<(), DispatchError>(DispatchError::BadOrigin) && new
                    == old,
            }
        }
    }

    /// A scheduler reports on the recovery of the shard `shard_id`: it leaves
    /// the scheduler's list of shards to recover; where the shard is
    /// available again, `slice_info` joins the file's slices and the file is
    /// active, else the file is cleared (see `clear_file`).
    pub fn recover_file<E: Config>(
        &mut self,
        env: &mut E,
        origin: Origin,
        shard_id: Vec<u8>,
        slice_info: SliceInfo,
        avail: bool,
    ) -> (r: DispatchResult)
        requires
            old(self).wf(),
            shard_id.len() >= 4 && old(self).file@.contains_key(shard_id@.subrange(0, shard_id.len() - 4))
                && !avail ==> all_have_packages(
                *old(self),
                old(self).file@[shard_id@.subrange(0, shard_id.len() - 4)].user,
            ),
        ensures
            final(self).wf(),
            Self::recover_file_post(*old(self), *final(self), *old(env), *final(env), origin, shard_id@, slice_info@, avail, r),
    {
        if shard_id.len() < 4 {
            return Err(DispatchError::Module(Error::Overflow));
        }
        let length = shard_id.len() - 4;
        let file_id = crate::bytes::prefix_bytes(&shard_id, length);
        if file_id.len() as u64 > self.string_limit as u64 {
            return Err(DispatchError::Module(Error::BoundedVecError));
        }
        let sender = ensure_signed(origin)?;
        if shard_id.len() as u64 > self.string_limit as u64 {
            return Err(DispatchError::Module(Error::BoundedVecError));
        }
        retain_items(&mut self.file_recovery, sender, &shard_id);
        let ghost after_retain = *self;
        let i = match self.file.find(&file_id) {
            Some(i) => i,
            None => return Err(DispatchError::Module(Error::FileNonExistent)),
        };
        let ghost f = self.file@[file_id@];
        assert(self.file.entries@[i as int].1@ == f);
        if avail {
            if self.file.entries[i].1.slice_info.len() as u64 >= self.string_limit as u64 {
                return Err(DispatchError::Module(Error::StorageLimitReached));
            }
            if self.string_limit < 6 {
                return Err(DispatchError::Module(Error::BoundedVecError));
            }
            let (k, mut info) = self.file.remove_at(i);
            let ghost sl = slice_list(info.slice_info@);
            let ghost siv = slice_info@;
            info.slice_info.push(slice_info);
            info.file_state = FileState::Active;
            self.file.insert_at(i, k, info);
            proof {
                assert forall|h: Seq<u8>| #[trigger] self.file@.contains_key(h) implies self.file@[h].user.len()
                    == self.file@[h].file_name.len() && h.len() <= self.string_limit by {
                    assert(old(self).file@.contains_key(h));
                }
                assert(self.file@[file_id@].slice_info =~= f.slice_info.push(siv));
                assert(self.file@ =~= old(self).file@.insert(
                    file_id@,
                    FileInfoView { slice_info: f.slice_info.push(siv), file_state: FileState::Active, ..f },
                ));
            }
        } else {
            proof {
                assert(all_have_packages(*self, f.user));
            }
            let ghost before_clear = *self;
            proof {
                assert(before_clear == Pallet { file_recovery: before_clear.file_recovery, ..*old(self) });
            }
            self.clear_file(env, file_id)?;
            proof {
                assert(self.file@ == old(self).file@.remove(shard_id@.subrange(0, shard_id.len() - 4)));
                assert(*self == Pallet { events: old(self).events, ..*self });
            }
        }
        self.deposit_event(Event::RecoverFile { acc: sender, file_hash: shard_id });
        Ok(())
    }

    /// What `clear_expired_file` does for `acc`: without a list of held
    /// files it fails with `Overflow` and changes nothing; else `acc` gives
    /// up the files of its list in turn, as `clear_user_file` does, and the
    /// first failure ends it with that failure.
    pub open spec fn expired_cleared<E: Config>(
        old: Pallet,
        new: Pallet,
        env0: E,
        env1: E,
        acc: AccountId,
        r: DispatchResult,
    ) -> bool {
        let hs = held_hashes(old.held_by(acc));
        if !old.user_hold_file_list@.contains_key(acc) {
            r == Err::<(), DispatchError>(DispatchError::Module(Error::Overflow)) && new == old && env1 == env0
        } else if r is Ok {
            files_given_up(old, new, env0, env1, acc, hs)
        } else {
            exists|k: int, mid: Pallet, e: E|
                0 <= k < hs.len() && files_given_up(old, mid, env0, e, acc, hs.take(k))
                    && Self::clear_user_file_post(mid, new, hs[k], acc, r)
                    && #[trigger] Self::clear_user_file_effects(mid, e, env1, hs[k], acc, r)
        }
    }

    /// Clears every file that `acc` holds, in turn (see `clear_user_file`);
    /// fails where `acc` has no list of held files.
    pub fn clear_expired_file<E: Config>(&mut self, env: &mut E, acc: AccountId) -> (r: DispatchResult)
        requires
            old(self).wf(),
            holds_sound(*old(self), acc),
            old(self).purchased_package@.contains_key(acc),
        ensures
            final(self).wf(),
            Self::expired_cleared(*old(self), *final(self), *old(env), *final(env), acc, r),
            space_taken_after(old(env).spec_effects()@, final(env).spec_effects()@),
            users_have_packages(*old(self)) ==> users_have_packages(*final(self)),
            forall|b: AccountId| b != acc && holds_sound(*old(self), b) ==> #[trigger] holds_sound(*final(self), b),
            forall|b: AccountId| b != acc ==> #[trigger] final(self).package_of(b) == old(self).package_of(b),
            forall|b: AccountId| old(self).purchased_package@.contains_key(b) ==> #[trigger] final(self).purchased_package@.contains_key(b),
            forall|b: AccountId| b != acc ==> #[trigger] final(self).held_by(b) == old(self).held_by(b),
            !old(self).user_hold_file_list@.contains_key(acc) ==> r == Err::<(), DispatchError>(
                DispatchError::Module(Error::Overflow),
            ) && *final(self) == *old(self),
            r is Ok ==> final(self).held_by(acc).len() == 0,
            old(self).keeps(final(self), touching(true, true, false, false, true, false, true, false)),
            forall|b: AccountId| old(self).purchased_package@.contains_key(b) ==> same_terms(
                old(self).purchased_package@[b],
                #[trigger] final(self).purchased_package@[b],
            ),
    {
        let i = match self.user_hold_file_list.find(&acc) {
            Some(i) => i,
            None => {
                assert(env.spec_effects()@.take(env.spec_effects()@.len() as int) =~= env.spec_effects()@);
                return Err(DispatchError::Module(Error::Overflow));
            },
        };
        let ghost l = self.held_by(acc);
        assert(self.user_hold_file_list.entries@[i as int].1@ == l);
        let n = self.user_hold_file_list.entries[i].1.items.len();
        let mut hashes: Vec<Vec<u8>> = Vec::new();
        let mut j: usize = 0;
        while j < n
            invariant
                i < self.user_hold_file_list.entries.len(),
                self.user_hold_file_list.entries@[i as int].1@ == l,
                n == l.len(),
                j <= n,
                hashes@.len() == j,
                forall|k: int| 0 <= k < j ==> #[trigger] hashes@[k]@ == l[k].file_hash,
            decreases n - j,
        {
            hashes.push(copy_bytes(&self.user_hold_file_list.entries[i].1.items[j].file_hash));
            j = j + 1;
        }
        let mut j: usize = 0;
        assert(l.subrange(0, n as int) =~= l);
        assert(held_hashes(l).take(0) =~= Seq::<Seq<u8>>::empty());
        assert(env.spec_effects()@.take(env.spec_effects()@.len() as int) =~= env.spec_effects()@);
        while j < n
            invariant
                self.wf(),
                users_have_packages(*old(self)) ==> users_have_packages(*self),
                self.purchased_package@.contains_key(acc),
                space_taken_after(old(env).spec_effects()@, env.spec_effects()@),
                n == l.len(),
                l == old(self).held_by(acc),
                j <= n,
                hashes@.len() == n,
                forall|k: int| 0 <= k < n ==> #[trigger] hashes@[k]@ == l[k].file_hash,
                self.held_by(acc) == l.subrange(j as int, n as int),
                old(self).user_hold_file_list@.contains_key(acc),
                files_given_up(*old(self), *self, *old(env), *env, acc, held_hashes(l).take(j as int)),
                holds_sound(*self, acc),
                forall|b: AccountId| b != acc && holds_sound(*old(self), b) ==> #[trigger] holds_sound(*self, b),
                forall|b: AccountId| b != acc ==> #[trigger] self.package_of(b) == old(self).package_of(b),
                forall|b: AccountId| old(self).purchased_package@.contains_key(b) ==> #[trigger] self.purchased_package@.contains_key(b),
                forall|b: AccountId| b != acc ==> #[trigger] self.held_by(b) == old(self).held_by(b),
                old(self).keeps(self, touching(true, true, false, false, true, false, true, false)),
                forall|b: AccountId| old(self).purchased_package@.contains_key(b) ==> same_terms(
                    old(self).purchased_package@[b],
                    #[trigger] self.purchased_package@[b],
                ),
            decreases n - j,
        {
            let ghost before = *self;
            let ghost h = hashes@[j as int]@;
            proof {
                assert(self.held_by(acc)[0] == l[j as int]);
                assert(self.file@.contains_key(h));
                assert(self.file@[h].user.contains(acc));
            }
            let hj = copy_bytes(&hashes[j]);
            let ghost env_before = *env;
            let res = self.clear_user_file(env, hj, acc);
            proof {
                lemma_clear_user_file_keeps(before, *self, h, acc, res);
                lemma_clear_user_file_space(before, env_before, *env, h, acc, res);
                lemma_space_taken_trans(old(env).spec_effects()@, env_before.spec_effects()@, env.spec_effects()@);
            }
            proof {
                assert forall|b: AccountId| old(self).purchased_package@.contains_key(b) implies same_terms(
                    old(self).purchased_package@[b],
                    #[trigger] self.purchased_package@[b],
                ) by {
                    assert(before.purchased_package@.contains_key(b));
                    assert(same_terms(old(self).purchased_package@[b], before.purchased_package@[b]));
                    assert(same_terms(before.purchased_package@[b], self.purchased_package@[b]));
                }
            }
            let ghost hs = held_hashes(l);
            proof {
                assert(hs[j as int] == h);
            }
            match res {
                Ok(()) => {},
                Err(e) => {
                    proof {
                        assert(files_given_up(*old(self), before, *old(env), env_before, acc, hs.take(j as int)));
                        assert(Self::clear_user_file_post(before, *self, hs[j as int], acc, res));
                    }
                    return Err(e);
                },
            }
            proof {
                let t = hs.take(j + 1);
                assert(t.drop_last() =~= hs.take(j as int));
                assert(t.last() == h);
                assert(Self::clear_user_file_post(before, *self, t.last(), acc, Ok(())));
                assert(Self::clear_user_file_effects(before, env_before, *env, t.last(), acc, Ok(())));
                assert(files_given_up(*old(self), before, *old(env), env_before, acc, t.drop_last()));
                assert(files_given_up(*old(self), *self, *old(env), *env, acc, t));
            }
            proof {
                lemma_without_first(before.held_by(acc));
                assert(l.subrange(j as int, n as int).drop_first() =~= l.subrange(j + 1, n as int));
                assert forall|k: int| 0 <= k < self.held_by(acc).len() implies {
                    &&& self.file@.contains_key(#[trigger] self.held_by(acc)[k].file_hash)
                    &&& self.file@[self.held_by(acc)[k].file_hash].user.contains(acc)
                } by {
                    assert(self.held_by(acc)[k] == before.held_by(acc)[k + 1]);
                    assert(before.held_by(acc)[0].file_hash != before.held_by(acc)[k + 1].file_hash);
                }
                assert forall|b: AccountId| b != acc && holds_sound(*old(self), b) implies #[trigger] holds_sound(*self, b) by {
                    assert(holds_sound(before, b));
                }
                assert forall|b: AccountId| b != acc implies #[trigger] self.package_of(b) == old(self).package_of(b) by {
                    assert(before.package_of(b) == old(self).package_of(b));
                }
                assert forall|b: AccountId| old(self).purchased_package@.contains_key(b) implies #[trigger] self.purchased_package@.contains_key(b) by {
                    assert(before.purchased_package@.contains_key(b));
                }
                assert forall|b: AccountId| b != acc implies #[trigger] self.held_by(b) == old(self).held_by(b) by {
                    assert(before.held_by(b) == old(self).held_by(b));
                }
            }
            j = j + 1;
        }
        proof {
            assert(held_hashes(l).take(n as int) =~= held_hashes(l));
        }
        Ok(())
    }
}

/// The steps of making room for slices that went through: `replace_file`
/// for each of `targets` in turn, from the file bank `p` and the runtime
/// `env0` to the file bank `q` and the runtime `env1`.
pub open spec fn rooms_made<E: Config>(p: Pallet, q: Pallet, env0: E, env1: E, targets: Seq<(AccountId, u64)>) -> bool
    decreases targets.len(),
{
    if targets.len() == 0 {
        q == p && env1 == env0
    } else {
        exists|mid: Pallet, e: E|
            rooms_made(p, mid, env0, e, targets.drop_last()) && #[trigger] Pallet::replace_file_post(
                mid,
                q,
                e,
                env1,
                targets.last().0,
                targets.last().1,
                Ok(()),
            )
    }
}

/// `a` and `b` have the same fillers, filler index, lists of data to delete
/// and bound of strings: what making room for slices reads and writes.
pub open spec fn same_room(a: Pallet, b: Pallet) -> bool {
    &&& a.filler_map == b.filler_map
    &&& a.filler_keys_map == b.filler_keys_map
    &&& a.filler_index_count == b.filler_index_count
    &&& a.invalid_file == b.invalid_file
    &&& a.string_limit == b.string_limit
}

/// The space of each slice taken from its miner, in turn.
pub open spec fn slice_space_effects(l: Seq<SliceInfoView>) -> Seq<Effect> {
    l.map_values(|v: SliceInfoView| Effect::SubSpace(v.miner_acc, v.shard_size as u128))
}

/// Every file is indexed: its index, from 1 to the count of indexes given
/// out, leads to it, marked as stored exactly where the file is active.
pub open spec fn files_index_exact(p: Pallet) -> bool {
    forall|h: Seq<u8>| #[trigger] p.file@.contains_key(h) ==> {
        &&& 1 <= p.file@[h].index <= p.file_index_count
        &&& p.file_keys_map@.contains_key(p.file@[h].index)
        &&& p.file_keys_map@[p.file@[h].index] == (p.file@[h].file_state == FileState::Active, h)
    }
}

/// The hashes of a list of held files.
pub open spec fn held_hashes(l: Seq<crate::types::UserFileSliceInfoView>) -> Seq<Seq<u8>> {
    l.map_values(|x: crate::types::UserFileSliceInfoView| x.file_hash)
}

/// `acc` gave up the files `hs` in turn, each as `clear_user_file` does and
/// with success, from the file bank `p` and the runtime `env0` to the file
/// bank `q` and the runtime `env1`.
pub open spec fn files_given_up<E: Config>(
    p: Pallet,
    q: Pallet,
    env0: E,
    env1: E,
    acc: AccountId,
    hs: Seq<Seq<u8>>,
) -> bool
    decreases hs.len(),
{
    if hs.len() == 0 {
        q == p && env1 == env0
    } else {
        exists|mid: Pallet, e: E|
            files_given_up(p, mid, env0, e, acc, hs.drop_last()) && Pallet::clear_user_file_post(
                mid,
                q,
                hs.last(),
                acc,
                Ok(()),
            ) && #[trigger] Pallet::clear_user_file_effects(mid, e, env1, hs.last(), acc, Ok(()))
    }
}

/// `e1` is `e0` followed by nothing but space taken from miners.
pub open spec fn space_taken_after(e0: Seq<Effect>, e1: Seq<Effect>) -> bool {
    &&& e0.len() <= e1.len()
    &&& e1.take(e0.len() as int) == e0
    &&& forall|j: int| e0.len() <= j < e1.len() ==> #[trigger] e1[j] is SubSpace
}

/// Giving up a file takes nothing from the runtime but miners' space.
pub proof fn lemma_clear_user_file_space<E: Config>(
    old: Pallet,
    env0: E,
    env1: E,
    hash: Seq<u8>,
    user: AccountId,
    r: DispatchResult,
)
    requires
        Pallet::clear_user_file_effects(old, env0, env1, hash, user, r),
    ensures
        space_taken_after(env0.spec_effects()@, env1.spec_effects()@),
{
    let e0 = env0.spec_effects()@;
    let e1 = env1.spec_effects()@;
    let f = old.file@[hash];
    let all = slice_space_effects(f.slice_info);
    if env1 == env0 {
        assert(e1.take(e0.len() as int) =~= e0);
    } else {
        let t = choose|t: int| 0 <= t <= all.len() && e1 == e0 + all.take(t);
        assert(e1.take(e0.len() as int) =~= e0);
        assert forall|j: int| e0.len() <= j < e1.len() implies #[trigger] e1[j] is SubSpace by {
            assert(e1[j] == all[j - e0.len()]);
        }
    }
}

/// Taking only miners' space, twice over, takes only miners' space.
pub proof fn lemma_space_taken_trans(a: Seq<Effect>, b: Seq<Effect>, c: Seq<Effect>)
    requires
        space_taken_after(a, b),
        space_taken_after(b, c),
    ensures
        space_taken_after(a, c),
{
    assert(c.take(a.len() as int) =~= b.take(a.len() as int)) by {
        assert forall|j: int| 0 <= j < a.len() implies c[j] == b[j] by {
            assert(c.take(b.len() as int)[j] == b[j]);
        }
    }
    assert forall|j: int| a.len() <= j < c.len() implies #[trigger] c[j] is SubSpace by {
        if j < b.len() {
            assert(c.take(b.len() as int)[j] == b[j]);
            assert(b[j] is SubSpace);
        }
    }
}

/// The miner and size of each slice, for making room for it.
pub open spec fn slice_targets(l: Seq<SliceInfoView>) -> Seq<(AccountId, u64)> {
    l.map_values(|v: SliceInfoView| (v.miner_acc, v.shard_size))
}

/// Every file that `a` holds exists and has `a` among its users, and `a`
/// holds no file twice.
pub open spec fn holds_sound(p: Pallet, a: AccountId) -> bool {
    &&& forall|j: int| 0 <= j < p.held_by(a).len() ==> {
        &&& p.file@.contains_key(#[trigger] p.held_by(a)[j].file_hash)
        &&& p.file@[p.held_by(a)[j].file_hash].user.contains(a)
    }
    &&& forall|j: int, k: int| 0 <= j < k < p.held_by(a).len() ==> #[trigger] p.held_by(a)[j].file_hash
        != #[trigger] p.held_by(a)[k].file_hash
}

/// Every user of every file has a package.
pub open spec fn users_have_packages(p: Pallet) -> bool {
    forall|h: Seq<u8>| #[trigger] p.file@.contains_key(h) ==> all_have_packages(p, p.file@[h].user)
}

/// `q` has the terms of `p`: the same space, lease, type and state.
pub open spec fn same_terms(p: PackageDetails, q: PackageDetails) -> bool {
    &&& q.space == p.space
    &&& q.deadline == p.deadline
    &&& q.start == p.start
    &&& q.tenancy == p.tenancy
    &&& q.package_type == p.package_type
    &&& q.state == p.state
}

/// Giving space back keeps the terms of every package.
pub proof fn lemma_release_terms(pk: Map<AccountId, PackageDetails>, users: Seq<AccountId>, size: u128)
    ensures
        forall|k: AccountId| pk.contains_key(k) ==> same_terms(pk[k], #[trigger] release_users(pk, users, size).0[k]),
    decreases users.len(),
{
    if users.len() > 0 {
        match space_after(package_in(pk, users[0]), 2, size) {
            Err(e) => {
                assert(release_users(pk, users, size).0 == pk);
            },
            Ok(q) => {
                let pk2 = pk.insert(users[0], q);
                assert(release_users(pk, users, size) == release_users(pk2, users.drop_first(), size));
                lemma_release_terms(pk2, users.drop_first(), size);
                assert forall|k: AccountId| pk.contains_key(k) implies same_terms(pk[k], #[trigger] release_users(pk, users, size).0[k]) by {
                    assert(pk2.contains_key(k));
                    assert(same_terms(pk[k], pk2[k]));
                }
            },
        }
    }
}

/// Giving space back keeps every package, and changes none but those of the
/// users.
#[verifier::spinoff_prover]
pub proof fn lemma_release_keeps(pk: Map<AccountId, PackageDetails>, users: Seq<AccountId>, size: u128)
    ensures
        forall|k: AccountId| pk.contains_key(k) ==> #[trigger] release_users(pk, users, size).0.contains_key(k),
        forall|k: AccountId| !users.contains(k) ==> (#[trigger] release_users(pk, users, size).0.contains_key(k)
            == pk.contains_key(k) && (pk.contains_key(k) ==> release_users(pk, users, size).0[k] == pk[k])),
    decreases users.len(),
{
    if users.len() > 0 {
        match space_after(package_in(pk, users[0]), 2, size) {
            Err(e) => {
                assert(release_users(pk, users, size).0 == pk);
            },
            Ok(q) => {
                let pk2 = pk.insert(users[0], q);
                assert(release_users(pk, users, size) == release_users(pk2, users.drop_first(), size));
                lemma_release_keeps(pk2, users.drop_first(), size);
                assert forall|k: AccountId| !users.contains(k) implies !users.drop_first().contains(k) && k != users[0] by {
                    if users.drop_first().contains(k) {
                        let j = choose|j: int| 0 <= j < users.drop_first().len() && users.drop_first()[j] == k;
                        assert(users[j + 1] == k);
                    }
                    assert(users[0] == users[0]);
                }
                assert forall|k: AccountId| pk.contains_key(k) implies #[trigger] release_users(pk, users, size).0.contains_key(k) by {
                    assert(pk2.contains_key(k));
                }
                assert forall|k: AccountId| !users.contains(k) implies (#[trigger] release_users(pk, users, size).0.contains_key(k)
                    == pk.contains_key(k) && (pk.contains_key(k) ==> release_users(pk, users, size).0[k] == pk[k])) by {
                    assert(users[0] != k) by {
                        assert(users.contains(users[0]));
                    }
                    assert(!users.drop_first().contains(k)) by {
                        if users.drop_first().contains(k) {
                            let j = choose|j: int| 0 <= j < users.drop_first().len() && users.drop_first()[j] == k;
                            assert(users[j + 1] == k);
                        }
                    }
                    assert(pk2.contains_key(k) == pk.contains_key(k));
                    assert(pk.contains_key(k) ==> pk2[k] == pk[k]);
                }
            },
        }
    }
}

/// Where `x` first occurs in `s`.
pub proof fn lemma_first_at(s: Seq<AccountId>, x: AccountId) -> (i: int)
    requires
        s.contains(x),
    ensures
        first_at(s, x, i),
    decreases s.len(),
{
    if s[0] == x {
        0
    } else {
        let t = s.drop_first();
        let j = choose|j: int| 0 <= j < s.len() && s[j] == x;
        assert(t[j - 1] == x);
        let k = lemma_first_at(t, x);
        assert forall|m: int| 0 <= m < k + 1 implies s[m] != x by {
            if m > 0 {
                assert(s[m] == t[m - 1]);
            }
        }
        k + 1
    }
}

/// What `clear_user_file` keeps: the packages of all, the files other than
/// the one cleared, the files that other accounts hold and their soundness.
pub proof fn lemma_clear_user_file_keeps(old: Pallet, new: Pallet, h: Seq<u8>, a: AccountId, r: DispatchResult)
    requires
        old.wf(),
        new.wf(),
        old.file@.contains_key(h),
        old.file@[h].user.contains(a),
        old.purchased_package@.contains_key(a),
        Pallet::clear_user_file_post(old, new, h, a, r),
    ensures
        users_have_packages(old) ==> users_have_packages(new),
        forall|b: AccountId| b != a && holds_sound(old, b) ==> #[trigger] holds_sound(new, b),
        forall|h2: Seq<u8>| h2 != h ==> (#[trigger] new.file@.contains_key(h2) == old.file@.contains_key(h2))
            && (old.file@.contains_key(h2) ==> new.file@[h2] == old.file@[h2]),
        forall|b: AccountId| b != a ==> #[trigger] new.package_of(b) == old.package_of(b),
        forall|b: AccountId| old.purchased_package@.contains_key(b) ==> #[trigger] new.purchased_package@.contains_key(b),
        forall|b: AccountId| b != a ==> #[trigger] new.held_by(b) == old.held_by(b),
        r is Ok ==> new.held_by(a) == without_hash(old.held_by(a), h),
        r is Err ==> new.held_by(a) == old.held_by(a),
        new.file_keys_map@.dom().subset_of(old.file_keys_map@.dom()),
        new.file_index_count == old.file_index_count,
        old.keeps(&new, touching(true, true, false, false, true, false, true, true)),
        forall|b: AccountId| old.purchased_package@.contains_key(b) ==> same_terms(
            old.purchased_package@[b],
            #[trigger] new.purchased_package@[b],
        ),
{
    let f = old.file@[h];
    if f.user.len() > 1 {
        let i = lemma_first_at(f.user, a);
        assert(first_at(f.user, a, i));
        let nf = FileInfoView { user: f.user.remove(i), file_name: f.file_name.remove(i), ..f };
        assert(new.file@ == old.file@.insert(h, nf));
        assert forall|b: AccountId| f.user.contains(b) && b != a implies nf.user.contains(b) by {
            let j = choose|j: int| 0 <= j < f.user.len() && f.user[j] == b;
            if j < i {
                assert(nf.user[j] == b);
            } else {
                assert(j != i);
                assert(nf.user[j - 1] == b);
            }
        }
        if users_have_packages(old) {
            assert forall|h2: Seq<u8>| #[trigger] new.file@.contains_key(h2) implies all_have_packages(new, new.file@[h2].user) by {
                assert(old.file@.contains_key(h2));
                assert(all_have_packages(old, old.file@[h2].user));
                if h2 == h {
                    assert forall|k: int| 0 <= k < nf.user.len() implies #[trigger] new.purchased_package@.contains_key(nf.user[k]) by {
                        if k < i {
                            assert(nf.user[k] == f.user[k]);
                        } else {
                            assert(nf.user[k] == f.user[k + 1]);
                        }
                    }
                } else {
                    assert forall|k: int| 0 <= k < new.file@[h2].user.len() implies #[trigger] new.purchased_package@.contains_key(new.file@[h2].user[k]) by {
                        assert(old.purchased_package@.contains_key(old.file@[h2].user[k]));
                    }
                }
            }
        }
        assert forall|b: AccountId| b != a && holds_sound(old, b) implies #[trigger] holds_sound(new, b) by {
            assert(new.held_by(b) == old.held_by(b));
            assert forall|j: int| 0 <= j < new.held_by(b).len() implies {
                &&& new.file@.contains_key(#[trigger] new.held_by(b)[j].file_hash)
                &&& new.file@[new.held_by(b)[j].file_hash].user.contains(b)
            } by {
                let h3 = old.held_by(b)[j].file_hash;
                assert(old.file@.contains_key(h3));
                if h3 == h {
                    assert(f.user.contains(b));
                }
            }
        }
        assert forall|b: AccountId| old.purchased_package@.contains_key(b) implies same_terms(
            old.purchased_package@[b],
            #[trigger] new.purchased_package@[b],
        ) by {
            if b == a {
                match space_after(old.package_of(a), 2, f.file_size as u128) {
                    Err(e) => {},
                    Ok(p) => {
                        assert(new.purchased_package@[a] == p);
                    },
                }
            }
        }
    } else {
        assert(f.user.len() == 1);
        let j = choose|j: int| 0 <= j < f.user.len() && f.user[j] == a;
        assert(f.user[0] == a);
        let rel = release_users(old.purchased_package@, f.user, f.file_size as u128);
        lemma_release_keeps(old.purchased_package@, f.user, f.file_size as u128);
        lemma_release_terms(old.purchased_package@, f.user, f.file_size as u128);
        assert forall|b: AccountId| b != a implies !f.user.contains(b) by {
            if f.user.contains(b) {
                let k = choose|k: int| 0 <= k < f.user.len() && f.user[k] == b;
                assert(k == 0);
            }
        }
        assert forall|b: AccountId| b != a implies #[trigger] new.package_of(b) == old.package_of(b) by {
            assert(!f.user.contains(b));
        }
        if users_have_packages(old) {
            assert forall|h2: Seq<u8>| #[trigger] new.file@.contains_key(h2) implies all_have_packages(new, new.file@[h2].user) by {
                assert(old.file@.contains_key(h2));
                assert(all_have_packages(old, old.file@[h2].user));
                assert forall|k: int| 0 <= k < new.file@[h2].user.len() implies #[trigger] new.purchased_package@.contains_key(new.file@[h2].user[k]) by {
                    assert(old.purchased_package@.contains_key(old.file@[h2].user[k]));
                }
            }
        }
        assert forall|b: AccountId| b != a && holds_sound(old, b) implies #[trigger] holds_sound(new, b) by {
            assert(new.held_by(b) == old.held_by(b));
            assert forall|j: int| 0 <= j < new.held_by(b).len() implies {
                &&& new.file@.contains_key(#[trigger] new.held_by(b)[j].file_hash)
                &&& new.file@[new.held_by(b)[j].file_hash].user.contains(b)
            } by {
                let h3 = old.held_by(b)[j].file_hash;
                assert(old.file@.contains_key(h3));
                if h3 == h {
                    assert(f.user.contains(b));
                }
            }
        }
    }
}

/// Held files none of which has the hash `h` are kept whole.
pub proof fn lemma_without_absent(t: Seq<crate::types::UserFileSliceInfoView>, h: Seq<u8>)
    requires
        forall|i: int| 0 <= i < t.len() ==> #[trigger] t[i].file_hash != h,
    ensures
        without_hash(t, h) == t,
    decreases t.len(),
{
    if t.len() > 0 {
        let rest = t.drop_first();
        lemma_without_absent(rest, h);
        assert(seq![t[0]] + rest =~= t);
        rest.lemma_filter_prepend(t[0], |x: crate::types::UserFileSliceInfoView| x.file_hash != h);
        assert(seq![t[0]] + rest =~= t);
    } else {
        reveal(Seq::filter);
        assert(without_hash(t, h) =~= t);
    }
}

/// Dropping the hash of the first of held files of distinct hashes drops
/// just that one.
#[verifier::spinoff_prover]
#[verifier::rlimit(40)]
pub proof fn lemma_without_first(t: Seq<crate::types::UserFileSliceInfoView>)
    requires
        t.len() > 0,
        forall|j: int, k: int| 0 <= j < k < t.len() ==> #[trigger] t[j].file_hash != #[trigger] t[k].file_hash,
    ensures
        without_hash(t, t[0].file_hash) == t.drop_first(),
{
    let h = t[0].file_hash;
    let rest = t.drop_first();
    assert forall|i: int| 0 <= i < rest.len() implies #[trigger] rest[i].file_hash != h by {
        assert(rest[i] == t[i + 1]);
        assert(t[0].file_hash != t[i + 1].file_hash);
    }
    lemma_without_absent(rest, h);
    rest.lemma_filter_prepend(t[0], |x: crate::types::UserFileSliceInfoView| x.file_hash != h);
    assert(seq![t[0]] + rest =~= t);
    assert((Seq::<crate::types::UserFileSliceInfoView>::empty() + rest) =~= rest);
}

/// The scheduler of the current block: the controller of its author, or the
/// first scheduler's controller where the block names no author.
pub open spec fn current_scheduler<E: Config>(env: E) -> Result<AccountId, DispatchError> {
    match env.spec_block_author() {
        Some(a) => Ok(env.spec_controller_acc(a)),
        None => env.spec_first_controller(),
    }
}

/// Finds the scheduler of the current block.
pub fn get_current_scheduler<E: Config>(env: &E) -> (r: Result<AccountId, DispatchError>)
    ensures
        r == current_scheduler(*env),
{
    match env.find_author() {
        Some(e) => Ok(env.get_controller_acc(e)),
        None => env.get_first_controller(),
    }
}

/// The slices other than those of the shard `shard`, in their order.
pub open spec fn without_shard(l: Seq<SliceInfoView>, shard: Seq<u8>) -> Seq<SliceInfoView> {
    l.filter(|x: SliceInfoView| x.shard_id != shard)
}

/// Keeps the slices whose shard is not `shard`.
pub fn retain_other_slices(v: Vec<SliceInfo>, shard: &Vec<u8>) -> (r: Vec<SliceInfo>)
    ensures
        slice_list(r@) == without_shard(slice_list(v@), shard@),
{
    let ghost all = slice_list(v@);
    let n = v.len();
    let mut rest = v;
    let mut kept: Vec<SliceInfo> = Vec::new();
    let mut j: usize = 0;
    while j < n
        invariant
            n == all.len(),
            j <= n,
            rest.len() == n - j,
            slice_list(rest@) == all.subrange(j as int, n as int),
            slice_list(kept@) == without_shard(all.subrange(0, j as int), shard@),
        decreases n - j,
    {
        let ghost before = rest@;
        proof {
            assert(slice_list(before)[0] == all[j as int]);
        }
        let x = rest.remove(0);
        proof {
            assert forall|k: int| 0 <= k < rest.len() implies #[trigger] slice_list(rest@)[k]
                == all.subrange(j + 1, n as int)[k] by {
                assert(rest@[k] == before[k + 1]);
                assert(slice_list(before)[k + 1] == all.subrange(j as int, n as int)[k + 1]);
            }
            assert(slice_list(rest@) =~= all.subrange(j + 1, n as int));
            assert(all.subrange(0, j + 1).drop_last() =~= all.subrange(0, j as int));
            reveal(Seq::filter);
        }
        if !crate::bytes::bytes_eq(&x.shard_id, shard) {
            kept.push(x);
        }
        j = j + 1;
        proof {
            assert(slice_list(kept@) =~= without_shard(all.subrange(0, j as int), shard@));
        }
    }
    assert(all.subrange(0, n as int) =~= all);
    kept
}

} // verus!
