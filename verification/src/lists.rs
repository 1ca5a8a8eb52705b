//! Bounded lists kept under an account: shards to recover, data to delete,
//! and the files that a user holds.  An account without an entry has the
//! empty list.
use vstd::prelude::*;
use crate::bytes::{bytes_eq, bytes_list, copy_bytes, retain_other_bytes, without_bytes};
use crate::table::Table;
use crate::types::{
    AccountId, ByteList, Error, HeldFiles, UserFileSliceInfo, UserFileSliceInfoView, held_list,
};

verus! {

/// The list kept under `acc`.
pub open spec fn list_of(t: Table<AccountId, ByteList>, acc: AccountId) -> Seq<Seq<u8>> {
    if t@.contains_key(acc) {
        t@[acc]
    } else {
        Seq::empty()
    }
}

/// The files that `acc` holds.
pub open spec fn held_of(t: Table<AccountId, HeldFiles>, acc: AccountId) -> Seq<
    UserFileSliceInfoView,
> {
    if t@.contains_key(acc) {
        t@[acc]
    } else {
        Seq::empty()
    }
}

/// The lists under the other accounts stay as they are.
pub open spec fn others_same(
    old: Table<AccountId, ByteList>,
    new: Table<AccountId, ByteList>,
    acc: AccountId,
) -> bool {
    forall|a: AccountId| a != acc ==> #[trigger] list_of(new, a) == list_of(old, a)
}

/// The held files of the other accounts stay as they are.
pub open spec fn others_hold_same(
    old: Table<AccountId, HeldFiles>,
    new: Table<AccountId, HeldFiles>,
    acc: AccountId,
) -> bool {
    forall|a: AccountId| a != acc ==> #[trigger] held_of(new, a) == held_of(old, a)
}

/// Appends `items` to the list of `acc`, unless the list would grow past
/// `limit`.
pub fn push_items(t: &mut Table<AccountId, ByteList>, acc: AccountId, items: Vec<Vec<u8>>, limit: u32) -> (r:
    Result<(), Error>)
    requires
        old(t).wf(),
    ensures
        final(t).wf(),
        list_of(*old(t), acc).len() + items.len() > limit ==> r == Err::<(), Error>(
            Error::StorageLimitReached,
        ) && *final(t) == *old(t),
        list_of(*old(t), acc).len() + items.len() <= limit ==> r is Ok && list_of(*final(t), acc)
            == list_of(*old(t), acc) + bytes_list(items@) && others_same(*old(t), *final(t), acc)
            && final(t)@ == old(t)@.insert(acc, list_of(*old(t), acc) + bytes_list(items@)),
{
    match t.find(&acc) {
        Some(i) => {
            if t.entries[i].1.items.len() as u128 + items.len() as u128 > limit as u128 {
                return Err(Error::StorageLimitReached);
            }
            let (k, mut l) = t.remove_at(i);
            let ghost before = l@;
            let mut items = items;
            let ghost added = bytes_list(items@);
            l.items.append(&mut items);
            assert(l@ =~= before + added);
            t.insert_at(i, k, l);
            Ok(())
        },
        None => {
            if items.len() as u128 > limit as u128 {
                return Err(Error::StorageLimitReached);
            }
            let l = ByteList { items };
            assert(l@ =~= Seq::<Seq<u8>>::empty() + bytes_list(items@));
            t.insert(acc, l);
            Ok(())
        },
    }
}

/// Drops every occurrence of `item` from the list of `acc`.
pub fn retain_items(t: &mut Table<AccountId, ByteList>, acc: AccountId, item: &Vec<u8>)
    requires
        old(t).wf(),
    ensures
        final(t).wf(),
        list_of(*final(t), acc) == without_bytes(list_of(*old(t), acc), item@),
        others_same(*old(t), *final(t), acc),
{
    match t.find(&acc) {
        Some(i) => {
            let (k, l) = t.remove_at(i);
            let kept = retain_other_bytes(&l.items, item);
            t.insert_at(i, k, ByteList { items: kept });
        },
        None => {
            proof {
                reveal(Seq::filter);
                assert(without_bytes(Seq::<Seq<u8>>::empty(), item@) =~= Seq::<Seq<u8>>::empty());
            }
        },
    }
}

/// Appends `info` to the files that `acc` holds, unless there are `limit`
/// already.
pub fn push_held(t: &mut Table<AccountId, HeldFiles>, acc: AccountId, info: UserFileSliceInfo, limit: u32) -> (r:
    Result<(), Error>)
    requires
        old(t).wf(),
    ensures
        final(t).wf(),
        held_of(*old(t), acc).len() >= limit ==> r == Err::<(), Error>(
            Error::StorageLimitReached,
        ) && *final(t) == *old(t),
        held_of(*old(t), acc).len() < limit ==> r is Ok && held_of(*final(t), acc)
            == held_of(*old(t), acc).push(info@) && others_hold_same(*old(t), *final(t), acc),
{
    match t.find(&acc) {
        Some(i) => {
            if t.entries[i].1.items.len() as u128 >= limit as u128 {
                return Err(Error::StorageLimitReached);
            }
            let (k, mut l) = t.remove_at(i);
            let ghost before = l@;
            let ghost iv = info@;
            l.items.push(info);
            assert(l@ =~= before.push(iv));
            t.insert_at(i, k, l);
            Ok(())
        },
        None => {
            if limit == 0 {
                return Err(Error::StorageLimitReached);
            }
            let ghost iv = info@;
            let mut items: Vec<UserFileSliceInfo> = Vec::new();
            items.push(info);
            let l = HeldFiles { items };
            assert(l@ =~= Seq::<UserFileSliceInfoView>::empty().push(iv));
            t.insert(acc, l);
            Ok(())
        },
    }
}

/// The held files other than those of the given hash, in their order.
pub open spec fn without_hash(l: Seq<UserFileSliceInfoView>, h: Seq<u8>) -> Seq<UserFileSliceInfoView> {
    l.filter(|x: UserFileSliceInfoView| x.file_hash != h)
}

/// Drops the files of hash `h` from those that `acc` holds.
pub fn retain_held(t: &mut Table<AccountId, HeldFiles>, acc: AccountId, h: &Vec<u8>)
    requires
        old(t).wf(),
    ensures
        final(t).wf(),
        held_of(*final(t), acc) == without_hash(held_of(*old(t), acc), h@),
        others_hold_same(*old(t), *final(t), acc),
{
    match t.find(&acc) {
        Some(i) => {
            let (k, l) = t.remove_at(i);
            let ghost lv = l@;
            let mut kept: Vec<UserFileSliceInfo> = Vec::new();
            let mut j: usize = 0;
            let n = l.items.len();
            while j < n
                invariant
                    n == l.items.len(),
                    lv == held_list(l.items@),
                    j <= n,
                    held_list(kept@) == without_hash(lv.subrange(0, j as int), h@),
                decreases n - j,
            {
                proof {
                    assert(lv.subrange(0, j + 1).drop_last() =~= lv.subrange(0, j as int));
                    reveal(Seq::filter);
                }
                if !bytes_eq(&l.items[j].file_hash, h) {
                    let x = UserFileSliceInfo {
                        file_hash: copy_bytes(&l.items[j].file_hash),
                        file_size: l.items[j].file_size,
                    };
                    kept.push(x);
                }
                j = j + 1;
                proof {
                    assert(held_list(kept@) =~= without_hash(lv.subrange(0, j as int), h@));
                }
            }
            assert(lv.subrange(0, n as int) =~= lv);
            t.insert_at(i, k, HeldFiles { items: kept });
        },
        None => {
            proof {
                reveal(Seq::filter);
                assert(without_hash(Seq::<UserFileSliceInfoView>::empty(), h@)
                    =~= Seq::<UserFileSliceInfoView>::empty());
            }
        },
    }
}

} // verus!
