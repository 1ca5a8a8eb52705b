//! Filler data: the data that miners store to prove their idle space, and
//! its replacement by the slices of user files.
use vstd::prelude::*;
use crate::bytes::{bytes_eq, bytes_list, copy_bytes};
use crate::config::{Config, Effect};
use crate::lists::{list_of, others_same, push_items};
use crate::pallet::{M_BYTE, Pallet, touching, nothing};
use crate::table::Table;
use crate::types::{
    AccountId, DispatchError, DispatchResult, Error, Event, EventView, FillerInfo, FillerInfoView,
    FillerKey, Origin, ensure_signed,
};

verus! {

/// An entry of the filler table, by its views: (miner, filler id) and the
/// filler.
pub type FillerEntry = ((AccountId, Seq<u8>), FillerInfoView);

/// Walks `s` from the front and takes out the first `k` entries of `miner`:
/// what is kept and what is taken, each in walking order.
pub open spec fn take_miner(s: Seq<FillerEntry>, miner: AccountId, k: nat) -> (
    Seq<FillerEntry>,
    Seq<FillerEntry>,
)
    decreases s.len(),
{
    if s.len() == 0 {
        (Seq::empty(), Seq::empty())
    } else if s[0].0.0 == miner && k > 0 {
        let r = take_miner(s.drop_first(), miner, (k - 1) as nat);
        (r.0, seq![s[0]] + r.1)
    } else {
        let r = take_miner(s.drop_first(), miner, k);
        (seq![s[0]] + r.0, r.1)
    }
}

/// The filler indexes of the entries `t`.
pub open spec fn entry_indexes(t: Seq<FillerEntry>) -> Set<u32> {
    Set::new(|x: u32| exists|j: int| 0 <= j < t.len() && #[trigger] t[j].1.index == x)
}

/// The filler ids of the entries `t`, in order.
pub open spec fn entry_ids(t: Seq<FillerEntry>) -> Seq<Seq<u8>> {
    t.map_values(|e: FillerEntry| e.0.1)
}

pub proof fn lemma_take_none(s: Seq<FillerEntry>, miner: AccountId)
    ensures
        take_miner(s, miner, 0) == (s, Seq::<FillerEntry>::empty()),
    decreases s.len(),
{
    if s.len() > 0 {
        lemma_take_none(s.drop_first(), miner);
        assert(seq![s[0]] + s.drop_first() =~= s);
    }
}

/// With a budget at least as long as `s`, every entry of `miner` is taken.
pub proof fn lemma_take_all(s: Seq<FillerEntry>, miner: AccountId, k: nat)
    requires
        k >= s.len(),
    ensures
        take_miner(s, miner, k).1.len() <= s.len(),
        forall|j: int| 0 <= j < take_miner(s, miner, k).0.len() ==> #[trigger] take_miner(s, miner, k).0[j].0.0 != miner,
    decreases s.len(),
{
    if s.len() > 0 {
        let t = s.drop_first();
        if s[0].0.0 == miner {
            lemma_take_all(t, miner, (k - 1) as nat);
        } else {
            lemma_take_all(t, miner, k);
            let r = take_miner(t, miner, k);
            assert forall|j: int| 0 <= j < (seq![s[0]] + r.0).len() implies #[trigger] (seq![s[0]]
                + r.0)[j].0.0 != miner by {
                if j > 0 {
                    assert((seq![s[0]] + r.0)[j] == r.0[j - 1]);
                }
            }
        }
    }
}

/// The filler table holds `kept` and the index lost the entries `taken`.
pub open spec fn fillers_taken(old: Pallet, new: Pallet, kept: Seq<FillerEntry>, taken: Seq<FillerEntry>) -> bool {
    &&& new.filler_map.seq() == kept
    &&& new.filler_keys_map@ == old.filler_keys_map@.remove_keys(entry_indexes(taken))
    &&& new.filler_index_count == old.filler_index_count
}

/// The filler that `upload_filler` stores as the `j`th of `list`.
pub open spec fn indexed(f: FillerInfoView, index: u32) -> FillerInfoView {
    FillerInfoView { index, ..f }
}

/// The position in `list` where `upload_filler` stops: the first filler whose
/// index would pass `u32::MAX`, or whose id the miner already has.
pub open spec fn stops_at(
    map: Map<(AccountId, Seq<u8>), FillerInfoView>,
    miner: AccountId,
    count: u32,
    list: Seq<FillerInfoView>,
    j: int,
) -> bool {
    ||| count + j + 1 > u32::MAX
    ||| map.contains_key((miner, list[j].filler_id))
    ||| exists|k: int| 0 <= k < j && #[trigger] list[k].filler_id == list[j].filler_id
}

/// `upload_filler` stops at `j` and not before.
pub open spec fn first_stop(
    map: Map<(AccountId, Seq<u8>), FillerInfoView>,
    miner: AccountId,
    count: u32,
    list: Seq<FillerInfoView>,
    j: int,
) -> bool {
    &&& 0 <= j < list.len()
    &&& stops_at(map, miner, count, list, j)
    &&& forall|k: int| 0 <= k < j ==> !stops_at(map, miner, count, list, k)
}

/// The filler table after the first `j` fillers of `list` are stored.
pub open spec fn with_fillers(
    map: Map<(AccountId, Seq<u8>), FillerInfoView>,
    miner: AccountId,
    count: u32,
    list: Seq<FillerInfoView>,
    j: int,
) -> Map<(AccountId, Seq<u8>), FillerInfoView>
    decreases j,
{
    if j <= 0 {
        map
    } else {
        with_fillers(map, miner, count, list, j - 1).insert(
            (miner, list[j - 1].filler_id),
            indexed(list[j - 1], (count + j) as u32),
        )
    }
}

/// The filler index after the first `j` fillers of `list` are stored.
pub open spec fn with_filler_keys(
    keys: Map<u32, (AccountId, Seq<u8>)>,
    miner: AccountId,
    count: u32,
    list: Seq<FillerInfoView>,
    j: int,
) -> Map<u32, (AccountId, Seq<u8>)>
    decreases j,
{
    if j <= 0 {
        keys
    } else {
        with_filler_keys(keys, miner, count, list, j - 1).insert(
            (count + j) as u32,
            (miner, list[j - 1].filler_id),
        )
    }
}

/// The views of a list of fillers.
pub open spec fn filler_views(l: Seq<FillerInfo>) -> Seq<FillerInfoView> {
    l.map_values(|f: FillerInfo| f@)
}

impl Pallet {
    /// `upload_filler` stops at no more than one position.
    proof fn lemma_first_stop(
        map: Map<(AccountId, Seq<u8>), FillerInfoView>,
        miner: AccountId,
        count: u32,
        list: Seq<FillerInfoView>,
        j: int,
    )
        requires
            first_stop(map, miner, count, list, j),
        ensures
            forall|i: int| #[trigger] first_stop(map, miner, count, list, i) ==> i == j,
    {
        assert forall|i: int| #[trigger] first_stop(map, miner, count, list, i) implies i == j by {
            if i < j {
                assert(!stops_at(map, miner, count, list, i));
            }
            if i > j {
                assert(!stops_at(map, miner, count, list, j));
            }
        }
    }

    /// Takes the first `budget` fillers of `miner`, in walking order, out of
    /// the filler table and its index, and hands back their ids; stops with
    /// `Err` on meeting a further one when `cap` have been taken.
    fn drop_miner_fillers(&mut self, miner: AccountId, budget: u128, cap: u128) -> (r: Result<
        Vec<Vec<u8>>,
        (),
    >)
        requires
            old(self).wf(),
        ensures
            final(self).wf(),
            old(self).keeps(final(self), touching(false, false, false, true, false, false, false, false)),
            ({
                let s = old(self).filler_map.seq();
                let full = take_miner(s, miner, budget as nat);
                if full.1.len() > cap {
                    let part = take_miner(s, miner, cap as nat);
                    &&& r is Err
                    &&& fillers_taken(*old(self), *final(self), part.0, part.1)
                } else {
                    &&& r is Ok
                    &&& bytes_list(r->Ok_0@) == entry_ids(full.1)
                    &&& fillers_taken(*old(self), *final(self), full.0, full.1)
                }
            }),
    {
        let ghost s = self.filler_map.seq();
        let ghost n0 = s.len();
        let ghost mut pos: int = 0;
        let ghost mut kept_pre: Seq<FillerEntry> = Seq::empty();
        let ghost mut taken_pre: Seq<FillerEntry> = Seq::empty();
        let mut ids: Vec<Vec<u8>> = Vec::new();
        let mut counter: u128 = 0;
        let mut i: usize = 0;
        let mut stop = false;
        proof {
            assert(s.subrange(0, n0 as int) =~= s);
            assert(kept_pre + s.subrange(0, n0 as int) =~= s);
            assert(old(self).filler_keys_map@.remove_keys(entry_indexes(taken_pre))
                =~= old(self).filler_keys_map@);
        }
        while i < self.filler_map.entries.len() && !stop
            invariant
                self.wf(),
                old(self).keeps(self, touching(false, false, false, true, false, false, false, false)),
                0 <= pos <= n0,
                n0 == s.len(),
                s == old(self).filler_map.seq(),
                self.filler_map.seq() == kept_pre + s.subrange(pos, n0 as int),
                kept_pre.len() == i,
                taken_pre.len() == counter,
                counter <= budget,
                counter <= cap,
                take_miner(s, miner, budget as nat) == (
                    kept_pre + take_miner(s.subrange(pos, n0 as int), miner, (budget - counter) as nat).0,
                    taken_pre + take_miner(s.subrange(pos, n0 as int), miner, (budget - counter) as nat).1,
                ),
                take_miner(s, miner, cap as nat) == (
                    kept_pre + take_miner(s.subrange(pos, n0 as int), miner, (cap - counter) as nat).0,
                    taken_pre + take_miner(s.subrange(pos, n0 as int), miner, (cap - counter) as nat).1,
                ),
                bytes_list(ids@) == entry_ids(taken_pre),
                self.filler_keys_map@ == old(self).filler_keys_map@.remove_keys(entry_indexes(taken_pre)),
                self.filler_index_count == old(self).filler_index_count,
                stop ==> counter == budget && pos <= n0,
                self.filler_map.seq().len() == self.filler_map.entries.len(),
            decreases self.filler_map.entries.len() - i + (if stop { 0int } else { 1int }),
        {
            let ghost sub = s.subrange(pos, n0 as int);
            proof {
                assert(sub.drop_first() =~= s.subrange(pos + 1, n0 as int));
                assert(sub[0] == s[pos]);
                assert(self.filler_map.seq()[i as int] == s[pos]);
            }
            if self.filler_map.entries[i].0.0 == miner {
                if counter == budget {
                    stop = true;
                } else if counter == cap {
                    proof {
                        lemma_take_none(sub, miner);
                        let t = take_miner(sub, miner, (budget - counter) as nat);
                        assert(t.1.len() >= 1);
                    }
                    return Err(());
                } else {
                let (key, val) = self.filler_map.remove_at(i);
                let _ = self.filler_keys_map.remove(&val.index);
                let ghost e = s[pos];
                ids.push(key.1);
                counter = counter + 1;
                proof {
                    assert(self.filler_map.seq() =~= kept_pre + s.subrange(pos + 1, n0 as int));
                    let nb = take_miner(s.subrange(pos + 1, n0 as int), miner, (budget - counter) as nat);
                    assert(taken_pre + (seq![e] + nb.1) =~= taken_pre.push(e) + nb.1);
                    let nc = take_miner(s.subrange(pos + 1, n0 as int), miner, (cap - counter) as nat);
                    assert(taken_pre + (seq![e] + nc.1) =~= taken_pre.push(e) + nc.1);
                    assert(entry_ids(taken_pre.push(e)) =~= entry_ids(taken_pre).push(e.0.1));
                    assert(bytes_list(ids@) =~= entry_ids(taken_pre).push(e.0.1));
                    assert(entry_indexes(taken_pre.push(e)) =~= entry_indexes(taken_pre).insert(e.1.index)) by {
                        let tp = taken_pre.push(e);
                        assert forall|x: u32| entry_indexes(tp).contains(x) implies entry_indexes(
                            taken_pre,
                        ).insert(e.1.index).contains(x) by {
                            let j = choose|j: int| 0 <= j < tp.len() && #[trigger] tp[j].1.index == x;
                            if j < taken_pre.len() {
                                assert(tp[j] == taken_pre[j]);
                            }
                        }
                        assert forall|x: u32| entry_indexes(taken_pre).insert(e.1.index).contains(x)
                            implies entry_indexes(tp).contains(x) by {
                            if x == e.1.index {
                                assert(tp[taken_pre.len() as int].1.index == x);
                            } else {
                                let j = choose|j: int| 0 <= j < taken_pre.len() && #[trigger] taken_pre[j].1.index == x;
                                assert(tp[j] == taken_pre[j]);
                            }
                        }
                    }
                    assert(self.filler_keys_map@ =~= old(self).filler_keys_map@.remove_keys(
                        entry_indexes(taken_pre.push(e)),
                    ));
                    taken_pre = taken_pre.push(e);
                    pos = pos + 1;
                }
                }
            } else {
                let ghost e = s[pos];
                i = i + 1;
                proof {
                    assert(kept_pre.push(e) + s.subrange(pos + 1, n0 as int) =~= kept_pre + s.subrange(
                        pos,
                        n0 as int,
                    ));
                    let nb = take_miner(s.subrange(pos + 1, n0 as int), miner, (budget - counter) as nat);
                    assert(kept_pre + (seq![e] + nb.0) =~= kept_pre.push(e) + nb.0);
                    let nc = take_miner(s.subrange(pos + 1, n0 as int), miner, (cap - counter) as nat);
                    assert(kept_pre + (seq![e] + nc.0) =~= kept_pre.push(e) + nc.0);
                    kept_pre = kept_pre.push(e);
                    pos = pos + 1;
                }
            }
        }
        proof {
            if !stop {
                assert(self.filler_map.seq().len() == kept_pre.len() + (n0 - pos));
                assert(pos == n0);
                assert(s.subrange(pos, n0 as int) =~= Seq::<FillerEntry>::empty());
                assert(kept_pre + s.subrange(pos, n0 as int) =~= kept_pre);
            } else {
                let sub = s.subrange(pos, n0 as int);
                lemma_take_none(sub, miner);
                assert(counter == budget);
                assert(take_miner(sub, miner, 0) == (sub, Seq::<FillerEntry>::empty()));
                assert(taken_pre + Seq::<FillerEntry>::empty() =~= taken_pre);
            }
        }
        Ok(ids)
    }

    /// What `delete_filler` does.
    pub open spec fn delete_filler_post(old: Pallet, new: Pallet, miner_acc: AccountId, filler_id: Seq<u8>, r: DispatchResult) -> bool {
        if filler_id.len() > old.string_limit {
            r == Err::<(), DispatchError>(DispatchError::Module(Error::BoundedVecError)) && new == old
        } else if !old.filler_map@.contains_key((miner_acc, filler_id)) {
            r == Err::<(), DispatchError>(DispatchError::Module(Error::FileNonExistent)) && new == old
        } else {
            &&& r is Ok
            &&& new.filler_map@ == old.filler_map@.remove((miner_acc, filler_id))
            &&& new.filler_keys_map@ == old.filler_keys_map@.remove(
                old.filler_map@[(miner_acc, filler_id)].index,
            )
            &&& new.filler_index_count == old.filler_index_count
            &&& old.keeps(&new, touching(false, false, false, true, false, false, false, false))
        }
    }

    /// Deletes the filler `filler_id` of `miner`.
    pub fn delete_filler(&mut self, miner_acc: AccountId, filler_id: Vec<u8>) -> (r: DispatchResult)
        requires
            old(self).wf(),
        ensures
            final(self).wf(),
            Self::delete_filler_post(*old(self), *final(self), miner_acc, filler_id@, r),
    {
        if filler_id.len() as u64 > self.string_limit as u64 {
            return Err(DispatchError::Module(Error::BoundedVecError));
        }
        let key = (miner_acc, filler_id);
        let index = match self.filler_map.get(&key) {
            Some(v) => v.index,
            None => return Err(DispatchError::Module(Error::FileNonExistent)),
        };
        let _ = self.filler_keys_map.remove(&index);
        let _ = self.filler_map.remove(&key);
        Ok(())
    }

    /// What `delete_miner_all_filler` does: every filler of `miner_acc`
    /// leaves the filler table, in its order, and its index.
    pub open spec fn delete_miner_all_filler_post(old: Pallet, new: Pallet, miner_acc: AccountId, r: DispatchResult) -> bool {
        let t = take_miner(old.filler_map.seq(), miner_acc, old.filler_map.seq().len());
        &&& r is Ok
        &&& fillers_taken(old, new, t.0, t.1)
        &&& forall|k: (AccountId, Seq<u8>)| #[trigger] new.filler_map@.contains_key(k) ==> k.0 != miner_acc
        &&& old.keeps(&new, touching(false, false, false, true, false, false, false, false))
    }

    /// Deletes every filler of `miner_acc`.
    pub fn delete_miner_all_filler(&mut self, miner_acc: AccountId) -> (r: DispatchResult)
        requires
            old(self).wf(),
        ensures
            final(self).wf(),
            Self::delete_miner_all_filler_post(*old(self), *final(self), miner_acc, r),
    {
        let n = self.filler_map.entries.len();
        proof {
            lemma_take_all(self.filler_map.seq(), miner_acc, n as nat);
        }
        let _ = self.drop_miner_fillers(miner_acc, n as u128, n as u128);
        proof {
            let t = take_miner(old(self).filler_map.seq(), miner_acc, n as nat);
            crate::table::lemma_seq_to_map_all(t.0);
            assert forall|k: (AccountId, Seq<u8>)| #[trigger] self.filler_map@.contains_key(k) implies k.0
                != miner_acc by {
                let j = choose|j: int| 0 <= j < t.0.len() && #[trigger] t.0[j].0 == k;
                assert(t.0[j].0.0 != miner_acc);
            }
        }
        Ok(())
    }

    /// What `replace_file` does, where the runtime is `env0` before and
    /// `env1` after: the slice's space is added to the miner, then the power
    /// of the fillers it lost is taken away.
    pub open spec fn replace_file_post<E: Config>(
        old: Pallet,
        new: Pallet,
        env0: E,
        env1: E,
        miner_acc: AccountId,
        file_size: u64,
        r: DispatchResult,
    ) -> bool {
        let num = file_size as int / 8 / M_BYTE as int + 1;
        let placed = env0.spec_effects()@.push(Effect::AddSpace(miner_acc, file_size as u128));
        let done = placed.push(Effect::SubPower(miner_acc, (num * M_BYTE * 8) as u128));
        match env0.spec_power_and_space(miner_acc) {
            Err(e) => r == Err::<(), DispatchError>(e) && new == old && env1 == env0,
            Ok((power, space)) => if power <= space {
                r == Err::<(), DispatchError>(DispatchError::Module(Error::Overflow)) && new
                    == old && env1 == env0
            } else if power - space < file_size {
                r == Err::<(), DispatchError>(DispatchError::Module(Error::MinerPowerInsufficient))
                    && new == old && env1 == env0
            } else {
                let s = old.filler_map.seq();
                let full = take_miner(s, miner_acc, (file_size as int / 8 / M_BYTE as int + 1) as nat);
                let limit = old.string_limit;
                if full.1.len() > limit {
                    let part = take_miner(s, miner_acc, limit as nat);
                    &&& r == Err::<(), DispatchError>(DispatchError::Module(Error::StorageLimitReached))
                    &&& fillers_taken(old, new, part.0, part.1)
                    &&& old.keeps(&new, touching(false, false, false, true, false, false, false, false))
                    &&& env1 == env0
                } else {
                    &&& fillers_taken(old, new, full.0, full.1)
                    &&& if list_of(old.invalid_file, miner_acc).len() + full.1.len() > limit {
                        &&& r == Err::<(), DispatchError>(DispatchError::Module(Error::StorageLimitReached))
                        &&& old.keeps(&new, touching(false, false, false, true, false, false, false, false))
                        &&& env1 == env0
                    } else {
                        &&& list_of(new.invalid_file, miner_acc) == list_of(old.invalid_file, miner_acc)
                            + entry_ids(full.1)
                        &&& others_same(old.invalid_file, new.invalid_file, miner_acc)
                        &&& old.keeps(&new, touching(false, false, false, true, true, false, false, false))
                        &&& env1.spec_effects()@ == placed || env1.spec_effects()@ == done
                        &&& r is Ok ==> env1.spec_effects()@ == done
                    }
                }
            },
        }
    }

    /// Makes room for a slice of `file_size` bytes at `miner_acc`: the miner
    /// must have that much power beyond its used space; enough of its fillers
    /// (one per eight mebibytes, plus one) are deleted and put on its list of
    /// data to delete, its space grows by the slice and its power shrinks by
    /// the fillers.
    pub fn replace_file<E: Config>(&mut self, env: &mut E, miner_acc: AccountId, file_size: u64) -> (r:
        DispatchResult)
        requires
            old(self).wf(),
        ensures
            final(self).wf(),
            Self::replace_file_post(*old(self), *final(self), *old(env), *final(env), miner_acc, file_size, r),
    {
        let (power, space) = env.get_power_and_space(miner_acc)?;
        if power > space {
            if power - space < file_size as u128 {
                return Err(DispatchError::Module(Error::MinerPowerInsufficient));
            }
        } else {
            return Err(DispatchError::Module(Error::Overflow));
        }
        let replace_num: u128 = file_size as u128 / 8 / M_BYTE + 1;
        let ids = match self.drop_miner_fillers(miner_acc, replace_num, self.string_limit as u128) {
            Ok(ids) => ids,
            Err(()) => return Err(DispatchError::Module(Error::StorageLimitReached)),
        };
        let ghost mid = *self;
        let limit = self.string_limit;
        match push_items(&mut self.invalid_file, miner_acc, ids, limit) {
            Ok(()) => {},
            Err(e) => return Err(DispatchError::Module(e)),
        }
        let placed = env.add_space(miner_acc, file_size as u128);
        placed?;
        env.sub_power(miner_acc, replace_num * M_BYTE * 8)?;
        Ok(())
    }

    /// Records the fillers that the miner `miner` stored, as a scheduler
    /// reports them: at most ten, the miner positive, no id twice; they get
    /// the next indexes, and the miner gains eight mebibytes of power each.
    pub fn upload_filler<E: Config>(
        &mut self,
        env: &mut E,
        origin: Origin,
        miner: AccountId,
        filler_list: &Vec<FillerInfo>,
    ) -> (r: DispatchResult)
        requires
            old(self).wf(),
        ensures
            final(self).wf(),
            ({
                let list = filler_views(filler_list@);
                let c0 = old(self).filler_index_count;
                let m0 = old(self).filler_map@;
                let k0 = old(self).filler_keys_map@;
                match origin {
                    Origin::Signed(sender) => if filler_list.len() > 10 {
                        r == Err::<(), DispatchError>(DispatchError::Module(Error::LengthExceedsLimit))
                            && *final(self) == *old(self) && *final(env) == *old(env)
                    } else if !old(env).spec_contains_scheduler(sender) {
                        r == Err::<(), DispatchError>(DispatchError::Module(Error::ScheduleNonExistent))
                            && *final(self) == *old(self) && *final(env) == *old(env)
                    } else if old(env).spec_miner_state(miner) is Err {
                        r == Err::<(), DispatchError>(old(env).spec_miner_state(miner)->Err_0)
                            && *final(self) == *old(self) && *final(env) == *old(env)
                    } else if old(env).spec_miner_state(miner)->Ok_0@ != seq![112u8, 111u8, 115u8, 105u8, 116u8, 105u8, 118u8, 101u8] {
                        r == Err::<(), DispatchError>(DispatchError::Module(Error::NotQualified))
                            && *final(self) == *old(self) && *final(env) == *old(env)
                    } else {
                        &&& old(self).keeps(final(self), touching(false, false, false, true, false, false, false, true))
                        &&& forall|j: int| #[trigger] first_stop(m0, miner, c0, list, j) ==> {
                            &&& r == Err::<(), DispatchError>(DispatchError::Module(
                                if c0 + j + 1 > u32::MAX { Error::Overflow } else { Error::FileExistent },
                            ))
                            &&& final(self).filler_map@ == with_fillers(m0, miner, c0, list, j)
                            &&& final(self).filler_keys_map@ == with_filler_keys(k0, miner, c0, list, j)
                            &&& final(self).filler_index_count == c0
                            &&& final(self).events == old(self).events
                            &&& *final(env) == *old(env)
                        }
                        &&& (forall|j: int| 0 <= j < list.len() ==> !stops_at(m0, miner, c0, list, j)) ==> {
                            &&& final(self).filler_map@ == with_fillers(m0, miner, c0, list, list.len() as int)
                            &&& final(self).filler_keys_map@ == with_filler_keys(k0, miner, c0, list, list.len() as int)
                            &&& final(self).filler_index_count == c0 + list.len()
                            &&& final(env).spec_effects()@ == old(env).spec_effects()@.push(
                                Effect::AddPower(miner, (8 * M_BYTE * list.len()) as u128),
                            )
                            &&& r is Ok ==> final(self).events_view() == old(self).events_view().push(
                                EventView::FillerUpload { acc: sender, file_size: (8 * M_BYTE * list.len()) as u64 },
                            )
                            &&& r is Err ==> final(self).events == old(self).events
                        }
                    },
                    _ => r == Err::<(), DispatchError>(DispatchError::BadOrigin) && *final(self)
                        == *old(self) && *final(env) == *old(env),
                }
            }),
    {
        let sender = ensure_signed(origin)?;
        if filler_list.len() > 10 {
            return Err(DispatchError::Module(Error::LengthExceedsLimit));
        }
        if !env.contains_scheduler(sender) {
            return Err(DispatchError::Module(Error::ScheduleNonExistent));
        }
        let miner_state = env.get_miner_state(miner)?;
        let positive: Vec<u8> = vec![112u8, 111u8, 115u8, 105u8, 116u8, 105u8, 118u8, 101u8];
        if !bytes_eq(&miner_state, &positive) {
            return Err(DispatchError::Module(Error::NotQualified));
        }
        assert(positive@ =~= seq![112u8, 111u8, 115u8, 105u8, 116u8, 105u8, 118u8, 101u8]);
        let ghost list = filler_views(filler_list@);
        let ghost c0 = self.filler_index_count;
        let ghost m0 = self.filler_map@;
        let ghost k0 = self.filler_keys_map@;
        let n = filler_list.len();
        let mut count: u32 = self.filler_index_count;
        let mut j: usize = 0;
        while j < n
            invariant
                self.wf(),
                old(self).keeps(self, touching(false, false, false, true, false, false, false, false)),
                n == list.len(),
                n == filler_list.len(),
                list == filler_views(filler_list@),
                *env == *old(env),
                origin == Origin::Signed(sender),
                env.spec_contains_scheduler(sender),
                env.spec_miner_state(miner) is Ok,
                env.spec_miner_state(miner)->Ok_0@ == seq![112u8, 111u8, 115u8, 105u8, 116u8, 105u8, 118u8, 101u8],
                n <= 10,
                j <= n,
                count == c0 + j,
                self.filler_index_count == c0,
                c0 == old(self).filler_index_count,
                m0 == old(self).filler_map@,
                k0 == old(self).filler_keys_map@,
                forall|key: (AccountId, Seq<u8>)| #[trigger] m0.contains_key(key) ==> self.filler_map@.contains_key(key),
                self.filler_map@ == with_fillers(m0, miner, c0, list, j as int),
                self.filler_keys_map@ == with_filler_keys(k0, miner, c0, list, j as int),
                forall|k: int| 0 <= k < j ==> !stops_at(m0, miner, c0, list, k),
                forall|k: int| 0 <= k < j ==> #[trigger] with_fillers(m0, miner, c0, list, j as int).contains_key((miner, list[k].filler_id)),
                forall|id: Seq<u8>| #[trigger] with_fillers(m0, miner, c0, list, j as int).contains_key((miner, id))
                    ==> m0.contains_key((miner, id)) || exists|k: int| 0 <= k < j && list[k].filler_id == id,
            decreases n - j,
        {
            let f = &filler_list[j];
            proof {
                assert(f@ == list[j as int]);
            }
            count = match count.checked_add(1) {
                Some(c) => c,
                None => {
                    proof {
                        assert(stops_at(m0, miner, c0, list, j as int));
                        Self::lemma_first_stop(m0, miner, c0, list, j as int);
                    }
                    return Err(DispatchError::Module(Error::Overflow));
                },
            };
            let key = (miner, copy_bytes(&f.filler_id));
            if self.filler_map.contains_key(&key) {
                proof {
                    assert(stops_at(m0, miner, c0, list, j as int));
                    Self::lemma_first_stop(m0, miner, c0, list, j as int);
                }
                return Err(DispatchError::Module(Error::FileExistent));
            }
            proof {
                assert(!m0.contains_key((miner, list[j as int].filler_id)));
                assert forall|k: int| 0 <= k < j implies #[trigger] list[k].filler_id != list[j as int].filler_id by {
                    assert(with_fillers(m0, miner, c0, list, j as int).contains_key((miner, list[k].filler_id)));
                }
                assert(!stops_at(m0, miner, c0, list, j as int));
            }
            let fkey = FillerKey { miner, filler_id: copy_bytes(&f.filler_id) };
            let value = FillerInfo {
                index: count,
                filler_size: f.filler_size,
                block_num: f.block_num,
                segment_size: f.segment_size,
                miner_address: f.miner_address,
                filler_id: copy_bytes(&f.filler_id),
                filler_hash: copy_bytes(&f.filler_hash),
            };
            self.filler_map.insert(key, value);
            self.filler_keys_map.insert(count, fkey);
            j = j + 1;
            proof {
                assert(self.filler_map@ =~= with_fillers(m0, miner, c0, list, j as int));
                assert(self.filler_keys_map@ =~= with_filler_keys(k0, miner, c0, list, j as int));
                assert forall|id: Seq<u8>| #[trigger] with_fillers(m0, miner, c0, list, j as int).contains_key((miner, id))
                    implies m0.contains_key((miner, id)) || exists|k: int| 0 <= k < j && list[k].filler_id == id by {
                    if id == list[j - 1].filler_id {
                        assert(list[j - 1].filler_id == id);
                    } else {
                        assert(with_fillers(m0, miner, c0, list, j - 1).contains_key((miner, id)));
                    }
                }
            }
        }
        self.filler_index_count = count;
        let power = 8 * M_BYTE * (n as u128);
        env.add_power(miner, power)?;
        self.deposit_event(Event::FillerUpload { acc: sender, file_size: power as u64 });
        Ok(())
    }
}

} // verus!
