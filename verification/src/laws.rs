//! What holds of the file bank across calls.
use vstd::prelude::*;
use crate::bytes::without_bytes;
use crate::config::{Config, Effect};
use crate::equivocation::slash_parts;
use crate::lists::list_of;
use crate::member::without_account;
use crate::package::{buy_plan, space_after};
use crate::pallet::{package_wf, Pallet, G_BYTE, T_BYTE};
use crate::perbill::rational_parts;
use crate::hooks::{lease_step, past_grace};
use crate::pricing::{buy_offer, count_fits, days_left, fee_of, price_from, price_of, renewal_fee, upgrade_offer, upgrade_quote};
use crate::file::{current_scheduler, declared, package_in, release_users, without_shard};
use crate::filler::{indexed, stops_at, with_filler_keys, with_fillers};
use crate::types::{
    DispatchResult, FileInfoView, FileState, SliceInfoView, AccountId, BlockNumber, DispatchError, Error, FillerInfoView, Origin, PackageDetails, PackageState,
};

verus! {

/// A file stored under a package and then deleted gives the package back as
/// it was.
pub proof fn law_space_round_trip(p: PackageDetails, size: u128)
    requires
        package_wf(p),
        space_after(Some(p), 1, size) is Ok,
    ensures
        space_after(Some(space_after(Some(p), 1, size)->Ok_0), 2, size) == Ok::<PackageDetails, Error>(p),
{
}

/// A frozen package takes no new file.
pub proof fn law_frozen_takes_nothing(p: PackageDetails, size: u128)
    requires
        p.state == PackageState::Frozen,
    ensures
        space_after(Some(p), 1, size) == Err::<PackageDetails, Error>(Error::LeaseFreeze),
{
}

/// An account buys one package: once its purchase went through, every
/// further purchase by it is refused with `PurchasedPackage`, and nothing
/// changes.
pub proof fn law_buy_once<E: Config>(
    p0: Pallet,
    p1: Pallet,
    p2: Pallet,
    env0: E,
    env1: E,
    env2: E,
    env3: E,
    s: AccountId,
    type1: u8,
    count1: u128,
    type2: u8,
    count2: u128,
    r2: Result<(), DispatchError>,
)
    requires
        Pallet::buy_package_post(p0, p1, env0, env1, Origin::Signed(s), type1, count1, Ok(())),
        Pallet::buy_package_post(p1, p2, env2, env3, Origin::Signed(s), type2, count2, r2),
    ensures
        r2 == Err::<(), DispatchError>(DispatchError::Module(Error::PurchasedPackage)),
        p2 == p1,
        env3 == env2,
{
    assert(p1.purchased_package@.contains_key(s));
}

/// After the root origin adds an account to the members, it is a member,
/// whether it was one before or not.
pub proof fn law_member_added(p0: Pallet, p1: Pallet, acc: AccountId, r: Result<(), DispatchError>)
    requires
        Pallet::add_member_post(p0, p1, Origin::Root, acc, r),
        r is Ok || r == Err::<(), DispatchError>(DispatchError::Module(Error::AlreadyExist)),
    ensures
        p1.members@.contains(acc),
{
    if r is Ok {
        assert(p1.members@[p0.members@.len() as int] == acc);
    }
}

/// After the root origin removes an account from the members, it is no
/// member, and every other account is a member as before.
pub proof fn law_member_removed(p0: Pallet, p1: Pallet, acc: AccountId, other: AccountId)
    requires
        Pallet::del_member_post(p0, p1, Origin::Root, acc, Ok(())),
        other != acc,
    ensures
        !p1.members@.contains(acc),
        p1.members@.contains(other) == p0.members@.contains(other),
{
    lemma_without_account_contains(p0.members@, acc, acc);
    lemma_without_account_contains(p0.members@, acc, other);
}

/// What a list holds once an account is filtered out of it.
proof fn lemma_without_account_contains(s: Seq<AccountId>, acc: AccountId, x: AccountId)
    ensures
        without_account(s, acc).contains(x) <==> s.contains(x) && x != acc,
    decreases s.len(),
{
    reveal(Seq::filter);
    if s.len() > 0 {
        let t = s.drop_last();
        lemma_without_account_contains(t, acc, x);
        assert(t.push(s.last()) =~= s);
        if s.contains(x) && !t.contains(x) {
            let k = choose|k: int| 0 <= k < s.len() && s[k] == x;
            if k < t.len() {
                assert(t[k] == x);
            }
        }
        if t.contains(x) {
            let k = choose|k: int| 0 <= k < t.len() && t[k] == x;
            assert(s[k] == x);
        }
        let w = without_account(t, acc);
        if s.last() != acc {
            assert(without_account(s, acc) == w.push(s.last()));
            if w.push(s.last()).contains(x) && x != s.last() {
                let k = choose|k: int| 0 <= k < w.push(s.last()).len() && w.push(s.last())[k] == x;
                assert(w[k] == x);
            }
            if w.contains(x) {
                let k = choose|k: int| 0 <= k < w.len() && w[k] == x;
                assert(w.push(s.last())[k] == x);
            }
            if x == s.last() {
                assert(w.push(s.last())[w.len() as int] == x);
            }
        } else {
            assert(without_account(s, acc) == w);
        }
    }
}

/// Adding an account that is no member and removing it again leaves the
/// members as they were.
pub proof fn law_member_round_trip(p0: Pallet, p1: Pallet, p2: Pallet, acc: AccountId)
    requires
        !p0.members@.contains(acc),
        Pallet::add_member_post(p0, p1, Origin::Root, acc, Ok(())),
        Pallet::del_member_post(p1, p2, Origin::Root, acc, Ok(())),
    ensures
        p2.members@ == p0.members@,
{
    let s = p0.members@;
    assert(s.push(acc).drop_last() =~= s);
    reveal(Seq::filter);
    assert(without_account(s.push(acc), acc) == without_account(s, acc));
    lemma_filter_keeps_all(s, acc);
}

/// Filtering out an account that a list does not hold keeps the list.
proof fn lemma_filter_keeps_all(s: Seq<AccountId>, acc: AccountId)
    requires
        !s.contains(acc),
    ensures
        without_account(s, acc) == s,
    decreases s.len(),
{
    reveal(Seq::filter);
    if s.len() > 0 {
        assert(!s.drop_last().contains(acc)) by {
            if s.drop_last().contains(acc) {
                let k = choose|k: int| 0 <= k < s.drop_last().len() && s.drop_last()[k] == acc;
                assert(s[k] == acc);
            }
        }
        lemma_filter_keeps_all(s.drop_last(), acc);
        assert(s.drop_last().push(s.last()) =~= s);
    }
}

/// Filtering out a byte string that a list does not hold keeps the list.
proof fn lemma_without_absent_bytes(s: Seq<Seq<u8>>, h: Seq<u8>)
    requires
        !s.contains(h),
    ensures
        without_bytes(s, h) == s,
    decreases s.len(),
{
    reveal(Seq::filter);
    if s.len() > 0 {
        assert(!s.drop_last().contains(h)) by {
            if s.drop_last().contains(h) {
                let k = choose|k: int| 0 <= k < s.drop_last().len() && s.drop_last()[k] == h;
                assert(s[k] == h);
            }
        }
        lemma_without_absent_bytes(s.drop_last(), h);
        assert(s.drop_last().push(s.last()) =~= s);
    }
}

/// Data put on a miner's list of data to delete, and then reported deleted
/// by that miner, leaves the list as it was, where the list did not hold it.
pub proof fn law_invalid_round_trip(p0: Pallet, p1: Pallet, p2: Pallet, miner: AccountId, h: Seq<u8>)
    requires
        !list_of(p0.invalid_file, miner).contains(h),
        Pallet::add_invalid_file_post(p0, p1, miner, h, Ok(())),
        Pallet::clear_invalid_file_post(p1, p2, Origin::Signed(miner), h, Ok(())),
    ensures
        list_of(p2.invalid_file, miner) == list_of(p0.invalid_file, miner),
        forall|a: AccountId| a != miner ==> #[trigger] list_of(p2.invalid_file, a) == list_of(
            p0.invalid_file,
            a,
        ),
{
    let l = list_of(p0.invalid_file, miner);
    assert(l.push(h).drop_last() =~= l);
    reveal(Seq::filter);
    assert(without_bytes(l.push(h), h) == without_bytes(l, h));
    lemma_without_absent_bytes(l, h);
    assert forall|a: AccountId| a != miner implies #[trigger] list_of(p2.invalid_file, a) == list_of(
        p0.invalid_file,
        a,
    ) by {
        assert(list_of(p2.invalid_file, a) == list_of(p1.invalid_file, a));
        assert(list_of(p1.invalid_file, a) == list_of(p0.invalid_file, a));
    }
}

/// A file that an account declares first and then deletes leaves the file
/// table, the file index and the packages as they were.
pub proof fn law_declare_then_delete(
    p0: Pallet,
    p1: Pallet,
    p2: Pallet,
    s: AccountId,
    h: Seq<u8>,
    name: Seq<u8>,
)
    requires
        p0.wf(),
        !p0.file@.contains_key(h),
        Pallet::upload_declaration_post(p0, p1, Origin::Signed(s), h, name, Ok(())),
        Pallet::delete_file_post(p1, p2, Origin::Signed(s), h, Ok(())),
    ensures
        p2.file@ == p0.file@,
        p2.file_keys_map@ == p0.file_keys_map@,
        p2.purchased_package@ == p0.purchased_package@,
{
    let index = (p0.file_index_count + 1) as u32;
    let f = declared(index, s, name);
    assert(p1.file@ == p0.file@.insert(h, f));
    assert(p1.file@[h] == f);
    assert(f.user[0] == s);
    assert(f.user.contains(s));
    let mid = choose|mid: Pallet| {
        &&& #[trigger] Pallet::clear_user_file_post(p1, mid, h, s, Ok(()))
        &&& mid.events == p1.events
        &&& mid.keeps(&p2, crate::pallet::touching(false, false, false, false, false, false, false, true))
    };
    assert(Pallet::clear_file_post(p1, mid, h, Ok(())));
    let pk = p1.purchased_package@;
    assert(pk == p0.purchased_package@);
    reveal_with_fuel(release_users, 2);
    let rel = release_users(pk, f.user, 0);
    assert(f.user.drop_first() =~= Seq::<AccountId>::empty());
    assert(rel.1 is None);
    assert(pk.contains_key(s)) by {
        if !pk.contains_key(s) {
            assert(package_in(pk, s) is None);
        }
    }
    let q = pk[s];
    assert(package_wf(q));
    assert(space_after(package_in(pk, s), 2, 0) == Ok::<PackageDetails, Error>(q));
    assert(pk.insert(s, q) =~= pk);
    assert(mid.purchased_package@ == pk);
    assert(mid.file@ == p1.file@.remove(h));
    assert(p1.file@.remove(h) =~= p0.file@);
    assert(!p0.file_keys_map@.contains_key(index));
    assert(mid.file_keys_map@ == p1.file_keys_map@.remove(index));
    assert(p1.file_keys_map@.remove(index) =~= p0.file_keys_map@);
}

/// When `upload_filler` stores a whole list of fillers, the `j`th of them
/// gets the index `count + j + 1`: the filler index leads from it to the
/// filler, which carries it.
pub proof fn law_filler_indexes(
    fillers: Map<(AccountId, Seq<u8>), FillerInfoView>,
    keys: Map<u32, (AccountId, Seq<u8>)>,
    miner: AccountId,
    count: u32,
    list: Seq<FillerInfoView>,
    j: int,
)
    requires
        forall|k: int| 0 <= k < list.len() ==> !stops_at(fillers, miner, count, list, k),
        0 <= j < list.len(),
    ensures
        ({
            let n = list.len() as int;
            let key = (miner, list[j].filler_id);
            let index = (count + j + 1) as u32;
            &&& with_filler_keys(keys, miner, count, list, n).contains_key(index)
            &&& with_filler_keys(keys, miner, count, list, n)[index] == key
            &&& with_fillers(fillers, miner, count, list, n).contains_key(key)
            &&& with_fillers(fillers, miner, count, list, n)[key] == indexed(list[j], index)
        }),
{
    lemma_filler_prefix(fillers, keys, miner, count, list, list.len() as int, j);
}

/// `law_filler_indexes` for the first `n` fillers of the list.
proof fn lemma_filler_prefix(
    fillers: Map<(AccountId, Seq<u8>), FillerInfoView>,
    keys: Map<u32, (AccountId, Seq<u8>)>,
    miner: AccountId,
    count: u32,
    list: Seq<FillerInfoView>,
    n: int,
    j: int,
)
    requires
        forall|k: int| 0 <= k < list.len() ==> !stops_at(fillers, miner, count, list, k),
        0 <= j < n <= list.len(),
    ensures
        ({
            let key = (miner, list[j].filler_id);
            let index = (count + j + 1) as u32;
            &&& with_filler_keys(keys, miner, count, list, n).contains_key(index)
            &&& with_filler_keys(keys, miner, count, list, n)[index] == key
            &&& with_fillers(fillers, miner, count, list, n).contains_key(key)
            &&& with_fillers(fillers, miner, count, list, n)[key] == indexed(list[j], index)
        }),
    decreases n,
{
    assert(!stops_at(fillers, miner, count, list, n - 1));
    assert(!stops_at(fillers, miner, count, list, j));
    if j < n - 1 {
        lemma_filler_prefix(fillers, keys, miner, count, list, n - 1, j);
        assert(list[j].filler_id != list[n - 1].filler_id);
        assert((count + j + 1) as u32 != (count + n) as u32);
    }
}

/// The slash is a whole stake once a third of the validators offend.
pub proof fn law_slash_whole(offenders: u32, validators: u32)
    requires
        validators > 0,
        3 * offenders >= validators,
        3 * offenders <= u32::MAX,
    ensures
        slash_parts(offenders, validators) == 1_000_000_000,
{
    let q = validators as int;
    let f = q / 1_000_000_000 + if q % 1_000_000_000 > 0 { 1int } else { 0int };
    assert(f >= 1);
    assert(q / f > 0) by (nonlinear_arith)
        requires
            f == q / 1_000_000_000 + if q % 1_000_000_000 > 0 { 1int } else { 0int },
            q > 0,
            f >= 1,
    ;
    let m = q / f;
    assert(m * 1_000_000_000 / m == 1_000_000_000) by (nonlinear_arith)
        requires
            m > 0,
    ;
    assert(rational_parts(3 * offenders, q) == 1_000_000_000);
    let big: int = 1_000_000_000_000_000_000;
    let g = big / 1_000_000_000 + if big % 1_000_000_000 > 0 { 1int } else { 0int };
    assert(g == 1_000_000_000);
    assert(big / g == 1_000_000_000);
    assert(rational_parts(1_000_000_000int * 1_000_000_000int, big) == 1_000_000_000);
}

/// No offender, no slash.
pub proof fn law_slash_none(validators: u32)
    ensures
        slash_parts(0, validators) == 0,
{
    let q = if validators < 1 { 1int } else { validators as int };
    let f = q / 1_000_000_000 + if q % 1_000_000_000 > 0 { 1int } else { 0int };
    let factor = if f < 1 { 1 } else { f };
    assert(q / factor > 0) by (nonlinear_arith)
        requires
            f == q / 1_000_000_000 + if q % 1_000_000_000 > 0 { 1int } else { 0int },
            factor == if f < 1 { 1 } else { f },
            q >= 1,
    ;
    assert(0int / factor == 0);
    assert(rational_parts(0, validators as int) == 0);
    let big: int = 1_000_000_000_000_000_000;
    let g = big / 1_000_000_000 + if big % 1_000_000_000 > 0 { 1int } else { 0int };
    assert(g == 1_000_000_000);
    assert(big / g == 1_000_000_000);
    assert(rational_parts(0, big) == 0);
    let x = rational_parts(3 * 0u32, validators as int);
    assert(x == 0);
    assert(x * x == 0);
}

/// The price of a mebibyte is at least `10^15`, grows with the space bought,
/// and falls as the miners offer more space.
pub proof fn law_price_order(a: u128, b: u128, t: u128, u: u128)
    requires
        a <= b,
        0 < t <= u,
        price_of(b, t) is Ok,
    ensures
        price_of(a, t) is Ok,
        price_of(b, u) is Ok,
        1_000_000_000_000_000 <= price_of(a, t)->Ok_0 <= price_of(b, t)->Ok_0,
        price_of(b, u)->Ok_0 <= price_of(b, t)->Ok_0,
{
    let k: int = 10_000_000_000_000_000;
    assert(a * 1_000_000_000_000 <= b * 1_000_000_000_000) by (nonlinear_arith)
        requires
            a <= b,
    ;
    assert(a * 1_000_000_000_000 * 10_000 <= b * 1_000_000_000_000 * 10_000) by (nonlinear_arith)
        requires
            a <= b,
    ;
    assert(a * k <= b * k) by (nonlinear_arith)
        requires
            a <= b,
            k > 0,
    ;
    assert(b * 1_000_000_000_000 * 10_000 == b * k);
    assert(a * 1_000_000_000_000 * 10_000 == a * k);
    vstd::arithmetic::div_mod::lemma_div_is_ordered(a * k, b * k, t as int);
    assert(a * k / t as int >= 0) by (nonlinear_arith)
        requires
            a * k >= 0,
            t > 0,
    ;
    vstd::arithmetic::div_mod::lemma_div_is_ordered_by_denominator(b * k, t as int, u as int);
}

/// The numbers that `get_random_numberlist` draws depend on nothing of the
/// runtime but its block number and its random values: two runtimes that
/// agree on these draw the same numbers, or fail alike.
pub proof fn law_numbers_determined<E: Config>(
    p: Pallet,
    env1: E,
    env2: E,
    length: u32,
    random_type: u8,
    limit: u32,
)
    requires
        env1.spec_block_number() == env2.spec_block_number(),
        forall|v: Vec<u8>| #[trigger] env1.spec_random(v)@ == env2.spec_random(v)@,
    ensures
        p.drawn_indexes(env1, length, random_type, limit) == p.drawn_indexes(env2, length, random_type, limit),
{
    p.lemma_drawn_indexes_same(env1, env2, length, random_type, limit);
}

/// The challenges of a block depend on nothing of the runtime but its block
/// number, its random values and the miners' ids: two runtimes that agree on
/// these give the same challenges on the same file bank, or fail alike.
pub proof fn law_challenges_determined<E: Config>(p: Pallet, env1: E, env2: E)
    requires
        env1.spec_block_number() == env2.spec_block_number(),
        forall|v: Vec<u8>| #[trigger] env1.spec_random(v)@ == env2.spec_random(v)@,
        forall|a: AccountId| #[trigger] env1.spec_miner_id(a) == env2.spec_miner_id(a),
    ensures
        p.challenges_of(env1) == p.challenges_of(env2),
{
    p.lemma_drawn_indexes_same(env1, env2, p.filler_keys_map@.len() as u32, 1, p.filler_index_count);
    p.lemma_drawn_indexes_same(env1, env2, p.file_keys_map@.len() as u32, 2, p.file_index_count);
    match p.fillers_of(env1) {
        Ok(fl) => {
            p.lemma_filler_challenges_same(env1, env2, fl, Seq::empty());
            match p.filler_challenges(env1, fl, Seq::empty()) {
                Ok(d) => {
                    match p.files_of(env1) {
                        Ok(files) => {
                            p.lemma_file_challenges_same(env1, env2, files, d);
                        },
                        Err(e) => {},
                    }
                },
                Err(e) => {},
            }
        },
        Err(e) => {},
    }
}

/// A shard reported lost and then recovered by the current scheduler joins
/// its file again: the file keeps its slices of other shards, gets the new
/// slice after them and is active, and the scheduler's list of shards to
/// recover is as it was before, where it did not hold the shard.
pub proof fn law_recovery_round_trip<E: Config>(
    p0: Pallet,
    p1: Pallet,
    p2: Pallet,
    env: E,
    env2: E,
    c: AccountId,
    shard: Seq<u8>,
    slice: SliceInfoView,
    r: DispatchResult,
)
    requires
        current_scheduler(env) == Ok::<AccountId, DispatchError>(c),
        !list_of(p0.file_recovery, c).contains(shard),
        p0.string_limit >= 6,
        shard.len() >= 4 && p0.file@.contains_key(shard.subrange(0, shard.len() - 4)) ==> without_shard(
            p0.file@[shard.subrange(0, shard.len() - 4)].slice_info,
            shard,
        ).len() < p0.string_limit,
        Pallet::add_recovery_file_post(p0, p1, env, shard, Ok(())),
        Pallet::recover_file_post(p1, p2, env, env2, Origin::Signed(c), shard, slice, true, r),
    ensures
        r is Ok,
        list_of(p2.file_recovery, c) == list_of(p0.file_recovery, c),
        ({
            let fid = shard.subrange(0, shard.len() - 4);
            let f = p0.file@[fid];
            &&& p2.file@.contains_key(fid)
            &&& p2.file@[fid] == FileInfoView {
                slice_info: without_shard(f.slice_info, shard).push(slice),
                file_state: FileState::Active,
                ..f
            }
        }),
{
    let l = list_of(p0.file_recovery, c);
    reveal(Seq::filter);
    assert(l.push(shard).drop_last() =~= l);
    assert(without_bytes(l.push(shard), shard) == without_bytes(l, shard));
    lemma_without_absent_bytes(l, shard);
}

/// What a purchase buys and costs: type 1 is ten free gibibytes; types 2, 3
/// and 4 are 500 gibibytes, one tebibyte and one tebibyte (priced as five
/// tebibytes); type 5 is `count` tebibytes.  The space is first added to what
/// users bought in all; then the buyer pays the file bank's account, for each
/// whole gibibyte of the package, a 1024th of the mebibyte price of the priced
/// space, `priced * 10^16 / total + 10^15`.
pub proof fn law_purchase_terms<E: Config>(
    old: Pallet,
    new: Pallet,
    env0: E,
    env1: E,
    s: AccountId,
    package_type: u8,
    count: u128,
    t: u128,
)
    requires
        Pallet::buy_package_post(old, new, env0, env1, Origin::Signed(s), package_type, count, Ok(())),
        env0.spec_total_space() == Ok::<u128, DispatchError>(t),
        count_fits(package_type, count),
    ensures
        1 <= package_type <= 5,
        package_type == 5 ==> count >= 5,
        ({
            let sp: int = if package_type == 1 {
                10 * G_BYTE
            } else if package_type == 2 {
                500 * G_BYTE
            } else if package_type == 3 || package_type == 4 {
                T_BYTE as int
            } else {
                count * T_BYTE
            };
            let priced: int = if package_type == 2 {
                500 * G_BYTE
            } else if package_type == 3 {
                T_BYTE as int
            } else if package_type == 4 {
                5 * T_BYTE
            } else {
                count * T_BYTE
            };
            let fee: int = if package_type == 1 {
                0
            } else {
                (sp as int / G_BYTE as int) * ((priced * 10_000_000_000_000_000 / t as int + 1_000_000_000_000_000) / 1024)
            };
            &&& new.purchased_package@.contains_key(s)
            &&& new.purchased_package@[s].space == sp
            &&& env1.spec_effects()@ == env0.spec_effects()@.push(Effect::AddPurchasedSpace(sp as u128)).push(
                Effect::Transfer(s, env0.spec_pallet_account(), fee as u128),
            )
        }),
{
    let total = env0.spec_total_space();
    let plan = buy_plan(old, env0.spec_block_number(), total, s, package_type, count);
    assert(plan is Ok);
    let (pkg, space, m) = plan->Ok_0;
    assert(buy_offer(package_type, count, total) == Ok::<(u128, u128), DispatchError>((space, m)));
    assert(pkg.space == space);
    if package_type == 1 {
        assert(space == 10 * G_BYTE && m == 0);
    } else if package_type == 2 {
        assert(space == 500 * G_BYTE);
        assert(m == (500 * G_BYTE) * 10_000_000_000_000_000 / t as int + 1_000_000_000_000_000);
    } else if package_type == 3 {
        assert(space == T_BYTE);
        assert(m == T_BYTE * 10_000_000_000_000_000 / t as int + 1_000_000_000_000_000);
    } else if package_type == 4 {
        assert(space == T_BYTE);
        assert(m == (5 * T_BYTE) * 10_000_000_000_000_000 / t as int + 1_000_000_000_000_000);
    } else {
        assert(package_type == 5);
        assert(space == count * T_BYTE);
        assert(m == (count * T_BYTE) * 10_000_000_000_000_000 / t as int + 1_000_000_000_000_000);
    }
}

/// What an upgrade costs: the new package is 500 gibibytes, one, five or
/// `count` tebibytes for types 2 to 5, and its monthly fee is its whole
/// gibibytes at a 1024th of the mebibyte price of its space; the current
/// package's monthly fee, reckoned alike (nothing for a free package), is
/// deducted; and the difference is charged per day, a 30th of it, for each
/// day left of the lease, a part of a day counting whole.  So an upgrade from
/// a paid package costs less than the new package for the days left.
pub proof fn law_upgrade_fee(
    cur: PackageDetails,
    now: BlockNumber,
    one_day: BlockNumber,
    package_type: u8,
    count: u128,
    t: u128,
    space: u128,
    fee: u128,
    added: u128,
)
    requires
        upgrade_quote(cur, now, one_day, package_type, count, Ok(t)) == Ok::<(u128, u128, u128), DispatchError>(
            (space, fee, added),
        ),
        count_fits(package_type, count),
    ensures
        ({
            let sp: int = if package_type == 2 {
                500 * G_BYTE
            } else if package_type == 3 {
                T_BYTE as int
            } else if package_type == 4 {
                5 * T_BYTE
            } else {
                count * T_BYTE
            };
            let up: int = (sp as int / G_BYTE as int) * ((sp * 10_000_000_000_000_000 / t as int + 1_000_000_000_000_000) / 1024);
            let cur_m: int = if cur.package_type == 1 {
                0
            } else {
                cur.space * 10_000_000_000_000_000 / t as int + 1_000_000_000_000_000
            };
            let cur_fee: int = (cur.space as int / G_BYTE as int) * (cur_m / 1024);
            let left: int = cur.deadline - now;
            let d: int = (left + one_day - 1) / one_day as int;
            &&& 2 <= package_type <= 5
            &&& space == sp
            &&& added == sp - cur.space
            &&& cur_fee <= up
            &&& 0 <= left && one_day > 0
            &&& fee == (up - cur_fee) / 30 * d
            &&& cur.package_type != 1 && cur.space >= G_BYTE && left > 0 ==> fee < up / 30 * d
        }),
{
    let total = Ok::<u128, DispatchError>(t);
    assert(cur.package_type != 1 ==> price_from(cur.space, total) is Ok);
    let offer = upgrade_offer(package_type, count, total);
    assert(offer is Ok);
    let (sp, up_m) = offer->Ok_0;
    assert(sp == space);
    assert(2 <= package_type <= 5);
    if package_type == 5 {
        assert(sp == count * T_BYTE);
    }
    let cur_m: int = if cur.package_type == 1 {
        0
    } else {
        cur.space * 10_000_000_000_000_000 / t as int + 1_000_000_000_000_000
    };
    assert(up_m == sp * 10_000_000_000_000_000 / t as int + 1_000_000_000_000_000);
    let cur_fee: int = (cur.space as int / G_BYTE as int) * (cur_m / 1024);
    let up: int = (sp as int / G_BYTE as int) * (up_m / 1024);
    assert(fee_of(cur.space, if cur.package_type == 1 { 0 } else { price_from(cur.space, total)->Ok_0 }) == Some(cur_fee as u128));
    let d = days_left(cur.deadline, now, one_day);
    let left: int = cur.deadline - now;
    assert(one_day > 0 && left >= 0);
    assert(fee == (up - cur_fee) / 30 * d);
    let k = one_day as int;
    vstd::arithmetic::div_mod::lemma_fundamental_div_mod(left, k);
    let q = left / k;
    let r = left % k;
    assert(0 <= r < k);
    assert(left == k * q + r);
    let c = (left + k - 1) / k;
    if r != 0 {
        assert(d == q + 1);
        assert(left + k - 1 == (q + 1) * k + (r - 1)) by (nonlinear_arith)
            requires
                left == k * q + r,
        ;
        vstd::arithmetic::div_mod::lemma_fundamental_div_mod_converse(left + k - 1, k, q + 1, r - 1);
        assert(c == d);
    } else {
        assert(d == q);
        assert(left + k - 1 == q * k + (k - 1)) by (nonlinear_arith)
            requires
                left == k * q + r,
                r == 0,
        ;
        vstd::arithmetic::div_mod::lemma_fundamental_div_mod_converse(left + k - 1, k, q, k - 1);
        assert(c == d);
    }
    if cur.package_type != 1 && cur.space >= G_BYTE && left > 0 {
        assert(q >= 0) by (nonlinear_arith)
            requires
                left >= 0,
                k > 0,
                q == left / k,
        ;
        if r == 0 {
            assert(q > 0) by (nonlinear_arith)
                requires
                    left > 0,
                    k > 0,
                    left == k * q + r,
                    r == 0,
            ;
        }
        assert(d > 0);
        assert(cur_m >= 1_000_000_000_000_000) by (nonlinear_arith)
            requires
                cur_m == cur.space * 10_000_000_000_000_000 / t as int + 1_000_000_000_000_000,
                t > 0,
        ;
        assert(cur.space as int / G_BYTE as int >= 1) by (nonlinear_arith)
            requires
                cur.space >= G_BYTE,
        ;
        assert(cur_fee >= 30) by (nonlinear_arith)
            requires
                cur_fee == (cur.space as int / G_BYTE as int) * (cur_m / 1024),
                cur.space as int / G_BYTE as int >= 1,
                cur_m >= 1_000_000_000_000_000,
        ;
        assert((up - cur_fee) / 30 < up / 30) by (nonlinear_arith)
            requires
                cur_fee >= 30,
                up >= cur_fee,
        ;
        assert((up - cur_fee) / 30 * d < up / 30 * d) by (nonlinear_arith)
            requires
                (up - cur_fee) / 30 < up / 30,
                d > 0,
        ;
    }
}

/// What a renewal costs: another month of the whole package, its whole
/// gibibytes at a 1024th of the mebibyte price of its space (nothing for a
/// free package), however much of it is used: packages that differ only in
/// their used and remaining space renew at the same fee.
pub proof fn law_renewal_fee(cur: PackageDetails, used_space: u128, remaining_space: u128, t: u128)
    ensures
        renewal_fee(cur, Ok(t)) == renewal_fee(
            PackageDetails { used_space, remaining_space, ..cur },
            Ok(t),
        ),
        renewal_fee(cur, Ok(t)) is Ok ==> {
            let m: int = if cur.package_type == 1 {
                0
            } else {
                cur.space * 10_000_000_000_000_000 / t as int + 1_000_000_000_000_000
            };
            renewal_fee(cur, Ok(t))->Ok_0 == (cur.space as int / G_BYTE as int) * (m / 1024)
        },
{
}

/// The grace period after a lease ends, before the files under it are
/// cleared: none for type 1, a week for type 2, two weeks for type 3, twenty
/// days for type 4 and thirty days for any other type.
pub proof fn law_grace_periods(p: PackageDetails, now: BlockNumber, one_day: BlockNumber)
    ensures
        past_grace(p, now, one_day) <==> now > p.deadline + (if p.package_type == 1 {
            0int
        } else if p.package_type == 2 {
            7
        } else if p.package_type == 3 {
            14
        } else if p.package_type == 4 {
            20
        } else {
            30
        }) * one_day,
{
}

/// Within the grace period of a package (see `law_grace_periods`), the
/// daily check neither clears the owner's files nor asks anything of the
/// runtime: at most the package is frozen.
pub proof fn law_within_grace_only_freezes<E: Config>(
    p: Pallet,
    q: Pallet,
    env0: E,
    env1: E,
    acc: AccountId,
    info: PackageDetails,
    now: BlockNumber,
    one_day: BlockNumber,
)
    requires
        now <= info.deadline + (if info.package_type == 1 {
            0int
        } else if info.package_type == 2 {
            7
        } else if info.package_type == 3 {
            14
        } else if info.package_type == 4 {
            20
        } else {
            30
        }) * one_day,
        lease_step(p, q, env0, env1, (acc, info), now, one_day),
    ensures
        env1 == env0,
        q.file == p.file,
        q.file_keys_map == p.file_keys_map,
        q.user_hold_file_list == p.user_hold_file_list,
        q.invalid_file == p.invalid_file,
        q.purchased_package@ == p.purchased_package@ || q.purchased_package@ == p.purchased_package@.insert(
            acc,
            PackageDetails { state: PackageState::Frozen, ..info },
        ),
{
}

} // verus!
