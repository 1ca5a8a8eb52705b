//! The check of leases at the start of every day.
use vstd::prelude::*;
use crate::config::{Config, Effect};
use crate::file::{holds_sound, space_taken_after, users_have_packages};
use crate::types::DispatchResult;
use crate::pallet::{Pallet, touching};
use crate::types::{AccountId, BlockNumber, PackageDetails, PackageState};
use crate::weights::Weight;

verus! {

/// The days after a lease ends before the files under it are cleared: none
/// for type 1, a week for type 2, two for type 3, twenty days for type 4 and a
/// month otherwise.  Meanwhile the package is frozen.
pub open spec fn grace_days(package_type: u8) -> int {
    match package_type {
        1 => 0,
        2 => 7,
        3 => 14,
        4 => 20,
        _ => 30,
    }
}

/// The lease of `p` ended more than its grace period before `now`.
pub open spec fn past_grace(p: PackageDetails, now: BlockNumber, one_day: BlockNumber) -> bool {
    now > p.deadline + grace_days(p.package_type) * one_day
}

/// What the daily check makes of the package `p` (as `q`): a package whose
/// lease has not ended stays as it is; one within its grace period is frozen
/// (where the bound of strings lets the state be written); one past its grace
/// period keeps its terms, and only its used space may change, as its files
/// are cleared.
pub open spec fn lease_checked(
    p: PackageDetails,
    q: PackageDetails,
    now: BlockNumber,
    one_day: BlockNumber,
    string_limit: u32,
) -> bool {
    if now > p.deadline {
        if past_grace(p, now, one_day) {
            &&& q.space == p.space
            &&& q.deadline == p.deadline
            &&& q.start == p.start
            &&& q.tenancy == p.tenancy
            &&& q.package_type == p.package_type
            &&& q.state == p.state
        } else if p.state == PackageState::Normal && string_limit >= 6 {
            q == PackageDetails { state: PackageState::Frozen, ..p }
        } else {
            q == p
        }
    } else {
        q == p
    }
}

/// What the day's check does to the runtime, over the packages `s` in
/// turn: for each package past its grace period its space leaves the space
/// that users bought, and then clearing its owner's files takes nothing but
/// miners' space; the other packages take nothing.
pub open spec fn expiry_log(
    s: Seq<(AccountId, PackageDetails)>,
    now: BlockNumber,
    one_day: BlockNumber,
    e: Seq<Effect>,
) -> bool
    decreases s.len(),
{
    if s.len() == 0 {
        e.len() == 0
    } else if past_grace(s.last().1, now, one_day) {
        exists|k: int|
            0 <= k < e.len() && #[trigger] e[k] == Effect::SubPurchasedSpace(s.last().1.space)
                && expiry_log(s.drop_last(), now, one_day, e.take(k))
                && forall|j: int| k < j < e.len() ==> #[trigger] e[j] is SubSpace
    } else {
        expiry_log(s.drop_last(), now, one_day, e)
    }
}

/// The day's check on the package `entry` (an account and its package as
/// it stood when the check began), from the file bank `p` and the runtime
/// `env0` to `q` and `env1`: past its grace period, the package's space
/// leaves the space that users bought and then the account's files are
/// cleared as `clear_expired_file` does, whatever the outcome; within it, a
/// package not yet frozen is frozen where the bound of strings lets the
/// state be written; otherwise nothing changes.
pub open spec fn lease_step<E: Config>(
    p: Pallet,
    q: Pallet,
    env0: E,
    env1: E,
    entry: (AccountId, PackageDetails),
    now: BlockNumber,
    one_day: BlockNumber,
) -> bool {
    let acc = entry.0;
    let info = entry.1;
    if past_grace(info, now, one_day) {
        exists|e: E, r: DispatchResult|
            e.spec_effects()@ == env0.spec_effects()@.push(Effect::SubPurchasedSpace(info.space))
                && #[trigger] Pallet::expired_cleared(p, q, e, env1, acc, r)
    } else if now > info.deadline && info.state != PackageState::Frozen && p.string_limit >= 6 {
        &&& q.purchased_package@ == p.purchased_package@.insert(acc, PackageDetails { state: PackageState::Frozen, ..info })
        &&& p.keeps(&q, touching(false, false, false, false, false, false, true, false))
        &&& env1 == env0
    } else {
        q == p && env1 == env0
    }
}

/// The day's check on the packages `s` in turn (see `lease_step`), from the
/// file bank `p` and the runtime `env0` to `q` and `env1`.
pub open spec fn leases_checked<E: Config>(
    p: Pallet,
    q: Pallet,
    env0: E,
    env1: E,
    s: Seq<(AccountId, PackageDetails)>,
    now: BlockNumber,
    one_day: BlockNumber,
) -> bool
    decreases s.len(),
{
    if s.len() == 0 {
        q == p && env1 == env0
    } else {
        exists|mid: Pallet, e: E|
            leases_checked(p, mid, env0, e, s.drop_last(), now, one_day) && #[trigger] lease_step(
                mid,
                q,
                e,
                env1,
                s.last(),
                now,
                one_day,
            )
    }
}

impl Pallet {
    /// The day's lease check, at the first block of each day: packages whose
    /// lease ended are frozen for their grace period, and once it is over the
    /// space leaves the miners' purchased space and the files of the package's
    /// owner are cleared (errors there are let pass).
    pub fn on_initialize<E: Config>(&mut self, env: &mut E, now: BlockNumber) -> (w: Weight)
        requires
            old(self).wf(),
            old(self).one_day > 0,
            now % old(self).one_day == 0 ==> forall|a: AccountId| #[trigger] old(self).purchased_package@.contains_key(a)
                && now > old(self).purchased_package@[a].deadline ==> old(self).purchased_package@[a].deadline
                + grace_days(old(self).purchased_package@[a].package_type) * old(self).one_day <= u32::MAX,
            now % old(self).one_day == 0 ==> forall|a: AccountId| #[trigger] old(self).purchased_package@.contains_key(a)
                && past_grace(old(self).purchased_package@[a], now, old(self).one_day) ==> holds_sound(*old(self), a),
        ensures
            final(self).wf(),
            w == (Weight { ref_time: 0, proof_size: 0 }),
            now % old(self).one_day != 0 ==> *final(self) == *old(self) && *final(env) == *old(env),
            now % old(self).one_day == 0 ==> leases_checked(
                *old(self),
                *final(self),
                *old(env),
                *final(env),
                old(self).purchased_package.seq(),
                now,
                old(self).one_day,
            ),
            now % old(self).one_day == 0 ==> {
                let e0 = old(env).spec_effects()@;
                let e1 = final(env).spec_effects()@;
                &&& e0.len() <= e1.len()
                &&& e1.take(e0.len() as int) == e0
                &&& expiry_log(old(self).purchased_package.seq(), now, old(self).one_day, e1.skip(e0.len() as int))
            },
            users_have_packages(*old(self)) ==> users_have_packages(*final(self)),
            forall|a: AccountId| !(old(self).purchased_package@.contains_key(a) && past_grace(
                old(self).purchased_package@[a],
                now,
                old(self).one_day,
            )) ==> #[trigger] final(self).held_by(a) == old(self).held_by(a),
            old(self).keeps(final(self), touching(true, true, false, false, true, false, true, false)),
            forall|a: AccountId| #[trigger] old(self).purchased_package@.contains_key(a) ==> {
                &&& final(self).purchased_package@.contains_key(a)
                &&& (now % old(self).one_day == 0 ==> lease_checked(
                    old(self).purchased_package@[a],
                    final(self).purchased_package@[a],
                    now,
                    old(self).one_day,
                    old(self).string_limit,
                ))
            },
    {
        let oneday = self.one_day;
        if now % oneday != 0 {
            return Weight { ref_time: 0, proof_size: 0 };
        }
        let n = self.purchased_package.entries.len();
        let mut snapshot: Vec<(AccountId, PackageDetails)> = Vec::new();
        let mut k: usize = 0;
        while k < n
            invariant
                n == self.purchased_package.entries.len(),
                *self == *old(self),
                k <= n,
                snapshot@.len() == k,
                forall|m: int| 0 <= m < k ==> #[trigger] snapshot@[m] == self.purchased_package.seq()[m],
            decreases n - k,
        {
            snapshot.push(self.purchased_package.entries[k]);
            k = k + 1;
        }
        let ghost s = old(self).purchased_package.seq();
        let ghost e0 = old(env).spec_effects()@;
        proof {
            assert(e0.take(e0.len() as int) =~= e0);
            assert(e0.skip(e0.len() as int) =~= Seq::<Effect>::empty());
            assert(s.take(0) =~= Seq::<(AccountId, PackageDetails)>::empty());
            crate::table::lemma_seq_to_map_all(s);
            assert forall|m: int| 0 <= m < n && past_grace(s[m].1, now, self.one_day) implies #[trigger] holds_sound(*self, s[m].0) by {
                assert(old(self).purchased_package@.contains_key(s[m].0));
                assert(old(self).purchased_package@[s[m].0] == s[m].1);
            }
        }
        let mut k: usize = 0;
        while k < n
            invariant
                self.wf(),
                users_have_packages(*old(self)) ==> users_have_packages(*self),
                n == s.len(),
                s == old(self).purchased_package.seq(),
                crate::table::unique_keys(s),
                snapshot@.len() == n,
                forall|m: int| 0 <= m < n ==> #[trigger] snapshot@[m] == s[m],
                now % old(self).one_day == 0,
                self.one_day == old(self).one_day,
                self.string_limit == old(self).string_limit,
                0 < self.one_day,
                oneday == self.one_day,
                forall|a: AccountId| #[trigger] old(self).purchased_package@.contains_key(a)
                    && now > old(self).purchased_package@[a].deadline ==> old(self).purchased_package@[a].deadline
                    + grace_days(old(self).purchased_package@[a].package_type) * old(self).one_day <= u32::MAX,
                e0 == old(env).spec_effects()@,
                e0.len() <= env.spec_effects()@.len(),
                env.spec_effects()@.take(e0.len() as int) == e0,
                expiry_log(s.take(k as int), now, self.one_day, env.spec_effects()@.skip(e0.len() as int)),
                leases_checked(*old(self), *self, *old(env), *env, s.take(k as int), now, self.one_day),
                forall|a: AccountId| !(old(self).purchased_package@.contains_key(a) && past_grace(
                    old(self).purchased_package@[a],
                    now,
                    old(self).one_day,
                )) ==> #[trigger] self.held_by(a) == old(self).held_by(a),
                k <= n,
                forall|m: int| k <= m < n ==> #[trigger] self.package_of(s[m].0) == old(self).package_of(s[m].0),
                forall|m: int| k <= m < n && past_grace(s[m].1, now, self.one_day) ==> #[trigger] holds_sound(*self, s[m].0),
                forall|m: int| 0 <= m < k ==> self.purchased_package@.contains_key(#[trigger] s[m].0) && lease_checked(
                    s[m].1,
                    self.purchased_package@[s[m].0],
                    now,
                    self.one_day,
                    self.string_limit,
                ),
                forall|a: AccountId| old(self).purchased_package@.contains_key(a) ==> #[trigger] self.purchased_package@.contains_key(a),
                old(self).keeps(self, touching(true, true, false, false, true, false, true, false)),
            decreases n - k,
        {
            let (acc, info) = snapshot[k];
            proof {
                assert(s[k as int] == (acc, info));
                assert(old(self).purchased_package@.contains_key(acc));
                assert(old(self).purchased_package@[acc] == info);
                assert(s.take(k + 1).drop_last() =~= s.take(k as int));
                assert(s.take(k + 1).last() == (acc, info));
            }
            let ghost before = *self;
            let ghost env_before = *env;
            proof {
                assert(self.package_of(s[k as int].0) == old(self).package_of(s[k as int].0));
                assert(self.purchased_package@.contains_key(acc));
                assert(self.purchased_package@[acc] == info);
            }
            if now > info.deadline {
                let frozen_day: BlockNumber = match info.package_type {
                    1 => 0,
                    2 => 7 * oneday,
                    3 => 14 * oneday,
                    4 => 20 * oneday,
                    _ => 30 * oneday,
                };
                if now > info.deadline + frozen_day {
                    let ghost eb = env.spec_effects()@;
                    let _ = env.sub_purchased_space(info.space);
                    let ghost em = env.spec_effects()@;
                    let ghost env_m = *env;
                    let cleared = self.clear_expired_file(env, acc);
                    proof {
                        assert(past_grace(info, now, self.one_day)) by {
                            assert(frozen_day == grace_days(info.package_type) * self.one_day);
                        }
                        assert(Pallet::expired_cleared(before, *self, env_m, *env, acc, cleared));
                        assert(lease_step(before, *self, env_before, *env, (acc, info), now, self.one_day));
                    }
                    proof {
                        let ee = env.spec_effects()@;
                        let x = ee.skip(e0.len() as int);
                        let kk = eb.len() - e0.len();
                        assert(frozen_day == grace_days(info.package_type) * self.one_day);
                        assert(past_grace(info, now, self.one_day));
                        assert(ee.take(e0.len() as int) =~= e0) by {
                            assert forall|j: int| 0 <= j < e0.len() implies ee[j] == e0[j] by {
                                assert(ee.take(em.len() as int)[j] == em[j]);
                                assert(eb.take(e0.len() as int)[j] == eb[j]);
                            }
                        }
                        assert(x[kk] == Effect::SubPurchasedSpace(info.space)) by {
                            assert(ee.take(em.len() as int)[eb.len() as int] == em[eb.len() as int]);
                        }
                        assert(x.take(kk) =~= eb.skip(e0.len() as int)) by {
                            assert forall|j: int| 0 <= j < kk implies x[j] == eb[j + e0.len()] by {
                                assert(ee.take(em.len() as int)[j + e0.len()] == em[j + e0.len()]);
                            }
                        }
                        assert forall|j: int| kk < j < x.len() implies #[trigger] x[j] is SubSpace by {
                            assert(x[j] == ee[j + e0.len()]);
                        }
                        assert(expiry_log(s.take(k + 1), now, self.one_day, x));
                    }
                    proof {
                        assert forall|a: AccountId| !(old(self).purchased_package@.contains_key(a) && past_grace(
                            old(self).purchased_package@[a],
                            now,
                            old(self).one_day,
                        )) implies #[trigger] self.held_by(a) == old(self).held_by(a) by {
                            if a == acc {
                                assert(old(self).purchased_package@.contains_key(a));
                            }
                            assert(before.held_by(a) == old(self).held_by(a));
                        }
                    }
                    proof {
                        assert forall|m: int| k < m < n implies #[trigger] self.package_of(s[m].0) == old(self).package_of(s[m].0) by {
                            assert(s[m].0 != s[k as int].0);
                            assert(before.package_of(s[m].0) == old(self).package_of(s[m].0));
                        }
                        assert forall|m: int| k < m < n && past_grace(s[m].1, now, self.one_day) implies #[trigger] holds_sound(*self, s[m].0) by {
                            assert(s[m].0 != s[k as int].0);
                            assert(holds_sound(before, s[m].0));
                        }
                        assert forall|m: int| 0 <= m < k implies self.purchased_package@.contains_key(#[trigger] s[m].0) && lease_checked(
                            s[m].1,
                            self.purchased_package@[s[m].0],
                            now,
                            self.one_day,
                            self.string_limit,
                        ) by {
                            assert(s[m].0 != s[k as int].0);
                            assert(before.package_of(s[m].0) == self.package_of(s[m].0));
                            assert(before.purchased_package@.contains_key(s[m].0));
                        }
                        assert(self.purchased_package@.contains_key(acc));
                        assert(crate::file::same_terms(before.purchased_package@[acc], self.purchased_package@[acc]));
                        assert(frozen_day == grace_days(info.package_type) * self.one_day);
                        assert(lease_checked(s[k as int].1, self.purchased_package@[s[k as int].0], now, self.one_day, self.string_limit));
                    }
                } else if info.state != PackageState::Frozen && self.string_limit >= 6 {
                    let p = PackageDetails { state: PackageState::Frozen, ..info };
                    self.put_frozen(acc, p);
                    proof {
                        assert(!past_grace(info, now, self.one_day)) by {
                            assert(frozen_day == grace_days(info.package_type) * self.one_day);
                        }
                        assert(lease_step(before, *self, env_before, *env, (acc, info), now, self.one_day));
                    }
                    proof {
                        assert forall|m: int| 0 <= m < k implies self.purchased_package@.contains_key(#[trigger] s[m].0) && lease_checked(
                            s[m].1,
                            self.purchased_package@[s[m].0],
                            now,
                            self.one_day,
                            self.string_limit,
                        ) by {
                            assert(s[m].0 != s[k as int].0);
                            assert(before.purchased_package@.contains_key(s[m].0));
                        }
                        assert forall|m: int| k < m < n && past_grace(s[m].1, now, self.one_day) implies #[trigger] holds_sound(*self, s[m].0) by {
                            assert(holds_sound(before, s[m].0));
                            assert(self.held_by(s[m].0) == before.held_by(s[m].0));
                        }
                        assert forall|m: int| k < m < n implies #[trigger] self.package_of(s[m].0) == old(self).package_of(s[m].0) by {
                            assert(s[m].0 != s[k as int].0);
                            assert(before.package_of(s[m].0) == old(self).package_of(s[m].0));
                        }
                        assert(frozen_day == grace_days(info.package_type) * self.one_day);
                        assert(lease_checked(s[k as int].1, self.purchased_package@[s[k as int].0], now, self.one_day, self.string_limit));
                    }
                }
            }
            proof {
                if !past_grace(info, now, self.one_day) {
                    assert(expiry_log(s.take(k + 1), now, self.one_day, env.spec_effects()@.skip(e0.len() as int)));
                }
                assert(lease_step(before, *self, env_before, *env, s.take(k + 1).last(), now, self.one_day));
                assert(leases_checked(*old(self), before, *old(env), env_before, s.take(k + 1).drop_last(), now, self.one_day));
                assert(leases_checked(*old(self), *self, *old(env), *env, s.take(k + 1), now, self.one_day));
            }
            k = k + 1;
        }
        proof {
            assert(s.take(n as int) =~= s);
            assert forall|a: AccountId| #[trigger] old(self).purchased_package@.contains_key(a) implies {
                &&& self.purchased_package@.contains_key(a)
                &&& lease_checked(
                    old(self).purchased_package@[a],
                    self.purchased_package@[a],
                    now,
                    old(self).one_day,
                    old(self).string_limit,
                )
            } by {
                let m = choose|m: int| 0 <= m < s.len() && #[trigger] s[m].0 == a;
                assert(s[m].0 == a);
                assert(old(self).purchased_package@[a] == s[m].1);
            }
        }
        Weight { ref_time: 0, proof_size: 0 }
    }

    /// Writes the frozen package of `acc`.
    fn put_frozen(&mut self, acc: AccountId, p: PackageDetails)
        requires
            old(self).wf(),
            crate::pallet::package_wf(p),
        ensures
            final(self).wf(),
            final(self).purchased_package@ == old(self).purchased_package@.insert(acc, p),
            old(self).keeps(final(self), touching(false, false, false, false, false, false, true, false)),
            users_have_packages(*old(self)) ==> users_have_packages(*final(self)),
            forall|a: AccountId| #[trigger] final(self).held_by(a) == old(self).held_by(a),
    {
        self.purchased_package.insert(acc, p);
        assert forall|a: AccountId| #[trigger]
            self.purchased_package@.contains_key(a) implies crate::pallet::package_wf(
            self.purchased_package@[a],
        ) by {
            if a != acc {
                assert(old(self).purchased_package@.contains_key(a));
            }
        }
        proof {
            if users_have_packages(*old(self)) {
                assert forall|h: Seq<u8>| #[trigger] self.file@.contains_key(h) implies crate::file::all_have_packages(*self, self.file@[h].user) by {
                    assert(crate::file::all_have_packages(*old(self), old(self).file@[h].user));
                    assert forall|i: int| 0 <= i < self.file@[h].user.len() implies #[trigger] self.purchased_package@.contains_key(self.file@[h].user[i]) by {
                        assert(old(self).purchased_package@.contains_key(old(self).file@[h].user[i]));
                    }
                }
            }
        }
    }
}

} // verus!
