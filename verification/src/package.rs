//! Storage packages: buying, upgrading and renewing them, and the space that
//! files take from them.
use vstd::prelude::*;
use crate::config::{Config, Effect};
use crate::pallet::{package_wf, touching, nothing, Pallet};
use crate::pricing::{count_fits, upgrade_reaches_offer, 
    buy_offer, fee_for, fee_of, package_offer, quote_renewal, quote_upgrade, renewal_fee,
    upgrade_quote,
};
use crate::types::{
    AccountId, Balance, BlockNumber, DispatchError, DispatchResult, Error, Event, EventView,
    Origin, PackageDetails, PackageState, ensure_signed,
};

verus! {

/// The package after a file of `size` bytes is stored under it (operation 1)
/// or deleted from it (operation 2).
pub open spec fn space_after(p: Option<PackageDetails>, operation: u8, size: u128) -> Result<
    PackageDetails,
    Error,
> {
    if operation == 1 {
        match p {
            None => Err(Error::NotPurchasedPackage),
            Some(p) => if p.state == PackageState::Frozen {
                Err(Error::LeaseFreeze)
            } else if size > p.space - p.used_space {
                Err(Error::InsufficientStorage)
            } else {
                Ok(
                    PackageDetails {
                        used_space: (p.used_space + size) as u128,
                        remaining_space: (p.remaining_space - size) as u128,
                        ..p
                    },
                )
            },
        }
    } else if operation == 2 {
        match p {
            None => Err(Error::NotPurchasedPackage),
            Some(p) => if p.used_space < size {
                Err(Error::Overflow)
            } else {
                Ok(
                    PackageDetails {
                        used_space: (p.used_space - size) as u128,
                        remaining_space: (p.space - (p.used_space - size)) as u128,
                        ..p
                    },
                )
            },
        }
    } else {
        Err(Error::WrongOperation)
    }
}

/// The package that `add_puchased_package` records: bought at `now` for
/// `month` months of 30 days, with nothing used yet.
pub open spec fn new_package(
    now: BlockNumber,
    one_day: BlockNumber,
    string_limit: u32,
    space: u128,
    month: u32,
    package_type: u8,
) -> Result<PackageDetails, Error> {
    let blocks = month * 30 * one_day;
    if month * 30 > u32::MAX || blocks > u32::MAX || now + blocks > u32::MAX {
        Err(Error::Overflow)
    } else if string_limit < 6 {
        Err(Error::BoundedVecError)
    } else {
        Ok(
            PackageDetails {
                space,
                used_space: 0,
                remaining_space: space,
                tenancy: month,
                package_type,
                start: now,
                deadline: (now + blocks) as u32,
                state: PackageState::Normal,
            },
        )
    }
}

/// The package after another month is bought at `now`: thirty days more from
/// its deadline, or from `now` where it has lapsed.
pub open spec fn renewed(p: PackageDetails, now: BlockNumber, one_day: BlockNumber) -> Result<
    PackageDetails,
    Error,
> {
    let blocks = one_day * 30;
    if blocks > u32::MAX {
        Err(Error::Overflow)
    } else if now > p.deadline {
        if now + blocks > u32::MAX {
            Err(Error::Overflow)
        } else {
            Ok(PackageDetails { start: now, deadline: (now + blocks) as u32, ..p })
        }
    } else if p.deadline + blocks > u32::MAX {
        Err(Error::Overflow)
    } else {
        Ok(PackageDetails { deadline: (p.deadline + blocks) as u32, ..p })
    }
}

/// The package after it grows to `space` bytes of the given type; what it
/// gains is added to what it has left.
pub open spec fn expanded(p: PackageDetails, space: u128, package_type: u8) -> Result<
    PackageDetails,
    Error,
> {
    if space < p.space || p.remaining_space + (space - p.space) > u128::MAX {
        Err(Error::Overflow)
    } else {
        Ok(
            PackageDetails {
                remaining_space: (p.remaining_space + (space - p.space)) as u128,
                space,
                package_type,
                ..p
            },
        )
    }
}

/// What `buy_package` records for the buyer `s`, the space bought and the
/// price of a mebibyte of it, unless it refuses the purchase.
pub open spec fn buy_plan(
    p: Pallet,
    now: BlockNumber,
    total: Result<u128, DispatchError>,
    s: AccountId,
    package_type: u8,
    count: u128,
) -> Result<(PackageDetails, u128, u128), DispatchError> {
    if p.purchased_package@.contains_key(s) {
        Err(DispatchError::Module(Error::PurchasedPackage))
    } else {
        match buy_offer(package_type, count, total) {
            Err(e) => Err(e),
            Ok((space, m)) => match new_package(now, p.one_day, p.string_limit, space, 1, package_type) {
                Err(e) => Err(DispatchError::Module(e)),
                Ok(pkg) => Ok((pkg, space, m)),
            },
        }
    }
}

impl Pallet {
    /// The package of `acc`, if it bought one.
    pub open spec fn package_of(&self, acc: AccountId) -> Option<PackageDetails> {
        if self.purchased_package@.contains_key(acc) {
            Some(self.purchased_package@[acc])
        } else {
            None
        }
    }

    /// Replaces the package of `acc`, keeping its place in the table.
    fn put_package(&mut self, acc: AccountId, p: PackageDetails)
        requires
            old(self).wf(),
            package_wf(p),
        ensures
            final(self).wf(),
            final(self).purchased_package@ == old(self).purchased_package@.insert(acc, p),
            old(self).keeps(final(self), touching(false, false, false, false, false, false, true, false)),
    {
        self.purchased_package.insert(acc, p);
        assert forall|a: AccountId| #[trigger]
            self.purchased_package@.contains_key(a) implies package_wf(
            self.purchased_package@[a],
        ) by {
            if a != acc {
                assert(old(self).purchased_package@.contains_key(a));
            }
        }
    }

    /// Takes `size` bytes from the package of `acc` for a stored file
    /// (operation 1), or gives them back for a deleted one (operation 2).
    pub fn update_user_space(&mut self, acc: AccountId, operation: u8, size: u128) -> (r:
        DispatchResult)
        requires
            old(self).wf(),
            operation == 2 ==> old(self).purchased_package@.contains_key(acc),
        ensures
            final(self).wf(),
            match space_after(old(self).package_of(acc), operation, size) {
                Ok(p) => {
                    &&& r is Ok
                    &&& final(self).purchased_package@ == old(self).purchased_package@.insert(acc, p)
                    &&& old(self).keeps(final(self), touching(false, false, false, false, false, false, true, false))
                },
                Err(e) => r == Err::<(), DispatchError>(DispatchError::Module(e)) && *final(self)
                    == *old(self),
            },
    {
        if operation != 1 && operation != 2 {
            return Err(DispatchError::Module(Error::WrongOperation));
        }
        let s = match self.purchased_package.get(&acc) {
            Some(s) => *s,
            None => return Err(DispatchError::Module(Error::NotPurchasedPackage)),
        };
        assert(package_wf(s));
        if operation == 1 {
            if s.state == PackageState::Frozen {
                return Err(DispatchError::Module(Error::LeaseFreeze));
            }
            if size > s.space - s.used_space {
                return Err(DispatchError::Module(Error::InsufficientStorage));
            }
            let p = PackageDetails {
                used_space: s.used_space + size,
                remaining_space: s.remaining_space - size,
                ..s
            };
            self.put_package(acc, p);
        } else {
            if s.used_space < size {
                return Err(DispatchError::Module(Error::Overflow));
            }
            let used = s.used_space - size;
            let p = PackageDetails { used_space: used, remaining_space: s.space - used, ..s };
            self.put_package(acc, p);
        }
        Ok(())
    }

    /// Records a new package of `space` bytes for `acc`, bought now for
    /// `month` months.
    pub fn add_puchased_package<E: Config>(
        &mut self,
        env: &E,
        acc: AccountId,
        space: u128,
        month: u32,
        package_type: u8,
    ) -> (r: DispatchResult)
        requires
            old(self).wf(),
        ensures
            final(self).wf(),
            match new_package(
                env.spec_block_number(),
                old(self).one_day,
                old(self).string_limit,
                space,
                month,
                package_type,
            ) {
                Ok(p) => {
                    &&& r is Ok
                    &&& final(self).purchased_package@ == old(self).purchased_package@.insert(acc, p)
                    &&& old(self).keeps(final(self), touching(false, false, false, false, false, false, true, false))
                },
                Err(e) => r == Err::<(), DispatchError>(DispatchError::Module(e)) && *final(self)
                    == *old(self),
            },
    {
        let now = env.block_number();
        let sur_block = match month.checked_mul(30) {
            Some(m) => match m.checked_mul(self.one_day) {
                Some(b) => b,
                None => return Err(DispatchError::Module(Error::Overflow)),
            },
            None => return Err(DispatchError::Module(Error::Overflow)),
        };
        assert(sur_block == month * 30 * self.one_day);
        let deadline = match now.checked_add(sur_block) {
            Some(d) => d,
            None => return Err(DispatchError::Module(Error::Overflow)),
        };
        if self.string_limit < 6 {
            return Err(DispatchError::Module(Error::BoundedVecError));
        }
        let info = PackageDetails {
            space,
            used_space: 0,
            remaining_space: space,
            tenancy: month,
            package_type,
            start: now,
            deadline,
            state: PackageState::Normal,
        };
        self.put_package(acc, info);
        Ok(())
    }

    /// Adds a month to the package of `acc`.
    pub fn update_puchased_package<E: Config>(&mut self, env: &E, acc: AccountId) -> (r:
        DispatchResult)
        requires
            old(self).wf(),
        ensures
            final(self).wf(),
            match old(self).package_of(acc) {
                None => r == Err::<(), DispatchError>(DispatchError::Module(Error::NotPurchasedPackage))
                    && *final(self) == *old(self),
                Some(p) => match renewed(p, env.spec_block_number(), old(self).one_day) {
                    Ok(q) => {
                        &&& r is Ok
                        &&& final(self).purchased_package@ == old(self).purchased_package@.insert(acc, q)
                        &&& old(self).keeps(final(self), touching(false, false, false, false, false, false, true, false))
                    },
                    Err(e) => r == Err::<(), DispatchError>(DispatchError::Module(e)) && *final(self)
                        == *old(self),
                },
            },
    {
        let s = match self.purchased_package.get(&acc) {
            Some(s) => *s,
            None => return Err(DispatchError::Module(Error::NotPurchasedPackage)),
        };
        assert(package_wf(s));
        let now = env.block_number();
        let sur_block = match self.one_day.checked_mul(30) {
            Some(b) => b,
            None => return Err(DispatchError::Module(Error::Overflow)),
        };
        let p = if now > s.deadline {
            let deadline = match now.checked_add(sur_block) {
                Some(d) => d,
                None => return Err(DispatchError::Module(Error::Overflow)),
            };
            PackageDetails { start: now, deadline, ..s }
        } else {
            let deadline = match s.deadline.checked_add(sur_block) {
                Some(d) => d,
                None => return Err(DispatchError::Module(Error::Overflow)),
            };
            PackageDetails { deadline, ..s }
        };
        self.put_package(acc, p);
        Ok(())
    }

    /// Grows the package of `acc` to `space` bytes of the given type.
    pub fn expension_puchased_package(&mut self, acc: AccountId, space: u128, package_type: u8) -> (r:
        DispatchResult)
        requires
            old(self).wf(),
        ensures
            final(self).wf(),
            match old(self).package_of(acc) {
                None => r == Err::<(), DispatchError>(DispatchError::Module(Error::NotPurchasedPackage))
                    && *final(self) == *old(self),
                Some(p) => match expanded(p, space, package_type) {
                    Ok(q) => {
                        &&& r is Ok
                        &&& final(self).purchased_package@ == old(self).purchased_package@.insert(acc, q)
                        &&& old(self).keeps(final(self), touching(false, false, false, false, false, false, true, false))
                    },
                    Err(e) => r == Err::<(), DispatchError>(DispatchError::Module(e)) && *final(self)
                        == *old(self),
                },
            },
    {
        let s = match self.purchased_package.get(&acc) {
            Some(s) => *s,
            None => return Err(DispatchError::Module(Error::NotPurchasedPackage)),
        };
        assert(package_wf(s));
        let gain = match space.checked_sub(s.space) {
            Some(g) => g,
            None => return Err(DispatchError::Module(Error::Overflow)),
        };
        let remaining = match s.remaining_space.checked_add(gain) {
            Some(x) => x,
            None => return Err(DispatchError::Module(Error::Overflow)),
        };
        let p = PackageDetails { remaining_space: remaining, space, package_type, ..s };
        self.put_package(acc, p);
        Ok(())
    }

    /// What `buy_package` does, where the runtime is `env0` before and
    /// `env1` after: the package recorded, then the space bought added to the
    /// purchased space and the fee moved from the buyer to the file bank's
    /// account.
    pub open spec fn buy_package_post<E: Config>(
        old: Pallet,
        new: Pallet,
        env0: E,
        env1: E,
        origin: Origin,
        package_type: u8,
        count: u128,
        r: DispatchResult,
    ) -> bool {
        let e0 = env0.spec_effects()@;
        let e1 = env1.spec_effects()@;
        match origin {
            Origin::Signed(s) => match buy_plan(
                old,
                env0.spec_block_number(),
                env0.spec_total_space(),
                s,
                package_type,
                count,
            ) {
                Err(e) => r == Err::<(), DispatchError>(e) && new == old && env1 == env0,
                Ok((pkg, space, m)) => {
                    let added = e0.push(Effect::AddPurchasedSpace(space));
                    &&& new.purchased_package@ == old.purchased_package@.insert(s, pkg)
                    &&& old.keeps(&new, touching(false, false, false, false, false, false, true, true))
                    &&& e1 == added || (fee_of(space, m) is Some && e1 == added.push(
                        Effect::Transfer(s, env0.spec_pallet_account(), fee_of(space, m)->0),
                    ))
                    &&& fee_of(space, m) is None ==> r is Err && e1 == added
                    &&& r is Ok ==> {
                        &&& fee_of(space, m) is Some
                        &&& e1 == added.push(Effect::Transfer(s, env0.spec_pallet_account(), fee_of(space, m)->0))
                        &&& new.events_view() == old.events_view().push(
                            EventView::BuyPackage { acc: s, size: space, fee: fee_of(space, m)->0 },
                        )
                    }
                    &&& r is Err ==> new.events == old.events
                },
            },
            _ => r == Err::<(), DispatchError>(DispatchError::BadOrigin) && new == old && env1 == env0,
        }
    }

    /// Buys a package of the given type for the signer: type 1 is ten free
    /// gibibytes; 2 to 4 are 500 gibibytes, one tebibyte, and one tebibyte
    /// priced as five; 5 is `count` tebibytes, at least five.  The package runs
    /// for a month; its fee goes to the file bank's account.
    pub fn buy_package<E: Config>(
        &mut self,
        env: &mut E,
        origin: Origin,
        package_type: u8,
        count: u128,
    ) -> (r: DispatchResult)
        requires
            old(self).wf(),
            match origin {
                Origin::Signed(s) => !old(self).purchased_package@.contains_key(s) ==> count_fits(package_type, count),
                _ => true,
            },
        ensures
            final(self).wf(),
            Self::buy_package_post(*old(self), *final(self), *old(env), *final(env), origin, package_type, count, r),
    {
        let sender = ensure_signed(origin)?;
        if self.purchased_package.contains_key(&sender) {
            return Err(DispatchError::Module(Error::PurchasedPackage));
        }
        let (space, m_unit_price) = package_offer(&*env, package_type, count)?;
        self.add_puchased_package(&*env, sender, space, 1, package_type)?;
        let ghost e0 = env.spec_effects()@;
        let ghost acc0 = env.spec_pallet_account();
        let added = env.add_purchased_space(space);
        proof {
            assert(env.spec_effects()@ == e0.push(Effect::AddPurchasedSpace(space)));
        }
        added?;
        let price = fee_for(space, m_unit_price)?;
        let acc = env.pallet_account();
        assert(acc == acc0);
        let paid = env.transfer(sender, acc, price);
        proof {
            assert(env.spec_effects()@ == e0.push(Effect::AddPurchasedSpace(space)).push(
                Effect::Transfer(sender, acc0, price),
            ));
        }
        paid?;
        self.deposit_event(Event::BuyPackage { acc: sender, size: space, fee: price });
        Ok(())
    }

    /// Upgrades the signer's package to the given type and count (see
    /// `buy_package`), charging the difference of the two monthly fees for the
    /// days that are left of the lease, rounded up.
    pub fn upgrade_package<E: Config>(
        &mut self,
        env: &mut E,
        origin: Origin,
        package_type: u8,
        count: u128,
    ) -> (r: DispatchResult)
        requires
            old(self).wf(),
            match origin {
                Origin::Signed(s) => match old(self).package_of(s) {
                    Some(cur) => upgrade_reaches_offer(
                        cur,
                        old(env).spec_block_number(),
                        package_type,
                        old(env).spec_total_space(),
                    ) ==> count_fits(package_type, count),
                    None => true,
                },
                _ => true,
            },
        ensures
            final(self).wf(),
            match origin {
                Origin::Signed(s) => match old(self).package_of(s) {
                    None => r == Err::<(), DispatchError>(
                        DispatchError::Module(Error::NotPurchasedPackage),
                    ) && *final(self) == *old(self) && *final(env) == *old(env),
                    Some(cur) => match upgrade_quote(
                        cur,
                        old(env).spec_block_number(),
                        old(self).one_day,
                        package_type,
                        count,
                        old(env).spec_total_space(),
                    ) {
                        Err(e) => r == Err::<(), DispatchError>(e) && *final(self) == *old(self)
                            && *final(env) == *old(env),
                        Ok((space, fee, added)) => {
                            let e0 = old(env).spec_effects()@;
                            let e1 = final(env).spec_effects()@;
                            let grown = e0.push(Effect::AddPurchasedSpace(added));
                            let paid = grown.push(Effect::Transfer(s, old(env).spec_pallet_account(), fee));
                            &&& old(self).keeps(final(self), touching(false, false, false, false, false, false, true, true))
                            &&& e1 == grown || (expanded(cur, space, package_type) is Ok && e1 == paid)
                            &&& expanded(cur, space, package_type) is Err ==> r is Err && *final(self) == *old(self)
                                && e1 == grown
                            &&& r is Ok ==> {
                                &&& expanded(cur, space, package_type) is Ok
                                &&& e1 == paid
                                &&& final(self).purchased_package@ == old(self).purchased_package@.insert(
                                    s,
                                    expanded(cur, space, package_type)->Ok_0,
                                )
                                &&& final(self).events_view() == old(self).events_view().push(
                                    EventView::PackageUpgrade {
                                        acc: s,
                                        old_type: cur.package_type,
                                        new_type: package_type,
                                        fee,
                                    },
                                )
                            }
                            &&& r is Err ==> final(self).events == old(self).events
                            &&& final(self).purchased_package@ == old(self).purchased_package@
                                || final(self).purchased_package@
                                == old(self).purchased_package@.insert(
                                s,
                                expanded(cur, space, package_type)->Ok_0,
                            )
                        },
                    },
                },
                _ => r == Err::<(), DispatchError>(DispatchError::BadOrigin) && *final(self)
                    == *old(self) && *final(env) == *old(env),
            },
    {
        let sender = ensure_signed(origin)?;
        let cur_package = match self.purchased_package.get(&sender) {
            Some(p) => *p,
            None => return Err(DispatchError::Module(Error::NotPurchasedPackage)),
        };
        let now = env.block_number();
        let (space, price, added) = quote_upgrade(
            &*env,
            cur_package,
            now,
            self.one_day,
            package_type,
            count,
        )?;
        let ghost e0 = env.spec_effects()@;
        let ghost acc0 = env.spec_pallet_account();
        let grown = env.add_purchased_space(added);
        assert(env.spec_effects()@ == e0.push(Effect::AddPurchasedSpace(added)));
        grown?;
        self.expension_puchased_package(sender, space, package_type)?;
        let acc = env.pallet_account();
        assert(acc == acc0);
        let paid = env.transfer(sender, acc, price);
        assert(env.spec_effects()@ == e0.push(Effect::AddPurchasedSpace(added)).push(
            Effect::Transfer(sender, acc0, price),
        ));
        paid?;
        self.deposit_event(
            Event::PackageUpgrade {
                acc: sender,
                old_type: cur_package.package_type,
                new_type: package_type,
                fee: price,
            },
        );
        Ok(())
    }

    /// Renews the signer's package for another month at its current price.
    pub fn renewal_package<E: Config>(&mut self, env: &mut E, origin: Origin) -> (r:
        DispatchResult)
        requires
            old(self).wf(),
        ensures
            final(self).wf(),
            match origin {
                Origin::Signed(s) => match old(self).package_of(s) {
                    None => r == Err::<(), DispatchError>(
                        DispatchError::Module(Error::NotPurchasedPackage),
                    ) && *final(self) == *old(self) && *final(env) == *old(env),
                    Some(cur) => match renewal_fee(cur, old(env).spec_total_space()) {
                        Err(e) => r == Err::<(), DispatchError>(e) && *final(self) == *old(self)
                            && *final(env) == *old(env),
                        Ok(fee) => {
                            &&& final(env).spec_effects()@ == old(env).spec_effects()@.push(
                                Effect::Transfer(s, old(env).spec_pallet_account(), fee),
                            )
                            &&& renewed(cur, old(env).spec_block_number(), old(self).one_day) is Err ==> r is Err
                            &&& old(self).keeps(final(self), touching(false, false, false, false, false, false, true, true))
                            &&& r is Ok ==> {
                                &&& renewed(cur, old(env).spec_block_number(), old(self).one_day) is Ok
                                &&& final(self).purchased_package@ == old(self).purchased_package@.insert(
                                    s,
                                    renewed(cur, old(env).spec_block_number(), old(self).one_day)->Ok_0,
                                )
                                &&& final(self).events_view() == old(self).events_view().push(
                                    EventView::PackageRenewal {
                                        acc: s,
                                        package_type: cur.package_type,
                                        fee,
                                    },
                                )
                            }
                            &&& r is Err ==> final(self).events == old(self).events
                                && *final(self) == *old(self)
                        },
                    },
                },
                _ => r == Err::<(), DispatchError>(DispatchError::BadOrigin) && *final(self)
                    == *old(self) && *final(env) == *old(env),
            },
    {
        let sender = ensure_signed(origin)?;
        let cur_package = match self.purchased_package.get(&sender) {
            Some(p) => *p,
            None => return Err(DispatchError::Module(Error::NotPurchasedPackage)),
        };
        let price: Balance = quote_renewal(&*env, cur_package)?;
        let acc = env.pallet_account();
        env.transfer(sender, acc, price)?;
        self.update_puchased_package(&*env, sender)?;
        self.deposit_event(
            Event::PackageRenewal {
                acc: sender,
                package_type: cur_package.package_type,
                fee: price,
            },
        );
        Ok(())
    }
}

} // verus!
