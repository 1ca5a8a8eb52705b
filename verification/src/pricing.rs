//! Prices of storage packages.
use vstd::prelude::*;
use crate::config::Config;
use crate::pallet::{G_BYTE, T_BYTE};
use crate::types::{BlockNumber, DispatchError, Error, PackageDetails, PackageState};

verus! {

/// The price of one mebibyte when `buy_space` bytes are bought out of the
/// `total_space` bytes that the miners offer:
/// `buy_space * 10^16 / total_space + 10^15`.
pub open spec fn price_of(buy_space: u128, total_space: u128) -> Result<u128, DispatchError> {
    if total_space == 0 {
        Err(DispatchError::Module(Error::IsZero))
    } else if buy_space * 1_000_000_000_000 > u128::MAX || buy_space * 1_000_000_000_000 * 10_000
        > u128::MAX {
        Err(DispatchError::Module(Error::Overflow))
    } else if buy_space * 10_000_000_000_000_000 / total_space as int + 1_000_000_000_000_000
        > u128::MAX {
        Err(DispatchError::Module(Error::Overflow))
    } else {
        Ok((buy_space * 10_000_000_000_000_000 / total_space as int + 1_000_000_000_000_000) as u128)
    }
}

/// `price_of` where the total space comes from a query that may fail.
pub open spec fn price_from(buy_space: u128, total: Result<u128, DispatchError>) -> Result<
    u128,
    DispatchError,
> {
    match total {
        Ok(t) => price_of(buy_space, t),
        Err(e) => Err(e),
    }
}

/// The fee for `space` bytes at `m_unit_price` per mebibyte, counted in whole
/// gibibytes at a 1024th of the mebibyte price each; `None` on overflow.
pub open spec fn fee_of(space: u128, m_unit_price: u128) -> Option<u128> {
    let units = space / G_BYTE;
    let g_price = m_unit_price / 1024;
    if units * g_price > u128::MAX {
        None
    } else {
        Some((units * g_price) as u128)
    }
}

/// The price of a mebibyte when `buy_space` bytes are bought out of the
/// `total_space` bytes that the miners offer.
pub fn price_for_space(buy_space: u128, total_space: u128) -> (r: Result<u128, DispatchError>)
    ensures
        r == price_of(buy_space, total_space),
{
    if total_space == 0 {
        return Err(DispatchError::Module(Error::IsZero));
    }
    let a = match buy_space.checked_mul(1_000_000_000_000) {
        Some(a) => a,
        None => return Err(DispatchError::Module(Error::Overflow)),
    };
    let b = match a.checked_mul(10_000) {
        Some(b) => b,
        None => return Err(DispatchError::Module(Error::Overflow)),
    };
    assert(b == buy_space * 10_000_000_000_000_000) by (nonlinear_arith)
        requires
            a == buy_space * 1_000_000_000_000,
            b == a * 10_000,
    ;
    let c = b / total_space;
    match c.checked_add(1_000_000_000_000_000) {
        Some(d) => Ok(d),
        None => Err(DispatchError::Module(Error::Overflow)),
    }
}

/// The price of a mebibyte when `buy_space` bytes are bought now.
pub fn get_price<E: Config>(env: &E, buy_space: u128) -> (r: Result<u128, DispatchError>)
    ensures
        r == price_from(buy_space, env.spec_total_space()),
{
    let total_space = env.get_space()?;
    price_for_space(buy_space, total_space)
}

/// The fee for `space` bytes at `m_unit_price` per mebibyte.
pub fn fee_for(space: u128, m_unit_price: u128) -> (r: Result<u128, DispatchError>)
    ensures
        r == match fee_of(space, m_unit_price) {
            Some(f) => Ok::<u128, DispatchError>(f),
            None => Err(DispatchError::Module(Error::Overflow)),
        },
{
    let g_unit_price = m_unit_price / 1024;
    let units = space / G_BYTE;
    match units.checked_mul(g_unit_price) {
        Some(f) => Ok(f),
        None => Err(DispatchError::Module(Error::Overflow)),
    }
}

/// The space of a package of the given type and count, and the price of a
/// mebibyte of it.  Type 1 is ten free gibibytes; types 2 to 4 are 500
/// gibibytes, one tebibyte, and one tebibyte priced as five; type 5 is
/// `count` tebibytes, at least five.
pub open spec fn buy_offer(package_type: u8, count: u128, total: Result<u128, DispatchError>) -> Result<
    (u128, u128),
    DispatchError,
> {
    match package_type {
        1 => Ok(((10 * G_BYTE) as u128, 0)),
        2 => match price_from((500 * G_BYTE) as u128, total) {
            Ok(p) => Ok(((500 * G_BYTE) as u128, p)),
            Err(e) => Err(e),
        },
        3 => match price_from(T_BYTE, total) {
            Ok(p) => Ok((T_BYTE, p)),
            Err(e) => Err(e),
        },
        4 => match price_from((5 * T_BYTE) as u128, total) {
            Ok(p) => Ok((T_BYTE, p)),
            Err(e) => Err(e),
        },
        5 => if count < 5 {
            Err(DispatchError::Module(Error::WrongOperation))
        } else {
            match price_from((count * T_BYTE) as u128, total) {
                Ok(p) => Ok(((count * T_BYTE) as u128, p)),
                Err(e) => Err(e),
            }
        },
        _ => Err(DispatchError::Module(Error::WrongOperation)),
    }
}

/// A package of type 5 and `count` tebibytes has a space that fits in a
/// `u128`.
pub open spec fn count_fits(package_type: u8, count: u128) -> bool {
    package_type == 5 && count >= 5 ==> count * T_BYTE <= u128::MAX
}

/// An upgrade of `cur` to the given type at block `now` gets as far as
/// pricing the new package: the type is no lower, the lease runs and is not
/// frozen, and the current package can be priced.
pub open spec fn upgrade_reaches_offer(
    cur: PackageDetails,
    now: BlockNumber,
    package_type: u8,
    total: Result<u128, DispatchError>,
) -> bool {
    &&& package_type >= cur.package_type
    &&& now <= cur.deadline
    &&& cur.state != PackageState::Frozen
    &&& cur.package_type != 1 ==> price_from(cur.space, total) is Ok
}

/// The space and mebibyte price of the package that `buy_package` sells.
pub fn package_offer<E: Config>(env: &E, package_type: u8, count: u128) -> (r: Result<
    (u128, u128),
    DispatchError,
>)
    requires
        count_fits(package_type, count),
    ensures
        r == buy_offer(package_type, count, env.spec_total_space()),
{
    match package_type {
        1 => Ok(((10 * G_BYTE) as u128, 0)),
        2 => {
            let p = get_price(env, 500 * G_BYTE)?;
            Ok((500 * G_BYTE, p))
        },
        3 => {
            let p = get_price(env, T_BYTE)?;
            Ok((T_BYTE, p))
        },
        4 => {
            let p = get_price(env, 5 * T_BYTE)?;
            Ok((T_BYTE, p))
        },
        5 => {
            if count < 5 {
                return Err(DispatchError::Module(Error::WrongOperation));
            }
            let space = count * T_BYTE;
            let p = get_price(env, space)?;
            Ok((space, p))
        },
        _ => Err(DispatchError::Module(Error::WrongOperation)),
    }
}

/// The space and mebibyte price of the package that an upgrade to the given
/// type and count leads to: 500 gibibytes, one tebibyte, five tebibytes, or
/// `count` tebibytes (at least five).  Type 1 and unknown types are refused.
pub open spec fn upgrade_offer(package_type: u8, count: u128, total: Result<u128, DispatchError>) -> Result<
    (u128, u128),
    DispatchError,
> {
    match package_type {
        2 => match price_from((500 * G_BYTE) as u128, total) {
            Ok(p) => Ok(((500 * G_BYTE) as u128, p)),
            Err(e) => Err(e),
        },
        3 => match price_from(T_BYTE, total) {
            Ok(p) => Ok((T_BYTE, p)),
            Err(e) => Err(e),
        },
        4 => match price_from((5 * T_BYTE) as u128, total) {
            Ok(p) => Ok(((5 * T_BYTE) as u128, p)),
            Err(e) => Err(e),
        },
        5 => if count < 5 {
            Err(DispatchError::Module(Error::WrongOperation))
        } else {
            match price_from((count * T_BYTE) as u128, total) {
                Ok(p) => Ok(((count * T_BYTE) as u128, p)),
                Err(e) => Err(e),
            }
        },
        _ => Err(DispatchError::Module(Error::WrongOperation)),
    }
}

/// The whole days, rounded up, from `now` to `deadline`.
pub open spec fn days_left(deadline: BlockNumber, now: BlockNumber, one_day: BlockNumber) -> int {
    let diff = deadline - now;
    if diff % one_day as int != 0 {
        diff / one_day as int + 1
    } else {
        diff / one_day as int
    }
}

/// What an upgrade of the package `cur` costs at block `now`: the new space,
/// the fee, and the space added.  The fee is the difference of the two
/// packages' monthly fees, per day (a 30th), times the days left, rounded up.
pub open spec fn upgrade_quote(
    cur: PackageDetails,
    now: BlockNumber,
    one_day: BlockNumber,
    package_type: u8,
    count: u128,
    total: Result<u128, DispatchError>,
) -> Result<(u128, u128, u128), DispatchError> {
    let cur_price_r: Result<u128, DispatchError> = if cur.package_type == 1 {
        Ok(0)
    } else {
        price_from(cur.space, total)
    };
    if package_type < cur.package_type {
        Err(DispatchError::Module(Error::WrongOperation))
    } else if now > cur.deadline {
        Err(DispatchError::Module(Error::LeaseExpired))
    } else if cur.state == PackageState::Frozen {
        Err(DispatchError::Module(Error::LeaseFreeze))
    } else if cur_price_r is Err {
        Err(cur_price_r->Err_0)
    } else if upgrade_offer(package_type, count, total) is Err {
        Err(upgrade_offer(package_type, count, total)->Err_0)
    } else {
        let (space, up_m) = upgrade_offer(package_type, count, total)->Ok_0;
        let cur_fee = fee_of(cur.space, cur_price_r->Ok_0);
        let up_fee = fee_of(space, up_m);
        if cur_fee is None || up_fee is None || up_fee->0 < cur_fee->0 || one_day == 0 {
            Err(DispatchError::Module(Error::Overflow))
        } else {
            let per_day = (up_fee->0 - cur_fee->0) / 30;
            let fee = per_day * days_left(cur.deadline, now, one_day);
            if fee > u128::MAX || space < cur.space {
                Err(DispatchError::Module(Error::Overflow))
            } else {
                Ok((space, fee as u128, (space - cur.space) as u128))
            }
        }
    }
}

/// The upgrade offer of `upgrade_package`.
pub fn upgrade_price<E: Config>(env: &E, package_type: u8, count: u128) -> (r: Result<
    (u128, u128),
    DispatchError,
>)
    requires
        count_fits(package_type, count),
    ensures
        r == upgrade_offer(package_type, count, env.spec_total_space()),
{
    match package_type {
        2 => {
            let p = get_price(env, 500 * G_BYTE)?;
            Ok((500 * G_BYTE, p))
        },
        3 => {
            let p = get_price(env, T_BYTE)?;
            Ok((T_BYTE, p))
        },
        4 => {
            let p = get_price(env, 5 * T_BYTE)?;
            Ok((5 * T_BYTE, p))
        },
        5 => {
            if count < 5 {
                return Err(DispatchError::Module(Error::WrongOperation));
            }
            let space = count * T_BYTE;
            let p = get_price(env, space)?;
            Ok((space, p))
        },
        _ => Err(DispatchError::Module(Error::WrongOperation)),
    }
}

/// What `upgrade_package` charges for an upgrade of `cur` at block `now`.
pub fn quote_upgrade<E: Config>(
    env: &E,
    cur: PackageDetails,
    now: BlockNumber,
    one_day: BlockNumber,
    package_type: u8,
    count: u128,
) -> (r: Result<(u128, u128, u128), DispatchError>)
    requires
        upgrade_reaches_offer(cur, now, package_type, env.spec_total_space()) ==> count_fits(package_type, count),
    ensures
        r == upgrade_quote(cur, now, one_day, package_type, count, env.spec_total_space()),
{
    if package_type < cur.package_type {
        return Err(DispatchError::Module(Error::WrongOperation));
    }
    if now > cur.deadline {
        return Err(DispatchError::Module(Error::LeaseExpired));
    }
    if cur.state == PackageState::Frozen {
        return Err(DispatchError::Module(Error::LeaseFreeze));
    }
    let cur_byte_unit_price = if cur.package_type == 1 {
        0
    } else {
        get_price(env, cur.space)?
    };
    let (space, up_byte_unit_price) = upgrade_price(env, package_type, count)?;
    let cur_price = fee_for(cur.space, cur_byte_unit_price)?;
    let up_price = fee_for(space, up_byte_unit_price)?;
    let diff = match up_price.checked_sub(cur_price) {
        Some(d) => d,
        None => return Err(DispatchError::Module(Error::Overflow)),
    };
    let diff_day_price = diff / 30;
    let diff_block = cur.deadline - now;
    if one_day == 0 {
        return Err(DispatchError::Module(Error::Overflow));
    }
    let mut remain_day = diff_block / one_day;
    if diff_block % one_day != 0 {
        assert(remain_day < u32::MAX) by (nonlinear_arith)
            requires
                remain_day == diff_block / one_day,
                diff_block % one_day != 0,
                one_day > 0,
        ;
        remain_day = remain_day + 1;
    }
    assert(remain_day == days_left(cur.deadline, now, one_day));
    let price = match diff_day_price.checked_mul(remain_day as u128) {
        Some(p) => p,
        None => return Err(DispatchError::Module(Error::Overflow)),
    };
    let added = match space.checked_sub(cur.space) {
        Some(a) => a,
        None => return Err(DispatchError::Module(Error::Overflow)),
    };
    Ok((space, price, added))
}

/// What `renewal_package` charges for another month of `cur`.
pub open spec fn renewal_fee(cur: PackageDetails, total: Result<u128, DispatchError>) -> Result<
    u128,
    DispatchError,
> {
    let m: Result<u128, DispatchError> = if cur.package_type == 1 {
        Ok(0)
    } else {
        price_from(cur.space, total)
    };
    match m {
        Err(e) => Err(e),
        Ok(m) => match fee_of(cur.space, m) {
            Some(f) => Ok(f),
            None => Err(DispatchError::Module(Error::Overflow)),
        },
    }
}

/// The fee of another month of `cur`.
pub fn quote_renewal<E: Config>(env: &E, cur: PackageDetails) -> (r: Result<u128, DispatchError>)
    ensures
        r == renewal_fee(cur, env.spec_total_space()),
{
    let m_unit_price = if cur.package_type == 1 {
        0
    } else {
        get_price(env, cur.space)?
    };
    fee_for(cur.space, m_unit_price)
}

} // verus!
