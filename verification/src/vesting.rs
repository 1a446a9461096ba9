use vstd::prelude::*;
use crate::error::ContractError;
use crate::state::{AddrId, StakeEntry, StakingInfo};

verus! {

/// Number of fully completed vesting periods in `elapsed` seconds: floor
/// division. A partial period earns nothing until it completes.
pub open spec fn periods_of(elapsed: int, period_length: int) -> int {
    elapsed / period_length
}

/// Whole-period bounds: the periods counted in `elapsed` cover at most
/// `elapsed` seconds, and what they leave over is shorter than one period.
pub proof fn lemma_periods_bounds(elapsed: int, period_length: int)
    requires
        period_length > 0,
        elapsed >= 0,
    ensures
        0 <= periods_of(elapsed, period_length),
        periods_of(elapsed, period_length) * period_length <= elapsed,
        elapsed - periods_of(elapsed, period_length) * period_length < period_length,
{
    vstd::arithmetic::div_mod::lemma_fundamental_div_mod(elapsed, period_length);
    vstd::arithmetic::div_mod::lemma_mod_division_less_than_divisor(elapsed, period_length);
    vstd::arithmetic::div_mod::lemma_div_pos_is_pos(elapsed, period_length);
    let p = periods_of(elapsed, period_length);
    let r = elapsed % period_length;
    assert(elapsed == period_length * p + r);
    assert(period_length * p == p * period_length) by (nonlinear_arith);
}

/// Advancing the sync point by the periods just counted leaves less than
/// one period of remainder, so a second computation at the same time vests
/// zero further periods.
pub proof fn lemma_vesting_idempotent(synced_at: u64, now: u64, period_length: u64)
    requires
        period_length > 0,
        synced_at <= now,
    ensures
        ({
            let p = periods_of(now - synced_at, period_length as int);
            let synced2 = synced_at + p * period_length;
            synced2 <= now && periods_of(now - synced2, period_length as int) == 0
        }),
{
    let p = periods_of(now - synced_at, period_length as int);
    lemma_periods_bounds(now - synced_at, period_length as int);
    vstd::arithmetic::div_mod::lemma_basic_div(
        now - (synced_at + p * period_length),
        period_length as int,
    );
}

/// The vesting engine: turns elapsed time since the record's sync point
/// into owed reward units. Pure; callers persist the updated record.
///
/// On success returns `(amount_owed, periods_elapsed, updated_record)`:
/// each completed period is owed exactly `reward_per_period`, the sync
/// point advances by whole periods only (any sub-period remainder stays
/// for the next computation), and the cumulative vested-period counter
/// grows by the periods just counted. Fails with `ArithmeticOverflow`
/// exactly when the owed amount or the new counter would exceed its range;
/// it then leaves no trace, as nothing is mutated.
pub fn compute_vesting(
    record: &StakingInfo,
    now: u64,
    period_length: u64,
    reward_per_period: u128,
) -> (r: Result<(u128, u64, StakingInfo), ContractError>)
    requires
        period_length > 0,
        record.synced_at <= now,
    ensures
        ({
            let p = periods_of(now - record.synced_at, period_length as int);
            &&& (r is Err <==> p * reward_per_period > u128::MAX || record.n_periods_vested + p
                > u32::MAX)
            &&& match r {
                Ok((amount, periods, upd)) => {
                    &&& periods == p
                    &&& amount == p * reward_per_period
                    &&& upd.synced_at == record.synced_at + p * period_length
                    &&& upd.n_periods_vested == record.n_periods_vested + p
                    &&& upd.owner == record.owner
                    &&& upd.staked_at == record.staked_at
                    &&& upd.synced_at <= now
                },
                Err(e) => e == ContractError::ArithmeticOverflow,
            }
        }),
{
    let elapsed: u64 = now - record.synced_at;
    let periods_elapsed: u64 = elapsed / period_length;

    proof {
        lemma_periods_bounds(elapsed as int, period_length as int);
    }

    let amount_owed: u128 = match (periods_elapsed as u128).checked_mul(reward_per_period) {
        Some(v) => v,
        None => {
            return Err(ContractError::ArithmeticOverflow);
        },
    };

    let n_periods_vested: u64 = match (record.n_periods_vested as u64).checked_add(periods_elapsed)
        {
        Some(v) => v,
        None => {
            return Err(ContractError::ArithmeticOverflow);
        },
    };
    if n_periods_vested > u32::MAX as u64 {
        return Err(ContractError::ArithmeticOverflow);
    }

    let updated = StakingInfo {
        staked_at: record.staked_at,
        synced_at: record.synced_at + periods_elapsed * period_length,
        n_periods_vested: n_periods_vested as u32,
        owner: record.owner,
    };
    Ok((amount_owed, periods_elapsed, updated))
}

/// What a claim over the first `n` registry entries computes: the summed
/// amount owed for `owner`'s records and, for each record of `owner` that
/// completed at least one period, its registry index with the updated
/// record. `None` when any step of the computation overflows.
pub open spec fn vest_scan(
    stakes: Seq<StakeEntry>,
    owner: AddrId,
    now: u64,
    period_length: int,
    reward_per_period: u128,
    n: int,
) -> Option<(u128, Seq<(usize, StakingInfo)>)>
    decreases n,
{
    if n <= 0 {
        Some((0u128, Seq::empty()))
    } else {
        match vest_scan(stakes, owner, now, period_length, reward_per_period, n - 1) {
            None => None,
            Some(acc) => {
                let e = stakes[n - 1];
                if e.info.owner == owner {
                    let p = periods_of(now - e.info.synced_at, period_length);
                    if p > 0 {
                        if p * reward_per_period > u128::MAX || e.info.n_periods_vested + p
                            > u32::MAX || acc.0 + p * reward_per_period > u128::MAX {
                            None
                        } else {
                            Some(
                                (
                                    (acc.0 + p * reward_per_period) as u128,
                                    acc.1.push(
                                        (
                                            (n - 1) as usize,
                                            StakingInfo {
                                                staked_at: e.info.staked_at,
                                                synced_at: (e.info.synced_at + p * period_length) as u64,
                                                n_periods_vested: (e.info.n_periods_vested
                                                    + p) as u32,
                                                owner: e.info.owner,
                                            },
                                        ),
                                    ),
                                ),
                            )
                        }
                    } else {
                        Some(acc)
                    }
                } else {
                    Some(acc)
                }
            },
        }
    }
}

/// One unfolding of the scan: what processing entry `i` does to a
/// successful scan of the first `i` entries.
pub proof fn lemma_vest_scan_step(
    stakes: Seq<StakeEntry>,
    owner: AddrId,
    now: u64,
    period_length: int,
    reward_per_period: u128,
    i: int,
    total: u128,
    ups: Seq<(usize, StakingInfo)>,
)
    requires
        0 <= i < stakes.len(),
        vest_scan(stakes, owner, now, period_length, reward_per_period, i) == Some((total, ups)),
    ensures
        ({
            let e = stakes[i];
            let p = periods_of(now - e.info.synced_at, period_length);
            let next = vest_scan(stakes, owner, now, period_length, reward_per_period, i + 1);
            if e.info.owner != owner || p <= 0 {
                next == Some((total, ups))
            } else if p * reward_per_period > u128::MAX || e.info.n_periods_vested + p > u32::MAX
                || total + p * reward_per_period > u128::MAX {
                next is None
            } else {
                next == Some(
                    (
                        (total + p * reward_per_period) as u128,
                        ups.push(
                            (
                                i as usize,
                                StakingInfo {
                                    staked_at: e.info.staked_at,
                                    synced_at: (e.info.synced_at + p * period_length) as u64,
                                    n_periods_vested: (e.info.n_periods_vested + p) as u32,
                                    owner: e.info.owner,
                                },
                            ),
                        ),
                    ),
                )
            }
        }),
{
}

/// Once a prefix of the scan overflows, every longer prefix does too.
pub proof fn lemma_vest_scan_none(
    stakes: Seq<StakeEntry>,
    owner: AddrId,
    now: u64,
    period_length: int,
    reward_per_period: u128,
    n: int,
    m: int,
)
    requires
        0 <= n <= m,
        vest_scan(stakes, owner, now, period_length, reward_per_period, n) is None,
    ensures
        vest_scan(stakes, owner, now, period_length, reward_per_period, m) is None,
    decreases m,
{
    if m > n {
        lemma_vest_scan_none(stakes, owner, now, period_length, reward_per_period, n, m - 1);
    }
}

/// Shape of a successful scan: indices are strictly increasing positions of
/// `owner`'s records below `n`, and each updated record keeps its identity,
/// advances its sync point no further than `now`, and never loses vested
/// periods.
pub proof fn lemma_vest_scan_props(
    stakes: Seq<StakeEntry>,
    owner: AddrId,
    now: u64,
    period_length: int,
    reward_per_period: u128,
    n: int,
    total: u128,
    ups: Seq<(usize, StakingInfo)>,
)
    requires
        period_length > 0,
        0 <= n <= stakes.len(),
        n <= usize::MAX,
        forall|i: int|
            0 <= i < stakes.len() ==> (#[trigger] stakes[i]).info.synced_at <= now,
        vest_scan(stakes, owner, now, period_length, reward_per_period, n) == Some((total, ups)),
    ensures
        forall|m: int| 0 <= m < ups.len() ==> 0 <= (#[trigger] ups[m]).0 < n,
        forall|m1: int, m2: int|
            0 <= m1 < m2 < ups.len() ==> (#[trigger] ups[m1]).0 < (#[trigger] ups[m2]).0,
        forall|m: int|
            0 <= m < ups.len() ==> {
                let e = stakes[(#[trigger] ups[m]).0 as int];
                &&& ups[m].1.owner == e.info.owner
                &&& e.info.owner == owner
                &&& ups[m].1.staked_at == e.info.staked_at
                &&& e.info.synced_at <= ups[m].1.synced_at <= now
                &&& e.info.n_periods_vested <= ups[m].1.n_periods_vested
            },
    decreases n,
{
    if n > 0 {
        let prev = vest_scan(stakes, owner, now, period_length, reward_per_period, n - 1);
        let acc0 = prev->Some_0;
        assert(prev == Some((acc0.0, acc0.1)));
        lemma_vest_scan_props(
            stakes,
            owner,
            now,
            period_length,
            reward_per_period,
            n - 1,
            acc0.0,
            acc0.1,
        );
        let e = stakes[n - 1];
        if e.info.owner == owner {
            let p = periods_of(now - e.info.synced_at, period_length);
            if p > 0 {
                lemma_periods_bounds(now - e.info.synced_at, period_length);
                vstd::arithmetic::mul::lemma_mul_nonnegative(p, period_length);
                assert(ups.drop_last() =~= acc0.1);
                assert(ups.last().0 == n - 1);
            }
        }
    }
}

} // verus!
