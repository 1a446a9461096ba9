use vstd::prelude::*;
use crate::error::ContractError;
use crate::math::{add_u128, add_u32};
use crate::msg::{Cw721ReceiveInnerMsg, ExecuteMsg};
use crate::responses::{ExecResponse, NftReturn, Transfer};
use crate::state::{
    claimed_of, count_owned, has_account, has_stake, key_matches, lemma_claimed_of_absent,
    lemma_claimed_of_member, lemma_claimed_of_push, lemma_claimed_of_update,
    lemma_count_owned_bounds, lemma_count_owned_member, lemma_count_owned_pos_member,
    lemma_count_owned_push, lemma_count_owned_remove, lemma_count_owned_same_owners,
    lemma_found_is_stake_idx, lemma_sum_claimed_push, lemma_sum_claimed_update,
    lemma_sum_counts_push, lemma_sum_counts_update, stake_idx, vest_nfts, AccountEntry,
    AccountInfo, AddrId, StakeEntry, StakingInfo, State,
};
use crate::vesting::{
    compute_vesting, lemma_periods_bounds, lemma_vest_scan_props, periods_of, vest_scan,
};

verus! {

/// Some element of `ups` before position `bound` names registry index `k`.
pub open spec fn updated_before(ups: Seq<(usize, StakingInfo)>, bound: int, k: int) -> bool {
    exists|m: int| 0 <= m < bound && (#[trigger] ups[m]).0 == k
}

/// Some element of `ups` names registry index `k`.
pub open spec fn is_updated_idx(ups: Seq<(usize, StakingInfo)>, k: int) -> bool {
    updated_before(ups, ups.len() as int, k)
}

/// The record that a withdrawal of (collection, item) acts on; meaningful
/// only when `has_stake` holds of the state.
pub open spec fn unstake_rec(s: State, cw721_addr: AddrId, token_id: Seq<char>) -> StakingInfo {
    s.staking_infos@[stake_idx(s.staking_infos@, cw721_addr, token_id)].info
}

/// Whole periods that withdrawal of this record at time `now` would vest.
pub open spec fn unstake_periods(s: State, cw721_addr: AddrId, token_id: Seq<char>, now: u64) -> int {
    periods_of(
        now - unstake_rec(s, cw721_addr, token_id).synced_at,
        s.config.vesting_period_seconds as int,
    )
}

/// Reward units that withdrawal of this record at time `now` would owe.
pub open spec fn unstake_amount(s: State, cw721_addr: AddrId, token_id: Seq<char>, now: u64) -> int {
    unstake_periods(s, cw721_addr, token_id, now) * s.config.rewards_amount
}

/// The vesting computation for this record at `now` overflows a counter or
/// the reward range.
pub open spec fn vest_overflows(s: State, cw721_addr: AddrId, token_id: Seq<char>, now: u64) -> bool {
    unstake_amount(s, cw721_addr, token_id, now) > u128::MAX || unstake_rec(
        s,
        cw721_addr,
        token_id,
    ).n_periods_vested + unstake_periods(s, cw721_addr, token_id, now) > u32::MAX
}

/// The record's cumulative vested periods after the computation at `now`.
pub open spec fn vested_after(s: State, cw721_addr: AddrId, token_id: Seq<char>, now: u64) -> int {
    unstake_rec(s, cw721_addr, token_id).n_periods_vested + unstake_periods(
        s,
        cw721_addr,
        token_id,
        now,
    )
}

/// Index of the entry for the given (collection, item) key, if one exists.
fn find_stake(stakes: &Vec<StakeEntry>, cw721_addr: AddrId, token_id: &String) -> (r: Option<
    usize,
>)
    ensures
        match r {
            Some(i) => i < stakes@.len() && key_matches(stakes@[i as int], cw721_addr, token_id@),
            None => !has_stake(stakes@, cw721_addr, token_id@),
        },
{
    let n: usize = stakes.len();
    let mut i: usize = 0;
    while i < n
        invariant
            i <= n,
            n == stakes@.len(),
            forall|j: int| 0 <= j < i ==> !key_matches(#[trigger] stakes@[j], cw721_addr, token_id@),
        decreases n - i,
    {
        if stakes[i].cw721_addr == cw721_addr && stakes[i].token_id == *token_id {
            return Some(i);
        }
        i += 1;
    }
    None
}

/// Index of the ledger entry for the given account, if one exists.
fn find_account(accounts: &Vec<AccountEntry>, addr: AddrId) -> (r: Option<usize>)
    ensures
        match r {
            Some(i) => i < accounts@.len() && accounts@[i as int].addr == addr,
            None => !has_account(accounts@, addr),
        },
{
    let n: usize = accounts.len();
    let mut i: usize = 0;
    while i < n
        invariant
            i <= n,
            n == accounts@.len(),
            forall|j: int| 0 <= j < i ==> (#[trigger] accounts@[j]).addr != addr,
        decreases n - i,
    {
        if accounts[i].addr == addr {
            return Some(i);
        }
        i += 1;
    }
    None
}

/// Whether the collection is on the allow list.
fn is_allowed(allowed: &Vec<AddrId>, addr: AddrId) -> (r: bool)
    ensures
        r == allowed@.contains(addr),
{
    let n: usize = allowed.len();
    let mut i: usize = 0;
    while i < n
        invariant
            i <= n,
            n == allowed@.len(),
            forall|j: int| 0 <= j < i ==> allowed@[j] != addr,
        decreases n - i,
    {
        if allowed[i] == addr {
            assert(allowed@[i as int] == addr);
            return true;
        }
        i += 1;
    }
    assert(!allowed@.contains(addr));
    false
}

/// The whole postcondition of a deposit of item `token_id` of collection
/// `cw721_addr` by `staker_addr` at time `now`: `pre` is the state before
/// the operation, `post` the state after, `r` its result. The dispatcher
/// promises it verbatim for `ReceiveNft` commands.
pub open spec fn deposit_post(
    pre: State,
    post: State,
    now: u64,
    cw721_addr: AddrId,
    staker_addr: AddrId,
    token_id: Seq<char>,
    r: Result<ExecResponse, ContractError>,
) -> bool {
    &&& post.wf()
    &&& (r is Err ==> post == pre)
    &&& (r == Err::<ExecResponse, ContractError>(ContractError::Unauthorized) <==> !(
    pre.config.allowed_cw721_addrs@.contains(cw721_addr) && pre.is_staking_enabled))
    &&& (r == Err::<ExecResponse, ContractError>(ContractError::AlreadyStaked) <==> (
    pre.config.allowed_cw721_addrs@.contains(cw721_addr) && pre.is_staking_enabled && has_stake(
        pre.staking_infos@,
        cw721_addr,
        token_id,
    )))
    &&& (r == Err::<ExecResponse, ContractError>(ContractError::ArithmeticOverflow) <==> (
    pre.config.allowed_cw721_addrs@.contains(cw721_addr) && pre.is_staking_enabled && !has_stake(
        pre.staking_infos@,
        cw721_addr,
        token_id,
    ) && (count_owned(pre.staking_infos@, staker_addr) + 1 > u32::MAX || pre.staked_nft_count + 1
        > u32::MAX)))
    &&& (r is Ok <==> (pre.config.allowed_cw721_addrs@.contains(cw721_addr)
        && pre.is_staking_enabled && !has_stake(pre.staking_infos@, cw721_addr, token_id)
        && count_owned(pre.staking_infos@, staker_addr) + 1 <= u32::MAX && pre.staked_nft_count + 1
        <= u32::MAX))
    &&& (r is Ok ==> {
        let s0 = pre.staking_infos@;
        let s1 = post.staking_infos@;
        &&& s1.len() == s0.len() + 1
        &&& (forall|j: int| 0 <= j < s0.len() ==> s1[j] == s0[j])
        &&& s1.last().cw721_addr == cw721_addr
        &&& s1.last().token_id@ == token_id
        &&& s1.last().info == (StakingInfo {
            staked_at: now,
            synced_at: now,
            n_periods_vested: 0,
            owner: staker_addr,
        })
        &&& post.staked_nft_count == pre.staked_nft_count + 1
        &&& (forall|a: AddrId|
            has_account(post.account_infos@, a) <==> (has_account(pre.account_infos@, a) || a
                == staker_addr))
    })
    &&& (match r {
        Ok(resp) => resp.reward_transfer is None && resp.nft_return is None,
        Err(_) => true,
    })
    &&& post.total_rewards_claimed == pre.total_rewards_claimed
    &&& (forall|a: AddrId|
        claimed_of(post.account_infos@, a) == claimed_of(pre.account_infos@, a))
    &&& post.config == pre.config
    &&& post.is_staking_enabled == pre.is_staking_enabled
}

/// Deposit: an allow-listed collection notifies the core that `staker_addr`
/// transferred item `token_id` in, asking to stake it.
///
/// Fails with `Unauthorized` if the collection is not allow-listed or
/// staking is disabled; with `AlreadyStaked` if the item already has an
/// active record; with `ArithmeticOverflow` if a staked-item counter would
/// leave its range. On success a fresh record synced at `now` is added, the
/// staker's and the global staked counts rise by one, and no reward moves.
/// On failure nothing changes.
pub fn exec_cw721_receive(
    state: &mut State,
    now: u64,
    cw721_addr: AddrId,
    staker_addr: AddrId,
    token_id: String,
    inner: Cw721ReceiveInnerMsg,
) -> (r: Result<ExecResponse, ContractError>)
    requires
        old(state).wf(),
    ensures
        deposit_post(*old(state), *final(state), now, cw721_addr, staker_addr, token_id@, r),
{
    if !is_allowed(&state.config.allowed_cw721_addrs, cw721_addr) {
        return Err(ContractError::Unauthorized);
    }
    match inner {
        Cw721ReceiveInnerMsg::Stake {  } => {},
    }
    if !state.is_staking_enabled {
        return Err(ContractError::Unauthorized);
    }
    if find_stake(&state.staking_infos, cw721_addr, &token_id).is_some() {
        return Err(ContractError::AlreadyStaked);
    }

    let acct_idx = find_account(&state.account_infos, staker_addr);
    let old_info: AccountInfo = match acct_idx {
        Some(j) => state.account_infos[j].info,
        None => AccountInfo { staked_nft_count: 0, rewards_claimed: 0 },
    };
    proof {
        // An account absent from the ledger owns nothing, so its counter
        // starts at zero either way.
        if acct_idx is None {
            lemma_count_owned_bounds(old(state).staking_infos@, staker_addr);
            if count_owned(old(state).staking_infos@, staker_addr) > 0 {
                lemma_count_owned_pos_member(old(state).staking_infos@, staker_addr);
                let w = choose|w: int|
                    0 <= w < old(state).staking_infos@.len() && (#[trigger] old(
                        state,
                    ).staking_infos@[w]).info.owner == staker_addr;
                assert(has_account(old(state).account_infos@, staker_addr));
            }
        }
        assert(old_info.staked_nft_count == count_owned(old(state).staking_infos@, staker_addr));
    }
    let new_count: u32 = match add_u32(old_info.staked_nft_count, 1) {
        Ok(v) => v,
        Err(e) => {
            return Err(e);
        },
    };
    let new_global: u32 = match add_u32(state.staked_nft_count, 1) {
        Ok(v) => v,
        Err(e) => {
            return Err(e);
        },
    };

    // Everything is validated; commit.
    let entry = StakeEntry {
        cw721_addr,
        token_id,
        info: StakingInfo { staked_at: now, synced_at: now, n_periods_vested: 0, owner: staker_addr },
    };
    let ghost pushed = entry;
    state.staking_infos.push(entry);
    match acct_idx {
        Some(j) => {
            let e = AccountEntry {
                addr: staker_addr,
                info: AccountInfo {
                    staked_nft_count: new_count,
                    rewards_claimed: old_info.rewards_claimed,
                },
            };
            proof {
                lemma_sum_counts_update(old(state).account_infos@, j as int, e);
                lemma_sum_claimed_update(old(state).account_infos@, j as int, e);
                assert forall|a: AddrId|
                    claimed_of(old(state).account_infos@.update(j as int, e), a) == claimed_of(
                        old(state).account_infos@,
                        a,
                    ) by {
                    lemma_claimed_of_update(old(state).account_infos@, j as int, e, a);
                    lemma_claimed_of_member(old(state).account_infos@, j as int);
                }
            }
            state.account_infos[j] = e;
        },
        None => {
            let e = AccountEntry {
                addr: staker_addr,
                info: AccountInfo { staked_nft_count: new_count, rewards_claimed: 0 },
            };
            proof {
                lemma_sum_counts_push(old(state).account_infos@, e);
                lemma_sum_claimed_push(old(state).account_infos@, e);
                lemma_claimed_of_absent(old(state).account_infos@, staker_addr);
                assert forall|a: AddrId|
                    claimed_of(old(state).account_infos@.push(e), a) == claimed_of(
                        old(state).account_infos@,
                        a,
                    ) by {
                    lemma_claimed_of_push(old(state).account_infos@, e, a);
                    if a == staker_addr {
                        lemma_claimed_of_absent(old(state).account_infos@, a);
                    }
                }
            }
            state.account_infos.push(e);
        },
    }
    state.staked_nft_count = new_global;

    proof {
        let s0 = old(state).staking_infos@;
        let s1 = state.staking_infos@;
        let a0 = old(state).account_infos@;
        let a1 = state.account_infos@;
        assert forall|a: AddrId|
            count_owned(s1, a) == count_owned(s0, a) + (if pushed.info.owner == a {
                1int
            } else {
                0int
            }) by {
            lemma_count_owned_push(s0, pushed, a);
        }
        // registry keys stay unique: the pushed key was absent
        assert forall|i: int, j: int| 0 <= i < j < s1.len() implies !key_matches(
            #[trigger] s1[i],
            (#[trigger] s1[j]).cw721_addr,
            s1[j].token_id@,
        ) by {
            if j < s0.len() {
                assert(s1[i] == s0[i] && s1[j] == s0[j]);
            } else {
                assert(s1[i] == s0[i]);
                assert(!has_stake(s0, cw721_addr, token_id@));
            }
        }
        // every record's owner still has a ledger entry
        assert forall|i: int| 0 <= i < s1.len() implies has_account(
            a1,
            (#[trigger] s1[i]).info.owner,
        ) by {
            if i < s0.len() {
                assert(s1[i] == s0[i]);
                assert(has_account(a0, s0[i].info.owner));
                let w = choose|w: int|
                    0 <= w < a0.len() && (#[trigger] a0[w]).addr == s0[i].info.owner;
                assert(a1[w].addr == s0[i].info.owner);
            } else {
                if acct_idx is Some {
                    let j = acct_idx->0;
                    assert(a1[j as int].addr == staker_addr);
                } else {
                    assert(a1[a1.len() - 1].addr == staker_addr);
                }
            }
        }
        // ledger keys stay unique
        assert forall|x: int, y: int| 0 <= x < y < a1.len() implies (#[trigger] a1[x]).addr != (
        #[trigger] a1[y]).addr by {
            if y < a0.len() {
            } else if acct_idx is None {
                assert(a1[x] == a0[x]);
                assert(!has_account(a0, staker_addr));
            }
        }
        // each ledger counter still counts its owner's records
        assert forall|k: int|
            0 <= k < a1.len() implies (#[trigger] a1[k]).info.staked_nft_count == count_owned(
                s1,
                a1[k].addr,
            ) by {
            match acct_idx {
                Some(j) => {
                    if k == j as int {
                    } else {
                        assert(a1[k] == a0[k]);
                        assert(a0[j as int].addr == staker_addr);
                        if k < j as int {
                            assert(a0[k].addr != a0[j as int].addr);
                        } else {
                            assert(a0[j as int].addr != a0[k].addr);
                        }
                    }
                },
                None => {
                    if k < a0.len() {
                        assert(a1[k] == a0[k]);
                        assert(!has_account(a0, staker_addr));
                        assert(a0[k].addr != staker_addr);
                    }
                },
            }
        }
        // the registry gained one record, as did the counters
        if acct_idx is Some {
            let j = acct_idx->0 as int;
            let e = AccountEntry {
                addr: staker_addr,
                info: AccountInfo {
                    staked_nft_count: new_count,
                    rewards_claimed: old_info.rewards_claimed,
                },
            };
            assert(a1 == a0.update(j, e));
        }
        // account existence after the commit
        assert forall|a: AddrId|
            has_account(a1, a) <==> (has_account(a0, a) || a == staker_addr) by {
            if has_account(a0, a) {
                let w = choose|w: int| 0 <= w < a0.len() && (#[trigger] a0[w]).addr == a;
                assert(a1[w].addr == a);
            }
            if a == staker_addr {
                match acct_idx {
                    Some(j) => {
                        assert(a1[j as int].addr == staker_addr);
                    },
                    None => {
                        assert(a1[a1.len() - 1].addr == staker_addr);
                    },
                }
            }
            if has_account(a1, a) {
                let w = choose|w: int| 0 <= w < a1.len() && (#[trigger] a1[w]).addr == a;
                if w < a0.len() {
                    match acct_idx {
                        Some(j) => {
                            if w == j as int {
                                assert(a0[w].addr == staker_addr);
                            }
                            assert(a0[w].addr == a1[w].addr || a == staker_addr);
                        },
                        None => {
                            assert(a0[w].addr == a);
                        },
                    }
                    assert(has_account(a0, a) || a == staker_addr);
                } else {
                    assert(a == staker_addr);
                }
            }
        }
    }
    Ok(ExecResponse { reward_transfer: None, nft_return: None })
}

/// The whole postcondition of a withdrawal of item `token_id` of collection
/// `cw721_addr` by `sender` at time `now`: `pre` is the state before the
/// operation, `post` the state after, `r` its result. The dispatcher
/// promises it verbatim for `Unstake` commands.
pub open spec fn unstake_post(
    pre: State,
    post: State,
    now: u64,
    sender: AddrId,
    cw721_addr: AddrId,
    token_id: Seq<char>,
    r: Result<ExecResponse, ContractError>,
) -> bool {
    &&& post.wf()
    &&& (r is Err ==> post == pre)
    &&& (r == Err::<ExecResponse, ContractError>(ContractError::NotFound) <==> !has_stake(
        pre.staking_infos@,
        cw721_addr,
        token_id,
    ))
    &&& (r == Err::<ExecResponse, ContractError>(ContractError::Unauthorized) <==> (has_stake(
        pre.staking_infos@,
        cw721_addr,
        token_id,
    ) && unstake_rec(pre, cw721_addr, token_id).owner != sender))
    &&& (r == Err::<ExecResponse, ContractError>(ContractError::ArithmeticOverflow) <==> (
    has_stake(pre.staking_infos@, cw721_addr, token_id) && unstake_rec(
        pre,
        cw721_addr,
        token_id,
    ).owner == sender && (vest_overflows(pre, cw721_addr, token_id, now) || (!vest_overflows(
        pre,
        cw721_addr,
        token_id,
        now,
    ) && vested_after(pre, cw721_addr, token_id, now) >= pre.config.min_vesting_periods && (
    claimed_of(pre.account_infos@, sender) + unstake_amount(pre, cw721_addr, token_id, now)
        > u128::MAX || pre.total_rewards_claimed + unstake_amount(pre, cw721_addr, token_id, now)
        > u128::MAX)))))
    &&& (r == Err::<ExecResponse, ContractError>(ContractError::VestingTooShort) <==> (has_stake(
        pre.staking_infos@,
        cw721_addr,
        token_id,
    ) && unstake_rec(pre, cw721_addr, token_id).owner == sender && !vest_overflows(
        pre,
        cw721_addr,
        token_id,
        now,
    ) && vested_after(pre, cw721_addr, token_id, now) < pre.config.min_vesting_periods))
    &&& (r is Ok <==> (has_stake(pre.staking_infos@, cw721_addr, token_id) && unstake_rec(
        pre,
        cw721_addr,
        token_id,
    ).owner == sender && !vest_overflows(pre, cw721_addr, token_id, now) && vested_after(
        pre,
        cw721_addr,
        token_id,
        now,
    ) >= pre.config.min_vesting_periods && claimed_of(pre.account_infos@, sender)
        + unstake_amount(pre, cw721_addr, token_id, now) <= u128::MAX
        && pre.total_rewards_claimed + unstake_amount(pre, cw721_addr, token_id, now)
        <= u128::MAX))
    &&& (r is Ok ==> {
        let amt = unstake_amount(pre, cw721_addr, token_id, now);
        let i = stake_idx(pre.staking_infos@, cw721_addr, token_id);
        &&& post.staking_infos@ == pre.staking_infos@.remove(i)
        &&& post.staked_nft_count == pre.staked_nft_count - 1
        &&& post.total_rewards_claimed == pre.total_rewards_claimed + amt
        &&& claimed_of(post.account_infos@, sender) == claimed_of(pre.account_infos@, sender) + amt
        &&& (forall|a: AddrId|
            a != sender ==> claimed_of(post.account_infos@, a) == claimed_of(
                pre.account_infos@,
                a,
            ))
        &&& (forall|a: AddrId|
            has_account(post.account_infos@, a) == has_account(pre.account_infos@, a))
    })
    &&& (match r {
        Ok(resp) => {
            let amt = unstake_amount(pre, cw721_addr, token_id, now);
            &&& resp.reward_transfer == (if amt > 0 {
                Some(Transfer { recipient: sender, amount: amt as u128 })
            } else {
                None::<Transfer>
            })
            &&& (match resp.nft_return {
                Some(n) => n.cw721_addr == cw721_addr && n.token_id@ == token_id && n.recipient
                    == sender,
                None => false,
            })
        },
        Err(_) => true,
    })
    &&& post.total_rewards_claimed >= pre.total_rewards_claimed
    &&& (forall|a: AddrId|
        claimed_of(post.account_infos@, a) >= claimed_of(pre.account_infos@, a))
    &&& post.config == pre.config
    &&& post.is_staking_enabled == pre.is_staking_enabled
}

/// Withdraw: `sender` takes item `token_id` of collection `cw721_addr` out
/// of the registry, collecting any reward vested up to `now`.
///
/// Fails with `NotFound` if no record exists for the key; with
/// `Unauthorized` if the record is not owned by `sender`; with
/// `ArithmeticOverflow` if the vesting computation or a claimed total would
/// leave its range; with `VestingTooShort` if even after the computation
/// the record has vested fewer than the configured minimum of periods. On
/// success the record is destroyed, the staked counts fall by one, the owed
/// amount is added to the sender's and the global claimed totals, a reward
/// transfer is issued when that amount is positive, and the item's return
/// is issued. On failure nothing changes.
pub fn exec_unstake(
    state: &mut State,
    now: u64,
    sender: AddrId,
    cw721_addr: AddrId,
    token_id: String,
) -> (r: Result<ExecResponse, ContractError>)
    requires
        old(state).wf(),
        old(state).now_reached(now),
    ensures
        unstake_post(*old(state), *final(state), now, sender, cw721_addr, token_id@, r),
{
    let fi: usize = match find_stake(&state.staking_infos, cw721_addr, &token_id) {
        Some(i) => i,
        None => {
            return Err(ContractError::NotFound);
        },
    };
    proof {
        lemma_found_is_stake_idx(old(state).staking_infos@, cw721_addr, token_id@, fi as int);
    }
    let ghost i_spec = stake_idx(old(state).staking_infos@, cw721_addr, token_id@);
    let record: StakingInfo = state.staking_infos[fi].info;
    if record.owner != sender {
        return Err(ContractError::Unauthorized);
    }
    let pl: u64 = state.config.vesting_period_seconds as u64;
    let rpp: u128 = state.config.rewards_amount;
    let (amount, periods, upd): (u128, u64, StakingInfo) = match compute_vesting(
        &record,
        now,
        pl,
        rpp,
    ) {
        Ok(t) => t,
        Err(e) => {
            return Err(e);
        },
    };
    if upd.n_periods_vested < state.config.min_vesting_periods {
        return Err(ContractError::VestingTooShort);
    }
    proof {
        assert(has_account(old(state).account_infos@, sender));
    }
    let j: usize = match find_account(&state.account_infos, sender) {
        Some(j) => j,
        None => {
            proof {
                assert(false);
            }
            return Err(ContractError::NotFound);
        },
    };
    let acct: AccountInfo = state.account_infos[j].info;
    proof {
        lemma_count_owned_member(old(state).staking_infos@, fi as int);
        lemma_claimed_of_member(old(state).account_infos@, j as int);
        assert(acct.staked_nft_count >= 1);
        assert(state.staked_nft_count >= 1);
    }
    let new_count: u32 = acct.staked_nft_count - 1;
    let new_claimed: u128 = match add_u128(acct.rewards_claimed, amount) {
        Ok(v) => v,
        Err(e) => {
            return Err(e);
        },
    };
    let new_total: u128 = match add_u128(state.total_rewards_claimed, amount) {
        Ok(v) => v,
        Err(e) => {
            return Err(e);
        },
    };
    let new_global: u32 = state.staked_nft_count - 1;

    // Everything is validated; commit.
    state.staking_infos.remove(fi);
    let e = AccountEntry {
        addr: sender,
        info: AccountInfo { staked_nft_count: new_count, rewards_claimed: new_claimed },
    };
    proof {
        lemma_sum_counts_update(old(state).account_infos@, j as int, e);
        lemma_sum_claimed_update(old(state).account_infos@, j as int, e);
        assert forall|a: AddrId|
            claimed_of(old(state).account_infos@.update(j as int, e), a) == (if a == sender {
                new_claimed as int
            } else {
                claimed_of(old(state).account_infos@, a)
            }) by {
            lemma_claimed_of_update(old(state).account_infos@, j as int, e, a);
        }
    }
    state.account_infos[j] = e;
    state.staked_nft_count = new_global;
    state.total_rewards_claimed = new_total;

    proof {
        let s0 = old(state).staking_infos@;
        let s1 = state.staking_infos@;
        let a0 = old(state).account_infos@;
        let a1 = state.account_infos@;
        let i = i_spec;
        s0.remove_ensures(i);
        assert forall|a: AddrId|
            count_owned(s1, a) == count_owned(s0, a) - (if sender == a {
                1int
            } else {
                0int
            }) by {
            lemma_count_owned_remove(s0, i, a);
        }
        // registry keys stay unique after the removal
        assert forall|x: int, y: int| 0 <= x < y < s1.len() implies !key_matches(
            #[trigger] s1[x],
            (#[trigger] s1[y]).cw721_addr,
            s1[y].token_id@,
        ) by {
            let xs = if x < i {
                x
            } else {
                x + 1
            };
            let ys = if y < i {
                y
            } else {
                y + 1
            };
            assert(s1[x] == s0[xs]);
            assert(s1[y] == s0[ys]);
        }
        // every remaining record's owner still has a ledger entry
        assert forall|k: int| 0 <= k < s1.len() implies has_account(
            a1,
            (#[trigger] s1[k]).info.owner,
        ) by {
            let ks = if k < i {
                k
            } else {
                k + 1
            };
            assert(s1[k] == s0[ks]);
            assert(has_account(a0, s0[ks].info.owner));
            let w = choose|w: int| 0 <= w < a0.len() && (#[trigger] a0[w]).addr == s0[ks].info.owner;
            assert(a1[w].addr == a0[w].addr);
        }
        // each ledger counter still counts its owner's records
        assert forall|k: int|
            0 <= k < a1.len() implies (#[trigger] a1[k]).info.staked_nft_count == count_owned(
                s1,
                a1[k].addr,
            ) by {
            if k == j as int {
            } else {
                assert(a1[k] == a0[k]);
                if k < j as int {
                    assert(a0[k].addr != a0[j as int].addr);
                } else {
                    assert(a0[j as int].addr != a0[k].addr);
                }
            }
        }
        // account existence is unchanged
        assert forall|a: AddrId| has_account(a1, a) == has_account(a0, a) by {
            if has_account(a0, a) {
                let w = choose|w: int| 0 <= w < a0.len() && (#[trigger] a0[w]).addr == a;
                assert(a1[w].addr == a0[w].addr);
            }
            if has_account(a1, a) {
                let w = choose|w: int| 0 <= w < a1.len() && (#[trigger] a1[w]).addr == a;
                assert(a0[w].addr == a1[w].addr);
            }
        }
        // the claimed totals only grew
        lemma_periods_bounds(now - record.synced_at, pl as int);
        vstd::arithmetic::mul::lemma_mul_nonnegative(
            unstake_periods(*old(state), cw721_addr, token_id@, now),
            rpp as int,
        );
        assert forall|a: AddrId|
            claimed_of(a1, a) >= claimed_of(a0, a) by {
        }
    }
    Ok(
        ExecResponse {
            reward_transfer: if amount > 0 {
                Some(Transfer { recipient: sender, amount })
            } else {
                None
            },
            nft_return: Some(NftReturn { cw721_addr, token_id, recipient: sender }),
        },
    )
}

/// The whole postcondition of a claim by `sender` at time `now`: `pre` is
/// the state before the operation, `post` the state after, `r` its result.
/// The dispatcher promises it verbatim for `Claim` commands.
pub open spec fn claim_post(
    pre: State,
    post: State,
    now: u64,
    sender: AddrId,
    r: Result<ExecResponse, ContractError>,
) -> bool {
    let scan = vest_scan(
        pre.staking_infos@,
        sender,
        now,
        pre.config.vesting_period_seconds as int,
        pre.config.rewards_amount,
        pre.staking_infos@.len() as int,
    );
    &&& post.wf()
    &&& (r is Err ==> post == pre)
    &&& (r == Err::<ExecResponse, ContractError>(ContractError::NotFound) <==> !has_account(
        pre.account_infos@,
        sender,
    ))
    &&& (r == Err::<ExecResponse, ContractError>(ContractError::ArithmeticOverflow) <==> (
    has_account(pre.account_infos@, sender) && (scan is None || (scan is Some && (claimed_of(
        pre.account_infos@,
        sender,
    ) + scan->Some_0.0 > u128::MAX || pre.total_rewards_claimed + scan->Some_0.0 > u128::MAX)))))
    &&& (r is Ok <==> (has_account(pre.account_infos@, sender) && scan is Some && claimed_of(
        pre.account_infos@,
        sender,
    ) + scan->Some_0.0 <= u128::MAX && pre.total_rewards_claimed + scan->Some_0.0 <= u128::MAX))
    &&& (r is Ok ==> {
        let acc = scan->Some_0;
        let s0 = pre.staking_infos@;
        let s1 = post.staking_infos@;
        &&& s1.len() == s0.len()
        &&& (forall|m: int|
            0 <= m < acc.1.len() ==> s1[(#[trigger] acc.1[m]).0 as int].info == acc.1[m].1)
        &&& (forall|k: int|
            0 <= k < s0.len() && !is_updated_idx(acc.1, k) ==> s1[k] == #[trigger] s0[k])
        &&& (forall|k: int|
            0 <= k < s0.len() ==> {
                &&& (#[trigger] s1[k]).cw721_addr == s0[k].cw721_addr
                &&& s1[k].token_id@ == s0[k].token_id@
                &&& s1[k].info.owner == s0[k].info.owner
                &&& s1[k].info.staked_at == s0[k].info.staked_at
            })
        &&& claimed_of(post.account_infos@, sender) == claimed_of(pre.account_infos@, sender)
            + acc.0
        &&& (forall|a: AddrId|
            a != sender ==> claimed_of(post.account_infos@, a) == claimed_of(
                pre.account_infos@,
                a,
            ))
        &&& (forall|a: AddrId|
            has_account(post.account_infos@, a) == has_account(pre.account_infos@, a))
        &&& post.total_rewards_claimed == pre.total_rewards_claimed + acc.0
        &&& post.staked_nft_count == pre.staked_nft_count
    })
    &&& (match r {
        Ok(resp) => {
            &&& resp.reward_transfer == (if scan->Some_0.0 > 0 {
                Some(Transfer { recipient: sender, amount: scan->Some_0.0 })
            } else {
                None::<Transfer>
            })
            &&& resp.nft_return is None
        },
        Err(_) => true,
    })
    &&& post.total_rewards_claimed >= pre.total_rewards_claimed
    &&& (forall|a: AddrId|
        claimed_of(post.account_infos@, a) >= claimed_of(pre.account_infos@, a))
    &&& post.config == pre.config
    &&& post.is_staking_enabled == pre.is_staking_enabled
}

/// Claim: `sender` collects the rewards vested up to `now` on all of its
/// staked items, without removing any stake.
///
/// Fails with `NotFound` if `sender` has no ledger entry; with
/// `ArithmeticOverflow` if the vesting computation or a claimed total would
/// leave its range. On success exactly the records that completed at least
/// one period advance (sync point forward by whole periods, vested-period
/// counters up), the summed amount is added to the sender's and the global
/// claimed totals, and one aggregated reward transfer is issued when that
/// amount is positive. On failure nothing changes.
pub fn exec_claim(state: &mut State, now: u64, sender: AddrId) -> (r: Result<
    ExecResponse,
    ContractError,
>)
    requires
        old(state).wf(),
        old(state).now_reached(now),
    ensures
        claim_post(*old(state), *final(state), now, sender, r),
{
    let j: usize = match find_account(&state.account_infos, sender) {
        Some(j) => j,
        None => {
            return Err(ContractError::NotFound);
        },
    };
    let acct: AccountInfo = state.account_infos[j].info;
    let pl: u64 = state.config.vesting_period_seconds as u64;
    let rpp: u128 = state.config.rewards_amount;
    proof {
        lemma_claimed_of_member(old(state).account_infos@, j as int);
    }
    let results = match vest_nfts(&state.staking_infos, now, sender, pl, rpp) {
        Ok(res) => res,
        Err(e) => {
            return Err(e);
        },
    };
    let amount: u128 = results.amount_vested;
    let new_claimed: u128 = match add_u128(acct.rewards_claimed, amount) {
        Ok(v) => v,
        Err(e) => {
            return Err(e);
        },
    };
    let new_total: u128 = match add_u128(state.total_rewards_claimed, amount) {
        Ok(v) => v,
        Err(e) => {
            return Err(e);
        },
    };

    // Everything is validated; commit: first the records that advanced.
    let n_ups: usize = results.vested_staking_infos.len();
    let mut k: usize = 0;
    while k < n_ups
        invariant
            k <= n_ups,
            n_ups == results.vested_staking_infos@.len(),
            old(state).wf(),
            old(state).now_reached(now),
            pl == old(state).config.vesting_period_seconds as u64,
            rpp == old(state).config.rewards_amount,
            vest_scan(
                old(state).staking_infos@,
                sender,
                now,
                pl as int,
                rpp,
                old(state).staking_infos@.len() as int,
            ) == Some((amount, results.vested_staking_infos@)),
            state.staking_infos@.len() == old(state).staking_infos@.len(),
            forall|m: int|
                0 <= m < k ==> state.staking_infos@[(#[trigger] results.vested_staking_infos@[m]).0 as int].info
                    == results.vested_staking_infos@[m].1,
            forall|idx: int|
                0 <= idx < old(state).staking_infos@.len() && !updated_before(
                    results.vested_staking_infos@,
                    k as int,
                    idx,
                ) ==> state.staking_infos@[idx] == #[trigger] old(state).staking_infos@[idx],
            forall|idx: int|
                0 <= idx < old(state).staking_infos@.len() ==> {
                    &&& (#[trigger] state.staking_infos@[idx]).cw721_addr == old(
                        state,
                    ).staking_infos@[idx].cw721_addr
                    &&& state.staking_infos@[idx].token_id@ == old(
                        state,
                    ).staking_infos@[idx].token_id@
                    &&& state.staking_infos@[idx].info.owner == old(
                        state,
                    ).staking_infos@[idx].info.owner
                    &&& state.staking_infos@[idx].info.staked_at == old(
                        state,
                    ).staking_infos@[idx].info.staked_at
                },
            state.account_infos == old(state).account_infos,
            state.config == old(state).config,
            state.is_staking_enabled == old(state).is_staking_enabled,
            state.staked_nft_count == old(state).staked_nft_count,
            state.total_rewards_claimed == old(state).total_rewards_claimed,
        decreases n_ups - k,
    {
        proof {
            lemma_vest_scan_props(
                old(state).staking_infos@,
                sender,
                now,
                pl as int,
                rpp,
                old(state).staking_infos@.len() as int,
                amount,
                results.vested_staking_infos@,
            );
            assert(0 <= (results.vested_staking_infos@[k as int]).0 < old(
                state,
            ).staking_infos@.len());
        }
        let (idx, info): (usize, StakingInfo) = results.vested_staking_infos[k];
        let cw: AddrId = state.staking_infos[idx].cw721_addr;
        let tid: String = state.staking_infos[idx].token_id.clone();
        let new_entry = StakeEntry { cw721_addr: cw, token_id: tid, info };
        state.staking_infos[idx] = new_entry;
        k += 1;
        proof {
            let ups = results.vested_staking_infos@;
            assert forall|q: int|
                0 <= q < old(state).staking_infos@.len() && !updated_before(
                    ups,
                    k as int,
                    q,
                ) implies state.staking_infos@[q] == #[trigger] old(state).staking_infos@[q] by {
                if q == ups[k as int - 1].0 as int {
                    assert(updated_before(ups, k as int, q));
                } else {
                    if updated_before(ups, k as int - 1, q) {
                        let m = choose|m: int| 0 <= m < k as int - 1 && (#[trigger] ups[m]).0 == q;
                        assert(updated_before(ups, k as int, q));
                    }
                }
            }
        }
    }

    // Then the ledger and the global counters.
    let e = AccountEntry {
        addr: sender,
        info: AccountInfo {
            staked_nft_count: acct.staked_nft_count,
            rewards_claimed: new_claimed,
        },
    };
    proof {
        lemma_sum_counts_update(old(state).account_infos@, j as int, e);
        lemma_sum_claimed_update(old(state).account_infos@, j as int, e);
        assert forall|a: AddrId|
            claimed_of(old(state).account_infos@.update(j as int, e), a) == (if a == sender {
                new_claimed as int
            } else {
                claimed_of(old(state).account_infos@, a)
            }) by {
            lemma_claimed_of_update(old(state).account_infos@, j as int, e, a);
        }
    }
    state.account_infos[j] = e;
    state.total_rewards_claimed = new_total;

    proof {
        let s0 = old(state).staking_infos@;
        let s1 = state.staking_infos@;
        let a0 = old(state).account_infos@;
        let a1 = state.account_infos@;
        assert(results.vested_staking_infos@.take(n_ups as int)
            =~= results.vested_staking_infos@);
        // owner counts are unchanged: the owner column is
        assert forall|a: AddrId| count_owned(s1, a) == count_owned(s0, a) by {
            lemma_count_owned_same_owners(s1, s0, a);
        }
        // registry keys stay unique: the key columns are unchanged
        assert forall|x: int, y: int| 0 <= x < y < s1.len() implies !key_matches(
            #[trigger] s1[x],
            (#[trigger] s1[y]).cw721_addr,
            s1[y].token_id@,
        ) by {
            assert(!key_matches(s0[x], s0[y].cw721_addr, s0[y].token_id@));
        }
        // every record's owner still has a ledger entry
        assert forall|i: int| 0 <= i < s1.len() implies has_account(
            a1,
            (#[trigger] s1[i]).info.owner,
        ) by {
            assert(has_account(a0, s0[i].info.owner));
            let w = choose|w: int| 0 <= w < a0.len() && (#[trigger] a0[w]).addr == s0[i].info.owner;
            assert(a1[w].addr == a0[w].addr);
        }
        // each ledger counter still counts its owner's records
        assert forall|m: int|
            0 <= m < a1.len() implies (#[trigger] a1[m]).info.staked_nft_count == count_owned(
                s1,
                a1[m].addr,
            ) by {
            if m == j as int {
            } else {
                assert(a1[m] == a0[m]);
                if m < j as int {
                    assert(a0[m].addr != a0[j as int].addr);
                } else {
                    assert(a0[j as int].addr != a0[m].addr);
                }
            }
        }
        // account existence is unchanged
        assert forall|a: AddrId| has_account(a1, a) == has_account(a0, a) by {
            if has_account(a0, a) {
                let w = choose|w: int| 0 <= w < a0.len() && (#[trigger] a0[w]).addr == a;
                assert(a1[w].addr == a0[w].addr);
            }
            if has_account(a1, a) {
                let w = choose|w: int| 0 <= w < a1.len() && (#[trigger] a1[w]).addr == a;
                assert(a0[w].addr == a1[w].addr);
            }
        }
    }
    Ok(
        ExecResponse {
            reward_transfer: if amount > 0 {
                Some(Transfer { recipient: sender, amount })
            } else {
                None
            },
            nft_return: None,
        },
    )
}

/// Dispatches one command to its operation and promises, per command,
/// exactly that operation's postcondition: `ReceiveNft` behaves as the
/// deposit, `Unstake` as the withdrawal, `Claim` as the claim.
pub fn execute(state: &mut State, now: u64, sender: AddrId, msg: ExecuteMsg) -> (r: Result<
    ExecResponse,
    ContractError,
>)
    requires
        old(state).wf(),
        old(state).now_reached(now),
    ensures
        match msg {
            ExecuteMsg::ReceiveNft { staker_addr, token_id, inner } => deposit_post(
                *old(state),
                *final(state),
                now,
                sender,
                staker_addr,
                token_id@,
                r,
            ),
            ExecuteMsg::Unstake { cw721_addr, token_id } => unstake_post(
                *old(state),
                *final(state),
                now,
                sender,
                cw721_addr,
                token_id@,
                r,
            ),
            ExecuteMsg::Claim {  } => claim_post(*old(state), *final(state), now, sender, r),
        },
{
    match msg {
        ExecuteMsg::ReceiveNft { staker_addr, token_id, inner } => exec_cw721_receive(
            state,
            now,
            sender,
            staker_addr,
            token_id,
            inner,
        ),
        ExecuteMsg::Unstake { cw721_addr, token_id } => exec_unstake(
            state,
            now,
            sender,
            cw721_addr,
            token_id,
        ),
        ExecuteMsg::Claim {  } => exec_claim(state, now, sender),
    }
}

} // verus!
