use vstd::prelude::*;
use crate::error::ContractError;
use crate::msg::InstantiateMsg;

verus! {

/// Identifier of an external account or contract address. The environment
/// around the library maps its own address strings to these ids one for one.
pub type AddrId = u64;

/// Descriptor of the external asset in which rewards are paid out. The
/// accounting logic never reads it; it is carried through to the payout
/// boundary.
#[derive(Debug)]
pub struct Token {
    pub denom: String,
}

/// One record per deposited item, keyed by (collection address, item id).
#[derive(Clone, Copy, Debug, PartialEq, Eq, Structural)]
pub struct StakingInfo {
    /// When the item was deposited.
    pub staked_at: u64,
    /// The sync point: accrual up to this time is already folded into
    /// `n_periods_vested`. Never moves backward.
    pub synced_at: u64,
    /// Cumulative count of fully vested periods. Never decreases.
    pub n_periods_vested: u32,
    /// The account that deposited the item.
    pub owner: AddrId,
}

/// Aggregate counters for one account that has ever staked.
#[derive(Clone, Copy, Debug, PartialEq, Eq, Structural)]
pub struct AccountInfo {
    /// Number of staking records currently owned by this account.
    pub staked_nft_count: u32,
    /// Total reward units ever paid to this account. Never decreases.
    pub rewards_claimed: u128,
}

/// An entry of the staking registry: a record together with its key.
#[derive(Debug)]
pub struct StakeEntry {
    pub cw721_addr: AddrId,
    pub token_id: String,
    pub info: StakingInfo,
}

/// An entry of the account ledger: per-account counters with their key.
#[derive(Clone, Copy, Debug, PartialEq, Eq, Structural)]
pub struct AccountEntry {
    pub addr: AddrId,
    pub info: AccountInfo,
}

/// Configuration fixed at initialization.
#[derive(Debug)]
pub struct Config {
    pub manager_addr: AddrId,
    /// Collections whose items may be deposited.
    pub allowed_cw721_addrs: Vec<AddrId>,
    pub rewards_token: Token,
    /// Reward units owed per item per completed vesting period.
    pub rewards_amount: u128,
    /// Length of one vesting period in seconds; always positive.
    pub vesting_period_seconds: u32,
    /// Completed periods an item must have vested before it can be
    /// withdrawn.
    pub min_vesting_periods: u32,
}

/// The whole state of the staking core: configuration, the staking
/// registry, the account ledger, and the global counters.
#[derive(Debug)]
pub struct State {
    pub config: Config,
    pub is_staking_enabled: bool,
    pub staking_infos: Vec<StakeEntry>,
    pub account_infos: Vec<AccountEntry>,
    /// Global count of currently staked items.
    pub staked_nft_count: u32,
    /// Global total of reward units ever paid out. Never decreases.
    pub total_rewards_claimed: u128,
}

/// The entry holds the record of item `token_id` of collection `cw721_addr`.
pub open spec fn key_matches(e: StakeEntry, cw721_addr: AddrId, token_id: Seq<char>) -> bool {
    e.cw721_addr == cw721_addr && e.token_id@ == token_id
}

/// Some entry of `s` holds the record of this (collection, item) key.
pub open spec fn has_stake(s: Seq<StakeEntry>, cw721_addr: AddrId, token_id: Seq<char>) -> bool {
    exists|i: int| 0 <= i < s.len() && key_matches(s[i], cw721_addr, token_id)
}

/// The index of the entry for this key; meaningful only when `has_stake`
/// holds, and then unique under `stake_keys_unique`.
pub open spec fn stake_idx(s: Seq<StakeEntry>, cw721_addr: AddrId, token_id: Seq<char>) -> int {
    choose|i: int| 0 <= i < s.len() && key_matches(s[i], cw721_addr, token_id)
}

/// No two entries of the registry share a (collection, item) key.
pub open spec fn stake_keys_unique(s: Seq<StakeEntry>) -> bool {
    forall|i: int, j: int|
        0 <= i < j < s.len() ==> !key_matches(
            #[trigger] s[i],
            (#[trigger] s[j]).cw721_addr,
            s[j].token_id@,
        )
}

/// Number of registry entries owned by account `a`.
pub open spec fn count_owned(s: Seq<StakeEntry>, a: AddrId) -> int
    decreases s.len(),
{
    if s.len() == 0 {
        0
    } else {
        count_owned(s.drop_last(), a) + if s.last().info.owner == a {
            1int
        } else {
            0int
        }
    }
}

/// Some entry of the ledger belongs to account `a`.
pub open spec fn has_account(s: Seq<AccountEntry>, a: AddrId) -> bool {
    exists|i: int| 0 <= i < s.len() && s[i].addr == a
}

/// No two ledger entries share an account.
pub open spec fn account_keys_unique(s: Seq<AccountEntry>) -> bool {
    forall|i: int, j: int| 0 <= i < j < s.len() ==> #[trigger] s[i].addr != #[trigger] s[j].addr
}

/// Sum of the per-account staked-item counters.
pub open spec fn sum_counts(s: Seq<AccountEntry>) -> int
    decreases s.len(),
{
    if s.len() == 0 {
        0
    } else {
        sum_counts(s.drop_last()) + s.last().info.staked_nft_count
    }
}

/// Sum of the per-account rewards-claimed totals.
pub open spec fn sum_claimed(s: Seq<AccountEntry>) -> int
    decreases s.len(),
{
    if s.len() == 0 {
        0
    } else {
        sum_claimed(s.drop_last()) + s.last().info.rewards_claimed
    }
}

/// Rewards claimed so far by account `a`; zero if `a` has no ledger entry.
pub open spec fn claimed_of(s: Seq<AccountEntry>, a: AddrId) -> int
    decreases s.len(),
{
    if s.len() == 0 {
        0
    } else if s.last().addr == a {
        s.last().info.rewards_claimed as int
    } else {
        claimed_of(s.drop_last(), a)
    }
}

impl State {
    /// Well-formedness of the whole state: the invariants of the data
    /// model. Every operation requires it of the state it is given and
    /// re-establishes it.
    pub open spec fn wf(&self) -> bool {
        &&& self.config.vesting_period_seconds > 0
        &&& stake_keys_unique(self.staking_infos@)
        &&& account_keys_unique(self.account_infos@)
        &&& forall|i: int|
            0 <= i < self.account_infos@.len() ==> (#[trigger] self.account_infos@[i]).info.staked_nft_count
                == count_owned(self.staking_infos@, self.account_infos@[i].addr)
        &&& forall|i: int|
            0 <= i < self.staking_infos@.len() ==> has_account(
                self.account_infos@,
                (#[trigger] self.staking_infos@[i]).info.owner,
            )
        &&& self.staked_nft_count == self.staking_infos@.len()
        &&& sum_counts(self.account_infos@) == self.staked_nft_count
        &&& sum_claimed(self.account_infos@) == self.total_rewards_claimed
    }

    /// The given block time is not behind any sync point: time only moves
    /// forward between operations.
    pub open spec fn now_reached(&self, now: u64) -> bool {
        forall|i: int|
            0 <= i < self.staking_infos@.len() ==> (#[trigger] self.staking_infos@[i]).info.synced_at
                <= now
    }
}

/// Top-level initialization: an empty registry and ledger under the given
/// configuration, with staking enabled.
pub fn init(msg: InstantiateMsg) -> (s: State)
    requires
        msg.vesting_period_seconds > 0,
    ensures
        s.wf(),
        s.config.manager_addr == msg.manager_addr,
        s.config.allowed_cw721_addrs@ == msg.allowed_cw721_addrs@,
        s.config.rewards_amount == msg.vesting_period_rewards,
        s.config.vesting_period_seconds == msg.vesting_period_seconds,
        s.config.min_vesting_periods == msg.min_vesting_periods,
        s.config.rewards_token.denom@ == msg.rewards_token.denom@,
        s.is_staking_enabled,
        s.staking_infos@.len() == 0,
        s.account_infos@.len() == 0,
        s.staked_nft_count == 0,
        s.total_rewards_claimed == 0,
{
    State {
        config: Config {
            manager_addr: msg.manager_addr,
            allowed_cw721_addrs: msg.allowed_cw721_addrs,
            rewards_token: msg.rewards_token,
            rewards_amount: msg.vesting_period_rewards,
            vesting_period_seconds: msg.vesting_period_seconds,
            min_vesting_periods: msg.min_vesting_periods,
        },
        is_staking_enabled: true,
        staking_infos: Vec::new(),
        account_infos: Vec::new(),
        staked_nft_count: 0,
        total_rewards_claimed: 0,
    }
}

/// Conservation: in every well-formed state the per-account staked counts
/// sum to the global staked count, and the per-account claimed totals sum
/// to the global claimed total. Every operation preserves well-formedness,
/// so this holds after any sequence of deposits, withdrawals and claims.
pub proof fn lemma_conservation(s: State)
    requires
        s.wf(),
    ensures
        sum_counts(s.account_infos@) == s.staked_nft_count,
        s.staked_nft_count == s.staking_infos@.len(),
        sum_claimed(s.account_infos@) == s.total_rewards_claimed,
{
}

/// A found registry index with a matching key is the key's index: keys are
/// unique.
pub proof fn lemma_found_is_stake_idx(s: Seq<StakeEntry>, c: AddrId, t: Seq<char>, fi: int)
    requires
        stake_keys_unique(s),
        0 <= fi < s.len(),
        key_matches(s[fi], c, t),
    ensures
        has_stake(s, c, t),
        stake_idx(s, c, t) == fi,
{
    assert(has_stake(s, c, t));
    let i = stake_idx(s, c, t);
    assert(0 <= i < s.len() && key_matches(s[i], c, t));
    if i != fi {
        if i < fi {
            assert(!key_matches(s[i], s[fi].cw721_addr, s[fi].token_id@));
        } else {
            assert(!key_matches(s[fi], s[i].cw721_addr, s[i].token_id@));
        }
        assert(false);
    }
}

/// What one claim pass computed: the summed amount owed and the updated
/// records that actually advanced, each with its registry index.
pub struct VestingResults {
    pub amount_vested: u128,
    pub vested_staking_infos: Vec<(usize, StakingInfo)>,
}

/// Vesting for a single record, looked up by its (collection, item) key.
///
/// Fails with `NotFound` if no record exists for the key; otherwise behaves
/// as the vesting engine does on that record: the completed periods since
/// its sync point, the amount they owe, and the advanced record, or
/// `ArithmeticOverflow` when a result would leave its range. Mutates
/// nothing; callers persist the returned record.
pub fn vest_one_nft(
    stakes: &Vec<StakeEntry>,
    vesting_period_seconds: u64,
    unit_rewards_amount: u128,
    block_time: u64,
    cw721_addr: AddrId,
    token_id: &String,
) -> (r: Result<(u128, u64, StakingInfo), ContractError>)
    requires
        vesting_period_seconds > 0,
        stake_keys_unique(stakes@),
        forall|i: int|
            0 <= i < stakes@.len() ==> (#[trigger] stakes@[i]).info.synced_at <= block_time,
    ensures
        (r == Err::<(u128, u64, StakingInfo), ContractError>(ContractError::NotFound) <==> !has_stake(
            stakes@,
            cw721_addr,
            token_id@,
        )),
        has_stake(stakes@, cw721_addr, token_id@) ==> ({
            let rec = stakes@[stake_idx(stakes@, cw721_addr, token_id@)].info;
            let p = crate::vesting::periods_of(
                block_time - rec.synced_at,
                vesting_period_seconds as int,
            );
            &&& (r is Err <==> p * unit_rewards_amount > u128::MAX || rec.n_periods_vested + p
                > u32::MAX)
            &&& match r {
                Ok((amount, periods, upd)) => {
                    &&& periods == p
                    &&& amount == p * unit_rewards_amount
                    &&& upd.synced_at == rec.synced_at + p * vesting_period_seconds
                    &&& upd.n_periods_vested == rec.n_periods_vested + p
                    &&& upd.owner == rec.owner
                    &&& upd.staked_at == rec.staked_at
                },
                Err(e) => e == ContractError::ArithmeticOverflow,
            }
        }),
{
    let n: usize = stakes.len();
    let mut i: usize = 0;
    while i < n
        invariant
            i <= n,
            n == stakes@.len(),
            vesting_period_seconds > 0,
            stake_keys_unique(stakes@),
            forall|k: int|
                0 <= k < stakes@.len() ==> (#[trigger] stakes@[k]).info.synced_at <= block_time,
            forall|j: int| 0 <= j < i ==> !key_matches(#[trigger] stakes@[j], cw721_addr, token_id@),
        decreases n - i,
    {
        if stakes[i].cw721_addr == cw721_addr && stakes[i].token_id == *token_id {
            proof {
                lemma_found_is_stake_idx(stakes@, cw721_addr, token_id@, i as int);
            }
            let rec: StakingInfo = stakes[i].info;
            return crate::vesting::compute_vesting(
                &rec,
                block_time,
                vesting_period_seconds,
                unit_rewards_amount,
            );
        }
        i += 1;
    }
    Err(ContractError::NotFound)
}

/// One claim pass over the registry for `owner`: computes vesting for each
/// of the owner's records at `block_time` and sums what the completed
/// periods owe, collecting the records that advanced. Mutates nothing;
/// callers persist the results. Fails with `ArithmeticOverflow` exactly
/// when some step of that computation overflows.
pub fn vest_nfts(
    stakes: &Vec<StakeEntry>,
    block_time: u64,
    owner: AddrId,
    vesting_period_seconds: u64,
    rewards_amount: u128,
) -> (r: Result<VestingResults, ContractError>)
    requires
        vesting_period_seconds > 0,
        forall|i: int|
            0 <= i < stakes@.len() ==> (#[trigger] stakes@[i]).info.synced_at <= block_time,
    ensures
        ({
            let scan = crate::vesting::vest_scan(
                stakes@,
                owner,
                block_time,
                vesting_period_seconds as int,
                rewards_amount,
                stakes@.len() as int,
            );
            match r {
                Ok(res) => scan == Some((res.amount_vested, res.vested_staking_infos@)),
                Err(e) => e == ContractError::ArithmeticOverflow && scan is None,
            }
        }),
{
    let n: usize = stakes.len();
    let mut total: u128 = 0;
    let mut ups: Vec<(usize, StakingInfo)> = Vec::new();
    let mut i: usize = 0;
    while i < n
        invariant
            i <= n,
            n == stakes@.len(),
            vesting_period_seconds > 0,
            forall|k: int|
                0 <= k < stakes@.len() ==> (#[trigger] stakes@[k]).info.synced_at <= block_time,
            crate::vesting::vest_scan(
                stakes@,
                owner,
                block_time,
                vesting_period_seconds as int,
                rewards_amount,
                i as int,
            ) == Some((total, ups@)),
        decreases n - i,
    {
        if stakes[i].info.owner == owner {
            let rec: StakingInfo = stakes[i].info;
            let step = crate::vesting::compute_vesting(
                &rec,
                block_time,
                vesting_period_seconds,
                rewards_amount,
            );
            match step {
                Ok((amount, periods, upd)) => {
                    if periods > 0 {
                        let added = crate::math::add_u128(total, amount);
                        match added {
                            Ok(v) => {
                                total = v;
                                ups.push((i, upd));
                            },
                            Err(e) => {
                                proof {
                                    crate::vesting::lemma_vest_scan_step(
                                        stakes@,
                                        owner,
                                        block_time,
                                        vesting_period_seconds as int,
                                        rewards_amount,
                                        i as int,
                                        total,
                                        ups@,
                                    );
                                    crate::vesting::lemma_vest_scan_none(
                                        stakes@,
                                        owner,
                                        block_time,
                                        vesting_period_seconds as int,
                                        rewards_amount,
                                        i as int + 1,
                                        n as int,
                                    );
                                }
                                return Err(e);
                            },
                        }
                    }
                },
                Err(e) => {
                    proof {
                        assert(stakes@[i as int].info == rec);
                        crate::vesting::lemma_periods_bounds(
                            block_time - rec.synced_at,
                            vesting_period_seconds as int,
                        );
                        let p = crate::vesting::periods_of(
                            block_time - rec.synced_at,
                            vesting_period_seconds as int,
                        );
                        if p == 0 {
                            assert(p * rewards_amount == 0) by (nonlinear_arith)
                                requires
                                    p == 0,
                            ;
                            assert(rec.n_periods_vested + p <= u32::MAX);
                            assert(false);
                        }
                        assert(p > 0);
                        crate::vesting::lemma_vest_scan_step(
                            stakes@,
                            owner,
                            block_time,
                            vesting_period_seconds as int,
                            rewards_amount,
                            i as int,
                            total,
                            ups@,
                        );
                        crate::vesting::lemma_vest_scan_none(
                            stakes@,
                            owner,
                            block_time,
                            vesting_period_seconds as int,
                            rewards_amount,
                            i as int + 1,
                            n as int,
                        );
                    }
                    return Err(e);
                },
            }
        }
        i += 1;
    }
    Ok(VestingResults { amount_vested: total, vested_staking_infos: ups })
}

/// An account that owns at least one registry entry owns some entry: a
/// positive count exhibits a member.
pub proof fn lemma_count_owned_pos_member(s: Seq<StakeEntry>, a: AddrId)
    requires
        count_owned(s, a) > 0,
    ensures
        exists|i: int| 0 <= i < s.len() && (#[trigger] s[i]).info.owner == a,
    decreases s.len(),
{
    if s.len() > 0 {
        if s.last().info.owner == a {
            assert(s[s.len() - 1].info.owner == a);
        } else {
            lemma_count_owned_pos_member(s.drop_last(), a);
            let w = choose|w: int|
                0 <= w < s.drop_last().len() && (#[trigger] s.drop_last()[w]).info.owner == a;
            assert(s[w].info.owner == a);
        }
    }
}

/// Appending a registry entry raises its owner's count by one and leaves
/// every other owner's count unchanged.
pub proof fn lemma_count_owned_push(s: Seq<StakeEntry>, e: StakeEntry, a: AddrId)
    ensures
        count_owned(s.push(e), a) == count_owned(s, a) + if e.info.owner == a {
            1int
        } else {
            0int
        },
{
    assert(s.push(e).drop_last() =~= s);
    assert(s.push(e).last() == e);
}

/// Replacing the entry at `i` moves each owner's count by the difference
/// of the two entries' contributions.
pub proof fn lemma_count_owned_update(s: Seq<StakeEntry>, i: int, e: StakeEntry, a: AddrId)
    requires
        0 <= i < s.len(),
    ensures
        count_owned(s.update(i, e), a) == count_owned(s, a) - (if s[i].info.owner == a {
            1int
        } else {
            0int
        }) + (if e.info.owner == a {
            1int
        } else {
            0int
        }),
    decreases s.len(),
{
    if i == s.len() - 1 {
        assert(s.update(i, e).drop_last() =~= s.drop_last());
        assert(s.update(i, e).last() == e);
    } else {
        assert(s.update(i, e).drop_last() =~= s.drop_last().update(i, e));
        assert(s.update(i, e).last() == s.last());
        lemma_count_owned_update(s.drop_last(), i, e, a);
    }
}

/// Removing the entry at `i` lowers its owner's count by one and leaves
/// every other owner's count unchanged.
pub proof fn lemma_count_owned_remove(s: Seq<StakeEntry>, i: int, a: AddrId)
    requires
        0 <= i < s.len(),
    ensures
        count_owned(s.remove(i), a) == count_owned(s, a) - if s[i].info.owner == a {
            1int
        } else {
            0int
        },
    decreases s.len(),
{
    if i == s.len() - 1 {
        assert(s.remove(i) =~= s.drop_last());
    } else {
        assert(s.remove(i).drop_last() =~= s.drop_last().remove(i));
        assert(s.remove(i).last() == s.last());
        lemma_count_owned_remove(s.drop_last(), i, a);
    }
}

/// An owner's count never exceeds the registry's size and is never negative.
pub proof fn lemma_count_owned_bounds(s: Seq<StakeEntry>, a: AddrId)
    ensures
        0 <= count_owned(s, a) <= s.len(),
    decreases s.len(),
{
    if s.len() > 0 {
        lemma_count_owned_bounds(s.drop_last(), a);
    }
}

/// The owner of any registry entry owns at least that entry.
pub proof fn lemma_count_owned_member(s: Seq<StakeEntry>, i: int)
    requires
        0 <= i < s.len(),
    ensures
        count_owned(s, s[i].info.owner) >= 1,
    decreases s.len(),
{
    lemma_count_owned_bounds(s.drop_last(), s[i].info.owner);
    if i < s.len() - 1 {
        lemma_count_owned_member(s.drop_last(), i);
    }
}

/// Owner counts depend only on the owner column of the registry.
pub proof fn lemma_count_owned_same_owners(s1: Seq<StakeEntry>, s2: Seq<StakeEntry>, a: AddrId)
    requires
        s1.len() == s2.len(),
        forall|j: int|
            0 <= j < s1.len() ==> (#[trigger] s1[j]).info.owner == (#[trigger] s2[j]).info.owner,
    ensures
        count_owned(s1, a) == count_owned(s2, a),
    decreases s1.len(),
{
    if s1.len() > 0 {
        assert forall|j: int|
            0 <= j < s1.drop_last().len() implies (#[trigger] s1.drop_last()[j]).info.owner == (
        #[trigger] s2.drop_last()[j]).info.owner by {
            assert(s1.drop_last()[j] == s1[j]);
            assert(s2.drop_last()[j] == s2[j]);
        }
        lemma_count_owned_same_owners(s1.drop_last(), s2.drop_last(), a);
    }
}

/// Appending a ledger entry adds its counter to the staked-count sum.
pub proof fn lemma_sum_counts_push(s: Seq<AccountEntry>, e: AccountEntry)
    ensures
        sum_counts(s.push(e)) == sum_counts(s) + e.info.staked_nft_count,
{
    assert(s.push(e).drop_last() =~= s);
    assert(s.push(e).last() == e);
}

/// Replacing the ledger entry at `i` moves the staked-count sum by the
/// difference of the two counters.
pub proof fn lemma_sum_counts_update(s: Seq<AccountEntry>, i: int, e: AccountEntry)
    requires
        0 <= i < s.len(),
    ensures
        sum_counts(s.update(i, e)) == sum_counts(s) - s[i].info.staked_nft_count
            + e.info.staked_nft_count,
    decreases s.len(),
{
    if i == s.len() - 1 {
        assert(s.update(i, e).drop_last() =~= s.drop_last());
        assert(s.update(i, e).last() == e);
    } else {
        assert(s.update(i, e).drop_last() =~= s.drop_last().update(i, e));
        assert(s.update(i, e).last() == s.last());
        lemma_sum_counts_update(s.drop_last(), i, e);
    }
}

/// Appending a ledger entry adds its total to the rewards-claimed sum.
pub proof fn lemma_sum_claimed_push(s: Seq<AccountEntry>, e: AccountEntry)
    ensures
        sum_claimed(s.push(e)) == sum_claimed(s) + e.info.rewards_claimed,
{
    assert(s.push(e).drop_last() =~= s);
    assert(s.push(e).last() == e);
}

/// Replacing the ledger entry at `i` moves the rewards-claimed sum by the
/// difference of the two totals.
pub proof fn lemma_sum_claimed_update(s: Seq<AccountEntry>, i: int, e: AccountEntry)
    requires
        0 <= i < s.len(),
    ensures
        sum_claimed(s.update(i, e)) == sum_claimed(s) - s[i].info.rewards_claimed
            + e.info.rewards_claimed,
    decreases s.len(),
{
    if i == s.len() - 1 {
        assert(s.update(i, e).drop_last() =~= s.drop_last());
        assert(s.update(i, e).last() == e);
    } else {
        assert(s.update(i, e).drop_last() =~= s.drop_last().update(i, e));
        assert(s.update(i, e).last() == s.last());
        lemma_sum_claimed_update(s.drop_last(), i, e);
    }
}

/// A rewards-claimed total read from the ledger is never negative.
pub proof fn lemma_claimed_of_nonneg(s: Seq<AccountEntry>, a: AddrId)
    ensures
        claimed_of(s, a) >= 0,
    decreases s.len(),
{
    if s.len() > 0 && s.last().addr != a {
        lemma_claimed_of_nonneg(s.drop_last(), a);
    }
}

/// Appending a ledger entry sets its own account's total and leaves every
/// other account's total unchanged.
pub proof fn lemma_claimed_of_push(s: Seq<AccountEntry>, e: AccountEntry, a: AddrId)
    ensures
        claimed_of(s.push(e), a) == if e.addr == a {
            e.info.rewards_claimed as int
        } else {
            claimed_of(s, a)
        },
{
    assert(s.push(e).drop_last() =~= s);
    assert(s.push(e).last() == e);
}

/// Replacing the entry at `i` by one for the same account sets that
/// account's total and leaves every other account's total unchanged.
pub proof fn lemma_claimed_of_update(s: Seq<AccountEntry>, i: int, e: AccountEntry, a: AddrId)
    requires
        0 <= i < s.len(),
        account_keys_unique(s),
        e.addr == s[i].addr,
    ensures
        claimed_of(s.update(i, e), a) == if s[i].addr == a {
            e.info.rewards_claimed as int
        } else {
            claimed_of(s, a)
        },
    decreases s.len(),
{
    if i == s.len() - 1 {
        assert(s.update(i, e).drop_last() =~= s.drop_last());
        assert(s.update(i, e).last() == e);
    } else {
        assert(s.update(i, e).drop_last() =~= s.drop_last().update(i, e));
        assert(s.update(i, e).last() == s.last());
        assert forall|x: int, y: int|
            0 <= x < y < s.drop_last().len() implies (#[trigger] s.drop_last()[x]).addr != (
        #[trigger] s.drop_last()[y]).addr by {
            assert(s.drop_last()[x] == s[x]);
            assert(s.drop_last()[y] == s[y]);
        }
        lemma_claimed_of_update(s.drop_last(), i, e, a);
    }
}

/// An account with no ledger entry has claimed nothing.
pub proof fn lemma_claimed_of_absent(s: Seq<AccountEntry>, a: AddrId)
    requires
        !has_account(s, a),
    ensures
        claimed_of(s, a) == 0,
    decreases s.len(),
{
    if s.len() > 0 {
        assert(s.last() == s[s.len() - 1]);
        if s.last().addr == a {
            assert(has_account(s, a));
        }
        if has_account(s.drop_last(), a) {
            let w = choose|w: int| 0 <= w < s.drop_last().len() && s.drop_last()[w].addr == a;
            assert(s[w].addr == a);
            assert(has_account(s, a));
        }
        lemma_claimed_of_absent(s.drop_last(), a);
    }
}

/// With unique account keys, the ledger entry at `i` carries exactly its
/// account's claimed total.
pub proof fn lemma_claimed_of_member(s: Seq<AccountEntry>, i: int)
    requires
        0 <= i < s.len(),
        account_keys_unique(s),
    ensures
        claimed_of(s, s[i].addr) == s[i].info.rewards_claimed,
    decreases s.len(),
{
    if i < s.len() - 1 {
        assert(s.last() == s[s.len() - 1]);
        assert(s.last().addr != s[i].addr);
        assert forall|x: int, y: int|
            0 <= x < y < s.drop_last().len() implies (#[trigger] s.drop_last()[x]).addr != (
        #[trigger] s.drop_last()[y]).addr by {
            assert(s.drop_last()[x] == s[x]);
            assert(s.drop_last()[y] == s[y]);
        }
        lemma_claimed_of_member(s.drop_last(), i);
    }
}

} // verus!
