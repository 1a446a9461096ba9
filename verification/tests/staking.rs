use nft_staking::error::ContractError;
use nft_staking::execute::{exec_claim, exec_cw721_receive, exec_unstake, execute};
use nft_staking::math::{add_u128, add_u32, mul_u128, sub_u32};
use nft_staking::msg::{Cw721ReceiveInnerMsg, ExecuteMsg, InstantiateMsg, QueryMsg};
use nft_staking::query::{query, query_account, query_config, query_metadata, QueryResult};
use nft_staking::responses::{AccountResponse, ConfigResponse, MetadataResponse};
use nft_staking::state::{init, vest_nfts, vest_one_nft, State, Token};
use nft_staking::vesting::compute_vesting;

const COLLECTION: u64 = 11;
const OTHER_COLLECTION: u64 = 12;
const ALICE: u64 = 100;
const BOB: u64 = 101;

fn fresh_state(
    vesting_period_seconds: u32,
    reward_per_period: u128,
    min_vesting_periods: u32,
) -> State {
    init(InstantiateMsg {
        manager_addr: 1,
        allowed_cw721_addrs: vec![COLLECTION, OTHER_COLLECTION],
        vesting_period_seconds,
        vesting_period_rewards: reward_per_period,
        min_vesting_periods,
        rewards_token: Token {
            denom: String::from("reward"),
        },
    })
}

fn deposit(state: &mut State, now: u64, collection: u64, staker: u64, token_id: &str) {
    exec_cw721_receive(
        state,
        now,
        collection,
        staker,
        String::from(token_id),
        Cw721ReceiveInnerMsg::Stake {},
    )
    .expect("deposit should succeed");
}

#[test]
fn vesting_uses_floor_division() {
    let mut state = fresh_state(100, 10, 0);
    deposit(&mut state, 0, COLLECTION, ALICE, "7");
    let record = state.staking_infos[0].info;
    let (amount, periods, updated) = compute_vesting(&record, 250, 100, 10).unwrap();
    assert_eq!(periods, 2);
    assert_eq!(amount, 20);
    assert_eq!(updated.synced_at, 200);
    assert_eq!(updated.n_periods_vested, 2);
}

#[test]
fn vesting_partial_period_earns_nothing() {
    let mut state = fresh_state(100, 10, 0);
    deposit(&mut state, 0, COLLECTION, ALICE, "7");
    let record = state.staking_infos[0].info;
    let (amount, periods, updated) = compute_vesting(&record, 99, 100, 10).unwrap();
    assert_eq!(periods, 0);
    assert_eq!(amount, 0);
    assert_eq!(updated, record);
}

#[test]
fn scenario_claim_at_250_with_period_100() {
    let mut state = fresh_state(100, 10, 0);
    deposit(&mut state, 0, COLLECTION, ALICE, "7");
    let resp = exec_claim(&mut state, 250, ALICE).unwrap();
    let transfer = resp.reward_transfer.expect("a reward is owed");
    assert_eq!(transfer.recipient, ALICE);
    assert_eq!(transfer.amount, 20);
    // the 50 s remainder is preserved: the sync point advances to 200 only
    assert_eq!(state.staking_infos[0].info.synced_at, 200);
    assert_eq!(state.staking_infos[0].info.n_periods_vested, 2);
    assert_eq!(state.account_infos[0].info.rewards_claimed, 20);
    assert_eq!(state.total_rewards_claimed, 20);
}

#[test]
fn claim_twice_at_same_time_pays_nothing_more() {
    let mut state = fresh_state(100, 10, 0);
    deposit(&mut state, 0, COLLECTION, ALICE, "7");
    exec_claim(&mut state, 250, ALICE).unwrap();
    let again = exec_claim(&mut state, 250, ALICE).unwrap();
    assert!(again.reward_transfer.is_none());
    assert_eq!(state.staking_infos[0].info.synced_at, 200);
    assert_eq!(state.account_infos[0].info.rewards_claimed, 20);
    assert_eq!(state.total_rewards_claimed, 20);
}

#[test]
fn remainder_carries_into_next_period() {
    let mut state = fresh_state(100, 10, 0);
    deposit(&mut state, 0, COLLECTION, ALICE, "7");
    exec_claim(&mut state, 250, ALICE).unwrap();
    // 50 s already elapsed toward the next period, so +50 s completes it
    let resp = exec_claim(&mut state, 300, ALICE).unwrap();
    assert_eq!(resp.reward_transfer.unwrap().amount, 10);
    assert_eq!(state.staking_infos[0].info.synced_at, 300);
    assert_eq!(state.total_rewards_claimed, 30);
}

#[test]
fn withdraw_before_min_vesting_fails() {
    let mut state = fresh_state(100, 10, 3);
    deposit(&mut state, 0, COLLECTION, ALICE, "7");
    // only 2 full periods accrued
    let err = exec_unstake(&mut state, 250, ALICE, COLLECTION, String::from("7")).unwrap_err();
    assert_eq!(err, ContractError::VestingTooShort);
    // nothing was written
    assert_eq!(state.staking_infos.len(), 1);
    assert_eq!(state.total_rewards_claimed, 0);
    assert_eq!(state.staked_nft_count, 1);
}

#[test]
fn duplicate_deposit_fails_and_mutates_nothing() {
    let mut state = fresh_state(100, 10, 0);
    deposit(&mut state, 0, COLLECTION, ALICE, "7");
    let err = exec_cw721_receive(
        &mut state,
        50,
        COLLECTION,
        BOB,
        String::from("7"),
        Cw721ReceiveInnerMsg::Stake {},
    )
    .unwrap_err();
    assert_eq!(err, ContractError::AlreadyStaked);
    assert_eq!(state.staking_infos.len(), 1);
    assert_eq!(state.staking_infos[0].info.owner, ALICE);
    assert_eq!(state.staked_nft_count, 1);
    assert_eq!(state.account_infos.len(), 1);
    assert_eq!(state.account_infos[0].info.staked_nft_count, 1);
}

#[test]
fn reward_overflow_fails_and_mutates_nothing() {
    let mut state = fresh_state(100, u128::MAX, 0);
    deposit(&mut state, 0, COLLECTION, ALICE, "7");
    // two periods owe 2 * u128::MAX, beyond the reward range
    let err = exec_claim(&mut state, 200, ALICE).unwrap_err();
    assert_eq!(err, ContractError::ArithmeticOverflow);
    assert_eq!(state.account_infos[0].info.rewards_claimed, 0);
    assert_eq!(state.total_rewards_claimed, 0);
    assert_eq!(state.staking_infos[0].info.synced_at, 0);
}

#[test]
fn one_period_of_max_reward_is_paid_exactly() {
    let mut state = fresh_state(100, u128::MAX, 0);
    deposit(&mut state, 0, COLLECTION, ALICE, "7");
    let resp = exec_claim(&mut state, 150, ALICE).unwrap();
    assert_eq!(resp.reward_transfer.unwrap().amount, u128::MAX);
    assert_eq!(state.total_rewards_claimed, u128::MAX);
}

#[test]
fn deposit_from_unknown_collection_fails() {
    let mut state = fresh_state(100, 10, 0);
    let err = exec_cw721_receive(
        &mut state,
        0,
        999,
        ALICE,
        String::from("7"),
        Cw721ReceiveInnerMsg::Stake {},
    )
    .unwrap_err();
    assert_eq!(err, ContractError::Unauthorized);
    assert_eq!(state.staking_infos.len(), 0);
}

#[test]
fn deposit_while_staking_disabled_fails() {
    let mut state = fresh_state(100, 10, 0);
    state.is_staking_enabled = false;
    let err = exec_cw721_receive(
        &mut state,
        0,
        COLLECTION,
        ALICE,
        String::from("7"),
        Cw721ReceiveInnerMsg::Stake {},
    )
    .unwrap_err();
    assert_eq!(err, ContractError::Unauthorized);
}

#[test]
fn unstake_of_unknown_item_fails() {
    let mut state = fresh_state(100, 10, 0);
    let err = exec_unstake(&mut state, 0, ALICE, COLLECTION, String::from("7")).unwrap_err();
    assert_eq!(err, ContractError::NotFound);
}

#[test]
fn unstake_by_non_owner_fails() {
    let mut state = fresh_state(100, 10, 0);
    deposit(&mut state, 0, COLLECTION, ALICE, "7");
    let err = exec_unstake(&mut state, 100, BOB, COLLECTION, String::from("7")).unwrap_err();
    assert_eq!(err, ContractError::Unauthorized);
    assert_eq!(state.staking_infos.len(), 1);
}

#[test]
fn claim_without_any_stake_history_fails() {
    let mut state = fresh_state(100, 10, 0);
    let err = exec_claim(&mut state, 100, ALICE).unwrap_err();
    assert_eq!(err, ContractError::NotFound);
}

#[test]
fn unstake_pays_final_rewards_and_returns_item() {
    let mut state = fresh_state(100, 10, 0);
    deposit(&mut state, 0, COLLECTION, ALICE, "7");
    let resp = exec_unstake(&mut state, 250, ALICE, COLLECTION, String::from("7")).unwrap();
    let transfer = resp.reward_transfer.expect("a reward is owed");
    assert_eq!(transfer.recipient, ALICE);
    assert_eq!(transfer.amount, 20);
    let ret = resp.nft_return.expect("the item goes back");
    assert_eq!(ret.cw721_addr, COLLECTION);
    assert_eq!(ret.token_id, "7");
    assert_eq!(ret.recipient, ALICE);
    assert_eq!(state.staking_infos.len(), 0);
    assert_eq!(state.staked_nft_count, 0);
    assert_eq!(state.account_infos[0].info.staked_nft_count, 0);
    assert_eq!(state.account_infos[0].info.rewards_claimed, 20);
    assert_eq!(state.total_rewards_claimed, 20);
}

#[test]
fn counters_stay_consistent_over_a_sequence() {
    let mut state = fresh_state(100, 10, 0);
    deposit(&mut state, 0, COLLECTION, ALICE, "1");
    deposit(&mut state, 0, COLLECTION, ALICE, "2");
    deposit(&mut state, 0, OTHER_COLLECTION, BOB, "1");
    deposit(&mut state, 10, COLLECTION, BOB, "9");
    exec_unstake(&mut state, 110, ALICE, COLLECTION, String::from("1")).unwrap();
    exec_unstake(&mut state, 120, BOB, COLLECTION, String::from("9")).unwrap();

    let sum: u32 = state
        .account_infos
        .iter()
        .map(|e| e.info.staked_nft_count)
        .sum();
    assert_eq!(sum, state.staked_nft_count);
    assert_eq!(state.staked_nft_count as usize, state.staking_infos.len());

    let claimed_sum: u128 = state
        .account_infos
        .iter()
        .map(|e| e.info.rewards_claimed)
        .sum();
    assert_eq!(claimed_sum, state.total_rewards_claimed);
}

#[test]
fn claimed_totals_never_decrease() {
    let mut state = fresh_state(100, 10, 0);
    deposit(&mut state, 0, COLLECTION, ALICE, "1");
    deposit(&mut state, 0, COLLECTION, BOB, "2");
    let mut last_total: u128 = 0;
    let mut last_alice: u128 = 0;
    let times: [u64; 4] = [150, 150, 380, 420];
    for (step, now) in times.iter().enumerate() {
        if step % 2 == 0 {
            exec_claim(&mut state, *now, ALICE).unwrap();
        } else {
            exec_claim(&mut state, *now, BOB).unwrap();
        }
        assert!(state.total_rewards_claimed >= last_total);
        last_total = state.total_rewards_claimed;
        let alice = state
            .account_infos
            .iter()
            .find(|e| e.addr == ALICE)
            .map(|e| e.info.rewards_claimed)
            .unwrap_or(0);
        assert!(alice >= last_alice);
        last_alice = alice;
    }
}

#[test]
fn claim_touches_only_the_callers_records() {
    let mut state = fresh_state(100, 10, 0);
    deposit(&mut state, 0, COLLECTION, ALICE, "1");
    deposit(&mut state, 0, COLLECTION, BOB, "2");
    exec_claim(&mut state, 250, ALICE).unwrap();
    assert_eq!(state.staking_infos[0].info.synced_at, 200);
    // the other account's record was not written
    assert_eq!(state.staking_infos[1].info.synced_at, 0);
    assert_eq!(state.total_rewards_claimed, 20);
}

#[test]
fn vest_one_nft_reads_without_writing() {
    let mut state = fresh_state(100, 10, 0);
    deposit(&mut state, 0, COLLECTION, ALICE, "7");
    let (amount, periods, updated) = vest_one_nft(
        &state.staking_infos,
        100,
        10,
        250,
        COLLECTION,
        &String::from("7"),
    )
    .unwrap();
    assert_eq!(amount, 20);
    assert_eq!(periods, 2);
    assert_eq!(updated.synced_at, 200);
    // the registry itself is untouched
    assert_eq!(state.staking_infos[0].info.synced_at, 0);
    let missing = vest_one_nft(
        &state.staking_infos,
        100,
        10,
        250,
        COLLECTION,
        &String::from("8"),
    );
    assert_eq!(missing.unwrap_err(), ContractError::NotFound);
}

#[test]
fn vest_nfts_sums_over_all_owned_records() {
    let mut state = fresh_state(100, 10, 0);
    deposit(&mut state, 0, COLLECTION, ALICE, "1");
    deposit(&mut state, 100, COLLECTION, ALICE, "2");
    deposit(&mut state, 0, COLLECTION, BOB, "3");
    // at t=250: item 1 owes 2 periods, item 2 owes 1 period
    let results = vest_nfts(&state.staking_infos, 250, ALICE, 100, 10).unwrap();
    assert_eq!(results.amount_vested, 30);
    assert_eq!(results.vested_staking_infos.len(), 2);
    assert_eq!(results.vested_staking_infos[0].1.synced_at, 200);
    assert_eq!(results.vested_staking_infos[1].1.synced_at, 200);
}

#[test]
fn execute_dispatches_each_command() {
    let mut state = fresh_state(100, 10, 0);
    execute(
        &mut state,
        0,
        COLLECTION,
        ExecuteMsg::ReceiveNft {
            staker_addr: ALICE,
            token_id: String::from("7"),
            inner: Cw721ReceiveInnerMsg::Stake {},
        },
    )
    .unwrap();
    assert_eq!(state.staked_nft_count, 1);
    let resp = execute(&mut state, 250, ALICE, ExecuteMsg::Claim {}).unwrap();
    assert_eq!(resp.reward_transfer.unwrap().amount, 20);
    execute(
        &mut state,
        250,
        ALICE,
        ExecuteMsg::Unstake {
            cw721_addr: COLLECTION,
            token_id: String::from("7"),
        },
    )
    .unwrap();
    assert_eq!(state.staked_nft_count, 0);
}

#[test]
fn init_records_the_configuration() {
    let state = fresh_state(3600, 42, 5);
    assert_eq!(state.config.manager_addr, 1);
    assert_eq!(state.config.allowed_cw721_addrs, vec![COLLECTION, OTHER_COLLECTION]);
    assert_eq!(state.config.vesting_period_seconds, 3600);
    assert_eq!(state.config.rewards_amount, 42);
    assert_eq!(state.config.min_vesting_periods, 5);
    assert_eq!(state.config.rewards_token.denom, "reward");
    assert!(state.is_staking_enabled);
    assert_eq!(state.staked_nft_count, 0);
    assert_eq!(state.total_rewards_claimed, 0);
    assert!(state.staking_infos.is_empty());
    assert!(state.account_infos.is_empty());
}

#[test]
fn queries_answer_the_placeholder_summaries() {
    let state = fresh_state(100, 10, 0);
    assert_eq!(query_account(&state, ALICE), AccountResponse {});
    assert_eq!(query_config(&state), ConfigResponse {});
    assert_eq!(query_metadata(&state), MetadataResponse {});
    assert_eq!(
        query(&state, QueryMsg::Account { address: ALICE }),
        QueryResult::Account(AccountResponse {})
    );
    assert_eq!(
        query(&state, QueryMsg::Config {}),
        QueryResult::Config(ConfigResponse {})
    );
    assert_eq!(
        query(&state, QueryMsg::Metadata {}),
        QueryResult::Metadata(MetadataResponse {})
    );
}

#[test]
fn checked_math_reports_range_errors() {
    assert_eq!(add_u32(3, 4), Ok(7));
    assert_eq!(add_u32(u32::MAX, 1), Err(ContractError::ArithmeticOverflow));
    assert_eq!(sub_u32(4, 3), Ok(1));
    assert_eq!(sub_u32(3, 4), Err(ContractError::ArithmeticUnderflow));
    assert_eq!(add_u128(u128::MAX - 1, 1), Ok(u128::MAX));
    assert_eq!(add_u128(u128::MAX, 1), Err(ContractError::ArithmeticOverflow));
    assert_eq!(mul_u128(6, 7), Ok(42));
    assert_eq!(
        mul_u128(u128::MAX, 2),
        Err(ContractError::ArithmeticOverflow)
    );
}

#[test]
fn deposit_counts_overflow_is_rejected() {
    let mut state = fresh_state(100, 10, 0);
    deposit(&mut state, 0, COLLECTION, ALICE, "1");
    // saturate the counters directly; such a state lies outside the
    // library's invariant, so this exercises only the runtime checked add
    state.staked_nft_count = u32::MAX;
    state.account_infos[0].info.staked_nft_count = u32::MAX;
    let err = exec_cw721_receive(
        &mut state,
        0,
        COLLECTION,
        ALICE,
        String::from("2"),
        Cw721ReceiveInnerMsg::Stake {},
    )
    .unwrap_err();
    assert_eq!(err, ContractError::ArithmeticOverflow);
}
