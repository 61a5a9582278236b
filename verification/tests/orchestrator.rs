use bbv::asset::{Asset, AssetInfo, Coin, PairDirectory, PairEntry};
use bbv::contract::{execute, instantiate, query, try_update_config, ChainView, QueryAnswer};
use bbv::dec::{dec_from_str, Dec};
use bbv::flash_loan::{repay_and_take_profit, try_flash_loan, try_user_profit};
use bbv::arb_create::{try_arb_create, try_callback_create};
use bbv::arb_redeem::{try_callback_redeem, try_swap_to_ust_and_take_profit};
use bbv::msg::{ExecuteMsg, IncentivesMsg, InstantiateMsg, Instruction, QueryMsg, Response};
use bbv::query::{BasketState, PoolReserves};
use bbv::state::State;
use bbv::utils::{create_astroport_swap_msg, create_aust_swap_msg, create_terraswap_swap_msg};
use bbv::ContractError;

fn dec(s: &str) -> Dec {
    dec_from_str(s).expect("price literal")
}

fn state() -> State {
    State {
        vault_address: "vault".to_string(),
        incentive_addres: "incentive".to_string(),
        astroport_factory_address: "factory".to_string(),
        owner_address: "owner".to_string(),
        aust_token_address: "aust".to_string(),
        anchor_market_contract: "anchor".to_string(),
    }
}

fn native(denom: &str, amount: u128) -> Asset {
    Asset { info: AssetInfo::NativeToken { denom: denom.to_string() }, amount }
}

fn token(addr: &str, amount: u128) -> Asset {
    Asset { info: AssetInfo::Token { contract_addr: addr.to_string() }, amount }
}

fn directory() -> PairDirectory {
    PairDirectory {
        pairs: vec![PairEntry {
            asset_a: AssetInfo::Token { contract_addr: "tokenA".to_string() },
            asset_b: AssetInfo::NativeToken { denom: "uusd".to_string() },
            contract_addr: "pairA".to_string(),
        }],
    }
}

fn example_basket() -> BasketState {
    BasketState {
        outstanding_supply: 500,
        inventory: vec![100, 200],
        prices: vec![dec("1.0"), dec("2.0")],
        target_weights: vec![native("uusd", 100), token("tokenA", 200)],
    }
}

#[test]
fn repay_charges_the_fixed_margin() {
    let msgs = repay_and_take_profit(
        999,
        &"me".to_string(),
        &"vault".to_string(),
        &"user".to_string(),
    )
    .expect("repay");
    assert_eq!(msgs.len(), 2);
    // 999 + ceil(999/999) = 1000
    assert_eq!(
        msgs[0],
        Instruction::SendNative { to: "vault".to_string(), denom: "uusd".to_string(), amount: 1000 }
    );
    assert_eq!(
        msgs[1],
        Instruction::Continue {
            contract: "me".to_string(),
            msg: ExecuteMsg::_UserProfit { user_address: "user".to_string() },
        }
    );

    // 1000 + ceil(1000/999) = 1002, always strictly above the principal
    let msgs = repay_and_take_profit(
        1000,
        &"me".to_string(),
        &"vault".to_string(),
        &"user".to_string(),
    )
    .expect("repay");
    match &msgs[0] {
        Instruction::SendNative { amount, .. } => assert_eq!(*amount, 1002),
        other => panic!("unexpected instruction: {:?}", other),
    }
    let msgs = repay_and_take_profit(1, &"m".to_string(), &"v".to_string(), &"u".to_string())
        .expect("repay");
    match &msgs[0] {
        Instruction::SendNative { amount, .. } => assert_eq!(*amount, 2),
        other => panic!("unexpected instruction: {:?}", other),
    }
}

#[test]
fn flash_loan_picks_redeem_below_intrinsic() {
    let st = state();
    let basket = example_basket();
    let reserves = PoolReserves { base_reserve: 9000, index_reserve: 10000 };
    let resp = try_flash_loan(
        &st,
        &"alice".to_string(),
        &"cluster".to_string(),
        None,
        &basket,
        &reserves,
    )
    .expect("flash loan");
    assert_eq!(resp.messages.len(), 1);
    match &resp.messages[0] {
        Instruction::RequestFlashLoan { vault, amount, callback } => {
            assert_eq!(vault, "vault");
            assert_eq!(*amount, 486);
            match callback {
                ExecuteMsg::_CallbackRedeem { cluster_address, user_address, loan_amount, target } => {
                    assert_eq!(cluster_address, "cluster");
                    assert_eq!(user_address, "alice");
                    assert_eq!(*loan_amount, 486);
                    assert_eq!(*target, example_basket().target_weights);
                }
                other => panic!("expected the redeem callback, got {:?}", other),
            }
        }
        other => panic!("unexpected instruction: {:?}", other),
    }
}

#[test]
fn flash_loan_picks_create_above_intrinsic() {
    let st = state();
    let basket = example_basket();
    let reserves = PoolReserves { base_reserve: 12000, index_reserve: 10000 };
    let resp = try_flash_loan(
        &st,
        &"alice".to_string(),
        &"cluster".to_string(),
        Some("bob".to_string()),
        &basket,
        &reserves,
    )
    .expect("flash loan");
    match &resp.messages[0] {
        Instruction::RequestFlashLoan { callback, .. } => match callback {
            ExecuteMsg::_CallbackCreate { user_address, prices, .. } => {
                assert_eq!(user_address, "bob");
                assert_eq!(*prices, vec![dec("1.0"), dec("2.0")]);
            }
            other => panic!("expected the create callback, got {:?}", other),
        },
        other => panic!("unexpected instruction: {:?}", other),
    }
}

#[test]
fn flash_loan_aborts_without_an_opportunity() {
    let st = state();
    let basket = BasketState {
        outstanding_supply: 10000,
        inventory: vec![100],
        prices: vec![dec("100.0")],
        target_weights: vec![native("uusd", 100)],
    };
    let reserves = PoolReserves { base_reserve: 10000, index_reserve: 10000 };
    let r = try_flash_loan(
        &st,
        &"alice".to_string(),
        &"cluster".to_string(),
        None,
        &basket,
        &reserves,
    );
    assert_eq!(r, Err(ContractError::NoArbitrageOpportunity));
}

#[test]
fn callback_create_splits_the_loan_by_value_weight() {
    let st = state();
    // weights: uusd 100*1.0 = 100 (skipped as base), tokenA 200*2.0 = 400,
    // aust 100*5.0 = 500; total = 1000
    let target = vec![native("uusd", 100), token("tokenA", 200), token("aust", 100)];
    let prices = vec![dec("1.0"), dec("2.0"), dec("5.0")];
    let resp = try_callback_create(
        &st,
        &"me".to_string(),
        &"vault".to_string(),
        "cluster".to_string(),
        "user".to_string(),
        1000,
        &target,
        &prices,
        &directory(),
    )
    .expect("callback create");
    // one pool swap for tokenA (share 400), one yield deposit (share 500),
    // then the continuation
    assert_eq!(resp.messages.len(), 3);
    assert_eq!(
        resp.messages[0],
        Instruction::PoolSwapNative {
            pair: "pairA".to_string(),
            offer_denom: "uusd".to_string(),
            amount: 400,
        }
    );
    assert_eq!(
        resp.messages[1],
        Instruction::YieldDeposit { market: "anchor".to_string(), amount: 500 }
    );
    match &resp.messages[2] {
        Instruction::Continue { contract, msg } => {
            assert_eq!(contract, "me");
            match msg {
                ExecuteMsg::_ArbCreate { loan_amount, target: t, .. } => {
                    assert_eq!(*loan_amount, 1000);
                    assert_eq!(t.len(), 3);
                }
                other => panic!("expected the mint continuation, got {:?}", other),
            }
        }
        other => panic!("unexpected instruction: {:?}", other),
    }
    // the emitted shares sum to the loan up to rounding
    assert_eq!(400 + 500 + 100, 1000);
}

#[test]
fn callback_create_gives_zero_weight_no_share() {
    let st = state();
    let target = vec![token("tokenA", 0), token("aust", 100)];
    let prices = vec![dec("2.0"), dec("1.0")];
    let resp = try_callback_create(
        &st,
        &"me".to_string(),
        &"vault".to_string(),
        "cluster".to_string(),
        "user".to_string(),
        500,
        &target,
        &prices,
        &directory(),
    )
    .expect("callback create");
    // tokenA has weight zero: no swap for it at all
    assert_eq!(resp.messages.len(), 2);
    assert_eq!(
        resp.messages[0],
        Instruction::YieldDeposit { market: "anchor".to_string(), amount: 500 }
    );
}

#[test]
fn callback_create_reports_a_missing_pool() {
    let st = state();
    let target = vec![token("tokenB", 100)];
    let prices = vec![dec("1.0")];
    let r = try_callback_create(
        &st,
        &"me".to_string(),
        &"vault".to_string(),
        "cluster".to_string(),
        "user".to_string(),
        500,
        &target,
        &prices,
        &directory(),
    );
    assert_eq!(r, Err(ContractError::PairNotFound));
}

#[test]
fn arb_create_offers_measured_balances_with_sorted_funds() {
    let st = state();
    let target = vec![native("uusd", 100), native("uluna", 50), token("tokenA", 10)];
    let balances = vec![90, 60, 11];
    let resp = try_arb_create(
        &st,
        &"me".to_string(),
        &"me".to_string(),
        "cluster".to_string(),
        "user".to_string(),
        1000,
        &target,
        &balances,
    )
    .expect("arb create");
    // allowance for the token, the mint-and-sell, then repay and sweep
    assert_eq!(resp.messages.len(), 4);
    assert_eq!(
        resp.messages[0],
        Instruction::IncreaseAllowance {
            token: "tokenA".to_string(),
            spender: "incentive".to_string(),
            amount: 11,
        }
    );
    match &resp.messages[1] {
        Instruction::Incentives { incentive, funds, msg } => {
            assert_eq!(incentive, "incentive");
            // sorted by denom: uluna before uusd, with the measured amounts
            assert_eq!(
                *funds,
                vec![
                    Coin { denom: "uluna".to_string(), amount: 60 },
                    Coin { denom: "uusd".to_string(), amount: 90 },
                ]
            );
            match msg {
                IncentivesMsg::ArbClusterCreate { cluster_contract, assets, min_ust } => {
                    assert_eq!(cluster_contract, "cluster");
                    assert_eq!(*min_ust, Some(1));
                    assert_eq!(
                        *assets,
                        vec![native("uusd", 90), native("uluna", 60), token("tokenA", 11)]
                    );
                }
                other => panic!("expected the mint request, got {:?}", other),
            }
        }
        other => panic!("unexpected instruction: {:?}", other),
    }
    match &resp.messages[2] {
        Instruction::SendNative { to, amount, .. } => {
            assert_eq!(to, "vault");
            assert_eq!(*amount, 1000 + 2); // ceil(1000/999) = 2
        }
        other => panic!("unexpected instruction: {:?}", other),
    }
}

#[test]
fn callback_redeem_buys_and_continues() {
    let st = state();
    let target = vec![token("tokenA", 200)];
    let resp = try_callback_redeem(
        &st,
        &"me".to_string(),
        &"vault".to_string(),
        "cluster".to_string(),
        "user".to_string(),
        486,
        &target,
    )
    .expect("callback redeem");
    assert_eq!(resp.messages.len(), 2);
    match &resp.messages[0] {
        Instruction::Incentives { incentive, funds, msg } => {
            assert_eq!(incentive, "incentive");
            assert_eq!(*funds, vec![Coin { denom: "uusd".to_string(), amount: 486 }]);
            match msg {
                IncentivesMsg::ArbClusterRedeem { cluster_contract, asset, min_cluster } => {
                    assert_eq!(cluster_contract, "cluster");
                    assert_eq!(*asset, native("uusd", 486));
                    assert_eq!(*min_cluster, Some(1));
                }
                other => panic!("expected the redeem request, got {:?}", other),
            }
        }
        other => panic!("unexpected instruction: {:?}", other),
    }
}

#[test]
fn liquidation_skips_base_and_empty_balances() {
    let st = state();
    let target = vec![
        native("uusd", 100),
        native("uluna", 50),
        token("aust", 10),
        token("tokenA", 20),
        token("tokenB", 5),
    ];
    let balances = vec![1000, 40, 7, 21, 0];
    let resp = try_swap_to_ust_and_take_profit(
        &st,
        &"me".to_string(),
        &"me".to_string(),
        "user".to_string(),
        486,
        &target,
        &balances,
        &directory(),
    )
    .expect("liquidation");
    // uusd skipped, tokenB skipped (zero balance); 3 swaps + repay + sweep
    assert_eq!(resp.messages.len(), 5);
    assert_eq!(
        resp.messages[0],
        Instruction::NativeSwap {
            offer_denom: "uluna".to_string(),
            ask_denom: "uusd".to_string(),
            amount: 40,
        }
    );
    assert_eq!(
        resp.messages[1],
        Instruction::YieldRedeem {
            market: "anchor".to_string(),
            token: "aust".to_string(),
            amount: 7,
        }
    );
    assert_eq!(
        resp.messages[2],
        Instruction::PoolSwapToken {
            pair: "pairA".to_string(),
            token: "tokenA".to_string(),
            amount: 21,
        }
    );
}

#[test]
fn unauthorized_callers_are_rejected_with_no_messages() {
    let st = state();
    let stranger = "mallory".to_string();
    let target = vec![token("tokenA", 1)];
    let prices = vec![dec("1.0")];
    let balances = vec![1];
    assert_eq!(
        try_callback_redeem(
            &st,
            &"me".to_string(),
            &stranger,
            "c".to_string(),
            "u".to_string(),
            1,
            &target,
        ),
        Err(ContractError::Unauthorized)
    );
    assert_eq!(
        try_callback_create(
            &st,
            &"me".to_string(),
            &stranger,
            "c".to_string(),
            "u".to_string(),
            1,
            &target,
            &prices,
            &directory(),
        ),
        Err(ContractError::Unauthorized)
    );
    assert_eq!(
        try_arb_create(
            &st,
            &"me".to_string(),
            &stranger,
            "c".to_string(),
            "u".to_string(),
            1,
            &target,
            &balances,
        ),
        Err(ContractError::Unauthorized)
    );
    assert_eq!(
        try_swap_to_ust_and_take_profit(
            &st,
            &"me".to_string(),
            &stranger,
            "u".to_string(),
            1,
            &target,
            &balances,
            &directory(),
        ),
        Err(ContractError::Unauthorized)
    );
    assert_eq!(
        try_user_profit(&"me".to_string(), &stranger, &"u".to_string(), 5),
        Err(ContractError::Unauthorized)
    );
}

#[test]
fn user_profit_sweeps_the_whole_balance() {
    let resp = try_user_profit(&"me".to_string(), &"me".to_string(), &"user".to_string(), 777)
        .expect("profit");
    assert_eq!(
        resp.messages,
        vec![Instruction::SendNative {
            to: "user".to_string(),
            denom: "uusd".to_string(),
            amount: 777,
        }]
    );
}

#[test]
fn router_picks_the_right_venue() {
    let dir = directory();
    let to_uusd = AssetInfo::NativeToken { denom: "uusd".to_string() };
    let swap = create_astroport_swap_msg(&token("tokenA", 5), &to_uusd, &dir).expect("pool");
    assert_eq!(
        swap,
        Instruction::PoolSwapToken {
            pair: "pairA".to_string(),
            token: "tokenA".to_string(),
            amount: 5,
        }
    );
    let swap = create_astroport_swap_msg(
        &native("uusd", 9),
        &AssetInfo::Token { contract_addr: "tokenA".to_string() },
        &dir,
    )
    .expect("pool");
    assert_eq!(
        swap,
        Instruction::PoolSwapNative {
            pair: "pairA".to_string(),
            offer_denom: "uusd".to_string(),
            amount: 9,
        }
    );
    assert_eq!(
        create_astroport_swap_msg(&token("tokenB", 5), &to_uusd, &dir),
        Err(ContractError::PairNotFound)
    );

    assert_eq!(
        create_aust_swap_msg("anchor".to_string(), "aust".to_string(), 3, true),
        Instruction::YieldRedeem {
            market: "anchor".to_string(),
            token: "aust".to_string(),
            amount: 3,
        }
    );
    assert_eq!(
        create_aust_swap_msg("anchor".to_string(), "aust".to_string(), 3, false),
        Instruction::YieldDeposit { market: "anchor".to_string(), amount: 3 }
    );
    assert_eq!(
        create_terraswap_swap_msg(12, "uluna".to_string(), "uusd".to_string()),
        Instruction::NativeSwap {
            offer_denom: "uluna".to_string(),
            ask_denom: "uusd".to_string(),
            amount: 12,
        }
    );
}

#[test]
fn instantiate_and_update_config() {
    let msg = InstantiateMsg {
        vault_address: "vault".to_string(),
        incentive_address: "incentive".to_string(),
        astroport_factory_address: "factory".to_string(),
        aust_token_address: "aust".to_string(),
        anchor_market_contract: "anchor".to_string(),
    };
    let mut st = instantiate(msg, "owner".to_string());
    assert_eq!(st, state());

    // only the owner may reconfigure
    assert_eq!(
        try_update_config(&mut st, &"mallory".to_string(), None, None, None, None),
        Err(ContractError::Unauthorized)
    );
    assert_eq!(st, state());

    let r = try_update_config(
        &mut st,
        &"owner".to_string(),
        Some("vault2".to_string()),
        None,
        None,
        Some("owner2".to_string()),
    )
    .expect("update");
    assert_eq!(r, Response { messages: vec![] });
    assert_eq!(st.vault_address, "vault2");
    assert_eq!(st.owner_address, "owner2");
    assert_eq!(st.incentive_addres, "incentive");
}

#[test]
fn queries_answer_from_the_snapshots_alone() {
    let st = state();
    let basket = example_basket();
    let reserves = PoolReserves { base_reserve: 9000, index_reserve: 10000 };
    match query(&st, &QueryMsg::UstVaultAddress {}, &basket, &reserves).expect("query") {
        QueryAnswer::UstVaultAddress(v) => assert_eq!(v.vault_address, "vault"),
        other => panic!("unexpected answer: {:?}", other),
    }
    let q = QueryMsg::EstimateArbitrage { cluster_address: "cluster".to_string() };
    let first = query(&st, &q, &basket, &reserves).expect("query");
    let second = query(&st, &q, &basket, &reserves).expect("query");
    assert_eq!(first, second);
    match first {
        QueryAnswer::EstimateArbitrage(e) => assert_eq!(e.arbitrage_cost, 486),
        other => panic!("unexpected answer: {:?}", other),
    }
}

#[test]
fn execute_dispatches_and_authenticates() {
    let mut st = state();
    let view = ChainView {
        basket: example_basket(),
        reserves: PoolReserves { base_reserve: 9000, index_reserve: 10000 },
        balances: vec![],
        base_balance: 55,
        pairs: directory(),
    };
    let resp = execute(
        &mut st,
        &"me".to_string(),
        &"alice".to_string(),
        ExecuteMsg::FlashLoan { cluster_address: "cluster".to_string(), user_address: None },
        &view,
    )
    .expect("flash loan");
    assert_eq!(resp.messages.len(), 1);

    // a continuation from a stranger is rejected and emits nothing
    let r = execute(
        &mut st,
        &"me".to_string(),
        &"mallory".to_string(),
        ExecuteMsg::_UserProfit { user_address: "mallory".to_string() },
        &view,
    );
    assert_eq!(r, Err(ContractError::Unauthorized));

    let resp = execute(
        &mut st,
        &"me".to_string(),
        &"me".to_string(),
        ExecuteMsg::_UserProfit { user_address: "alice".to_string() },
        &view,
    )
    .expect("profit");
    assert_eq!(
        resp.messages,
        vec![Instruction::SendNative {
            to: "alice".to_string(),
            denom: "uusd".to_string(),
            amount: 55,
        }]
    );
}
