use bbv::dec::{dec_from_str, Dec};
use bbv::msg::ClusterStateResponse;
use bbv::query::{
    cluster_state_to_basket, estimate_arbitrage, select_strategy, BasketState, PoolReserves,
    Strategy,
};
use bbv::ContractError;

fn dec(s: &str) -> Dec {
    dec_from_str(s).expect("price literal")
}

fn example_basket() -> BasketState {
    BasketState {
        outstanding_supply: 500,
        inventory: vec![100, 200],
        prices: vec![dec("1.0"), dec("2.0")],
        target_weights: vec![
            bbv::asset::Asset {
                info: bbv::asset::AssetInfo::NativeToken { denom: "uusd".to_string() },
                amount: 100,
            },
            bbv::asset::Asset {
                info: bbv::asset::AssetInfo::Token { contract_addr: "tokenA".to_string() },
                amount: 200,
            },
        ],
    }
}

#[test]
fn example_scenario_prices_and_size() {
    // inventory [100, 200], prices [1.0, 2.0], supply 500 -> intrinsic 1.0;
    // reserves 9000/10000 -> market 0.9; trade = sqrt(1.0*10000*9000) - 9000.
    let basket = example_basket();
    let reserves = PoolReserves { base_reserve: 9000, index_reserve: 10000 };
    let est = estimate_arbitrage(&basket, &reserves).expect("estimate");
    assert_eq!(est.intrinsic_price.atomics, 1_000_000_000_000_000_000);
    assert_eq!(est.market_price.atomics, 900_000_000_000_000_000);
    assert_eq!(est.arbitrage_cost, 486);
    assert_eq!(est.inv, vec![100, 200]);
    assert_eq!(est.prices, vec![dec("1.0"), dec("2.0")]);
}

#[test]
fn strategy_follows_price_comparison() {
    assert_eq!(select_strategy(&dec("0.9"), &dec("1.0")), Strategy::RedeemPath);
    assert_eq!(select_strategy(&dec("1.1"), &dec("1.0")), Strategy::CreatePath);
    // ties resolve to the create path
    assert_eq!(select_strategy(&dec("1.0"), &dec("1.0")), Strategy::CreatePath);
}

#[test]
fn redeem_trade_moves_price_at_most_to_intrinsic() {
    let basket = example_basket();
    let reserves = PoolReserves { base_reserve: 9000, index_reserve: 10000 };
    let est = estimate_arbitrage(&basket, &reserves).expect("estimate");
    let new_base: u128 = reserves.base_reserve + est.arbitrage_cost;
    // (base + trade)^2 * 10^18 <= intrinsic_atomics * base_reserve * index_reserve
    let lhs = (new_base * new_base) as u128 * 1_000_000_000_000_000_000u128;
    let rhs = est.intrinsic_price.atomics * reserves.base_reserve * reserves.index_reserve;
    assert!(lhs <= rhs);
    // and the price after the trade is within 0.1% of intrinsic from below
    let price_after_num = new_base * new_base; // over k = 9000 * 10000
    let k: u128 = 9000 * 10000;
    assert!(price_after_num * 1000 >= 999 * k); // price >= 0.999
}

#[test]
fn trade_size_grows_with_the_spread() {
    // same reserves, increasing intrinsic price
    let reserves = PoolReserves { base_reserve: 9000, index_reserve: 10000 };
    let mut last = 0u128;
    for p in ["0.95", "1.0", "1.2", "1.5", "2.0"] {
        let basket = BasketState {
            outstanding_supply: 100,
            inventory: vec![100],
            prices: vec![dec(p)],
            target_weights: vec![bbv::asset::Asset {
                info: bbv::asset::AssetInfo::NativeToken { denom: "uusd".to_string() },
                amount: 100,
            }],
        };
        let est = estimate_arbitrage(&basket, &reserves).expect("estimate");
        assert!(est.market_price.atomics < est.intrinsic_price.atomics);
        assert!(est.arbitrage_cost >= last);
        last = est.arbitrage_cost;
    }
    assert!(last > 0);
}

#[test]
fn create_trade_grows_with_the_spread_near_the_market() {
    // same reserves, intrinsic price falling away from the market price of
    // 0.9: the mint-and-sell trade grows with the spread
    let reserves = PoolReserves { base_reserve: 9000, index_reserve: 10000 };
    let mut last = 0u128;
    for p in ["0.9", "0.85", "0.8", "0.7", "0.5"] {
        let basket = BasketState {
            outstanding_supply: 100,
            inventory: vec![100],
            prices: vec![dec(p)],
            target_weights: vec![bbv::asset::Asset {
                info: bbv::asset::AssetInfo::NativeToken { denom: "uusd".to_string() },
                amount: 100,
            }],
        };
        let est = estimate_arbitrage(&basket, &reserves).expect("estimate");
        assert!(est.market_price.atomics >= est.intrinsic_price.atomics);
        assert!(est.arbitrage_cost >= last);
        last = est.arbitrage_cost;
    }
    assert!(last > 0);

    // the closed form turns over once the intrinsic price falls below a
    // quarter of the market price: a still wider spread sizes a smaller
    // trade there
    let sized = |p: &str| {
        let basket = BasketState {
            outstanding_supply: 100,
            inventory: vec![100],
            prices: vec![dec(p)],
            target_weights: vec![bbv::asset::Asset {
                info: bbv::asset::AssetInfo::NativeToken { denom: "uusd".to_string() },
                amount: 100,
            }],
        };
        estimate_arbitrage(&basket, &reserves).expect("estimate").arbitrage_cost
    };
    assert!(sized("0.1") < sized("0.225"));
}

#[test]
fn estimate_is_idempotent() {
    let basket = example_basket();
    let reserves = PoolReserves { base_reserve: 9000, index_reserve: 10000 };
    let first = estimate_arbitrage(&basket, &reserves).expect("estimate");
    let second = estimate_arbitrage(&basket, &reserves).expect("estimate");
    assert_eq!(first, second);
}

#[test]
fn empty_supply_is_division_by_zero() {
    let mut basket = example_basket();
    basket.outstanding_supply = 0;
    let reserves = PoolReserves { base_reserve: 9000, index_reserve: 10000 };
    assert_eq!(
        estimate_arbitrage(&basket, &reserves),
        Err(ContractError::DivisionByZero)
    );
}

#[test]
fn empty_index_reserve_is_division_by_zero() {
    let basket = example_basket();
    let reserves = PoolReserves { base_reserve: 9000, index_reserve: 0 };
    assert_eq!(
        estimate_arbitrage(&basket, &reserves),
        Err(ContractError::DivisionByZero)
    );
}

#[test]
fn oversized_values_overflow() {
    let basket = BasketState {
        outstanding_supply: 1,
        inventory: vec![u128::MAX],
        prices: vec![dec("1000000000000.0")],
        target_weights: vec![bbv::asset::Asset {
            info: bbv::asset::AssetInfo::NativeToken { denom: "uusd".to_string() },
            amount: 1,
        }],
    };
    let reserves = PoolReserves { base_reserve: 9000, index_reserve: 10000 };
    assert_eq!(
        estimate_arbitrage(&basket, &reserves),
        Err(ContractError::ArithmeticOverflow)
    );
}

#[test]
fn balanced_market_offers_nothing() {
    // intrinsic exactly the market price: the sized trade is zero
    let basket = BasketState {
        outstanding_supply: 10000,
        inventory: vec![100],
        prices: vec![dec("100.0")],
        target_weights: vec![bbv::asset::Asset {
            info: bbv::asset::AssetInfo::NativeToken { denom: "uusd".to_string() },
            amount: 100,
        }],
    };
    let reserves = PoolReserves { base_reserve: 10000, index_reserve: 10000 };
    let est = estimate_arbitrage(&basket, &reserves).expect("estimate");
    assert_eq!(est.market_price.atomics, est.intrinsic_price.atomics);
    assert_eq!(est.arbitrage_cost, 0);
}

#[test]
fn parses_decimal_strings_exactly() {
    assert_eq!(dec("1.0").atomics, 1_000_000_000_000_000_000);
    assert_eq!(dec("0.5").atomics, 500_000_000_000_000_000);
    assert_eq!(dec("2.0").atomics, 2_000_000_000_000_000_000);
    assert_eq!(dec("123").atomics, 123_000_000_000_000_000_000);
    assert_eq!(dec("0.000000000000000001").atomics, 1);
    assert_eq!(dec("1.5").atomics, 1_500_000_000_000_000_000);
}

#[test]
fn rejects_malformed_decimal_strings() {
    assert_eq!(dec_from_str(""), None);
    assert_eq!(dec_from_str("."), None);
    assert_eq!(dec_from_str(".5"), None);
    assert_eq!(dec_from_str("1."), None);
    assert_eq!(dec_from_str("1..2"), None);
    assert_eq!(dec_from_str("12a"), None);
    assert_eq!(dec_from_str("1.2.3"), None);
    assert_eq!(dec_from_str("1.1234567890123456789"), None);
    // the whole part alone already leaves the 128-bit range
    assert_eq!(dec_from_str("340282366920938463464"), None);
}

#[test]
fn reads_cluster_state_into_the_basket_model() {
    let resp = ClusterStateResponse {
        outstanding_balance_tokens: 500,
        prices: vec!["1.0".to_string(), "2.0".to_string()],
        inv: vec![100, 200],
        penalty: "penalty".to_string(),
        cluster_token: "cluster_token".to_string(),
        target: example_basket().target_weights,
        cluster_contract_address: "cluster".to_string(),
        active: true,
    };
    let basket = cluster_state_to_basket(&resp).expect("usable");
    assert_eq!(basket.outstanding_supply, 500);
    assert_eq!(basket.inventory, vec![100, 200]);
    assert_eq!(basket.prices, vec![dec("1.0"), dec("2.0")]);

    let mut bad = resp.clone();
    bad.prices = vec!["1.0".to_string(), "x".to_string()];
    assert_eq!(cluster_state_to_basket(&bad), None);

    let mut short = resp;
    short.inv = vec![100];
    assert_eq!(cluster_state_to_basket(&short), None);
}
