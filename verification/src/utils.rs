//! The swap router: builds one trade instruction for an offered asset and a
//! desired asset, picking the venue. A pool swap needs the pool resolved
//! from the factory's registry; the caller hands that registry in as a
//! snapshot, and resolution failure is the router's error.

use vstd::prelude::*;

use vstd::multiset::Multiset;
use vstd::string::StrSliceExecFns;

use crate::asset::{Asset, AssetInfo, AssetInfoV, AssetV, Coin, CoinV, PairDirectory, first_pair,
    has_pair};
use crate::msg::{ExecuteMsg, ExecuteMsgV, InstrV, Instruction};
use crate::ContractError;

verus! {

/// The base stablecoin's denom.
pub open spec fn uusd_view() -> Seq<char> {
    "uusd"@
}

/// The base stablecoin's denom, as a value.
pub fn uusd() -> (r: String)
    ensures
        r@ == uusd_view(),
{
    "uusd".to_owned()
}

/// The pool swap instruction for `offer`, given the resolved pool address:
/// tokens travel with a hook message, native coins as attached funds.
pub open spec fn astroport_swap_view(offer: AssetV, pair: Seq<char>) -> InstrV {
    match offer.info {
        AssetInfoV::Token { contract_addr } => InstrV::PoolSwapToken {
            pair,
            token: contract_addr,
            amount: offer.amount,
        },
        AssetInfoV::NativeToken { denom } => InstrV::PoolSwapNative {
            pair,
            offer_denom: denom,
            amount: offer.amount,
        },
    }
}

/// Swap `offer` into `to_asset` on the pool the directory holds for that
/// pair; fails exactly when the directory holds none.
pub fn create_astroport_swap_msg(
    offer: &Asset,
    to_asset: &AssetInfo,
    pairs: &PairDirectory,
) -> (r: Result<Instruction, ContractError>)
    ensures
        has_pair(pairs.pairs.deep_view(), to_asset@, offer.info@) ==> (r matches Ok(instr)
            && instr@ == astroport_swap_view(
            offer@,
            first_pair(pairs.pairs.deep_view(), to_asset@, offer.info@),
        )),
        !has_pair(pairs.pairs.deep_view(), to_asset@, offer.info@) ==> r == Err::<
            Instruction,
            ContractError,
        >(ContractError::PairNotFound),
{
    let pair_contract = match pairs.find_pair(to_asset, &offer.info) {
        Some(p) => p,
        None => {
            return Err(ContractError::PairNotFound);
        },
    };
    match &offer.info {
        AssetInfo::Token { contract_addr } => Ok(
            Instruction::PoolSwapToken {
                pair: pair_contract,
                token: contract_addr.clone(),
                amount: offer.amount,
            },
        ),
        AssetInfo::NativeToken { denom } => Ok(
            Instruction::PoolSwapNative {
                pair: pair_contract,
                offer_denom: denom.clone(),
                amount: offer.amount,
            },
        ),
    }
}

/// Market-swap a native coin into another denom.
pub fn create_terraswap_swap_msg(
    offer_amount: u128,
    offer_denom: String,
    to_denom: String,
) -> (r: Instruction)
    ensures
        r@ == (InstrV::NativeSwap {
            offer_denom: offer_denom@,
            ask_denom: to_denom@,
            amount: offer_amount,
        }),
{
    Instruction::NativeSwap { offer_denom, ask_denom: to_denom, amount: offer_amount }
}

/// Move value between the base coin and the yield-wrapper token: redeem
/// wrapped tokens for base coins, or deposit base coins for wrapped ones.
pub fn create_aust_swap_msg(
    anchor_market_contract: String,
    aust_token_contract: String,
    amount: u128,
    to_ust: bool,
) -> (r: Instruction)
    ensures
        to_ust ==> r@ == (InstrV::YieldRedeem {
            market: anchor_market_contract@,
            token: aust_token_contract@,
            amount,
        }),
        !to_ust ==> r@ == (InstrV::YieldDeposit { market: anchor_market_contract@, amount }),
{
    if to_ust {
        Instruction::YieldRedeem {
            market: anchor_market_contract,
            token: aust_token_contract,
            amount,
        }
    } else {
        Instruction::YieldDeposit { market: anchor_market_contract, amount }
    }
}

/// Lexicographic order on names, by code point.
pub open spec fn str_le(a: Seq<char>, b: Seq<char>) -> bool
    decreases a.len(),
{
    if a.len() == 0 {
        true
    } else if b.len() == 0 {
        false
    } else if (a[0] as u32) < (b[0] as u32) {
        true
    } else if (a[0] as u32) > (b[0] as u32) {
        false
    } else {
        str_le(a.drop_first(), b.drop_first())
    }
}

pub proof fn lemma_str_le_total(a: Seq<char>, b: Seq<char>)
    ensures
        str_le(a, b) || str_le(b, a),
    decreases a.len(),
{
    if a.len() > 0 && b.len() > 0 && (a[0] as u32) == (b[0] as u32) {
        lemma_str_le_total(a.drop_first(), b.drop_first());
    }
}

pub proof fn lemma_str_le_trans(a: Seq<char>, b: Seq<char>, c: Seq<char>)
    requires
        str_le(a, b),
        str_le(b, c),
    ensures
        str_le(a, c),
    decreases a.len(),
{
    if a.len() > 0 && b.len() > 0 && c.len() > 0 && (a[0] as u32) == (b[0] as u32) && (b[0] as u32)
        == (c[0] as u32) {
        lemma_str_le_trans(a.drop_first(), b.drop_first(), c.drop_first());
    }
}

/// With an equal prefix of length i, the order is decided past it.
proof fn lemma_str_le_skip(a: Seq<char>, b: Seq<char>, i: int)
    requires
        0 <= i <= a.len(),
        i <= b.len(),
        forall|k: int| 0 <= k < i ==> a[k] == b[k],
    ensures
        str_le(a, b) == str_le(a.skip(i), b.skip(i)),
    decreases i,
{
    if i > 0 {
        assert(a.len() > 0 && b.len() > 0 && a[0] == b[0]);
        assert(str_le(a, b) == str_le(a.drop_first(), b.drop_first()));
        let a1 = a.drop_first();
        let b1 = b.drop_first();
        assert(forall|k: int| 0 <= k < i - 1 ==> a1[k] == b1[k]);
        lemma_str_le_skip(a1, b1, i - 1);
        assert(a1.skip(i - 1) =~= a.skip(i));
        assert(b1.skip(i - 1) =~= b.skip(i));
    } else {
        assert(a.skip(0) =~= a);
        assert(b.skip(0) =~= b);
    }
}

/// Compare two names in the order of [`str_le`].
pub fn denom_le(a: &String, b: &String) -> (r: bool)
    ensures
        r == str_le(a@, b@),
{
    let an = a.as_str().unicode_len();
    let bn = b.as_str().unicode_len();
    let mut i: usize = 0;
    while i < an && i < bn
        invariant
            an == a@.len(),
            bn == b@.len(),
            i <= an,
            i <= bn,
            forall|k: int| 0 <= k < i ==> a@[k] == b@[k],
        decreases an - i,
    {
        let ca = a.as_str().get_char(i);
        let cb = b.as_str().get_char(i);
        if (ca as u32) < (cb as u32) {
            proof {
                lemma_str_le_skip(a@, b@, i as int);
                assert(a@.skip(i as int)[0] == a@[i as int]);
            }
            return true;
        }
        if (ca as u32) > (cb as u32) {
            proof {
                lemma_str_le_skip(a@, b@, i as int);
                assert(a@.skip(i as int)[0] == a@[i as int]);
                assert(b@.skip(i as int)[0] == b@[i as int]);
            }
            return false;
        }
        proof {
            assert(a@[i as int] == b@[i as int]);
        }
        i = i + 1;
    }
    proof {
        lemma_str_le_skip(a@, b@, i as int);
        if i == an {
            assert(a@.skip(i as int).len() == 0);
        } else {
            assert(b@.skip(i as int).len() == 0);
            assert(a@.skip(i as int).len() > 0);
        }
    }
    an <= bn
}

/// Coins ordered by their denom.
pub open spec fn coin_le(a: CoinV, b: CoinV) -> bool {
    str_le(a.denom, b.denom)
}

/// Sorted in the order of [`coin_le`].
pub open spec fn funds_sorted(s: Seq<CoinV>) -> bool {
    forall|i: int, j: int| 0 <= i < j < s.len() ==> coin_le(s[i], s[j])
}

/// Sort coins by denom: the result holds the same coins, ordered.
pub fn sort_funds(v: Vec<Coin>) -> (r: Vec<Coin>)
    ensures
        r.deep_view().to_multiset() == v.deep_view().to_multiset(),
        funds_sorted(r.deep_view()),
{
    broadcast use vstd::seq_lib::group_to_multiset_ensures;
    broadcast use vstd::multiset::group_multiset_axioms;

    let ghost orig = v.deep_view();
    let mut src = v;
    let mut out: Vec<Coin> = Vec::new();
    proof {
        assert(out.deep_view() =~= Seq::<CoinV>::empty());
        assert(out.deep_view().to_multiset().add(src.deep_view().to_multiset())
            =~= orig.to_multiset());
    }
    while src.len() > 0
        invariant
            out.deep_view().to_multiset().add(src.deep_view().to_multiset())
                == orig.to_multiset(),
            funds_sorted(out.deep_view()),
            forall|k: int, j: int|
                0 <= k < out.deep_view().len() && 0 <= j < src.deep_view().len() ==> coin_le(
                    out.deep_view()[k],
                    src.deep_view()[j],
                ),
        decreases src.len(),
    {
        let ghost sdv = src.deep_view();
        let n = src.len();
        let mut m: usize = 0;
        let mut j: usize = 1;
        proof {
            lemma_str_le_total(sdv[0].denom, sdv[0].denom);
        }
        while j < n
            invariant
                n == src.deep_view().len(),
                sdv == src.deep_view(),
                m < j <= n,
                forall|k: int| 0 <= k < j ==> coin_le(sdv[m as int], sdv[k]),
            decreases n - j,
        {
            if !denom_le(&src[m].denom, &src[j].denom) {
                proof {
                    lemma_str_le_total(sdv[m as int].denom, sdv[j as int].denom);
                    assert forall|k: int| 0 <= k < j + 1 implies coin_le(
                        sdv[j as int],
                        sdv[k],
                    ) by {
                        if k < j {
                            lemma_str_le_trans(sdv[j as int].denom, sdv[m as int].denom,
                                sdv[k].denom);
                        } else {
                            lemma_str_le_total(sdv[j as int].denom, sdv[j as int].denom);
                        }
                    }
                }
                m = j;
            }
            j = j + 1;
        }
        proof {
            lemma_str_le_total(sdv[m as int].denom, sdv[m as int].denom);
        }
        let ghost odv = out.deep_view();
        let c = src.remove(m);
        out.push(c);
        proof {
            odv.to_multiset_ensures();
            sdv.to_multiset_ensures();
            assert(c@ == sdv[m as int]);
            assert(out.deep_view() =~= odv.push(c@));
            assert(src.deep_view() =~= sdv.remove(m as int));
            assert(sdv.contains(c@));
            assert(sdv.to_multiset().count(c@) > 0);
            assert(odv.push(c@).to_multiset() =~= odv.to_multiset().insert(c@));
            assert(sdv.remove(m as int).to_multiset() =~= sdv.to_multiset().remove(sdv[m as int]));
            assert(out.deep_view().to_multiset() =~= odv.to_multiset().insert(c@));
            assert(src.deep_view().to_multiset() =~= sdv.to_multiset().remove(c@));
            assert(odv.to_multiset().insert(c@).add(sdv.to_multiset().remove(c@))
                =~= odv.to_multiset().add(sdv.to_multiset()));
            assert(out.deep_view().to_multiset().add(src.deep_view().to_multiset())
                =~= orig.to_multiset());
            assert forall|k: int, j2: int|
                0 <= k < out.deep_view().len() && 0 <= j2 < src.deep_view().len() implies coin_le(
                out.deep_view()[k],
                src.deep_view()[j2],
            ) by {
                if j2 < m {
                    assert(src.deep_view()[j2] == sdv[j2]);
                } else {
                    assert(src.deep_view()[j2] == sdv[j2 + 1]);
                }
            }
        }
    }
    proof {
        assert(src.deep_view() =~= Seq::<CoinV>::empty());
        assert(src.deep_view().to_multiset() =~= Multiset::<CoinV>::empty());
        assert(out.deep_view().to_multiset() =~= orig.to_multiset());
    }
    out
}

} // verus!
