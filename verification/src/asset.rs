//! Assets, coins and the pool directory the swap router draws on.

use vstd::prelude::*;

verus! {

/// Which asset a balance or a swap leg refers to: a native coin named by
/// its denom, or a contract-managed token named by its contract address.
#[derive(Clone, Debug, PartialEq, Eq)]
pub enum AssetInfo {
    Token { contract_addr: String },
    NativeToken { denom: String },
}

/// An asset together with an amount of it, in the asset's minimal unit.
#[derive(Clone, Debug, PartialEq, Eq)]
pub struct Asset {
    pub info: AssetInfo,
    pub amount: u128,
}

/// A native coin: an amount of one denom.
#[derive(Clone, Debug, PartialEq, Eq)]
pub struct Coin {
    pub denom: String,
    pub amount: u128,
}

/// Mathematical image of an [`AssetInfo`]: names as character sequences.
#[verifier::ext_equal]
pub enum AssetInfoV {
    Token { contract_addr: Seq<char> },
    NativeToken { denom: Seq<char> },
}

/// Mathematical image of an [`Asset`].
#[verifier::ext_equal]
pub struct AssetV {
    pub info: AssetInfoV,
    pub amount: u128,
}

/// Mathematical image of a [`Coin`].
#[verifier::ext_equal]
pub struct CoinV {
    pub denom: Seq<char>,
    pub amount: u128,
}

impl View for AssetInfo {
    type V = AssetInfoV;

    open spec fn view(&self) -> AssetInfoV {
        match self {
            AssetInfo::Token { contract_addr } => AssetInfoV::Token {
                contract_addr: contract_addr@,
            },
            AssetInfo::NativeToken { denom } => AssetInfoV::NativeToken { denom: denom@ },
        }
    }
}

impl DeepView for AssetInfo {
    type V = AssetInfoV;

    open spec fn deep_view(&self) -> AssetInfoV {
        self.view()
    }
}

impl View for Asset {
    type V = AssetV;

    open spec fn view(&self) -> AssetV {
        AssetV { info: self.info@, amount: self.amount }
    }
}

impl DeepView for Asset {
    type V = AssetV;

    open spec fn deep_view(&self) -> AssetV {
        self.view()
    }
}

impl View for Coin {
    type V = CoinV;

    open spec fn view(&self) -> CoinV {
        CoinV { denom: self.denom@, amount: self.amount }
    }
}

impl DeepView for Coin {
    type V = CoinV;

    open spec fn deep_view(&self) -> CoinV {
        self.view()
    }
}

impl AssetInfo {
    pub fn eq_info(&self, other: &AssetInfo) -> (r: bool)
        ensures
            r == (self@ == other@),
    {
        match (self, other) {
            (
                AssetInfo::Token { contract_addr: a },
                AssetInfo::Token { contract_addr: b },
            ) => *a == *b,
            (
                AssetInfo::NativeToken { denom: a },
                AssetInfo::NativeToken { denom: b },
            ) => *a == *b,
            _ => false,
        }
    }

    pub fn dup(&self) -> (r: AssetInfo)
        ensures
            r == *self,
    {
        match self {
            AssetInfo::Token { contract_addr } => AssetInfo::Token {
                contract_addr: contract_addr.clone(),
            },
            AssetInfo::NativeToken { denom } => AssetInfo::NativeToken {
                denom: denom.clone(),
            },
        }
    }
}

impl Asset {
    pub fn dup(&self) -> (r: Asset)
        ensures
            r == *self,
    {
        Asset { info: self.info.dup(), amount: self.amount }
    }
}

/// Copy a vector of assets.
pub fn dup_assets(v: &Vec<Asset>) -> (r: Vec<Asset>)
    ensures
        r@ == v@,
{
    let mut out: Vec<Asset> = Vec::new();
    let n = v.len();
    for i in 0..n
        invariant
            n == v@.len(),
            out@ == v@.subrange(0, i as int),
    {
        out.push(v[i].dup());
    }
    assert(v@.subrange(0, n as int) == v@);
    out
}

/// One pool known to the factory: the pair of assets it trades and its
/// contract address.
#[derive(Clone, Debug, PartialEq, Eq)]
pub struct PairEntry {
    pub asset_a: AssetInfo,
    pub asset_b: AssetInfo,
    pub contract_addr: String,
}

/// Mathematical image of a [`PairEntry`].
#[verifier::ext_equal]
pub struct PairEntryV {
    pub asset_a: AssetInfoV,
    pub asset_b: AssetInfoV,
    pub contract_addr: Seq<char>,
}

impl View for PairEntry {
    type V = PairEntryV;

    open spec fn view(&self) -> PairEntryV {
        PairEntryV {
            asset_a: self.asset_a@,
            asset_b: self.asset_b@,
            contract_addr: self.contract_addr@,
        }
    }
}

impl DeepView for PairEntry {
    type V = PairEntryV;

    open spec fn deep_view(&self) -> PairEntryV {
        self.view()
    }
}

/// The factory's pair registry, as read from the chain: the router
/// resolves pools against this snapshot.
#[derive(Clone, Debug, PartialEq, Eq)]
pub struct PairDirectory {
    pub pairs: Vec<PairEntry>,
}

pub open spec fn entry_matches(e: PairEntryV, x: AssetInfoV, y: AssetInfoV) -> bool {
    (e.asset_a == x && e.asset_b == y) || (e.asset_a == y && e.asset_b == x)
}

pub open spec fn has_pair(d: Seq<PairEntryV>, x: AssetInfoV, y: AssetInfoV) -> bool {
    exists|i: int| 0 <= i < d.len() && entry_matches(d[i], x, y)
}

/// The address of the first entry trading exactly the pair {x, y}.
pub open spec fn first_pair(d: Seq<PairEntryV>, x: AssetInfoV, y: AssetInfoV) -> Seq<char>
    decreases d.len(),
{
    if d.len() == 0 {
        Seq::empty()
    } else if entry_matches(d[0], x, y) {
        d[0].contract_addr
    } else {
        first_pair(d.drop_first(), x, y)
    }
}

/// When a prefix holds no match, the first match lies beyond it.
proof fn lemma_first_pair_from(d: Seq<PairEntryV>, x: AssetInfoV, y: AssetInfoV, i: int)
    requires
        0 <= i < d.len(),
        forall|j: int| 0 <= j < i ==> !entry_matches(d[j], x, y),
        entry_matches(d[i], x, y),
    ensures
        first_pair(d, x, y) == d[i].contract_addr,
    decreases d.len(),
{
    if i > 0 {
        assert(!entry_matches(d[0], x, y));
        let tail = d.drop_first();
        assert forall|j: int| 0 <= j < i - 1 implies !entry_matches(tail[j], x, y) by {
            assert(tail[j] == d[j + 1]);
        }
        assert(tail[i - 1] == d[i]);
        lemma_first_pair_from(tail, x, y, i - 1);
    }
}

impl PairDirectory {
    /// The address of the first pool trading exactly the pair {x, y},
    /// in either order; None when the directory holds no such pool.
    pub fn find_pair(&self, x: &AssetInfo, y: &AssetInfo) -> (r: Option<String>)
        ensures
            has_pair(self.pairs.deep_view(), x@, y@) ==> (r matches Some(addr) && addr@
                == first_pair(self.pairs.deep_view(), x@, y@)),
            !has_pair(self.pairs.deep_view(), x@, y@) ==> r == None::<String>,
    {
        let ghost dv = self.pairs.deep_view();
        let n = self.pairs.len();
        for i in 0..n
            invariant
                n == self.pairs@.len(),
                dv == self.pairs.deep_view(),
                dv.len() == n,
                forall|j: int| 0 <= j < i ==> !entry_matches(dv[j], x@, y@),
        {
            let e = &self.pairs[i];
            assert(dv[i as int] == self.pairs@[i as int]@);
            let fwd = e.asset_a.eq_info(x) && e.asset_b.eq_info(y);
            let bwd = e.asset_a.eq_info(y) && e.asset_b.eq_info(x);
            if fwd || bwd {
                assert(entry_matches(dv[i as int], x@, y@));
                proof {
                    lemma_first_pair_from(dv, x@, y@, i as int);
                }
                return Some(e.contract_addr.clone());
            }
        }
        None
    }
}

} // verus!
