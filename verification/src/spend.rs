//! Spend-bundle assembly and validation for the (future) escrow spend
//! path. Signature aggregation is a stand-in until real BLS aggregation is
//! wired in, as the contracts below state.

use vstd::prelude::*;

verus! {

/// A coin on the chain.
#[derive(Debug, Clone)]
pub struct Coin {
    pub parent_coin_id: String,
    pub puzzle_hash: String,
    pub amount: u64,
}

/// One coin spent with its puzzle and solution.
#[derive(Debug, Clone)]
pub struct CoinSpend {
    pub coin: Coin,
    pub puzzle_reveal: String,
    pub solution: String,
}

/// A set of coin spends under one aggregated signature.
#[derive(Debug, Clone)]
pub struct SpendBundle {
    pub coin_spends: Vec<CoinSpend>,
    pub aggregated_signature: String,
}

/// What a dry run of a spend bundle reports.
#[derive(Debug, Clone)]
pub struct SimulationResult {
    pub success: bool,
    pub cost: u64,
    pub error: Option<String>,
}

/// Build a one-coin spend bundle; fails when no signature is supplied.
/// Aggregation is a stand-in: the first signature stands for the
/// aggregate.
pub fn build_contract_spend_bundle(coin: Coin, puzzle_reveal: String, solution: String, signatures: Vec<String>) -> (r: Result<SpendBundle, String>)
    ensures
        signatures@.len() == 0 ==> (r matches Err(m) && m@ == "No signatures provided"@),
        signatures@.len() > 0 ==> (r matches Ok(b) && {
            &&& b.coin_spends@.len() == 1
            &&& b.coin_spends@[0].coin == coin
            &&& b.coin_spends@[0].puzzle_reveal == puzzle_reveal
            &&& b.coin_spends@[0].solution == solution
            &&& b.aggregated_signature == signatures@[0]
        }),
{
    if signatures.len() == 0 {
        return Err(String::from_str("No signatures provided"));
    }
    let aggregated_signature = aggregate_first(&signatures);
    let coin_spend = CoinSpend { coin, puzzle_reveal, solution };
    let mut coin_spends: Vec<CoinSpend> = Vec::new();
    coin_spends.push(coin_spend);
    Ok(SpendBundle { coin_spends, aggregated_signature })
}

/// Stand-in aggregation: the first signature, copied.
fn aggregate_first(signatures: &Vec<String>) -> (r: String)
    requires
        signatures@.len() > 0,
    ensures
        r == signatures@[0],
{
    signatures[0].clone()
}

/// Check a spend bundle's shape before submission: it must hold at least
/// one coin spend and a non-empty aggregated signature.
pub fn validate_spend_bundle(spend_bundle: &SpendBundle) -> (r: Result<bool, String>)
    ensures
        spend_bundle.coin_spends@.len() == 0 ==> (r matches Err(m) && m@
            == "Spend bundle must contain at least one coin spend"@),
        spend_bundle.coin_spends@.len() > 0 && spend_bundle.aggregated_signature@.len() == 0 ==> (
        r matches Err(m) && m@ == "Spend bundle must have an aggregated signature"@),
        spend_bundle.coin_spends@.len() > 0 && spend_bundle.aggregated_signature@.len() > 0 ==> r
            == Ok::<bool, String>(true),
{
    if spend_bundle.coin_spends.len() == 0 {
        return Err(String::from_str("Spend bundle must contain at least one coin spend"));
    }
    if spend_bundle.aggregated_signature.as_str().is_empty() {
        return Err(String::from_str("Spend bundle must have an aggregated signature"));
    }
    Ok(true)
}

/// Dry-run a spend bundle. Until CLVM execution is wired in this reports a
/// fixed successful run.
pub fn simulate_spend(_spend_bundle: &SpendBundle) -> (r: Result<SimulationResult, String>)
    ensures
        r matches Ok(s) && s.success && s.cost == 1000000 && s.error is None,
{
    Ok(SimulationResult { success: true, cost: 1000000, error: None })
}

} // verus!
