use vstd::prelude::*;

verus! {

/// Gas that the aggregator spends answering a batch.
pub const AGGREGATOR_GAS_COST: u128 = 400_000;

/// Gas of a batch submission regardless of its size.
pub const BATCHER_SUBMISSION_BASE_GAS_COST: u128 = 125_000;

/// Gas that each proof adds to a batch submission.
pub const ADDITIONAL_SUBMISSION_GAS_COST_PER_PROOF: u128 = 13_000;

/// Multiplier and divider that raise the aggregator's fee above its estimate.
pub const DEFAULT_AGGREGATOR_FEE_MULTIPLIER: u128 = 3;
pub const DEFAULT_AGGREGATOR_FEE_DIVIDER: u128 = 2;

/// Multiplier and divider from the aggregator's fee to the respond-to-task limit.
pub const RESPOND_TO_TASK_FEE_LIMIT_MULTIPLIER: u128 = 5;
pub const RESPOND_TO_TASK_FEE_LIMIT_DIVIDER: u128 = 2;

/// Gas of a batch that does not depend on its size, the aggregator's share included.
pub const CONSTANT_GAS_COST: u128 = AGGREGATOR_GAS_COST * DEFAULT_AGGREGATOR_FEE_MULTIPLIER
    / DEFAULT_AGGREGATOR_FEE_DIVIDER + BATCHER_SUBMISSION_BASE_GAS_COST;

/// The lowest `max_fee` a request may carry: the per-proof gas at a low gas price.
pub const MIN_FEE_PER_PROOF: u128 = ADDITIONAL_SUBMISSION_GAS_COST_PER_PROOF * 100_000_000;

/// The `max_fee` used for requests signed on behalf of others: a high gas price.
pub const DEFAULT_MAX_FEE_PER_PROOF: u128 = ADDITIONAL_SUBMISSION_GAS_COST_PER_PROOF
    * 100_000_000_000;

/// Percentages that bump the gas price of a replacing transaction.
pub const OVERRIDE_GAS_PRICE_PERCENTAGE_MULTIPLIER: u128 = 120;
pub const GAS_PRICE_INCREMENT_PERCENTAGE_PER_ITERATION: u128 = 5;
pub const PERCENTAGE_DIVIDER: u128 = 100;

/// Batch size used for fee estimates, and the share of it that the default estimate pays.
pub const MAX_FEE_BATCH_PROOF_NUMBER: usize = 32;
pub const MAX_FEE_DEFAULT_PROOF_NUMBER: usize = 10;

/// Gas per proof in a batch of `n` proofs: the constant cost amortised plus the per-proof cost.
pub open spec fn gas_per_proof_spec(n: nat) -> int
    recommends
        n >= 1,
{
    (CONSTANT_GAS_COST + ADDITIONAL_SUBMISSION_GAS_COST_PER_PROOF * n) / (n as int)
}

/// The fee each proof pays in a batch of `n` proofs at the given gas price.
pub open spec fn fee_per_proof_spec(n: nat, gas_price: int) -> int {
    gas_per_proof_spec(n) * gas_price
}

/// The aggregator's fee at the given gas price.
pub open spec fn fee_for_aggregator_spec(gas_price: int) -> int {
    AGGREGATOR_GAS_COST * gas_price * DEFAULT_AGGREGATOR_FEE_MULTIPLIER
        / DEFAULT_AGGREGATOR_FEE_DIVIDER as int
}

/// The limit on the fee of answering the task.
pub open spec fn respond_to_task_fee_limit_spec(gas_price: int) -> int {
    fee_for_aggregator_spec(gas_price) * RESPOND_TO_TASK_FEE_LIMIT_MULTIPLIER
        / RESPOND_TO_TASK_FEE_LIMIT_DIVIDER as int
}

/// Whether a value fits in 128 bits.
pub open spec fn fits_u128(v: int) -> bool {
    0 <= v <= u128::MAX
}

/// Gas per proof in a batch of `n` proofs.
pub fn gas_per_proof(n: usize) -> (r: u128)
    requires
        n >= 1,
    ensures
        r == gas_per_proof_spec(n as nat),
        r <= CONSTANT_GAS_COST + ADDITIONAL_SUBMISSION_GAS_COST_PER_PROOF,
{
    let nn = n as u128;
    let total = CONSTANT_GAS_COST + ADDITIONAL_SUBMISSION_GAS_COST_PER_PROOF * nn;
    let r = total / nn;
    assert(r <= CONSTANT_GAS_COST + ADDITIONAL_SUBMISSION_GAS_COST_PER_PROOF) by (nonlinear_arith)
        requires
            r == total / nn,
            total == CONSTANT_GAS_COST + ADDITIONAL_SUBMISSION_GAS_COST_PER_PROOF * nn,
            nn >= 1,
    ;
    r
}

/// The fee per proof in a batch of `n` proofs, or `None` where it exceeds 128 bits.
pub fn fee_per_proof(n: usize, gas_price: u128) -> (r: Option<u128>)
    requires
        n >= 1,
    ensures
        r == (if fits_u128(fee_per_proof_spec(n as nat, gas_price as int)) {
            Some(fee_per_proof_spec(n as nat, gas_price as int) as u128)
        } else {
            None::<u128>
        }),
{
    let g = gas_per_proof(n);
    g.checked_mul(gas_price)
}

/// Whether the fee per proof in a batch of `n` proofs exceeds `limit`.
pub fn fee_per_proof_exceeds(n: usize, gas_price: u128, limit: u128) -> (r: bool)
    requires
        n >= 1,
    ensures
        r == (fee_per_proof_spec(n as nat, gas_price as int) > limit),
{
    match fee_per_proof(n, gas_price) {
        Some(f) => f > limit,
        None => true,
    }
}

/// The fee parameters of a task registration.
#[derive(Clone, Copy, Debug)]
pub struct CreateNewTaskFeeParams {
    pub fee_for_aggregator: u128,
    pub fee_per_proof: u128,
    pub gas_price: u128,
    pub respond_to_task_fee_limit: u128,
}

/// The fee parameters for registering a batch of `n` proofs at the given gas
/// price, or `None` where one of them exceeds 128 bits.
pub fn create_new_task_fee_params(n: usize, gas_price: u128) -> (r: Option<CreateNewTaskFeeParams>)
    requires
        n >= 1,
    ensures
        r.is_some() == (fits_u128(fee_per_proof_spec(n as nat, gas_price as int)) && fits_u128(
            AGGREGATOR_GAS_COST * gas_price * DEFAULT_AGGREGATOR_FEE_MULTIPLIER,
        ) && fits_u128(fee_for_aggregator_spec(gas_price as int)
            * RESPOND_TO_TASK_FEE_LIMIT_MULTIPLIER)),
        r matches Some(p) ==> {
            &&& p.fee_per_proof == fee_per_proof_spec(n as nat, gas_price as int)
            &&& p.fee_for_aggregator == fee_for_aggregator_spec(gas_price as int)
            &&& p.respond_to_task_fee_limit == respond_to_task_fee_limit_spec(gas_price as int)
            &&& p.gas_price == gas_price
        },
{
    let fee_per_proof = match fee_per_proof(n, gas_price) {
        Some(f) => f,
        None => return None,
    };
    let aggregator_gas = match AGGREGATOR_GAS_COST.checked_mul(gas_price) {
        Some(v) => v,
        None => {
            assert(AGGREGATOR_GAS_COST * gas_price * DEFAULT_AGGREGATOR_FEE_MULTIPLIER > u128::MAX)
                by (nonlinear_arith)
                requires
                    AGGREGATOR_GAS_COST * gas_price > u128::MAX,
            ;
            return None;
        },
    };
    let raised = match aggregator_gas.checked_mul(DEFAULT_AGGREGATOR_FEE_MULTIPLIER) {
        Some(v) => v,
        None => return None,
    };
    let fee_for_aggregator = raised / DEFAULT_AGGREGATOR_FEE_DIVIDER;
    let limit = match fee_for_aggregator.checked_mul(RESPOND_TO_TASK_FEE_LIMIT_MULTIPLIER) {
        Some(v) => v,
        None => return None,
    };
    Some(
        CreateNewTaskFeeParams {
            fee_for_aggregator,
            fee_per_proof,
            gas_price,
            respond_to_task_fee_limit: limit / RESPOND_TO_TASK_FEE_LIMIT_DIVIDER,
        },
    )
}

/// The percentage applied to the gas price at the given retry iteration.
pub open spec fn bump_percentage(iteration: int) -> int {
    OVERRIDE_GAS_PRICE_PERCENTAGE_MULTIPLIER + GAS_PRICE_INCREMENT_PERCENTAGE_PER_ITERATION
        * iteration
}

/// A gas price raised by the bump percentage of the iteration.
pub open spec fn bumped(price: int, iteration: int) -> int {
    price * bump_percentage(iteration) / PERCENTAGE_DIVIDER as int
}

/// The gas price for replacing a stuck transaction: the larger of the bumped
/// previous and bumped current price, or `None` where that exceeds 128 bits.
pub fn get_bumped_gas_price(previous_gas_price: u128, current_gas_price: u128, iteration: usize) -> (r: Option<u128>)
    ensures
        r.is_some() == (fits_u128(previous_gas_price * bump_percentage(iteration as int))
            && fits_u128(current_gas_price * bump_percentage(iteration as int))),
        r matches Some(v) ==> v == if bumped(previous_gas_price as int, iteration as int) >= bumped(
            current_gas_price as int,
            iteration as int,
        ) {
            bumped(previous_gas_price as int, iteration as int)
        } else {
            bumped(current_gas_price as int, iteration as int)
        },
{
    let step = (iteration as u128) * GAS_PRICE_INCREMENT_PERCENTAGE_PER_ITERATION;
    let multiplier = OVERRIDE_GAS_PRICE_PERCENTAGE_MULTIPLIER + step;
    let prev = match previous_gas_price.checked_mul(multiplier) {
        Some(v) => v,
        None => return None,
    };
    let cur = match current_gas_price.checked_mul(multiplier) {
        Some(v) => v,
        None => return None,
    };
    let bumped_previous = prev / PERCENTAGE_DIVIDER;
    let bumped_current = cur / PERCENTAGE_DIVIDER;
    if bumped_previous >= bumped_current {
        Some(bumped_previous)
    } else {
        Some(bumped_current)
    }
}

/// The `max_fee` that pays for `num_proofs` proofs of a batch of
/// `num_proofs_per_batch`, or `None` where it exceeds 128 bits.
pub fn compute_max_fee(gas_price: u128, num_proofs: usize, num_proofs_per_batch: usize) -> (r: Option<u128>)
    requires
        num_proofs_per_batch >= 1,
    ensures
        r.is_some() == fits_u128(
            fee_per_proof_spec(num_proofs_per_batch as nat, gas_price as int) * num_proofs,
        ),
        r matches Some(v) ==> v == fee_per_proof_spec(num_proofs_per_batch as nat, gas_price as int)
            * num_proofs,
{
    let g = gas_per_proof(num_proofs_per_batch);
    let f = match g.checked_mul(gas_price) {
        Some(v) => v,
        None => {
            let ghost fee = fee_per_proof_spec(num_proofs_per_batch as nat, gas_price as int);
            if num_proofs == 0 {
                // an overflowing fee per proof still overflows nothing when multiplied by zero
                return Some(0);
            }
            assert(fee * num_proofs >= fee) by (nonlinear_arith)
                requires
                    num_proofs >= 1,
                    fee >= 0,
            ;
            return None;
        },
    };
    f.checked_mul(num_proofs as u128)
}

/// How soon a submitter wants its proof included.
#[derive(Clone, Copy, Debug, PartialEq, Eq, Structural)]
pub enum PriceEstimate {
    /// One proof's share of a full estimation batch.
    Min,
    /// The share of the default number of proofs.
    Default,
    /// The whole estimation batch.
    Instant,
}

/// The number of proofs of the estimation batch that an estimate pays for.
pub open spec fn estimate_share(e: PriceEstimate) -> nat {
    match e {
        PriceEstimate::Min => 1,
        PriceEstimate::Default => MAX_FEE_DEFAULT_PROOF_NUMBER as nat,
        PriceEstimate::Instant => MAX_FEE_BATCH_PROOF_NUMBER as nat,
    }
}

/// The `max_fee` suggested for an estimate at the given gas price.
pub fn estimate_fee(gas_price: u128, estimate: PriceEstimate) -> (r: Option<u128>)
    ensures
        r.is_some() == fits_u128(
            fee_per_proof_spec(MAX_FEE_BATCH_PROOF_NUMBER as nat, gas_price as int)
                * estimate_share(estimate),
        ),
        r matches Some(v) ==> v == fee_per_proof_spec(
            MAX_FEE_BATCH_PROOF_NUMBER as nat,
            gas_price as int,
        ) * estimate_share(estimate),
{
    let share: usize = match estimate {
        PriceEstimate::Min => 1,
        PriceEstimate::Default => MAX_FEE_DEFAULT_PROOF_NUMBER,
        PriceEstimate::Instant => MAX_FEE_BATCH_PROOF_NUMBER,
    };
    compute_max_fee(gas_price, share, MAX_FEE_BATCH_PROOF_NUMBER)
}

} // verus!
