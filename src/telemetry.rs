use vstd::prelude::*;
use vstd::string::StringExecFns;

verus! {

/// A batch's root, as the telemetry service expects it: "0x" and the hexadecimal root.
pub open spec fn traced_root(root_hex: Seq<char>) -> Seq<char> {
    "0x"@ + root_hex
}

/// The start of a batch's trace.
#[derive(Clone, Debug)]
pub struct TraceMessageTask {
    pub merkle_root: String,
}

/// A task sent to the settlement contract.
#[derive(Clone, Debug)]
pub struct TraceMessageTaskStarted {
    pub merkle_root: String,
    pub fee_per_proof: String,
    pub num_proofs_in_batch: usize,
}

/// A batch formed.
#[derive(Clone, Debug)]
pub struct TraceMessageNewBatch {
    pub merkle_root: String,
    pub proof_count: usize,
}

/// A batch whose registration failed.
#[derive(Clone, Debug)]
pub struct TraceMessageTaskError {
    pub merkle_root: String,
    pub error: String,
}

fn prefixed_root(root_hex: &str) -> (r: String)
    ensures
        r@ == traced_root(root_hex@),
{
    let mut r = String::from_str("0x");
    r.append(root_hex);
    r
}

impl TraceMessageTask {
    pub fn new(root_hex: &str) -> (r: TraceMessageTask)
        ensures
            r.merkle_root@ == traced_root(root_hex@),
    {
        TraceMessageTask { merkle_root: prefixed_root(root_hex) }
    }
}

impl TraceMessageNewBatch {
    pub fn new(root_hex: &str, proof_count: usize) -> (r: TraceMessageNewBatch)
        ensures
            r.merkle_root@ == traced_root(root_hex@),
            r.proof_count == proof_count,
    {
        TraceMessageNewBatch { merkle_root: prefixed_root(root_hex), proof_count }
    }
}

impl TraceMessageTaskError {
    pub fn new(root_hex: &str, error: String) -> (r: TraceMessageTaskError)
        ensures
            r.merkle_root@ == traced_root(root_hex@),
            r.error == error,
    {
        TraceMessageTaskError { merkle_root: prefixed_root(root_hex), error }
    }
}

/// The address of a telemetry endpoint: the base URL, "/api/", and the path.
pub fn get_full_url(base_url: &str, path: &str) -> (r: String)
    ensures
        r@ == base_url@ + "/api/"@ + path@,
{
    let mut r = String::from_str(base_url);
    r.append("/api/");
    r.append(path);
    r
}

} // verus!
