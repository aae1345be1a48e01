use vstd::prelude::*;
use vstd::string::StringExecFns;

verus! {

/// A network the tools can work on.
#[derive(Clone, Debug, PartialEq, Eq)]
pub enum Network {
    Devnet,
    Holesky,
    HoleskyStage,
    Mainnet,
    /// Service manager address, payment service address and gateway URL.
    Custom(String, String, String),
}

/// A network named on the command line.
#[derive(Clone, Copy, Debug, PartialEq, Eq, Structural)]
pub enum NetworkNameArg {
    Devnet,
    Holesky,
    HoleskyStage,
    Mainnet,
}

impl NetworkNameArg {
    /// Reads a network name.
    pub fn from_str(s: &str) -> (r: Result<NetworkNameArg, String>)
        ensures
            s@ == "devnet"@ ==> r == Ok::<NetworkNameArg, String>(NetworkNameArg::Devnet),
            s@ == "holesky"@ ==> r == Ok::<NetworkNameArg, String>(NetworkNameArg::Holesky),
            s@ == "holesky-stage"@ ==> r == Ok::<NetworkNameArg, String>(NetworkNameArg::HoleskyStage),
            s@ == "mainnet"@ ==> r == Ok::<NetworkNameArg, String>(NetworkNameArg::Mainnet),
            s@ != "devnet"@ && s@ != "holesky"@ && s@ != "holesky-stage"@ && s@ != "mainnet"@ ==> r.is_err(),
    {
        proof {
            reveal_strlit("devnet");
            reveal_strlit("holesky");
            reveal_strlit("holesky-stage");
            reveal_strlit("mainnet");
            assert("devnet"@[0] != "holesky"@[0] && "devnet"@[0] != "mainnet"@[0]);
            assert("holesky"@[0] != "mainnet"@[0] && "holesky-stage"@[0] != "mainnet"@[0]);
            assert("devnet"@.len() != "holesky-stage"@.len());
            assert("holesky"@.len() != "holesky-stage"@.len());
        }
        let t = String::from_str(s);
        if t == String::from_str("devnet") {
            Ok(NetworkNameArg::Devnet)
        } else if t == String::from_str("holesky") {
            Ok(NetworkNameArg::Holesky)
        } else if t == String::from_str("holesky-stage") {
            Ok(NetworkNameArg::HoleskyStage)
        } else if t == String::from_str("mainnet") {
            Ok(NetworkNameArg::Mainnet)
        } else {
            Err(String::from_str("Unknown network. Possible values: devnet, holesky, holesky-stage, mainnet"))
        }
    }
}

/// The network options of a command: a named network, or the three
/// addresses of a custom one.
#[derive(Clone, Debug)]
pub struct NetworkArg {
    pub network: Option<NetworkNameArg>,
    pub aligned_service_manager_address: Option<String>,
    pub batcher_payment_service_address: Option<String>,
    pub batcher_url: Option<String>,
}

impl NetworkArg {
    /// Whether a custom network is asked for.
    pub open spec fn is_custom(&self) -> bool {
        self.batcher_url.is_some() || self.aligned_service_manager_address.is_some()
            || self.batcher_payment_service_address.is_some()
    }

    /// The options describe a network: a custom one names all three of its
    /// parts, and without one a network is named.
    pub open spec fn complete(&self) -> bool {
        (self.is_custom() || self.network.is_none()) ==> (self.batcher_url.is_some()
            && self.aligned_service_manager_address.is_some()
            && self.batcher_payment_service_address.is_some())
    }

    /// The network the options select: a custom network wherever one of its
    /// parts is given, the named network otherwise.
    pub fn into_network(self) -> (r: Network)
        requires
            self.complete(),
        ensures
            (self.is_custom() || self.network.is_none()) ==> r == Network::Custom(
                self.aligned_service_manager_address.unwrap(),
                self.batcher_payment_service_address.unwrap(),
                self.batcher_url.unwrap(),
            ),
            !self.is_custom() && self.network == Some(NetworkNameArg::Devnet) ==> r == Network::Devnet,
            !self.is_custom() && self.network == Some(NetworkNameArg::Holesky) ==> r == Network::Holesky,
            !self.is_custom() && self.network == Some(NetworkNameArg::HoleskyStage) ==> r == Network::HoleskyStage,
            !self.is_custom() && self.network == Some(NetworkNameArg::Mainnet) ==> r == Network::Mainnet,
    {
        let custom = self.batcher_url.is_some() || self.aligned_service_manager_address.is_some()
            || self.batcher_payment_service_address.is_some();
        let name = if custom {
            None
        } else {
            self.network
        };
        match name {
            None => {
                let manager = match self.aligned_service_manager_address {
                    Some(v) => v,
                    None => {
                        assert(false);
                        String::new()
                    },
                };
                let payment = match self.batcher_payment_service_address {
                    Some(v) => v,
                    None => {
                        assert(false);
                        String::new()
                    },
                };
                let url = match self.batcher_url {
                    Some(v) => v,
                    None => {
                        assert(false);
                        String::new()
                    },
                };
                Network::Custom(manager, payment, url)
            },
            Some(NetworkNameArg::Devnet) => Network::Devnet,
            Some(NetworkNameArg::Holesky) => Network::Holesky,
            Some(NetworkNameArg::HoleskyStage) => Network::HoleskyStage,
            Some(NetworkNameArg::Mainnet) => Network::Mainnet,
        }
    }
}

/// The kinds of proof the task sender generates.
#[derive(Clone, Copy, Debug, PartialEq, Eq, Structural)]
pub enum ProofType {
    Groth16,
}

/// Options of proof generation.
#[derive(Clone, Debug)]
pub struct GenerateProofsArgs {
    pub number_of_proofs: usize,
    pub proof_type: ProofType,
    pub dir_to_save_proofs: String,
}

/// Options of wallet generation and funding.
#[derive(Clone, Debug)]
pub struct GenerateAndFundWalletsArgs {
    pub eth_rpc_url: String,
    pub funding_wallet_private_key: String,
    pub number_of_wallets: usize,
    pub amount_to_deposit: String,
    pub amount_to_deposit_to_aligned: String,
    pub private_keys_filepath: String,
    pub network: NetworkArg,
}

/// Options of the connection test.
#[derive(Clone, Debug)]
pub struct TestConnectionsArgs {
    pub network: NetworkArg,
    pub num_senders: usize,
}

/// Options of the endless proof sender.
#[derive(Clone, Debug)]
pub struct SendInfiniteProofsArgs {
    pub eth_rpc_url: String,
    pub burst_size: usize,
    pub burst_time_secs: u64,
    pub max_fee: String,
    pub network: NetworkArg,
    pub private_keys_filepath: String,
    pub proofs_dir: String,
}

/// The task sender's commands.
#[derive(Clone, Debug)]
pub enum TaskSenderCommands {
    GenerateProofs(GenerateProofsArgs),
    TestConnections(TestConnectionsArgs),
    SendInfiniteProofs(SendInfiniteProofsArgs),
    GenerateAndFundWallets(GenerateAndFundWalletsArgs),
}

/// The task sender's command line.
#[derive(Clone, Debug)]
pub struct TaskSenderArgs {
    pub command: TaskSenderCommands,
}

} // verus!
