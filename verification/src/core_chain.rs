//! Bitcoin Core: block summaries and the state of its chain.
use crate::domain::BitcoinNetwork;
use crate::json;
use crate::json::{number_field, parse_error, text_field};
use crate::text;
use crate::text::same_text;
use crate::time::Timestamp;
use vstd::prelude::*;

verus! {

/// A block in short.
#[derive(Debug, PartialEq, Eq)]
pub struct BlockSummary {
    pub height: u32,
    pub hash: String,
    pub tx_count: u64,
}

/// The mathematical value of a [`BlockSummary`].
pub struct BlockSummaryView {
    pub height: u32,
    pub hash: Seq<char>,
    pub tx_count: u64,
}

impl DeepView for BlockSummary {
    type V = BlockSummaryView;

    open spec fn deep_view(&self) -> BlockSummaryView {
        BlockSummaryView { height: self.height, hash: self.hash@, tx_count: self.tx_count }
    }
}

impl Clone for BlockSummary {
    fn clone(&self) -> (r: Self)
        ensures
            r.deep_view() == self.deep_view(),
    {
        BlockSummary { height: self.height, hash: self.hash.clone(), tx_count: self.tx_count }
    }
}

/// Why a block cannot be normalized.
#[derive(Debug, PartialEq, Eq)]
pub enum NormalizerError {
    Malformed(String),
}

impl NormalizerError {
    /// What the error says.
    pub fn to_text(&self) -> (r: String)
        ensures
            match self {
                NormalizerError::Malformed(s) => r@ == "malformed block payload: "@ + s@,
            },
    {
        match self {
            NormalizerError::Malformed(s) => "malformed block payload: ".to_owned().concat(
                s.as_str(),
            ),
        }
    }
}

/// Turns block documents into summaries.
pub struct BlockSummaryNormalizer;

/// The outcome of a summary over mathematical values.
pub open spec fn summary_outcome(r: Result<BlockSummary, NormalizerError>) -> Result<
    BlockSummaryView,
    Seq<char>,
> {
    match r {
        Ok(b) => Ok(b.deep_view()),
        Err(NormalizerError::Malformed(s)) => Err(s@),
    }
}

/// The summary made of a block's fields. Of a height only the low 32 bits stay,
/// and a missing count is zero.
pub open spec fn block_summary(
    height: Option<u64>,
    hash: Option<Seq<char>>,
    tx_count: Option<u64>,
) -> Result<BlockSummaryView, Seq<char>> {
    match height {
        None => Err("missing height"@),
        Some(h) => match hash {
            None => Err("missing hash"@),
            Some(text) => Ok(
                BlockSummaryView {
                    height: (h % 0x1_0000_0000) as u32,
                    hash: text,
                    tx_count: match tx_count {
                        Some(n) => n,
                        None => 0,
                    },
                },
            ),
        },
    }
}

impl BlockSummaryNormalizer {
    /// The summary of the block that a JSON document describes.
    pub fn from_json(payload: &str) -> (r: Result<BlockSummary, NormalizerError>)
        ensures
            summary_outcome(r) == (match json::json_parse_error(payload@) {
                Some(message) => Err(message),
                None => block_summary(
                    json::json_number_field(payload@, "height"@),
                    json::json_text_field(payload@, "hash"@),
                    json::json_number_field(payload@, "tx_count"@),
                ),
            }),
    {
        match parse_error(payload) {
            Some(message) => Err(NormalizerError::Malformed(message)),
            None => BlockSummaryNormalizer::from_fields(
                number_field(payload, "height"),
                text_field(payload, "hash"),
                number_field(payload, "tx_count"),
            ),
        }
    }

    /// The summary made of a block's fields.
    pub fn from_fields(height: Option<u64>, hash: Option<String>, tx_count: Option<u64>) -> (r:
        Result<BlockSummary, NormalizerError>)
        ensures
            summary_outcome(r) == block_summary(height, hash.deep_view(), tx_count),
    {
        match height {
            None => Err(NormalizerError::Malformed("missing height".to_owned())),
            Some(h) => match hash {
                None => Err(NormalizerError::Malformed("missing hash".to_owned())),
                Some(text) => Ok(
                    BlockSummary {
                        height: (h % 0x1_0000_0000) as u32,
                        hash: text,
                        tx_count: match tx_count {
                            Some(n) => n,
                            None => 0,
                        },
                    },
                ),
            },
        }
    }
}

/// The state of a Bitcoin Core node's chain at one moment.
#[derive(Debug, Clone, Copy, PartialEq, Eq, Structural)]
pub struct BitcoinCoreSnapshot {
    pub network: BitcoinNetwork,
    pub block_height: u64,
    pub header_height: u64,
    pub synchronized: bool,
    pub observed_at: Timestamp,
}

/// What can go wrong between the library and a Bitcoin Core node.
#[derive(Debug, PartialEq, Eq)]
pub enum CoreRpcError {
    Transport(String),
    Authentication,
    Http { status: u16, message: String },
    Rpc { code: i64, message: String },
    Malformed(String),
    /// The chain is none of the known ones.
    UnsupportedChain(String),
}

/// The mathematical value of a [`CoreRpcError`].
pub enum CoreRpcErrorView {
    Transport(Seq<char>),
    Authentication,
    Http { status: u16, message: Seq<char> },
    Rpc { code: i64, message: Seq<char> },
    Malformed(Seq<char>),
    UnsupportedChain(Seq<char>),
}

impl DeepView for CoreRpcError {
    type V = CoreRpcErrorView;

    open spec fn deep_view(&self) -> CoreRpcErrorView {
        match self {
            CoreRpcError::Transport(s) => CoreRpcErrorView::Transport(s@),
            CoreRpcError::Authentication => CoreRpcErrorView::Authentication,
            CoreRpcError::Http { status, message } => CoreRpcErrorView::Http {
                status: *status,
                message: message@,
            },
            CoreRpcError::Rpc { code, message } => CoreRpcErrorView::Rpc {
                code: *code,
                message: message@,
            },
            CoreRpcError::Malformed(s) => CoreRpcErrorView::Malformed(s@),
            CoreRpcError::UnsupportedChain(s) => CoreRpcErrorView::UnsupportedChain(s@),
        }
    }
}

/// What an error says.
pub open spec fn core_error_text(e: CoreRpcErrorView) -> Seq<char> {
    match e {
        CoreRpcErrorView::Transport(s) => "Bitcoin Core RPC transport failed: "@ + s,
        CoreRpcErrorView::Authentication => "Bitcoin Core RPC authentication failed"@,
        CoreRpcErrorView::Http { status, message } => "Bitcoin Core RPC returned HTTP "@
            + text::decimal(status as nat) + ": "@ + message,
        CoreRpcErrorView::Rpc { code, message } => "Bitcoin Core RPC error "@
            + text::signed_decimal(code as int) + ": "@ + message,
        CoreRpcErrorView::Malformed(s) => "malformed Bitcoin Core RPC response: "@ + s,
        CoreRpcErrorView::UnsupportedChain(s) => "unsupported Bitcoin Core chain "@
            + text::debug_text_of(s),
    }
}

impl CoreRpcError {
    /// What the error says.
    pub fn to_text(&self) -> (r: String)
        ensures
            r@ == core_error_text(self.deep_view()),
    {
        match self {
            CoreRpcError::Transport(s) =>
                "Bitcoin Core RPC transport failed: ".to_owned().concat(s.as_str()),
            CoreRpcError::Authentication => "Bitcoin Core RPC authentication failed".to_owned(),
            CoreRpcError::Http { status, message } =>
                "Bitcoin Core RPC returned HTTP ".to_owned().concat(
                text::u64_text(*status as u64).as_str(),
            ).concat(": ").concat(message.as_str()),
            CoreRpcError::Rpc { code, message } => "Bitcoin Core RPC error ".to_owned().concat(
                text::i64_text(*code).as_str(),
            ).concat(": ").concat(message.as_str()),
            CoreRpcError::Malformed(s) =>
                "malformed Bitcoin Core RPC response: ".to_owned().concat(s.as_str()),
            CoreRpcError::UnsupportedChain(s) =>
                "unsupported Bitcoin Core chain ".to_owned().concat(
                text::debug_text(s.as_str()).as_str(),
            ),
        }
    }
}

/// What `getblockchaininfo` says of the chain.
#[derive(Debug, PartialEq, Eq)]
pub struct BlockchainInfo {
    pub chain: String,
    pub blocks: u64,
    pub headers: u64,
    pub initial_block_download: bool,
}

/// The error that a node answers with.
#[derive(Debug, PartialEq, Eq)]
pub struct RpcFailure {
    pub code: i64,
    pub message: String,
}

/// A node's answer: a result, an error, or neither.
#[derive(Debug, PartialEq, Eq)]
pub struct RpcResponse {
    pub result: Option<BlockchainInfo>,
    pub error: Option<RpcFailure>,
}

/// The network that Bitcoin Core calls `chain`.
pub open spec fn network_of_chain(chain: Seq<char>) -> Option<BitcoinNetwork> {
    if chain == "main"@ {
        Some(BitcoinNetwork::Mainnet)
    } else if chain == "test"@ {
        Some(BitcoinNetwork::Testnet)
    } else if chain == "signet"@ {
        Some(BitcoinNetwork::Signet)
    } else if chain == "regtest"@ {
        Some(BitcoinNetwork::Regtest)
    } else {
        None
    }
}

/// The outcome of a request over mathematical values.
pub open spec fn chain_outcome(r: Result<BitcoinCoreSnapshot, CoreRpcError>) -> Result<
    BitcoinCoreSnapshot,
    CoreRpcErrorView,
> {
    match r {
        Ok(s) => Ok(s),
        Err(e) => Err(e.deep_view()),
    }
}

/// The state of the chain that a node's answer stands for. The node is
/// synchronized where it is past its initial download and has every block that
/// it has the header of.
pub open spec fn chain_state(
    response: Result<RpcResponse, String>,
    observed_at: Timestamp,
) -> Result<BitcoinCoreSnapshot, CoreRpcErrorView> {
    match response {
        Err(message) => Err(CoreRpcErrorView::Malformed(message@)),
        Ok(answer) => match answer.error {
            Some(e) => Err(CoreRpcErrorView::Rpc { code: e.code, message: e.message@ }),
            None => match answer.result {
                None => Err(CoreRpcErrorView::Malformed("missing result"@)),
                Some(info) => match network_of_chain(info.chain@) {
                    None => Err(CoreRpcErrorView::UnsupportedChain(info.chain@)),
                    Some(network) => Ok(
                        BitcoinCoreSnapshot {
                            network,
                            block_height: info.blocks,
                            header_height: info.headers,
                            synchronized: !info.initial_block_download && info.blocks
                                == info.headers,
                            observed_at,
                        },
                    ),
                },
            },
        },
    }
}

fn chain_network(chain: &str) -> (r: Option<BitcoinNetwork>)
    ensures
        r == network_of_chain(chain@),
{
    if same_text(chain, "main") {
        Some(BitcoinNetwork::Mainnet)
    } else if same_text(chain, "test") {
        Some(BitcoinNetwork::Testnet)
    } else if same_text(chain, "signet") {
        Some(BitcoinNetwork::Signet)
    } else if same_text(chain, "regtest") {
        Some(BitcoinNetwork::Regtest)
    } else {
        None
    }
}

/// Turns a node's answers into states of its chain.
pub struct BitcoinCoreNormalizer;

impl BitcoinCoreNormalizer {
    /// The state of the chain that a node's answer stands for. An answer that
    /// could not be read comes with what is wrong with it.
    pub fn blockchain_info(response: Result<RpcResponse, String>, observed_at: Timestamp) -> (r:
        Result<BitcoinCoreSnapshot, CoreRpcError>)
        ensures
            chain_outcome(r) == chain_state(response, observed_at),
    {
        let answer = match response {
            Ok(answer) => answer,
            Err(message) => {
                return Err(CoreRpcError::Malformed(message));
            },
        };
        if let Some(e) = answer.error {
            return Err(CoreRpcError::Rpc { code: e.code, message: e.message });
        }
        let info = match answer.result {
            Some(info) => info,
            None => {
                return Err(CoreRpcError::Malformed("missing result".to_owned()));
            },
        };
        match chain_network(info.chain.as_str()) {
            Some(network) => Ok(
                BitcoinCoreSnapshot {
                    network,
                    block_height: info.blocks,
                    header_height: info.headers,
                    synchronized: !info.initial_block_download && info.blocks == info.headers,
                    observed_at,
                },
            ),
            None => Err(CoreRpcError::UnsupportedChain(info.chain)),
        }
    }
}

/// What an HTTP status makes of a node's answer.
pub open spec fn status_refusal(status: u16, body: Seq<char>) -> Option<CoreRpcErrorView> {
    if status == 401 || status == 403 {
        Some(CoreRpcErrorView::Authentication)
    } else if !(200 <= status < 300) {
        Some(CoreRpcErrorView::Http { status, message: body })
    } else {
        None
    }
}

/// The body of an answer that came with success.
pub fn checked_body(status: u16, body: String) -> (r: Result<String, CoreRpcError>)
    ensures
        match r {
            Ok(kept) => status_refusal(status, body@) is None && kept@ == body@,
            Err(e) => status_refusal(status, body@) == Some(e.deep_view()),
        },
{
    if status == 401 || status == 403 {
        return Err(CoreRpcError::Authentication);
    }
    if !(200 <= status && status < 300) {
        return Err(CoreRpcError::Http { status, message: body });
    }
    Ok(body)
}

/// The scheme of a URL, or what is wrong with the URL.
pub uninterp spec fn url_scheme_of(url: Seq<char>) -> Result<Seq<char>, Seq<char>>;

/// The outcome of reading a URL over mathematical values.
pub open spec fn scheme_outcome(r: Result<String, String>) -> Result<Seq<char>, Seq<char>> {
    match r {
        Ok(s) => Ok(s@),
        Err(e) => Err(e@),
    }
}

/// `reqwest::Url::parse` and `Url::scheme`: the scheme of a URL, or the message
/// of the error that reading the URL gives.
#[verifier::external_body]
fn url_scheme(url: &str) -> (r: Result<String, String>)
    ensures
        scheme_outcome(r) == url_scheme_of(url@),
{
    match reqwest::Url::parse(url) {
        Ok(parsed) => Ok(parsed.scheme().to_owned()),
        Err(error) => Err(error.to_string()),
    }
}

/// What is wrong with an endpoint of this scheme.
pub open spec fn endpoint_refusal(scheme: Result<Seq<char>, Seq<char>>) -> Option<Seq<char>> {
    match scheme {
        Err(message) => Some("invalid RPC URL: "@ + message),
        Ok(s) => if s == "http"@ || s == "https"@ {
            None
        } else {
            Some("RPC URL must use http or https"@)
        },
    }
}

/// The outcome of a check over mathematical values.
pub open spec fn refused(r: Result<(), CoreRpcError>) -> Option<CoreRpcErrorView> {
    match r {
        Ok(_) => None,
        Err(e) => Some(e.deep_view()),
    }
}

/// Checks the endpoint of a node.
pub fn check_endpoint(endpoint: &str) -> (r: Result<(), CoreRpcError>)
    ensures
        refused(r) == (match endpoint_refusal(url_scheme_of(endpoint@)) {
            Some(message) => Some(CoreRpcErrorView::Malformed(message)),
            None => None,
        }),
{
    check_scheme(url_scheme(endpoint))
}

/// Checks the scheme of a node's endpoint.
pub fn check_scheme(scheme: Result<String, String>) -> (r: Result<(), CoreRpcError>)
    ensures
        refused(r) == (match endpoint_refusal(scheme_outcome(scheme)) {
            Some(message) => Some(CoreRpcErrorView::Malformed(message)),
            None => None,
        }),
{
    match scheme {
        Err(message) => Err(
            CoreRpcError::Malformed("invalid RPC URL: ".to_owned().concat(message.as_str())),
        ),
        Ok(s) => if same_text(s.as_str(), "http") || same_text(s.as_str(), "https") {
            Ok(())
        } else {
            Err(CoreRpcError::Malformed("RPC URL must use http or https".to_owned()))
        },
    }
}

/// A node that is still in its initial download is never synchronized, nor is
/// one that lacks a block that it has the header of.
pub proof fn lemma_lagging_chain_is_not_synchronized(
    response: Result<RpcResponse, String>,
    observed_at: Timestamp,
)
    ensures
        chain_state(response, observed_at) matches Ok(s) ==> (s.synchronized ==> s.block_height
            == s.header_height && response is Ok && response->Ok_0.result is Some
            && !response->Ok_0.result->0.initial_block_download),
{
}

proof fn lemma_chain_names_differ()
    ensures
        "main"@ != "test"@,
        "main"@ != "signet"@,
        "main"@ != "regtest"@,
        "test"@ != "signet"@,
        "test"@ != "regtest"@,
        "signet"@ != "regtest"@,
{
    reveal_strlit("main");
    reveal_strlit("test");
    reveal_strlit("signet");
    reveal_strlit("regtest");
    assert("main"@[0] != "test"@[0]);
    assert("signet"@.len() != "regtest"@.len());
}

/// Each network has one chain name, and each of these names stands for one
/// network.
pub proof fn lemma_each_chain_is_one_network(chain: Seq<char>)
    ensures
        chain == "main"@ <==> network_of_chain(chain) == Some(BitcoinNetwork::Mainnet),
        chain == "test"@ <==> network_of_chain(chain) == Some(BitcoinNetwork::Testnet),
        chain == "signet"@ <==> network_of_chain(chain) == Some(BitcoinNetwork::Signet),
        chain == "regtest"@ <==> network_of_chain(chain) == Some(BitcoinNetwork::Regtest),
{
    lemma_chain_names_differ();
}

/// A chain state is read exactly from an answer with a result, without an error,
/// about a chain that is known. It keeps the two heights, and it is synchronized
/// exactly if the first download is over and no header waits for its block.
pub proof fn lemma_chain_states_say_what_the_node_says(
    answer: RpcResponse,
    observed_at: Timestamp,
)
    ensures
        ({
            let state = chain_state(Ok(answer), observed_at);
            &&& state is Ok <==> answer.error is None && answer.result is Some && network_of_chain(
                answer.result->0.chain@,
            ) is Some
            &&& state is Ok ==> {
                let info = answer.result->0;
                let s = state->Ok_0;
                &&& network_of_chain(info.chain@) == Some(s.network)
                &&& s.block_height == info.blocks
                &&& s.header_height == info.headers
                &&& s.observed_at == observed_at
                &&& s.synchronized <==> s.block_height == s.header_height
                    && !info.initial_block_download
            }
        }),
{
}

/// What stops a chain state from being read: an error of the node before a
/// missing result, a missing result before a chain that is not known.
pub proof fn lemma_why_chain_states_are_refused(answer: RpcResponse, observed_at: Timestamp)
    ensures
        answer.error is Some ==> chain_state(Ok(answer), observed_at) == Err::<
            BitcoinCoreSnapshot,
            CoreRpcErrorView,
        >(
            CoreRpcErrorView::Rpc {
                code: answer.error->0.code,
                message: answer.error->0.message@,
            },
        ),
        answer.error is None && answer.result is None ==> chain_state(Ok(answer), observed_at)
            == Err::<BitcoinCoreSnapshot, CoreRpcErrorView>(
            CoreRpcErrorView::Malformed("missing result"@),
        ),
        answer.error is None && answer.result is Some && network_of_chain(answer.result->0.chain@)
            is None ==> chain_state(Ok(answer), observed_at) == Err::<
            BitcoinCoreSnapshot,
            CoreRpcErrorView,
        >(CoreRpcErrorView::UnsupportedChain(answer.result->0.chain@)),
{
}

/// An answer is taken exactly at a status of success. A refused login is told
/// from any other failure, which is reported with its status and its text.
pub proof fn lemma_what_statuses_say(status: u16, body: Seq<char>)
    ensures
        status_refusal(status, body) is None <==> status / 100 == 2,
        status_refusal(status, body) == Some(CoreRpcErrorView::Authentication) <==> status == 401
            || status == 403,
        status / 100 != 2 && status != 401 && status != 403 ==> status_refusal(status, body)
            == Some(CoreRpcErrorView::Http { status, message: body }),
{
}

/// A block summary needs a height and a hash, and keeps both; blocks that tell no
/// count of transactions have none.
pub proof fn lemma_block_summaries_keep_what_they_read(
    height: Option<u64>,
    hash: Option<Seq<char>>,
    tx_count: Option<u64>,
)
    ensures
        block_summary(height, hash, tx_count) is Ok <==> height is Some && hash is Some,
        block_summary(height, hash, tx_count) is Ok ==> {
            let s = block_summary(height, hash, tx_count)->Ok_0;
            &&& height->0 <= u32::MAX ==> s.height == height->0
            &&& s.hash == hash->0
            &&& tx_count is Some ==> s.tx_count == tx_count->0
            &&& tx_count is None ==> s.tx_count == 0
        },
{
}

/// An endpoint is taken exactly if its URL can be read and speaks HTTP, plain or
/// secured.
pub proof fn lemma_which_endpoints_are_taken(scheme: Result<Seq<char>, Seq<char>>)
    ensures
        endpoint_refusal(scheme) is None <==> scheme is Ok && (scheme->Ok_0 == "http"@
            || scheme->Ok_0 == "https"@),
{
}

} // verus!
