use rieko::core_chain::{
    check_endpoint, checked_body, BitcoinCoreNormalizer, BlockSummaryNormalizer, BlockchainInfo,
    CoreRpcError, RpcFailure, RpcResponse,
};
use rieko::domain::BitcoinNetwork;
use rieko::time::Timestamp;

const OBSERVED: Timestamp = Timestamp { secs: 1_700_000_000, nanos: 0 };

fn read(payload: &str) -> Result<RpcResponse, String> {
    let v: serde_json::Value = serde_json::from_str(payload).map_err(|e| e.to_string())?;
    let result = match v.get("result") {
        Some(r) if !r.is_null() => Some(BlockchainInfo {
            chain: r["chain"].as_str().ok_or("chain")?.to_string(),
            blocks: r["blocks"].as_u64().ok_or("blocks")?,
            headers: r["headers"].as_u64().ok_or("headers")?,
            initial_block_download: r["initialblockdownload"].as_bool().ok_or("download")?,
        }),
        _ => None,
    };
    let error = match v.get("error") {
        Some(e) if !e.is_null() => Some(RpcFailure {
            code: e["code"].as_i64().ok_or("code")?,
            message: e["message"].as_str().ok_or("message")?.to_string(),
        }),
        _ => None,
    };
    Ok(RpcResponse { result, error })
}

const RESPONSE: &str = r#"{
    "result": {
        "chain": "regtest",
        "blocks": 201,
        "headers": 201,
        "initialblockdownload": false
    },
    "error": null,
    "id": "rieko-core-observation"
}"#;

#[test]
fn parses_block_summary() {
    let b = BlockSummaryNormalizer::from_json(
        r#"{"height": 800000, "hash": "abc", "tx_count": 4000}"#,
    )
    .unwrap();
    assert_eq!(b.height, 800_000);
    assert_eq!(b.tx_count, 4000);
    assert_eq!(b.hash, "abc");
}

#[test]
fn rejects_missing_height() {
    assert!(BlockSummaryNormalizer::from_json(r#"{"hash": "abc"}"#).is_err());
}

#[test]
fn rejects_a_summary_that_is_no_document() {
    assert!(BlockSummaryNormalizer::from_json("{").is_err());
    assert!(BlockSummaryNormalizer::from_json(r#"{"height": 1}"#).is_err());
}

#[test]
fn normalizes_chain_height_headers_and_sync_state() {
    let snapshot = BitcoinCoreNormalizer::blockchain_info(read(RESPONSE), OBSERVED).unwrap();
    assert_eq!(snapshot.network, BitcoinNetwork::Regtest);
    assert_eq!(snapshot.block_height, 201);
    assert_eq!(snapshot.header_height, 201);
    assert!(snapshot.synchronized);
    assert_eq!(snapshot.observed_at, OBSERVED);
}

#[test]
fn initial_block_download_is_not_synchronized() {
    let payload = r#"{
        "result": {
            "chain": "main",
            "blocks": 800000,
            "headers": 850000,
            "initialblockdownload": true
        },
        "error": null
    }"#;
    let snapshot = BitcoinCoreNormalizer::blockchain_info(read(payload), OBSERVED).unwrap();
    assert_eq!(snapshot.network, BitcoinNetwork::Mainnet);
    assert!(!snapshot.synchronized);
}

#[test]
fn rejects_malformed_and_rpc_error_responses() {
    assert!(matches!(
        BitcoinCoreNormalizer::blockchain_info(read("not json"), OBSERVED),
        Err(CoreRpcError::Malformed(_))
    ));
    let error = BitcoinCoreNormalizer::blockchain_info(
        read(r#"{"result":null,"error":{"code":-28,"message":"Loading block index"}}"#),
        OBSERVED,
    )
    .unwrap_err();
    assert!(matches!(error, CoreRpcError::Rpc { code: -28, .. }));
}

#[test]
fn authentication_failure_is_typed() {
    assert!(matches!(
        checked_body(401, String::new()),
        Err(CoreRpcError::Authentication)
    ));
    assert!(matches!(
        checked_body(403, String::new()),
        Err(CoreRpcError::Authentication)
    ));
    assert_eq!(
        checked_body(500, "busy".into()),
        Err(CoreRpcError::Http { status: 500, message: "busy".into() })
    );
    assert_eq!(checked_body(200, "ok".into()), Ok("ok".into()));
}

#[test]
fn an_answer_without_result_or_with_a_strange_chain_is_refused() {
    assert_eq!(
        BitcoinCoreNormalizer::blockchain_info(
            Ok(RpcResponse { result: None, error: None }),
            OBSERVED
        ),
        Err(CoreRpcError::Malformed("missing result".into()))
    );
    let strange = BlockchainInfo {
        chain: "doge".into(),
        blocks: 1,
        headers: 1,
        initial_block_download: false,
    };
    assert_eq!(
        BitcoinCoreNormalizer::blockchain_info(
            Ok(RpcResponse { result: Some(strange), error: None }),
            OBSERVED
        ),
        Err(CoreRpcError::UnsupportedChain("doge".into()))
    );
}

#[test]
fn endpoints_use_http() {
    assert!(check_endpoint("http://127.0.0.1:8332").is_ok());
    assert!(check_endpoint("HTTPS://core.example").is_ok());
    assert_eq!(
        check_endpoint("ftp://core.example"),
        Err(CoreRpcError::Malformed("RPC URL must use http or https".into()))
    );
    assert!(matches!(
        check_endpoint("nonsense"),
        Err(CoreRpcError::Malformed(m)) if m.starts_with("invalid RPC URL: ")
    ));
}

#[test]
fn chain_errors_read_well() {
    assert_eq!(
        CoreRpcError::Rpc { code: -28, message: "Loading".into() }.to_text(),
        "Bitcoin Core RPC error -28: Loading"
    );
    assert_eq!(
        CoreRpcError::Http { status: 500, message: "busy".into() }.to_text(),
        "Bitcoin Core RPC returned HTTP 500: busy"
    );
    assert_eq!(
        CoreRpcError::UnsupportedChain("do\"ge".into()).to_text(),
        "unsupported Bitcoin Core chain \"do\\\"ge\""
    );
    assert_eq!(
        CoreRpcError::Authentication.to_text(),
        "Bitcoin Core RPC authentication failed"
    );
}
