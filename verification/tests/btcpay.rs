use hmac::{Hmac, Mac};
use rieko::btcpay_adapter::{
    build_snapshot, checked_answer, client_settings, health_report, invoices_url,
    lightning_balance_url, lightning_channels_url, lightning_info_url, onchain_wallet_url,
    server_info_url, BtcPayAdapterConfig,
};
use rieko::btcpay_model::{
    parse_balance_msat, parse_msats, BtcPayWebhookEvent, GreenfieldLightningBalance,
    GreenfieldLightningChannel, GreenfieldLightningInfo, GreenfieldOnChainWallet,
    GreenfieldServerInfo, InvoiceExpiredPayload, InvoicePaymentData,
    InvoicePaymentReceivedPayload, InvoiceSettledPayload, WireAmount,
};
use rieko::btcpay_webhook::{
    claims_code, accept_webhook, normalize_at, normalize_webhook_payload, verify_btcpay_sig, BtcPayError,
    ReadPayload,
};
use rieko::domain::{BitcoinNetwork, ChannelStatus};
use rieko::ingest::{IngestionError, NodeEvent};
use rieko::json::{Json, Member, Params};
use rieko::time::{Period, Timestamp};
use sha2::Sha256;

type HmacSha256 = Hmac<Sha256>;

fn compute_hmac_hex(secret: &[u8], payload: &[u8]) -> String {
    let mut mac = HmacSha256::new_from_slice(secret).expect("valid key");
    mac.update(payload);
    hex::encode(mac.finalize().into_bytes())
}

fn now() -> Timestamp {
    Timestamp { secs: 1_724_249_999, nanos: 0 }
}

fn json_of(v: &serde_json::Value) -> Json {
    match v {
        serde_json::Value::Null => Json::Null,
        serde_json::Value::Bool(b) => Json::Bool(*b),
        serde_json::Value::String(s) => Json::Text(s.clone()),
        serde_json::Value::Number(n) => match n.as_u64() {
            Some(u) => Json::Unsigned(u),
            None => match n.as_i64() {
                Some(i) => Json::Negative(i),
                None => Json::Real { bits: n.as_f64().unwrap().to_bits(), text: n.to_string() },
            },
        },
        other => Json::Compound(other.to_string()),
    }
}

fn text(v: &serde_json::Value, key: &str) -> Option<String> {
    v[key].as_str().map(|s| s.to_string())
}

fn needed(v: &serde_json::Value, key: &str) -> Result<String, String> {
    text(v, key).ok_or(format!("missing field `{key}`"))
}

fn moment(v: &serde_json::Value) -> Result<i64, String> {
    v["timestamp"].as_i64().ok_or("missing field `timestamp`".to_string())
}

fn payment(v: &serde_json::Value) -> Option<InvoicePaymentData> {
    let p = v.get("payment")?;
    Some(InvoicePaymentData {
        value: text(p, "value"),
        decimal_value_msat: None,
        fee: text(p, "fee"),
        decimal_fee_msat: None,
        status: text(p, "status"),
        destination: text(p, "destination"),
        payment_hash: text(p, "paymentHash"),
    })
}

fn envelope(v: &serde_json::Value) -> Result<BtcPayWebhookEvent, String> {
    Ok(BtcPayWebhookEvent {
        delivery_id: needed(v, "deliveryId")?,
        webhook_id: needed(v, "webhookId")?,
        original_delivery_id: text(v, "originalDeliveryId"),
        is_redelivery: v["isRedelivery"].as_bool().unwrap_or(false),
        event_type: needed(v, "type")?,
        timestamp: moment(v)?,
        store_id: needed(v, "storeId")?,
        invoice_id: text(v, "invoiceId"),
        extra: extra(v),
    })
}

fn extra(v: &serde_json::Value) -> Vec<Member> {
    let named = [
        "deliveryId",
        "webhookId",
        "originalDeliveryId",
        "isRedelivery",
        "type",
        "timestamp",
        "storeId",
        "invoiceId",
    ];
    v.as_object()
        .into_iter()
        .flatten()
        .filter(|(k, _)| !named.contains(&k.as_str()))
        .map(|(k, x)| Member { key: k.clone(), value: json_of(x) })
        .collect()
}

fn settled(v: &serde_json::Value) -> Result<InvoiceSettledPayload, String> {
    let metadata = v.get("metadata").and_then(|m| m.as_object()).map(|m| {
        Params::Object(
            m.iter().map(|(k, x)| Member { key: k.clone(), value: json_of(x) }).collect(),
        )
    });
    Ok(InvoiceSettledPayload {
        delivery_id: needed(v, "deliveryId")?,
        webhook_id: needed(v, "webhookId")?,
        store_id: needed(v, "storeId")?,
        invoice_id: needed(v, "invoiceId")?,
        timestamp: moment(v)?,
        payment_method: text(v, "paymentMethod"),
        payment_method_id: text(v, "paymentMethodId"),
        metadata,
        payment: payment(v),
    })
}

fn received(v: &serde_json::Value) -> Result<InvoicePaymentReceivedPayload, String> {
    Ok(InvoicePaymentReceivedPayload {
        delivery_id: needed(v, "deliveryId")?,
        webhook_id: needed(v, "webhookId")?,
        store_id: needed(v, "storeId")?,
        invoice_id: needed(v, "invoiceId")?,
        timestamp: moment(v)?,
        payment_method: text(v, "paymentMethod"),
        payment: payment(v),
    })
}

fn expired(v: &serde_json::Value) -> Result<InvoiceExpiredPayload, String> {
    Ok(InvoiceExpiredPayload {
        delivery_id: needed(v, "deliveryId")?,
        webhook_id: needed(v, "webhookId")?,
        store_id: needed(v, "storeId")?,
        invoice_id: needed(v, "invoiceId")?,
        timestamp: moment(v)?,
    })
}

fn read(payload: &[u8]) -> ReadPayload {
    match serde_json::from_slice::<serde_json::Value>(payload) {
        Ok(v) => ReadPayload {
            envelope: envelope(&v),
            settled: settled(&v),
            received: received(&v),
            expired: expired(&v),
        },
        Err(e) => ReadPayload {
            envelope: Err(e.to_string()),
            settled: Err(e.to_string()),
            received: Err(e.to_string()),
            expired: Err(e.to_string()),
        },
    }
}

fn amount(value: Json) -> Option<WireAmount> {
    Some(WireAmount { value, decimal_sat: None, decimal_msat: None })
}

#[test]
fn verifies_valid_signature_with_sha256_prefix() {
    let secret = b"super-secret-webhook-key-12345";
    let payload = br#"{"deliveryId":"del-1","webhookId":"wh-1","type":"InvoiceSettled","timestamp":1629892019,"storeId":"store-abc","invoiceId":"inv-xyz"}"#;

    let hex_sig = compute_hmac_hex(secret, payload);
    let header_val = format!("sha256={hex_sig}");

    assert!(verify_btcpay_sig(secret, payload, &header_val));
}

#[test]
fn verifies_valid_signature_without_prefix() {
    let secret = b"another-secret-key-999";
    let payload = br#"{"deliveryId":"del-2","webhookId":"wh-2","type":"InvoiceExpired","timestamp":1629892100,"storeId":"store-abc","invoiceId":"inv-123"}"#;

    let hex_sig = compute_hmac_hex(secret, payload);
    assert!(verify_btcpay_sig(secret, payload, &hex_sig));
}

#[test]
fn rejects_tampered_payload() {
    let secret = b"super-secret-webhook-key-12345";
    let payload = br#"{"deliveryId":"del-1","webhookId":"wh-1","type":"InvoiceSettled","timestamp":1629892019,"storeId":"store-abc","invoiceId":"inv-xyz"}"#;

    let hex_sig = compute_hmac_hex(secret, payload);
    let header_val = format!("sha256={hex_sig}");

    let mut tampered_payload = payload.to_vec();
    tampered_payload[10] = if tampered_payload[10] == b'a' { b'b' } else { b'a' };

    assert!(!verify_btcpay_sig(secret, &tampered_payload, &header_val));
}

#[test]
fn rejects_wrong_secret() {
    let secret_correct = b"correct-secret";
    let secret_wrong = b"wrong-secret";
    let payload = br#"{"type":"InvoiceSettled"}"#;

    let hex_sig = compute_hmac_hex(secret_correct, payload);
    assert!(!verify_btcpay_sig(secret_wrong, payload, &format!("sha256={hex_sig}")));
}

#[test]
fn rejects_empty_or_malformed_inputs() {
    let secret = b"valid-secret";
    let payload = br#"{"type":"InvoiceSettled"}"#;

    assert!(!verify_btcpay_sig(b"", payload, "sha256=abcdef"));
    assert!(!verify_btcpay_sig(secret, payload, ""));
    assert!(!verify_btcpay_sig(secret, payload, "   "));
    assert!(!verify_btcpay_sig(secret, payload, "sha256=not_hex_at_all!!"));
    assert!(!verify_btcpay_sig(secret, payload, "sha256=12345"));
}

#[test]
fn normalizes_invoice_settled_payload() {
    let raw = r#"{
        "deliveryId": "del-settled-1",
        "webhookId": "wh-1",
        "originalDeliveryId": null,
        "isRedelivery": false,
        "type": "InvoiceSettled",
        "timestamp": 1724248800,
        "storeId": "store-main",
        "invoiceId": "inv-999",
        "paymentMethod": "BTC-LightningNetwork",
        "payment": {
            "value": "100000",
            "fee": "100",
            "status": "Settled",
            "paymentHash": "hash123"
        },
        "metadata": {
            "orderId": "order-42",
            "posData": "item-1"
        }
    }"#;

    let event = normalize_webhook_payload(&read(raw.as_bytes())).expect("normalization succeeds");
    match event {
        NodeEvent::InvoiceSettled(e) => {
            assert_eq!(e.id, "inv-999");
            assert_eq!(e.store_id.as_deref(), Some("store-main"));
            assert_eq!(e.payment_method.as_deref(), Some("BTC-LightningNetwork"));
            assert_eq!(e.amount_msat, 100_000);
            assert_eq!(e.fee_msat, 100);
            assert_eq!(e.payment_hash.as_deref(), Some("hash123"));
            assert_eq!(e.metadata_value("orderId"), Some("order-42"));
            assert_eq!(e.timestamp, Timestamp { secs: 1_724_248_800, nanos: 0 });
        }
        other => panic!("expected InvoiceSettled, got {:?}", other),
    }
}

#[test]
fn normalizes_invoice_payment_received_payload() {
    let raw = r#"{
        "deliveryId": "del-rec-1",
        "webhookId": "wh-2",
        "type": "InvoiceReceivedPayment",
        "timestamp": 1724248850,
        "storeId": "store-main",
        "invoiceId": "inv-888",
        "paymentMethod": "BTC-LightningNetwork",
        "payment": {
            "value": "50000",
            "fee": "50",
            "status": "Processing"
        }
    }"#;

    let event = normalize_webhook_payload(&read(raw.as_bytes())).expect("normalization succeeds");
    match event {
        NodeEvent::InvoicePaymentReceived(e) => {
            assert_eq!(e.id, "inv-888");
            assert_eq!(e.amount_msat, 50_000);
            assert_eq!(e.fee_msat, 50);
        }
        other => panic!("expected InvoicePaymentReceived, got {:?}", other),
    }
}

#[test]
fn normalizes_invoice_expired_payload() {
    let raw = r#"{
        "deliveryId": "del-exp-1",
        "webhookId": "wh-3",
        "type": "InvoiceExpired",
        "timestamp": 1724248900,
        "storeId": "store-main",
        "invoiceId": "inv-777"
    }"#;

    let event = normalize_webhook_payload(&read(raw.as_bytes())).expect("normalization succeeds");
    match event {
        NodeEvent::InvoiceExpired(e) => {
            assert_eq!(e.id, "inv-777");
            assert_eq!(e.store_id.as_deref(), Some("store-main"));
        }
        other => panic!("expected InvoiceExpired, got {:?}", other),
    }
}

const STREAMED: &[u8] = br#"{
        "deliveryId": "del-stream-1",
        "webhookId": "wh-1",
        "type": "InvoiceSettled",
        "timestamp": 1724249000,
        "storeId": "store-test",
        "invoiceId": "inv-stream-1",
        "paymentMethod": "BTC-LightningNetwork",
        "payment": {
            "value": "250000",
            "fee": "25"
        }
    }"#;

#[test]
fn adapter_event_stream_propagates_webhook_events() {
    let secret = "wh-secret-secure";
    let hex_sig = compute_hmac_hex(secret.as_bytes(), STREAMED);
    let header_val = format!("sha256={hex_sig}");

    let received =
        accept_webhook(Some(secret), STREAMED, &header_val, &read(STREAMED), now()).unwrap();
    match received {
        NodeEvent::InvoiceSettled(e) => {
            assert_eq!(e.id, "inv-stream-1");
            assert_eq!(e.amount_msat, 250_000);
            assert_eq!(e.fee_msat, 25);
        }
        other => panic!("expected InvoiceSettled, got {:?}", other),
    }
}

#[test]
fn unsigned_webhooks_are_refused_where_a_secret_is_set() {
    assert_eq!(
        accept_webhook(Some("secret"), STREAMED, "sha256=00", &read(STREAMED), now()),
        Err(BtcPayError::InvalidSignature)
    );
    assert!(accept_webhook(None, STREAMED, "", &read(STREAMED), now()).is_ok());
}

#[test]
fn malformed_and_unknown_webhooks_are_refused() {
    assert!(matches!(
        normalize_at(&read(b"no json"), now()),
        Err(BtcPayError::MalformedPayload(_))
    ));
    let unknown = br#"{"deliveryId":"d","webhookId":"w","type":"StoreCreated","timestamp":1,"storeId":"s"}"#;
    assert_eq!(
        normalize_at(&read(unknown), now()),
        Err(BtcPayError::MalformedPayload(
            "unsupported or non-telemetry webhook event type: StoreCreated".into()
        ))
    );
    let no_invoice = br#"{"deliveryId":"d","webhookId":"w","type":"InvoiceExpired","timestamp":1,"storeId":"s"}"#;
    assert!(matches!(normalize_at(&read(no_invoice), now()), Err(BtcPayError::Json(_))));
}

#[test]
fn times_that_name_no_moment_are_taken_as_now() {
    let raw = format!(
        "{{\"deliveryId\":\"d\",\"webhookId\":\"w\",\"type\":\"InvoiceExpired\",\"timestamp\":{},\"storeId\":\"s\",\"invoiceId\":\"i\"}}",
        i64::MAX
    );
    match normalize_at(&read(raw.as_bytes()), now()).unwrap() {
        NodeEvent::InvoiceExpired(e) => assert_eq!(e.timestamp, now()),
        other => panic!("expected InvoiceExpired, got {:?}", other),
    }
}

#[test]
fn errors_become_ingestion_errors() {
    assert!(matches!(
        BtcPayError::InvalidSignature.into_ingestion_error(),
        IngestionError::Authentication(_)
    ));
    assert!(matches!(
        BtcPayError::MalformedPayload("x".into()).into_ingestion_error(),
        IngestionError::Normalization(_)
    ));
}

fn lightning_info() -> GreenfieldLightningInfo {
    GreenfieldLightningInfo {
        node_uris: vec![
            "02112233445566778899aabbccddeeff00112233445566778899aabbccddeeff00@127.0.0.1:9735"
                .into(),
        ],
        block_height: Some(850_000),
        alias: Some("btcpay-node".into()),
        color: Some("#00ff00".into()),
        version: Some("v0.18.0".into()),
        active_channels_count: Some(2),
        inactive_channels_count: Some(1),
        pending_channels_count: Some(0),
    }
}

fn lightning_channel(
    point: &str,
    local: u64,
    remote: u64,
    capacity: u64,
    is_active: bool,
) -> GreenfieldLightningChannel {
    GreenfieldLightningChannel {
        channel_point: Some(point.into()),
        remote_balance: amount(Json::Unsigned(remote)),
        local_balance: amount(Json::Unsigned(local)),
        capacity: amount(Json::Unsigned(capacity)),
        is_active,
        is_public: None,
    }
}

#[test]
fn polls_greenfield_into_normalized_node_snapshot() {
    let config = BtcPayAdapterConfig {
        store_id: "store-test-1".into(),
        crypto_code: "BTC".into(),
        network: BitcoinNetwork::Regtest,
        node_id_override: None,
        webhook_secret: None,
    };
    let server = GreenfieldServerInfo {
        version: "2.0.0".into(),
        supported_payment_methods: vec!["BTC".into(), "BTC-LightningNetwork".into()],
        fully_synced: Some(true),
    };
    let health = health_report(Ok(&server), 5);
    assert!(health.is_connected);
    assert_eq!(health.source_name, "btcpay");

    let channels = vec![
        lightning_channel(
            "1111111111111111111111111111111111111111111111111111111111111111:0",
            2_000_000,
            1_000_000,
            3_000_000,
            true,
        ),
        lightning_channel(
            "2222222222222222222222222222222222222222222222222222222222222222:1",
            1_000_000,
            1_000_000,
            2_000_000,
            true,
        ),
        lightning_channel(
            "3333333333333333333333333333333333333333333333333333333333333333:0",
            0,
            500_000,
            500_000,
            false,
        ),
    ];
    let wallet = Some(GreenfieldOnChainWallet {
        balance: amount(Json::Unsigned(1_500_000)),
        unconfirmed_balance: amount(Json::Unsigned(0)),
        confirmed_balance: amount(Json::Unsigned(1_500_000)),
    });
    let snapshot = build_snapshot(&config, &lightning_info(), &channels, &wallet, now());
    assert_eq!(snapshot.network, BitcoinNetwork::Regtest);
    assert_eq!(snapshot.active_channels_count, 2);
    assert_eq!(snapshot.inactive_channels_count, 1);
    assert_eq!(snapshot.total_local_balance_msat, 3_000_000);
    assert_eq!(snapshot.total_remote_balance_msat, 2_000_000);
    assert_eq!(snapshot.total_capacity_msat, 5_500_000);
    assert_eq!(snapshot.block_height, Some(850000));
    assert_eq!(snapshot.onchain_balance_sats, Some(1500000));
    assert_eq!(snapshot.channels.len(), 3);
    assert_eq!(
        snapshot.node_id,
        "02112233445566778899aabbccddeeff00112233445566778899aabbccddeeff00"
    );

    let c0 = &snapshot.channels[0];
    assert_eq!(c0.status, ChannelStatus::Active);
    assert_eq!(c0.local_balance_msat, 2_000_000);
    assert_eq!(c0.remote_balance_msat, 1_000_000);
}

#[test]
fn health_reports_tell_of_failures() {
    let failed = BtcPayError::Http("refused".into());
    let health = health_report(Err(&failed), 3);
    assert!(!health.is_connected);
    assert!(health.message.unwrap().contains("refused"));
}

#[test]
fn amounts_are_read_as_thousandths() {
    assert_eq!(parse_msats("100000", None), Some(100_000));
    assert_eq!(parse_msats("7", None), Some(7));
    assert_eq!(parse_msats(" 7 ", None), None);
    assert_eq!(parse_msats("abc", None), None);
    assert_eq!(parse_msats("0.5", Some(50_000_000_000)), Some(50_000_000_000));
    assert_eq!(parse_balance_msat(&None), 0);
    assert_eq!(parse_balance_msat(&amount(Json::Text("12".into()))), 12);
    let balance = GreenfieldLightningBalance {
        total: amount(Json::Unsigned(5)),
        local: amount(Json::Unsigned(3)),
        remote: amount(Json::Text("2".into())),
        unsettled: None,
    };
    assert_eq!(
        (balance.total_msat(), balance.local_msat(), balance.remote_msat()),
        (5, 3, 2)
    );
}

#[test]
fn node_ids_are_what_stands_before_the_address() {
    let mut info = lightning_info();
    assert_eq!(
        info.node_id().as_deref(),
        Some("02112233445566778899aabbccddeeff00112233445566778899aabbccddeeff00")
    );
    info.node_uris = vec![];
    assert_eq!(info.node_id(), None);
}

#[test]
fn addresses_are_put_together() {
    let base = "https://btcpay.example";
    assert_eq!(server_info_url(base), "https://btcpay.example/api/v1/server/info");
    assert_eq!(
        lightning_info_url(base, "s", "BTC"),
        "https://btcpay.example/api/v1/stores/s/lightning/BTC/info"
    );
    assert_eq!(
        lightning_balance_url(base, "s", "BTC"),
        "https://btcpay.example/api/v1/stores/s/lightning/BTC/balance"
    );
    assert_eq!(
        lightning_channels_url(base, "s", "BTC"),
        "https://btcpay.example/api/v1/stores/s/lightning/BTC/channels"
    );
    assert_eq!(
        onchain_wallet_url(base, "s", "BTC"),
        "https://btcpay.example/api/v1/stores/s/onchain/BTC/wallet"
    );
    assert_eq!(
        invoices_url(base, "s", Some("Settled")),
        "https://btcpay.example/api/v1/stores/s/invoices?status=Settled"
    );
}

#[test]
fn clients_need_an_address_and_a_key() {
    let settings = client_settings("https://b.example/", "key", Period::from_secs(30)).unwrap();
    assert_eq!(settings.base_url, "https://b.example");
    assert_eq!(settings.timeout, Period::from_secs(30));
    assert!(client_settings("", "key", Period::from_secs(30)).is_err());
    assert!(client_settings("https://b.example", " ", Period::from_secs(30)).is_err());
}

#[test]
fn keys_must_fit_in_a_header() {
    let settings = |key: &str| client_settings("https://b.example", key, Period::from_secs(1));
    assert_eq!(settings(" a\tkey ").unwrap().authorization, "token a\tkey");
    assert!(settings("k\u{e9}y").is_ok());
    for bad in ["a\nb", "a\u{7f}b", "a\u{1}b"] {
        assert!(matches!(
            settings(bad),
            Err(BtcPayError::Config(message)) if message == "Invalid characters in API key"
        ));
    }
}

#[test]
fn answers_are_judged_by_their_status() {
    assert_eq!(checked_answer(200, "{}".into()), Ok("{}".into()));
    assert_eq!(
        checked_answer(500, "down".into()),
        Err(BtcPayError::Api { status: 500, message: "down".into() })
    );
}

#[test]
fn webhooks_tell_when_they_were_sent() {
    let raw = br#"{"deliveryId":"d","webhookId":"w","type":"InvoiceExpired","timestamp":1700000000,"storeId":"s"}"#;
    let sent = read(raw).envelope.unwrap().timestamp_utc();
    assert_eq!(sent, Timestamp { secs: 1_700_000_000, nanos: 0 });
}

#[test]
fn headers_claim_the_code_that_they_spell() {
    let code: Vec<u8> = (0u8..32).collect();
    let digits = "000102030405060708090a0b0c0d0e0f101112131415161718191a1b1c1d1e1f";
    assert!(claims_code(digits, &code));
    assert!(claims_code(&format!(" sha256= {} ", digits.to_uppercase()), &code));
    assert!(!claims_code(&format!("sha1={digits}"), &code));
    assert!(!claims_code(&digits[2..], &code[1..]));
    assert!(!claims_code(&digits.replace("1f", "1g"), &code));
    assert!(!claims_code(digits, &code[..31]));
}

#[test]
fn webhooks_keep_what_else_they_say() {
    let payload: serde_json::Value = serde_json::from_str(
        r#"{"deliveryId":"d","webhookId":"w","type":"InvoiceCreated","timestamp":1,
            "storeId":"s","partiallyPaid":true,"manuallyMarked":false}"#,
    )
    .unwrap();
    let event = envelope(&payload).unwrap();
    let expected = vec![
        Member { key: "manuallyMarked".into(), value: Json::Bool(false) },
        Member { key: "partiallyPaid".into(), value: Json::Bool(true) },
    ];
    assert_eq!(event.clone().extra, expected);
}
