use rieko::domain::{BitcoinNetwork, ChannelStatus, LiquidityImbalance, NodeId};
use rieko::json::Json;
use rieko::lnd_client::{
    check_certificate, check_certificate_file, client_settings, contradicts, endpoint_url, is_insecure, macaroon_header,
    node_snapshot, normalize_channels, normalize_forwards, online_message, LndSetupError,
};
use rieko::lnd_model::{
    de_i64, de_opt_i64, de_opt_u64, de_u64, LndChainInfo, LndChannel, LndChannelResponse,
    LndForward, LndForwardResponse, LndGetInfoResponse, WireError,
};
use rieko::lnd_normalize::{
    can_be_normalized, classify_status_bits, status_from_lnd_flags, Normalizer, NormalizerError, ShortChanResolver,
    KNOWN_BITS,
};
use rieko::time::Timestamp;

fn now() -> Timestamp {
    Timestamp { secs: 1_700_000_000, nanos: 0 }
}

fn json_of(v: &serde_json::Value) -> Json {
    match v {
        serde_json::Value::Null => Json::Null,
        serde_json::Value::Bool(b) => Json::Bool(*b),
        serde_json::Value::String(s) => Json::Text(s.clone()),
        serde_json::Value::Number(n) => match n.as_u64() {
            Some(u) => Json::Unsigned(u),
            None => match n.as_i64() {
                Some(i) => Json::Negative(i),
                None => Json::Real { bits: n.as_f64().unwrap().to_bits(), text: n.to_string() },
            },
        },
        other => Json::Compound(other.to_string()),
    }
}

fn field(v: &serde_json::Value, key: &str) -> Json {
    json_of(v.get(key).unwrap_or(&serde_json::Value::Null))
}

fn read_channels(json: &str) -> LndChannelResponse {
    let v: serde_json::Value = serde_json::from_str(json).unwrap();
    let channels = v["channels"]
        .as_array()
        .unwrap()
        .iter()
        .map(|c| LndChannel {
            channel_point: c["channel_point"].as_str().unwrap().into(),
            remote_pubkey: c["remote_pubkey"].as_str().unwrap().into(),
            capacity: de_i64(&field(c, "capacity")).unwrap(),
            local_balance: de_i64(&field(c, "local_balance")).unwrap(),
            remote_balance: de_i64(&field(c, "remote_balance")).unwrap(),
            commit_fee: de_i64(&field(c, "commit_fee")).unwrap(),
            chan_status_flags: c["chan_status_flags"].as_str().unwrap().into(),
            chan_id: de_opt_u64(&field(c, "chan_id")).unwrap(),
            local_chan_reserve_sat: de_opt_i64(&field(c, "local_chan_reserve_sat")).unwrap(),
            remote_chan_reserve_sat: de_opt_i64(&field(c, "remote_chan_reserve_sat")).unwrap(),
            private: c["private"].as_bool().unwrap_or(false),
            initiator: c["initiator"].as_bool().unwrap_or(false),
            total_satoshis_sent: de_opt_i64(&field(c, "total_satoshis_sent")).unwrap(),
            total_satoshis_received: de_opt_i64(&field(c, "total_satoshis_received")).unwrap(),
        })
        .collect();
    LndChannelResponse { channels }
}

fn read_forwards(json: &str) -> LndForwardResponse {
    let v: serde_json::Value = serde_json::from_str(json).unwrap();
    let forwarding_events = v["forwarding_events"]
        .as_array()
        .unwrap()
        .iter()
        .map(|f| LndForward {
            chan_id_in: de_u64(&field(f, "chan_id_in")).unwrap(),
            chan_id_out: de_u64(&field(f, "chan_id_out")).unwrap(),
            amt_in_msat: de_i64(&field(f, "amt_in_msat")).unwrap(),
            amt_out_msat: de_i64(&field(f, "amt_out_msat")).unwrap(),
            fee_msat: de_i64(&field(f, "fee_msat")).unwrap(),
            timestamp: de_i64(&field(f, "timestamp")).unwrap(),
            timestamp_ns: de_opt_u64(&field(f, "timestamp_ns")).unwrap(),
        })
        .collect();
    LndForwardResponse { forwarding_events }
}

fn lnd_channel(point: &str, flags: &str) -> LndChannel {
    LndChannel {
        channel_point: point.into(),
        remote_pubkey: "peerpubkey".into(),
        capacity: 100_000,
        local_balance: 95_000,
        remote_balance: 5_000,
        commit_fee: 100,
        chan_status_flags: flags.into(),
        chan_id: None,
        local_chan_reserve_sat: None,
        remote_chan_reserve_sat: None,
        private: false,
        initiator: true,
        total_satoshis_sent: None,
        total_satoshis_received: None,
    }
}

fn info() -> LndGetInfoResponse {
    LndGetInfoResponse {
        identity_pubkey: "02abcdef".into(),
        alias: Some("rieko-regtest".into()),
        version: Some("0.18.5-beta".into()),
        chains: vec![LndChainInfo { chain: "bitcoin".into(), network: "regtest".into() }],
        synced_to_chain: true,
        num_active_channels: 3,
        num_inactive_channels: 1,
    }
}

fn forward(chan_id_in: u64, chan_id_out: u64, timestamp_ns: Option<u64>) -> LndForward {
    LndForward {
        chan_id_in,
        chan_id_out,
        amt_in_msat: 1_000,
        amt_out_msat: 990,
        fee_msat: 10,
        timestamp: 1_685_321_004,
        timestamp_ns,
    }
}

#[test]
fn http_url_is_rejected_by_default() {
    let err = client_settings("http://127.0.0.1:1", None, false).unwrap_err();
    assert!(matches!(err, LndSetupError::InsecureTransport));
}

#[test]
fn https_url_is_accepted() {
    assert!(client_settings("https://127.0.0.1:1", None, false).is_ok());
}

#[test]
fn allow_insecure_bypasses_scheme_check() {
    assert!(client_settings("http://127.0.0.1:1", None, true).is_ok());
}

#[test]
fn macaroon_is_lowercase_hex() {
    let mac = vec![0xde, 0xad, 0xbe, 0xef];
    let client = client_settings("http://127.0.0.1:1", Some(mac), true).unwrap();
    assert_eq!(client.macaroon_hex.as_deref(), Some("deadbeef"));
}

#[test]
fn read_client_exposes_no_mutation_method() {
    let client = client_settings("http://127.0.0.1:1", None, true).unwrap();
    assert!(client.macaroon_hex.is_none());
    assert!(client.rest_base.starts_with("http"));
}

#[test]
fn macaroon_header_is_lowercase_hex_of_file_bytes() {
    let macaroon = vec![0xde, 0xad, 0xbe, 0xef, 0x00, 0xff];
    assert_eq!(macaroon_header(macaroon), "deadbeef00ff");
}

#[test]
fn binary_macaroon_invalid_utf8_still_works() {
    let macaroon: Vec<u8> = (0..=255).collect();
    assert!(std::str::from_utf8(&macaroon).is_err());
    let client = client_settings("http://127.0.0.1:1", Some(macaroon.clone()), true).unwrap();
    assert_eq!(client.macaroon_hex, Some(hex::encode(macaroon)));
}

#[test]
fn certificate_files_must_be_text() {
    let bad = [b'-', 0xFF, b'-'];
    let expected = format!(
        "invalid certificate encoding: {}",
        std::str::from_utf8(&bad).unwrap_err()
    );
    assert_eq!(check_certificate_file(&bad), Err(LndSetupError::Tls(expected)));
    assert_eq!(
        check_certificate_file(b"nothing"),
        Err(LndSetupError::Tls("no certificate found in --tls-cert".into()))
    );
    assert!(check_certificate_file(b"-----BEGIN CERTIFICATE-----\nAA==\n").is_ok());
}

#[test]
fn garbage_cert_bytes_produce_clear_error() {
    let bad_pem = "this is definitely not a certificate in any format";
    assert!(matches!(check_certificate(bad_pem), Err(LndSetupError::Tls(_))));
    assert!(check_certificate(
        "-----BEGIN CERTIFICATE-----\nAA==\n-----END CERTIFICATE-----\n"
    )
    .is_ok());
}

#[test]
fn addresses_of_endpoints_are_put_together() {
    let settings = client_settings("https://lnd.example:8080/", None, false).unwrap();
    assert_eq!(
        endpoint_url(&settings.rest_base, "/v1/channels"),
        "https://lnd.example:8080/v1/channels"
    );
    assert!(is_insecure("http://lnd.example"));
    assert!(!is_insecure("https://lnd.example"));
}

const CHANNEL_JSON: &str = r#"{
      "channels": [{
        "channel_point": "aaa111bbb222ccc333:0",
        "remote_pubkey": "03...",
        "capacity": "160000",
        "local_balance": "150000",
        "remote_balance": "10000",
        "commit_fee": "1000",
        "chan_status_flags": "ChanStatusBorked",
        "chan_id": "725708947102208001"
      }]
    }"#;

#[test]
fn parses_realistic_lnd_wire_format() {
    let parsed = read_channels(CHANNEL_JSON);
    assert_eq!(parsed.channels.len(), 1);
    let c = &parsed.channels[0];
    assert_eq!(c.channel_point, "aaa111bbb222ccc333:0");
    assert_eq!(c.capacity, 160_000);
    assert_eq!(c.local_balance, 150_000);
    assert_eq!(c.chan_status_flags, "ChanStatusBorked");
    assert_eq!(c.chan_id, Some(725_708_947_102_208_001));
}

#[test]
fn parses_numeric_fields_too() {
    let json = r#"{"channels":[{
            "channel_point":"a:0",
            "remote_pubkey":"p",
            "capacity":100,"local_balance":90,"remote_balance":10,
            "commit_fee":1,"chan_status_flags":"0","chan_id":7
        }]}"#;
    let parsed = read_channels(json);
    assert_eq!(parsed.channels[0].chan_id, Some(7));
    assert_eq!(parsed.channels[0].capacity, 100);
}

#[test]
fn missing_chan_id_is_none() {
    let json = r#"{"channels":[{"channel_point":"a:0","remote_pubkey":"p",
            "capacity":100,"local_balance":90,"remote_balance":10,
            "commit_fee":1,"chan_status_flags":"0"}]}"#;
    let parsed = read_channels(json);
    assert!(parsed.channels[0].chan_id.is_none());
}

#[test]
fn forward_wire_uses_string_64bit_fields() {
    let json = r#"{"forwarding_events":[{
            "timestamp":"1685321004",
            "timestamp_ns":"1685321004123456789",
            "chan_id_in":"100","chan_id_out":"200",
            "amt_in":"1000","amt_out":"990","fee":"10",
            "amt_in_msat":"1000","amt_out_msat":"990","fee_msat":"10"
        }]}"#;
    let parsed = read_forwards(json);
    let f = &parsed.forwarding_events[0];
    assert_eq!(f.chan_id_in, 100);
    assert_eq!(f.chan_id_out, 200);
    assert_eq!(f.fee_msat, 10);
    assert_eq!(f.amt_in_msat, 1000);
    assert_eq!(f.timestamp, 1_685_321_004);
    assert_eq!(f.timestamp_ns, Some(1_685_321_004_123_456_789));
}

#[test]
fn absent_timestamp_ns_is_none() {
    let json = r#"{"forwarding_events":[{
            "chan_id_in":"1","chan_id_out":"2",
            "amt_in_msat":"1","amt_out_msat":"1","fee_msat":"0","timestamp":"100"
        }]}"#;
    assert_eq!(read_forwards(json).forwarding_events[0].timestamp_ns, None);
}

#[test]
fn wire_numbers_are_judged_like_the_standard_library_does() {
    for s in ["0", "18446744073709551615", "18446744073709551616", "-1", "+5", "", "1x"] {
        let got = de_u64(&Json::Text(s.into()));
        assert_eq!(got.ok(), s.parse::<u64>().ok(), "{s}");
        let got = de_i64(&Json::Text(s.into()));
        assert_eq!(got.ok(), s.parse::<i64>().ok(), "{s}");
    }
    assert!(matches!(de_i64(&Json::Unsigned(u64::MAX)), Err(WireError::OutOfRange)));
    assert_eq!(de_i64(&Json::Negative(-4)), Ok(-4));
    assert!(matches!(de_u64(&Json::Bool(true)), Err(WireError::WrongType)));
    assert_eq!(de_opt_u64(&Json::Null), Ok(None));
}

#[test]
fn normalizes_minimal_lightning_operational_state() {
    let observed_at = now();
    let snapshot = Normalizer::lightning_snapshot(&info(), observed_at);

    assert_eq!(snapshot.node_id, "02abcdef");
    assert!(snapshot.synced_to_chain);
    assert_eq!(snapshot.active_channels, 3);
    assert_eq!(snapshot.inactive_channels, 1);
    assert_eq!(snapshot.observed_at, observed_at);
}

#[test]
fn channel_maps_balances_to_msat() {
    let lnd = lnd_channel("abc123:1", "ChanStatusDefault");
    let c = Normalizer::channel(&lnd, &NodeId::new("local"), now()).unwrap();
    assert_eq!(c.capacity_msat, 100_000_000);
    assert_eq!(c.liquidity.local_balance_msat, 95_000_000);
    assert_eq!(c.liquidity.imbalance, LiquidityImbalance::InboundDrained);
    assert_eq!(c.status, ChannelStatus::Active);
    assert!(c.status.is_open());
    assert_eq!(c.peer.as_str(), "peerpubkey");
}

#[test]
fn bad_channel_point_is_rejected() {
    let lnd = lnd_channel("no-colon-here", "ChanStatusDefault");
    assert!(Normalizer::channel(&lnd, &NodeId::new("local"), now()).is_err());
}

#[test]
fn negative_balances_are_rejected() {
    let mut lnd = lnd_channel("abc123:1", "ChanStatusDefault");
    lnd.local_balance = -1;
    assert!(matches!(
        Normalizer::channel(&lnd, &NodeId::new("local"), now()),
        Err(NormalizerError::NegativeBalance(_))
    ));
}

#[test]
fn status_mapping_matches_lnd_017_bitfield() {
    let cases: &[(&str, ChannelStatus)] = &[
        ("ChanStatusDefault", ChannelStatus::Active),
        ("ChanStatusBorked", ChannelStatus::ForceClosing),
        ("ChanStatusCommitBroadcasted", ChannelStatus::Closing),
        ("ChanStatusLocalDataLoss", ChannelStatus::ForceClosing),
        ("ChanStatusRestored", ChannelStatus::Opening),
        ("ChanStatusCoopBroadcasted", ChannelStatus::Closing),
        ("ChanStatusLocalCloseInitiator", ChannelStatus::Closing),
        ("ChanStatusRemoteCloseInitiator", ChannelStatus::Closing),
        ("ChanStatusBorked|ChanStatusCommitBroadcasted", ChannelStatus::ForceClosing),
        ("ChanStatusCoopBroadcasted|ChanStatusLocalCloseInitiator", ChannelStatus::Closing),
    ];
    for (raw, expected) in cases {
        assert_eq!(status_from_lnd_flags(raw), *expected, "raw flags: {raw:?}");
    }
}

#[test]
fn status_mapping_accepts_numeric_form() {
    assert_eq!(status_from_lnd_flags("0"), ChannelStatus::Active);
    assert_eq!(status_from_lnd_flags("2"), ChannelStatus::Closing);
    assert_eq!(status_from_lnd_flags("1|2"), ChannelStatus::ForceClosing);
}

#[test]
fn unknown_or_malformed_flags_never_become_active() {
    for raw in [
        "",
        "   ",
        "not-a-flag",
        "0x80",
        "ChanStatusBorked|0x80",
        "ChanStatusFutureThing",
        "80000000",
        "ChanStatusDefault|ChanStatusBorked",
        "999",
    ] {
        let status = status_from_lnd_flags(raw);
        assert_ne!(status, ChannelStatus::Active, "raw flags: {raw:?} must not map to Active");
        assert!(!status.is_open(), "raw flags: {raw:?} must not classify as open");
    }
    assert_eq!(status_from_lnd_flags("0x80"), ChannelStatus::Unknown);
    assert_eq!(status_from_lnd_flags("ChanStatusBorked|0x80"), ChannelStatus::Unknown);
}

#[test]
fn every_combination_of_flags_has_a_status() {
    for bits in 0..=255u64 {
        let expected = if bits & !127 != 0 {
            ChannelStatus::Unknown
        } else if bits == 0 {
            ChannelStatus::Active
        } else if bits & 5 != 0 {
            ChannelStatus::ForceClosing
        } else if bits & (2 | 16 | 32 | 64) != 0 {
            ChannelStatus::Closing
        } else {
            ChannelStatus::Opening
        };
        assert_eq!(classify_status_bits(bits, KNOWN_BITS), expected, "{bits}");
    }
}

#[test]
fn forward_uses_source_timestamp_not_processing_time() {
    let resolver = ShortChanResolver::default();
    let lnd = forward(100, 200, Some(1_685_321_004_500_000_000));
    let ev = Normalizer::forward(&lnd, &resolver);
    assert_eq!(ev.timestamp, Timestamp { secs: 1_685_321_004, nanos: 500_000_000 });
}

#[test]
fn forward_falls_back_to_seconds_timestamp() {
    let resolver = ShortChanResolver::default();
    let ev = Normalizer::forward(&forward(100, 200, None), &resolver);
    assert_eq!(ev.timestamp, Timestamp { secs: 1_685_321_004, nanos: 0 });
}

#[test]
fn forward_id_derives_from_single_source_value() {
    let resolver = ShortChanResolver::default();
    let ev = Normalizer::forward(&forward(100, 200, Some(1_685_321_004_500_000_000)), &resolver);
    assert_eq!(ev.id, "fwd:1685321004500000000");
    let ev = Normalizer::forward(&forward(100, 200, None), &resolver);
    assert_eq!(ev.id, "fwd:1685321004");
}

#[test]
fn forward_resolves_chan_ids_to_channel_points() {
    let raw = vec![
        LndChannel { chan_id: Some(1), ..lnd_channel("txn1:0", "ChanStatusDefault") },
        LndChannel { chan_id: Some(2), ..lnd_channel("txn2:1", "ChanStatusDefault") },
    ];
    let resolver = ShortChanResolver::from_channels(&raw);
    let ev = Normalizer::forward(&forward(1, 2, None), &resolver);
    assert_eq!(ev.channel_in.as_str(), "txn1x0");
    assert_eq!(ev.channel_out.as_str(), "txn2x1");
}

#[test]
fn forward_preserves_unresolvable_chan_id_explicitly() {
    let resolver = ShortChanResolver::from_channels(&[lnd_channel("txn1:0", "0")]);
    let ev = Normalizer::forward(&forward(999_999, 0, None), &resolver);
    assert_eq!(ev.channel_in.as_str(), "scid:999999");
    assert_eq!(ev.channel_out.as_str(), "scid:0");
}

#[test]
fn resolver_keeps_first_channel_point_for_a_scid() {
    let raw = vec![
        LndChannel { chan_id: Some(7), ..lnd_channel("txn1:0", "0") },
        LndChannel { chan_id: Some(7), ..lnd_channel("txn9:9", "0") },
    ];
    let resolver = ShortChanResolver::from_channels(&raw);
    assert_eq!(resolver.resolve(7).unwrap().as_str(), "txn1x0");
}

#[test]
fn forwards_keep_their_order() {
    let resolver = ShortChanResolver::default();
    let events = normalize_forwards(&vec![forward(1, 2, None), forward(3, 4, None)], &resolver);
    assert_eq!(events.len(), 2);
    assert_eq!(events[0].channel_in.as_str(), "scid:1");
    assert_eq!(events[1].channel_out.as_str(), "scid:4");
}

#[test]
fn channels_are_normalized_in_order_or_not_at_all() {
    let good = vec![lnd_channel("a:0", "0"), lnd_channel("b:1", "2")];
    let channels = normalize_channels(&good, &NodeId::new("local"), now()).unwrap();
    assert_eq!(channels.len(), 2);
    assert_eq!(channels[1].status, ChannelStatus::Closing);
    let bad = vec![lnd_channel("a:0", "0"), lnd_channel("nope", "0")];
    assert!(normalize_channels(&bad, &NodeId::new("local"), now()).is_err());
}

#[test]
fn snapshots_of_a_node_count_its_channels() {
    let raw = vec![lnd_channel("a:0", "0"), lnd_channel("b:1", "2")];
    let snapshot = node_snapshot(&info(), &raw, BitcoinNetwork::Regtest, now());
    assert_eq!(snapshot.node_id, "02abcdef");
    assert_eq!(snapshot.channels.len(), 2);
    assert_eq!(snapshot.active_channels_count, 1);
    assert_eq!(snapshot.total_capacity_msat, 200_000_000);
    assert_eq!(snapshot.total_local_balance_msat, 95_000_000);
}

#[test]
fn reported_identities_are_compared() {
    assert!(contradicts("02aa", "02bb"));
    assert!(!contradicts("02aa", "02aa"));
    assert!(online_message(&info()).contains("0.18.5-beta"));
    assert_eq!(info().network(), Some("regtest"));
}

#[test]
fn amounts_must_be_countable_in_thousandths() {
    let mut channel = lnd_channel("f:0", "ChanStatusDefault");
    assert!(can_be_normalized(&channel));
    channel.total_satoshis_sent = Some(18_446_744_073_709_551);
    assert!(can_be_normalized(&channel));
    channel.total_satoshis_sent = Some(18_446_744_073_709_552);
    assert!(!can_be_normalized(&channel));
}
