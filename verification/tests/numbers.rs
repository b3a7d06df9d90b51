use rieko::domain::{classify_imbalance, ChannelStatus, LiquidityImbalance, LiquidityProfile};
use rieko::json::{quote, write_object, Json, Member};
use rieko::ratio::Ratio;
use rieko::text::{
    after_prefix, contains_text, is_blank, is_white, lower_hex, lower_text, parse_i64, parse_u64,
    split_text, text_precedes, trim_start_text, trim_text, u64_text, i64_text,
};
use rieko::time::{Period, Span, Timestamp};

fn steps() -> Vec<u64> {
    let mut seed: u64 = 0x2545_F491_4F6C_DD1D;
    let mut out = vec![0, 1, 2, 3, 999, 1_000_000, (1 << 53) - 1, 1 << 53, (1 << 53) + 1, u64::MAX];
    for _ in 0..200 {
        seed ^= seed << 13;
        seed ^= seed >> 7;
        seed ^= seed << 17;
        out.push(seed >> (seed % 61));
    }
    out
}

#[test]
fn ratios_agree_with_double_division() {
    let all = steps();
    for part in &all {
        for whole in &all {
            if *whole > 0 && part <= whole {
                let expected = (*part as f64) / (*whole as f64);
                assert_eq!(
                    Ratio::of(*part, *whole).bits,
                    expected.to_bits(),
                    "{part} of {whole}"
                );
            }
        }
    }
}

#[test]
fn ratios_know_their_half() {
    for r in [0.0, -0.0, 0.1, 0.499_999_999_999_999_94, 0.5, 0.6, 1.0] {
        let r: f64 = r;
        assert_eq!(Ratio { bits: r.to_bits() }.is_below_half(), r < 0.5, "{r}");
    }
    for r in [-0.1, 1.000_000_000_000_000_2, f64::NAN, f64::INFINITY] {
        let r: f64 = r;
        assert!(!Ratio { bits: r.to_bits() }.in_unit_range(), "{r}");
    }
}

#[test]
fn imbalance_follows_the_ratio() {
    assert_eq!(classify_imbalance(1_000_000, 500_000), LiquidityImbalance::Balanced);
    assert_eq!(classify_imbalance(1_000_000, 900_001), LiquidityImbalance::InboundDrained);
    assert_eq!(classify_imbalance(1_000_000, 99_999), LiquidityImbalance::OutboundDrained);
    assert_eq!(classify_imbalance(0, 0), LiquidityImbalance::Unknown);
    let p = LiquidityProfile::compute(1_000_000, 250_000, 750_000);
    assert_eq!(p.local_ratio.bits, 0.25f64.to_bits());
    assert!(ChannelStatus::Active.is_open());
    assert!(ChannelStatus::Closed.is_closed());
}

#[test]
fn white_space_is_what_the_standard_library_says() {
    for code in 0..=0x3100u32 {
        if let Some(c) = char::from_u32(code) {
            assert_eq!(is_white(c), c.is_whitespace(), "{code:x}");
        }
    }
    for s in ["", " a b ", "\u{2003}x\u{00a0}", "\t\n", "word"] {
        assert_eq!(trim_text(s), s.trim());
        assert_eq!(trim_start_text(s), s.trim_start());
        assert_eq!(is_blank(s), s.trim().is_empty());
    }
}

#[test]
fn numbers_are_read_and_written_like_the_standard_library_does() {
    for n in steps() {
        assert_eq!(u64_text(n), n.to_string());
        assert_eq!(i64_text(n as i64), (n as i64).to_string());
        assert_eq!(parse_u64(&n.to_string(), 10), Some(n));
    }
    assert_eq!(i64_text(i64::MIN), i64::MIN.to_string());
    for s in ["", "+", "-", "+5", "-5", "007", "18446744073709551616", "9223372036854775808", "-9223372036854775808", "1 "] {
        assert_eq!(parse_u64(s, 10), s.parse::<u64>().ok(), "{s}");
        assert_eq!(parse_i64(s), s.parse::<i64>().ok(), "{s}");
        assert_eq!(parse_u64(s, 16), u64::from_str_radix(s, 16).ok(), "{s}");
    }
    assert_eq!(parse_u64("ff", 16), Some(255));
}

#[test]
fn texts_are_taken_apart() {
    for s in ["", "a", "a|b", "|", "a||b|"] {
        let expected: Vec<String> = s.split('|').map(|p| p.to_string()).collect();
        assert_eq!(split_text(s, '|'), expected, "{s}");
    }
    assert_eq!(after_prefix("sha256=ab", "sha256="), Some("ab".into()));
    assert_eq!(after_prefix("sha", "sha256="), None);
    assert!(contains_text("channel c1", "c1"));
    assert!(!contains_text("channel c1", "c2"));
    assert_eq!(lower_text("HTTP://Ä"), "HTTP://Ä".to_ascii_lowercase());
    assert_eq!(lower_hex(&vec![0, 15, 255]), "000fff");
    for (a, b) in [("", "a"), ("a", "b"), ("ab", "a"), ("z", "ä"), ("x", "x")] {
        assert_eq!(text_precedes(a, b), a < b);
        assert_eq!(text_precedes(b, a), b < a);
    }
}

#[test]
fn documents_are_written_like_serde_json_does() {
    for s in ["", "plain", "q\"q", "b\\b", "\n\r\t\u{8}\u{c}", "\u{0}\u{1f}", "ü€😀", "/"] {
        assert_eq!(quote(s), serde_json::Value::from(s).to_string(), "{s:?}");
    }
    let object = write_object(&vec![
        Member { key: "a".into(), value: Json::Unsigned(1) },
        Member { key: "b".into(), value: Json::Text("x".into()) },
        Member { key: "c".into(), value: Json::Null },
        Member { key: "d".into(), value: Json::Bool(true) },
        Member { key: "e".into(), value: Json::Negative(-7) },
    ]);
    assert_eq!(object, r#"{"a":1,"b":"x","c":null,"d":true,"e":-7}"#);
    assert_eq!(write_object(&vec![]), "{}");
}

#[test]
fn integers_become_doubles_like_serde_json_does() {
    for n in [0u64, 1, 12, 1 << 53, u64::MAX] {
        assert_eq!(
            Json::Unsigned(n).to_double_value().to_text(),
            serde_json::Value::from(n as f64).to_string()
        );
    }
}

#[test]
fn moments_are_ordered() {
    let t = Timestamp { secs: 10, nanos: 5 };
    let u = Timestamp { secs: 10, nanos: 6 };
    assert!(t.is_before(&u) && !u.is_before(&t) && !t.is_before(&t));
    assert_eq!(t.earlier_of(&u), t);
    assert_eq!(u.earlier_of(&t), t);
    assert!(u.is_more_than_after(&Span::seconds(0), &t));
    assert!(!t.is_more_than_after(&Span::seconds(0), &t));
    assert_eq!(Timestamp { secs: -1, nanos: 1 }.to_nanos(), -999_999_999);
    assert_eq!(Period::from_secs(3).to_nanos(), 3_000_000_000);
    assert_eq!(Period::from_secs(300).at_most(5), Period::from_secs(5));
    assert_eq!(Period { secs: 4, nanos: 9 }.at_most(5), Period { secs: 4, nanos: 9 });
}

fn double(value: f64) -> Json {
    Json::Real { bits: value.to_bits(), text: serde_json::Value::from(value).to_string() }
}

#[test]
fn zero_keeps_its_sign_where_it_is_quoted() {
    for value in [-0.0f64, 0.0, 0.25, 1.0] {
        assert_eq!(double(value).fixed_4_text(), format!("{value:.4}"));
        assert_eq!(double(value).percent_text(), format!("{:.1}", value * 100.0));
    }
    assert_eq!(double(-0.0).fixed_4_text(), "-0.0000");
    assert_eq!(double(-0.0).percent_text(), "-0.0");
}

#[test]
fn the_sign_of_zero_does_not_tell_values_apart() {
    assert!(double(0.0).same_as(&double(-0.0)));
    assert!(!double(0.5).same_as(&double(-0.5)));
    assert!(!double(0.0).same_as(&Json::Unsigned(0)));
    let documents = [
        (r#"{"a":[-0.0,1]}"#, r#"{"a":[0.0,1]}"#),
        (r#"{"a":"-0.0"}"#, r#"{"a":"0.0"}"#),
        (r#"{"a":"\"-0.0"}"#, r#"{"a":"\"0.0"}"#),
        (r#"[-0.05]"#, r#"[0.05]"#),
        (r#"[0.0,-0.0]"#, r#"[-0.0,0.0]"#),
    ];
    for (a, b) in documents {
        let x: serde_json::Value = serde_json::from_str(a).unwrap();
        let y: serde_json::Value = serde_json::from_str(b).unwrap();
        assert_eq!(
            Json::Compound(a.into()).same_as(&Json::Compound(b.into())),
            x == y,
            "{a} {b}"
        );
    }
}

#[test]
fn leap_seconds_are_ordered_and_counted() {
    let mut points = Vec::new();
    for secs in [59i64, 60, 119, 86_399, 86_400, 86_459, 172_799, -1, -86_341] {
        for nanos in [0u32, 400_000_000, 1_000_000_000, 1_900_000_000] {
            if let Some(t) = chrono::DateTime::from_timestamp(secs, nanos) {
                points.push((Timestamp { secs, nanos }, t));
            }
        }
    }
    assert!(points.iter().any(|(t, _)| t.nanos == 1_900_000_000 && t.secs == -1));
    for (a, x) in &points {
        for (b, y) in &points {
            assert_eq!(a.is_before(b), x < y);
            let span = x.signed_duration_since(*y);
            assert_eq!(a.nanos_since(b), span.num_nanoseconds().unwrap() as i128);
        }
    }
}
