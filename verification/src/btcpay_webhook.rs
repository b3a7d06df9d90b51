//! Webhooks of a BTCPay server: who may send them, and what they say.
use crate::btcpay_model;
use crate::btcpay_model::{
    parse_msats, BtcPayWebhookEvent, InvoiceExpiredPayload, InvoicePaymentData,
    InvoicePaymentDataView, InvoicePaymentReceivedPayload, InvoiceSettledPayload,
};
use crate::ingest::{
    IngestionError, IngestionErrorView, InvoiceExpiredEvent, InvoiceExpiredEventView,
    InvoicePaymentReceivedEvent, InvoicePaymentReceivedEventView, InvoiceSettledEvent,
    InvoiceSettledEventView, MetadataEntry, MetadataEntryView, NodeEvent, NodeEventView,
};
use crate::json::{Json, JsonView, Member, MemberView, Params, ParamsView};
use crate::text;
use crate::text::{copy_optional_text, same_text};
use crate::time::{current_time, Timestamp};
use vstd::prelude::*;

verus! {

/// The header that carries the signature of a webhook.
pub const BTCPAY_SIG_HEADER: &'static str = "BTCPay-Sig";

/// What can go wrong between the library and a BTCPay server.
#[derive(Debug, PartialEq, Eq)]
pub enum BtcPayError {
    InvalidSignature,
    MissingSignatureHeader(String),
    Http(String),
    Json(String),
    MalformedPayload(String),
    Api { status: u16, message: String },
    ChannelClosed,
    Config(String),
}

/// The mathematical value of a [`BtcPayError`].
pub enum BtcPayErrorView {
    InvalidSignature,
    MissingSignatureHeader(Seq<char>),
    Http(Seq<char>),
    Json(Seq<char>),
    MalformedPayload(Seq<char>),
    Api { status: u16, message: Seq<char> },
    ChannelClosed,
    Config(Seq<char>),
}

impl DeepView for BtcPayError {
    type V = BtcPayErrorView;

    open spec fn deep_view(&self) -> BtcPayErrorView {
        match self {
            BtcPayError::InvalidSignature => BtcPayErrorView::InvalidSignature,
            BtcPayError::MissingSignatureHeader(s) => BtcPayErrorView::MissingSignatureHeader(s@),
            BtcPayError::Http(s) => BtcPayErrorView::Http(s@),
            BtcPayError::Json(s) => BtcPayErrorView::Json(s@),
            BtcPayError::MalformedPayload(s) => BtcPayErrorView::MalformedPayload(s@),
            BtcPayError::Api { status, message } => BtcPayErrorView::Api {
                status: *status,
                message: message@,
            },
            BtcPayError::ChannelClosed => BtcPayErrorView::ChannelClosed,
            BtcPayError::Config(s) => BtcPayErrorView::Config(s@),
        }
    }
}

/// What an error says.
pub open spec fn btcpay_error_text(e: BtcPayErrorView) -> Seq<char> {
    match e {
        BtcPayErrorView::InvalidSignature => "invalid webhook signature"@,
        BtcPayErrorView::MissingSignatureHeader(s) => "missing signature header '"@ + s + "'"@,
        BtcPayErrorView::Http(s) => "HTTP client error: "@ + s,
        BtcPayErrorView::Json(s) => "JSON serialization/deserialization error: "@ + s,
        BtcPayErrorView::MalformedPayload(s) => "malformed payload: "@ + s,
        BtcPayErrorView::Api { status, message } => "Greenfield API error (status "@
            + text::decimal(status as nat) + "): "@ + message,
        BtcPayErrorView::ChannelClosed => "event channel closed"@,
        BtcPayErrorView::Config(s) => "invalid configuration: "@ + s,
    }
}

/// The ingestion error that stands for an error of the server.
pub open spec fn as_ingestion_error(e: BtcPayErrorView) -> IngestionErrorView {
    match e {
        BtcPayErrorView::InvalidSignature => IngestionErrorView::Authentication(
            btcpay_error_text(e),
        ),
        BtcPayErrorView::MissingSignatureHeader(_) => IngestionErrorView::Authentication(
            btcpay_error_text(e),
        ),
        BtcPayErrorView::Http(s) => IngestionErrorView::Connection(s),
        BtcPayErrorView::Json(s) => IngestionErrorView::Normalization(s),
        BtcPayErrorView::MalformedPayload(s) => IngestionErrorView::Normalization(s),
        BtcPayErrorView::Api { status, message } => if status == 401 || status == 403 {
            IngestionErrorView::Authentication(message)
        } else {
            IngestionErrorView::Connection(
                "status "@ + text::decimal(status as nat) + ": "@ + message,
            )
        },
        BtcPayErrorView::ChannelClosed => IngestionErrorView::Closed,
        BtcPayErrorView::Config(s) => IngestionErrorView::Other(s),
    }
}

impl BtcPayError {
    /// What the error says.
    pub fn to_text(&self) -> (r: String)
        ensures
            r@ == btcpay_error_text(self.deep_view()),
    {
        match self {
            BtcPayError::InvalidSignature => "invalid webhook signature".to_owned(),
            BtcPayError::MissingSignatureHeader(s) => "missing signature header '".to_owned().concat(
                s.as_str(),
            ).concat("'"),
            BtcPayError::Http(s) => "HTTP client error: ".to_owned().concat(s.as_str()),
            BtcPayError::Json(s) => "JSON serialization/deserialization error: ".to_owned().concat(
                s.as_str(),
            ),
            BtcPayError::MalformedPayload(s) => "malformed payload: ".to_owned().concat(s.as_str()),
            BtcPayError::Api { status, message } => "Greenfield API error (status ".to_owned().concat(
                text::u64_text(*status as u64).as_str(),
            ).concat("): ").concat(message.as_str()),
            BtcPayError::ChannelClosed => "event channel closed".to_owned(),
            BtcPayError::Config(s) => "invalid configuration: ".to_owned().concat(s.as_str()),
        }
    }

    /// The ingestion error that stands for this one.
    pub fn into_ingestion_error(self) -> (r: IngestionError)
        ensures
            r.deep_view() == as_ingestion_error(self.deep_view()),
    {
        match self {
            BtcPayError::InvalidSignature => IngestionError::Authentication(self.to_text()),
            BtcPayError::MissingSignatureHeader(s) => IngestionError::Authentication(
                BtcPayError::MissingSignatureHeader(s).to_text(),
            ),
            BtcPayError::Http(s) => IngestionError::Connection(s),
            BtcPayError::Json(s) => IngestionError::Normalization(s),
            BtcPayError::MalformedPayload(s) => IngestionError::Normalization(s),
            BtcPayError::Api { status, message } => if status == 401 || status == 403 {
                IngestionError::Authentication(message)
            } else {
                IngestionError::Connection(
                    "status ".to_owned().concat(text::u64_text(status as u64).as_str()).concat(
                        ": ",
                    ).concat(message.as_str()),
                )
            },
            BtcPayError::ChannelClosed => IngestionError::Closed,
            BtcPayError::Config(s) => IngestionError::Other(s),
        }
    }
}

/// The bytes that a text of hexadecimal digit pairs denotes.
pub open spec fn decoded_hex(s: Seq<char>) -> Option<Seq<u8>> {
    if s.len() % 2 == 0 && text::all_digits(s, 16) {
        Some(
            Seq::new(
                s.len() / 2,
                |i: int|
                    (text::digit_value(s[2 * i], 16).unwrap() * 16 + text::digit_value(
                        s[2 * i + 1],
                        16,
                    ).unwrap()) as u8,
            ),
        )
    } else {
        None
    }
}

/// `hex::decode`: the bytes that pairs of hexadecimal digits, of either case,
/// denote; nothing for a text that is not made of such pairs.
#[verifier::external_body]
fn decode_hex(s: &str) -> (r: Option<Vec<u8>>)
    ensures
        r.deep_view() == decoded_hex(s@),
{
    hex::decode(s).ok()
}

/// The HMAC-SHA256 of a message under a key.
pub uninterp spec fn hmac_sha256_of(key: Seq<u8>, message: Seq<u8>) -> Seq<u8>;

/// `hmac::Hmac<sha2::Sha256>`: the 32 bytes of the authentication code of a
/// message under a key. A key of any length is taken.
#[verifier::external_body]
fn hmac_sha256(key: &[u8], message: &[u8]) -> (r: Vec<u8>)
    ensures
        r@ == hmac_sha256_of(key@, message@),
        r@.len() == 32,
{
    let keyed = <hmac::Hmac<sha2::Sha256> as hmac::Mac>::new_from_slice(key);
    let code = keyed.map(|mac| hmac::Mac::finalize(hmac::Mac::chain_update(mac, message)));
    code.map(|c| c.into_bytes().to_vec()).unwrap_or_default()
}

/// `subtle::ConstantTimeEq::ct_eq`: whether two byte strings are the same, found
/// in a time that does not depend on where they differ.
#[verifier::external_body]
fn same_bytes(a: &[u8], b: &[u8]) -> (r: bool)
    ensures
        r == (a@ == b@),
{
    bool::from(subtle::ConstantTimeEq::ct_eq(a, b))
}

/// The part of a signature header that holds the code.
pub open spec fn code_text(header: Seq<char>) -> Seq<char> {
    let clean = text::trimmed(header);
    if text::begins_with(clean, "sha256="@) {
        text::trimmed(clean.skip("sha256="@.len() as int))
    } else {
        clean
    }
}

/// The authentication code that a signature header claims: 64 hexadecimal
/// digits, with or without `sha256=` before them.
pub open spec fn claimed_code(header: Seq<char>) -> Option<Seq<u8>> {
    if code_text(header).len() == 64 {
        decoded_hex(code_text(header))
    } else {
        None
    }
}

/// Whether a signature header claims an authentication code; it is compared in a time
/// that does not depend on where the two differ.
pub fn claims_code(sig_header: &str, expected: &[u8]) -> (r: bool)
    ensures
        r == (claimed_code(sig_header@) == Some(expected@)),
{
    let clean = text::trim_text(sig_header);
    let code = match text::after_prefix(clean.as_str(), "sha256=") {
        Some(rest) => text::trim_text(rest.as_str()),
        None => clean,
    };
    if text::chars_of(code.as_str()).len() != 64 {
        return false;
    }
    match decode_hex(code.as_str()) {
        Some(provided) => {
            assert(provided.deep_view() =~= provided@);
            same_bytes(expected, provided.as_slice())
        },
        None => false,
    }
}

/// Whether a signature header vouches for a payload.
pub open spec fn vouches(secret: Seq<u8>, payload: Seq<u8>, header: Seq<char>) -> bool {
    secret.len() > 0 && claimed_code(header) == Some(hmac_sha256_of(secret, payload))
}

/// Whether a `BTCPay-Sig` header vouches for the bytes of a payload: it claims
/// the HMAC-SHA256 of the payload under a secret that is not empty.
pub fn verify_btcpay_sig(secret: &[u8], payload_bytes: &[u8], sig_header: &str) -> (r: bool)
    ensures
        r == vouches(secret@, payload_bytes@, sig_header@),
{
    secret.len() > 0 && claims_code(sig_header, hmac_sha256(secret, payload_bytes).as_slice())
}

/// A webhook payload, read in each of the shapes that it may have, with what is
/// wrong where it has not the shape.
#[derive(Debug, PartialEq, Eq)]
pub struct ReadPayload {
    pub envelope: Result<BtcPayWebhookEvent, String>,
    pub settled: Result<InvoiceSettledPayload, String>,
    pub received: Result<InvoicePaymentReceivedPayload, String>,
    pub expired: Result<InvoiceExpiredPayload, String>,
}

/// What a payment says of its amount.
pub open spec fn paid_amount(payment: Option<InvoicePaymentDataView>) -> u64 {
    match payment {
        Some(p) => match p.value {
            Some(s) => match btcpay_model::named_amount(s, p.decimal_value_msat) {
                Some(n) => n,
                None => 0,
            },
            None => 0,
        },
        None => 0,
    }
}

/// What a payment says of its fee.
pub open spec fn paid_fee(payment: Option<InvoicePaymentDataView>) -> u64 {
    match payment {
        Some(p) => match p.fee {
            Some(s) => match btcpay_model::named_amount(s, p.decimal_fee_msat) {
                Some(n) => n,
                None => 0,
            },
            None => 0,
        },
        None => 0,
    }
}

fn amount_of(payment: &Option<InvoicePaymentData>) -> (r: u64)
    ensures
        r == paid_amount(payment.deep_view()),
{
    match payment {
        Some(p) => match &p.value {
            Some(s) => match parse_msats(s.as_str(), p.decimal_value_msat) {
                Some(n) => n,
                None => 0,
            },
            None => 0,
        },
        None => 0,
    }
}

fn fee_of(payment: &Option<InvoicePaymentData>) -> (r: u64)
    ensures
        r == paid_fee(payment.deep_view()),
{
    match payment {
        Some(p) => match &p.fee {
            Some(s) => match parse_msats(s.as_str(), p.decimal_fee_msat) {
                Some(n) => n,
                None => 0,
            },
            None => 0,
        },
        None => 0,
    }
}

/// A member of the metadata as a named text: a string as it is, anything else
/// as its JSON text.
pub open spec fn metadata_entry(m: MemberView) -> MetadataEntryView {
    MetadataEntryView {
        key: m.key,
        value: match m.value {
            JsonView::Text(s) => s,
            other => crate::json::json_text(other),
        },
    }
}

/// The metadata of an invoice as named texts; none where it is no JSON object.
pub open spec fn metadata_entries(metadata: Option<ParamsView>) -> Seq<MetadataEntryView> {
    match metadata {
        Some(ParamsView::Object(members)) => members.map_values(
            |m: MemberView| metadata_entry(m),
        ),
        _ => seq![],
    }
}

fn entries_of(members: &Vec<Member>) -> (r: Vec<MetadataEntry>)
    ensures
        r.deep_view() == members.deep_view().map_values(|m: MemberView| metadata_entry(m)),
{
    let ghost all = members.deep_view();
    let mut out: Vec<MetadataEntry> = Vec::new();
    let mut i: usize = 0;
    while i < members.len()
        invariant
            i <= members.len(),
            all == members.deep_view(),
            out.deep_view().len() == i,
            forall|k: int|
                0 <= k < i ==> #[trigger] out.deep_view()[k] == metadata_entry(all[k]),
        decreases members.len() - i,
    {
        assert(all[i as int] == members[i as int].deep_view());
        let value = match &members[i].value {
            Json::Text(s) => s.clone(),
            other => other.to_text(),
        };
        let entry = MetadataEntry { key: members[i].key.clone(), value };
        let ghost before = out.deep_view();
        out.push(entry);
        assert(out.deep_view() =~= before.push(entry.deep_view()));
        i += 1;
    }
    assert(out.deep_view() =~= all.map_values(|m: MemberView| metadata_entry(m)));
    out
}

/// The event that a settled invoice stands for.
pub open spec fn settled_event(
    p: btcpay_model::InvoiceSettledPayloadView,
    timestamp: Timestamp,
) -> InvoiceSettledEventView {
    InvoiceSettledEventView {
        id: p.invoice_id,
        store_id: Some(p.store_id),
        payment_method: if p.payment_method is Some {
            p.payment_method
        } else {
            p.payment_method_id
        },
        amount_msat: paid_amount(p.payment),
        fee_msat: paid_fee(p.payment),
        timestamp,
        payment_hash: match p.payment {
            Some(payment) => payment.payment_hash,
            None => None,
        },
        metadata: metadata_entries(p.metadata),
    }
}

fn settled(p: &InvoiceSettledPayload, timestamp: Timestamp) -> (r: InvoiceSettledEvent)
    ensures
        r.deep_view() == settled_event(p.deep_view(), timestamp),
{
    let metadata: Vec<MetadataEntry> = match &p.metadata {
        Some(Params::Object(members)) => entries_of(members),
        _ => Vec::new(),
    };
    assert(metadata.deep_view() =~= metadata_entries(p.deep_view().metadata));
    let payment_method = match &p.payment_method {
        Some(method) => Some(method.clone()),
        None => copy_optional_text(&p.payment_method_id),
    };
    let payment_hash = match &p.payment {
        Some(payment) => copy_optional_text(&payment.payment_hash),
        None => None,
    };
    InvoiceSettledEvent {
        id: p.invoice_id.clone(),
        store_id: Some(p.store_id.clone()),
        payment_method,
        amount_msat: amount_of(&p.payment),
        fee_msat: fee_of(&p.payment),
        timestamp,
        payment_hash,
        metadata,
    }
}

/// The outcome of a webhook over mathematical values.
pub open spec fn outcome(r: Result<NodeEvent, BtcPayError>) -> Result<
    NodeEventView,
    BtcPayErrorView,
> {
    match r {
        Ok(e) => Ok(e.deep_view()),
        Err(e) => Err(e.deep_view()),
    }
}

/// The event that a payload stands for, where its time is `timestamp`.
pub open spec fn event_of_type(
    event_type: Seq<char>,
    p: ReadPayload,
    timestamp: Timestamp,
) -> Result<NodeEventView, BtcPayErrorView> {
    if event_type == "InvoiceSettled"@ || event_type == "InvoiceProcessing"@ {
        match p.settled {
            Ok(body) => Ok(NodeEventView::InvoiceSettled(settled_event(body.deep_view(), timestamp))),
            Err(message) => Err(BtcPayErrorView::Json(message@)),
        }
    } else if event_type == "InvoiceReceivedPayment"@ {
        match p.received {
            Ok(body) => Ok(
                NodeEventView::InvoicePaymentReceived(
                    InvoicePaymentReceivedEventView {
                        id: body.invoice_id@,
                        store_id: Some(body.store_id@),
                        payment_method: body.payment_method.deep_view(),
                        amount_msat: paid_amount(body.payment.deep_view()),
                        fee_msat: paid_fee(body.payment.deep_view()),
                        timestamp,
                    },
                ),
            ),
            Err(message) => Err(BtcPayErrorView::Json(message@)),
        }
    } else if event_type == "InvoiceExpired"@ || event_type == "InvoiceInvalid"@ {
        match p.expired {
            Ok(body) => Ok(
                NodeEventView::InvoiceExpired(
                    InvoiceExpiredEventView {
                        id: body.invoice_id@,
                        store_id: Some(body.store_id@),
                        amount_msat: None,
                        timestamp,
                    },
                ),
            ),
            Err(message) => Err(BtcPayErrorView::Json(message@)),
        }
    } else {
        Err(
            BtcPayErrorView::MalformedPayload(
                "unsupported or non-telemetry webhook event type: "@ + event_type,
            ),
        )
    }
}

/// The event that a webhook payload stands for, read at `now`.
pub open spec fn event_of(
    p: ReadPayload,
    now: Timestamp,
) -> Result<NodeEventView, BtcPayErrorView> {
    match p.envelope {
        Ok(envelope) => event_of_type(
            envelope.event_type@,
            p,
            btcpay_model::moment_or(envelope.timestamp, now),
        ),
        Err(message) => Err(BtcPayErrorView::MalformedPayload(message@)),
    }
}

/// The event that a webhook payload stands for. The present moment stands in
/// for a time that names none.
pub fn normalize_webhook_payload(payload: &ReadPayload) -> (r: Result<NodeEvent, BtcPayError>)
    ensures
        exists|now: Timestamp|
            crate::time::shown_by_clock(now) && outcome(r) == #[trigger] event_of(*payload, now),
{
    normalize_at(payload, current_time())
}

/// The event that a webhook payload stands for, read at `now`.
pub fn normalize_at(payload: &ReadPayload, now: Timestamp) -> (r: Result<NodeEvent, BtcPayError>)
    ensures
        outcome(r) == event_of(*payload, now),
{
    let envelope = match &payload.envelope {
        Ok(envelope) => envelope,
        Err(message) => {
            return Err(BtcPayError::MalformedPayload(message.clone()));
        },
    };
    let timestamp = envelope.timestamp_or(now);
    let event_type = envelope.event_type.as_str();
    if same_text(event_type, "InvoiceSettled") || same_text(event_type, "InvoiceProcessing") {
        match &payload.settled {
            Ok(body) => Ok(NodeEvent::InvoiceSettled(settled(body, timestamp))),
            Err(message) => Err(BtcPayError::Json(message.clone())),
        }
    } else if same_text(event_type, "InvoiceReceivedPayment") {
        match &payload.received {
            Ok(body) => Ok(
                NodeEvent::InvoicePaymentReceived(
                    InvoicePaymentReceivedEvent {
                        id: body.invoice_id.clone(),
                        store_id: Some(body.store_id.clone()),
                        payment_method: copy_optional_text(&body.payment_method),
                        amount_msat: amount_of(&body.payment),
                        fee_msat: fee_of(&body.payment),
                        timestamp,
                    },
                ),
            ),
            Err(message) => Err(BtcPayError::Json(message.clone())),
        }
    } else if same_text(event_type, "InvoiceExpired") || same_text(event_type, "InvoiceInvalid") {
        match &payload.expired {
            Ok(body) => Ok(
                NodeEvent::InvoiceExpired(
                    InvoiceExpiredEvent {
                        id: body.invoice_id.clone(),
                        store_id: Some(body.store_id.clone()),
                        amount_msat: None,
                        timestamp,
                    },
                ),
            ),
            Err(message) => Err(BtcPayError::Json(message.clone())),
        }
    } else {
        Err(
            BtcPayError::MalformedPayload(
                "unsupported or non-telemetry webhook event type: ".to_owned().concat(event_type),
            ),
        )
    }
}

/// The outcome of a webhook: refused where a secret is set and the header does
/// not vouch for the payload, otherwise the event that it stands for.
pub open spec fn accepted(
    secret: Option<Seq<char>>,
    payload_bytes: Seq<u8>,
    header: Seq<char>,
    payload: ReadPayload,
    now: Timestamp,
) -> Result<NodeEventView, BtcPayErrorView> {
    if secret is Some && !vouches(
        crate::identity::text_bytes(secret->0),
        payload_bytes,
        header,
    ) {
        Err(BtcPayErrorView::InvalidSignature)
    } else {
        event_of(payload, now)
    }
}

/// Takes in a webhook: checks its signature where a secret is set, and gives
/// the event that it stands for.
pub fn accept_webhook(
    secret: Option<&str>,
    payload_bytes: &[u8],
    sig_header: &str,
    payload: &ReadPayload,
    now: Timestamp,
) -> (r: Result<NodeEvent, BtcPayError>)
    ensures
        outcome(r) == accepted(secret.deep_view(), payload_bytes@, sig_header@, *payload, now),
{
    if let Some(s) = secret {
        proof {
            reveal(crate::identity::text_bytes);
        }
        if !verify_btcpay_sig(s.as_bytes(), payload_bytes, sig_header) {
            return Err(BtcPayError::InvalidSignature);
        }
    }
    normalize_at(payload, now)
}

proof fn lemma_hex_digit(d: nat)
    requires
        d < 16,
    ensures
        text::digit_value(text::hex_digit(d), 16) == Some(d),
        !text::white(text::hex_digit(d)),
        text::hex_digit(d) != 's',
{
}

proof fn lemma_hex_text(bytes: Seq<u8>)
    ensures
        text::hex_text(bytes).len() == 2 * bytes.len(),
        forall|i: int|
            0 <= i < bytes.len() ==> #[trigger] text::hex_text(bytes)[2 * i] == text::hex_digit(
                bytes[i] as nat / 16,
            ),
        forall|i: int|
            0 <= i < bytes.len() ==> #[trigger] text::hex_text(bytes)[2 * i + 1]
                == text::hex_digit(bytes[i] as nat % 16),
    decreases bytes.len(),
{
    if bytes.len() > 0 {
        let rest = bytes.drop_last();
        lemma_hex_text(rest);
        let s = text::hex_text(bytes);
        assert forall|i: int| 0 <= i < bytes.len() implies #[trigger] s[2 * i] == text::hex_digit(
            bytes[i] as nat / 16,
        ) by {
            if i < rest.len() {
                assert(text::hex_text(rest)[2 * i] == s[2 * i]);
            }
        }
        assert forall|i: int| 0 <= i < bytes.len() implies #[trigger] s[2 * i + 1]
            == text::hex_digit(bytes[i] as nat % 16) by {
            if i < rest.len() {
                assert(text::hex_text(rest)[2 * i + 1] == s[2 * i + 1]);
            }
        }
    }
}

proof fn lemma_hex_reads_back(bytes: Seq<u8>)
    ensures
        decoded_hex(text::hex_text(bytes)) == Some(bytes),
        forall|i: int|
            0 <= i < text::hex_text(bytes).len() ==> !text::white(#[trigger] text::hex_text(bytes)[i])
                && text::hex_text(bytes)[i] != 's',
{
    let s = text::hex_text(bytes);
    lemma_hex_text(bytes);
    assert forall|i: int| 0 <= i < s.len() implies text::digit_value(#[trigger] s[i], 16) is Some
        && !text::white(s[i]) && s[i] != 's' by {
        let k = i / 2;
        if i % 2 == 0 {
            assert(i == 2 * k);
            assert(s[2 * k] == text::hex_digit(bytes[k] as nat / 16));
            lemma_hex_digit(bytes[k] as nat / 16);
        } else {
            assert(i == 2 * k + 1);
            assert(s[2 * k + 1] == text::hex_digit(bytes[k] as nat % 16));
            lemma_hex_digit(bytes[k] as nat % 16);
        }
    }
    assert(text::all_digits(s, 16));
    let read = decoded_hex(s).unwrap();
    assert(s.len() % 2 == 0);
    assert forall|i: int| 0 <= i < bytes.len() implies read[i] == #[trigger] bytes[i] by {
        assert(s[2 * i] == text::hex_digit(bytes[i] as nat / 16));
        assert(s[2 * i + 1] == text::hex_digit(bytes[i] as nat % 16));
        lemma_hex_digit(bytes[i] as nat / 16);
        lemma_hex_digit(bytes[i] as nat % 16);
    }
    assert(read =~= bytes);
}

proof fn lemma_nothing_to_trim(s: Seq<char>)
    requires
        s.len() > 0 ==> !text::white(s[0]) && !text::white(s.last()),
    ensures
        text::trimmed(s) == s,
{
}

/// The header that carries the code of a payload in hexadecimal, with or without
/// `sha256=` before it, claims just that code.
pub proof fn lemma_written_code_is_claimed(code: Seq<u8>)
    requires
        code.len() == 32,
    ensures
        claimed_code("sha256="@ + text::hex_text(code)) == Some(code),
        claimed_code(text::hex_text(code)) == Some(code),
{
    reveal_strlit("sha256=");
    let digits = text::hex_text(code);
    let header = "sha256="@ + digits;
    lemma_hex_text(code);
    lemma_hex_reads_back(code);
    assert(digits.len() == 64);
    assert(!text::white(digits[0]));
    assert(!text::white(digits[63]));
    lemma_nothing_to_trim(digits);
    assert(header[0] == 's');
    assert(header.last() == digits[63]);
    lemma_nothing_to_trim(header);
    assert(header.take(7) =~= "sha256="@);
    assert(header.skip(7) =~= digits);
    assert(digits.take(7)[0] == digits[0]);
    assert(!text::begins_with(digits, "sha256="@));
}

/// A webhook whose header does not vouch for it is refused, whatever it says.
pub proof fn lemma_unsigned_webhooks_are_refused(
    secret: Seq<char>,
    payload_bytes: Seq<u8>,
    header: Seq<char>,
    payload: ReadPayload,
    now: Timestamp,
)
    ensures
        claimed_code(header) is None ==> accepted(
            Some(secret),
            payload_bytes,
            header,
            payload,
            now,
        ) == Err::<NodeEventView, BtcPayErrorView>(BtcPayErrorView::InvalidSignature),
        accepted(Some(secret), payload_bytes, header, payload, now) is Ok ==> claimed_code(header)
            == Some(hmac_sha256_of(crate::identity::text_bytes(secret), payload_bytes)),
{
}

/// A webhook is taken exactly if no secret was agreed on, or if the secret is not
/// empty and the header holds, in hexadecimal, the code of the payload under it.
/// What is taken is read whatever the header says.
pub proof fn lemma_only_the_right_code_is_taken(
    secret: Option<Seq<char>>,
    payload_bytes: Seq<u8>,
    header: Seq<char>,
    payload: ReadPayload,
    now: Timestamp,
)
    ensures
        ({
            let taken = secret is None || (crate::identity::text_bytes(secret->0).len() > 0
                && claimed_code(header) == Some(
                hmac_sha256_of(crate::identity::text_bytes(secret->0), payload_bytes),
            ));
            let r = accepted(secret, payload_bytes, header, payload, now);
            &&& !taken ==> r == Err::<NodeEventView, BtcPayErrorView>(
                BtcPayErrorView::InvalidSignature,
            )
            &&& taken ==> r == event_of(payload, now)
        }),
{
}

/// A claimed code is 32 bytes, each written as two hexadecimal digits in either
/// case, the higher one first.
pub proof fn lemma_claimed_codes_are_hexadecimal(header: Seq<char>)
    ensures
        claimed_code(header) is Some <==> code_text(header).len() == 64 && text::all_digits(
            code_text(header),
            16,
        ),
        claimed_code(header) is Some ==> {
            let code = claimed_code(header)->0;
            let s = code_text(header);
            &&& code.len() == 32
            &&& forall|i: int|
                0 <= i < 32 ==> #[trigger] code[i] == 16 * text::digit_value(s[2 * i], 16)->0
                    + text::digit_value(s[2 * i + 1], 16)->0
        },
{
    let s = code_text(header);
    if claimed_code(header) is Some {
        let code = claimed_code(header)->0;
        assert forall|i: int| 0 <= i < 32 implies #[trigger] code[i] == 16 * text::digit_value(
            s[2 * i],
            16,
        )->0 + text::digit_value(s[2 * i + 1], 16)->0 by {
            assert(text::digit_value(s[2 * i], 16) is Some);
            assert(text::digit_value(s[2 * i + 1], 16) is Some);
        }
    }
}

/// What a payment says in whole numbers is its amount and its fee, each from its
/// own place; a payment that is not there pays nothing.
pub proof fn lemma_payments_say_amount_and_fee(p: InvoicePaymentDataView, amount: u64, fee: u64)
    requires
        p.value == Some(text::decimal(amount as nat)),
        p.fee == Some(text::decimal(fee as nat)),
    ensures
        paid_amount(Some(p)) == amount,
        paid_fee(Some(p)) == fee,
        paid_amount(None) == 0,
        paid_fee(None) == 0,
{
    text::lemma_decimal_reads_back(amount as nat);
    text::lemma_decimal_has_digits_only(amount as nat);
    assert(text::digit_value(text::decimal(amount as nat)[0], 10) is Some);
    text::lemma_decimal_reads_back(fee as nat);
    text::lemma_decimal_has_digits_only(fee as nat);
    assert(text::digit_value(text::decimal(fee as nat)[0], 10) is Some);
}

/// A settled invoice is told under its own number and store, with what its
/// payment says. The method's name goes before the method's number.
pub proof fn lemma_settled_invoices_keep_what_the_server_says(
    p: btcpay_model::InvoiceSettledPayloadView,
    timestamp: Timestamp,
)
    ensures
        ({
            let e = settled_event(p, timestamp);
            &&& e.id == p.invoice_id
            &&& e.store_id == Some(p.store_id)
            &&& e.timestamp == timestamp
            &&& p.payment_method is Some ==> e.payment_method == p.payment_method
            &&& p.payment_method is None ==> e.payment_method == p.payment_method_id
            &&& p.payment is Some ==> e.payment_hash == p.payment->0.payment_hash
            &&& p.payment is None ==> e.payment_hash is None && e.amount_msat == 0 && e.fee_msat
                == 0
            &&& e.amount_msat == paid_amount(p.payment)
            &&& e.fee_msat == paid_fee(p.payment)
            &&& p.metadata is None ==> e.metadata.len() == 0
            &&& p.metadata is Some && p.metadata->0 is Object ==> {
                let members = p.metadata->0->Object_0;
                &&& e.metadata.len() == members.len()
                &&& forall|i: int|
                    0 <= i < members.len() ==> #[trigger] e.metadata[i].key == members[i].key && (
                    members[i].value is Text ==> e.metadata[i].value == members[i].value->Text_0)
            }
        }),
{
}

proof fn lemma_event_types_differ()
    ensures
        "InvoiceSettled"@ != "InvoiceReceivedPayment"@,
        "InvoiceSettled"@ != "InvoiceExpired"@,
        "InvoiceSettled"@ != "InvoiceInvalid"@,
        "InvoiceProcessing"@ != "InvoiceReceivedPayment"@,
        "InvoiceProcessing"@ != "InvoiceExpired"@,
        "InvoiceProcessing"@ != "InvoiceInvalid"@,
        "InvoiceReceivedPayment"@ != "InvoiceExpired"@,
        "InvoiceReceivedPayment"@ != "InvoiceInvalid"@,
{
    reveal_strlit("InvoiceSettled");
    reveal_strlit("InvoiceProcessing");
    reveal_strlit("InvoiceReceivedPayment");
    reveal_strlit("InvoiceExpired");
    reveal_strlit("InvoiceInvalid");
    assert("InvoiceSettled"@[7] == 'S');
    assert("InvoiceProcessing"@[7] == 'P');
    assert("InvoiceReceivedPayment"@[7] == 'R');
    assert("InvoiceExpired"@[7] == 'E');
    assert("InvoiceInvalid"@[7] == 'I');
}

/// Which event a webhook tells of goes by its type alone: settled and processing
/// invoices are settled, expired and invalid ones expired, received payments are
/// payments received, and nothing else is an event. The event is that of the
/// body read for its type, at the moment of the webhook.
pub proof fn lemma_events_go_by_their_type(
    event_type: Seq<char>,
    p: ReadPayload,
    timestamp: Timestamp,
)
    ensures
        ({
            let r = event_of_type(event_type, p, timestamp);
            let settled = event_type == "InvoiceSettled"@ || event_type == "InvoiceProcessing"@;
            let received = event_type == "InvoiceReceivedPayment"@;
            let expired = event_type == "InvoiceExpired"@ || event_type == "InvoiceInvalid"@;
            &&& settled && p.settled is Ok ==> r == Ok::<NodeEventView, BtcPayErrorView>(
                NodeEventView::InvoiceSettled(
                    settled_event(p.settled->Ok_0.deep_view(), timestamp),
                ),
            )
            &&& received && p.received is Ok ==> {
                &&& r is Ok
                &&& r->Ok_0 is InvoicePaymentReceived
                &&& {
                    let body = p.received->Ok_0;
                    let e = r->Ok_0->InvoicePaymentReceived_0;
                    &&& e.id == body.invoice_id@
                    &&& e.store_id == Some(body.store_id@)
                    &&& e.payment_method == body.payment_method.deep_view()
                    &&& e.amount_msat == paid_amount(body.payment.deep_view())
                    &&& e.fee_msat == paid_fee(body.payment.deep_view())
                    &&& e.timestamp == timestamp
                }
            }
            &&& expired && p.expired is Ok ==> {
                &&& r is Ok
                &&& r->Ok_0 is InvoiceExpired
                &&& {
                    let body = p.expired->Ok_0;
                    let e = r->Ok_0->InvoiceExpired_0;
                    &&& e.id == body.invoice_id@
                    &&& e.store_id == Some(body.store_id@)
                    &&& e.amount_msat is None
                    &&& e.timestamp == timestamp
                }
            }
            &&& r is Ok ==> settled || received || expired
            &&& r is Err && r->Err_0 is MalformedPayload <==> !settled && !received && !expired
        }),
{
    lemma_event_types_differ();
}

/// A webhook's event bears the second that its envelope names, and a payload
/// without an envelope is malformed.
pub proof fn lemma_events_bear_the_moment_of_the_envelope(p: ReadPayload, now: Timestamp)
    ensures
        p.envelope is Err ==> event_of(p, now) == Err::<NodeEventView, BtcPayErrorView>(
            BtcPayErrorView::MalformedPayload(p.envelope->Err_0@),
        ),
        p.envelope is Ok ==> event_of(p, now) == event_of_type(
            p.envelope->Ok_0.event_type@,
            p,
            btcpay_model::moment_or(p.envelope->Ok_0.timestamp, now),
        ),
{
}

/// A failure to prove who one is is told from a failure to connect, and both from
/// an answer that cannot be read.
pub proof fn lemma_failures_are_told_apart(e: BtcPayErrorView)
    ensures
        as_ingestion_error(e) is Authentication <==> {
            ||| e is InvalidSignature
            ||| e is MissingSignatureHeader
            ||| e is Api && (e->Api_status == 401 || e->Api_status == 403)
        },
        as_ingestion_error(e) is Connection <==> e is Http || (e is Api && e->Api_status != 401
            && e->Api_status != 403),
        as_ingestion_error(e) is Normalization <==> e is Json || e is MalformedPayload,
        as_ingestion_error(e) is Closed <==> e is ChannelClosed,
        as_ingestion_error(e) is Other <==> e is Config,
{
}

} // verus!
