//! What a BTCPay server says over its Greenfield interface.
use crate::json::{Json, JsonView, Member, MemberView, Params, ParamsView};
use crate::text;
use crate::text::copy_optional_text;
use crate::time::{current_time, moment, Timestamp, MAX_SECOND, MIN_SECOND};
use vstd::prelude::*;

verus! {

/// What every Greenfield webhook begins with.
#[derive(Debug, PartialEq, Eq)]
pub struct BtcPayWebhookEvent {
    pub delivery_id: String,
    pub webhook_id: String,
    pub original_delivery_id: Option<String>,
    pub is_redelivery: bool,
    pub event_type: String,
    pub timestamp: i64,
    pub store_id: String,
    pub invoice_id: Option<String>,
    /// What else the webhook says, in the order of the keys.
    pub extra: Vec<Member>,
}

/// The mathematical value of a [`BtcPayWebhookEvent`].
pub struct BtcPayWebhookEventView {
    pub delivery_id: Seq<char>,
    pub webhook_id: Seq<char>,
    pub original_delivery_id: Option<Seq<char>>,
    pub is_redelivery: bool,
    pub event_type: Seq<char>,
    pub timestamp: i64,
    pub store_id: Seq<char>,
    pub invoice_id: Option<Seq<char>>,
    pub extra: Seq<MemberView>,
}

impl DeepView for BtcPayWebhookEvent {
    type V = BtcPayWebhookEventView;

    open spec fn deep_view(&self) -> BtcPayWebhookEventView {
        BtcPayWebhookEventView {
            delivery_id: self.delivery_id.deep_view(),
            webhook_id: self.webhook_id.deep_view(),
            original_delivery_id: self.original_delivery_id.deep_view(),
            is_redelivery: self.is_redelivery,
            event_type: self.event_type.deep_view(),
            timestamp: self.timestamp,
            store_id: self.store_id.deep_view(),
            invoice_id: self.invoice_id.deep_view(),
            extra: self.extra.deep_view(),
        }
    }
}

impl Clone for BtcPayWebhookEvent {
    fn clone(&self) -> (r: Self)
        ensures
            r.deep_view() == self.deep_view(),
    {
        let extra = self.extra.clone();
        assert(extra.deep_view() =~= self.extra.deep_view());
        BtcPayWebhookEvent {
            delivery_id: self.delivery_id.clone(),
            webhook_id: self.webhook_id.clone(),
            original_delivery_id: copy_optional_text(&self.original_delivery_id),
            is_redelivery: self.is_redelivery,
            event_type: self.event_type.clone(),
            timestamp: self.timestamp,
            store_id: self.store_id.clone(),
            invoice_id: copy_optional_text(&self.invoice_id),
            extra,
        }
    }
}

/// The moment `secs` seconds after the Unix epoch, or `now` where no calendar
/// date can be given for it.
pub open spec fn moment_or(secs: i64, now: Timestamp) -> Timestamp {
    if MIN_SECOND <= secs <= MAX_SECOND {
        Timestamp { secs, nanos: 0 }
    } else {
        now
    }
}

impl BtcPayWebhookEvent {
    /// When the event happened; the present moment where its seconds name none.
    pub fn timestamp_utc(&self) -> (r: Timestamp)
        ensures
            exists|now: Timestamp|
                crate::time::shown_by_clock(now) && r == #[trigger] moment_or(self.timestamp, now),
    {
        let now = current_time();
        assert(crate::time::shown_by_clock(now));
        self.timestamp_or(now)
    }

    /// When the event happened; `now` where its seconds name no moment.
    pub fn timestamp_or(&self, now: Timestamp) -> (r: Timestamp)
        ensures
            r == moment_or(self.timestamp, now),
    {
        match moment(self.timestamp, 0) {
            Some(t) => t,
            None => now,
        }
    }
}

/// What a webhook says of a payment.
#[derive(Debug, PartialEq, Eq)]
pub struct InvoicePaymentData {
    pub value: Option<String>,
    /// The millisatoshis that `value` names as a decimal amount of bitcoin, where it
    /// is one.
    pub decimal_value_msat: Option<u64>,
    pub fee: Option<String>,
    /// The millisatoshis that `fee` names as a decimal amount of bitcoin, where it
    /// is one.
    pub decimal_fee_msat: Option<u64>,
    pub status: Option<String>,
    pub destination: Option<String>,
    pub payment_hash: Option<String>,
}

/// The mathematical value of a [`InvoicePaymentData`].
pub struct InvoicePaymentDataView {
    pub value: Option<Seq<char>>,
    pub decimal_value_msat: Option<u64>,
    pub fee: Option<Seq<char>>,
    pub decimal_fee_msat: Option<u64>,
    pub status: Option<Seq<char>>,
    pub destination: Option<Seq<char>>,
    pub payment_hash: Option<Seq<char>>,
}

impl DeepView for InvoicePaymentData {
    type V = InvoicePaymentDataView;

    open spec fn deep_view(&self) -> InvoicePaymentDataView {
        InvoicePaymentDataView {
            value: self.value.deep_view(),
            decimal_value_msat: self.decimal_value_msat,
            fee: self.fee.deep_view(),
            decimal_fee_msat: self.decimal_fee_msat,
            status: self.status.deep_view(),
            destination: self.destination.deep_view(),
            payment_hash: self.payment_hash.deep_view(),
        }
    }
}

impl Clone for InvoicePaymentData {
    fn clone(&self) -> (r: Self)
        ensures
            r.deep_view() == self.deep_view(),
    {
        InvoicePaymentData {
            value: copy_optional_text(&self.value),
            decimal_value_msat: self.decimal_value_msat,
            fee: copy_optional_text(&self.fee),
            decimal_fee_msat: self.decimal_fee_msat,
            status: copy_optional_text(&self.status),
            destination: copy_optional_text(&self.destination),
            payment_hash: copy_optional_text(&self.payment_hash),
        }
    }
}

/// The payload of `InvoiceSettled` and `InvoiceProcessing`.
#[derive(Debug, PartialEq, Eq)]
pub struct InvoiceSettledPayload {
    pub delivery_id: String,
    pub webhook_id: String,
    pub store_id: String,
    pub invoice_id: String,
    pub timestamp: i64,
    pub payment_method: Option<String>,
    pub payment_method_id: Option<String>,
    pub metadata: Option<Params>,
    pub payment: Option<InvoicePaymentData>,
}

/// The mathematical value of a [`InvoiceSettledPayload`].
pub struct InvoiceSettledPayloadView {
    pub delivery_id: Seq<char>,
    pub webhook_id: Seq<char>,
    pub store_id: Seq<char>,
    pub invoice_id: Seq<char>,
    pub timestamp: i64,
    pub payment_method: Option<Seq<char>>,
    pub payment_method_id: Option<Seq<char>>,
    pub metadata: Option<ParamsView>,
    pub payment: Option<InvoicePaymentDataView>,
}

impl DeepView for InvoiceSettledPayload {
    type V = InvoiceSettledPayloadView;

    open spec fn deep_view(&self) -> InvoiceSettledPayloadView {
        InvoiceSettledPayloadView {
            delivery_id: self.delivery_id.deep_view(),
            webhook_id: self.webhook_id.deep_view(),
            store_id: self.store_id.deep_view(),
            invoice_id: self.invoice_id.deep_view(),
            timestamp: self.timestamp,
            payment_method: self.payment_method.deep_view(),
            payment_method_id: self.payment_method_id.deep_view(),
            metadata: self.metadata.deep_view(),
            payment: self.payment.deep_view(),
        }
    }
}

impl Clone for InvoiceSettledPayload {
    fn clone(&self) -> (r: Self)
        ensures
            r.deep_view() == self.deep_view(),
    {
        InvoiceSettledPayload {
            delivery_id: self.delivery_id.clone(),
            webhook_id: self.webhook_id.clone(),
            store_id: self.store_id.clone(),
            invoice_id: self.invoice_id.clone(),
            timestamp: self.timestamp,
            payment_method: copy_optional_text(&self.payment_method),
            payment_method_id: copy_optional_text(&self.payment_method_id),
            metadata: self.metadata.clone(),
            payment: self.payment.clone(),
        }
    }
}

/// The payload of `InvoiceReceivedPayment`.
#[derive(Debug, PartialEq, Eq)]
pub struct InvoicePaymentReceivedPayload {
    pub delivery_id: String,
    pub webhook_id: String,
    pub store_id: String,
    pub invoice_id: String,
    pub timestamp: i64,
    pub payment_method: Option<String>,
    pub payment: Option<InvoicePaymentData>,
}

/// The mathematical value of a [`InvoicePaymentReceivedPayload`].
pub struct InvoicePaymentReceivedPayloadView {
    pub delivery_id: Seq<char>,
    pub webhook_id: Seq<char>,
    pub store_id: Seq<char>,
    pub invoice_id: Seq<char>,
    pub timestamp: i64,
    pub payment_method: Option<Seq<char>>,
    pub payment: Option<InvoicePaymentDataView>,
}

impl DeepView for InvoicePaymentReceivedPayload {
    type V = InvoicePaymentReceivedPayloadView;

    open spec fn deep_view(&self) -> InvoicePaymentReceivedPayloadView {
        InvoicePaymentReceivedPayloadView {
            delivery_id: self.delivery_id.deep_view(),
            webhook_id: self.webhook_id.deep_view(),
            store_id: self.store_id.deep_view(),
            invoice_id: self.invoice_id.deep_view(),
            timestamp: self.timestamp,
            payment_method: self.payment_method.deep_view(),
            payment: self.payment.deep_view(),
        }
    }
}

impl Clone for InvoicePaymentReceivedPayload {
    fn clone(&self) -> (r: Self)
        ensures
            r.deep_view() == self.deep_view(),
    {
        InvoicePaymentReceivedPayload {
            delivery_id: self.delivery_id.clone(),
            webhook_id: self.webhook_id.clone(),
            store_id: self.store_id.clone(),
            invoice_id: self.invoice_id.clone(),
            timestamp: self.timestamp,
            payment_method: copy_optional_text(&self.payment_method),
            payment: self.payment.clone(),
        }
    }
}

/// The payload of `InvoiceExpired` and `InvoiceInvalid`.
#[derive(Debug, PartialEq, Eq)]
pub struct InvoiceExpiredPayload {
    pub delivery_id: String,
    pub webhook_id: String,
    pub store_id: String,
    pub invoice_id: String,
    pub timestamp: i64,
}

/// The mathematical value of a [`InvoiceExpiredPayload`].
pub struct InvoiceExpiredPayloadView {
    pub delivery_id: Seq<char>,
    pub webhook_id: Seq<char>,
    pub store_id: Seq<char>,
    pub invoice_id: Seq<char>,
    pub timestamp: i64,
}

impl DeepView for InvoiceExpiredPayload {
    type V = InvoiceExpiredPayloadView;

    open spec fn deep_view(&self) -> InvoiceExpiredPayloadView {
        InvoiceExpiredPayloadView {
            delivery_id: self.delivery_id.deep_view(),
            webhook_id: self.webhook_id.deep_view(),
            store_id: self.store_id.deep_view(),
            invoice_id: self.invoice_id.deep_view(),
            timestamp: self.timestamp,
        }
    }
}

impl Clone for InvoiceExpiredPayload {
    fn clone(&self) -> (r: Self)
        ensures
            r.deep_view() == self.deep_view(),
    {
        InvoiceExpiredPayload {
            delivery_id: self.delivery_id.clone(),
            webhook_id: self.webhook_id.clone(),
            store_id: self.store_id.clone(),
            invoice_id: self.invoice_id.clone(),
            timestamp: self.timestamp,
        }
    }
}

/// The answer of `/api/v1/server/info`.
#[derive(Debug, PartialEq, Eq)]
pub struct GreenfieldServerInfo {
    pub version: String,
    pub supported_payment_methods: Vec<String>,
    pub fully_synced: Option<bool>,
}

/// The mathematical value of a [`GreenfieldServerInfo`].
pub struct GreenfieldServerInfoView {
    pub version: Seq<char>,
    pub supported_payment_methods: Seq<Seq<char>>,
    pub fully_synced: Option<bool>,
}

impl DeepView for GreenfieldServerInfo {
    type V = GreenfieldServerInfoView;

    open spec fn deep_view(&self) -> GreenfieldServerInfoView {
        GreenfieldServerInfoView {
            version: self.version.deep_view(),
            supported_payment_methods: self.supported_payment_methods.deep_view(),
            fully_synced: self.fully_synced,
        }
    }
}

impl Clone for GreenfieldServerInfo {
    fn clone(&self) -> (r: Self)
        ensures
            r.deep_view() == self.deep_view(),
    {
        let supported_payment_methods = self.supported_payment_methods.clone();
        assert(supported_payment_methods.deep_view() =~= self.supported_payment_methods.deep_view());
        GreenfieldServerInfo {
            version: self.version.clone(),
            supported_payment_methods,
            fully_synced: self.fully_synced,
        }
    }
}

/// What a store says of its Lightning node.
#[derive(Debug, PartialEq, Eq)]
pub struct GreenfieldLightningInfo {
    pub node_uris: Vec<String>,
    pub block_height: Option<u32>,
    pub alias: Option<String>,
    pub color: Option<String>,
    pub version: Option<String>,
    pub active_channels_count: Option<u32>,
    pub inactive_channels_count: Option<u32>,
    pub pending_channels_count: Option<u32>,
}

/// The mathematical value of a [`GreenfieldLightningInfo`].
pub struct GreenfieldLightningInfoView {
    pub node_uris: Seq<Seq<char>>,
    pub block_height: Option<u32>,
    pub alias: Option<Seq<char>>,
    pub color: Option<Seq<char>>,
    pub version: Option<Seq<char>>,
    pub active_channels_count: Option<u32>,
    pub inactive_channels_count: Option<u32>,
    pub pending_channels_count: Option<u32>,
}

impl DeepView for GreenfieldLightningInfo {
    type V = GreenfieldLightningInfoView;

    open spec fn deep_view(&self) -> GreenfieldLightningInfoView {
        GreenfieldLightningInfoView {
            node_uris: self.node_uris.deep_view(),
            block_height: self.block_height,
            alias: self.alias.deep_view(),
            color: self.color.deep_view(),
            version: self.version.deep_view(),
            active_channels_count: self.active_channels_count,
            inactive_channels_count: self.inactive_channels_count,
            pending_channels_count: self.pending_channels_count,
        }
    }
}

impl Clone for GreenfieldLightningInfo {
    fn clone(&self) -> (r: Self)
        ensures
            r.deep_view() == self.deep_view(),
    {
        let node_uris = self.node_uris.clone();
        assert(node_uris.deep_view() =~= self.node_uris.deep_view());
        GreenfieldLightningInfo {
            node_uris,
            block_height: self.block_height,
            alias: copy_optional_text(&self.alias),
            color: copy_optional_text(&self.color),
            version: copy_optional_text(&self.version),
            active_channels_count: self.active_channels_count,
            inactive_channels_count: self.inactive_channels_count,
            pending_channels_count: self.pending_channels_count,
        }
    }
}

/// What stands before the first `@` of the first node address.
pub open spec fn first_node_id(node_uris: Seq<Seq<char>>) -> Option<Seq<char>> {
    if node_uris.len() == 0 {
        None
    } else {
        let key = text::split_on(node_uris[0], '@')[0];
        if key.len() == 0 {
            None
        } else {
            Some(key)
        }
    }
}

impl GreenfieldLightningInfo {
    /// The node's public key: what stands before the `@` of its first address.
    pub fn node_id(&self) -> (r: Option<String>)
        ensures
            r.deep_view() == first_node_id(self.deep_view().node_uris),
    {
        if self.node_uris.len() == 0 {
            return None;
        }
        assert(self.node_uris.deep_view()[0] == self.node_uris[0]@);
        let key = text::text_before(self.node_uris[0].as_str(), '@');
        if text::same_text(key.as_str(), "") {
            proof {
                reveal_strlit("");
            }
            None
        } else {
            proof {
                reveal_strlit("");
                if key@.len() == 0 {
                    assert(key@ =~= ""@);
                }
            }
            Some(key)
        }
    }
}

/// An amount as the server writes it, together with what its text names as a
/// decimal amount of bitcoin, where it is one.
#[derive(Debug, PartialEq, Eq)]
pub struct WireAmount {
    pub value: Json,
    pub decimal_sat: Option<u64>,
    pub decimal_msat: Option<u64>,
}

/// The mathematical value of a [`WireAmount`].
pub struct WireAmountView {
    pub value: JsonView,
    pub decimal_sat: Option<u64>,
    pub decimal_msat: Option<u64>,
}

impl DeepView for WireAmount {
    type V = WireAmountView;

    open spec fn deep_view(&self) -> WireAmountView {
        WireAmountView {
            value: self.value.deep_view(),
            decimal_sat: self.decimal_sat,
            decimal_msat: self.decimal_msat,
        }
    }
}

impl Clone for WireAmount {
    fn clone(&self) -> (r: Self)
        ensures
            r.deep_view() == self.deep_view(),
    {
        WireAmount {
            value: self.value.clone(),
            decimal_sat: self.decimal_sat,
            decimal_msat: self.decimal_msat,
        }
    }
}

/// The amount that a text names: a whole number, or else a decimal amount of
/// bitcoin, which is `decimal`.
pub open spec fn named_amount(s: Seq<char>, decimal: Option<u64>) -> Option<u64> {
    match text::parsed_u64(s, 10) {
        Some(n) => Some(n as u64),
        None => decimal,
    }
}

/// The amount that a text names: a whole number of millisatoshis, or else a
/// decimal amount of bitcoin, which is `decimal_msat`.
pub fn parse_msats(s: &str, decimal_msat: Option<u64>) -> (r: Option<u64>)
    ensures
        r == named_amount(s@, decimal_msat),
{
    match text::parse_u64(s, 10) {
        Some(n) => Some(n),
        None => decimal_msat,
    }
}

/// The millisatoshis that an optional amount stands for; zero where it is none.
pub open spec fn balance_msat(amount: Option<WireAmountView>) -> u64 {
    match amount {
        Some(a) => match a.value {
            JsonView::Unsigned(n) => n,
            JsonView::Text(s) => match named_amount(s, a.decimal_msat) {
                Some(n) => n,
                None => 0,
            },
            _ => 0,
        },
        None => 0,
    }
}

/// The millisatoshis that an optional amount stands for; zero where it is none.
pub fn parse_balance_msat(amount: &Option<WireAmount>) -> (r: u64)
    ensures
        r == balance_msat(amount.deep_view()),
{
    match amount {
        Some(a) => match &a.value {
            Json::Unsigned(n) => *n,
            Json::Text(s) => match parse_msats(s.as_str(), a.decimal_msat) {
                Some(n) => n,
                None => 0,
            },
            _ => 0,
        },
        None => 0,
    }
}

/// What a store says of its Lightning balance.
#[derive(Debug, PartialEq, Eq)]
pub struct GreenfieldLightningBalance {
    pub total: Option<WireAmount>,
    pub local: Option<WireAmount>,
    pub remote: Option<WireAmount>,
    pub unsettled: Option<WireAmount>,
}

/// The mathematical value of a [`GreenfieldLightningBalance`].
pub struct GreenfieldLightningBalanceView {
    pub total: Option<WireAmountView>,
    pub local: Option<WireAmountView>,
    pub remote: Option<WireAmountView>,
    pub unsettled: Option<WireAmountView>,
}

impl DeepView for GreenfieldLightningBalance {
    type V = GreenfieldLightningBalanceView;

    open spec fn deep_view(&self) -> GreenfieldLightningBalanceView {
        GreenfieldLightningBalanceView {
            total: self.total.deep_view(),
            local: self.local.deep_view(),
            remote: self.remote.deep_view(),
            unsettled: self.unsettled.deep_view(),
        }
    }
}

impl Clone for GreenfieldLightningBalance {
    fn clone(&self) -> (r: Self)
        ensures
            r.deep_view() == self.deep_view(),
    {
        GreenfieldLightningBalance {
            total: self.total.clone(),
            local: self.local.clone(),
            remote: self.remote.clone(),
            unsettled: self.unsettled.clone(),
        }
    }
}

impl GreenfieldLightningBalance {
    /// The local balance in millisatoshis.
    pub fn local_msat(&self) -> (r: u64)
        ensures
            r == balance_msat(self.deep_view().local),
    {
        parse_balance_msat(&self.local)
    }

    /// The remote balance in millisatoshis.
    pub fn remote_msat(&self) -> (r: u64)
        ensures
            r == balance_msat(self.deep_view().remote),
    {
        parse_balance_msat(&self.remote)
    }

    /// The whole balance in millisatoshis.
    pub fn total_msat(&self) -> (r: u64)
        ensures
            r == balance_msat(self.deep_view().total),
    {
        parse_balance_msat(&self.total)
    }
}

/// What a store says of one of its channels.
#[derive(Debug, PartialEq, Eq)]
pub struct GreenfieldLightningChannel {
    pub channel_point: Option<String>,
    pub remote_balance: Option<WireAmount>,
    pub local_balance: Option<WireAmount>,
    pub capacity: Option<WireAmount>,
    pub is_active: bool,
    pub is_public: Option<bool>,
}

/// The mathematical value of a [`GreenfieldLightningChannel`].
pub struct GreenfieldLightningChannelView {
    pub channel_point: Option<Seq<char>>,
    pub remote_balance: Option<WireAmountView>,
    pub local_balance: Option<WireAmountView>,
    pub capacity: Option<WireAmountView>,
    pub is_active: bool,
    pub is_public: Option<bool>,
}

impl DeepView for GreenfieldLightningChannel {
    type V = GreenfieldLightningChannelView;

    open spec fn deep_view(&self) -> GreenfieldLightningChannelView {
        GreenfieldLightningChannelView {
            channel_point: self.channel_point.deep_view(),
            remote_balance: self.remote_balance.deep_view(),
            local_balance: self.local_balance.deep_view(),
            capacity: self.capacity.deep_view(),
            is_active: self.is_active,
            is_public: self.is_public,
        }
    }
}

impl Clone for GreenfieldLightningChannel {
    fn clone(&self) -> (r: Self)
        ensures
            r.deep_view() == self.deep_view(),
    {
        GreenfieldLightningChannel {
            channel_point: copy_optional_text(&self.channel_point),
            remote_balance: self.remote_balance.clone(),
            local_balance: self.local_balance.clone(),
            capacity: self.capacity.clone(),
            is_active: self.is_active,
            is_public: self.is_public,
        }
    }
}

impl GreenfieldLightningChannel {
    /// The local balance in millisatoshis.
    pub fn local_balance_msat(&self) -> (r: u64)
        ensures
            r == balance_msat(self.deep_view().local_balance),
    {
        parse_balance_msat(&self.local_balance)
    }

    /// The remote balance in millisatoshis.
    pub fn remote_balance_msat(&self) -> (r: u64)
        ensures
            r == balance_msat(self.deep_view().remote_balance),
    {
        parse_balance_msat(&self.remote_balance)
    }

    /// The capacity in millisatoshis.
    pub fn capacity_msat(&self) -> (r: u64)
        ensures
            r == balance_msat(self.deep_view().capacity),
    {
        parse_balance_msat(&self.capacity)
    }
}

/// What a store says of its wallet.
#[derive(Debug, PartialEq, Eq)]
pub struct GreenfieldOnChainWallet {
    pub balance: Option<WireAmount>,
    pub unconfirmed_balance: Option<WireAmount>,
    pub confirmed_balance: Option<WireAmount>,
}

/// The mathematical value of a [`GreenfieldOnChainWallet`].
pub struct GreenfieldOnChainWalletView {
    pub balance: Option<WireAmountView>,
    pub unconfirmed_balance: Option<WireAmountView>,
    pub confirmed_balance: Option<WireAmountView>,
}

impl DeepView for GreenfieldOnChainWallet {
    type V = GreenfieldOnChainWalletView;

    open spec fn deep_view(&self) -> GreenfieldOnChainWalletView {
        GreenfieldOnChainWalletView {
            balance: self.balance.deep_view(),
            unconfirmed_balance: self.unconfirmed_balance.deep_view(),
            confirmed_balance: self.confirmed_balance.deep_view(),
        }
    }
}

impl Clone for GreenfieldOnChainWallet {
    fn clone(&self) -> (r: Self)
        ensures
            r.deep_view() == self.deep_view(),
    {
        GreenfieldOnChainWallet {
            balance: self.balance.clone(),
            unconfirmed_balance: self.unconfirmed_balance.clone(),
            confirmed_balance: self.confirmed_balance.clone(),
        }
    }
}

/// The confirmed satoshis of a wallet: its confirmed balance, or else its
/// balance.
pub open spec fn confirmed(wallet: GreenfieldOnChainWalletView) -> Option<u64> {
    let amount = if wallet.confirmed_balance is Some {
        wallet.confirmed_balance
    } else {
        wallet.balance
    };
    match amount {
        Some(a) => match a.value {
            JsonView::Unsigned(n) => Some(n),
            JsonView::Text(s) => named_amount(s, a.decimal_sat),
            _ => None,
        },
        None => None,
    }
}

impl GreenfieldOnChainWallet {
    /// The confirmed satoshis: the confirmed balance, or else the balance.
    pub fn confirmed_sats(&self) -> (r: Option<u64>)
        ensures
            r == confirmed(self.deep_view()),
    {
        let amount = if self.confirmed_balance.is_some() {
            &self.confirmed_balance
        } else {
            &self.balance
        };
        match amount {
            Some(a) => match &a.value {
                Json::Unsigned(n) => Some(*n),
                Json::Text(s) => parse_msats(s.as_str(), a.decimal_sat),
                _ => None,
            },
            None => None,
        }
    }
}

/// What a store says of an invoice.
#[derive(Debug, PartialEq, Eq)]
pub struct GreenfieldInvoice {
    pub id: String,
    pub store_id: String,
    pub amount: String,
    pub currency: String,
    pub invoice_type: Option<String>,
    pub status: String,
    pub additional_status: Option<String>,
    pub created_time: i64,
    pub expiration_time: Option<i64>,
}

/// The mathematical value of a [`GreenfieldInvoice`].
pub struct GreenfieldInvoiceView {
    pub id: Seq<char>,
    pub store_id: Seq<char>,
    pub amount: Seq<char>,
    pub currency: Seq<char>,
    pub invoice_type: Option<Seq<char>>,
    pub status: Seq<char>,
    pub additional_status: Option<Seq<char>>,
    pub created_time: i64,
    pub expiration_time: Option<i64>,
}

impl DeepView for GreenfieldInvoice {
    type V = GreenfieldInvoiceView;

    open spec fn deep_view(&self) -> GreenfieldInvoiceView {
        GreenfieldInvoiceView {
            id: self.id.deep_view(),
            store_id: self.store_id.deep_view(),
            amount: self.amount.deep_view(),
            currency: self.currency.deep_view(),
            invoice_type: self.invoice_type.deep_view(),
            status: self.status.deep_view(),
            additional_status: self.additional_status.deep_view(),
            created_time: self.created_time,
            expiration_time: self.expiration_time,
        }
    }
}

impl Clone for GreenfieldInvoice {
    fn clone(&self) -> (r: Self)
        ensures
            r.deep_view() == self.deep_view(),
    {
        GreenfieldInvoice {
            id: self.id.clone(),
            store_id: self.store_id.clone(),
            amount: self.amount.clone(),
            currency: self.currency.clone(),
            invoice_type: copy_optional_text(&self.invoice_type),
            status: self.status.clone(),
            additional_status: copy_optional_text(&self.additional_status),
            created_time: self.created_time,
            expiration_time: self.expiration_time,
        }
    }
}

proof fn lemma_numbers_name_themselves(n: u64, other: Option<u64>)
    ensures
        named_amount(text::decimal(n as nat), other) == Some(n),
{
    text::lemma_decimal_reads_back(n as nat);
    text::lemma_decimal_has_digits_only(n as nat);
    assert(text::digit_value(text::decimal(n as nat)[0], 10) is Some);
}

/// A whole number is an amount of millisatoshis, whether it comes as a number or
/// as text, and whatever it would be as an amount of bitcoin.
pub proof fn lemma_whole_numbers_are_millisatoshis(n: u64, sat: Option<u64>, msat: Option<u64>)
    ensures
        balance_msat(
            Some(
                WireAmountView {
                    value: JsonView::Unsigned(n),
                    decimal_sat: sat,
                    decimal_msat: msat,
                },
            ),
        ) == n,
        balance_msat(
            Some(
                WireAmountView {
                    value: JsonView::Text(text::decimal(n as nat)),
                    decimal_sat: sat,
                    decimal_msat: msat,
                },
            ),
        ) == n,
        balance_msat(None) == 0,
{
    lemma_numbers_name_themselves(n, msat);
}

/// A text that is no whole number is an amount of bitcoin: of millisatoshis in a
/// balance, of satoshis in a wallet. One that is neither is nothing in a balance.
pub proof fn lemma_other_texts_are_bitcoin(amount: WireAmountView)
    requires
        amount.value is Text,
        text::parsed_u64(amount.value->Text_0, 10) is None,
    ensures
        amount.decimal_msat is Some ==> balance_msat(Some(amount)) == amount.decimal_msat->0,
        amount.decimal_msat is None ==> balance_msat(Some(amount)) == 0,
        confirmed(
            GreenfieldOnChainWalletView {
                balance: None,
                confirmed_balance: Some(amount),
                unconfirmed_balance: None,
            },
        ) == amount.decimal_sat,
{
}

/// A wallet's confirmed balance goes before its whole balance, whatever that is,
/// and what is unconfirmed has no say.
pub proof fn lemma_confirmed_goes_first(
    a: GreenfieldOnChainWalletView,
    b: GreenfieldOnChainWalletView,
)
    requires
        a.confirmed_balance is Some || a.balance == b.balance,
        a.confirmed_balance == b.confirmed_balance,
    ensures
        confirmed(a) == confirmed(b),
        a.confirmed_balance is None && a.balance is None ==> confirmed(a) is None,
        a.confirmed_balance is None && a.balance is Some && a.balance->0.value is Unsigned
            ==> confirmed(a) == Some(a.balance->0.value->Unsigned_0),
{
}

/// The key of a node is a beginning of its first address, without an `@` in it,
/// and ends where the address ends or has its first `@`. No node has an empty
/// key.
pub proof fn lemma_node_keys_end_at_the_sign(node_uris: Seq<Seq<char>>)
    ensures
        first_node_id(node_uris) is Some <==> node_uris.len() > 0 && node_uris[0].len() > 0
            && node_uris[0][0] != '@',
        first_node_id(node_uris) is Some ==> {
            let key = first_node_id(node_uris)->0;
            let uri = node_uris[0];
            &&& key.len() <= uri.len()
            &&& forall|i: int| 0 <= i < key.len() ==> #[trigger] key[i] == uri[i] && key[i] != '@'
            &&& key.len() == uri.len() || uri[key.len() as int] == '@'
        },
{
    if node_uris.len() > 0 {
        text::lemma_first_position(node_uris[0], '@');
    }
}

/// A webhook's second is its moment wherever the calendar has it; elsewhere the
/// moment of its arrival is.
pub proof fn lemma_moments_are_whole_seconds(secs: i64, now: Timestamp)
    ensures
        -8_334_601_228_800 <= secs <= 8_210_266_876_799 ==> moment_or(secs, now) == (Timestamp {
            secs,
            nanos: 0,
        }),
        secs < -8_334_601_228_800 || 8_210_266_876_799 < secs ==> moment_or(secs, now) == now,
{
}

} // verus!
