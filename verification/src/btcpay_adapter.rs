//! What the BTCPay adapter asks of a server and makes of its answers.
use crate::btcpay_model;
use crate::btcpay_model::{
    GreenfieldLightningChannel, GreenfieldLightningChannelView, GreenfieldLightningInfo,
    GreenfieldLightningInfoView, GreenfieldOnChainWallet, GreenfieldOnChainWalletView,
    GreenfieldServerInfo,
};
use crate::btcpay_webhook;
use crate::btcpay_webhook::BtcPayError;
use crate::domain::{BitcoinNetwork, ChannelSnapshot, ChannelSnapshotView, ChannelStatus};
use crate::ingest::{AdapterHealth, NodeSnapshot, NodeSnapshotView};
use crate::ratio::Ratio;
use crate::identity;
use crate::text;
use crate::text::copy_optional_text;
use crate::time::{Period, Timestamp};
use vstd::prelude::*;

verus! {

/// How many events may wait for a reader.
pub const DEFAULT_EVENT_BUFFER_SIZE: usize = 1024;

/// What the adapter is set up with.
#[derive(Debug, PartialEq, Eq)]
pub struct BtcPayAdapterConfig {
    pub store_id: String,
    pub crypto_code: String,
    pub network: BitcoinNetwork,
    pub node_id_override: Option<String>,
    pub webhook_secret: Option<String>,
}

/// The mathematical value of a [`BtcPayAdapterConfig`].
pub struct BtcPayAdapterConfigView {
    pub store_id: Seq<char>,
    pub crypto_code: Seq<char>,
    pub network: BitcoinNetwork,
    pub node_id_override: Option<Seq<char>>,
    pub webhook_secret: Option<Seq<char>>,
}

impl DeepView for BtcPayAdapterConfig {
    type V = BtcPayAdapterConfigView;

    open spec fn deep_view(&self) -> BtcPayAdapterConfigView {
        BtcPayAdapterConfigView {
            store_id: self.store_id.deep_view(),
            crypto_code: self.crypto_code.deep_view(),
            network: self.network,
            node_id_override: self.node_id_override.deep_view(),
            webhook_secret: self.webhook_secret.deep_view(),
        }
    }
}

impl Clone for BtcPayAdapterConfig {
    fn clone(&self) -> (r: Self)
        ensures
            r.deep_view() == self.deep_view(),
    {
        BtcPayAdapterConfig {
            store_id: self.store_id.clone(),
            crypto_code: self.crypto_code.clone(),
            network: self.network,
            node_id_override: copy_optional_text(&self.node_id_override),
            webhook_secret: copy_optional_text(&self.webhook_secret),
        }
    }
}

/// The identity of the node behind a store: the configured one, or else the one
/// that the server gives, or else one made from the store's.
pub open spec fn node_identity(
    config: BtcPayAdapterConfigView,
    info: GreenfieldLightningInfoView,
) -> Seq<char> {
    match config.node_id_override {
        Some(id) => id,
        None => match btcpay_model::first_node_id(info.node_uris) {
            Some(id) => id,
            None => "btcpay-"@ + config.store_id,
        },
    }
}

fn identify(config: &BtcPayAdapterConfig, info: &GreenfieldLightningInfo) -> (r: String)
    ensures
        r@ == node_identity(config.deep_view(), info.deep_view()),
{
    match &config.node_id_override {
        Some(id) => id.clone(),
        None => match info.node_id() {
            Some(id) => id,
            None => "btcpay-".to_owned().concat(config.store_id.as_str()),
        },
    }
}

/// The capacity of a channel: the one it states, or else the sum of its
/// balances, held at the greatest amount there is.
pub open spec fn effective_capacity(c: GreenfieldLightningChannelView) -> u64 {
    let stated = btcpay_model::balance_msat(c.capacity);
    let sum = btcpay_model::balance_msat(c.local_balance) + btcpay_model::balance_msat(
        c.remote_balance,
    );
    if stated > 0 {
        stated
    } else if sum > u64::MAX {
        u64::MAX
    } else {
        sum as u64
    }
}

/// The snapshot of the channel at place `index` of the server's list.
pub open spec fn channel_snapshot(
    c: GreenfieldLightningChannelView,
    index: nat,
    node_id: Seq<char>,
    network: BitcoinNetwork,
    now: Timestamp,
) -> ChannelSnapshotView {
    let local = btcpay_model::balance_msat(c.local_balance);
    let remote = btcpay_model::balance_msat(c.remote_balance);
    let capacity = effective_capacity(c);
    ChannelSnapshotView {
        node_id: Some(node_id),
        network: Some(network),
        state_digest: None,
        channel_id: match c.channel_point {
            Some(point) => point,
            None => "unknown-"@ + text::decimal(index),
        },
        local_ratio: Ratio { bits: crate::ratio::ratio_bits(local as nat, capacity as nat) as u64 },
        local_balance_msat: local,
        remote_balance_msat: remote,
        capacity_msat: capacity,
        status: if c.is_active {
            ChannelStatus::Active
        } else {
            ChannelStatus::Inactive
        },
        ts: now,
        spendable_outbound_msat: local,
        spendable_inbound_msat: remote,
    }
}

fn snapshot_channel(
    c: &GreenfieldLightningChannel,
    index: usize,
    node_id: &str,
    network: BitcoinNetwork,
    now: Timestamp,
) -> (r: ChannelSnapshot)
    ensures
        r.deep_view() == channel_snapshot(c.deep_view(), index as nat, node_id@, network, now),
{
    let local: u64 = c.local_balance_msat();
    let remote: u64 = c.remote_balance_msat();
    let stated: u64 = c.capacity_msat();
    let capacity: u64 = if stated > 0 {
        stated
    } else {
        match local.checked_add(remote) {
            Some(sum) => sum,
            None => u64::MAX,
        }
    };
    let channel_id = match &c.channel_point {
        Some(point) => point.clone(),
        None => "unknown-".to_owned().concat(text::u64_text(index as u64).as_str()),
    };
    ChannelSnapshot {
        node_id: Some(node_id.to_owned()),
        network: Some(network),
        state_digest: None,
        channel_id,
        local_ratio: Ratio::of(local, capacity),
        local_balance_msat: local,
        remote_balance_msat: remote,
        capacity_msat: capacity,
        status: if c.is_active {
            ChannelStatus::Active
        } else {
            ChannelStatus::Inactive
        },
        ts: now,
        spendable_outbound_msat: local,
        spendable_inbound_msat: remote,
    }
}

/// The snapshots of all channels of the server's list.
pub open spec fn channel_snapshots(
    channels: Seq<GreenfieldLightningChannelView>,
    node_id: Seq<char>,
    network: BitcoinNetwork,
    now: Timestamp,
) -> Seq<ChannelSnapshotView> {
    Seq::new(
        channels.len(),
        |i: int| channel_snapshot(channels[i], i as nat, node_id, network, now),
    )
}

/// The snapshot of a node that the server's answers stand for.
pub open spec fn greenfield_snapshot(
    config: BtcPayAdapterConfigView,
    info: GreenfieldLightningInfoView,
    channels: Seq<GreenfieldLightningChannelView>,
    wallet: Option<GreenfieldOnChainWalletView>,
    now: Timestamp,
) -> NodeSnapshotView {
    let node_id = node_identity(config, info);
    crate::ingest::node_snapshot(
        node_id,
        config.network,
        channel_snapshots(channels, node_id, config.network, now),
        now,
        info.block_height,
        match wallet {
            Some(w) => btcpay_model::confirmed(w),
            None => None,
        },
    )
}

/// The snapshot of a node that the server's answers stand for. A wallet that
/// could not be asked for is left out.
pub fn build_snapshot(
    config: &BtcPayAdapterConfig,
    info: &GreenfieldLightningInfo,
    channels: &Vec<GreenfieldLightningChannel>,
    wallet: &Option<GreenfieldOnChainWallet>,
    now: Timestamp,
) -> (r: NodeSnapshot)
    ensures
        r.deep_view() == greenfield_snapshot(
            config.deep_view(),
            info.deep_view(),
            channels.deep_view(),
            wallet.deep_view(),
            now,
        ),
{
    let node_id = identify(config, info);
    let ghost all = channels.deep_view();
    let mut out: Vec<ChannelSnapshot> = Vec::new();
    let mut i: usize = 0;
    while i < channels.len()
        invariant
            i <= channels.len(),
            all == channels.deep_view(),
            out.deep_view().len() == i,
            forall|k: int|
                0 <= k < i ==> #[trigger] out.deep_view()[k] == channel_snapshot(
                    all[k],
                    k as nat,
                    node_id@,
                    config.network,
                    now,
                ),
        decreases channels.len() - i,
    {
        assert(all[i as int] == channels[i as int].deep_view());
        let snapshot = snapshot_channel(&channels[i], i, node_id.as_str(), config.network, now);
        let ghost before = out.deep_view();
        out.push(snapshot);
        assert(out.deep_view() =~= before.push(snapshot.deep_view()));
        i += 1;
    }
    assert(out.deep_view() =~= channel_snapshots(all, node_id@, config.network, now));
    let onchain: Option<u64> = match wallet {
        Some(w) => w.confirmed_sats(),
        None => None,
    };
    NodeSnapshot::from_channels(node_id, config.network, out, now, info.block_height, onchain)
}

/// What the health check makes of the server's answer.
pub fn health_report(answer: Result<&GreenfieldServerInfo, &BtcPayError>, latency_ms: u64) -> (r:
    AdapterHealth)
    ensures
        r.is_connected == answer.is_ok(),
        r.source_name@ == "btcpay"@,
        r.latency_ms == Some(latency_ms),
        r.message.deep_view() == Some(
            match answer {
                Ok(info) => "BTCPay Server v"@ + info.version@ + ", sync: "@ + (
                if info.fully_synced == Some(false) {
                    "false"@
                } else {
                    "true"@
                }),
                Err(e) => btcpay_webhook::btcpay_error_text(e.deep_view()),
            },
        ),
{
    match answer {
        Ok(info) => {
            let synced = match info.fully_synced {
                Some(synced) => synced,
                None => true,
            };
            let word = if synced {
                "true"
            } else {
                "false"
            };
            AdapterHealth {
                is_connected: true,
                source_name: "btcpay".to_owned(),
                latency_ms: Some(latency_ms),
                message: Some(
                    "BTCPay Server v".to_owned().concat(info.version.as_str()).concat(
                        ", sync: ",
                    ).concat(word),
                ),
            }
        },
        Err(e) => AdapterHealth {
            is_connected: false,
            source_name: "btcpay".to_owned(),
            latency_ms: Some(latency_ms),
            message: Some(e.to_text()),
        },
    }
}

/// What the client of a Greenfield server is set up with.
#[derive(Debug, PartialEq, Eq)]
pub struct GreenfieldSettings {
    pub base_url: String,
    pub api_key: String,
    /// The value of the header that carries the key.
    pub authorization: String,
    pub timeout: Period,
    pub connect_timeout: Period,
}

/// Whether a byte may stand in the value of a header.
pub open spec fn header_byte(b: u8) -> bool {
    b == 9 || (b >= 32 && b != 127)
}

/// Whether a text may be the value of a header.
pub open spec fn header_value(s: Seq<char>) -> bool {
    forall|i: int|
        0 <= i < identity::text_bytes(s).len() ==> header_byte(#[trigger] identity::text_bytes(s)[i])
}

/// `reqwest::header::HeaderValue::from_str`: it takes a text exactly if each byte
/// is a tab, or is 32 or more and not 127.
#[verifier::external_body]
fn is_header_value(text: &str) -> (r: bool)
    ensures
        r == header_value(text@),
{
    reqwest::header::HeaderValue::from_str(text).is_ok()
}

/// What is wrong with the settings of a client.
pub open spec fn settings_refusal(
    base_url: Seq<char>,
    api_key: Seq<char>,
    timeout: Period,
) -> Option<Seq<char>> {
    if text::without_trailing(base_url, '/').len() == 0 {
        Some("BTCPay Server base URL cannot be empty"@)
    } else if text::trimmed(api_key).len() == 0 {
        Some("BTCPay Server API key cannot be empty"@)
    } else if timeout.nothing() {
        Some("BTCPay Server request timeout must be greater than zero"@)
    } else if !header_value("token "@ + text::trimmed(api_key)) {
        Some("Invalid characters in API key"@)
    } else {
        None
    }
}

fn is_empty(s: &str) -> (r: bool)
    ensures
        r == (s@.len() == 0),
{
    text::chars_of(s).len() == 0
}

/// The settings of a client: the base URL without trailing slashes and the key
/// without white space around it, which must fit in a header. Connecting may take
/// five seconds at most.
pub fn client_settings(base_url: &str, api_key: &str, timeout: Period) -> (r: Result<
    GreenfieldSettings,
    BtcPayError,
>)
    ensures
        match r {
            Ok(s) => settings_refusal(base_url@, api_key@, timeout) is None && s.base_url@
                == text::without_trailing(base_url@, '/') && s.api_key@ == text::trimmed(api_key@)
                && s.authorization@ == "token "@ + text::trimmed(api_key@) && s.timeout == timeout && s.connect_timeout == (if timeout.secs < 5 {
                timeout
            } else {
                Period { secs: 5, nanos: 0 }
            }),
            Err(e) => e matches BtcPayError::Config(message) && settings_refusal(
                base_url@,
                api_key@,
                timeout,
            ) == Some(message@),
        },
{
    let base = text::trim_trailing(base_url, '/');
    let key = text::trim_text(api_key);
    if is_empty(base.as_str()) {
        return Err(BtcPayError::Config("BTCPay Server base URL cannot be empty".to_owned()));
    }
    if is_empty(key.as_str()) {
        return Err(BtcPayError::Config("BTCPay Server API key cannot be empty".to_owned()));
    }
    if timeout.is_zero() {
        return Err(
            BtcPayError::Config(
                "BTCPay Server request timeout must be greater than zero".to_owned(),
            ),
        );
    }
    let authorization = "token ".to_owned().concat(key.as_str());
    if !is_header_value(authorization.as_str()) {
        return Err(BtcPayError::Config("Invalid characters in API key".to_owned()));
    }
    Ok(
        GreenfieldSettings {
            base_url: base,
            api_key: key,
            authorization,
            timeout,
            connect_timeout: timeout.at_most(5),
        },
    )
}

/// The URL that gives the server's own state.
pub fn server_info_url(base_url: &str) -> (r: String)
    ensures
        r@ == base_url@ + "/api/v1/server/info"@,
{
    base_url.to_owned().concat("/api/v1/server/info")
}

/// The URL of something that a store says of one of its currencies.
pub open spec fn store_url_text(
    base_url: Seq<char>,
    store_id: Seq<char>,
    section: Seq<char>,
    crypto_code: Seq<char>,
    subject: Seq<char>,
) -> Seq<char> {
    base_url + "/api/v1/stores/"@ + store_id + "/"@ + section + "/"@ + crypto_code + "/"@ + subject
}

fn store_url(base_url: &str, store_id: &str, section: &str, crypto_code: &str, subject: &str) -> (r:
    String)
    ensures
        r@ == store_url_text(base_url@, store_id@, section@, crypto_code@, subject@),
{
    base_url.to_owned().concat("/api/v1/stores/").concat(store_id).concat("/").concat(
        section,
    ).concat("/").concat(crypto_code).concat("/").concat(subject)
}

/// The URL that gives a store's Lightning node.
pub fn lightning_info_url(base_url: &str, store_id: &str, crypto_code: &str) -> (r: String)
    ensures
        r@ == store_url_text(base_url@, store_id@, "lightning"@, crypto_code@, "info"@),
{
    store_url(base_url, store_id, "lightning", crypto_code, "info")
}

/// The URL that gives a store's Lightning balance.
pub fn lightning_balance_url(base_url: &str, store_id: &str, crypto_code: &str) -> (r: String)
    ensures
        r@ == store_url_text(base_url@, store_id@, "lightning"@, crypto_code@, "balance"@),
{
    store_url(base_url, store_id, "lightning", crypto_code, "balance")
}

/// The URL that gives a store's channels.
pub fn lightning_channels_url(base_url: &str, store_id: &str, crypto_code: &str) -> (r: String)
    ensures
        r@ == store_url_text(base_url@, store_id@, "lightning"@, crypto_code@, "channels"@),
{
    store_url(base_url, store_id, "lightning", crypto_code, "channels")
}

/// The URL that gives a store's wallet.
pub fn onchain_wallet_url(base_url: &str, store_id: &str, crypto_code: &str) -> (r: String)
    ensures
        r@ == store_url_text(base_url@, store_id@, "onchain"@, crypto_code@, "wallet"@),
{
    store_url(base_url, store_id, "onchain", crypto_code, "wallet")
}

/// The URL that gives a store's invoices, all of them or those of one status.
pub fn invoices_url(base_url: &str, store_id: &str, status_filter: Option<&str>) -> (r: String)
    ensures
        r@ == base_url@ + "/api/v1/stores/"@ + store_id@ + "/invoices"@ + (match status_filter {
            Some(status) => "?status="@ + status@,
            None => seq![],
        }),
{
    let url = base_url.to_owned().concat("/api/v1/stores/").concat(store_id).concat("/invoices");
    match status_filter {
        Some(status) => {
            let full = url.concat("?status=").concat(status);
            assert(full@ =~= url@ + ("?status="@ + status@));
            full
        },
        None => {
            assert(url@ =~= url@ + Seq::<char>::empty());
            url
        },
    }
}

/// Whether an HTTP status means success.
pub open spec fn success(status: u16) -> bool {
    200 <= status < 300
}

/// What an answer's status makes of its body: an error carries it along.
pub fn checked_answer(status: u16, body: String) -> (r: Result<String, BtcPayError>)
    ensures
        match r {
            Ok(kept) => success(status) && kept@ == body@,
            Err(e) => !success(status) && e.deep_view() == (
            btcpay_webhook::BtcPayErrorView::Api { status, message: body@ }),
        },
{
    if 200 <= status && status < 300 {
        Ok(body)
    } else {
        Err(BtcPayError::Api { status, message: body })
    }
}

/// Every snapshot that the server's answers stand for names the node, the
/// network and the moment it was taken at.
pub proof fn lemma_snapshots_are_attributed(
    config: BtcPayAdapterConfigView,
    info: GreenfieldLightningInfoView,
    channels: Seq<GreenfieldLightningChannelView>,
    wallet: Option<GreenfieldOnChainWalletView>,
    now: Timestamp,
    i: int,
)
    requires
        0 <= i < channels.len(),
    ensures
        greenfield_snapshot(config, info, channels, wallet, now).channels.len() == channels.len(),
        greenfield_snapshot(config, info, channels, wallet, now).channels[i].node_id == Some(
            greenfield_snapshot(config, info, channels, wallet, now).node_id,
        ),
        greenfield_snapshot(config, info, channels, wallet, now).channels[i].network == Some(
            config.network,
        ),
        greenfield_snapshot(config, info, channels, wallet, now).channels[i].ts == now,
{
}

/// A node is called as it was set up to be, else by the key in its first address,
/// else after its store.
pub proof fn lemma_whose_name_a_node_bears(
    config: BtcPayAdapterConfigView,
    info: GreenfieldLightningInfoView,
)
    ensures
        config.node_id_override is Some ==> Some(node_identity(config, info))
            == config.node_id_override,
        config.node_id_override is None && btcpay_model::first_node_id(info.node_uris) is Some
            ==> Some(node_identity(config, info)) == btcpay_model::first_node_id(info.node_uris),
        config.node_id_override is None && btcpay_model::first_node_id(info.node_uris) is None
            ==> node_identity(config, info) == "btcpay-"@ + config.store_id,
{
}

/// A channel's own balance is what it can send and the other one what it can
/// receive. Its capacity is what it states, or else the sum of the two; it is
/// active exactly if the server says so, and called by its funding point where
/// that is known.
pub proof fn lemma_snapshots_tell_the_sides_apart(
    c: GreenfieldLightningChannelView,
    index: nat,
    node_id: Seq<char>,
    network: BitcoinNetwork,
    now: Timestamp,
)
    ensures
        ({
            let s = channel_snapshot(c, index, node_id, network, now);
            let local = btcpay_model::balance_msat(c.local_balance);
            let remote = btcpay_model::balance_msat(c.remote_balance);
            let stated = btcpay_model::balance_msat(c.capacity);
            &&& s.local_balance_msat == s.spendable_outbound_msat == local
            &&& s.remote_balance_msat == s.spendable_inbound_msat == remote
            &&& stated > 0 ==> s.capacity_msat == stated
            &&& stated == 0 && local + remote <= u64::MAX ==> s.capacity_msat == local + remote
            &&& stated == 0 && local + remote > u64::MAX ==> s.capacity_msat == u64::MAX
            &&& s.status == ChannelStatus::Active <==> c.is_active
            &&& s.status == ChannelStatus::Inactive <==> !c.is_active
            &&& c.channel_point is Some ==> Some(s.channel_id) == c.channel_point
            &&& c.channel_point is None ==> s.channel_id == "unknown-"@ + text::decimal(index)
            &&& s.ts == now
            &&& s.local_ratio.bits == crate::ratio::ratio_bits(
                local as nat,
                s.capacity_msat as nat,
            ) as u64
        }),
{
}

/// A node's snapshot lists every channel in the order of the server, numbered
/// from nought, under the node's name, and takes the height from the node and
/// the funds from the wallet.
pub proof fn lemma_node_snapshots_list_every_channel(
    config: BtcPayAdapterConfigView,
    info: GreenfieldLightningInfoView,
    channels: Seq<GreenfieldLightningChannelView>,
    wallet: Option<GreenfieldOnChainWalletView>,
    now: Timestamp,
)
    ensures
        ({
            let n = greenfield_snapshot(config, info, channels, wallet, now);
            &&& n.node_id == node_identity(config, info)
            &&& n.network == config.network
            &&& n.observed_at == now
            &&& n.block_height == info.block_height
            &&& wallet is None ==> n.onchain_balance_sats is None
            &&& wallet is Some ==> n.onchain_balance_sats == btcpay_model::confirmed(wallet->0)
            &&& n.channels.len() == channels.len()
            &&& forall|i: int|
                0 <= i < channels.len() ==> #[trigger] n.channels[i] == channel_snapshot(
                    channels[i],
                    i as nat,
                    n.node_id,
                    n.network,
                    now,
                )
        }),
{
}

proof fn lemma_nothing_without_trailing(s: Seq<char>, c: char)
    ensures
        text::without_trailing(s, c).len() == 0 <==> forall|i: int|
            0 <= i < s.len() ==> #[trigger] s[i] == c,
    decreases s.len(),
{
    if s.len() > 0 && s.last() == c {
        lemma_nothing_without_trailing(s.drop_last(), c);
        assert forall|i: int|
            text::without_trailing(s, c).len() == 0 && 0 <= i < s.len() implies #[trigger] s[i]
            == c by {
            if i < s.len() - 1 {
                assert(s.drop_last()[i] == s[i]);
            }
        }
        assert forall|i: int|
            (forall|k: int| 0 <= k < s.len() ==> #[trigger] s[k] == c) && 0 <= i < s.len()
                - 1 implies #[trigger] s.drop_last()[i] == c by {
            assert(s[i] == c);
        }
    } else if s.len() > 0 {
        assert(s[s.len() - 1] != c);
    }
}

/// Settings are taken exactly if the address has more to it than slashes, the key
/// more than blanks, the time allowed is some, and the key can stand in a
/// header.
pub proof fn lemma_which_settings_are_taken(
    base_url: Seq<char>,
    api_key: Seq<char>,
    timeout: Period,
)
    ensures
        settings_refusal(base_url, api_key, timeout) is None <==> {
            &&& exists|i: int| 0 <= i < base_url.len() && #[trigger] base_url[i] != '/'
            &&& text::trimmed(api_key).len() > 0
            &&& timeout.secs > 0 || timeout.nanos > 0
            &&& forall|i: int|
                0 <= i < identity::text_bytes("token "@ + text::trimmed(api_key)).len() ==> {
                    let b = #[trigger] identity::text_bytes("token "@ + text::trimmed(api_key))[i];
                    b == 9 || 32 <= b <= 126 || b >= 128
                }
        },
{
    lemma_nothing_without_trailing(base_url, '/');
    let bytes = identity::text_bytes("token "@ + text::trimmed(api_key));
    if header_value("token "@ + text::trimmed(api_key)) {
        assert forall|i: int| 0 <= i < bytes.len() implies {
            let b = #[trigger] bytes[i];
            b == 9 || 32 <= b <= 126 || b >= 128
        } by {
            assert(header_byte(bytes[i]));
        }
    }
}

/// A status tells of success exactly if it lies in the hundred of success.
pub proof fn lemma_which_statuses_tell_of_success(status: u16)
    ensures
        success(status) <==> status / 100 == 2,
{
}

} // verus!
