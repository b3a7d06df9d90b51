//! From LND's wire types to domain objects.
use crate::domain::{
    Channel, ChannelId, ChannelStatus, ChannelView, FeePolicy, ForwardEvent, ForwardEventView,
    LiquidityProfile, NodeId,
};
use crate::lnd_model::{LndChannel, LndChannelView, LndForward, LndGetInfoResponse};
use crate::text;
use crate::time::{moment, Timestamp};
use std::collections::HashMap;
use vstd::prelude::*;

verus! {

broadcast use vstd::std_specs::hash::group_hash_axioms;

/// Why a channel cannot be normalized.
#[derive(Debug, PartialEq, Eq)]
pub enum NormalizerError {
    BadChannelPoint(String),
    NegativeBalance(String),
}

/// The mathematical value of a [`NormalizerError`].
pub enum NormalizerErrorView {
    BadChannelPoint(Seq<char>),
    NegativeBalance(Seq<char>),
}

impl DeepView for NormalizerError {
    type V = NormalizerErrorView;

    open spec fn deep_view(&self) -> NormalizerErrorView {
        match self {
            NormalizerError::BadChannelPoint(s) => NormalizerErrorView::BadChannelPoint(s@),
            NormalizerError::NegativeBalance(s) => NormalizerErrorView::NegativeBalance(s@),
        }
    }
}

/// What an error says.
pub open spec fn normalizer_error_text(e: NormalizerErrorView) -> Seq<char> {
    match e {
        NormalizerErrorView::BadChannelPoint(s) => "malformed channel point `"@ + s
            + "`: expected txid:index"@,
        NormalizerErrorView::NegativeBalance(s) => "negative balance on channel "@ + s,
    }
}

impl NormalizerError {
    /// What the error says.
    pub fn to_text(&self) -> (r: String)
        ensures
            r@ == normalizer_error_text(self.deep_view()),
    {
        match self {
            NormalizerError::BadChannelPoint(s) => "malformed channel point `".to_owned().concat(
                s.as_str(),
            ).concat("`: expected txid:index"),
            NormalizerError::NegativeBalance(s) => "negative balance on channel ".to_owned().concat(
                s.as_str(),
            ),
        }
    }
}

/// The canonical identity of a channel: its channel point with `x` for `:`.
pub open spec fn canonical_id(channel_point: Seq<char>) -> Seq<char> {
    text::replaced(channel_point, ':', 'x')
}

/// The identity of the first channel in a list that has this short id.
pub open spec fn first_with_scid(channels: Seq<LndChannelView>, scid: u64) -> Option<Seq<char>>
    decreases channels.len(),
{
    if channels.len() == 0 {
        None
    } else {
        match first_with_scid(channels.drop_last(), scid) {
            Some(id) => Some(id),
            None => if channels.last().chan_id == Some(scid) {
                Some(canonical_id(channels.last().channel_point))
            } else {
                None
            },
        }
    }
}

/// Finds the channel that a short channel id stands for.
#[derive(Debug)]
pub struct ShortChanResolver {
    scid_to_channel: HashMap<u64, ChannelId>,
}

impl Clone for ShortChanResolver {
    fn clone(&self) -> (r: Self)
        ensures
            forall|scid: u64| #[trigger] r.lookup(scid) == self.lookup(scid),
    {
        ShortChanResolver { scid_to_channel: self.scid_to_channel.clone() }
    }
}

impl ShortChanResolver {
    /// The identity that a short channel id stands for.
    pub closed spec fn lookup(self, scid: u64) -> Option<Seq<char>> {
        if self.scid_to_channel@.contains_key(scid) {
            Some(self.scid_to_channel@[scid].deep_view())
        } else {
            None
        }
    }

    /// The resolver for a list of channels. Where two share a short id, the
    /// first counts.
    pub fn from_channels(channels: &[LndChannel]) -> (r: ShortChanResolver)
        ensures
            forall|scid: u64| #[trigger]
                r.lookup(scid) == first_with_scid(
                    channels@.map_values(|c: LndChannel| c.deep_view()),
                    scid,
                ),
    {
        let ghost all = channels@.map_values(|c: LndChannel| c.deep_view());
        let mut r = ShortChanResolver { scid_to_channel: HashMap::new() };
        let mut i: usize = 0;
        while i < channels.len()
            invariant
                i <= channels.len(),
                all == channels@.map_values(|c: LndChannel| c.deep_view()),
                forall|scid: u64| #[trigger]
                    r.lookup(scid) == first_with_scid(all.take(i as int), scid),
            decreases channels.len() - i,
        {
            let c = &channels[i];
            let ghost before = r;
            assert(all.take(i + 1).drop_last() =~= all.take(i as int));
            assert(all.take(i + 1).last() == c.deep_view());
            if let Some(scid) = c.chan_id {
                if !r.scid_to_channel.contains_key(&scid) {
                    let id = text::replace_char(c.channel_point.as_str(), ':', 'x');
                    r.scid_to_channel.insert(scid, ChannelId::new(id.as_str()));
                    assert(before.lookup(scid) is None);
                }
            }
            assert forall|scid: u64| #[trigger] r.lookup(scid) == first_with_scid(
                all.take(i + 1),
                scid,
            ) by {
                assert(before.lookup(scid) == first_with_scid(all.take(i as int), scid));
            }
            i += 1;
        }
        assert(all.take(i as int) =~= all);
        r
    }

    /// The identity that a short channel id stands for.
    pub fn resolve(&self, scid: u64) -> (r: Option<ChannelId>)
        ensures
            r.deep_view() == self.lookup(scid),
    {
        match self.scid_to_channel.get(&scid) {
            Some(id) => Some(id.clone()),
            None => None,
        }
    }
}

impl Default for ShortChanResolver {
    fn default() -> (r: Self)
        ensures
            forall|scid: u64| (#[trigger] r.lookup(scid)) is None,
    {
        ShortChanResolver { scid_to_channel: HashMap::new() }
    }
}

/// The state of a node's Lightning side, as far as its health depends on it.
#[derive(Debug, PartialEq, Eq)]
pub struct LightningSnapshot {
    pub node_id: String,
    pub synced_to_chain: bool,
    pub active_channels: u32,
    pub inactive_channels: u32,
    pub observed_at: Timestamp,
}

/// An amount in satoshis in millisatoshis; nothing where it is negative.
pub open spec fn to_msat(sat: i64) -> Option<u64> {
    if sat < 0 {
        None
    } else {
        Some((sat * 1000) as u64)
    }
}

/// An optional amount in satoshis in millisatoshis.
pub open spec fn optional_msat(sat: Option<i64>) -> Option<u64> {
    match sat {
        Some(s) => to_msat(s),
        None => None,
    }
}

/// Whether an amount in satoshis can be held in millisatoshis.
pub open spec fn msat_fits(sat: i64) -> bool {
    sat * 1000 <= u64::MAX
}

/// Whether an optional amount in satoshis can be held in millisatoshis.
pub open spec fn optional_msat_fits(sat: Option<i64>) -> bool {
    sat is Some ==> msat_fits(sat->0)
}

/// Whether every amount of a channel can be held in millisatoshis.
pub open spec fn amounts_fit(c: LndChannelView) -> bool {
    msat_fits(c.capacity) && msat_fits(c.local_balance) && msat_fits(c.remote_balance)
        && optional_msat_fits(c.local_chan_reserve_sat) && optional_msat_fits(
        c.remote_chan_reserve_sat,
    ) && optional_msat_fits(c.total_satoshis_sent) && optional_msat_fits(c.total_satoshis_received)
}

fn is_msat(sat: i64) -> (r: bool)
    ensures
        r == msat_fits(sat),
{
    sat <= 18_446_744_073_709_551
}

fn is_optional_msat(sat: Option<i64>) -> (r: bool)
    ensures
        r == optional_msat_fits(sat),
{
    match sat {
        Some(sat) => is_msat(sat),
        None => true,
    }
}

/// Whether every amount of a channel can be held in millisatoshis.
pub fn can_be_normalized(lnd: &LndChannel) -> (r: bool)
    ensures
        r == amounts_fit(lnd.deep_view()),
{
    is_msat(lnd.capacity) && is_msat(lnd.local_balance) && is_msat(lnd.remote_balance)
        && is_optional_msat(lnd.local_chan_reserve_sat) && is_optional_msat(
        lnd.remote_chan_reserve_sat,
    ) && is_optional_msat(lnd.total_satoshis_sent) && is_optional_msat(lnd.total_satoshis_received)
}

/// What is left of a balance above its reserve; nothing where the reserve is
/// not known.
pub open spec fn spendable(balance: u64, reserve: Option<u64>) -> u64 {
    match reserve {
        Some(r) => if balance > r {
            (balance - r) as u64
        } else {
            0
        },
        None => 0,
    }
}

/// The error that a channel of LND's is refused with, if it is.
pub open spec fn channel_refusal(c: LndChannelView) -> Option<NormalizerErrorView> {
    if !c.channel_point.contains(':') {
        Some(NormalizerErrorView::BadChannelPoint(c.channel_point))
    } else if c.local_balance < 0 || c.remote_balance < 0 {
        Some(NormalizerErrorView::NegativeBalance(canonical_id(c.channel_point)))
    } else {
        None
    }
}

/// The channel that LND's stands for.
pub open spec fn normalized_channel(
    c: LndChannelView,
    local_node: Seq<char>,
    seen_at: Timestamp,
) -> ChannelView {
    let capacity = match to_msat(c.capacity) {
        Some(n) => n,
        None => 0,
    };
    let local = to_msat(c.local_balance)->0;
    let remote = to_msat(c.remote_balance)->0;
    let local_reserve = optional_msat(c.local_chan_reserve_sat);
    let remote_reserve = optional_msat(c.remote_chan_reserve_sat);
    ChannelView {
        id: canonical_id(c.channel_point),
        node: local_node,
        peer: c.remote_pubkey,
        channel_point: c.channel_point,
        capacity_msat: capacity,
        fee_policy: crate::domain::no_fee_policy(),
        status: status_of_flags(c.chan_status_flags),
        liquidity: LiquidityProfile {
            spendable_outbound_msat: spendable(local, local_reserve),
            spendable_inbound_msat: spendable(remote, remote_reserve),
            ..crate::domain::liquidity_of(capacity, local, remote)
        },
        last_seen: seen_at,
        opening_height: None,
        local_reserve_msat: local_reserve,
        remote_reserve_msat: remote_reserve,
        is_private: c.private,
        is_initiator: c.initiator,
        total_sent_msat: optional_msat(c.total_satoshis_sent),
        total_received_msat: optional_msat(c.total_satoshis_received),
    }
}

fn sat_to_msat(sat: i64) -> (r: Option<u64>)
    requires
        msat_fits(sat),
    ensures
        r == to_msat(sat),
{
    if sat < 0 {
        None
    } else {
        Some(sat as u64 * 1000)
    }
}

fn optional_sat_to_msat(sat: Option<i64>) -> (r: Option<u64>)
    requires
        optional_msat_fits(sat),
    ensures
        r == optional_msat(sat),
{
    match sat {
        Some(s) => sat_to_msat(s),
        None => None,
    }
}

fn spendable_above(balance: u64, reserve: Option<u64>) -> (r: u64)
    ensures
        r == spendable(balance, reserve),
{
    match reserve {
        Some(res) => if balance > res {
            balance - res
        } else {
            0
        },
        None => 0,
    }
}

/// The error that a channel was refused with, if it was.
pub open spec fn refused_with(r: Result<Channel, NormalizerError>) -> Option<NormalizerErrorView> {
    match r {
        Ok(_) => None,
        Err(e) => Some(e.deep_view()),
    }
}

/// Normalizes LND's wire types.
pub struct Normalizer;

impl Normalizer {
    /// The health of a node's Lightning side.
    pub fn lightning_snapshot(info: &LndGetInfoResponse, observed_at: Timestamp) -> (r:
        LightningSnapshot)
        ensures
            r.node_id@ == info.deep_view().identity_pubkey,
            r.synced_to_chain == info.synced_to_chain,
            r.active_channels == info.num_active_channels,
            r.inactive_channels == info.num_inactive_channels,
            r.observed_at == observed_at,
    {
        LightningSnapshot {
            node_id: info.identity_pubkey.clone(),
            synced_to_chain: info.synced_to_chain,
            active_channels: info.num_active_channels,
            inactive_channels: info.num_inactive_channels,
            observed_at,
        }
    }

    /// The channel that LND's stands for.
    pub fn channel(lnd: &LndChannel, local_node: &NodeId, seen_at: Timestamp) -> (r: Result<
        Channel,
        NormalizerError,
    >)
        requires
            amounts_fit(lnd.deep_view()),
        ensures
            refused_with(r) == channel_refusal(lnd.deep_view()),
            r matches Ok(c) ==> c.deep_view() == normalized_channel(
                lnd.deep_view(),
                local_node.deep_view(),
                seen_at,
            ),
    {
        let id = text::replace_char(lnd.channel_point.as_str(), ':', 'x');
        if !text::has_char(lnd.channel_point.as_str(), ':') {
            return Err(NormalizerError::BadChannelPoint(lnd.channel_point.clone()));
        }
        let capacity_msat: u64 = match sat_to_msat(lnd.capacity) {
            Some(n) => n,
            None => 0,
        };
        let local_msat: u64 = match sat_to_msat(lnd.local_balance) {
            Some(n) => n,
            None => {
                return Err(NormalizerError::NegativeBalance(id));
            },
        };
        let remote_msat: u64 = match sat_to_msat(lnd.remote_balance) {
            Some(n) => n,
            None => {
                return Err(NormalizerError::NegativeBalance(id));
            },
        };
        let local_reserve_msat = optional_sat_to_msat(lnd.local_chan_reserve_sat);
        let remote_reserve_msat = optional_sat_to_msat(lnd.remote_chan_reserve_sat);
        let mut profile = LiquidityProfile::compute(capacity_msat, local_msat, remote_msat);
        profile.spendable_outbound_msat = spendable_above(local_msat, local_reserve_msat);
        profile.spendable_inbound_msat = spendable_above(remote_msat, remote_reserve_msat);
        Ok(
            Channel {
                id: ChannelId::new(id.as_str()),
                node: local_node.clone(),
                peer: NodeId::new(lnd.remote_pubkey.as_str()),
                channel_point: lnd.channel_point.clone(),
                capacity_msat,
                fee_policy: FeePolicy::default(),
                status: status_from_lnd_flags(lnd.chan_status_flags.as_str()),
                liquidity: profile,
                last_seen: seen_at,
                opening_height: None,
                local_reserve_msat,
                remote_reserve_msat,
                is_private: lnd.private,
                is_initiator: lnd.initiator,
                total_sent_msat: optional_sat_to_msat(lnd.total_satoshis_sent),
                total_received_msat: optional_sat_to_msat(lnd.total_satoshis_received),
            },
        )
    }

    /// The forwarded payment that LND's stands for.
    pub fn forward(lnd: &LndForward, resolver: &ShortChanResolver) -> (r: ForwardEvent)
        ensures
            r.deep_view() == normalized_forward(*lnd, *resolver),
    {
        ForwardEvent {
            id: forward_event_id(lnd),
            channel_in: resolve_forward_channel(lnd.chan_id_in, resolver),
            channel_out: resolve_forward_channel(lnd.chan_id_out, resolver),
            amount_msat: or_zero(lnd.amt_in_msat),
            fee_msat: or_zero(lnd.fee_msat),
            timestamp: forward_timestamp(lnd),
        }
    }
}

/// `n`, or zero where it is negative.
pub open spec fn at_least_zero(n: i64) -> u64 {
    if n < 0 {
        0
    } else {
        n as u64
    }
}

fn or_zero(n: i64) -> (r: u64)
    ensures
        r == at_least_zero(n),
{
    if n < 0 {
        0
    } else {
        n as u64
    }
}

/// The forwarded payment that LND's stands for.
pub open spec fn normalized_forward(
    f: LndForward,
    resolver: ShortChanResolver,
) -> ForwardEventView {
    ForwardEventView {
        id: forward_id_text(f),
        channel_in: forward_channel(f.chan_id_in, resolver),
        channel_out: forward_channel(f.chan_id_out, resolver),
        amount_msat: at_least_zero(f.amt_in_msat),
        fee_msat: at_least_zero(f.fee_msat),
        timestamp: forward_time(f),
    }
}

/// The identity of a forwarded payment: the finest time that LND gives for it.
pub open spec fn forward_id_text(f: LndForward) -> Seq<char> {
    match f.timestamp_ns {
        Some(ns) => "fwd:"@ + text::decimal(ns as nat),
        None => "fwd:"@ + text::signed_decimal(f.timestamp as int),
    }
}

/// The identity of a forwarded payment.
pub fn forward_event_id(lnd: &LndForward) -> (r: String)
    ensures
        r@ == forward_id_text(*lnd),
{
    match lnd.timestamp_ns {
        Some(ns) => "fwd:".to_owned().concat(text::u64_text(ns).as_str()),
        None => "fwd:".to_owned().concat(text::i64_text(lnd.timestamp).as_str()),
    }
}

/// When a payment was forwarded, by what LND says; the Unix epoch where that is
/// no date.
pub open spec fn forward_time(f: LndForward) -> Timestamp {
    match f.timestamp_ns {
        Some(ns) => Timestamp {
            secs: (ns / 1_000_000_000) as i64,
            nanos: (ns % 1_000_000_000) as u32,
        },
        None => if crate::time::MIN_SECOND <= f.timestamp <= crate::time::MAX_SECOND {
            Timestamp { secs: f.timestamp, nanos: 0 }
        } else {
            Timestamp { secs: 0, nanos: 0 }
        },
    }
}

/// When a payment was forwarded.
pub fn forward_timestamp(lnd: &LndForward) -> (r: Timestamp)
    ensures
        r == forward_time(*lnd),
{
    let found = match lnd.timestamp_ns {
        Some(ns) => moment((ns / 1_000_000_000) as i64, (ns % 1_000_000_000) as u32),
        None => moment(lnd.timestamp, 0),
    };
    match found {
        Some(t) => t,
        None => Timestamp { secs: 0, nanos: 0 },
    }
}

/// The channel that a short id stands for, or the short id itself, marked as such.
pub open spec fn forward_channel(scid: u64, resolver: ShortChanResolver) -> Seq<char> {
    match resolver.lookup(scid) {
        Some(id) => id,
        None => "scid:"@ + text::decimal(scid as nat),
    }
}

/// The channel that a short id stands for.
pub fn resolve_forward_channel(scid: u64, resolver: &ShortChanResolver) -> (r: ChannelId)
    ensures
        r.deep_view() == forward_channel(scid, *resolver),
{
    match resolver.resolve(scid) {
        Some(id) => id,
        None => ChannelId::new("scid:".to_owned().concat(text::u64_text(scid).as_str()).as_str()),
    }
}

/// The bit that a named channel status flag stands for.
pub open spec fn flag_bit(name: Seq<char>) -> Option<u64> {
    if name == "ChanStatusDefault"@ {
        Some(0)
    } else if name == "ChanStatusBorked"@ {
        Some(1)
    } else if name == "ChanStatusCommitBroadcasted"@ {
        Some(2)
    } else if name == "ChanStatusLocalDataLoss"@ {
        Some(4)
    } else if name == "ChanStatusRestored"@ {
        Some(8)
    } else if name == "ChanStatusCoopBroadcasted"@ {
        Some(16)
    } else if name == "ChanStatusLocalCloseInitiator"@ {
        Some(32)
    } else if name == "ChanStatusRemoteCloseInitiator"@ {
        Some(64)
    } else {
        None
    }
}

/// The bits that one token of channel status flags stands for: hexadecimal
/// behind `0x`, decimal, or by name.
pub open spec fn token_bits(token: Seq<char>) -> Option<u64> {
    if text::begins_with(token, "0x"@) {
        match text::parsed_u64(token.skip(2), 16) {
            Some(n) => Some(n as u64),
            None => None,
        }
    } else {
        match text::parsed_u64(token, 10) {
            Some(n) => Some(n as u64),
            None => flag_bit(token),
        }
    }
}

/// What the tokens of channel status flags add up to: nothing yet, the bits of
/// those that say something, or something that is not understood.
pub enum FlagBits {
    Silent,
    Bits(u64),
    NotUnderstood,
}

/// The bits of several tokens together. Blank tokens say nothing.
pub open spec fn tokens_bits(tokens: Seq<Seq<char>>) -> FlagBits
    decreases tokens.len(),
{
    if tokens.len() == 0 {
        FlagBits::Silent
    } else {
        let token = text::trimmed(tokens.last());
        match tokens_bits(tokens.drop_last()) {
            FlagBits::NotUnderstood => FlagBits::NotUnderstood,
            FlagBits::Silent => if token.len() == 0 {
                FlagBits::Silent
            } else {
                match token_bits(token) {
                    Some(bits) => FlagBits::Bits(bits),
                    None => FlagBits::NotUnderstood,
                }
            },
            FlagBits::Bits(before) => if token.len() == 0 {
                FlagBits::Bits(before)
            } else {
                match token_bits(token) {
                    Some(bits) => FlagBits::Bits(before | bits),
                    None => FlagBits::NotUnderstood,
                }
            },
        }
    }
}

/// All the channel status bits that are known.
pub const KNOWN_BITS: u64 = 127;

/// The status that a combination of bits stands for. A bit that is not known
/// leaves the status unknown.
pub open spec fn status_of_bits(bits: u64, known: u64) -> ChannelStatus {
    if bits & !known != 0 {
        ChannelStatus::Unknown
    } else if bits == 0 {
        ChannelStatus::Active
    } else if bits & 5 != 0 {
        ChannelStatus::ForceClosing
    } else if bits & 18 != 0 || bits & 96 != 0 {
        ChannelStatus::Closing
    } else if bits & 8 != 0 {
        ChannelStatus::Opening
    } else {
        ChannelStatus::Unknown
    }
}

/// The status that channel status flags, joined by `|`, stand for.
pub open spec fn status_of_flags(flags: Seq<char>) -> ChannelStatus {
    match tokens_bits(text::split_on(flags, '|')) {
        FlagBits::Bits(bits) => status_of_bits(bits, KNOWN_BITS),
        _ => ChannelStatus::Unknown,
    }
}

fn named_flag(name: &str) -> (r: Option<u64>)
    ensures
        r == flag_bit(name@),
{
    if text::same_text(name, "ChanStatusDefault") {
        Some(0)
    } else if text::same_text(name, "ChanStatusBorked") {
        Some(1)
    } else if text::same_text(name, "ChanStatusCommitBroadcasted") {
        Some(2)
    } else if text::same_text(name, "ChanStatusLocalDataLoss") {
        Some(4)
    } else if text::same_text(name, "ChanStatusRestored") {
        Some(8)
    } else if text::same_text(name, "ChanStatusCoopBroadcasted") {
        Some(16)
    } else if text::same_text(name, "ChanStatusLocalCloseInitiator") {
        Some(32)
    } else if text::same_text(name, "ChanStatusRemoteCloseInitiator") {
        Some(64)
    } else {
        None
    }
}

fn parse_token(token: &str) -> (r: Option<u64>)
    ensures
        r == token_bits(token@),
{
    match text::after_prefix(token, "0x") {
        Some(hex) => {
            proof {
                reveal_strlit("0x");
            }
            text::parse_u64(hex.as_str(), 16)
        },
        None => match text::parse_u64(token, 10) {
            Some(n) => Some(n),
            None => named_flag(token),
        },
    }
}

/// The status that channel status flags stand for.
pub fn status_from_lnd_flags(flags: &str) -> (r: ChannelStatus)
    ensures
        r == status_of_flags(flags@),
{
    let tokens = text::split_text(flags, '|');
    let ghost all = tokens.deep_view();
    let mut bits: u64 = 0;
    let mut parsed_any = false;
    let mut i: usize = 0;
    while i < tokens.len()
        invariant
            i <= tokens.len(),
            all == tokens.deep_view(),
            all == text::split_on(flags@, '|'),
            tokens_bits(all.take(i as int)) == (if parsed_any {
                FlagBits::Bits(bits)
            } else {
                FlagBits::Silent
            }),
            !parsed_any ==> bits == 0,
        decreases tokens.len() - i,
    {
        assert(all.take(i + 1).drop_last() =~= all.take(i as int));
        assert(all.take(i + 1).last() == tokens[i as int]@);
        let token = text::trim_text(tokens[i].as_str());
        if !token.as_str().is_empty() {
            match parse_token(token.as_str()) {
                Some(n) => {
                    assert(0u64 | n == n) by (bit_vector);
                    bits = bits | n;
                    parsed_any = true;
                },
                None => {
                    assert(tokens_bits(all.take(i + 1)) == FlagBits::NotUnderstood);
                    proof {
                        lemma_not_understood_stays(all, i + 1);
                    }
                    return ChannelStatus::Unknown;
                },
            }
        }
        i += 1;
    }
    assert(all.take(i as int) =~= all);
    if !parsed_any {
        return ChannelStatus::Unknown;
    }
    classify_status_bits(bits, KNOWN_BITS)
}

proof fn lemma_not_understood_stays(tokens: Seq<Seq<char>>, k: int)
    requires
        0 <= k <= tokens.len(),
        tokens_bits(tokens.take(k)) == FlagBits::NotUnderstood,
    ensures
        tokens_bits(tokens) == FlagBits::NotUnderstood,
    decreases tokens.len() - k,
{
    if k < tokens.len() {
        assert(tokens.take(k + 1).drop_last() =~= tokens.take(k));
        lemma_not_understood_stays(tokens, k + 1);
    } else {
        assert(tokens.take(k) =~= tokens);
    }
}

/// The status that a combination of bits stands for.
pub fn classify_status_bits(bits: u64, known: u64) -> (r: ChannelStatus)
    ensures
        r == status_of_bits(bits, known),
{
    if bits & !known != 0 {
        return ChannelStatus::Unknown;
    }
    if bits == 0 {
        return ChannelStatus::Active;
    }
    if bits & 5 != 0 {
        return ChannelStatus::ForceClosing;
    }
    if bits & 18 != 0 {
        return ChannelStatus::Closing;
    }
    if bits & 96 != 0 {
        return ChannelStatus::Closing;
    }
    if bits & 8 != 0 {
        return ChannelStatus::Opening;
    }
    ChannelStatus::Unknown
}

/// Flags are read as an active channel only if they say so: every token that is
/// not blank is understood and stands for no bit at all.
pub proof fn lemma_only_default_flags_are_active(flags: Seq<char>)
    requires
        status_of_flags(flags) == ChannelStatus::Active,
    ensures
        tokens_bits(text::split_on(flags, '|')) == FlagBits::Bits(0),
{
    match tokens_bits(text::split_on(flags, '|')) {
        FlagBits::Bits(bits) => {
            assert(bits & !127u64 != 0 || bits == 0 || bits & 5u64 != 0 || bits & 18u64 != 0 || bits
                & 96u64 != 0 || bits & 8u64 != 0) by (bit_vector);
        },
        _ => {},
    }
}

/// A flag beyond the known ones leaves the status unknown, whatever else is set.
pub proof fn lemma_unknown_bits_are_never_trusted(bits: u64)
    requires
        bits >= 128,
    ensures
        status_of_bits(bits, KNOWN_BITS) == ChannelStatus::Unknown,
{
    assert(bits >= 128 ==> bits & !127u64 != 0) by (bit_vector);
}

/// A normalized channel counts in thousandths what LND counts in satoshis, and each side
/// can spend what it holds above its own reserve: outbound the local side, inbound the
/// remote one; nothing where the reserve is not known or covers the balance.
pub proof fn lemma_spendable_is_balance_above_reserve(
    c: LndChannelView,
    local_node: Seq<char>,
    seen_at: Timestamp,
)
    requires
        amounts_fit(c),
        channel_refusal(c) is None,
    ensures
        ({
            let n = normalized_channel(c, local_node, seen_at);
            let l = n.liquidity;
            &&& l.local_balance_msat == 1000 * c.local_balance
            &&& l.remote_balance_msat == 1000 * c.remote_balance
            &&& l.outbound_capacity_msat == 1000 * c.local_balance
            &&& l.inbound_capacity_msat == 1000 * c.remote_balance
            &&& c.capacity >= 0 ==> n.capacity_msat == 1000 * c.capacity
            &&& c.capacity < 0 ==> n.capacity_msat == 0
            &&& match c.local_chan_reserve_sat {
                Some(reserve) => if reserve < 0 {
                    n.local_reserve_msat is None && l.spendable_outbound_msat == 0
                } else {
                    &&& n.local_reserve_msat == Some((1000 * reserve) as u64)
                    &&& c.local_balance >= reserve ==> l.spendable_outbound_msat + 1000 * reserve
                        == l.local_balance_msat
                    &&& c.local_balance < reserve ==> l.spendable_outbound_msat == 0
                },
                None => n.local_reserve_msat is None && l.spendable_outbound_msat == 0,
            }
            &&& match c.remote_chan_reserve_sat {
                Some(reserve) => if reserve < 0 {
                    n.remote_reserve_msat is None && l.spendable_inbound_msat == 0
                } else {
                    &&& n.remote_reserve_msat == Some((1000 * reserve) as u64)
                    &&& c.remote_balance >= reserve ==> l.spendable_inbound_msat + 1000 * reserve
                        == l.remote_balance_msat
                    &&& c.remote_balance < reserve ==> l.spendable_inbound_msat == 0
                },
                None => n.remote_reserve_msat is None && l.spendable_inbound_msat == 0,
            }
            &&& l.spendable_outbound_msat <= l.local_balance_msat
            &&& l.spendable_inbound_msat <= l.remote_balance_msat
        }),
{
}

/// A normalized channel joins the local node to LND's remote one and keeps what LND says
/// of it. Its identity is the channel point with every colon written as `x`.
pub proof fn lemma_normalized_channels_keep_what_lnd_says(
    c: LndChannelView,
    local_node: Seq<char>,
    seen_at: Timestamp,
)
    requires
        amounts_fit(c),
        channel_refusal(c) is None,
    ensures
        ({
            let n = normalized_channel(c, local_node, seen_at);
            &&& n.node == local_node
            &&& n.peer == c.remote_pubkey
            &&& n.channel_point == c.channel_point
            &&& n.id.len() == c.channel_point.len()
            &&& forall|i: int|
                0 <= i < n.id.len() ==> #[trigger] n.id[i] == (if c.channel_point[i] == ':' {
                    'x'
                } else {
                    c.channel_point[i]
                })
            &&& n.last_seen == seen_at
            &&& n.is_private == c.private
            &&& n.is_initiator == c.initiator
            &&& n.opening_height is None
            &&& match c.total_satoshis_sent {
                Some(sat) => if sat >= 0 {
                    n.total_sent_msat == Some((1000 * sat) as u64)
                } else {
                    n.total_sent_msat is None
                },
                None => n.total_sent_msat is None,
            }
            &&& match c.total_satoshis_received {
                Some(sat) => if sat >= 0 {
                    n.total_received_msat == Some((1000 * sat) as u64)
                } else {
                    n.total_received_msat is None
                },
                None => n.total_received_msat is None,
            }
            &&& n.fee_policy.base_fee_msat == 0
            &&& n.fee_policy.fee_rate_ppm == 0
        }),
{
}

/// A channel is refused exactly if its point has no colon or a balance is negative.
pub proof fn lemma_what_channels_are_refused(c: LndChannelView)
    ensures
        channel_refusal(c) is None <==> (exists|i: int|
            0 <= i < c.channel_point.len() && #[trigger] c.channel_point[i] == ':')
            && c.local_balance >= 0 && c.remote_balance >= 0,
        (channel_refusal(c) matches Some(NormalizerErrorView::BadChannelPoint(p)) && p
            == c.channel_point) <==> forall|i: int|
            0 <= i < c.channel_point.len() ==> #[trigger] c.channel_point[i] != ':',
{
    if c.channel_point.contains(':') {
        let i = choose|i: int| 0 <= i < c.channel_point.len() && c.channel_point[i] == ':';
        assert(c.channel_point[i] == ':');
    }
}

/// What the known bits of a status mean, told by their place values: data loss or a
/// broken channel comes before any broadcast close, that before a restored channel, and
/// only no bit at all is an active channel.
pub proof fn lemma_status_bits_by_place(bits: u64)
    ensures
        bits > 127 ==> status_of_bits(bits, KNOWN_BITS) == ChannelStatus::Unknown,
        bits == 0 ==> status_of_bits(bits, KNOWN_BITS) == ChannelStatus::Active,
        bits <= 127 && (bits % 2 == 1 || bits / 4 % 2 == 1) ==> status_of_bits(bits, KNOWN_BITS)
            == ChannelStatus::ForceClosing,
        bits <= 127 && !(bits % 2 == 1 || bits / 4 % 2 == 1) && (bits / 2 % 2 == 1 || bits / 16 % 2
            == 1 || bits / 32 % 2 == 1 || bits / 64 % 2 == 1) ==> status_of_bits(bits, KNOWN_BITS)
            == ChannelStatus::Closing,
        bits == 8 ==> status_of_bits(bits, KNOWN_BITS) == ChannelStatus::Opening,
{
    assert(bits & !127u64 != 0 <==> bits > 127) by (bit_vector);
    assert(bits & 5 != 0 <==> (bits % 2 == 1 || bits / 4 % 2 == 1)) by (bit_vector);
    assert(bits & 18 != 0 <==> (bits / 2 % 2 == 1 || bits / 16 % 2 == 1)) by (bit_vector);
    assert(bits & 96 != 0 <==> (bits / 32 % 2 == 1 || bits / 64 % 2 == 1)) by (bit_vector);
    assert(bits == 8 ==> bits & 8 != 0 && bits & 5 == 0 && bits & 18 == 0 && bits & 96 == 0)
        by (bit_vector);
}

/// A forward keeps its amount and fee where they are not negative, and names each of its
/// channels by its own short id: as the channel of that id, or marked as unresolved.
pub proof fn lemma_forwards_keep_what_lnd_says(f: LndForward, resolver: ShortChanResolver)
    ensures
        ({
            let n = normalized_forward(f, resolver);
            &&& f.amt_in_msat >= 0 ==> n.amount_msat == f.amt_in_msat
            &&& f.amt_in_msat < 0 ==> n.amount_msat == 0
            &&& f.fee_msat >= 0 ==> n.fee_msat == f.fee_msat
            &&& f.fee_msat < 0 ==> n.fee_msat == 0
            &&& resolver.lookup(f.chan_id_in) matches Some(id) ==> n.channel_in == id
            &&& resolver.lookup(f.chan_id_in) is None ==> n.channel_in == "scid:"@ + text::decimal(
                f.chan_id_in as nat,
            )
            &&& resolver.lookup(f.chan_id_out) matches Some(id) ==> n.channel_out == id
            &&& resolver.lookup(f.chan_id_out) is None ==> n.channel_out == "scid:"@
                + text::decimal(f.chan_id_out as nat)
            &&& f.timestamp_ns matches Some(ns) ==> n.timestamp.secs * 1_000_000_000
                + n.timestamp.nanos == ns && n.timestamp.nanos < 1_000_000_000 && n.id == "fwd:"@
                + text::decimal(ns as nat)
            &&& f.timestamp_ns is None && -8_334_601_228_800 <= f.timestamp <= 8_210_266_876_799
                ==> n.timestamp.secs == f.timestamp && n.timestamp.nanos == 0
        }),
{
}

/// A short id stands for the first channel of the list that has it, and for none where
/// none has.
pub proof fn lemma_short_ids_stand_for_their_first_channel(
    channels: Seq<LndChannelView>,
    scid: u64,
    k: int,
)
    requires
        0 <= k <= channels.len(),
        forall|j: int| 0 <= j < k ==> (#[trigger] channels[j]).chan_id != Some(scid),
        k < channels.len() ==> channels[k].chan_id == Some(scid),
    ensures
        k == channels.len() ==> first_with_scid(channels, scid) is None,
        k < channels.len() ==> (first_with_scid(channels, scid) matches Some(id) && id
            == channels[k].channel_point.map_values(
            |c: char|
                if c == ':' {
                    'x'
                } else {
                    c
                },
        )),
    decreases channels.len(),
{
    if channels.len() > 0 {
        let front = channels.drop_last();
        assert forall|j: int| 0 <= j < k && j < front.len() implies (
        #[trigger] front[j]).chan_id != Some(scid) by {
            assert(front[j] == channels[j]);
        }
        if k < front.len() {
            assert(front[k] == channels[k]);
            lemma_short_ids_stand_for_their_first_channel(front, scid, k);
        } else {
            lemma_short_ids_stand_for_their_first_channel(front, scid, front.len() as int);
            assert(canonical_id(channels.last().channel_point)
                =~= channels.last().channel_point.map_values(
                |c: char|
                    if c == ':' {
                        'x'
                    } else {
                        c
                    },
            ));
        }
    }
}

/// Each named flag has a bit of its own, the default has none, and no other name
/// is one of a flag.
pub proof fn lemma_flags_have_their_bit(name: Seq<char>)
    ensures
        name == "ChanStatusDefault"@ ==> flag_bit(name) == Some(0u64),
        name == "ChanStatusBorked"@ ==> flag_bit(name) == Some(1u64),
        name == "ChanStatusCommitBroadcasted"@ ==> flag_bit(name) == Some(2u64),
        name == "ChanStatusLocalDataLoss"@ ==> flag_bit(name) == Some(4u64),
        name == "ChanStatusRestored"@ ==> flag_bit(name) == Some(8u64),
        name == "ChanStatusCoopBroadcasted"@ ==> flag_bit(name) == Some(16u64),
        name == "ChanStatusLocalCloseInitiator"@ ==> flag_bit(name) == Some(32u64),
        name == "ChanStatusRemoteCloseInitiator"@ ==> flag_bit(name) == Some(64u64),
        flag_bit(name) is Some ==> {
            ||| name == "ChanStatusDefault"@
            ||| name == "ChanStatusBorked"@
            ||| name == "ChanStatusCommitBroadcasted"@
            ||| name == "ChanStatusLocalDataLoss"@
            ||| name == "ChanStatusRestored"@
            ||| name == "ChanStatusCoopBroadcasted"@
            ||| name == "ChanStatusLocalCloseInitiator"@
            ||| name == "ChanStatusRemoteCloseInitiator"@
        },
{
    reveal_strlit("ChanStatusDefault");
    reveal_strlit("ChanStatusBorked");
    reveal_strlit("ChanStatusCommitBroadcasted");
    reveal_strlit("ChanStatusLocalDataLoss");
    reveal_strlit("ChanStatusRestored");
    reveal_strlit("ChanStatusCoopBroadcasted");
    reveal_strlit("ChanStatusLocalCloseInitiator");
    reveal_strlit("ChanStatusRemoteCloseInitiator");
    assert("ChanStatusDefault"@.len() == 17 && "ChanStatusBorked"@.len() == 16);
    assert("ChanStatusCommitBroadcasted"@.len() == 27 && "ChanStatusLocalDataLoss"@.len() == 23);
    assert("ChanStatusRestored"@.len() == 18 && "ChanStatusCoopBroadcasted"@.len() == 25);
    assert("ChanStatusLocalCloseInitiator"@.len() == 29);
    assert("ChanStatusRemoteCloseInitiator"@.len() == 30);
}

/// Tokens add up one by one: a blank one says nothing, one that is understood
/// adds its bits to those before it, and one that is not spoils all.
pub proof fn lemma_tokens_add_up(tokens: Seq<Seq<char>>, token: Seq<char>)
    ensures
        tokens_bits(seq![]) is Silent,
        ({
            let before = tokens_bits(tokens);
            let after = tokens_bits(tokens.push(token));
            let bits = token_bits(text::trimmed(token));
            let blank = text::trimmed(token).len() == 0;
            &&& before is NotUnderstood ==> after is NotUnderstood
            &&& !(before is NotUnderstood) && blank ==> after == before
            &&& !(before is NotUnderstood) && !blank && bits is None ==> after is NotUnderstood
            &&& before is Silent && !blank && bits is Some ==> after == FlagBits::Bits(bits->0)
            &&& before is Bits && !blank && bits is Some ==> after == FlagBits::Bits(
                before->0 | bits->0,
            )
        }),
{
    assert(tokens.push(token).drop_last() =~= tokens);
}

/// A decimal number among the flags stands for itself.
pub proof fn lemma_numbers_are_their_bits(n: u64)
    ensures
        token_bits(text::decimal(n as nat)) == Some(n),
{
    let s = text::decimal(n as nat);
    text::lemma_decimal_reads_back(n as nat);
    text::lemma_decimal_has_digits_only(n as nat);
    assert(text::digit_value(s[0], 10) is Some);
    reveal_strlit("0x");
    if text::begins_with(s, "0x"@) {
        assert(s.take(2)[1] == "0x"@[1]);
        assert(text::digit_value(s[1], 10) is Some);
    }
}

/// An amount of satoshis has room in millisatoshis exactly if a thousand times as
/// many do; what is below nought always has.
pub proof fn lemma_which_amounts_have_room(sat: i64)
    ensures
        msat_fits(sat) <==> sat <= 18_446_744_073_709_551,
{
}

} // verus!
