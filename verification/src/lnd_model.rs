//! The LND REST wire types, and how their 64-bit fields are read.
use crate::json::{Json, JsonView};
use crate::text;
use crate::text::copy_optional_text;
use vstd::prelude::*;

verus! {

/// A channel as LND lists it. Amounts are in satoshis.
#[derive(Debug, PartialEq)]
pub struct LndChannel {
    pub channel_point: String,
    pub remote_pubkey: String,
    pub capacity: i64,
    pub local_balance: i64,
    pub remote_balance: i64,
    pub commit_fee: i64,
    pub chan_status_flags: String,
    /// The short channel id.
    pub chan_id: Option<u64>,
    pub local_chan_reserve_sat: Option<i64>,
    pub remote_chan_reserve_sat: Option<i64>,
    pub private: bool,
    pub initiator: bool,
    pub total_satoshis_sent: Option<i64>,
    pub total_satoshis_received: Option<i64>,
}

/// The mathematical value of a [`LndChannel`].
pub struct LndChannelView {
    pub channel_point: Seq<char>,
    pub remote_pubkey: Seq<char>,
    pub capacity: i64,
    pub local_balance: i64,
    pub remote_balance: i64,
    pub commit_fee: i64,
    pub chan_status_flags: Seq<char>,
    pub chan_id: Option<u64>,
    pub local_chan_reserve_sat: Option<i64>,
    pub remote_chan_reserve_sat: Option<i64>,
    pub private: bool,
    pub initiator: bool,
    pub total_satoshis_sent: Option<i64>,
    pub total_satoshis_received: Option<i64>,
}

impl DeepView for LndChannel {
    type V = LndChannelView;

    open spec fn deep_view(&self) -> LndChannelView {
        LndChannelView {
            channel_point: self.channel_point.deep_view(),
            remote_pubkey: self.remote_pubkey.deep_view(),
            capacity: self.capacity,
            local_balance: self.local_balance,
            remote_balance: self.remote_balance,
            commit_fee: self.commit_fee,
            chan_status_flags: self.chan_status_flags.deep_view(),
            chan_id: self.chan_id,
            local_chan_reserve_sat: self.local_chan_reserve_sat,
            remote_chan_reserve_sat: self.remote_chan_reserve_sat,
            private: self.private,
            initiator: self.initiator,
            total_satoshis_sent: self.total_satoshis_sent,
            total_satoshis_received: self.total_satoshis_received,
        }
    }
}

impl Clone for LndChannel {
    fn clone(&self) -> (r: Self)
        ensures
            r.deep_view() == self.deep_view(),
    {
        LndChannel {
            channel_point: self.channel_point.clone(),
            remote_pubkey: self.remote_pubkey.clone(),
            capacity: self.capacity,
            local_balance: self.local_balance,
            remote_balance: self.remote_balance,
            commit_fee: self.commit_fee,
            chan_status_flags: self.chan_status_flags.clone(),
            chan_id: self.chan_id,
            local_chan_reserve_sat: self.local_chan_reserve_sat,
            remote_chan_reserve_sat: self.remote_chan_reserve_sat,
            private: self.private,
            initiator: self.initiator,
            total_satoshis_sent: self.total_satoshis_sent,
            total_satoshis_received: self.total_satoshis_received,
        }
    }
}

/// The answer to a request for the channels.
#[derive(Debug, PartialEq)]
pub struct LndChannelResponse {
    pub channels: Vec<LndChannel>,
}

/// The mathematical value of a [`LndChannelResponse`].
pub struct LndChannelResponseView {
    pub channels: Seq<LndChannelView>,
}

impl DeepView for LndChannelResponse {
    type V = LndChannelResponseView;

    open spec fn deep_view(&self) -> LndChannelResponseView {
        LndChannelResponseView {
            channels: self.channels.deep_view(),
        }
    }
}

impl Clone for LndChannelResponse {
    fn clone(&self) -> (r: Self)
        ensures
            r.deep_view() == self.deep_view(),
    {
        let channels = self.channels.clone();
        assert(channels.deep_view() =~= self.channels.deep_view());
        LndChannelResponse {
            channels,
        }
    }
}

/// A forwarded payment as LND lists it.
#[derive(Debug, Clone, Copy, PartialEq, Eq, Structural)]
pub struct LndForward {
    pub chan_id_in: u64,
    pub chan_id_out: u64,
    pub amt_in_msat: i64,
    pub amt_out_msat: i64,
    pub fee_msat: i64,
    /// Seconds since the Unix epoch.
    pub timestamp: i64,
    /// Nanoseconds since the Unix epoch, where the node reports them.
    pub timestamp_ns: Option<u64>,
}

impl DeepView for LndForward {
    type V = LndForward;

    open spec fn deep_view(&self) -> LndForward {
        *self
    }
}

/// The answer to a request for the forwarding history.
#[derive(Debug, PartialEq)]
pub struct LndForwardResponse {
    pub forwarding_events: Vec<LndForward>,
}

/// The mathematical value of a [`LndForwardResponse`].
pub struct LndForwardResponseView {
    pub forwarding_events: Seq<LndForward>,
}

impl DeepView for LndForwardResponse {
    type V = LndForwardResponseView;

    open spec fn deep_view(&self) -> LndForwardResponseView {
        LndForwardResponseView {
            forwarding_events: self.forwarding_events.deep_view(),
        }
    }
}

impl Clone for LndForwardResponse {
    fn clone(&self) -> (r: Self)
        ensures
            r.deep_view() == self.deep_view(),
    {
        let forwarding_events = self.forwarding_events.clone();
        assert(forwarding_events.deep_view() =~= self.forwarding_events.deep_view());
        LndForwardResponse {
            forwarding_events,
        }
    }
}

/// A chain that a node follows.
#[derive(Debug, PartialEq)]
pub struct LndChainInfo {
    pub chain: String,
    pub network: String,
}

/// The mathematical value of a [`LndChainInfo`].
pub struct LndChainInfoView {
    pub chain: Seq<char>,
    pub network: Seq<char>,
}

impl DeepView for LndChainInfo {
    type V = LndChainInfoView;

    open spec fn deep_view(&self) -> LndChainInfoView {
        LndChainInfoView {
            chain: self.chain.deep_view(),
            network: self.network.deep_view(),
        }
    }
}

impl Clone for LndChainInfo {
    fn clone(&self) -> (r: Self)
        ensures
            r.deep_view() == self.deep_view(),
    {
        LndChainInfo {
            chain: self.chain.clone(),
            network: self.network.clone(),
        }
    }
}

/// What a node says of itself.
#[derive(Debug, PartialEq)]
pub struct LndGetInfoResponse {
    pub identity_pubkey: String,
    pub alias: Option<String>,
    pub version: Option<String>,
    pub chains: Vec<LndChainInfo>,
    pub synced_to_chain: bool,
    pub num_active_channels: u32,
    pub num_inactive_channels: u32,
}

/// The mathematical value of a [`LndGetInfoResponse`].
pub struct LndGetInfoResponseView {
    pub identity_pubkey: Seq<char>,
    pub alias: Option<Seq<char>>,
    pub version: Option<Seq<char>>,
    pub chains: Seq<LndChainInfoView>,
    pub synced_to_chain: bool,
    pub num_active_channels: u32,
    pub num_inactive_channels: u32,
}

impl DeepView for LndGetInfoResponse {
    type V = LndGetInfoResponseView;

    open spec fn deep_view(&self) -> LndGetInfoResponseView {
        LndGetInfoResponseView {
            identity_pubkey: self.identity_pubkey.deep_view(),
            alias: self.alias.deep_view(),
            version: self.version.deep_view(),
            chains: self.chains.deep_view(),
            synced_to_chain: self.synced_to_chain,
            num_active_channels: self.num_active_channels,
            num_inactive_channels: self.num_inactive_channels,
        }
    }
}

impl Clone for LndGetInfoResponse {
    fn clone(&self) -> (r: Self)
        ensures
            r.deep_view() == self.deep_view(),
    {
        let chains = self.chains.clone();
        assert(chains.deep_view() =~= self.chains.deep_view());
        LndGetInfoResponse {
            identity_pubkey: self.identity_pubkey.clone(),
            alias: copy_optional_text(&self.alias),
            version: copy_optional_text(&self.version),
            chains,
            synced_to_chain: self.synced_to_chain,
            num_active_channels: self.num_active_channels,
            num_inactive_channels: self.num_inactive_channels,
        }
    }
}

impl LndGetInfoResponse {
    /// The network of the first chain that the node follows.
    pub fn network(&self) -> (r: Option<&str>)
        ensures
            r.deep_view() == (if self.deep_view().chains.len() > 0 {
                Some(self.deep_view().chains[0].network)
            } else {
                None
            }),
    {
        if self.chains.len() > 0 {
            Some(self.chains[0].network.as_str())
        } else {
            None
        }
    }
}

/// Why a field of 64 bits cannot be read.
#[derive(Debug, Clone, Copy, PartialEq, Eq, Structural)]
pub enum WireError {
    /// A number that the field has no room for.
    OutOfRange,
    /// A string that is not such a number.
    NotANumber,
    /// Neither a number nor a string.
    WrongType,
}

/// What an unsigned field of 64 bits holds, as a number or in a string.
pub open spec fn unsigned_field(v: JsonView) -> Result<u64, WireError> {
    match v {
        JsonView::Unsigned(n) => Ok(n),
        JsonView::Negative(_) => Err(WireError::OutOfRange),
        JsonView::Real { bits, text } => Err(WireError::OutOfRange),
        JsonView::Text(s) => match text::parsed_u64(s, 10) {
            Some(n) => Ok(n as u64),
            None => Err(WireError::NotANumber),
        },
        _ => Err(WireError::WrongType),
    }
}

/// What a signed field of 64 bits holds, as a number or in a string.
pub open spec fn signed_field(v: JsonView) -> Result<i64, WireError> {
    match v {
        JsonView::Unsigned(n) => if n <= i64::MAX {
            Ok(n as i64)
        } else {
            Err(WireError::OutOfRange)
        },
        JsonView::Negative(n) => Ok(n),
        JsonView::Real { bits, text } => Err(WireError::OutOfRange),
        JsonView::Text(s) => match text::parsed_i64(s) {
            Some(n) => Ok(n as i64),
            None => Err(WireError::NotANumber),
        },
        _ => Err(WireError::WrongType),
    }
}

/// Reads an unsigned field of 64 bits, which comes as a number or in a string.
pub fn de_u64(v: &Json) -> (r: Result<u64, WireError>)
    ensures
        r == unsigned_field(v.deep_view()),
{
    match v {
        Json::Unsigned(n) => Ok(*n),
        Json::Negative(_) => Err(WireError::OutOfRange),
        Json::Real { bits: _, text: _ } => Err(WireError::OutOfRange),
        Json::Text(s) => match text::parse_u64(s.as_str(), 10) {
            Some(n) => Ok(n),
            None => Err(WireError::NotANumber),
        },
        _ => Err(WireError::WrongType),
    }
}

/// Reads an unsigned field of 64 bits that may be null.
pub fn de_opt_u64(v: &Json) -> (r: Result<Option<u64>, WireError>)
    ensures
        r == (if v.deep_view() is Null {
            Ok::<Option<u64>, WireError>(None)
        } else {
            match unsigned_field(v.deep_view()) {
                Ok(n) => Ok(Some(n)),
                Err(e) => Err(e),
            }
        }),
{
    match v {
        Json::Null => Ok(None),
        other => match de_u64(other) {
            Ok(n) => Ok(Some(n)),
            Err(e) => Err(e),
        },
    }
}

/// Reads a signed field of 64 bits, which comes as a number or in a string.
pub fn de_i64(v: &Json) -> (r: Result<i64, WireError>)
    ensures
        r == signed_field(v.deep_view()),
{
    match v {
        Json::Unsigned(n) => if *n <= 0x7fff_ffff_ffff_ffff {
            Ok(*n as i64)
        } else {
            Err(WireError::OutOfRange)
        },
        Json::Negative(n) => Ok(*n),
        Json::Real { bits: _, text: _ } => Err(WireError::OutOfRange),
        Json::Text(s) => match text::parse_i64(s.as_str()) {
            Some(n) => Ok(n),
            None => Err(WireError::NotANumber),
        },
        _ => Err(WireError::WrongType),
    }
}

/// Reads a signed field of 64 bits that may be null.
pub fn de_opt_i64(v: &Json) -> (r: Result<Option<i64>, WireError>)
    ensures
        r == (if v.deep_view() is Null {
            Ok::<Option<i64>, WireError>(None)
        } else {
            match signed_field(v.deep_view()) {
                Ok(n) => Ok(Some(n)),
                Err(e) => Err(e),
            }
        }),
{
    match v {
        Json::Null => Ok(None),
        other => match de_i64(other) {
            Ok(n) => Ok(Some(n)),
            Err(e) => Err(e),
        },
    }
}

/// A number that is written as a string is read like the number itself.
pub proof fn lemma_string_fields_read_like_numbers(n: u64)
    ensures
        unsigned_field(JsonView::Text(text::decimal(n as nat))) == unsigned_field(
            JsonView::Unsigned(n),
        ),
{
    text::lemma_decimal_reads_back(n as nat);
    text::lemma_decimal_has_digits_only(n as nat);
    assert(text::digit_value(text::decimal(n as nat)[0], 10) is Some);
}

/// A number is read as it stands where the field has room for it, with its sign
/// in a signed field; no number below nought is unsigned.
pub proof fn lemma_numbers_are_read_as_they_stand(n: u64, m: i64)
    ensures
        unsigned_field(JsonView::Unsigned(n)) == Ok::<u64, WireError>(n),
        unsigned_field(JsonView::Negative(m)) == Err::<u64, WireError>(WireError::OutOfRange),
        signed_field(JsonView::Unsigned(n)) is Ok <==> n < 0x8000_0000_0000_0000,
        signed_field(JsonView::Unsigned(n)) is Ok ==> signed_field(JsonView::Unsigned(n))->Ok_0
            == n,
        signed_field(JsonView::Unsigned(n)) is Err ==> signed_field(JsonView::Unsigned(n))->Err_0
            == WireError::OutOfRange,
        signed_field(JsonView::Negative(m)) == Ok::<i64, WireError>(m),
{
}

/// What is neither a number nor a string cannot be read, and a string is read
/// exactly if it is a number with room in the field.
pub proof fn lemma_what_cannot_be_read(v: JsonView)
    ensures
        unsigned_field(v) is Err && unsigned_field(v)->Err_0 == WireError::WrongType <==> !(v
            is Unsigned || v is Negative || v is Real || v is Text),
        signed_field(v) is Err && signed_field(v)->Err_0 == WireError::WrongType <==> !(v
            is Unsigned || v is Negative || v is Real || v is Text),
        v is Text && unsigned_field(v) is Err ==> unsigned_field(v)->Err_0
            == WireError::NotANumber,
        v is Text && signed_field(v) is Err ==> signed_field(v)->Err_0 == WireError::NotANumber,
        v is Text ==> (unsigned_field(v) is Ok <==> text::parsed_u64(v->Text_0, 10) is Some),
        v is Text ==> (signed_field(v) is Ok <==> text::parsed_i64(v->Text_0) is Some),
{
}

/// A signed number in a string is read like the number itself.
pub proof fn lemma_signed_strings_read_like_numbers(n: i64)
    ensures
        signed_field(JsonView::Text(text::signed_decimal(n as int))) == Ok::<i64, WireError>(n),
{
    let digits = text::decimal((if n < 0 {
        -n
    } else {
        n as int
    }) as nat);
    text::lemma_decimal_reads_back((if n < 0 {
        -n
    } else {
        n as int
    }) as nat);
    text::lemma_decimal_has_digits_only((if n < 0 {
        -n
    } else {
        n as int
    }) as nat);
    assert(text::digit_value(digits[0], 10) is Some);
    if n < 0 {
        assert((seq!['-'] + digits).skip(1) =~= digits);
    }
}

} // verus!
