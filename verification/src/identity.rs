//! Stable identities: digests over what makes a finding, an action or a channel
//! state what it is, and over nothing that changes when it is seen again.
use crate::action::ActionType;
use crate::domain::{
    BitcoinNetwork, Channel, ChannelSnapshot, ChannelSnapshotView, ChannelStatus, ChannelView,
    LiquidityImbalance,
};
use crate::finding::{Evidence, EvidenceView};
use crate::json::{Json, JsonView};
use crate::text;
use vstd::prelude::*;
use vstd::utf8::*;

verus! {

/// The SHA-256 digest of `data`.
pub uninterp spec fn sha256_of(data: Seq<u8>) -> Seq<u8>;

/// `sha2::Sha256::digest`: the 32 bytes of the SHA-256 digest of `data`.
#[verifier::external_body]
pub(crate) fn sha256(data: &[u8]) -> (r: Vec<u8>)
    ensures
        r@ == sha256_of(data@),
        r@.len() == 32,
{
    <sha2::Sha256 as sha2::Digest>::digest(data).to_vec()
}

/// The bytes of `n`, the most significant first.
#[verifier::opaque]
pub open spec fn big_endian_8(n: u64) -> Seq<u8> {
    seq![
        (n as int / 0x100_0000_0000_0000 % 256) as u8,
        (n as int / 0x1_0000_0000_0000 % 256) as u8,
        (n as int / 0x100_0000_0000 % 256) as u8,
        (n as int / 0x1_0000_0000 % 256) as u8,
        (n as int / 0x100_0000 % 256) as u8,
        (n as int / 0x1_0000 % 256) as u8,
        (n as int / 0x100 % 256) as u8,
        (n as int % 256) as u8,
    ]
}

/// The bytes of `n`, the most significant first.
#[verifier::opaque]
pub open spec fn big_endian_4(n: u32) -> Seq<u8> {
    seq![
        (n as int / 0x100_0000 % 256) as u8,
        (n as int / 0x1_0000 % 256) as u8,
        (n as int / 0x100 % 256) as u8,
        (n as int % 256) as u8,
    ]
}

/// A field of an encoding: its length in eight bytes, then the bytes.
#[verifier::opaque]
pub open spec fn field(bytes: Seq<u8>) -> Seq<u8> {
    big_endian_8(bytes.len() as u64) + bytes
}

/// A field that may be absent: a one and the field, or a zero.
#[verifier::opaque]
pub open spec fn optional_field(bytes: Option<Seq<u8>>) -> Seq<u8> {
    match bytes {
        Some(b) => seq![1u8] + field(b),
        None => seq![0u8],
    }
}

/// One part of an encoding.
pub enum Part {
    Field(Seq<u8>),
    Optional(Option<Seq<u8>>),
}

/// The bytes of one part.
pub open spec fn part_bytes(part: Part) -> Seq<u8> {
    match part {
        Part::Field(bytes) => field(bytes),
        Part::Optional(bytes) => optional_field(bytes),
    }
}

/// The bytes of several parts, one after the other.
pub open spec fn encoded(parts: Seq<Part>) -> Seq<u8>
    decreases parts.len(),
{
    if parts.len() == 0 {
        seq![]
    } else {
        part_bytes(parts[0]) + encoded(parts.skip(1))
    }
}

/// The bytes of a string.
#[verifier::opaque]
pub open spec fn text_bytes(s: Seq<char>) -> Seq<u8> {
    encode_utf8(s)
}

/// The bytes of an optional string.
pub open spec fn optional_text_bytes(s: Option<Seq<char>>) -> Option<Seq<u8>> {
    match s {
        Some(t) => Some(text_bytes(t)),
        None => None,
    }
}

/// The bytes of the name of an optional network.
pub open spec fn network_bytes(network: Option<BitcoinNetwork>) -> Option<Seq<u8>> {
    match network {
        Some(n) => Some(text_bytes(n.name())),
        None => None,
    }
}

/// The bytes of an optional number.
pub open spec fn optional_u64_bytes(n: Option<u64>) -> Option<Seq<u8>> {
    match n {
        Some(v) => Some(big_endian_8(v)),
        None => None,
    }
}

/// The bytes of an optional number.
pub open spec fn optional_u32_bytes(n: Option<u32>) -> Option<Seq<u8>> {
    match n {
        Some(v) => Some(big_endian_4(v)),
        None => None,
    }
}

/// The number that stands for a channel status in an encoding.
pub open spec fn status_code(status: ChannelStatus) -> u8 {
    match status {
        ChannelStatus::Opening => 0,
        ChannelStatus::Active => 1,
        ChannelStatus::Inactive => 2,
        ChannelStatus::Closing => 3,
        ChannelStatus::Closed => 4,
        ChannelStatus::PendingOpen => 5,
        ChannelStatus::WaitingClose => 6,
        ChannelStatus::ForceClosing => 7,
        ChannelStatus::Unknown => 8,
    }
}

/// The number that stands for an imbalance in an encoding.
pub open spec fn imbalance_code(imbalance: LiquidityImbalance) -> u8 {
    match imbalance {
        LiquidityImbalance::Balanced => 0,
        LiquidityImbalance::OutboundDrained => 1,
        LiquidityImbalance::InboundDrained => 2,
        LiquidityImbalance::SeverelyDrained => 3,
        LiquidityImbalance::Unknown => 4,
    }
}

/// The byte that stands for a flag in an encoding.
pub open spec fn flag_byte(b: bool) -> u8 {
    if b {
        1
    } else {
        0
    }
}

/// The number that stands for a channel status in an encoding.
pub fn status_tag(status: ChannelStatus) -> (r: u8)
    ensures
        r == status_code(status),
{
    match status {
        ChannelStatus::Opening => 0,
        ChannelStatus::Active => 1,
        ChannelStatus::Inactive => 2,
        ChannelStatus::Closing => 3,
        ChannelStatus::Closed => 4,
        ChannelStatus::PendingOpen => 5,
        ChannelStatus::WaitingClose => 6,
        ChannelStatus::ForceClosing => 7,
        ChannelStatus::Unknown => 8,
    }
}

/// The number that stands for an imbalance in an encoding.
pub fn imbalance_tag(imbalance: LiquidityImbalance) -> (r: u8)
    ensures
        r == imbalance_code(imbalance),
{
    match imbalance {
        LiquidityImbalance::Balanced => 0,
        LiquidityImbalance::OutboundDrained => 1,
        LiquidityImbalance::InboundDrained => 2,
        LiquidityImbalance::SeverelyDrained => 3,
        LiquidityImbalance::Unknown => 4,
    }
}

fn push_u64(out: &mut Vec<u8>, n: u64)
    ensures
        final(out)@ == old(out)@ + big_endian_8(n),
{
    proof {
        reveal(big_endian_8);
    }
    out.push((n / 0x100_0000_0000_0000 % 256) as u8);
    out.push((n / 0x1_0000_0000_0000 % 256) as u8);
    out.push((n / 0x100_0000_0000 % 256) as u8);
    out.push((n / 0x1_0000_0000 % 256) as u8);
    out.push((n / 0x100_0000 % 256) as u8);
    out.push((n / 0x1_0000 % 256) as u8);
    out.push((n / 0x100 % 256) as u8);
    out.push((n % 256) as u8);
    assert(out@ =~= old(out)@ + big_endian_8(n));
}

/// Appends `bytes` to `out`.
pub(crate) fn push_bytes(out: &mut Vec<u8>, bytes: &[u8])
    ensures
        final(out)@ == old(out)@ + bytes@,
{
    let mut i: usize = 0;
    while i < bytes.len()
        invariant
            i <= bytes.len(),
            out@ == old(out)@ + bytes@.take(i as int),
        decreases bytes.len() - i,
    {
        out.push(bytes[i]);
        assert(bytes@.take(i + 1) =~= bytes@.take(i as int).push(bytes@[i as int]));
        i += 1;
    }
    assert(bytes@.take(i as int) =~= bytes@);
}

/// Appends eight bytes that hold a length, then `bytes`.
pub(crate) fn push_field(out: &mut Vec<u8>, bytes: &[u8])
    ensures
        final(out)@ == old(out)@ + field(bytes@),
{
    proof {
        reveal(field);
    }
    push_u64(out, bytes.len() as u64);
    push_bytes(out, bytes);
    assert(out@ =~= old(out)@ + field(bytes@));
}

/// Bytes in the making, with the parts they encode.
struct Encoder {
    bytes: Vec<u8>,
    parts: Ghost<Seq<Part>>,
}

proof fn lemma_encoded_push(parts: Seq<Part>, part: Part)
    ensures
        encoded(parts.push(part)) == encoded(parts) + part_bytes(part),
    decreases parts.len(),
{
    if parts.len() == 0 {
        assert(parts.push(part).skip(1) =~= Seq::<Part>::empty());
        assert(encoded(Seq::<Part>::empty()) =~= seq![]);
        assert(encoded(parts) =~= seq![]);
        assert(encoded(parts.push(part)) =~= encoded(parts) + part_bytes(part));
    } else {
        lemma_encoded_push(parts.skip(1), part);
        assert(parts.push(part).skip(1) =~= parts.skip(1).push(part));
        assert(encoded(parts.push(part)) == part_bytes(parts[0]) + encoded(
            parts.skip(1).push(part),
        ));
        assert(encoded(parts.push(part)) =~= encoded(parts) + part_bytes(part));
    }
}

impl Encoder {
    spec fn wf(self) -> bool {
        self.bytes@ == encoded(self.parts@)
    }

    fn new(label: &str) -> (r: Encoder)
        ensures
            r.wf(),
            r.parts@ == seq![Part::Field(text_bytes(label@))],
    {
        let mut r = Encoder { bytes: Vec::new(), parts: Ghost(Seq::empty()) };
        r.text(label);
        assert(r.parts@ =~= seq![Part::Field(text_bytes(label@))]);
        r
    }

    fn bytes_field(&mut self, bytes: &[u8])
        requires
            old(self).wf(),
        ensures
            final(self).wf(),
            final(self).parts@ == old(self).parts@.push(Part::Field(bytes@)),
    {
        push_field(&mut self.bytes, bytes);
        proof {
            lemma_encoded_push(self.parts@, Part::Field(bytes@));
            self.parts@ = self.parts@.push(Part::Field(bytes@));
        }
    }

    fn absent(&mut self)
        requires
            old(self).wf(),
        ensures
            final(self).wf(),
            final(self).parts@ == old(self).parts@.push(Part::Optional(None)),
    {
        proof {
            reveal(optional_field);
        }
        self.bytes.push(0);
        proof {
            lemma_encoded_push(self.parts@, Part::Optional(None));
            assert(self.bytes@ =~= old(self).bytes@ + optional_field(None));
            self.parts@ = self.parts@.push(Part::Optional(None));
        }
    }

    fn present(&mut self, bytes: &[u8])
        requires
            old(self).wf(),
        ensures
            final(self).wf(),
            final(self).parts@ == old(self).parts@.push(Part::Optional(Some(bytes@))),
    {
        proof {
            reveal(optional_field);
        }
        self.bytes.push(1);
        push_field(&mut self.bytes, bytes);
        proof {
            lemma_encoded_push(self.parts@, Part::Optional(Some(bytes@)));
            assert(self.bytes@ =~= old(self).bytes@ + optional_field(Some(bytes@)));
            self.parts@ = self.parts@.push(Part::Optional(Some(bytes@)));
        }
    }

    fn text(&mut self, s: &str)
        requires
            old(self).wf(),
        ensures
            final(self).wf(),
            final(self).parts@ == old(self).parts@.push(Part::Field(text_bytes(s@))),
    {
        proof {
            reveal(text_bytes);
        }
        self.bytes_field(s.as_bytes());
    }

    fn optional_text(&mut self, s: Option<&str>)
        requires
            old(self).wf(),
        ensures
            final(self).wf(),
            final(self).parts@ == old(self).parts@.push(
                Part::Optional(optional_text_bytes(s.deep_view())),
            ),
    {
        proof {
            reveal(text_bytes);
        }
        match s {
            Some(t) => self.present(t.as_bytes()),
            None => self.absent(),
        }
    }

    fn network(&mut self, network: Option<BitcoinNetwork>)
        requires
            old(self).wf(),
        ensures
            final(self).wf(),
            final(self).parts@ == old(self).parts@.push(Part::Optional(network_bytes(network))),
    {
        proof {
            reveal(text_bytes);
        }
        match network {
            Some(n) => self.present(n.as_str().as_bytes()),
            None => self.absent(),
        }
    }

    fn number(&mut self, n: u64)
        requires
            old(self).wf(),
        ensures
            final(self).wf(),
            final(self).parts@ == old(self).parts@.push(Part::Field(big_endian_8(n))),
    {
        self.bytes_field(u64_bytes(n).as_slice());
    }

    fn optional_number(&mut self, n: Option<u64>)
        requires
            old(self).wf(),
        ensures
            final(self).wf(),
            final(self).parts@ == old(self).parts@.push(Part::Optional(optional_u64_bytes(n))),
    {
        match n {
            Some(v) => self.present(u64_bytes(v).as_slice()),
            None => self.absent(),
        }
    }

    fn small_number(&mut self, n: u32)
        requires
            old(self).wf(),
        ensures
            final(self).wf(),
            final(self).parts@ == old(self).parts@.push(Part::Field(big_endian_4(n))),
    {
        self.bytes_field(u32_bytes(n).as_slice());
    }

    fn optional_small_number(&mut self, n: Option<u32>)
        requires
            old(self).wf(),
        ensures
            final(self).wf(),
            final(self).parts@ == old(self).parts@.push(Part::Optional(optional_u32_bytes(n))),
    {
        match n {
            Some(v) => self.present(u32_bytes(v).as_slice()),
            None => self.absent(),
        }
    }

    fn byte(&mut self, b: u8)
        requires
            old(self).wf(),
        ensures
            final(self).wf(),
            final(self).parts@ == old(self).parts@.push(Part::Field(seq![b])),
    {
        let mut one: Vec<u8> = Vec::new();
        one.push(b);
        assert(one@ =~= seq![b]);
        self.bytes_field(one.as_slice());
    }
}

fn u64_bytes(n: u64) -> (r: Vec<u8>)
    ensures
        r@ == big_endian_8(n),
{
    let mut out: Vec<u8> = Vec::new();
    push_u64(&mut out, n);
    assert(out@ =~= big_endian_8(n));
    out
}

fn u32_bytes(n: u32) -> (r: Vec<u8>)
    ensures
        r@ == big_endian_4(n),
{
    proof {
        reveal(big_endian_4);
    }
    let mut out: Vec<u8> = Vec::new();
    out.push((n / 0x100_0000 % 256) as u8);
    out.push((n / 0x1_0000 % 256) as u8);
    out.push((n / 0x100 % 256) as u8);
    out.push((n % 256) as u8);
    assert(out@ =~= big_endian_4(n));
    out
}

/// The digest of `bytes` in lower-case hexadecimal.
pub open spec fn digest_text(bytes: Seq<u8>) -> Seq<char> {
    text::hex_text(sha256_of(bytes))
}

/// Whether a text has the form of a digest: 64 lower-case hexadecimal digits.
pub open spec fn is_digest(s: Seq<char>) -> bool {
    s.len() == 64 && forall|i: int| 0 <= i < 64 ==> text::is_hex_digit(#[trigger] s[i])
}

/// The digest of `bytes` in lower-case hexadecimal.
pub fn digest(bytes: &Vec<u8>) -> (r: String)
    ensures
        r@ == digest_text(bytes@),
        is_digest(r@),
{
    let hash = sha256(bytes.as_slice());
    proof {
        text::lemma_hex_text_form(hash@);
    }
    text::lower_hex(&hash)
}

/// Whether the digest tells two encodings apart, if they differ.
pub open spec fn no_collision(a: Seq<u8>, b: Seq<u8>) -> bool {
    sha256_of(a) == sha256_of(b) ==> a == b
}

pub(crate) proof fn lemma_digest_distinguishes(a: Seq<u8>, b: Seq<u8>)
    requires
        no_collision(a, b),
    ensures
        digest_text(a) == digest_text(b) <==> a == b,
{
    if digest_text(a) == digest_text(b) {
        text::lemma_hex_text_injective(sha256_of(a), sha256_of(b));
    }
}

/// What a finding's identity is the digest of.
pub open spec fn finding_parts(
    detector: Seq<char>,
    detector_version: Seq<char>,
    network: Option<BitcoinNetwork>,
    node: Option<Seq<char>>,
    channel: Option<Seq<char>>,
) -> Seq<Part> {
    seq![
        Part::Field(text_bytes("rieko-finding-v2"@)),
        Part::Field(text_bytes(detector)),
        Part::Field(text_bytes(detector_version)),
        Part::Optional(network_bytes(network)),
        Part::Optional(optional_text_bytes(node)),
        Part::Optional(optional_text_bytes(channel)),
    ]
}

/// The identity of a finding.
pub open spec fn finding_identity_text(
    detector: Seq<char>,
    detector_version: Seq<char>,
    network: Option<BitcoinNetwork>,
    node: Option<Seq<char>>,
    channel: Option<Seq<char>>,
) -> Seq<char> {
    "finding-"@ + digest_text(
        encoded(finding_parts(detector, detector_version, network, node, channel)),
    )
}

/// The stable identity of a finding: which detector, in which version, found it
/// on which network, node and channel. Severity and evidence take no part.
pub fn finding_identity(
    detector: &str,
    detector_version: &str,
    network: Option<BitcoinNetwork>,
    node: Option<&str>,
    channel: Option<&str>,
) -> (r: String)
    ensures
        r@ == finding_identity_text(
            detector@,
            detector_version@,
            network,
            node.deep_view(),
            channel.deep_view(),
        ),
        r@.len() == 72,
        is_digest(r@.skip(8)),
{
    let mut out = Encoder::new("rieko-finding-v2");
    out.text(detector);
    out.text(detector_version);
    out.network(network);
    out.optional_text(node);
    out.optional_text(channel);
    assert(out.parts@ =~= finding_parts(
        detector@,
        detector_version@,
        network,
        node.deep_view(),
        channel.deep_view(),
    ));
    let hash = digest(&out.bytes);
    proof {
        reveal_strlit("finding-");
        assert(("finding-"@ + hash@).skip(8) =~= hash@);
    }
    "finding-".to_owned().concat(hash.as_str())
}

/// What a channel state's digest is taken over: everything but when it was seen.
pub open spec fn channel_parts(c: ChannelView) -> Seq<Part> {
    seq![
        Part::Field(text_bytes("rieko-channel-state-v1"@)),
        Part::Field(text_bytes(c.id)),
        Part::Field(text_bytes(c.node)),
        Part::Field(text_bytes(c.peer)),
        Part::Field(text_bytes(c.channel_point)),
        Part::Field(big_endian_8(c.capacity_msat)),
        Part::Field(big_endian_8(c.fee_policy.base_fee_msat)),
        Part::Field(big_endian_8(c.fee_policy.fee_rate_ppm)),
        Part::Field(big_endian_8(c.fee_policy.min_htlc_msat)),
        Part::Optional(optional_u64_bytes(c.fee_policy.max_htlc_msat)),
        Part::Field(big_endian_4(c.fee_policy.cltv_delta)),
        Part::Field(seq![status_code(c.status)]),
        Part::Field(big_endian_8(c.liquidity.local_ratio.bits)),
        Part::Field(big_endian_8(c.liquidity.local_balance_msat)),
        Part::Field(big_endian_8(c.liquidity.remote_balance_msat)),
        Part::Field(big_endian_8(c.liquidity.inbound_capacity_msat)),
        Part::Field(big_endian_8(c.liquidity.outbound_capacity_msat)),
        Part::Field(big_endian_8(c.liquidity.spendable_outbound_msat)),
        Part::Field(big_endian_8(c.liquidity.spendable_inbound_msat)),
        Part::Field(seq![imbalance_code(c.liquidity.imbalance)]),
        Part::Optional(optional_u32_bytes(c.opening_height)),
        Part::Optional(optional_u64_bytes(c.local_reserve_msat)),
        Part::Optional(optional_u64_bytes(c.remote_reserve_msat)),
        Part::Field(seq![flag_byte(c.is_private)]),
        Part::Field(seq![flag_byte(c.is_initiator)]),
        Part::Optional(optional_u64_bytes(c.total_sent_msat)),
        Part::Optional(optional_u64_bytes(c.total_received_msat)),
    ]
}

/// The digest of a channel's operational state.
pub open spec fn channel_digest(c: ChannelView) -> Seq<char> {
    digest_text(encoded(channel_parts(c)))
}

fn flag(b: bool) -> (r: u8)
    ensures
        r == flag_byte(b),
{
    if b {
        1
    } else {
        0
    }
}

/// The digest of a channel's operational state. When the state was observed
/// takes no part.
pub fn channel_state_digest(channel: &Channel) -> (r: String)
    ensures
        r@ == channel_digest(channel.deep_view()),
        is_digest(r@),
{
    let mut out = Encoder::new("rieko-channel-state-v1");
    out.text(channel.id.as_str());
    out.text(channel.node.as_str());
    out.text(channel.peer.as_str());
    out.text(channel.channel_point.as_str());
    out.number(channel.capacity_msat);
    out.number(channel.fee_policy.base_fee_msat);
    out.number(channel.fee_policy.fee_rate_ppm);
    out.number(channel.fee_policy.min_htlc_msat);
    out.optional_number(channel.fee_policy.max_htlc_msat);
    out.small_number(channel.fee_policy.cltv_delta);
    out.byte(status_tag(channel.status));
    out.number(channel.liquidity.local_ratio.bits);
    out.number(channel.liquidity.local_balance_msat);
    out.number(channel.liquidity.remote_balance_msat);
    out.number(channel.liquidity.inbound_capacity_msat);
    out.number(channel.liquidity.outbound_capacity_msat);
    out.number(channel.liquidity.spendable_outbound_msat);
    out.number(channel.liquidity.spendable_inbound_msat);
    out.byte(imbalance_tag(channel.liquidity.imbalance));
    out.optional_small_number(channel.opening_height);
    out.optional_number(channel.local_reserve_msat);
    out.optional_number(channel.remote_reserve_msat);
    out.byte(flag(channel.is_private));
    out.byte(flag(channel.is_initiator));
    out.optional_number(channel.total_sent_msat);
    out.optional_number(channel.total_received_msat);
    assert(out.parts@ =~= channel_parts(channel.deep_view()));
    digest(&out.bytes)
}

/// What a snapshot's digest is taken over: everything but when it was seen and
/// the digest stored with it.
pub open spec fn snapshot_parts(s: ChannelSnapshotView) -> Seq<Part> {
    seq![
        Part::Field(text_bytes("rieko-channel-snapshot-state-v3"@)),
        Part::Optional(optional_text_bytes(s.node_id)),
        Part::Optional(network_bytes(s.network)),
        Part::Field(text_bytes(s.channel_id)),
        Part::Field(big_endian_8(s.local_ratio.bits)),
        Part::Field(big_endian_8(s.local_balance_msat)),
        Part::Field(big_endian_8(s.remote_balance_msat)),
        Part::Field(big_endian_8(s.capacity_msat)),
        Part::Field(seq![status_code(s.status)]),
        Part::Field(big_endian_8(s.spendable_outbound_msat)),
        Part::Field(big_endian_8(s.spendable_inbound_msat)),
    ]
}

/// The digest of a snapshot's state.
pub open spec fn snapshot_digest(s: ChannelSnapshotView) -> Seq<char> {
    digest_text(encoded(snapshot_parts(s)))
}

/// The digest of a snapshot's state, which excludes when it was observed.
pub fn channel_snapshot_state_digest(snapshot: &ChannelSnapshot) -> (r: String)
    ensures
        r@ == snapshot_digest(snapshot.deep_view()),
        is_digest(r@),
{
    let mut out = Encoder::new("rieko-channel-snapshot-state-v3");
    match &snapshot.node_id {
        Some(node) => out.optional_text(Some(node.as_str())),
        None => out.optional_text(None),
    }
    out.network(snapshot.network);
    out.text(snapshot.channel_id.as_str());
    out.number(snapshot.local_ratio.bits);
    out.number(snapshot.local_balance_msat);
    out.number(snapshot.remote_balance_msat);
    out.number(snapshot.capacity_msat);
    out.byte(status_tag(snapshot.status));
    out.number(snapshot.spendable_outbound_msat);
    out.number(snapshot.spendable_inbound_msat);
    assert(out.parts@ =~= snapshot_parts(snapshot.deep_view()));
    digest(&out.bytes)
}

/// What an action's identity is the digest of.
pub open spec fn action_preimage(
    finding_id: Seq<char>,
    action_type: ActionType,
    target: Option<Seq<char>>,
) -> Seq<u8> {
    text_bytes("rieko-action-v1"@) + seq![0u8] + text_bytes(finding_id) + seq![0u8] + text_bytes(
        action_type.name(),
    ) + seq![0u8] + text_bytes(crate::finding::or_empty(target))
}

/// The identity of an action.
pub open spec fn action_identity_text(
    finding_id: Seq<char>,
    action_type: ActionType,
    target: Option<Seq<char>>,
) -> Seq<char> {
    "action-"@ + digest_text(action_preimage(finding_id, action_type, target))
}

/// The stable identity of an action: the finding it comes from, its type and
/// its target.
pub fn action_identity(finding_id: &str, action_type: ActionType, target: Option<&str>) -> (r:
    String)
    ensures
        r@ == action_identity_text(finding_id@, action_type, target.deep_view()),
        r@.len() == 71,
        is_digest(r@.skip(7)),
{
    proof {
        reveal(text_bytes);
    }
    let mut out: Vec<u8> = Vec::new();
    push_bytes(&mut out, "rieko-action-v1".as_bytes());
    out.push(0);
    push_bytes(&mut out, finding_id.as_bytes());
    out.push(0);
    push_bytes(&mut out, action_type.as_str().as_bytes());
    out.push(0);
    let name = match target {
        Some(t) => t.to_owned(),
        None => String::new(),
    };
    push_bytes(&mut out, name.as_str().as_bytes());
    assert(out@ =~= action_preimage(finding_id@, action_type, target.deep_view()));
    let hash = digest(&out);
    proof {
        reveal_strlit("action-");
        assert(("action-"@ + hash@).skip(7) =~= hash@);
    }
    "action-".to_owned().concat(hash.as_str())
}

/// The bytes that stand for a value of evidence.
pub open spec fn evidence_value_bytes(value: JsonView) -> Seq<u8> {
    match value {
        JsonView::Text(s) => text_bytes(s),
        JsonView::Bool(b) => seq![flag_byte(b)],
        other => text_bytes(crate::json::json_text(other)),
    }
}

/// The bytes that stand for one piece of evidence.
pub open spec fn evidence_bytes(e: EvidenceView) -> Seq<u8> {
    text_bytes(e.key) + seq![0u8] + evidence_value_bytes(e.value) + seq![0xFFu8]
}

/// The bytes of several pieces of evidence, one after the other.
pub open spec fn joined_evidence(evidence: Seq<EvidenceView>) -> Seq<u8>
    decreases evidence.len(),
{
    if evidence.len() == 0 {
        seq![]
    } else {
        joined_evidence(evidence.drop_last()) + evidence_bytes(evidence.last())
    }
}

/// Whether `a` comes strictly before `b` in the order of their bytes.
pub open spec fn bytes_precede(a: Seq<u8>, b: Seq<u8>) -> bool
    decreases a.len(),
{
    if b.len() == 0 {
        false
    } else if a.len() == 0 {
        true
    } else if a[0] != b[0] {
        a[0] < b[0]
    } else {
        bytes_precede(a.skip(1), b.skip(1))
    }
}

/// Whether `a` may stand before `b`: its key comes first, or they share the key and
/// the bytes of `b` do not come first.
pub open spec fn not_after(a: EvidenceView, b: EvidenceView) -> bool {
    text::precedes(a.key, b.key) || (a.key == b.key && !bytes_precede(
        evidence_bytes(b),
        evidence_bytes(a),
    ))
}

/// Whether evidence is in the order of its keys, and of its bytes where keys are
/// shared.
pub open spec fn in_order(evidence: Seq<EvidenceView>) -> bool {
    forall|i: int, j: int|
        0 <= i < j < evidence.len() ==> not_after(#[trigger] evidence[i], #[trigger] evidence[j])
}

/// The same evidence in order. Pieces that are equal in key and bytes may stand
/// either way; their bytes are the same.
pub open spec fn sorted_evidence(evidence: Seq<EvidenceView>) -> Seq<EvidenceView> {
    choose|s: Seq<EvidenceView>| in_order(s) && #[trigger] s.to_multiset() == evidence.to_multiset()
}

fn bytes_come_first(a: &Vec<u8>, b: &Vec<u8>) -> (r: bool)
    ensures
        r == bytes_precede(a@, b@),
{
    let mut i: usize = 0;
    assert(a@.skip(0) =~= a@);
    assert(b@.skip(0) =~= b@);
    while i < a.len() && i < b.len() && a[i] == b[i]
        invariant
            i <= a.len(),
            i <= b.len(),
            bytes_precede(a@, b@) == bytes_precede(a@.skip(i as int), b@.skip(i as int)),
        decreases a.len() - i,
    {
        assert(a@.skip(i as int).skip(1) =~= a@.skip(i + 1));
        assert(b@.skip(i as int).skip(1) =~= b@.skip(i + 1));
        i += 1;
    }
    if i == b.len() {
        false
    } else if i == a.len() {
        true
    } else {
        a[i] < b[i]
    }
}

proof fn lemma_bytes_precede_transitive(a: Seq<u8>, b: Seq<u8>, c: Seq<u8>)
    requires
        bytes_precede(a, b),
        bytes_precede(b, c),
    ensures
        bytes_precede(a, c),
    decreases a.len(),
{
    if a.len() > 0 && a[0] == b[0] && b[0] == c[0] {
        lemma_bytes_precede_transitive(a.skip(1), b.skip(1), c.skip(1));
    }
}

proof fn lemma_bytes_precede_total(a: Seq<u8>, b: Seq<u8>)
    ensures
        !bytes_precede(a, a),
        a == b || bytes_precede(a, b) || bytes_precede(b, a),
        !(bytes_precede(a, b) && bytes_precede(b, a)),
    decreases a.len(),
{
    if a.len() > 0 {
        lemma_bytes_precede_total(a.skip(1), a.skip(1));
    }
    if a.len() > 0 && b.len() > 0 && a[0] == b[0] {
        lemma_bytes_precede_total(a.skip(1), b.skip(1));
        if a.skip(1) == b.skip(1) {
            assert(a =~= seq![a[0]] + a.skip(1));
            assert(b =~= seq![b[0]] + b.skip(1));
        }
    } else if a.len() == 0 && b.len() == 0 {
        assert(a =~= b);
    }
}

proof fn lemma_not_after_transitive(a: EvidenceView, b: EvidenceView, c: EvidenceView)
    requires
        not_after(a, b),
        not_after(b, c),
    ensures
        not_after(a, c),
{
    if text::precedes(a.key, b.key) && text::precedes(b.key, c.key) {
        text::lemma_precedes_transitive(a.key, b.key, c.key);
    }
    if a.key == b.key && b.key == c.key && !text::precedes(a.key, b.key) && !text::precedes(
        b.key,
        c.key,
    ) {
        let x = evidence_bytes(a);
        let y = evidence_bytes(b);
        let z = evidence_bytes(c);
        lemma_bytes_precede_total(x, y);
        lemma_bytes_precede_total(y, z);
        if bytes_precede(z, x) && x != y {
            lemma_bytes_precede_transitive(z, x, y);
        }
    } else {
        text::lemma_precedes_irreflexive(b.key);
    }
}

/// Of two pieces one may stand before the other; where both may, their bytes are
/// the same.
proof fn lemma_not_after_total(a: EvidenceView, b: EvidenceView)
    ensures
        not_after(a, b) || not_after(b, a),
        not_after(a, b) && not_after(b, a) ==> evidence_bytes(a) == evidence_bytes(b),
{
    text::lemma_precedes_total(a.key, b.key);
    text::lemma_precedes_irreflexive(a.key);
    if text::precedes(a.key, b.key) && text::precedes(b.key, a.key) {
        text::lemma_precedes_transitive(a.key, b.key, a.key);
    }
    lemma_bytes_precede_total(evidence_bytes(a), evidence_bytes(b));
}

/// A piece that goes between those that may stand before and behind it keeps the
/// order.
proof fn lemma_insert_in_order(s: Seq<EvidenceView>, slot: int, e: EvidenceView)
    requires
        in_order(s),
        0 <= slot <= s.len(),
        forall|i: int| 0 <= i < slot ==> not_after(#[trigger] s[i], e),
        slot < s.len() ==> not_after(e, s[slot]),
    ensures
        in_order(s.insert(slot, e)),
        s.insert(slot, e).to_multiset() == s.to_multiset().insert(e),
{
    let t = s.insert(slot, e);
    assert forall|i: int, j: int| 0 <= i < j < t.len() implies not_after(
        #[trigger] t[i],
        #[trigger] t[j],
    ) by {
        if j == slot {
            assert(t[i] == s[i]);
        } else if i == slot {
            assert(t[j] == s[j - 1]);
            if j - 1 > slot {
                lemma_not_after_transitive(e, s[slot], s[j - 1]);
            }
        } else {
            let p = if i < slot {
                i
            } else {
                i - 1
            };
            let q = if j < slot {
                j
            } else {
                j - 1
            };
            assert(t[i] == s[p] && t[j] == s[q]);
        }
    }
    vstd::seq_lib::to_multiset_insert(s, slot, e);
}

/// Where a piece goes in an ordered list.
proof fn lemma_slot_exists(s: Seq<EvidenceView>, e: EvidenceView) -> (slot: int)
    requires
        in_order(s),
    ensures
        0 <= slot <= s.len(),
        forall|i: int| 0 <= i < slot ==> not_after(#[trigger] s[i], e),
        slot < s.len() ==> not_after(e, s[slot]),
    decreases s.len(),
{
    if s.len() == 0 {
        0
    } else {
        let front = s.drop_last();
        assert forall|i: int, j: int| 0 <= i < j < front.len() implies not_after(
            #[trigger] front[i],
            #[trigger] front[j],
        ) by {
            assert(front[i] == s[i] && front[j] == s[j]);
        }
        let slot = lemma_slot_exists(front, e);
        assert(forall|i: int| 0 <= i < front.len() ==> front[i] == s[i]);
        if slot < front.len() {
            slot
        } else {
            lemma_not_after_total(s.last(), e);
            if not_after(e, s.last()) {
                slot
            } else {
                assert forall|i: int| 0 <= i < s.len() implies not_after(#[trigger] s[i], e) by {
                    if i < front.len() {
                        assert(not_after(front[i], e));
                    }
                }
                s.len() as int
            }
        }
    }
}

/// Any evidence can be put in order.
proof fn lemma_order_exists(evidence: Seq<EvidenceView>) -> (s: Seq<EvidenceView>)
    ensures
        in_order(s),
        s.to_multiset() == evidence.to_multiset(),
    decreases evidence.len(),
{
    broadcast use vstd::seq_lib::group_to_multiset_ensures;

    if evidence.len() == 0 {
        evidence
    } else {
        let before = lemma_order_exists(evidence.drop_last());
        let slot = lemma_slot_exists(before, evidence.last());
        lemma_insert_in_order(before, slot, evidence.last());
        assert(evidence =~= evidence.drop_last().push(evidence.last()));
        before.insert(slot, evidence.last())
    }
}

/// Where everything from place `j` on has the same bytes, it is all one which of it
/// is taken out.
proof fn lemma_joined_without(s: Seq<EvidenceView>, j: int, bytes: Seq<u8>)
    requires
        0 <= j < s.len(),
        forall|k: int| j <= k < s.len() ==> evidence_bytes(#[trigger] s[k]) == bytes,
    ensures
        joined_evidence(s) == joined_evidence(s.remove(j)) + bytes,
    decreases s.len(),
{
    let front = s.drop_last();
    assert(s[s.len() - 1] == s.last());
    if j == s.len() - 1 {
        assert(s.remove(j) =~= front);
    } else {
        assert forall|k: int| j <= k < front.len() implies evidence_bytes(#[trigger] front[k])
            == bytes by {
            assert(front[k] == s[k]);
        }
        lemma_joined_without(front, j, bytes);
        assert(s.remove(j).drop_last() =~= front.remove(j));
        assert(s.remove(j).last() == s.last());
    }
}

/// The same evidence in order has the same bytes, whichever way equal pieces stand.
proof fn lemma_ordered_bytes_unique(x: Seq<EvidenceView>, y: Seq<EvidenceView>)
    requires
        in_order(x),
        in_order(y),
        x.to_multiset() == y.to_multiset(),
    ensures
        joined_evidence(x) == joined_evidence(y),
    decreases x.len(),
{
    broadcast use vstd::seq_lib::group_to_multiset_ensures;

    assert(x.len() == x.to_multiset().len());
    assert(y.len() == y.to_multiset().len());
    if x.len() > 0 {
        let n = x.len() - 1;
        let e = x[n];
        assert(x.contains(e));
        assert(y.to_multiset().count(e) > 0);
        assert(y.contains(e));
        let j = choose|j: int| 0 <= j < y.len() && y[j] == e;
        assert forall|k: int| j <= k < y.len() implies evidence_bytes(#[trigger] y[k])
            == evidence_bytes(e) by {
            assert(y.contains(y[k]));
            assert(x.to_multiset().count(y[k]) > 0);
            assert(x.contains(y[k]));
            let i = choose|i: int| 0 <= i < x.len() && x[i] == y[k];
            if k > j && i < n {
                assert(not_after(y[j], y[k]));
                assert(not_after(x[i], x[n]));
                lemma_not_after_total(e, y[k]);
            }
        }
        lemma_joined_without(y, j, evidence_bytes(e));
        let front = x.drop_last();
        let rest = y.remove(j);
        assert(x.remove(n) =~= front);
        assert(front.to_multiset() == rest.to_multiset());
        assert forall|p: int, q: int| 0 <= p < q < front.len() implies not_after(
            #[trigger] front[p],
            #[trigger] front[q],
        ) by {
            assert(front[p] == x[p] && front[q] == x[q]);
        }
        assert forall|p: int, q: int| 0 <= p < q < rest.len() implies not_after(
            #[trigger] rest[p],
            #[trigger] rest[q],
        ) by {
            let g = if p < j {
                p
            } else {
                p + 1
            };
            let h = if q < j {
                q
            } else {
                q + 1
            };
            assert(rest[p] == y[g] && rest[q] == y[h]);
        }
        lemma_ordered_bytes_unique(front, rest);
    } else {
        assert(x =~= y);
    }
}

/// The bytes of evidence in order are those of any way to put it in order.
pub proof fn lemma_sorted_evidence(evidence: Seq<EvidenceView>, s: Seq<EvidenceView>)
    requires
        in_order(s),
        s.to_multiset() == evidence.to_multiset(),
    ensures
        in_order(sorted_evidence(evidence)),
        sorted_evidence(evidence).to_multiset() == evidence.to_multiset(),
        joined_evidence(sorted_evidence(evidence)) == joined_evidence(s),
{
    lemma_ordered_bytes_unique(sorted_evidence(evidence), s);
}

/// The canonical bytes of an evidence list do not depend on the order of the list.
pub proof fn lemma_canonical_evidence_order_independent(
    a: Seq<EvidenceView>,
    b: Seq<EvidenceView>,
)
    requires
        a.to_multiset() == b.to_multiset(),
    ensures
        joined_evidence(sorted_evidence(a)) == joined_evidence(sorted_evidence(b)),
{
    let s = lemma_order_exists(a);
    lemma_sorted_evidence(a, s);
    lemma_sorted_evidence(b, s);
}

/// The bytes that stand for one piece of evidence.
fn piece_bytes(e: &Evidence) -> (r: Vec<u8>)
    ensures
        r@ == evidence_bytes(e.deep_view()),
{
    proof {
        reveal(text_bytes);
    }
    let mut out: Vec<u8> = Vec::new();
    push_bytes(&mut out, e.key.as_str().as_bytes());
    out.push(0);
    match &e.value {
        Json::Text(s) => {
            push_bytes(&mut out, s.as_str().as_bytes());
        },
        Json::Bool(b) => {
            out.push(flag(*b));
        },
        other => {
            push_bytes(&mut out, other.to_text().as_str().as_bytes());
        },
    }
    out.push(0xFF);
    assert(out@ =~= evidence_bytes(e.deep_view()));
    out
}

/// Where a piece goes among pieces in order, of which the bytes are given too.
fn find_slot(sorted: &Vec<&Evidence>, forms: &Vec<Vec<u8>>, e: &Evidence, form: &Vec<u8>) -> (r:
    usize)
    requires
        sorted.len() == forms.len(),
        forall|k: int|
            0 <= k < forms.len() ==> #[trigger] forms[k]@ == evidence_bytes(sorted.deep_view()[k]),
        form@ == evidence_bytes(e.deep_view()),
    ensures
        r <= sorted.len(),
        forall|i: int| 0 <= i < r ==> not_after(#[trigger] sorted.deep_view()[i], e.deep_view()),
        r < sorted.len() ==> not_after(e.deep_view(), sorted.deep_view()[r as int]),
{
    let ghost all = sorted.deep_view();
    let mut i: usize = 0;
    while i < sorted.len()
        invariant
            i <= sorted.len(),
            all == sorted.deep_view(),
            sorted.len() == forms.len(),
            forall|k: int| 0 <= k < forms.len() ==> #[trigger] forms[k]@ == evidence_bytes(all[k]),
            form@ == evidence_bytes(e.deep_view()),
            forall|k: int| 0 <= k < i ==> not_after(#[trigger] all[k], e.deep_view()),
        decreases sorted.len() - i,
    {
        let here = sorted[i];
        assert(all[i as int] == here.deep_view());
        proof {
            lemma_not_after_total(all[i as int], e.deep_view());
            text::lemma_precedes_total(all[i as int].key, e.key@);
        }
        let before = text::text_precedes(here.key.as_str(), e.key.as_str()) || (text::same_text(
            here.key.as_str(),
            e.key.as_str(),
        ) && !bytes_come_first(form, &forms[i]));
        if !before {
            return i;
        }
        i += 1;
    }
    i
}

/// The bytes of an evidence list in the order of its keys, and of the bytes where
/// keys are shared.
pub fn canonical_evidence(evidence: &Vec<Evidence>) -> (r: Vec<u8>)
    ensures
        r@ == joined_evidence(sorted_evidence(evidence.deep_view())),
{
    let ghost all = evidence.deep_view();
    let mut sorted: Vec<&Evidence> = Vec::new();
    let mut forms: Vec<Vec<u8>> = Vec::new();
    let mut i: usize = 0;
    assert(sorted.deep_view() =~= all.take(0));
    while i < evidence.len()
        invariant
            i <= evidence.len(),
            all == evidence.deep_view(),
            in_order(sorted.deep_view()),
            sorted.deep_view().to_multiset() == all.take(i as int).to_multiset(),
            sorted.len() == forms.len(),
            forall|k: int|
                0 <= k < forms.len() ==> #[trigger] forms[k]@ == evidence_bytes(
                    sorted.deep_view()[k],
                ),
        decreases evidence.len() - i,
    {
        let ghost before = sorted.deep_view();
        let ghost e = all[i as int];
        let form = piece_bytes(&evidence[i]);
        let slot = find_slot(&sorted, &forms, &evidence[i], &form);
        let ghost old_forms = forms@;
        sorted.insert(slot, &evidence[i]);
        forms.insert(slot, form);
        assert(sorted.deep_view() =~= before.insert(slot as int, e));
        proof {
            lemma_insert_in_order(before, slot as int, e);
            assert(all.take(i + 1) =~= all.take(i as int).push(e));
            vstd::seq_lib::to_multiset_build(all.take(i as int), e);
            assert forall|k: int| 0 <= k < forms.len() implies #[trigger] forms[k]@
                == evidence_bytes(sorted.deep_view()[k]) by {
                if k < slot {
                    assert(forms[k] == old_forms[k]);
                } else if k > slot {
                    assert(forms[k] == old_forms[k - 1]);
                    assert(sorted.deep_view()[k] == before[k - 1]);
                }
            }
        }
        i += 1;
    }
    assert(all.take(i as int) =~= all);
    let ghost ordered = sorted.deep_view();
    let mut out: Vec<u8> = Vec::new();
    let mut k: usize = 0;
    while k < forms.len()
        invariant
            k <= forms.len(),
            ordered.len() == forms.len(),
            forall|h: int|
                0 <= h < forms.len() ==> #[trigger] forms[h]@ == evidence_bytes(ordered[h]),
            out@ == joined_evidence(ordered.take(k as int)),
        decreases forms.len() - k,
    {
        push_bytes(&mut out, forms[k].as_slice());
        assert(ordered.take(k + 1).drop_last() =~= ordered.take(k as int));
        k += 1;
    }
    assert(ordered.take(k as int) =~= ordered);
    proof {
        lemma_sorted_evidence(all, ordered);
    }
    out
}

/// The number that eight bytes denote, the most significant first.
spec fn value_8(b: Seq<u8>) -> int {
    ((((((b[0] * 256 + b[1]) * 256 + b[2]) * 256 + b[3]) * 256 + b[4]) * 256 + b[5]) * 256 + b[6])
        * 256 + b[7]
}

proof fn lemma_big_endian_8_value(n: u64)
    ensures
        value_8(big_endian_8(n)) == n,
{
    reveal(big_endian_8);
    let x = n as int;
    assert(x / 0x100 / 0x100 == x / 0x1_0000);
    assert(x / 0x1_0000 / 0x100 == x / 0x100_0000);
    assert(x / 0x100_0000 / 0x100 == x / 0x1_0000_0000);
    assert(x / 0x1_0000_0000 / 0x100 == x / 0x100_0000_0000);
    assert(x / 0x100_0000_0000 / 0x100 == x / 0x1_0000_0000_0000);
    assert(x / 0x1_0000_0000_0000 / 0x100 == x / 0x100_0000_0000_0000);
    assert(x / 0x100_0000_0000_0000 < 256);
}

proof fn lemma_big_endian_4_injective(a: u32, b: u32)
    requires
        big_endian_4(a) == big_endian_4(b),
    ensures
        a == b,
{
    reveal(big_endian_4);
    assert(big_endian_4(a)[0] == big_endian_4(b)[0]);
    assert(big_endian_4(a)[1] == big_endian_4(b)[1]);
    assert(big_endian_4(a)[2] == big_endian_4(b)[2]);
    assert(big_endian_4(a)[3] == big_endian_4(b)[3]);
}

proof fn lemma_number_lengths()
    ensures
        forall|n: u64| (#[trigger] big_endian_8(n)).len() == 8,
        forall|n: u32| (#[trigger] big_endian_4(n)).len() == 4,
{
    reveal(big_endian_8);
    reveal(big_endian_4);
}

proof fn lemma_big_endian_8_injective(a: u64, b: u64)
    requires
        big_endian_8(a) == big_endian_8(b),
    ensures
        a == b,
{
    lemma_big_endian_8_value(a);
    lemma_big_endian_8_value(b);
}

/// A field can be told apart from what follows it.
pub(crate) proof fn lemma_field_splits(a: Seq<u8>, x: Seq<u8>, b: Seq<u8>, y: Seq<u8>)
    requires
        field(a) + x == field(b) + y,
        a.len() <= u64::MAX,
        b.len() <= u64::MAX,
    ensures
        a == b,
        x == y,
{
    reveal(field);
    lemma_number_lengths();
    let l = field(a) + x;
    let r = field(b) + y;
    assert(l.take(8) =~= big_endian_8(a.len() as u64));
    assert(r.take(8) =~= big_endian_8(b.len() as u64));
    lemma_big_endian_8_injective(a.len() as u64, b.len() as u64);
    assert(l.subrange(8, 8 + a.len() as int) =~= a);
    assert(r.subrange(8, 8 + b.len() as int) =~= b);
    assert(l.skip(8 + a.len() as int) =~= x);
    assert(r.skip(8 + b.len() as int) =~= y);
}

proof fn lemma_optional_field_splits(
    a: Option<Seq<u8>>,
    x: Seq<u8>,
    b: Option<Seq<u8>>,
    y: Seq<u8>,
)
    requires
        optional_field(a) + x == optional_field(b) + y,
        a is Some ==> a->0.len() <= u64::MAX,
        b is Some ==> b->0.len() <= u64::MAX,
    ensures
        a == b,
        x == y,
{
    reveal(optional_field);
    let l = optional_field(a) + x;
    let r = optional_field(b) + y;
    assert(l[0] == optional_field(a)[0]);
    assert(r[0] == optional_field(b)[0]);
    if a is Some {
        assert(l.skip(1) =~= field(a->0) + x);
        assert(r.skip(1) =~= field(b->0) + y);
        lemma_field_splits(a->0, x, b->0, y);
    } else {
        assert(l.skip(1) =~= x);
        assert(r.skip(1) =~= y);
    }
}

proof fn lemma_text_bytes_injective(a: Seq<char>, b: Seq<char>)
    requires
        text_bytes(a) == text_bytes(b),
    ensures
        a == b,
{
    reveal(text_bytes);
    encode_utf8_decode_utf8(a);
    encode_utf8_decode_utf8(b);
}

proof fn lemma_optional_text_bytes_injective(a: Option<Seq<char>>, b: Option<Seq<char>>)
    requires
        optional_text_bytes(a) == optional_text_bytes(b),
    ensures
        a == b,
{
    if a is Some {
        lemma_text_bytes_injective(a->0, b->0);
    }
}

proof fn lemma_network_bytes_injective(a: Option<BitcoinNetwork>, b: Option<BitcoinNetwork>)
    requires
        network_bytes(a) == network_bytes(b),
    ensures
        a == b,
{
    reveal_strlit("mainnet");
    reveal_strlit("testnet");
    reveal_strlit("signet");
    reveal_strlit("regtest");
    if a is Some {
        lemma_text_bytes_injective(a->0.name(), b->0.name());
        assert(a->0.name()[0] == b->0.name()[0]);
    }
}

/// Whether an optional string is short enough for its length to be written in
/// eight bytes.
pub open spec fn fits_optional_field(s: Option<Seq<char>>) -> bool {
    s is Some ==> text_bytes(s->0).len() <= u64::MAX
}

/// Whether two parts are both always there, or both may be absent.
spec fn same_form(a: Part, b: Part) -> bool {
    a is Field <==> b is Field
}

/// Whether the length of a part can be written in eight bytes.
spec fn part_fits(a: Part) -> bool {
    match a {
        Part::Field(bytes) => bytes.len() <= u64::MAX,
        Part::Optional(bytes) => bytes is Some ==> bytes->0.len() <= u64::MAX,
    }
}

/// Encodings of the same form are equal only if their parts are.
proof fn lemma_encoded_injective(x: Seq<Part>, y: Seq<Part>)
    requires
        x.len() == y.len(),
        forall|i: int| 0 <= i < x.len() ==> same_form(#[trigger] x[i], y[i]),
        forall|i: int| 0 <= i < x.len() ==> part_fits(#[trigger] x[i]),
        forall|i: int| 0 <= i < y.len() ==> part_fits(#[trigger] y[i]),
        encoded(x) == encoded(y),
    ensures
        x == y,
    decreases x.len(),
{
    if x.len() > 0 {
        assert(same_form(x[0], y[0]));
        match (x[0], y[0]) {
            (Part::Field(a), Part::Field(b)) => {
                lemma_field_splits(a, encoded(x.skip(1)), b, encoded(y.skip(1)));
            },
            (Part::Optional(a), Part::Optional(b)) => {
                lemma_optional_field_splits(a, encoded(x.skip(1)), b, encoded(y.skip(1)));
            },
            _ => {},
        }
        let xs = x.skip(1);
        let ys = y.skip(1);
        assert forall|i: int| 0 <= i < xs.len() implies same_form(#[trigger] xs[i], ys[i])
            && part_fits(xs[i]) && part_fits(ys[i]) by {
            assert(xs[i] == x[i + 1] && ys[i] == y[i + 1]);
            assert(same_form(x[i + 1], y[i + 1]));
        }
        assert forall|i: int| 0 <= i < ys.len() implies part_fits(#[trigger] ys[i]) by {
            assert(same_form(xs[i], ys[i]));
        }
        lemma_encoded_injective(xs, ys);
        assert(x =~= seq![x[0]] + xs);
        assert(y =~= seq![y[0]] + ys);
    } else {
        assert(x =~= y);
    }
}

/// Two findings whose identities digest the same bytes agree in detector,
/// version, network, node and channel; absent and empty parts are told apart.
pub proof fn lemma_finding_encoding_injective(
    detector_a: Seq<char>,
    version_a: Seq<char>,
    network_a: Option<BitcoinNetwork>,
    node_a: Option<Seq<char>>,
    channel_a: Option<Seq<char>>,
    detector_b: Seq<char>,
    version_b: Seq<char>,
    network_b: Option<BitcoinNetwork>,
    node_b: Option<Seq<char>>,
    channel_b: Option<Seq<char>>,
)
    requires
        encoded(finding_parts(detector_a, version_a, network_a, node_a, channel_a)) == encoded(
            finding_parts(detector_b, version_b, network_b, node_b, channel_b),
        ),
        text_bytes(detector_a).len() <= u64::MAX,
        text_bytes(detector_b).len() <= u64::MAX,
        text_bytes(version_a).len() <= u64::MAX,
        text_bytes(version_b).len() <= u64::MAX,
        fits_optional_field(node_a),
        fits_optional_field(node_b),
        fits_optional_field(channel_a),
        fits_optional_field(channel_b),
    ensures
        detector_a == detector_b,
        version_a == version_b,
        network_a == network_b,
        node_a == node_b,
        channel_a == channel_b,
{
    let x = finding_parts(detector_a, version_a, network_a, node_a, channel_a);
    let y = finding_parts(detector_b, version_b, network_b, node_b, channel_b);
    lemma_network_lengths(network_a);
    lemma_network_lengths(network_b);
    reveal_strlit("rieko-finding-v2");
    lemma_label_fits("rieko-finding-v2"@);
    lemma_encoded_injective(x, y);
    assert(x[1] == y[1] && x[2] == y[2] && x[3] == y[3] && x[4] == y[4] && x[5] == y[5]);
    lemma_text_bytes_injective(detector_a, detector_b);
    lemma_text_bytes_injective(version_a, version_b);
    lemma_network_bytes_injective(network_a, network_b);
    lemma_optional_text_bytes_injective(node_a, node_b);
    lemma_optional_text_bytes_injective(channel_a, channel_b);
}

/// Two findings have the same identity exactly if they agree in detector, version,
/// network, node and channel, as long as the digest tells their encodings apart.
pub proof fn lemma_finding_identity_distinguishes(
    detector_a: Seq<char>,
    version_a: Seq<char>,
    network_a: Option<BitcoinNetwork>,
    node_a: Option<Seq<char>>,
    channel_a: Option<Seq<char>>,
    detector_b: Seq<char>,
    version_b: Seq<char>,
    network_b: Option<BitcoinNetwork>,
    node_b: Option<Seq<char>>,
    channel_b: Option<Seq<char>>,
)
    requires
        no_collision(
            encoded(finding_parts(detector_a, version_a, network_a, node_a, channel_a)),
            encoded(finding_parts(detector_b, version_b, network_b, node_b, channel_b)),
        ),
        text_bytes(detector_a).len() <= u64::MAX,
        text_bytes(detector_b).len() <= u64::MAX,
        text_bytes(version_a).len() <= u64::MAX,
        text_bytes(version_b).len() <= u64::MAX,
        fits_optional_field(node_a),
        fits_optional_field(node_b),
        fits_optional_field(channel_a),
        fits_optional_field(channel_b),
    ensures
        finding_identity_text(detector_a, version_a, network_a, node_a, channel_a)
            == finding_identity_text(detector_b, version_b, network_b, node_b, channel_b) <==> (
        detector_a == detector_b && version_a == version_b && network_a == network_b && node_a
            == node_b && channel_a == channel_b),
{
    let x = encoded(finding_parts(detector_a, version_a, network_a, node_a, channel_a));
    let y = encoded(finding_parts(detector_b, version_b, network_b, node_b, channel_b));
    let prefix = "finding-"@;
    lemma_digest_distinguishes(x, y);
    if prefix + digest_text(x) == prefix + digest_text(y) {
        assert((prefix + digest_text(x)).skip(prefix.len() as int) =~= digest_text(x));
        assert((prefix + digest_text(y)).skip(prefix.len() as int) =~= digest_text(y));
        lemma_finding_encoding_injective(
            detector_a,
            version_a,
            network_a,
            node_a,
            channel_a,
            detector_b,
            version_b,
            network_b,
            node_b,
            channel_b,
        );
    }
}

/// Whether the bytes of a text hold no zero, which separates the parts of an
/// action's identity.
pub open spec fn zero_free(s: Seq<char>) -> bool {
    forall|i: int| 0 <= i < text_bytes(s).len() ==> #[trigger] text_bytes(s)[i] != 0
}

/// What stands before the first zero can be told apart from what follows it.
proof fn lemma_zero_splits(a: Seq<u8>, x: Seq<u8>, b: Seq<u8>, y: Seq<u8>)
    requires
        a + seq![0u8] + x == b + seq![0u8] + y,
        forall|i: int| 0 <= i < a.len() ==> #[trigger] a[i] != 0,
        forall|i: int| 0 <= i < b.len() ==> #[trigger] b[i] != 0,
    ensures
        a == b,
        x == y,
{
    let l = a + seq![0u8] + x;
    let r = b + seq![0u8] + y;
    assert(l[a.len() as int] == 0);
    assert(r[b.len() as int] == 0);
    if a.len() < b.len() {
        assert(r[a.len() as int] == b[a.len() as int]);
    } else if b.len() < a.len() {
        assert(l[b.len() as int] == a[b.len() as int]);
    }
    assert(l.take(a.len() as int) =~= a);
    assert(r.take(b.len() as int) =~= b);
    assert(l.skip(a.len() as int + 1) =~= x);
    assert(r.skip(b.len() as int + 1) =~= y);
}

proof fn lemma_action_names(a: ActionType, b: ActionType)
    ensures
        zero_free(a.name()),
        a.name() == b.name() ==> a == b,
{
    reveal(text_bytes);
    reveal_strlit("rebalance_channel");
    reveal_strlit("update_fee_policy");
    reveal_strlit("restart_service");
    reveal_strlit("custom");
    let name = a.name();
    assert(is_ascii_chars(name));
    is_ascii_chars_encode_utf8(name);
    assert forall|i: int| 0 <= i < text_bytes(name).len() implies #[trigger] text_bytes(name)[i]
        != 0 by {
        assert(name[i] as u8 == text_bytes(name)[i]);
        assert(name[i] >= '_');
    }
    if a.name() == b.name() {
        assert(a.name()[0] == b.name()[0] && a.name()[2] == b.name()[2]);
    }
}

/// Two actions have the same identity exactly if they come from the same finding and
/// agree in type and target, where no target is the same as an empty one, as long as
/// the digest tells what it is taken over apart. The findings' names hold no zero.
pub proof fn lemma_action_identity_distinguishes(
    finding_a: Seq<char>,
    type_a: ActionType,
    target_a: Option<Seq<char>>,
    finding_b: Seq<char>,
    type_b: ActionType,
    target_b: Option<Seq<char>>,
)
    requires
        no_collision(
            action_preimage(finding_a, type_a, target_a),
            action_preimage(finding_b, type_b, target_b),
        ),
        zero_free(finding_a),
        zero_free(finding_b),
    ensures
        action_identity_text(finding_a, type_a, target_a) == action_identity_text(
            finding_b,
            type_b,
            target_b,
        ) <==> (finding_a == finding_b && type_a == type_b && crate::finding::or_empty(target_a)
            == crate::finding::or_empty(target_b)),
{
    let x = action_preimage(finding_a, type_a, target_a);
    let y = action_preimage(finding_b, type_b, target_b);
    let prefix = "action-"@;
    lemma_digest_distinguishes(x, y);
    if prefix + digest_text(x) == prefix + digest_text(y) {
        assert((prefix + digest_text(x)).skip(prefix.len() as int) =~= digest_text(x));
        assert((prefix + digest_text(y)).skip(prefix.len() as int) =~= digest_text(y));
        let label = text_bytes("rieko-action-v1"@) + seq![0u8];
        let end_a = text_bytes(crate::finding::or_empty(target_a));
        let end_b = text_bytes(crate::finding::or_empty(target_b));
        let tail_a = text_bytes(type_a.name()) + seq![0u8] + end_a;
        let tail_b = text_bytes(type_b.name()) + seq![0u8] + end_b;
        assert(x.skip(label.len() as int) =~= text_bytes(finding_a) + seq![0u8] + tail_a);
        assert(y.skip(label.len() as int) =~= text_bytes(finding_b) + seq![0u8] + tail_b);
        lemma_zero_splits(text_bytes(finding_a), tail_a, text_bytes(finding_b), tail_b);
        lemma_action_names(type_a, type_b);
        lemma_action_names(type_b, type_a);
        lemma_zero_splits(text_bytes(type_a.name()), end_a, text_bytes(type_b.name()), end_b);
        lemma_text_bytes_injective(finding_a, finding_b);
        lemma_text_bytes_injective(type_a.name(), type_b.name());
        lemma_text_bytes_injective(
            crate::finding::or_empty(target_a),
            crate::finding::or_empty(target_b),
        );
    }
}

proof fn lemma_label_fits(label: Seq<char>)
    requires
        is_ascii_chars(label),
        label.len() <= u64::MAX,
    ensures
        text_bytes(label).len() <= u64::MAX,
{
    reveal(text_bytes);
    is_ascii_chars_encode_utf8(label);
}

proof fn lemma_network_lengths(network: Option<BitcoinNetwork>)
    ensures
        network is Some ==> network_bytes(network)->0.len() <= 7,
{
    reveal(text_bytes);
    if network is Some {
        reveal_strlit("mainnet");
        reveal_strlit("testnet");
        reveal_strlit("signet");
        reveal_strlit("regtest");
        let name = network->0.name();
        assert(is_ascii_chars(name));
        is_ascii_chars_encode_utf8(name);
    }
}

/// A snapshot's digest does not depend on when the state was observed, nor on
/// the digest stored with it.
pub proof fn lemma_snapshot_digest_ignores_observation(
    s: ChannelSnapshotView,
    ts: crate::time::Timestamp,
    stored: Option<Seq<char>>,
)
    ensures
        snapshot_digest(ChannelSnapshotView { ts, state_digest: stored, ..s }) == snapshot_digest(
            s,
        ),
{
}

/// A channel's digest does not depend on when the channel was last seen.
pub proof fn lemma_channel_digest_ignores_last_seen(c: ChannelView, at: crate::time::Timestamp)
    ensures
        channel_digest(ChannelView { last_seen: at, ..c }) == channel_digest(c),
{
}

proof fn lemma_status_code_injective(a: ChannelStatus, b: ChannelStatus)
    requires
        status_code(a) == status_code(b),
    ensures
        a == b,
{
}

/// Two snapshots whose digests are taken over the same bytes agree in
/// everything but when they were seen and the digest stored with them.
pub proof fn lemma_snapshot_encoding_injective(a: ChannelSnapshotView, b: ChannelSnapshotView)
    requires
        encoded(snapshot_parts(a)) == encoded(snapshot_parts(b)),
        fits_optional_field(a.node_id),
        fits_optional_field(b.node_id),
        text_bytes(a.channel_id).len() <= u64::MAX,
        text_bytes(b.channel_id).len() <= u64::MAX,
    ensures
        a == (ChannelSnapshotView { ts: a.ts, state_digest: a.state_digest, ..b }),
{
    let x = snapshot_parts(a);
    let y = snapshot_parts(b);
    lemma_network_lengths(a.network);
    lemma_network_lengths(b.network);
    lemma_number_lengths();
    reveal_strlit("rieko-channel-snapshot-state-v3");
    lemma_label_fits("rieko-channel-snapshot-state-v3"@);
    lemma_encoded_injective(x, y);
    assert(x[1] == y[1] && x[2] == y[2] && x[3] == y[3] && x[4] == y[4] && x[5] == y[5] && x[6]
        == y[6] && x[7] == y[7] && x[8] == y[8] && x[9] == y[9] && x[10] == y[10]);
    lemma_optional_text_bytes_injective(a.node_id, b.node_id);
    lemma_network_bytes_injective(a.network, b.network);
    lemma_text_bytes_injective(a.channel_id, b.channel_id);
    lemma_big_endian_8_injective(a.local_ratio.bits, b.local_ratio.bits);
    lemma_big_endian_8_injective(a.local_balance_msat, b.local_balance_msat);
    lemma_big_endian_8_injective(a.remote_balance_msat, b.remote_balance_msat);
    lemma_big_endian_8_injective(a.capacity_msat, b.capacity_msat);
    lemma_big_endian_8_injective(a.spendable_outbound_msat, b.spendable_outbound_msat);
    lemma_big_endian_8_injective(a.spendable_inbound_msat, b.spendable_inbound_msat);
    assert(seq![status_code(a.status)][0] == seq![status_code(b.status)][0]);
    lemma_status_code_injective(a.status, b.status);
}

/// Two snapshots have the same digest exactly if they agree in everything but when
/// they were seen and the digest stored with them, as long as the digest tells their
/// encodings apart.
pub proof fn lemma_snapshot_digest_distinguishes(a: ChannelSnapshotView, b: ChannelSnapshotView)
    requires
        no_collision(encoded(snapshot_parts(a)), encoded(snapshot_parts(b))),
        fits_optional_field(a.node_id),
        fits_optional_field(b.node_id),
        text_bytes(a.channel_id).len() <= u64::MAX,
        text_bytes(b.channel_id).len() <= u64::MAX,
    ensures
        snapshot_digest(a) == snapshot_digest(b) <==> a == (ChannelSnapshotView {
            ts: a.ts,
            state_digest: a.state_digest,
            ..b
        }),
{
    lemma_digest_distinguishes(encoded(snapshot_parts(a)), encoded(snapshot_parts(b)));
    lemma_snapshot_digest_ignores_observation(b, a.ts, a.state_digest);
    if snapshot_digest(a) == snapshot_digest(b) {
        lemma_snapshot_encoding_injective(a, b);
    }
}

/// Whether every text of a channel is short enough for its length to be
/// written in eight bytes.
pub open spec fn channel_fits(c: ChannelView) -> bool {
    text_bytes(c.id).len() <= u64::MAX && text_bytes(c.node).len() <= u64::MAX && text_bytes(
        c.peer,
    ).len() <= u64::MAX && text_bytes(c.channel_point).len() <= u64::MAX
}

/// Two channels whose digests are taken over the same bytes agree in everything
/// but when they were last seen.
pub proof fn lemma_channel_encoding_injective(a: ChannelView, b: ChannelView)
    requires
        encoded(channel_parts(a)) == encoded(channel_parts(b)),
        channel_fits(a),
        channel_fits(b),
    ensures
        a == (ChannelView { last_seen: a.last_seen, ..b }),
{
    let x = channel_parts(a);
    let y = channel_parts(b);
    lemma_number_lengths();
    reveal_strlit("rieko-channel-state-v1");
    lemma_label_fits("rieko-channel-state-v1"@);
    lemma_encoded_injective(x, y);
    assert(x[1] == y[1] && x[2] == y[2] && x[3] == y[3] && x[4] == y[4] && x[5] == y[5] && x[6]
        == y[6] && x[7] == y[7] && x[8] == y[8] && x[9] == y[9] && x[10] == y[10] && x[11] == y[11]
        && x[12] == y[12] && x[13] == y[13]);
    assert(x[14] == y[14] && x[15] == y[15] && x[16] == y[16] && x[17] == y[17] && x[18] == y[18]
        && x[19] == y[19] && x[20] == y[20] && x[21] == y[21] && x[22] == y[22] && x[23] == y[23]
        && x[24] == y[24] && x[25] == y[25] && x[26] == y[26]);
    lemma_text_bytes_injective(a.id, b.id);
    lemma_text_bytes_injective(a.node, b.node);
    lemma_text_bytes_injective(a.peer, b.peer);
    lemma_text_bytes_injective(a.channel_point, b.channel_point);
    lemma_big_endian_8_injective(a.capacity_msat, b.capacity_msat);
    lemma_big_endian_8_injective(a.fee_policy.base_fee_msat, b.fee_policy.base_fee_msat);
    lemma_big_endian_8_injective(a.fee_policy.fee_rate_ppm, b.fee_policy.fee_rate_ppm);
    lemma_big_endian_8_injective(a.fee_policy.min_htlc_msat, b.fee_policy.min_htlc_msat);
    lemma_optional_u64_injective(a.fee_policy.max_htlc_msat, b.fee_policy.max_htlc_msat);
    lemma_big_endian_4_injective(a.fee_policy.cltv_delta, b.fee_policy.cltv_delta);
    assert(seq![status_code(a.status)][0] == seq![status_code(b.status)][0]);
    lemma_status_code_injective(a.status, b.status);
    let la = a.liquidity;
    let lb = b.liquidity;
    lemma_big_endian_8_injective(la.local_ratio.bits, lb.local_ratio.bits);
    lemma_big_endian_8_injective(la.local_balance_msat, lb.local_balance_msat);
    lemma_big_endian_8_injective(la.remote_balance_msat, lb.remote_balance_msat);
    lemma_big_endian_8_injective(la.inbound_capacity_msat, lb.inbound_capacity_msat);
    lemma_big_endian_8_injective(la.outbound_capacity_msat, lb.outbound_capacity_msat);
    lemma_big_endian_8_injective(la.spendable_outbound_msat, lb.spendable_outbound_msat);
    lemma_big_endian_8_injective(la.spendable_inbound_msat, lb.spendable_inbound_msat);
    assert(seq![imbalance_code(la.imbalance)][0] == seq![imbalance_code(lb.imbalance)][0]);
    lemma_imbalance_code_injective(la.imbalance, lb.imbalance);
    if a.opening_height is Some {
        lemma_big_endian_4_injective(a.opening_height->0, b.opening_height->0);
    }
    lemma_optional_u64_injective(a.local_reserve_msat, b.local_reserve_msat);
    lemma_optional_u64_injective(a.remote_reserve_msat, b.remote_reserve_msat);
    assert(seq![flag_byte(a.is_private)][0] == seq![flag_byte(b.is_private)][0]);
    assert(seq![flag_byte(a.is_initiator)][0] == seq![flag_byte(b.is_initiator)][0]);
    lemma_optional_u64_injective(a.total_sent_msat, b.total_sent_msat);
    lemma_optional_u64_injective(a.total_received_msat, b.total_received_msat);
}

/// Two channels have the same digest exactly if they agree in everything but when
/// they were last seen, as long as the digest tells their encodings apart.
pub proof fn lemma_channel_digest_distinguishes(a: ChannelView, b: ChannelView)
    requires
        no_collision(encoded(channel_parts(a)), encoded(channel_parts(b))),
        channel_fits(a),
        channel_fits(b),
    ensures
        channel_digest(a) == channel_digest(b) <==> a == (ChannelView {
            last_seen: a.last_seen,
            ..b
        }),
{
    lemma_digest_distinguishes(encoded(channel_parts(a)), encoded(channel_parts(b)));
    lemma_channel_digest_ignores_last_seen(b, a.last_seen);
    if channel_digest(a) == channel_digest(b) {
        lemma_channel_encoding_injective(a, b);
    }
}

proof fn lemma_imbalance_code_injective(a: LiquidityImbalance, b: LiquidityImbalance)
    requires
        imbalance_code(a) == imbalance_code(b),
    ensures
        a == b,
{
}

proof fn lemma_optional_u64_injective(a: Option<u64>, b: Option<u64>)
    requires
        optional_u64_bytes(a) == optional_u64_bytes(b),
    ensures
        a == b,
{
    if a is Some {
        lemma_big_endian_8_injective(a->0, b->0);
    }
}

} // verus!
