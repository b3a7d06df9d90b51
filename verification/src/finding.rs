//! Findings: detected conditions with their evidence and provenance.
use crate::domain::BitcoinNetwork;
use crate::json::{Json, JsonView};
use crate::numeric::INFINITY_BITS;
use crate::ratio::{NEGATIVE_INFINITY_BITS, NEGATIVE_ZERO_BITS};
use crate::text;
use crate::text::copy_optional_text;
use crate::time::Timestamp;
use vstd::prelude::*;

verus! {

/// Where the raw observation behind a finding came from, redacted.
#[derive(Debug, PartialEq, Eq)]
pub enum ObservationSource {
    Fixture { redacted_hash: String, configured_node: String },
    Lnd { redacted_endpoint: String, configured_node: String },
    BtcPay {
        redacted_endpoint: String,
        configured_store: String,
        underlying_node: Option<String>,
    },
}

/// The mathematical value of an [`ObservationSource`].
pub enum ObservationSourceView {
    Fixture { redacted_hash: Seq<char>, configured_node: Seq<char> },
    Lnd { redacted_endpoint: Seq<char>, configured_node: Seq<char> },
    BtcPay {
        redacted_endpoint: Seq<char>,
        configured_store: Seq<char>,
        underlying_node: Option<Seq<char>>,
    },
}

impl DeepView for ObservationSource {
    type V = ObservationSourceView;

    open spec fn deep_view(&self) -> ObservationSourceView {
        match self {
            ObservationSource::Fixture {
                redacted_hash,
                configured_node,
            } => ObservationSourceView::Fixture {
                redacted_hash: redacted_hash@,
                configured_node: configured_node@,
            },
            ObservationSource::Lnd {
                redacted_endpoint,
                configured_node,
            } => ObservationSourceView::Lnd {
                redacted_endpoint: redacted_endpoint@,
                configured_node: configured_node@,
            },
            ObservationSource::BtcPay {
                redacted_endpoint,
                configured_store,
                underlying_node,
            } => ObservationSourceView::BtcPay {
                redacted_endpoint: redacted_endpoint@,
                configured_store: configured_store@,
                underlying_node: underlying_node.deep_view(),
            },
        }
    }
}

impl Clone for ObservationSource {
    fn clone(&self) -> (r: Self)
        ensures
            r.deep_view() == self.deep_view(),
    {
        match self {
            ObservationSource::Fixture {
                redacted_hash,
                configured_node,
            } => ObservationSource::Fixture {
                redacted_hash: redacted_hash.clone(),
                configured_node: configured_node.clone(),
            },
            ObservationSource::Lnd {
                redacted_endpoint,
                configured_node,
            } => ObservationSource::Lnd {
                redacted_endpoint: redacted_endpoint.clone(),
                configured_node: configured_node.clone(),
            },
            ObservationSource::BtcPay {
                redacted_endpoint,
                configured_store,
                underlying_node,
            } => ObservationSource::BtcPay {
                redacted_endpoint: redacted_endpoint.clone(),
                configured_store: configured_store.clone(),
                underlying_node: copy_optional_text(underlying_node),
            },
        }
    }
}

/// The role of the component that produced an observation.
#[derive(Debug, Clone, Copy, PartialEq, Eq, Structural)]
pub enum ProducerRole {
    Ingest,
    Normalizer,
    Detector,
}

impl DeepView for ProducerRole {
    type V = ProducerRole;

    open spec fn deep_view(&self) -> ProducerRole {
        *self
    }
}

/// A component that took part in producing an observation.
#[derive(Debug, PartialEq, Eq)]
pub struct ProducerVersion {
    pub name: String,
    pub version: String,
    pub role: ProducerRole,
}

/// The mathematical value of a [`ProducerVersion`].
pub struct ProducerVersionView {
    pub name: Seq<char>,
    pub version: Seq<char>,
    pub role: ProducerRole,
}

impl DeepView for ProducerVersion {
    type V = ProducerVersionView;

    open spec fn deep_view(&self) -> ProducerVersionView {
        ProducerVersionView {
            name: self.name.deep_view(),
            version: self.version.deep_view(),
            role: self.role,
        }
    }
}

impl Clone for ProducerVersion {
    fn clone(&self) -> (r: Self)
        ensures
            r.deep_view() == self.deep_view(),
    {
        ProducerVersion {
            name: self.name.clone(),
            version: self.version.clone(),
            role: self.role,
        }
    }
}

/// A reference to one observed channel snapshot.
#[derive(Debug, PartialEq, Eq)]
pub struct ChannelSnapshotReference {
    pub network: Option<BitcoinNetwork>,
    pub observed_at: Timestamp,
    pub state_digest: String,
}

/// The mathematical value of a [`ChannelSnapshotReference`].
pub struct ChannelSnapshotReferenceView {
    pub network: Option<BitcoinNetwork>,
    pub observed_at: Timestamp,
    pub state_digest: Seq<char>,
}

impl DeepView for ChannelSnapshotReference {
    type V = ChannelSnapshotReferenceView;

    open spec fn deep_view(&self) -> ChannelSnapshotReferenceView {
        ChannelSnapshotReferenceView {
            network: self.network,
            observed_at: self.observed_at,
            state_digest: self.state_digest.deep_view(),
        }
    }
}

impl Clone for ChannelSnapshotReference {
    fn clone(&self) -> (r: Self)
        ensures
            r.deep_view() == self.deep_view(),
    {
        ChannelSnapshotReference {
            network: self.network,
            observed_at: self.observed_at,
            state_digest: self.state_digest.clone(),
        }
    }
}

/// The channel observation that a finding rests on.
#[derive(Debug, PartialEq, Eq)]
pub enum ObservationReference {
    ChannelState { channel_id: String, snapshot: ChannelSnapshotReference },
    ChannelWindow { channel_id: String, snapshots: Vec<ChannelSnapshotReference> },
}

/// The mathematical value of an [`ObservationReference`].
pub enum ObservationReferenceView {
    ChannelState { channel_id: Seq<char>, snapshot: ChannelSnapshotReferenceView },
    ChannelWindow { channel_id: Seq<char>, snapshots: Seq<ChannelSnapshotReferenceView> },
}

impl DeepView for ObservationReference {
    type V = ObservationReferenceView;

    open spec fn deep_view(&self) -> ObservationReferenceView {
        match self {
            ObservationReference::ChannelState {
                channel_id,
                snapshot,
            } => ObservationReferenceView::ChannelState {
                channel_id: channel_id@,
                snapshot: snapshot.deep_view(),
            },
            ObservationReference::ChannelWindow {
                channel_id,
                snapshots,
            } => ObservationReferenceView::ChannelWindow {
                channel_id: channel_id@,
                snapshots: snapshots.deep_view(),
            },
        }
    }
}

impl Clone for ObservationReference {
    fn clone(&self) -> (r: Self)
        ensures
            r.deep_view() == self.deep_view(),
    {
        match self {
            ObservationReference::ChannelState {
                channel_id,
                snapshot,
            } => ObservationReference::ChannelState {
                channel_id: channel_id.clone(),
                snapshot: snapshot.clone(),
            },
            ObservationReference::ChannelWindow { channel_id, snapshots } => {
                let copies = snapshots.clone();
                assert(copies.deep_view() =~= snapshots.deep_view());
                ObservationReference::ChannelWindow {
                    channel_id: channel_id.clone(),
                    snapshots: copies,
                }
            },
        }
    }
}

/// Where the evidence that a finding holds came from.
#[derive(Debug, PartialEq, Eq)]
pub struct FindingProvenance {
    pub network: Option<BitcoinNetwork>,
    pub source: ObservationSource,
    pub producers: Vec<ProducerVersion>,
    pub observation: ObservationReference,
}

/// The mathematical value of a [`FindingProvenance`].
pub struct FindingProvenanceView {
    pub network: Option<BitcoinNetwork>,
    pub source: ObservationSourceView,
    pub producers: Seq<ProducerVersionView>,
    pub observation: ObservationReferenceView,
}

impl DeepView for FindingProvenance {
    type V = FindingProvenanceView;

    open spec fn deep_view(&self) -> FindingProvenanceView {
        FindingProvenanceView {
            network: self.network,
            source: self.source.deep_view(),
            producers: self.producers.deep_view(),
            observation: self.observation.deep_view(),
        }
    }
}

impl Clone for FindingProvenance {
    fn clone(&self) -> (r: Self)
        ensures
            r.deep_view() == self.deep_view(),
    {
        let producers = self.producers.clone();
        assert(producers.deep_view() =~= self.producers.deep_view());
        FindingProvenance {
            network: self.network,
            source: self.source.clone(),
            producers,
            observation: self.observation.clone(),
        }
    }
}

/// What one detector cycle covered, and whether it covered all of it.
#[derive(Debug, PartialEq, Eq)]
pub struct FindingCycleScope {
    pub detector: String,
    pub network: Option<BitcoinNetwork>,
    pub node: Option<String>,
    pub complete: bool,
}

/// The mathematical value of a [`FindingCycleScope`].
pub struct FindingCycleScopeView {
    pub detector: Seq<char>,
    pub network: Option<BitcoinNetwork>,
    pub node: Option<Seq<char>>,
    pub complete: bool,
}

impl DeepView for FindingCycleScope {
    type V = FindingCycleScopeView;

    open spec fn deep_view(&self) -> FindingCycleScopeView {
        FindingCycleScopeView {
            detector: self.detector.deep_view(),
            network: self.network,
            node: self.node.deep_view(),
            complete: self.complete,
        }
    }
}

impl Clone for FindingCycleScope {
    fn clone(&self) -> (r: Self)
        ensures
            r.deep_view() == self.deep_view(),
    {
        FindingCycleScope {
            detector: self.detector.clone(),
            network: self.network,
            node: copy_optional_text(&self.node),
            complete: self.complete,
        }
    }
}

/// How much a finding matters.
#[derive(Debug, Clone, Copy, PartialEq, Eq, PartialOrd, Ord, Structural)]
pub enum Severity {
    Info,
    Warning,
    Critical,
}

impl DeepView for Severity {
    type V = Severity;

    open spec fn deep_view(&self) -> Severity {
        *self
    }
}

/// One structured piece of evidence.
#[derive(Debug, PartialEq)]
pub struct Evidence {
    pub key: String,
    pub value: Json,
}

/// The mathematical value of a [`Evidence`].
pub struct EvidenceView {
    pub key: Seq<char>,
    pub value: JsonView,
}

impl DeepView for Evidence {
    type V = EvidenceView;

    open spec fn deep_view(&self) -> EvidenceView {
        EvidenceView {
            key: self.key.deep_view(),
            value: self.value.deep_view(),
        }
    }
}

impl Clone for Evidence {
    fn clone(&self) -> (r: Self)
        ensures
            r.deep_view() == self.deep_view(),
    {
        Evidence {
            key: self.key.clone(),
            value: self.value.clone(),
        }
    }
}

/// Whether bits are those of a finite double.
pub open spec fn finite_bits(bits: u64) -> bool {
    bits < INFINITY_BITS || NEGATIVE_ZERO_BITS <= bits < NEGATIVE_INFINITY_BITS
}

impl Evidence {
    /// Evidence whose value is a string.
    pub fn string(key: &str, value: &str) -> (r: Evidence)
        ensures
            r.deep_view() == (EvidenceView { key: key@, value: JsonView::Text(value@) }),
    {
        Evidence { key: key.to_owned(), value: Json::Text(value.to_owned()) }
    }

    /// Evidence whose value is a string.
    pub fn text(key: &str, value: &str) -> (r: Evidence)
        ensures
            r.deep_view() == (EvidenceView { key: key@, value: JsonView::Text(value@) }),
    {
        Self::string(key, value)
    }

    /// Evidence whose value is the double of these bits, or null where they are those
    /// of an infinity or of no number. The JSON text of the double comes with it and
    /// is taken as it is.
    pub fn number(key: &str, bits: u64, text: &str) -> (r: Evidence)
        ensures
            r.deep_view() == (EvidenceView {
                key: key@,
                value: if finite_bits(bits) {
                    JsonView::Real { bits, text: text@ }
                } else {
                    JsonView::Null
                },
            }),
    {
        let value = if bits < INFINITY_BITS || (NEGATIVE_ZERO_BITS <= bits && bits
            < NEGATIVE_INFINITY_BITS) {
            Json::Real { bits, text: text.to_owned() }
        } else {
            Json::Null
        };
        Evidence { key: key.to_owned(), value }
    }
}

/// The version of the finding layout that is written now.
pub const FINDING_SCHEMA_VERSION: u8 = 2;

/// Whether the condition is still present.
#[derive(Debug, Clone, Copy, PartialEq, Eq, Structural)]
pub enum FindingLifecycle {
    Active,
    Resolved,
}

impl DeepView for FindingLifecycle {
    type V = FindingLifecycle;

    open spec fn deep_view(&self) -> FindingLifecycle {
        *self
    }
}

impl Default for FindingLifecycle {
    fn default() -> (r: Self)
        ensures
            r == FindingLifecycle::Active,
    {
        FindingLifecycle::Active
    }
}

/// Which findings a query asks for.
#[derive(Debug, Clone, Copy, PartialEq, Eq, Structural)]
pub enum FindingLifecycleFilter {
    Active,
    Resolved,
    All,
}

impl DeepView for FindingLifecycleFilter {
    type V = FindingLifecycleFilter;

    open spec fn deep_view(&self) -> FindingLifecycleFilter {
        *self
    }
}

/// A detected condition. Its identity does not depend on how often or when it is seen.
#[derive(Debug, PartialEq)]
pub struct Finding {
    pub id: String,
    pub detector: String,
    pub detector_version: String,
    pub schema_version: u8,
    pub severity: Severity,
    pub node: Option<String>,
    pub channel: Option<String>,
    pub evidence: Vec<Evidence>,
    pub provenance: Option<FindingProvenance>,
    /// A plain-language explanation, where there is one.
    pub explanation: Option<String>,
    /// When this evidence was evaluated.
    pub timestamp: Timestamp,
    pub first_seen_at: Timestamp,
    pub last_seen_at: Timestamp,
    pub lifecycle: FindingLifecycle,
}

/// The mathematical value of a [`Finding`].
pub struct FindingView {
    pub id: Seq<char>,
    pub detector: Seq<char>,
    pub detector_version: Seq<char>,
    pub schema_version: u8,
    pub severity: Severity,
    pub node: Option<Seq<char>>,
    pub channel: Option<Seq<char>>,
    pub evidence: Seq<EvidenceView>,
    pub provenance: Option<FindingProvenanceView>,
    pub explanation: Option<Seq<char>>,
    pub timestamp: Timestamp,
    pub first_seen_at: Timestamp,
    pub last_seen_at: Timestamp,
    pub lifecycle: FindingLifecycle,
}

impl DeepView for Finding {
    type V = FindingView;

    open spec fn deep_view(&self) -> FindingView {
        FindingView {
            id: self.id.deep_view(),
            detector: self.detector.deep_view(),
            detector_version: self.detector_version.deep_view(),
            schema_version: self.schema_version,
            severity: self.severity,
            node: self.node.deep_view(),
            channel: self.channel.deep_view(),
            evidence: self.evidence.deep_view(),
            provenance: self.provenance.deep_view(),
            explanation: self.explanation.deep_view(),
            timestamp: self.timestamp,
            first_seen_at: self.first_seen_at,
            last_seen_at: self.last_seen_at,
            lifecycle: self.lifecycle,
        }
    }
}

impl Clone for Finding {
    fn clone(&self) -> (r: Self)
        ensures
            r.deep_view() == self.deep_view(),
    {
        let evidence = self.evidence.clone();
        assert(evidence.deep_view() =~= self.evidence.deep_view());
        Finding {
            id: self.id.clone(),
            detector: self.detector.clone(),
            detector_version: self.detector_version.clone(),
            schema_version: self.schema_version,
            severity: self.severity,
            node: copy_optional_text(&self.node),
            channel: copy_optional_text(&self.channel),
            evidence,
            provenance: self.provenance.clone(),
            explanation: copy_optional_text(&self.explanation),
            timestamp: self.timestamp,
            first_seen_at: self.first_seen_at,
            last_seen_at: self.last_seen_at,
            lifecycle: self.lifecycle,
        }
    }
}

/// The value of the first piece of evidence named `key`.
pub open spec fn first_evidence(evidence: Seq<EvidenceView>, key: Seq<char>) -> Option<JsonView>
    decreases evidence.len(),
{
    if evidence.len() == 0 {
        None
    } else if evidence[0].key == key {
        Some(evidence[0].value)
    } else {
        first_evidence(evidence.skip(1), key)
    }
}

/// The text that an optional string contributes to a key: nothing where it is absent.
pub open spec fn or_empty(s: Option<Seq<char>>) -> Seq<char> {
    match s {
        Some(t) => t,
        None => seq![],
    }
}

/// The key under which repeated sightings of a finding are one.
pub open spec fn dedup_text(f: FindingView) -> Seq<char> {
    f.detector + seq!['|'] + f.detector_version + seq!['|'] + or_empty(f.node) + seq!['|']
        + or_empty(f.channel)
}

impl Finding {
    /// The value of the first piece of evidence named `key`.
    pub fn evidence_value(&self, key: &str) -> (r: Option<&Json>)
        ensures
            r.deep_view() == first_evidence(self.deep_view().evidence, key@),
    {
        let ghost all = self.evidence.deep_view();
        let mut i: usize = 0;
        assert(all.skip(0) =~= all);
        while i < self.evidence.len()
            invariant
                i <= self.evidence.len(),
                all == self.evidence.deep_view(),
                first_evidence(all, key@) == first_evidence(all.skip(i as int), key@),
            decreases self.evidence.len() - i,
        {
            assert(all.skip(i as int)[0] == self.evidence[i as int].deep_view());
            if text::same_text(self.evidence[i].key.as_str(), key) {
                return Some(&self.evidence[i].value);
            }
            assert(all.skip(i as int).skip(1) =~= all.skip(i + 1));
            i += 1;
        }
        None
    }

    /// The key under which repeated sightings of the finding are one.
    pub fn dedup_key(&self) -> (r: String)
        ensures
            r@ == dedup_text(self.deep_view()),
    {
        let mut out = self.detector.clone();
        out.push('|');
        out.append(self.detector_version.as_str());
        out.push('|');
        if let Some(node) = &self.node {
            out.append(node.as_str());
        }
        out.push('|');
        if let Some(channel) = &self.channel {
            out.append(channel.as_str());
        }
        assert(out@ =~= dedup_text(self.deep_view()));
        out
    }
}

/// Evidence is found by its key: the first piece that has it, and none where none has.
pub proof fn lemma_evidence_is_found_by_key(evidence: Seq<EvidenceView>, key: Seq<char>, k: int)
    requires
        0 <= k <= evidence.len(),
        forall|j: int| 0 <= j < k ==> (#[trigger] evidence[j]).key != key,
        k < evidence.len() ==> evidence[k].key == key,
    ensures
        k < evidence.len() ==> first_evidence(evidence, key) == Some(evidence[k].value),
        k == evidence.len() ==> first_evidence(evidence, key) is None,
    decreases evidence.len(),
{
    if k > 0 {
        assert(evidence[0].key != key);
        let rest = evidence.skip(1);
        assert forall|j: int| 0 <= j < k - 1 implies (#[trigger] rest[j]).key != key by {
            assert(rest[j] == evidence[j + 1]);
        }
        lemma_evidence_is_found_by_key(rest, key, k - 1);
    }
}

/// Sightings that agree in detector, version, node and channel are one finding, whatever
/// else they say.
pub proof fn lemma_sightings_of_one_subject_share_a_key(f: FindingView, g: FindingView)
    requires
        f.detector == g.detector,
        f.detector_version == g.detector_version,
        f.node == g.node,
        f.channel == g.channel,
    ensures
        dedup_text(f) == dedup_text(g),
        f.node is Some && f.channel is Some ==> dedup_text(f) == f.detector + "|"@
            + f.detector_version + "|"@ + f.node->0 + "|"@ + f.channel->0,
{
    reveal_strlit("|");
    assert("|"@ =~= seq!['|']);
}

/// The bits of a double are those of a number that is finite exactly if its
/// exponent is not the greatest there is.
pub proof fn lemma_which_doubles_are_finite(bits: u64)
    ensures
        finite_bits(bits) <==> bits / 0x10_0000_0000_0000 % 2048 != 2047,
{
}

} // verus!
