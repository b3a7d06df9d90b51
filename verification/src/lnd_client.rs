//! What the LND client decides before and after it talks to a node.
use crate::domain::{
    BitcoinNetwork, Channel, ChannelSnapshot, ChannelSnapshotView, ForwardEvent, NodeId,
};
use crate::ingest::NodeSnapshot;
use crate::lnd_model::{
    LndChannel, LndChannelView, LndForward, LndGetInfoResponse, LndGetInfoResponseView,
};
use crate::lnd_normalize;
use crate::lnd_normalize::{Normalizer, NormalizerError, NormalizerErrorView, ShortChanResolver};
use crate::text;
use crate::text::same_text;
use crate::time::Timestamp;
use vstd::prelude::*;
use vstd::utf8::*;

verus! {

/// The value of the macaroon header: the bytes in lower-case hexadecimal.
pub fn macaroon_header(bytes: Vec<u8>) -> (r: String)
    ensures
        r@ == text::hex_text(bytes@),
{
    text::lower_hex(&bytes)
}

/// Whether a URL would carry the macaroon in the clear.
pub open spec fn in_the_clear(url: Seq<char>) -> bool {
    text::begins_with(
        text::trimmed_start(url).map_values(|c: char| text::ascii_lower(c)),
        "http://"@,
    )
}

/// Whether a URL would carry the macaroon in the clear.
pub fn is_insecure(url: &str) -> (r: bool)
    ensures
        r == in_the_clear(url@),
{
    let lower = text::lower_text(text::trim_start_text(url).as_str());
    text::after_prefix(lower.as_str(), "http://").is_some()
}

/// Why a client cannot be set up.
#[derive(Debug, PartialEq, Eq)]
pub enum LndSetupError {
    InsecureTransport,
    Tls(String),
}

/// What a client needs to know to talk to a node.
#[derive(Debug, PartialEq, Eq)]
pub struct LndSettings {
    pub rest_base: String,
    pub macaroon_hex: Option<String>,
}

/// The settings for a node at `rest_base`. A URL that would carry the macaroon
/// in the clear is refused unless that is allowed.
pub fn client_settings(rest_base: &str, macaroon: Option<Vec<u8>>, allow_insecure: bool) -> (r:
    Result<LndSettings, LndSetupError>)
    ensures
        match r {
            Ok(s) => (allow_insecure || !in_the_clear(rest_base@)) && s.rest_base@ == rest_base@
                && s.macaroon_hex.deep_view() == (match macaroon {
                Some(bytes) => Some(text::hex_text(bytes@)),
                None => None,
            }),
            Err(e) => !allow_insecure && in_the_clear(rest_base@) && e
                == LndSetupError::InsecureTransport,
        },
{
    if !allow_insecure && is_insecure(rest_base) {
        return Err(LndSetupError::InsecureTransport);
    }
    let macaroon_hex = match macaroon {
        Some(bytes) => Some(macaroon_header(bytes)),
        None => None,
    };
    Ok(LndSettings { rest_base: rest_base.to_owned(), macaroon_hex })
}

/// The URL of an endpoint: the base without trailing slashes, then the path.
pub fn endpoint_url(rest_base: &str, path: &str) -> (r: String)
    ensures
        r@ == text::without_trailing(rest_base@, '/') + path@,
{
    text::trim_trailing(rest_base, '/').concat(path)
}

/// Checks that a text holds a certificate in PEM form.
pub fn check_certificate(pem: &str) -> (r: Result<(), LndSetupError>)
    ensures
        match r {
            Ok(_) => text::occurs(pem@, "-----BEGIN CERTIFICATE-----"@),
            Err(e) => !text::occurs(pem@, "-----BEGIN CERTIFICATE-----"@) && (e matches LndSetupError::Tls(
                message,
            ) && message@ == "no certificate found in --tls-cert"@),
        },
{
    if text::contains_text(pem, "-----BEGIN CERTIFICATE-----") {
        Ok(())
    } else {
        Err(LndSetupError::Tls("no certificate found in --tls-cert".to_owned()))
    }
}

/// What is wrong with the bytes of a certificate file.
pub open spec fn certificate_refusal(pem: Seq<u8>) -> Option<Seq<char>> {
    if !valid_utf8(pem) {
        Some("invalid certificate encoding: "@ + text::utf8_error_of(pem))
    } else if !text::occurs(decode_utf8(pem), "-----BEGIN CERTIFICATE-----"@) {
        Some("no certificate found in --tls-cert"@)
    } else {
        None
    }
}

/// Checks that the bytes of a file hold a certificate in PEM form.
pub fn check_certificate_file(pem: &[u8]) -> (r: Result<(), LndSetupError>)
    ensures
        match r {
            Ok(_) => certificate_refusal(pem@) is None,
            Err(e) => e matches LndSetupError::Tls(message) && certificate_refusal(pem@) == Some(
                message@,
            ),
        },
{
    match text::utf8_text(pem) {
        Ok(s) => check_certificate(s.as_str()),
        Err(message) => Err(
            LndSetupError::Tls(
                "invalid certificate encoding: ".to_owned().concat(message.as_str()),
            ),
        ),
    }
}

/// Whether the amounts of all channels can be held in millisatoshis.
pub open spec fn all_amounts_fit(channels: Seq<LndChannelView>) -> bool {
    forall|i: int| 0 <= i < channels.len() ==> lnd_normalize::amounts_fit(#[trigger] channels[i])
}

/// The error of the first channel that is refused, if one is.
pub open spec fn first_refusal(channels: Seq<LndChannelView>) -> Option<NormalizerErrorView>
    decreases channels.len(),
{
    if channels.len() == 0 {
        None
    } else if lnd_normalize::channel_refusal(channels[0]) is Some {
        lnd_normalize::channel_refusal(channels[0])
    } else {
        first_refusal(channels.skip(1))
    }
}

/// The channels that LND's stand for, or the error of the first one refused.
pub fn normalize_channels(raw: &Vec<LndChannel>, local_node: &NodeId, now: Timestamp) -> (r: Result<
    Vec<Channel>,
    NormalizerError,
>)
    requires
        all_amounts_fit(raw.deep_view()),
    ensures
        match r {
            Ok(channels) => first_refusal(raw.deep_view()) is None && channels.deep_view()
                == raw.deep_view().map_values(
                |c: LndChannelView|
                    lnd_normalize::normalized_channel(c, local_node.deep_view(), now),
            ),
            Err(e) => first_refusal(raw.deep_view()) == Some(e.deep_view()),
        },
{
    let ghost all = raw.deep_view();
    let mut out: Vec<Channel> = Vec::new();
    let mut i: usize = 0;
    assert(all.skip(0) =~= all);
    while i < raw.len()
        invariant
            i <= raw.len(),
            all == raw.deep_view(),
            all_amounts_fit(all),
            first_refusal(all) == first_refusal(all.skip(i as int)),
            out.deep_view().len() == i,
            forall|k: int|
                0 <= k < i ==> #[trigger] out.deep_view()[k] == lnd_normalize::normalized_channel(
                    all[k],
                    local_node.deep_view(),
                    now,
                ),
        decreases raw.len() - i,
    {
        assert(all[i as int] == raw[i as int].deep_view());
        assert(all.skip(i as int)[0] == all[i as int]);
        assert(all.skip(i as int).skip(1) =~= all.skip(i + 1));
        match Normalizer::channel(&raw[i], local_node, now) {
            Ok(channel) => {
                let ghost before = out.deep_view();
                out.push(channel);
                assert(out.deep_view() =~= before.push(channel.deep_view()));
            },
            Err(e) => {
                return Err(e);
            },
        }
        i += 1;
    }
    assert(out.deep_view() =~= all.map_values(
        |c: LndChannelView| lnd_normalize::normalized_channel(c, local_node.deep_view(), now),
    ));
    Ok(out)
}

/// The snapshots of the channels that are not refused, in order.
pub open spec fn usable_snapshots(
    channels: Seq<LndChannelView>,
    node: Seq<char>,
    network: BitcoinNetwork,
    now: Timestamp,
) -> Seq<ChannelSnapshotView>
    decreases channels.len(),
{
    if channels.len() == 0 {
        seq![]
    } else {
        let before = usable_snapshots(channels.drop_last(), node, network, now);
        if lnd_normalize::channel_refusal(channels.last()) is Some {
            before
        } else {
            before.push(
                crate::domain::snapshot_of(
                    lnd_normalize::normalized_channel(channels.last(), node, now),
                    now,
                    network,
                ),
            )
        }
    }
}

/// The snapshot of the node that LND speaks for. Channels that are refused are
/// left out.
pub fn node_snapshot(
    info: &LndGetInfoResponse,
    raw: &Vec<LndChannel>,
    network: BitcoinNetwork,
    now: Timestamp,
) -> (r: NodeSnapshot)
    requires
        all_amounts_fit(raw.deep_view()),
    ensures
        r.deep_view() == crate::ingest::node_snapshot(
            info.deep_view().identity_pubkey,
            network,
            usable_snapshots(raw.deep_view(), info.deep_view().identity_pubkey, network, now),
            now,
            None,
            None,
        ),
{
    let node = NodeId::new(info.identity_pubkey.as_str());
    let ghost all = raw.deep_view();
    let mut out: Vec<ChannelSnapshot> = Vec::new();
    let mut i: usize = 0;
    assert(out.deep_view() =~= usable_snapshots(all.take(0), node.deep_view(), network, now));
    while i < raw.len()
        invariant
            i <= raw.len(),
            all == raw.deep_view(),
            all_amounts_fit(all),
            out.deep_view() == usable_snapshots(
                all.take(i as int),
                node.deep_view(),
                network,
                now,
            ),
        decreases raw.len() - i,
    {
        assert(all[i as int] == raw[i as int].deep_view());
        assert(all.take(i + 1).drop_last() =~= all.take(i as int));
        assert(all.take(i + 1).last() == all[i as int]);
        if let Ok(channel) = Normalizer::channel(&raw[i], &node, now) {
            let ghost before = out.deep_view();
            let snapshot = ChannelSnapshot::from_channel(&channel, now, network);
            out.push(snapshot);
            assert(out.deep_view() =~= before.push(snapshot.deep_view()));
        }
        i += 1;
    }
    assert(all.take(i as int) =~= all);
    NodeSnapshot::from_channels(node.as_str().to_owned(), network, out, now, None, None)
}

/// Whether a supplied node identity contradicts the one that the node reports.
pub fn contradicts(hint: &str, reported: &str) -> (r: bool)
    ensures
        r == (hint@ != reported@ && hint@ != "local-node"@),
{
    !same_text(hint, reported) && !same_text(hint, "local-node")
}

/// The forwarded payments that LND's stand for.
pub fn normalize_forwards(raw: &Vec<LndForward>, resolver: &ShortChanResolver) -> (r: Vec<
    ForwardEvent,
>)
    ensures
        r.deep_view() == raw@.map_values(
            |f: LndForward| lnd_normalize::normalized_forward(f, *resolver),
        ),
{
    let mut out: Vec<ForwardEvent> = Vec::new();
    let mut i: usize = 0;
    while i < raw.len()
        invariant
            i <= raw.len(),
            out.deep_view().len() == i,
            forall|k: int|
                0 <= k < i ==> #[trigger] out.deep_view()[k] == lnd_normalize::normalized_forward(
                    raw@[k],
                    *resolver,
                ),
        decreases raw.len() - i,
    {
        let ghost before = out.deep_view();
        let event = Normalizer::forward(&raw[i], resolver);
        out.push(event);
        assert(out.deep_view() =~= before.push(event.deep_view()));
        i += 1;
    }
    assert(out.deep_view() =~= raw@.map_values(
        |f: LndForward| lnd_normalize::normalized_forward(f, *resolver),
    ));
    out
}

/// What the health check of a node that answers says.
pub open spec fn online_text(info: LndGetInfoResponseView) -> Seq<char> {
    "LND online: "@ + (match info.alias {
        Some(alias) => alias,
        None => info.identity_pubkey,
    }) + " ("@ + crate::finding::or_empty(info.version) + ")"@
}

/// What the health check of a node that answers says.
pub fn online_message(info: &LndGetInfoResponse) -> (r: String)
    ensures
        r@ == online_text(info.deep_view()),
{
    let name = match &info.alias {
        Some(alias) => alias.clone(),
        None => info.identity_pubkey.clone(),
    };
    let version = match &info.version {
        Some(version) => version.clone(),
        None => String::new(),
    };
    "LND online: ".to_owned().concat(name.as_str()).concat(" (").concat(version.as_str()).concat(
        ")",
    )
}

/// A macaroon header has two characters for each byte.
pub proof fn lemma_macaroon_header_length(bytes: Seq<u8>)
    ensures
        text::hex_text(bytes).len() == 2 * bytes.len(),
    decreases bytes.len(),
{
    if bytes.len() > 0 {
        lemma_macaroon_header_length(bytes.drop_last());
    }
}

/// Channels are refused as a whole exactly if one of them is, with the error of
/// the first that is.
pub proof fn lemma_the_first_refusal_counts(channels: Seq<LndChannelView>)
    ensures
        first_refusal(channels) is None <==> forall|i: int|
            0 <= i < channels.len() ==> lnd_normalize::channel_refusal(#[trigger] channels[i])
                is None,
        first_refusal(channels) is Some ==> exists|i: int|
            {
                &&& 0 <= i < channels.len()
                &&& lnd_normalize::channel_refusal(#[trigger] channels[i]) == first_refusal(
                    channels,
                )
                &&& forall|k: int|
                    0 <= k < i ==> lnd_normalize::channel_refusal(#[trigger] channels[k]) is None
            },
    decreases channels.len(),
{
    if channels.len() > 0 {
        if lnd_normalize::channel_refusal(channels[0]) is None {
            let rest = channels.skip(1);
            lemma_the_first_refusal_counts(rest);
            assert forall|i: int|
                first_refusal(channels) is None && 0 <= i < channels.len() implies lnd_normalize::channel_refusal(
                #[trigger] channels[i],
            ) is None by {
                if i > 0 {
                    assert(rest[i - 1] == channels[i]);
                }
            }
            if first_refusal(channels) is Some {
                let j = choose|i: int|
                    {
                        &&& 0 <= i < rest.len()
                        &&& lnd_normalize::channel_refusal(#[trigger] rest[i]) == first_refusal(
                            rest,
                        )
                        &&& forall|k: int|
                            0 <= k < i ==> lnd_normalize::channel_refusal(#[trigger] rest[k])
                                is None
                    };
                assert(channels[j + 1] == rest[j]);
                assert forall|k: int| 0 <= k < j + 1 implies lnd_normalize::channel_refusal(
                    #[trigger] channels[k],
                ) is None by {
                    if k > 0 {
                        assert(rest[k - 1] == channels[k]);
                    }
                }
            }
        } else {
            assert(lnd_normalize::channel_refusal(channels[0]) == first_refusal(channels));
        }
    }
}

/// One more channel at the end adds its snapshot at the end exactly if it is not
/// refused; no other channel has a say in that.
pub proof fn lemma_each_channel_for_itself(
    channels: Seq<LndChannelView>,
    c: LndChannelView,
    node: Seq<char>,
    network: BitcoinNetwork,
    now: Timestamp,
)
    ensures
        usable_snapshots(seq![], node, network, now).len() == 0,
        lnd_normalize::channel_refusal(c) is Some ==> usable_snapshots(
            channels.push(c),
            node,
            network,
            now,
        ) == usable_snapshots(channels, node, network, now),
        lnd_normalize::channel_refusal(c) is None ==> usable_snapshots(
            channels.push(c),
            node,
            network,
            now,
        ) == usable_snapshots(channels, node, network, now).push(
            crate::domain::snapshot_of(
                lnd_normalize::normalized_channel(c, node, now),
                now,
                network,
            ),
        ),
{
    assert(channels.push(c).drop_last() =~= channels);
}

/// White space before a URL has no say in whether it is safe. Beyond it, the URL
/// is not exactly if it begins with `http://`, in whatever case.
pub proof fn lemma_what_goes_in_the_clear(url: Seq<char>, c: char)
    ensures
        text::white(c) ==> in_the_clear(seq![c] + url) == in_the_clear(url),
        url.len() == 0 ==> !in_the_clear(url),
        url.len() > 0 && !text::white(url[0]) ==> (in_the_clear(url) <==> {
            &&& url.len() >= 7
            &&& url[0] == 'h' || url[0] == 'H'
            &&& url[1] == 't' || url[1] == 'T'
            &&& url[2] == 't' || url[2] == 'T'
            &&& url[3] == 'p' || url[3] == 'P'
            &&& url[4] == ':'
            &&& url[5] == '/'
            &&& url[6] == '/'
        }),
{
    reveal_strlit("http://");
    let prefix = "http://"@;
    assert((seq![c] + url).skip(1) =~= url);
    if url.len() > 0 && !text::white(url[0]) {
        assert(text::trimmed_start(url) == url);
        let lower = url.map_values(|c: char| text::ascii_lower(c));
        if url.len() >= 7 {
            assert forall|i: int| 0 <= i < 7 implies lower.take(7)[i] == #[trigger] text::ascii_lower(
                url[i],
            ) by {}
            if url[0] == 'h' || url[0] == 'H' {
                if (url[1] == 't' || url[1] == 'T') && (url[2] == 't' || url[2] == 'T') && (url[3]
                    == 'p' || url[3] == 'P') && url[4] == ':' && url[5] == '/' && url[6] == '/' {
                    assert(lower.take(7) =~= prefix);
                }
            }
            if lower.take(7) == prefix {
                assert(text::ascii_lower(url[0]) == prefix[0]);
                assert(text::ascii_lower(url[1]) == prefix[1]);
                assert(text::ascii_lower(url[2]) == prefix[2]);
                assert(text::ascii_lower(url[3]) == prefix[3]);
                assert(text::ascii_lower(url[4]) == prefix[4]);
                assert(text::ascii_lower(url[5]) == prefix[5]);
                assert(text::ascii_lower(url[6]) == prefix[6]);
            }
        }
    }
}

/// The bytes of a file hold a certificate exactly if they are text that has the
/// mark of one.
pub proof fn lemma_which_files_hold_a_certificate(pem: Seq<u8>)
    ensures
        certificate_refusal(pem) is None <==> valid_utf8(pem) && text::occurs(
            decode_utf8(pem),
            "-----BEGIN CERTIFICATE-----"@,
        ),
{
}

} // verus!
