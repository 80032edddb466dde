//! The mobile libp2p node: its configuration, the commands the UI bridge
//! sends it, the events it sends back, and what it decides for each of them.
//! Running the swarm, the clock and JSON are the caller's.
use vstd::prelude::*;
use vstd::string::*;
use crate::text::{concat_str, trim, trim_str};

verus! {

// ---------------------------------------------------------------------------
// Types
// ---------------------------------------------------------------------------

/// The node's configuration, as the bridge hands it over.
#[derive(Debug)]
pub struct NodeConfig {
    pub username: String,
    pub bootstrap_peers: Vec<String>,
    pub topic: String,
}

/// A [`NodeConfig`] as plain values.
pub struct NodeConfigView {
    pub username: Seq<char>,
    pub bootstrap_peers: Seq<Seq<char>>,
    pub topic: Seq<char>,
}

impl View for NodeConfig {
    type V = NodeConfigView;

    open spec fn view(&self) -> NodeConfigView {
        NodeConfigView {
            username: self.username@,
            bootstrap_peers: self.bootstrap_peers.deep_view(),
            topic: self.topic@,
        }
    }
}

/// The configuration used when the bridge gives none.
pub open spec fn default_node_config() -> NodeConfigView {
    NodeConfigView {
        username: "mobile-user"@,
        bootstrap_peers: Seq::empty(),
        topic: "grok-chat"@,
    }
}

impl Default for NodeConfig {
    fn default() -> (r: Self)
        ensures
            r@ == default_node_config(),
    {
        let r = NodeConfig {
            username: String::from_str("mobile-user"),
            bootstrap_peers: Vec::new(),
            topic: String::from_str("grok-chat"),
        };
        assert(r.bootstrap_peers.deep_view() =~= Seq::<Seq<char>>::empty());
        r
    }
}

/// Commands the bridge sends to the node.
#[derive(Debug)]
pub enum BridgeCommand {
    SendChat { text: String },
    UpdateProfile { username: String },
    RequestPresence,
    Shutdown,
}

/// A [`BridgeCommand`] as plain values.
pub enum BridgeCommandView {
    SendChat { text: Seq<char> },
    UpdateProfile { username: Seq<char> },
    RequestPresence,
    Shutdown,
}

impl View for BridgeCommand {
    type V = BridgeCommandView;

    open spec fn view(&self) -> BridgeCommandView {
        match self {
            BridgeCommand::SendChat { text } => BridgeCommandView::SendChat { text: text@ },
            BridgeCommand::UpdateProfile { username } => BridgeCommandView::UpdateProfile {
                username: username@,
            },
            BridgeCommand::RequestPresence => BridgeCommandView::RequestPresence,
            BridgeCommand::Shutdown => BridgeCommandView::Shutdown,
        }
    }
}

/// Events the node sends back to the bridge.
#[derive(Debug)]
pub enum CoreEvent {
    Started { peer_id: String },
    ChatMessage { from: String, text: String },
    Presence { from: String, status: String, ts: u64 },
    Profile { from: String, username: String },
    Error { message: String },
}

/// A [`CoreEvent`] as plain values.
pub enum CoreEventView {
    Started { peer_id: Seq<char> },
    ChatMessage { from: Seq<char>, text: Seq<char> },
    Presence { from: Seq<char>, status: Seq<char>, ts: u64 },
    Profile { from: Seq<char>, username: Seq<char> },
    Error { message: Seq<char> },
}

impl View for CoreEvent {
    type V = CoreEventView;

    open spec fn view(&self) -> CoreEventView {
        match self {
            CoreEvent::Started { peer_id } => CoreEventView::Started { peer_id: peer_id@ },
            CoreEvent::ChatMessage { from, text } => CoreEventView::ChatMessage {
                from: from@,
                text: text@,
            },
            CoreEvent::Presence { from, status, ts } => CoreEventView::Presence {
                from: from@,
                status: status@,
                ts: *ts,
            },
            CoreEvent::Profile { from, username } => CoreEventView::Profile {
                from: from@,
                username: username@,
            },
            CoreEvent::Error { message } => CoreEventView::Error { message: message@ },
        }
    }
}

/// Errors of the node.
#[derive(Debug)]
pub enum CoreError {
    InvalidConfig(String),
    Runtime(String),
}

/// The text of a [`CoreError`].
pub open spec fn core_error_text(e: &CoreError) -> Seq<char> {
    match e {
        CoreError::InvalidConfig(m) => "invalid config: "@ + m@,
        CoreError::Runtime(m) => "runtime error: "@ + m@,
    }
}

impl CoreError {
    /// The text shown for the error.
    pub fn message(&self) -> (r: String)
        ensures
            r@ == core_error_text(self),
    {
        match self {
            CoreError::InvalidConfig(m) => concat_str("invalid config: ", m.as_str()),
            CoreError::Runtime(m) => concat_str("runtime error: ", m.as_str()),
        }
    }
}

/// What the node publishes on its gossipsub topic.
#[derive(Debug)]
pub enum WireEnvelope {
    Chat { username: String, text: String },
    Presence { username: String, status: String, ts: u64 },
    Profile { username: String },
}

/// A [`WireEnvelope`] as plain values.
pub enum WireEnvelopeView {
    Chat { username: Seq<char>, text: Seq<char> },
    Presence { username: Seq<char>, status: Seq<char>, ts: u64 },
    Profile { username: Seq<char> },
}

impl View for WireEnvelope {
    type V = WireEnvelopeView;

    open spec fn view(&self) -> WireEnvelopeView {
        match self {
            WireEnvelope::Chat { username, text } => WireEnvelopeView::Chat {
                username: username@,
                text: text@,
            },
            WireEnvelope::Presence { username, status, ts } => WireEnvelopeView::Presence {
                username: username@,
                status: status@,
                ts: *ts,
            },
            WireEnvelope::Profile { username } => WireEnvelopeView::Profile {
                username: username@,
            },
        }
    }
}

// ---------------------------------------------------------------------------
// The node
// ---------------------------------------------------------------------------

/// The mobile libp2p node, holding a checked configuration.
pub struct MobileCore {
    config: NodeConfig,
}

impl View for MobileCore {
    type V = NodeConfigView;

    closed spec fn view(&self) -> NodeConfigView {
        self.config@
    }
}

/// What the node does with one bridge command: what it publishes, what it
/// tells the bridge, whether a failure to publish is reported to the bridge
/// (as [`publish_failed_event`] or [`serialize_failed_event`]), and whether it
/// stops.
pub struct CommandOutcome {
    pub publish: Option<WireEnvelope>,
    pub event: Option<CoreEvent>,
    pub report_failure: bool,
    pub shutdown: bool,
}

/// A [`CommandOutcome`] as plain values.
pub struct CommandOutcomeView {
    pub publish: Option<WireEnvelopeView>,
    pub event: Option<CoreEventView>,
    pub report_failure: bool,
    pub shutdown: bool,
}

impl View for CommandOutcome {
    type V = CommandOutcomeView;

    open spec fn view(&self) -> CommandOutcomeView {
        CommandOutcomeView {
            publish: match &self.publish {
                Some(e) => Some(e@),
                None => None,
            },
            event: match &self.event {
                Some(e) => Some(e@),
                None => None,
            },
            report_failure: self.report_failure,
            shutdown: self.shutdown,
        }
    }
}

/// The presence the node announces at `now`: it is online.
pub open spec fn presence_envelope(cfg: NodeConfigView, now: u64) -> WireEnvelopeView {
    WireEnvelopeView::Presence { username: cfg.username, status: "online"@, ts: now }
}

/// The message of the error event for a blank chat text.
pub open spec fn empty_chat_message() -> Seq<char> {
    "chat text must not be empty"@
}

/// What the node does with a bridge command, as peer `local` at `now`:
/// - a chat text is published under the configured name, and a failure to
///   publish it is reported; a blank one is refused with an error event and
///   nothing is published;
/// - a new name is published as a profile and reported back as this peer's
///   profile (the configured name used for chat stays as it is);
/// - a presence request publishes that the node is online;
/// - a shutdown stops the node.
pub open spec fn command_outcome(
    cfg: NodeConfigView,
    command: BridgeCommandView,
    local: Seq<char>,
    now: u64,
) -> CommandOutcomeView {
    match command {
        BridgeCommandView::SendChat { text } => if trim(text).len() == 0 {
            CommandOutcomeView {
                publish: None,
                event: Some(CoreEventView::Error { message: empty_chat_message() }),
                report_failure: false,
                shutdown: false,
            }
        } else {
            CommandOutcomeView {
                publish: Some(WireEnvelopeView::Chat { username: cfg.username, text: text }),
                event: None,
                report_failure: true,
                shutdown: false,
            }
        },
        BridgeCommandView::UpdateProfile { username } => CommandOutcomeView {
            publish: Some(WireEnvelopeView::Profile { username: username }),
            event: Some(CoreEventView::Profile { from: local, username: username }),
            report_failure: false,
            shutdown: false,
        },
        BridgeCommandView::RequestPresence => CommandOutcomeView {
            publish: Some(presence_envelope(cfg, now)),
            event: None,
            report_failure: false,
            shutdown: false,
        },
        BridgeCommandView::Shutdown => CommandOutcomeView {
            publish: None,
            event: None,
            report_failure: false,
            shutdown: true,
        },
    }
}

/// Law: the only event a command makes the node report about itself, the
/// profile after a name change, names the peer id the node runs as; and a
/// blank chat text is answered with an error event and never published.
pub proof fn lemma_command_events(
    cfg: NodeConfigView,
    command: BridgeCommandView,
    local: Seq<char>,
    now: u64,
)
    ensures
        command_outcome(cfg, command, local, now).event matches Some(
            CoreEventView::Profile { from, .. },
        ) ==> from == local,
        command matches BridgeCommandView::SendChat { text } ==> (trim(text).len() == 0 <==> (
        command_outcome(cfg, command, local, now).publish is None && command_outcome(
            cfg,
            command,
            local,
            now,
        ).event is Some)),
{
}

/// Law: a presence request publishes the same envelope as the periodic
/// presence heartbeat at that time, and its failure is not reported.
pub proof fn lemma_presence_request_is_heartbeat(cfg: NodeConfigView, local: Seq<char>, now: u64)
    ensures
        command_outcome(cfg, BridgeCommandView::RequestPresence, local, now).publish == Some(
            presence_envelope(cfg, now),
        ),
        !command_outcome(cfg, BridgeCommandView::RequestPresence, local, now).report_failure,
{
}

impl MobileCore {
    /// Creates the node; the configured topic must not be blank.
    pub fn new(config: NodeConfig) -> (r: Result<Self, CoreError>)
        ensures
            match r {
                Ok(core) => trim(config@.topic).len() > 0 && core@ == config@,
                Err(e) => trim(config@.topic).len() == 0 && (e matches CoreError::InvalidConfig(m)
                    && m@ == "topic must not be empty"@),
            },
    {
        if trim_str(config.topic.as_str()).unicode_len() == 0 {
            return Err(CoreError::InvalidConfig(String::from_str("topic must not be empty")));
        }
        Ok(MobileCore { config })
    }

    /// The node's configuration.
    pub fn config(&self) -> (r: &NodeConfig)
        ensures
            r@ == self@,
    {
        &self.config
    }

    /// The presence heartbeat (and the answer to a presence request) at `now`.
    pub fn presence(&self, now: u64) -> (r: WireEnvelope)
        ensures
            r@ == presence_envelope(self@, now),
    {
        WireEnvelope::Presence {
            username: self.config.username.clone(),
            status: String::from_str("online"),
            ts: now,
        }
    }

    /// The profile published at start: the configured name.
    pub fn startup_profile(&self) -> (r: WireEnvelope)
        ensures
            r@ == (WireEnvelopeView::Profile { username: self@.username }),
    {
        WireEnvelope::Profile { username: self.config.username.clone() }
    }

    /// Decides what to do with a bridge command, as peer `local_peer_id` at
    /// `now`.
    pub fn handle_command(&self, command: BridgeCommand, local_peer_id: &str, now: u64) -> (r:
        CommandOutcome)
        ensures
            r@ == command_outcome(self@, command@, local_peer_id@, now),
    {
        match command {
            BridgeCommand::SendChat { text } => {
                if trim_str(text.as_str()).unicode_len() == 0 {
                    CommandOutcome {
                        publish: None,
                        event: Some(
                            CoreEvent::Error {
                                message: String::from_str("chat text must not be empty"),
                            },
                        ),
                        report_failure: false,
                        shutdown: false,
                    }
                } else {
                    CommandOutcome {
                        publish: Some(
                            WireEnvelope::Chat { username: self.config.username.clone(), text },
                        ),
                        event: None,
                        report_failure: true,
                        shutdown: false,
                    }
                }
            },
            BridgeCommand::UpdateProfile { username } => CommandOutcome {
                publish: Some(WireEnvelope::Profile { username: username.clone() }),
                event: Some(CoreEvent::Profile { from: local_peer_id.to_owned(), username }),
                report_failure: false,
                shutdown: false,
            },
            BridgeCommand::RequestPresence => CommandOutcome {
                publish: Some(self.presence(now)),
                event: None,
                report_failure: false,
                shutdown: false,
            },
            BridgeCommand::Shutdown => CommandOutcome {
                publish: None,
                event: None,
                report_failure: false,
                shutdown: true,
            },
        }
    }
}

// ---------------------------------------------------------------------------
// Events from the network
// ---------------------------------------------------------------------------

/// What the bridge is told of an envelope received from `source`: chat and
/// presence carry the sender's own name; a profile is attributed to the peer
/// that forwarded it.
pub open spec fn envelope_event(envelope: WireEnvelopeView, source: Seq<char>) -> CoreEventView {
    match envelope {
        WireEnvelopeView::Chat { username, text } => CoreEventView::ChatMessage {
            from: username,
            text: text,
        },
        WireEnvelopeView::Presence { username, status, ts } => CoreEventView::Presence {
            from: username,
            status: status,
            ts: ts,
        },
        WireEnvelopeView::Profile { username } => CoreEventView::Profile {
            from: source,
            username: username,
        },
    }
}

/// Turns an envelope received from peer `propagation_source` into an event.
pub fn received_envelope_event(envelope: WireEnvelope, propagation_source: &str) -> (r: CoreEvent)
    ensures
        r@ == envelope_event(envelope@, propagation_source@),
{
    match envelope {
        WireEnvelope::Chat { username, text } => CoreEvent::ChatMessage { from: username, text },
        WireEnvelope::Presence { username, status, ts } => CoreEvent::Presence {
            from: username,
            status,
            ts,
        },
        WireEnvelope::Profile { username } => CoreEvent::Profile {
            from: propagation_source.to_owned(),
            username,
        },
    }
}

/// The event sent once the node runs as `peer_id`.
pub fn started_event(peer_id: &str) -> (r: CoreEvent)
    ensures
        r@ == (CoreEventView::Started { peer_id: peer_id@ }),
{
    CoreEvent::Started { peer_id: peer_id.to_owned() }
}

/// The event for a new listen address of the local peer: a presence whose
/// status is `listening:` and the address.
pub fn listening_event(local_peer_id: &str, address: &str, now: u64) -> (r: CoreEvent)
    ensures
        r@ == (CoreEventView::Presence {
            from: local_peer_id@,
            status: "listening:"@ + address@,
            ts: now,
        }),
{
    CoreEvent::Presence {
        from: local_peer_id.to_owned(),
        status: concat_str("listening:", address),
        ts: now,
    }
}

/// The event for progress of a Kademlia query of the local peer: a presence
/// whose status is `kad:` and the query's result as text.
pub fn kad_progress_event(local_peer_id: &str, result: &str, now: u64) -> (r: CoreEvent)
    ensures
        r@ == (CoreEventView::Presence {
            from: local_peer_id@,
            status: "kad:"@ + result@,
            ts: now,
        }),
{
    CoreEvent::Presence { from: local_peer_id.to_owned(), status: concat_str("kad:", result), ts: now }
}

/// The error event for a publish that failed, with the failure as text.
pub fn publish_failed_event(detail: &str) -> (r: CoreEvent)
    ensures
        r@ == (CoreEventView::Error { message: "publish failed: "@ + detail@ }),
{
    CoreEvent::Error { message: concat_str("publish failed: ", detail) }
}

/// The error event for a chat envelope that could not be encoded.
pub fn serialize_failed_event(detail: &str) -> (r: CoreEvent)
    ensures
        r@ == (CoreEventView::Error { message: "serialize chat failed: "@ + detail@ }),
{
    CoreEvent::Error { message: concat_str("serialize chat failed: ", detail) }
}


// ---------------------------------------------------------------------------
// Bootstrap peers
// ---------------------------------------------------------------------------

/// What `libp2p::Multiaddr::from_str` gives for `text`, seen through the
/// address's protocols: `None` when the text is not a multiaddr; otherwise one
/// entry per protocol, in order, holding the peer id (in base58, as `PeerId`
/// displays it) for a `/p2p` protocol and `None` for any other.
pub uninterp spec fn multiaddr_p2p_parts(text: Seq<char>) -> Option<Seq<Option<Seq<char>>>>;

/// The views of a list of optional strings.
pub open spec fn parts_view(v: Seq<Option<String>>) -> Seq<Option<Seq<char>>> {
    v.map_values(|o: Option<String>| o.deep_view())
}

/// Parses `text` with `libp2p::Multiaddr::from_str` and lists its protocols
/// (`Multiaddr::iter`), keeping the peer id (`PeerId::to_string`) of each
/// `/p2p` protocol. Claimed: the result is [`multiaddr_p2p_parts`] of the
/// text, and a non-empty text that does not start with `/` is refused (the
/// parser requires the first `/`-separated piece to be empty).
#[verifier::external_body]
fn multiaddr_parts(text: &str) -> (r: Option<Vec<Option<String>>>)
    ensures
        match r {
            Some(v) => multiaddr_p2p_parts(text@) == Some(parts_view(v@)),
            None => multiaddr_p2p_parts(text@) is None,
        },
        text@.len() > 0 && text@[0] != '/' ==> r is None,
{
    match text.parse::<libp2p::Multiaddr>() {
        Ok(addr) => Some(
            addr.iter().map(
                |p| match p {
                    libp2p::multiaddr::Protocol::P2p(peer) => Some(peer.to_string()),
                    _ => None,
                },
            ).collect(),
        ),
        Err(_) => None,
    }
}

/// The last peer id among the protocols of an address, if any.
pub open spec fn last_p2p(parts: Seq<Option<Seq<char>>>) -> Option<Seq<char>>
    decreases parts.len(),
{
    if parts.len() == 0 {
        None
    } else if parts.last() is Some {
        parts.last()
    } else {
        last_p2p(parts.drop_last())
    }
}

/// The last peer id among the protocols of an address, if any.
pub fn last_p2p_peer(parts: &Vec<Option<String>>) -> (r: Option<String>)
    ensures
        r.deep_view() == last_p2p(parts_view(parts@)),
{
    let mut i: usize = parts.len();
    assert(parts@.take(i as int) =~= parts@);
    while i > 0
        invariant
            i <= parts@.len(),
            last_p2p(parts_view(parts@)) == last_p2p(parts_view(parts@.take(i as int))),
            forall|k: int| i <= k < parts@.len() ==> #[trigger] parts@[k] is None,
        decreases i,
    {
        let ghost prefix = parts_view(parts@.take(i as int));
        assert(parts_view(parts@.take(i - 1)) =~= prefix.drop_last());
        assert(prefix.last() == parts@[i - 1].deep_view());
        match &parts[i - 1] {
            Some(peer) => {
                return Some(peer.clone());
            },
            None => {},
        }
        i = i - 1;
    }
    assert(parts_view(parts@.take(0)) =~= Seq::<Option<Seq<char>>>::empty());
    None
}

/// What the node does with one configured bootstrap address.
#[derive(Debug)]
pub enum BootstrapStep {
    /// The address is not a multiaddr: report this event.
    Invalid(CoreEvent),
    /// Dial the address, and add it to the Kademlia routing table under the
    /// peer id it names, if it names one.
    Dial { address: String, peer: Option<String> },
}

/// A [`BootstrapStep`] as plain values.
pub enum BootstrapStepView {
    Invalid(CoreEventView),
    Dial { address: Seq<char>, peer: Option<Seq<char>> },
}

impl View for BootstrapStep {
    type V = BootstrapStepView;

    open spec fn view(&self) -> BootstrapStepView {
        match self {
            BootstrapStep::Invalid(e) => BootstrapStepView::Invalid(e@),
            BootstrapStep::Dial { address, peer } => BootstrapStepView::Dial {
                address: address@,
                peer: peer.deep_view(),
            },
        }
    }
}

/// The step for bootstrap address `address`, given what parsing it gave.
pub open spec fn bootstrap_step(
    address: Seq<char>,
    parts: Option<Seq<Option<Seq<char>>>>,
) -> BootstrapStepView {
    match parts {
        None => BootstrapStepView::Invalid(
            CoreEventView::Error { message: "invalid bootstrap address: "@ + address },
        ),
        Some(p) => BootstrapStepView::Dial { address: address, peer: last_p2p(p) },
    }
}

/// The step for bootstrap address `address`, given what parsing it as a
/// multiaddr gave.
pub fn plan_bootstrap_address(address: &str, parts: Option<Vec<Option<String>>>) -> (r:
    BootstrapStep)
    ensures
        r@ == bootstrap_step(
            address@,
            match parts {
                Some(v) => Some(parts_view(v@)),
                None => None,
            },
        ),
{
    match parts {
        None => BootstrapStep::Invalid(
            CoreEvent::Error { message: concat_str("invalid bootstrap address: ", address) },
        ),
        Some(v) => BootstrapStep::Dial { address: address.to_owned(), peer: last_p2p_peer(&v) },
    }
}

impl MobileCore {
    /// The step for each configured bootstrap address, in order.
    pub fn bootstrap_plan(&self) -> (r: Vec<BootstrapStep>)
        ensures
            r@.len() == self@.bootstrap_peers.len(),
            forall|i: int|
                0 <= i < r@.len() ==> #[trigger] r@[i]@ == bootstrap_step(
                    self@.bootstrap_peers[i],
                    multiaddr_p2p_parts(self@.bootstrap_peers[i]),
                ),
    {
        let peers = &self.config.bootstrap_peers;
        let n = peers.len();
        let mut steps: Vec<BootstrapStep> = Vec::new();
        let mut i: usize = 0;
        while i < n
            invariant
                n == peers@.len(),
                peers.deep_view() == self@.bootstrap_peers,
                i <= n,
                steps@.len() == i,
                forall|k: int|
                    0 <= k < i ==> #[trigger] steps@[k]@ == bootstrap_step(
                        self@.bootstrap_peers[k],
                        multiaddr_p2p_parts(self@.bootstrap_peers[k]),
                    ),
            decreases n - i,
        {
            let address = peers[i].as_str();
            assert(address@ == self@.bootstrap_peers[i as int]);
            let parts = multiaddr_parts(address);
            let step = plan_bootstrap_address(address, parts);
            steps.push(step);
            i = i + 1;
        }
        steps
    }
}

} // verus!
