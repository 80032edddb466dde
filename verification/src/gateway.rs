//! What the mobile UI gateway decides for one connected client: the greeting,
//! and the answer to each text message it sends. Reading and writing the
//! socket, and JSON, are the caller's.
use vstd::prelude::*;
use vstd::string::*;
use crate::api_types::{
    UiClientMessage, UiClientMessageView, UiCommand, UiCommandView, UiEvent, UiEventView,
};
use crate::text::{concat_str, trim, trim_str};
use crate::username::{
    build_username_status, fresh_names, is_fresh, normalize_username, normalized_username,
    username_format_error, username_status, UsernameRegistry, USERNAME_TTL_MS,
};

verus! {

/// What the gateway does in answer to a client message.
#[derive(Debug)]
pub enum WsAction {
    /// Hand a command to the chat loop.
    Command(UiCommand),
    /// Send an event to every connected client.
    Broadcast(UiEvent),
}

/// A [`WsAction`] as plain values.
pub enum WsActionView {
    Command(UiCommandView),
    Broadcast(UiEventView),
}

impl View for WsAction {
    type V = WsActionView;

    open spec fn view(&self) -> WsActionView {
        match self {
            WsAction::Command(c) => WsActionView::Command(c@),
            WsAction::Broadcast(e) => WsActionView::Broadcast(e@),
        }
    }
}

/// The state the gateway keeps for one client: the name it chose, if any.
pub struct WsSession {
    pub current_username: Option<String>,
}

impl WsSession {
    /// A client that has not chosen a name.
    pub fn new() -> (r: Self)
        ensures
            r.current_username is None,
    {
        WsSession { current_username: None }
    }
}

/// The views of a list of actions.
pub open spec fn actions_view(a: Seq<WsAction>) -> Seq<WsActionView> {
    a.map_values(|x: WsAction| x@)
}

/// The first event a client gets: the gateway's peer id.
pub open spec fn hello_message(peer_id: Seq<char>) -> UiEventView {
    UiEventView::System { message: "connected_to_peer:"@ + peer_id }
}

/// The greeting sent to a client when it connects.
pub fn hello_event(peer_id: &str) -> (r: UiEvent)
    ensures
        r@ == hello_message(peer_id@),
{
    UiEvent::System { message: concat_str("connected_to_peer:", peer_id) }
}

/// Whether a name change is accepted: the status is "available".
pub open spec fn status_available(status: UiEventView) -> bool {
    status matches UiEventView::UsernameStatus { available: true, .. }
}

/// One text message from a client whose name is `current`, given what it
/// parsed to (`None` when it is not a protocol message): the client's name
/// after it, the registry after it, and the actions, in order.
///
/// - a chat message goes to the chat loop with the client's name;
/// - a check broadcasts the status of the normalized name;
/// - a change broadcasts the status, or, when the name is available, records
///   it as seen now, makes it the client's name, and broadcasts that it was
///   observed and applied;
/// - a ping does nothing;
/// - any other text is a chat message once trimmed, unless it is blank.
pub open spec fn client_step(
    current: Option<Seq<char>>,
    registry: Map<Seq<char>, u64>,
    parsed: Option<UiClientMessageView>,
    text: Seq<char>,
    now: u64,
) -> (Option<Seq<char>>, Map<Seq<char>, u64>, Seq<WsActionView>) {
    match parsed {
        Some(UiClientMessageView::SendMessage { text: t }) => (
            current,
            registry,
            seq![WsActionView::Command(UiCommandView::SendMessage { text: t, username: current })],
        ),
        Some(UiClientMessageView::CheckUsername { username }) => {
            let (status, reg) = username_status(
                normalized_username(username),
                registry,
                current,
                false,
                now,
            );
            (current, reg, seq![WsActionView::Broadcast(status)])
        },
        Some(UiClientMessageView::SetUsername { username }) => {
            let requested = normalized_username(username);
            let (status, reg) = username_status(requested, registry, current, false, now);
            if status_available(status) {
                (
                    Some(requested),
                    reg.insert(requested, now),
                    seq![
                        WsActionView::Broadcast(UiEventView::UsernameObserved { username: requested }),
                        WsActionView::Broadcast(
                            UiEventView::UsernameStatus {
                                username: requested,
                                available: true,
                                applied: true,
                                message: "Ник свободен и сохранён"@,
                            },
                        ),
                    ],
                )
            } else {
                (current, reg, seq![WsActionView::Broadcast(status)])
            }
        },
        Some(UiClientMessageView::Ping) => (current, registry, Seq::empty()),
        None => {
            let plain = trim(text);
            if plain.len() > 0 {
                (
                    current,
                    registry,
                    seq![
                        WsActionView::Command(
                            UiCommandView::SendMessage { text: plain, username: current },
                        ),
                    ],
                )
            } else {
                (current, registry, Seq::empty())
            }
        },
    }
}

fn clone_name(name: &Option<String>) -> (r: Option<String>)
    ensures
        r.deep_view() == name.deep_view(),
{
    match name {
        Some(n) => Some(n.clone()),
        None => None,
    }
}

/// Answers one text message of a client, at `now` on the gateway's clock.
/// `parsed` is what the text parsed to as a protocol message, `None` when it
/// did not parse.
pub fn handle_client_text(
    session: &mut WsSession,
    registry: &mut UsernameRegistry,
    parsed: Option<UiClientMessage>,
    text: &str,
    now: u64,
) -> (r: Vec<WsAction>)
    ensures
        (final(session).current_username.deep_view(), final(registry)@, actions_view(r@))
            == client_step(
            old(session).current_username.deep_view(),
            old(registry)@,
            match parsed {
                Some(m) => Some(m@),
                None => None,
            },
            text@,
            now,
        ),
{
    let mut actions: Vec<WsAction> = Vec::new();
    match parsed {
        Some(UiClientMessage::SendMessage { text: t }) => {
            let username = clone_name(&session.current_username);
            actions.push(WsAction::Command(UiCommand::SendMessage { text: t, username }));
        },
        Some(UiClientMessage::CheckUsername { username }) => {
            let requested = normalize_username(username.as_str());
            let current: Option<&str> = match &session.current_username {
                Some(c) => Some(c.as_str()),
                None => None,
            };
            let status = build_username_status(requested.as_str(), registry, current, false, now);
            actions.push(WsAction::Broadcast(status));
        },
        Some(UiClientMessage::SetUsername { username }) => {
            let requested = normalize_username(username.as_str());
            let current: Option<&str> = match &session.current_username {
                Some(c) => Some(c.as_str()),
                None => None,
            };
            let status = build_username_status(requested.as_str(), registry, current, false, now);
            let accepted = match &status {
                UiEvent::UsernameStatus { available, .. } => *available,
                _ => false,
            };
            if accepted {
                registry.insert(requested.clone(), now);
                session.current_username = Some(requested.clone());
                actions.push(
                    WsAction::Broadcast(UiEvent::UsernameObserved { username: requested.clone() }),
                );
                actions.push(
                    WsAction::Broadcast(
                        UiEvent::UsernameStatus {
                            username: requested,
                            available: true,
                            applied: true,
                            message: String::from_str("Ник свободен и сохранён"),
                        },
                    ),
                );
            } else {
                actions.push(WsAction::Broadcast(status));
            }
        },
        Some(UiClientMessage::Ping) => {},
        None => {
            let plain = trim_str(text);
            if plain.unicode_len() > 0 {
                let username = clone_name(&session.current_username);
                actions.push(
                    WsAction::Command(UiCommand::SendMessage { text: plain.to_owned(), username }),
                );
            }
        },
    }
    proof {
        assert(actions_view(actions@) =~= client_step(
            old(session).current_username.deep_view(),
            old(registry)@,
            match parsed {
                Some(m) => Some(m@),
                None => None,
            },
            text@,
            now,
        ).2);
    }
    actions
}


/// Law: once a client's change to a name is accepted at `now`, any other
/// client (one whose own name is not that name) that checks or asks for it up
/// to [`USERNAME_TTL_MS`] later is told that it is taken.
pub proof fn lemma_accepted_name_is_taken(
    current: Option<Seq<char>>,
    registry: Map<Seq<char>, u64>,
    username: Seq<char>,
    text: Seq<char>,
    now: u64,
    other: Option<Seq<char>>,
    applied: bool,
    later: u64,
)
    requires
        status_available(
            username_status(normalized_username(username), registry, current, false, now).0,
        ),
        now <= later <= now + USERNAME_TTL_MS,
        other != Some(normalized_username(username)),
    ensures
        ({
            let after = client_step(
                current,
                registry,
                Some(UiClientMessageView::SetUsername { username }),
                text,
                now,
            );
            !status_available(
                username_status(normalized_username(username), after.1, other, applied, later).0,
            )
        }),
{
    let requested = normalized_username(username);
    let after = client_step(
        current,
        registry,
        Some(UiClientMessageView::SetUsername { username }),
        text,
        now,
    );
    assert(username_format_error(requested) is None);
    assert(after.1.contains_key(requested) && after.1[requested] == now);
    assert(is_fresh(now, later));
    assert(fresh_names(after.1, later).contains_key(requested));
}

/// Law: a well-formed name is always available to the client that holds it.
pub proof fn lemma_own_name_available(
    requested: Seq<char>,
    registry: Map<Seq<char>, u64>,
    applied: bool,
    now: u64,
)
    requires
        username_format_error(requested) is None,
    ensures
        status_available(username_status(requested, registry, Some(requested), applied, now).0),
{
}

/// Law: a well-formed name that nobody has been seen with for more than
/// [`USERNAME_TTL_MS`] is available to every client.
pub proof fn lemma_stale_name_available(
    requested: Seq<char>,
    registry: Map<Seq<char>, u64>,
    current: Option<Seq<char>>,
    applied: bool,
    now: u64,
)
    requires
        username_format_error(requested) is None,
        registry.contains_key(requested) ==> !is_fresh(registry[requested], now),
    ensures
        status_available(username_status(requested, registry, current, applied, now).0),
{
}

/// Law: a badly formed name is never available, and checking it changes no
/// entry of the registry.
pub proof fn lemma_malformed_name_refused(
    requested: Seq<char>,
    registry: Map<Seq<char>, u64>,
    current: Option<Seq<char>>,
    applied: bool,
    now: u64,
)
    requires
        username_format_error(requested) is Some,
    ensures
        !status_available(username_status(requested, registry, current, applied, now).0),
        username_status(requested, registry, current, applied, now).1 == registry,
{
}

/// Law: a client may always check and take again the (well-formed) name it
/// holds: whatever the registry holds, a check of its own name (written in any
/// way that normalizes to it) answers that it is available, and asking for it
/// again is accepted and keeps it as the client's name.
pub proof fn lemma_own_name_in_session(
    n: Seq<char>,
    username: Seq<char>,
    registry: Map<Seq<char>, u64>,
    text: Seq<char>,
    now: u64,
)
    requires
        username_format_error(n) is None,
        normalized_username(username) == n,
    ensures
        ({
            let after = client_step(
                Some(n),
                registry,
                Some(UiClientMessageView::CheckUsername { username }),
                text,
                now,
            );
            &&& after.0 == Some(n)
            &&& after.2.len() == 1
            &&& after.2[0] matches WsActionView::Broadcast(status) && status_available(status)
        }),
        ({
            let after = client_step(
                Some(n),
                registry,
                Some(UiClientMessageView::SetUsername { username }),
                text,
                now,
            );
            &&& after.0 == Some(n)
            &&& after.1.contains_key(n)
            &&& after.2.len() == 2
        }),
{
}

} // verus!
