//! Messages between the mobile UI gateway, its clients and the chat loop.
use vstd::prelude::*;

verus! {

/// What the gateway sends to every connected UI client.
#[derive(Debug)]
pub enum UiEvent {
    ChatMessage { from: String, text: String },
    System { message: String },
    /// A username was seen in use somewhere.
    UsernameObserved { username: String },
    /// The answer to a username check or change.
    UsernameStatus { username: String, available: bool, applied: bool, message: String },
}

/// A [`UiEvent`] as plain values.
pub enum UiEventView {
    ChatMessage { from: Seq<char>, text: Seq<char> },
    System { message: Seq<char> },
    UsernameObserved { username: Seq<char> },
    UsernameStatus { username: Seq<char>, available: bool, applied: bool, message: Seq<char> },
}

impl View for UiEvent {
    type V = UiEventView;

    open spec fn view(&self) -> UiEventView {
        match self {
            UiEvent::ChatMessage { from, text } => UiEventView::ChatMessage {
                from: from@,
                text: text@,
            },
            UiEvent::System { message } => UiEventView::System { message: message@ },
            UiEvent::UsernameObserved { username } => UiEventView::UsernameObserved {
                username: username@,
            },
            UiEvent::UsernameStatus { username, available, applied, message } =>
                UiEventView::UsernameStatus {
                username: username@,
                available: *available,
                applied: *applied,
                message: message@,
            },
        }
    }
}

impl Clone for UiEvent {
    fn clone(&self) -> (r: Self)
        ensures
            r@ == self@,
    {
        match self {
            UiEvent::ChatMessage { from, text } => UiEvent::ChatMessage {
                from: from.clone(),
                text: text.clone(),
            },
            UiEvent::System { message } => UiEvent::System { message: message.clone() },
            UiEvent::UsernameObserved { username } => UiEvent::UsernameObserved {
                username: username.clone(),
            },
            UiEvent::UsernameStatus { username, available, applied, message } =>
                UiEvent::UsernameStatus {
                username: username.clone(),
                available: *available,
                applied: *applied,
                message: message.clone(),
            },
        }
    }
}

/// What a UI client sends to the gateway.
#[derive(Debug)]
pub enum UiClientMessage {
    SendMessage { text: String },
    CheckUsername { username: String },
    SetUsername { username: String },
    Ping,
}

/// A [`UiClientMessage`] as plain values.
pub enum UiClientMessageView {
    SendMessage { text: Seq<char> },
    CheckUsername { username: Seq<char> },
    SetUsername { username: Seq<char> },
    Ping,
}

impl View for UiClientMessage {
    type V = UiClientMessageView;

    open spec fn view(&self) -> UiClientMessageView {
        match self {
            UiClientMessage::SendMessage { text } => UiClientMessageView::SendMessage {
                text: text@,
            },
            UiClientMessage::CheckUsername { username } => UiClientMessageView::CheckUsername {
                username: username@,
            },
            UiClientMessage::SetUsername { username } => UiClientMessageView::SetUsername {
                username: username@,
            },
            UiClientMessage::Ping => UiClientMessageView::Ping,
        }
    }
}

/// What the gateway hands to the chat loop.
#[derive(Debug)]
pub enum UiCommand {
    /// Publish `text`, signed with the client's username when it has one.
    SendMessage { text: String, username: Option<String> },
}

/// A [`UiCommand`] as plain values.
pub enum UiCommandView {
    SendMessage { text: Seq<char>, username: Option<Seq<char>> },
}

impl View for UiCommand {
    type V = UiCommandView;

    open spec fn view(&self) -> UiCommandView {
        match self {
            UiCommand::SendMessage { text, username } => UiCommandView::SendMessage {
                text: text@,
                username: username.deep_view(),
            },
        }
    }
}

/// The answer of the HTTP username check.
#[derive(Debug)]
pub struct UsernameCheckResponse {
    pub username: String,
    pub available: bool,
    pub message: String,
}

} // verus!
