//! The envelopes of the desktop chat's sync protocol (encoding them is the
//! caller's).
use vstd::prelude::*;

verus! {

/// A message of the sync protocol.
#[derive(Debug)]
pub enum SyncEnvelope {
    Chat { username: Option<String>, text: String },
    Presence { username: Option<String>, status: String, ts: u64 },
    Profile { username: String },
}

/// A [`SyncEnvelope`] as plain values.
pub enum SyncEnvelopeView {
    Chat { username: Option<Seq<char>>, text: Seq<char> },
    Presence { username: Option<Seq<char>>, status: Seq<char>, ts: u64 },
    Profile { username: Seq<char> },
}

impl View for SyncEnvelope {
    type V = SyncEnvelopeView;

    open spec fn view(&self) -> SyncEnvelopeView {
        match self {
            SyncEnvelope::Chat { username, text } => SyncEnvelopeView::Chat {
                username: username.deep_view(),
                text: text@,
            },
            SyncEnvelope::Presence { username, status, ts } => SyncEnvelopeView::Presence {
                username: username.deep_view(),
                status: status@,
                ts: *ts,
            },
            SyncEnvelope::Profile { username } => SyncEnvelopeView::Profile { username: username@ },
        }
    }
}

fn owned_name(username: Option<&str>) -> (r: Option<String>)
    ensures
        r.deep_view() == (match username {
            Some(u) => Some(u@),
            None => None,
        }),
{
    match username {
        Some(u) => Some(u.to_owned()),
        None => None,
    }
}

/// A chat message, signed with `username` when there is one.
pub fn chat_envelope(text: &str, username: Option<&str>) -> (r: SyncEnvelope)
    ensures
        r@ == (SyncEnvelopeView::Chat {
            username: match username {
                Some(u) => Some(u@),
                None => None,
            },
            text: text@,
        }),
{
    SyncEnvelope::Chat { username: owned_name(username), text: text.to_owned() }
}

/// A presence announcement with the given status, at time `ts` (seconds since
/// the Unix epoch).
pub fn presence_envelope(username: Option<&str>, status: &str, ts: u64) -> (r: SyncEnvelope)
    ensures
        r@ == (SyncEnvelopeView::Presence {
            username: match username {
                Some(u) => Some(u@),
                None => None,
            },
            status: status@,
            ts: ts,
        }),
{
    SyncEnvelope::Presence { username: owned_name(username), status: status.to_owned(), ts }
}

/// A profile announcement.
pub fn profile_envelope(username: &str) -> (r: SyncEnvelope)
    ensures
        r@ == (SyncEnvelopeView::Profile { username: username@ }),
{
    SyncEnvelope::Profile { username: username.to_owned() }
}

} // verus!
