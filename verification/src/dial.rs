//! Dial bookkeeping of the desktop chat node: which peers are being dialed,
//! when each was last tried, and what to do when mDNS reports a peer; and the
//! decisions around publishing a line typed on stdin.
use vstd::prelude::*;
use crate::timetable::{elapsed, elapsed_ms, TimeTable};

verus! {

/// The shortest time between two dials of one peer, in milliseconds.
pub const MIN_DIAL_INTERVAL_MS: u64 = 10000;

/// The dial state as plain values: peers being dialed, the time each peer was
/// last dialed, and the shortest interval between two dials of a peer.
pub struct DialStateView {
    pub pending: Set<Seq<char>>,
    pub last_attempt: Map<Seq<char>, u64>,
    pub min_interval_ms: u64,
}

/// Peers being dialed and when each peer was last dialed, by peer id text;
/// times are milliseconds on the node's monotonic clock.
pub struct DialState {
    pending_dials: TimeTable,
    last_dial_attempt: TimeTable,
    min_dial_interval: u64,
}

impl View for DialState {
    type V = DialStateView;

    closed spec fn view(&self) -> DialStateView {
        DialStateView {
            pending: self.pending_dials@.dom(),
            last_attempt: self.last_dial_attempt@,
            min_interval_ms: self.min_dial_interval,
        }
    }
}

/// What to do with a peer that mDNS reported.
#[derive(Debug, PartialEq, Eq, Structural)]
pub enum DialDecision {
    /// There is a connection to it already.
    AlreadyConnected,
    /// A dial to it is under way.
    DialInProgress,
    /// It was dialed less than the minimal interval ago.
    RecentlyTried { elapsed_ms: u64 },
    /// Dial it now.
    Dial,
}

/// The decision for a discovered peer and the state after it: nothing changes
/// unless the peer is dialed, in which case it becomes pending and its last
/// attempt is `now`.
pub open spec fn discover_step(s: DialStateView, peer: Seq<char>, connected: bool, now: u64) -> (
    DialStateView,
    DialDecision,
) {
    if connected {
        (s, DialDecision::AlreadyConnected)
    } else if s.pending.contains(peer) {
        (s, DialDecision::DialInProgress)
    } else if s.last_attempt.contains_key(peer) && elapsed_ms(s.last_attempt[peer], now)
        < s.min_interval_ms {
        (s, DialDecision::RecentlyTried { elapsed_ms: elapsed_ms(s.last_attempt[peer], now) as u64 })
    } else {
        (
            DialStateView {
                pending: s.pending.insert(peer),
                last_attempt: s.last_attempt.insert(peer, now),
                ..s
            },
            DialDecision::Dial,
        )
    }
}

/// The state once `peer` is no longer being dialed.
pub open spec fn dial_ended(s: DialStateView, peer: Seq<char>) -> DialStateView {
    DialStateView { pending: s.pending.remove(peer), ..s }
}

/// The state once mDNS no longer sees `peer`: it is forgotten entirely.
pub open spec fn peer_expired(s: DialStateView, peer: Seq<char>) -> DialStateView {
    DialStateView {
        pending: s.pending.remove(peer),
        last_attempt: s.last_attempt.remove(peer),
        ..s
    }
}

/// Every pending peer has a recorded dial attempt, and the minimal interval
/// is [`MIN_DIAL_INTERVAL_MS`].
pub open spec fn dial_consistent(s: DialStateView) -> bool {
    &&& s.pending.subset_of(s.last_attempt.dom())
    &&& s.min_interval_ms == MIN_DIAL_INTERVAL_MS
}

impl DialState {
    #[verifier::type_invariant]
    spec fn well_formed(self) -> bool {
        &&& self.pending_dials@.dom().subset_of(self.last_dial_attempt@.dom())
        &&& self.min_dial_interval == MIN_DIAL_INTERVAL_MS
    }

    /// Nothing pending, nothing tried, and a ten-second minimal interval.
    pub fn new() -> (r: Self)
        ensures
            r@.pending == Set::<Seq<char>>::empty(),
            r@.last_attempt == Map::<Seq<char>, u64>::empty(),
            r@.min_interval_ms == MIN_DIAL_INTERVAL_MS,
            dial_consistent(r@),
    {
        let r = DialState {
            pending_dials: TimeTable::new(),
            last_dial_attempt: TimeTable::new(),
            min_dial_interval: MIN_DIAL_INTERVAL_MS,
        };
        assert(r@.pending =~= Set::<Seq<char>>::empty());
        r
    }

    /// Takes the state apart, leaving an empty one in its place.
    fn take_parts(&mut self) -> (r: (TimeTable, TimeTable, u64))
        ensures
            final(self)@.pending == Set::<Seq<char>>::empty(),
            final(self)@.last_attempt == Map::<Seq<char>, u64>::empty(),
            final(self)@.min_interval_ms == MIN_DIAL_INTERVAL_MS,
            r.0@.dom() == old(self)@.pending,
            r.1@ == old(self)@.last_attempt,
            r.2 == old(self)@.min_interval_ms,
            dial_consistent(old(self)@),
    {
        let mut st = DialState::new();
        std::mem::swap(&mut st, self);
        proof {
            use_type_invariant(&st);
        }
        let DialState { pending_dials, last_dial_attempt, min_dial_interval } = st;
        (pending_dials, last_dial_attempt, min_dial_interval)
    }

    /// mDNS reported `peer`; `connected` tells whether there is a connection to
    /// it. Says whether to dial it, and if so records the dial as started at
    /// `now`.
    pub fn peer_discovered(&mut self, peer: &str, connected: bool, now: u64) -> (r: DialDecision)
        ensures
            (final(self)@, r) == discover_step(old(self)@, peer@, connected, now),
            dial_consistent(final(self)@),
    {
        proof {
            use_type_invariant(&*self);
        }
        if connected {
            return DialDecision::AlreadyConnected;
        }
        if self.pending_dials.contains(peer) {
            return DialDecision::DialInProgress;
        }
        match self.last_dial_attempt.get(peer) {
            Some(last) => {
                let since = elapsed(last, now);
                if since < self.min_dial_interval {
                    return DialDecision::RecentlyTried { elapsed_ms: since };
                }
            },
            None => {},
        }
        let (mut pending_dials, mut last_dial_attempt, min_dial_interval) = self.take_parts();
        pending_dials.insert(peer.to_owned(), now);
        last_dial_attempt.insert(peer.to_owned(), now);
        assert(pending_dials@.dom() =~= old(self)@.pending.insert(peer@));
        *self = DialState { pending_dials, last_dial_attempt, min_dial_interval };
        DialDecision::Dial
    }

    fn end_dial(&mut self, peer: &str)
        ensures
            final(self)@ == dial_ended(old(self)@, peer@),
            dial_consistent(final(self)@),
    {
        let (mut pending_dials, last_dial_attempt, min_dial_interval) = self.take_parts();
        pending_dials.remove(peer);
        assert(pending_dials@.dom() =~= old(self)@.pending.remove(peer@));
        *self = DialState { pending_dials, last_dial_attempt, min_dial_interval };
    }

    /// A connection to `peer` was established.
    pub fn connection_established(&mut self, peer: &str)
        ensures
            final(self)@ == dial_ended(old(self)@, peer@),
            dial_consistent(final(self)@),
    {
        self.end_dial(peer);
    }

    /// An outgoing connection failed, to `peer` when it is known.
    pub fn outgoing_connection_failed(&mut self, peer: Option<&str>)
        ensures
            final(self)@ == (match peer {
                Some(p) => dial_ended(old(self)@, p@),
                None => old(self)@,
            }),
            dial_consistent(final(self)@),
    {
        proof {
            use_type_invariant(&*self);
        }
        if let Some(p) = peer {
            self.end_dial(p);
        }
    }

    /// Starting the dial that [`DialState::peer_discovered`] asked for failed.
    pub fn dial_failed(&mut self, peer: &str)
        ensures
            final(self)@ == dial_ended(old(self)@, peer@),
            dial_consistent(final(self)@),
    {
        self.end_dial(peer);
    }

    /// mDNS no longer sees `peer`.
    pub fn peer_expired(&mut self, peer: &str)
        ensures
            final(self)@ == peer_expired(old(self)@, peer@),
            dial_consistent(final(self)@),
    {
        let (mut pending_dials, mut last_dial_attempt, min_dial_interval) = self.take_parts();
        pending_dials.remove(peer);
        last_dial_attempt.remove(peer);
        assert(pending_dials@.dom() =~= old(self)@.pending.remove(peer@));
        *self = DialState { pending_dials, last_dial_attempt, min_dial_interval };
    }
}

/// Law: a peer that is connected is never dialed: the answer is that it is
/// connected already, and the bookkeeping does not change, whatever it holds
/// and whenever the report comes.
pub proof fn lemma_connected_peer_never_dialed(s: DialStateView, peer: Seq<char>, now: u64)
    ensures
        discover_step(s, peer, true, now).1 == DialDecision::AlreadyConnected,
        discover_step(s, peer, true, now).0 == s,
        !event_dials(s, DialEvent::Discovered { peer, connected: true, now }, peer),
{
}

/// Law: a peer is never dialed twice at once: once a dial of it starts, every
/// report of it until that dial ends is answered without a dial.
pub proof fn lemma_no_second_dial_while_pending(
    s: DialStateView,
    peer: Seq<char>,
    connected1: bool,
    now1: u64,
    connected2: bool,
    now2: u64,
)
    requires
        discover_step(s, peer, connected1, now1).1 == DialDecision::Dial,
    ensures
        discover_step(discover_step(s, peer, connected1, now1).0, peer, connected2, now2).1
            != DialDecision::Dial,
{
}

/// Law: after a dial of a peer starts at `now1`, even when that dial ends
/// (in any way short of mDNS losing the peer), the peer is not dialed again
/// before the minimal interval has passed.
pub proof fn lemma_dial_interval_respected(
    s: DialStateView,
    peer: Seq<char>,
    now1: u64,
    now2: u64,
)
    requires
        discover_step(s, peer, false, now1).1 == DialDecision::Dial,
        now1 <= now2 < now1 + s.min_interval_ms,
    ensures
        discover_step(dial_ended(discover_step(s, peer, false, now1).0, peer), peer, false, now2).1
            == (DialDecision::RecentlyTried { elapsed_ms: (now2 - now1) as u64 }),
{
}

/// One change of the dial bookkeeping, as the methods of [`DialState`] make it.
pub enum DialEvent {
    /// [`DialState::peer_discovered`].
    Discovered { peer: Seq<char>, connected: bool, now: u64 },
    /// [`DialState::connection_established`], [`DialState::dial_failed`], or
    /// [`DialState::outgoing_connection_failed`] with a peer.
    Ended { peer: Seq<char> },
    /// [`DialState::peer_expired`].
    Expired { peer: Seq<char> },
}

/// The state after one event.
pub open spec fn apply_dial_event(s: DialStateView, e: DialEvent) -> DialStateView {
    match e {
        DialEvent::Discovered { peer, connected, now } => discover_step(s, peer, connected, now).0,
        DialEvent::Ended { peer } => dial_ended(s, peer),
        DialEvent::Expired { peer } => peer_expired(s, peer),
    }
}

/// The state after a sequence of events, in order.
pub open spec fn run_dial_events(s: DialStateView, evs: Seq<DialEvent>) -> DialStateView
    decreases evs.len(),
{
    if evs.len() == 0 {
        s
    } else {
        apply_dial_event(run_dial_events(s, evs.drop_last()), evs.last())
    }
}

/// Whether event `e`, in state `s`, dials `p`.
pub open spec fn event_dials(s: DialStateView, e: DialEvent, p: Seq<char>) -> bool {
    match e {
        DialEvent::Discovered { peer, connected, now } => peer == p && discover_step(
            s,
            peer,
            connected,
            now,
        ).1 == DialDecision::Dial,
        _ => false,
    }
}

/// Whether `e` is mDNS losing `p`.
pub open spec fn event_expires(e: DialEvent, p: Seq<char>) -> bool {
    match e {
        DialEvent::Expired { peer } => peer == p,
        _ => false,
    }
}

/// Whether `e` is a report of `p` that is not within `[from, until)`.
pub open spec fn reports_outside(e: DialEvent, p: Seq<char>, from: int, until: int) -> bool {
    match e {
        DialEvent::Discovered { peer, now, .. } => peer == p && !(from <= now < until),
        _ => false,
    }
}

/// Law: every state the dial bookkeeping reaches from a consistent one is
/// consistent: each pending peer has a recorded attempt, and the interval
/// stays ten seconds.
pub proof fn lemma_dial_events_keep_consistent(s: DialStateView, evs: Seq<DialEvent>)
    requires
        dial_consistent(s),
    ensures
        dial_consistent(run_dial_events(s, evs)),
    decreases evs.len(),
{
    if evs.len() > 0 {
        lemma_dial_events_keep_consistent(s, evs.drop_last());
        let t = run_dial_events(s, evs.drop_last());
        let u = run_dial_events(s, evs);
        assert(u.pending.subset_of(u.last_attempt.dom()));
    }
}

proof fn lemma_attempt_kept(s: DialStateView, evs: Seq<DialEvent>, p: Seq<char>, t1: u64)
    requires
        s.last_attempt.contains_key(p),
        s.last_attempt[p] == t1,
        forall|i: int| 0 <= i < evs.len() ==> !event_expires(#[trigger] evs[i], p),
        forall|i: int|
            0 <= i < evs.len() ==> !reports_outside(
                #[trigger] evs[i],
                p,
                t1 as int,
                t1 + s.min_interval_ms,
            ),
    ensures
        run_dial_events(s, evs).last_attempt.contains_key(p),
        run_dial_events(s, evs).last_attempt[p] == t1,
        run_dial_events(s, evs).min_interval_ms == s.min_interval_ms,
        forall|i: int| 0 <= i < evs.len() ==> !event_dials(
            run_dial_events(s, evs.take(i)),
            #[trigger] evs[i],
            p,
        ),
    decreases evs.len(),
{
    if evs.len() > 0 {
        let d = evs.drop_last();
        assert forall|i: int| 0 <= i < d.len() implies !event_expires(#[trigger] d[i], p) by {
            assert(d[i] == evs[i]);
        }
        assert forall|i: int| 0 <= i < d.len() implies !reports_outside(
            #[trigger] d[i],
            p,
            t1 as int,
            t1 + s.min_interval_ms,
        ) by {
            assert(d[i] == evs[i]);
        }
        lemma_attempt_kept(s, d, p, t1);
        let t = run_dial_events(s, d);
        let e = evs.last();
        assert(e == evs[evs.len() - 1]);
        assert(!event_expires(e, p));
        assert(!reports_outside(e, p, t1 as int, t1 + s.min_interval_ms));
        assert(!event_dials(t, e, p));
        assert forall|i: int| 0 <= i < evs.len() implies !event_dials(
            run_dial_events(s, evs.take(i)),
            #[trigger] evs[i],
            p,
        ) by {
            if i < d.len() {
                assert(evs.take(i) =~= d.take(i));
                assert(d[i] == evs[i]);
            } else {
                assert(evs.take(i) =~= d);
            }
        }
    }
}

/// Law: once a dial attempt of `p` is recorded at `t1`, no report of `p` at a
/// time in `[t1, t1 + min_interval_ms)` leads to dialing it, whatever happens
/// in between (reports, dials and ends of other peers, the end of the dial of
/// `p`), as long as mDNS does not lose `p`.
pub proof fn lemma_no_redial_within_interval(
    s: DialStateView,
    evs: Seq<DialEvent>,
    p: Seq<char>,
    t1: u64,
)
    requires
        s.last_attempt.contains_key(p),
        s.last_attempt[p] == t1,
        forall|i: int| 0 <= i < evs.len() ==> !event_expires(#[trigger] evs[i], p),
        forall|i: int|
            0 <= i < evs.len() ==> !reports_outside(
                #[trigger] evs[i],
                p,
                t1 as int,
                t1 + s.min_interval_ms,
            ),
    ensures
        forall|i: int| 0 <= i < evs.len() ==> !event_dials(
            run_dial_events(s, evs.take(i)),
            #[trigger] evs[i],
            p,
        ),
{
    lemma_attempt_kept(s, evs, p, t1);
}

// ---------------------------------------------------------------------------
// Publishing a typed line
// ---------------------------------------------------------------------------

/// Before publishing: wait for a gossipsub heartbeat when the topic's mesh is
/// empty although peers are known.
pub fn wait_before_publish(mesh_peers: usize, known_peers: usize) -> (r: bool)
    ensures
        r == (mesh_peers == 0 && known_peers > 0),
{
    mesh_peers == 0 && known_peers > 0
}

/// Whether to warn that the message will probably not arrive: the mesh is
/// still empty when publishing.
pub fn warn_empty_mesh(mesh_peers: usize) -> (r: bool)
    ensures
        r == (mesh_peers == 0),
{
    mesh_peers == 0
}

/// How a gossipsub publish ended.
#[derive(Debug, PartialEq, Eq, Structural)]
pub enum PublishOutcome {
    Published,
    InsufficientPeers,
    Failed,
}

/// What follows a publish.
#[derive(Debug, PartialEq, Eq, Structural)]
pub enum PublishFollowUp {
    /// The message went out.
    Sent,
    /// Make every known peer an explicit peer and publish once more.
    RetryWithExplicitPeers,
    /// Report the failure.
    ReportFailure,
}

/// After the first publish of a line: a lack of mesh peers is worked around
/// once by adding the known peers as explicit peers; the retry's outcome is
/// final.
pub fn after_publish(outcome: PublishOutcome, is_retry: bool) -> (r: PublishFollowUp)
    ensures
        r == (match outcome {
            PublishOutcome::Published => PublishFollowUp::Sent,
            PublishOutcome::InsufficientPeers => if is_retry {
                PublishFollowUp::ReportFailure
            } else {
                PublishFollowUp::RetryWithExplicitPeers
            },
            PublishOutcome::Failed => PublishFollowUp::ReportFailure,
        }),
{
    match outcome {
        PublishOutcome::Published => PublishFollowUp::Sent,
        PublishOutcome::InsufficientPeers => if is_retry {
            PublishFollowUp::ReportFailure
        } else {
            PublishFollowUp::RetryWithExplicitPeers
        },
        PublishOutcome::Failed => PublishFollowUp::ReportFailure,
    }
}

} // verus!
