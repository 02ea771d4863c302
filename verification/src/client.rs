//! The decisions of the background worker that keeps the particle viewer in
//! sync: commands go out as they arrive, while asset updates are held back
//! briefly so that a burst of edits sends only the last one.

use vstd::prelude::*;

use crate::expr::xval::{nat_text, push_nat_text};
use crate::text::push_char;

verus! {

/// How long an asset update is held back before it is sent, in milliseconds.
pub const ASSET_DELAY_MS: u64 = 150;

/// How long the worker sleeps when no message is waiting, in milliseconds.
pub const IDLE_SLEEP_MS: u64 = 10;

/// A request handed to the worker.
pub enum ClientMessage<M, A> {
    /// Send a command message.
    SendMessage(M),
    /// Send a line of text as it is.
    SendRaw(String),
    /// Show an asset in the viewer (held back and batched).
    SendAsset(A),
    /// Stop the worker.
    Shutdown,
}

/// What polling the worker's inbox gave.
pub enum Received<M, A> {
    /// A request.
    Message(ClientMessage<M, A>),
    /// No request is waiting.
    Empty,
    /// Every sender is gone.
    Closed,
}

/// What the worker's loop does next.
pub enum WorkerAction<M, A> {
    /// Send a command message.
    SendMessage(M),
    /// Send a line of text as it is.
    SendRaw(String),
    /// Send the command that opens this asset in the viewer.
    SendAsset(A),
    /// Sleep this many milliseconds.
    Sleep(u64),
    /// Leave the loop.
    Stop,
}

/// The time elapsed from `start` to `now`, or zero if the clock went back.
pub open spec fn elapsed(start: u64, now: u64) -> nat {
    if now >= start {
        (now - start) as nat
    } else {
        0
    }
}

/// The asset held back once the inbox gave `received` at time `now`, when
/// `pending` was held back before: an asset replaces it and restarts the delay,
/// shutdown sends it, anything else leaves it.
pub open spec fn pending_after_receive<M, A>(
    pending: Option<(A, u64)>,
    received: Received<M, A>,
    now: u64,
) -> Option<(A, u64)> {
    match received {
        Received::Message(ClientMessage::SendAsset(a)) => Some((a, now)),
        Received::Message(ClientMessage::Shutdown) => None,
        _ => pending,
    }
}

/// What the worker does once the inbox gave `received`, when `pending` was held back.
pub open spec fn actions_after_receive<M, A>(
    pending: Option<(A, u64)>,
    received: Received<M, A>,
) -> Seq<WorkerAction<M, A>> {
    match received {
        Received::Message(ClientMessage::SendMessage(m)) => seq![WorkerAction::SendMessage(m)],
        Received::Message(ClientMessage::SendRaw(s)) => seq![WorkerAction::SendRaw(s)],
        Received::Message(ClientMessage::SendAsset(_)) => Seq::empty(),
        Received::Message(ClientMessage::Shutdown) => match pending {
            Some((a, _)) => seq![WorkerAction::SendAsset(a), WorkerAction::Stop],
            None => seq![WorkerAction::Stop],
        },
        Received::Empty => seq![WorkerAction::Sleep(IDLE_SLEEP_MS)],
        Received::Closed => seq![WorkerAction::Stop],
    }
}

/// Whether the held-back asset `pending` has waited `delay` at time `now`.
pub open spec fn is_due<A>(pending: Option<(A, u64)>, delay: u64, now: u64) -> bool {
    match pending {
        Some((_, t)) => elapsed(t, now) >= delay,
        None => false,
    }
}

/// The state of the viewer connection's worker.
pub struct ClientWorker<A> {
    address: String,
    port: u16,
    /// The asset update held back, with the time it was queued.
    pending: Option<(A, u64)>,
    asset_delay: u64,
}

impl<A> ClientWorker<A> {
    /// The asset update held back, with the time it was queued.
    pub closed spec fn spec_pending(&self) -> Option<(A, u64)> {
        self.pending
    }

    /// How long asset updates are held back.
    pub closed spec fn spec_delay(&self) -> u64 {
        self.asset_delay
    }

    /// The host the viewer listens on.
    pub closed spec fn spec_address(&self) -> Seq<char> {
        self.address@
    }

    /// The port the viewer listens on.
    pub closed spec fn spec_port(&self) -> u16 {
        self.port
    }

    /// Whether the held-back asset is due at time `now`.
    pub open spec fn spec_due(&self, now: u64) -> bool {
        is_due(self.spec_pending(), self.spec_delay(), now)
    }

    /// A worker for the viewer at `address`:`port`, holding nothing back.
    pub fn new(address: String, port: u16) -> (w: Self)
        ensures
            w.spec_pending().is_none(),
            w.spec_delay() == ASSET_DELAY_MS,
            w.spec_address() == address@,
            w.spec_port() == port,
    {
        ClientWorker { address, port, pending: None, asset_delay: ASSET_DELAY_MS }
    }

    /// `address:port`, where messages are sent.
    pub fn endpoint(&self) -> (s: String)
        ensures
            s@ == self.spec_address() + ":"@ + nat_text(self.spec_port() as nat),
    {
        let mut s = self.address.clone();
        push_char(&mut s, ':');
        push_nat_text(&mut s, self.port as u64);
        proof {
            reveal_strlit(":");
        }
        assert(s@ =~= self.spec_address() + ":"@ + nat_text(self.spec_port() as nat));
        s
    }

    /// Hands out the held-back asset if it has waited the full delay at time `now`.
    pub fn tick(&mut self, now: u64) -> (flushed: Option<A>)
        ensures
            old(self).spec_due(now) ==> flushed == Some(old(self).spec_pending().unwrap().0)
                && final(self).spec_pending().is_none(),
            !old(self).spec_due(now) ==> flushed.is_none() && final(self).spec_pending()
                == old(self).spec_pending(),
            final(self).spec_delay() == old(self).spec_delay(),
            final(self).spec_address() == old(self).spec_address(),
            final(self).spec_port() == old(self).spec_port(),
    {
        let due = match &self.pending {
            Some((_, t)) => {
                let waited: u64 = if now >= *t { now - *t } else { 0 };
                waited >= self.asset_delay
            },
            None => false,
        };
        if due {
            match self.pending.take() {
                Some((asset, _)) => Some(asset),
                None => None,
            }
        } else {
            None
        }
    }

    /// Handles what polling the inbox gave at time `now`, and says what to do:
    /// commands and raw lines go out at once; an asset replaces any asset held
    /// back and restarts the delay; shutdown sends the held-back asset, if any,
    /// and stops; an empty inbox means a short sleep; a closed one stops.
    pub fn receive<M>(&mut self, received: Received<M, A>, now: u64) -> (actions: Vec<WorkerAction<M, A>>)
        ensures
            final(self).spec_delay() == old(self).spec_delay(),
            final(self).spec_address() == old(self).spec_address(),
            final(self).spec_port() == old(self).spec_port(),
            final(self).spec_pending() == pending_after_receive(old(self).spec_pending(), received, now),
            actions@ == actions_after_receive(old(self).spec_pending(), received),
    {
        let mut actions: Vec<WorkerAction<M, A>> = Vec::new();
        match received {
            Received::Message(ClientMessage::SendMessage(m)) => {
                actions.push(WorkerAction::SendMessage(m));
            },
            Received::Message(ClientMessage::SendRaw(s)) => {
                actions.push(WorkerAction::SendRaw(s));
            },
            Received::Message(ClientMessage::SendAsset(a)) => {
                self.pending = Some((a, now));
            },
            Received::Message(ClientMessage::Shutdown) => {
                match self.pending.take() {
                    Some((a, _)) => {
                        actions.push(WorkerAction::SendAsset(a));
                    },
                    None => {},
                }
                actions.push(WorkerAction::Stop);
            },
            Received::Empty => {
                actions.push(WorkerAction::Sleep(IDLE_SLEEP_MS));
            },
            Received::Closed => {
                actions.push(WorkerAction::Stop);
            },
        }
        actions
    }
}


/// Commands and raw lines go out at once, as they are, and leave any held-back
/// asset alone; an asset goes out nowhere yet and is held back with its time;
/// shutdown holds nothing back any more and stops last; an empty inbox means
/// a short sleep and a closed one a stop, both leaving the held-back asset.
pub proof fn lemma_receive_actions<M, A>(pending: Option<(A, u64)>, m: M, line: String, a: A, now: u64)
    ensures
        actions_after_receive::<M, A>(pending, Received::Message(ClientMessage::SendMessage(m)))
            == seq![WorkerAction::<M, A>::SendMessage(m)],
        pending_after_receive::<M, A>(pending, Received::Message(ClientMessage::SendMessage(m)), now)
            == pending,
        actions_after_receive::<M, A>(pending, Received::Message(ClientMessage::SendRaw(line)))
            == seq![WorkerAction::<M, A>::SendRaw(line)],
        pending_after_receive::<M, A>(pending, Received::Message(ClientMessage::SendRaw(line)), now)
            == pending,
        actions_after_receive::<M, A>(pending, Received::Message(ClientMessage::SendAsset(a))).len()
            == 0,
        pending_after_receive::<M, A>(pending, Received::Message(ClientMessage::SendAsset(a)), now)
            == Some((a, now)),
        pending_after_receive::<M, A>(pending, Received::Message(ClientMessage::Shutdown), now) is None,
        actions_after_receive::<M, A>(pending, Received::Message(ClientMessage::Shutdown)).last()
            == WorkerAction::<M, A>::Stop,
        actions_after_receive::<M, A>(pending, Received::Empty) == seq![
            WorkerAction::<M, A>::Sleep(IDLE_SLEEP_MS),
        ],
        pending_after_receive::<M, A>(pending, Received::Empty, now) == pending,
        actions_after_receive::<M, A>(pending, Received::Closed) == seq![WorkerAction::<M, A>::Stop],
        pending_after_receive::<M, A>(pending, Received::Closed, now) == pending,
{
}

/// Asset updates are batched: when assets arrive one after another, only the
/// last is held back; it goes out on the first tick at least the delay after it
/// arrived, and not before; and shutdown sends whatever is held back.
pub proof fn lemma_last_asset_wins<M, A>(
    pending: Option<(A, u64)>,
    a1: A,
    t1: u64,
    a2: A,
    t2: u64,
    delay: u64,
    now: u64,
)
    ensures
        ({
            let p1 = pending_after_receive::<M, A>(pending, Received::Message(ClientMessage::SendAsset(a1)), t1);
            let p2 = pending_after_receive::<M, A>(p1, Received::Message(ClientMessage::SendAsset(a2)), t2);
            &&& p2 == Some((a2, t2))
            &&& is_due(p2, delay, now) <==> elapsed(t2, now) >= delay
            &&& actions_after_receive::<M, A>(p2, Received::Message(ClientMessage::Shutdown)) == seq![
                WorkerAction::<M, A>::SendAsset(a2),
                WorkerAction::Stop,
            ]
        }),
{
}

} // verus!
