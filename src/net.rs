//! The per-connection state of a TCP client: its read buffer, its preferences and
//! whether it currently holds a subscription to the tracker's updates.

use vstd::prelude::*;

use crate::canvas::{prefs_after, ConnectionPreferences};
use crate::framing::{first_frame, Frame, NEWLINE};
use crate::pixmap_actor::SetPixelMsg;
use crate::protocol::{response_payload, Request, Response};
use crate::text::push_bytes;

verus! {

/// A change of a connection's subscription, to be announced to the client.
#[derive(Debug, Copy, Clone, PartialEq, Eq, Structural)]
pub enum SubscriptionChange {
    /// A subscription was taken; the client gets `SUBSCRIBED`.
    Activated,
    /// The subscription was dropped; the client gets `UNSUBSCRIBED`.
    Deactivated,
}

impl SubscriptionChange {
    /// The response that announces this change.
    pub fn response(&self) -> (r: Response)
        ensures
            *self == SubscriptionChange::Activated ==> r == Response::SubscriptionActivated,
            *self == SubscriptionChange::Deactivated ==> r == Response::SubscriptionDeactivated,
    {
        match self {
            SubscriptionChange::Activated => Response::SubscriptionActivated,
            SubscriptionChange::Deactivated => Response::SubscriptionDeactivated,
        }
    }
}

/// Whether a connection holds a subscription after reconciling it with the client's
/// preferences, and the change to announce.
pub open spec fn reconcile(p: ConnectionPreferences, subscribed: bool) -> (
    bool,
    Option<SubscriptionChange>,
) {
    if p.subscribed && !subscribed {
        (true, Some(SubscriptionChange::Activated))
    } else if !p.subscribed && subscribed {
        (false, Some(SubscriptionChange::Deactivated))
    } else {
        (subscribed, None)
    }
}

/// The bytes written for a batch of updates: one `PX x y RRGGBB` line per update,
/// in order.
pub open spec fn batch_lines(batch: Seq<SetPixelMsg>) -> Seq<u8>
    decreases batch.len(),
{
    if batch.len() == 0 {
        seq![]
    } else {
        let u = batch.last();
        batch_lines(batch.drop_last()) + response_payload(
            Response::Px { x: u.x, y: u.y, color: u.color },
        ).push(NEWLINE)
    }
}

/// What a TCP connection keeps between its requests.
pub struct TcpConnection {
    read_buffer: Vec<u8>,
    client_preferences: ConnectionPreferences,
    subscription: bool,
}

impl TcpConnection {
    /// The bytes received and not yet taken as frames.
    pub closed spec fn buffered(&self) -> Seq<u8> {
        self.read_buffer@
    }

    pub closed spec fn preferences(&self) -> ConnectionPreferences {
        self.client_preferences
    }

    /// The connection holds a subscription to the tracker's updates.
    pub closed spec fn has_subscription(&self) -> bool {
        self.subscription
    }

    /// A fresh connection: nothing buffered, not subscribed.
    pub fn new() -> (r: TcpConnection)
        ensures
            r.buffered() == Seq::<u8>::empty(),
            !r.preferences().subscribed,
            !r.has_subscription(),
    {
        TcpConnection {
            read_buffer: Vec::new(),
            client_preferences: ConnectionPreferences { subscribed: false },
            subscription: false,
        }
    }

    /// Append bytes read from the socket.
    pub fn receive(&mut self, data: &[u8])
        ensures
            final(self).buffered() == old(self).buffered() + data@,
            final(self).preferences() == old(self).preferences(),
            final(self).has_subscription() == old(self).has_subscription(),
    {
        push_bytes(&mut self.read_buffer, data);
    }

    /// Take the first complete frame out of the buffer; `None`, with the buffer left as
    /// it is, where no complete frame has arrived yet.
    pub fn read_frame(&mut self) -> (r: Option<Frame>)
        ensures
            final(self).preferences() == old(self).preferences(),
            final(self).has_subscription() == old(self).has_subscription(),
            first_frame(old(self).buffered()) is None ==> r is None && final(self).buffered()
                == old(self).buffered(),
            first_frame(old(self).buffered()) matches Some((f, n)) ==> r is Some && r->0@ == f
                && final(self).buffered() == old(self).buffered().skip(n as int),
    {
        match Frame::from_input(self.read_buffer.as_slice()) {
            Err(_) => None,
            Ok((frame, n)) => {
                let ghost old_buf = self.read_buffer@;
                let mut rest: Vec<u8> = Vec::new();
                let mut i: usize = n;
                while i < self.read_buffer.len()
                    invariant
                        self.read_buffer@ == old_buf,
                        n <= i <= old_buf.len(),
                        rest@ =~= old_buf.subrange(n as int, i as int),
                    decreases old_buf.len() - i,
                {
                    rest.push(self.read_buffer[i]);
                    i = i + 1;
                }
                self.read_buffer = rest;
                proof {
                    assert(self.read_buffer@ =~= old_buf.skip(n as int));
                }
                Some(frame)
            },
        }
    }

    /// A copy of the client's preferences, to be handed to the coordinator with a
    /// request.
    pub fn get_preferences(&self) -> (r: ConnectionPreferences)
        ensures
            r == self.preferences(),
    {
        self.client_preferences
    }

    /// Take over the preferences that the coordinator returned with its reply.
    pub fn set_preferences(&mut self, prefs: ConnectionPreferences)
        ensures
            final(self).preferences() == prefs,
            final(self).buffered() == old(self).buffered(),
            final(self).has_subscription() == old(self).has_subscription(),
    {
        self.client_preferences = prefs;
    }

    /// After each request: take a subscription where the client asked for one and
    /// there is none, drop it where the client asked to stop and there is one.
    pub fn reconcile_subscription(&mut self) -> (r: Option<SubscriptionChange>)
        ensures
            (final(self).has_subscription(), r) == reconcile(
                old(self).preferences(),
                old(self).has_subscription(),
            ),
            final(self).preferences() == old(self).preferences(),
            final(self).buffered() == old(self).buffered(),
    {
        if self.client_preferences.subscribed && !self.subscription {
            self.subscription = true;
            Some(SubscriptionChange::Activated)
        } else if !self.client_preferences.subscribed && self.subscription {
            self.subscription = false;
            Some(SubscriptionChange::Deactivated)
        } else {
            None
        }
    }

    /// The bytes to write for a batch of updates that arrived on the subscription.
    pub fn handle_new_subscription_data(batch: &[SetPixelMsg]) -> (r: Vec<u8>)
        ensures
            r@ == batch_lines(batch@),
    {
        let mut out: Vec<u8> = Vec::new();
        let mut i: usize = 0;
        while i < batch.len()
            invariant
                i <= batch@.len(),
                out@ == batch_lines(batch@.take(i as int)),
            decreases batch@.len() - i,
        {
            let u = batch[i];
            let line = Response::Px { x: u.x, y: u.y, color: u.color }.to_frame().encode();
            push_bytes(&mut out, line.as_slice());
            proof {
                assert(batch@.take(i + 1).drop_last() =~= batch@.take(i as int));
            }
            i = i + 1;
        }
        assert(batch@.take(batch@.len() as int) =~= batch@);
        out
    }
}

/// Subscribing twice without unsubscribing leaves one subscription: the second
/// request announces nothing.
pub proof fn lemma_subscribe_twice(p: ConnectionPreferences, subscribed: bool)
    ensures
        ({
            let prefs_once = prefs_after(p, Request::Subscribe);
            let (held_once, change_once) = reconcile(prefs_once, subscribed);
            let prefs_twice = prefs_after(prefs_once, Request::Subscribe);
            let (held_twice, change_twice) = reconcile(prefs_twice, held_once);
            &&& held_once && held_twice
            &&& change_twice is None
            &&& change_once is None || change_once == Some(SubscriptionChange::Activated)
        }),
{
}

} // verus!
