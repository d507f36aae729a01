//! The shared telemetry connection's decisions: framing a message, keeping
//! a bounded backlog while disconnected, and the reconnect loop's state,
//! retry budget and jitter generator.

use vstd::prelude::*;

verus! {

/// State of the shared connection.
#[derive(Debug, Clone, Copy, PartialEq, Eq, Structural)]
pub enum ConnectionState {
    Disconnected,
    Connecting,
    Connected,
    Reconnecting,
    Failed,
}

/// A message for the engine: the frame prefix naming its kind, and its
/// payload.
pub struct OtelMessage {
    pub prefix: &'static [u8],
    pub data: Vec<u8>,
}

/// The binary frame of a message: its prefix followed by its payload.
pub fn frame_message(msg: &OtelMessage) -> (frame: Vec<u8>)
    ensures
        frame@ == msg.prefix@ + msg.data@,
{
    let mut frame: Vec<u8> = Vec::new();
    let mut i: usize = 0;
    while i < msg.prefix.len()
        invariant
            i <= msg.prefix@.len(),
            frame@ == msg.prefix@.take(i as int),
        decreases msg.prefix@.len() - i,
    {
        frame.push(msg.prefix[i]);
        proof {
            assert(msg.prefix@.take(i + 1) =~= msg.prefix@.take(i as int).push(msg.prefix@[i as int]));
        }
        i = i + 1;
    }
    let mut j: usize = 0;
    while j < msg.data.len()
        invariant
            i == msg.prefix@.len(),
            j <= msg.data@.len(),
            frame@ == msg.prefix@ + msg.data@.take(j as int),
        decreases msg.data@.len() - j,
    {
        proof {
            assert(msg.prefix@.take(i as int) =~= msg.prefix@);
        }
        frame.push(msg.data[j]);
        proof {
            assert(msg.prefix@ + msg.data@.take(j + 1) =~= (msg.prefix@ + msg.data@.take(j as int)).push(
                msg.data@[j as int],
            ));
        }
        j = j + 1;
    }
    proof {
        assert(msg.prefix@.take(i as int) =~= msg.prefix@);
        assert(msg.data@.take(j as int) =~= msg.data@);
    }
    frame
}

/// How many of `incoming` still fit in a backlog of `len` messages capped
/// at `max_pending`.
pub open spec fn room(len: nat, max_pending: nat, incoming: nat) -> nat {
    if len >= max_pending {
        0
    } else if max_pending - len < incoming {
        (max_pending - len) as nat
    } else {
        incoming
    }
}

/// Moves the messages that arrived while disconnected into the backlog,
/// oldest first, while it holds fewer than `max_pending`; the rest are
/// dropped so that stale data is not delivered on the next connection.
/// Returns how many were dropped.
pub fn collect_pending(pending: &mut Vec<OtelMessage>, incoming: Vec<OtelMessage>, max_pending: usize) -> (dropped: u64)
    ensures
        final(pending)@ == old(pending)@ + incoming@.take(
            room(old(pending)@.len(), max_pending as nat, incoming@.len()) as int,
        ),
        dropped == incoming@.len() - room(old(pending)@.len(), max_pending as nat, incoming@.len()),
{
    let ghost start = pending@;
    let ghost all = incoming@;
    let mut incoming = incoming;
    let n = incoming.len();
    let mut dropped: u64 = 0;
    let mut i: usize = 0;
    while incoming.len() > 0
        invariant
            i + incoming@.len() == all.len(),
            all.len() == n,
            incoming@ == all.skip(i as int),
            pending@ == start + all.take(room(start.len(), max_pending as nat, i as nat) as int),
            dropped == i - room(start.len(), max_pending as nat, i as nat),
        decreases incoming@.len(),
    {
        let msg = incoming.remove(0);
        proof {
            assert(msg == all[i as int]);
            assert(incoming@ =~= all.skip(i + 1));
        }
        if pending.len() < max_pending {
            pending.push(msg);
            proof {
                assert(all.take(room(start.len(), max_pending as nat, (i + 1) as nat) as int)
                    =~= all.take(room(start.len(), max_pending as nat, i as nat) as int).push(all[i as int]));
            }
        } else {
            dropped = dropped + 1;
        }
        i = i + 1;
    }
    proof {
        assert(i == all.len());
    }
    dropped
}

/// The backlog never grows past the cap: after collecting it holds at most
/// `max_pending` messages, or as many as it already held.
pub proof fn law_collect_pending_bounded(len: nat, max_pending: nat, incoming: nat)
    ensures
        len + room(len, max_pending, incoming) <= if len > max_pending {
            len
        } else {
            max_pending
        },
        room(len, max_pending, incoming) <= incoming,
{
}

/// The reconnect loop's bookkeeping.
#[derive(Debug, Clone, Copy)]
pub struct ReconnectLoop {
    /// Failed attempts since the last successful connection.
    pub retry_count: u64,
    /// Attempts allowed before giving up; `None` retries forever.
    pub max_retries: Option<u64>,
}

/// Outcome of one connection attempt.
#[derive(Debug, Clone, Copy, PartialEq, Eq, Structural)]
pub enum ConnectOutcome {
    /// The connection was established (and has since ended).
    Connected,
    /// The connection could not be established.
    Failed,
}

impl ReconnectLoop {
    pub fn new(max_retries: Option<u64>) -> (r: Self)
        ensures
            r.retry_count == 0,
            r.max_retries == max_retries,
    {
        ReconnectLoop { retry_count: 0, max_retries }
    }

    /// State announced while an attempt is in progress: `Reconnecting`
    /// after failed attempts, else `Connecting`.
    pub fn attempt_state(&self) -> (s: ConnectionState)
        ensures
            s == if self.retry_count > 0 {
                ConnectionState::Reconnecting
            } else {
                ConnectionState::Connecting
            },
    {
        if self.retry_count > 0 {
            ConnectionState::Reconnecting
        } else {
            ConnectionState::Connecting
        }
    }

    /// Records an attempt: a connection resets the count of failures, a
    /// failure adds one.
    pub fn record(&mut self, outcome: ConnectOutcome)
        requires
            outcome == ConnectOutcome::Failed ==> old(self).retry_count < u64::MAX,
        ensures
            final(self).max_retries == old(self).max_retries,
            final(self).retry_count == match outcome {
                ConnectOutcome::Connected => 0,
                ConnectOutcome::Failed => old(self).retry_count + 1,
            },
    {
        match outcome {
            ConnectOutcome::Connected => {
                self.retry_count = 0;
            },
            ConnectOutcome::Failed => {
                self.retry_count = self.retry_count + 1;
            },
        }
    }

    /// True when the retry budget is spent: the loop stops in `Failed`.
    pub fn gives_up(&self) -> (b: bool)
        ensures
            b == match self.max_retries {
                Some(m) => self.retry_count >= m,
                None => false,
            },
    {
        match self.max_retries {
            Some(m) => self.retry_count >= m,
            None => false,
        }
    }

    /// Exponent of the backoff multiplier for the next delay: one less than
    /// the failures so far, at least 0 and at most 63.
    pub fn backoff_exponent(&self) -> (e: i32)
        ensures
            e == if self.retry_count == 0 {
                0
            } else if self.retry_count - 1 > 63 {
                63
            } else {
                self.retry_count - 1
            },
    {
        let n = if self.retry_count == 0 {
            0
        } else {
            self.retry_count - 1
        };
        if n > 63 {
            63
        } else {
            n as i32
        }
    }
}

/// The first reconnect delay in milliseconds: the configured value, at
/// least 1 so that the backoff never divides by zero.
pub fn effective_initial_delay_ms(initial_delay_ms: u64) -> (d: u64)
    ensures
        d == if initial_delay_ms == 0 {
            1
        } else {
            initial_delay_ms
        },
{
    if initial_delay_ms == 0 {
        1
    } else {
        initial_delay_ms
    }
}

/// One step of the xorshift64 generator behind reconnect jitter.
pub fn xorshift64(state: u64) -> (next: u64)
    ensures
        next == ({
            let a = state ^ (state << 13u64);
            let b = a ^ (a >> 7u64);
            b ^ (b << 17u64)
        }),
{
    let mut s = state;
    s = s ^ (s << 13u64);
    s = s ^ (s >> 7u64);
    s = s ^ (s << 17u64);
    s
}

/// Seed of the jitter generator: the clock's nanoseconds (a fixed value
/// when the clock is before the epoch) mixed with the process id and a
/// constant.
pub fn jitter_seed(clock_nanos: Option<u64>, pid: u32) -> (seed: u64)
    ensures
        seed == (match clock_nanos {
            Some(n) => n,
            None => 0x517cc1b727220a95u64,
        }) ^ (pid as u64) ^ 0x6a09e667f3bcc908u64,
{
    let n = match clock_nanos {
        Some(n) => n,
        None => 0x517cc1b727220a95u64,
    };
    n ^ (pid as u64) ^ 0x6a09e667f3bcc908u64
}

} // verus!
