//! The decisions of the remote-log service, which streams log output over
//! TCP with on-connect replay from a bounded ring buffer.
//!
//! Every log line is appended to a ring of `buffer_bytes` bytes, which is
//! FIFO-truncated: it always holds the most recent bytes of the log stream,
//! up to its capacity, and the producer never blocks on a full ring. A client
//! that connects first receives the ring's contents, oldest byte first.
//!
//! The sockets, the logging hook and the accept thread belong to the caller;
//! this module decides what they do.

use vstd::prelude::*;

use std::collections::VecDeque;

verus! {

/// Where logs should go.
#[derive(Debug, Clone, Copy, PartialEq, Eq, Structural)]
pub enum LogTarget {
    /// Run a TCP server on `port` that streams logs to any connected client.
    /// Each new client first receives the contents of the in-memory ring
    /// buffer (up to `buffer_bytes` bytes, FIFO-truncated), then receives
    /// every new line as it is emitted.
    TcpServer { port: u16, buffer_bytes: usize },
}

/// Size of the stack buffer a log line is rendered into.
pub const LINE_BUF: usize = 512;

/// The last `n` elements of `s` (all of `s` when it is shorter).
pub open spec fn keep_last(s: Seq<u8>, n: nat) -> Seq<u8> {
    if s.len() <= n {
        s
    } else {
        s.subrange(s.len() - n, s.len() as int)
    }
}

/// Bounded ring of recently emitted log bytes.
pub struct LogRing {
    ring: VecDeque<u8>,
    ring_cap: usize,
}

impl View for LogRing {
    type V = Seq<u8>;

    /// The bytes held, oldest first.
    closed spec fn view(&self) -> Seq<u8> {
        self.ring@
    }
}

impl LogRing {
    #[verifier::type_invariant]
    spec fn within_capacity(self) -> bool {
        self.ring@.len() <= self.ring_cap
    }

    /// The most bytes the ring holds.
    pub closed spec fn cap(self) -> nat {
        self.ring_cap as nat
    }

    /// An empty ring that holds at most `ring_cap` bytes.
    pub fn new(ring_cap: usize) -> (r: LogRing)
        ensures
            r@ == Seq::<u8>::empty(),
            r.cap() == ring_cap,
    {
        LogRing { ring: VecDeque::with_capacity(ring_cap), ring_cap }
    }

    /// The most bytes the ring holds.
    pub fn capacity(&self) -> (n: usize)
        ensures
            n == self.cap(),
            self@.len() <= n,
    {
        proof {
            use_type_invariant(self);
        }
        self.ring_cap
    }

    /// The bytes held, oldest first: what a newly connected client is sent.
    pub fn contents(&self) -> (v: Vec<u8>)
        ensures
            v@ == self@,
    {
        let len = self.ring.len();
        let mut v: Vec<u8> = Vec::with_capacity(len);
        let mut i: usize = 0;
        while i < len
            invariant
                len == self.ring@.len(),
                i <= len,
                v@ == self.ring@.subrange(0, i as int),
            decreases len - i,
        {
            v.push(self.ring[i]);
            i += 1;
            assert(v@ =~= self.ring@.subrange(0, i as int));
        }
        assert(v@ =~= self.ring@);
        v
    }
}

/// Appends a rendered log line, dropping the oldest bytes as needed: the ring
/// then holds the last `cap` bytes of what it held followed by `bytes`.
pub fn append_to_ring(sink: &mut LogRing, bytes: &[u8])
    ensures
        final(sink).cap() == old(sink).cap(),
        final(sink)@ == keep_last(old(sink)@ + bytes@, old(sink).cap()),
{
    proof {
        use_type_invariant(&*sink);
    }
    let cap = sink.ring_cap;
    let mut ring: VecDeque<u8> = VecDeque::new();
    std::mem::swap(&mut ring, &mut sink.ring);
    let ghost old_ring = ring@;
    assert(old_ring == old(sink)@);
    if cap == 0 {
        assert(old_ring.len() == 0);
        assert(keep_last(old_ring + bytes@, 0) =~= old_ring);
        sink.ring = ring;
        return;
    }
    if bytes.len() >= cap {
        // The new line is at least as big as the whole ring: keep only its tail.
        ring.clear();
        let start = bytes.len() - cap;
        let mut i = start;
        while i < bytes.len()
            invariant
                start == bytes@.len() - cap,
                start <= i <= bytes@.len(),
                ring@ == bytes@.subrange(start as int, i as int),
            decreases bytes@.len() - i,
        {
            ring.push_back(bytes[i]);
            i += 1;
            assert(ring@ =~= bytes@.subrange(start as int, i as int));
        }
        assert(keep_last(old_ring + bytes@, cap as nat) =~= bytes@.subrange(
            start as int,
            bytes@.len() as int,
        ));
        sink.ring = ring;
        return;
    }
    while ring.len() > cap - bytes.len()
        invariant
            bytes@.len() < cap,
            old_ring.len() <= cap,
            ring@.len() == old_ring.len() || ring@.len() + bytes@.len() >= cap,
            ring@.len() <= old_ring.len(),
            ring@ == old_ring.subrange(old_ring.len() - ring@.len(), old_ring.len() as int),
        decreases ring@.len(),
    {
        ring.pop_front();
        assert(ring@ =~= old_ring.subrange(old_ring.len() - ring@.len(), old_ring.len() as int));
    }
    let ghost kept = ring@;
    let mut i: usize = 0;
    while i < bytes.len()
        invariant
            kept.len() + bytes@.len() <= cap,
            i <= bytes@.len(),
            ring@ == kept + bytes@.subrange(0, i as int),
        decreases bytes@.len() - i,
    {
        ring.push_back(bytes[i]);
        i += 1;
        assert(ring@ =~= kept + bytes@.subrange(0, i as int));
    }
    assert(bytes@.subrange(0, bytes@.len() as int) =~= bytes@);
    assert(keep_last(old_ring + bytes@, cap as nat) =~= kept + bytes@);
    sink.ring = ring;
}

/// The length of the line a log hook forwards, given the length `want` that
/// rendering into the `LINE_BUF`-byte stack buffer reported: nothing when the
/// report is not positive, else the report clipped to the buffer less its
/// terminating NUL.
pub fn rendered_len(want: i32) -> (r: Option<usize>)
    ensures
        want <= 0 ==> r is None,
        want > 0 ==> r == Some(if want < LINE_BUF - 1 { want as usize } else { (LINE_BUF - 1) as usize }),
{
    if want <= 0 {
        return None;
    }
    let w = want as usize;
    if w < LINE_BUF - 1 {
        Some(w)
    } else {
        Some(LINE_BUF - 1)
    }
}

// ---------------------------------------------------------------------------
// Laws of the ring.
// ---------------------------------------------------------------------------

/// Keeping the tail before appending more changes nothing: the last `n`
/// bytes of (the last `n` bytes of `s`) followed by `a` are the last `n`
/// bytes of `s` followed by `a`.
pub proof fn lemma_keep_last_append(s: Seq<u8>, a: Seq<u8>, n: nat)
    ensures
        keep_last(keep_last(s, n) + a, n) == keep_last(s + a, n),
{
    if s.len() > n {
        let t = keep_last(s, n);
        let st = s + a;
        assert(keep_last(t + a, n) =~= keep_last(st, n));
    } else {
        assert(keep_last(s, n) == s);
    }
}

/// What the ring keeps is the newest part of what it was given: it has
/// `min(n, len)` bytes, and they are the last bytes of `s`, in order.
pub proof fn lemma_keep_last_is_newest_suffix(s: Seq<u8>, n: nat)
    ensures
        keep_last(s, n).len() == (if s.len() < n { s.len() } else { n }),
        forall|i: int|
            0 <= i < keep_last(s, n).len() ==> #[trigger] keep_last(s, n)[i] == s[s.len()
                - keep_last(s, n).len() + i],
{
}

/// All the lines, in order, as one byte stream.
pub open spec fn concat(lines: Seq<Seq<u8>>) -> Seq<u8>
    decreases lines.len(),
{
    if lines.len() == 0 {
        Seq::empty()
    } else {
        concat(lines.drop_last()) + lines.last()
    }
}

/// What an empty ring of capacity `n` holds after `lines` were appended in
/// order.
pub open spec fn ring_after(lines: Seq<Seq<u8>>, n: nat) -> Seq<u8>
    decreases lines.len(),
{
    if lines.len() == 0 {
        Seq::empty()
    } else {
        keep_last(ring_after(lines.drop_last(), n) + lines.last(), n)
    }
}

/// A ring always holds the most recent bytes of the whole log stream: after
/// any lines are appended to a fresh ring of capacity `n`, it holds the last
/// `n` bytes of their concatenation.
pub proof fn lemma_ring_holds_stream_tail(lines: Seq<Seq<u8>>, n: nat)
    ensures
        ring_after(lines, n) == keep_last(concat(lines), n),
    decreases lines.len(),
{
    if lines.len() > 0 {
        let init = lines.drop_last();
        lemma_ring_holds_stream_tail(init, n);
        lemma_keep_last_append(concat(init), lines.last(), n);
    } else {
        assert(keep_last(Seq::<u8>::empty(), n) =~= Seq::<u8>::empty());
    }
}

// ---------------------------------------------------------------------------
// Service set-up.
// ---------------------------------------------------------------------------

/// What the service has set up so far.
#[derive(Debug, Clone, Copy, PartialEq, Eq, Structural)]
pub struct RemoteLogState {
    /// Whether the logging hook is installed.
    pub hook_installed: bool,
    /// The port the accept thread serves, once started.
    pub server_port: Option<u16>,
}

/// What the caller does for one `init`.
#[derive(Debug, Clone, Copy, PartialEq, Eq, Structural)]
pub struct InitActions {
    /// Replace the shared sink by an empty ring of this capacity, dropping any
    /// connected clients.
    pub sink_capacity: usize,
    /// Install the logging hook.
    pub install_hook: bool,
    /// Start the accept thread on this port.
    pub start_server_on: Option<u16>,
}

/// Nothing set up yet.
pub open spec fn fresh_state() -> RemoteLogState {
    RemoteLogState { hook_installed: false, server_port: None }
}

/// The state after an `init` with `target`.
pub open spec fn state_after_init(s: RemoteLogState, target: LogTarget) -> RemoteLogState {
    let LogTarget::TcpServer { port, buffer_bytes: _ } = target;
    RemoteLogState {
        hook_installed: true,
        server_port: match s.server_port {
            Some(p) => Some(p),
            None => Some(port),
        },
    }
}

/// The actions of an `init` with `target` in state `s`.
pub open spec fn init_actions(s: RemoteLogState, target: LogTarget) -> InitActions {
    let LogTarget::TcpServer { port, buffer_bytes } = target;
    InitActions {
        sink_capacity: buffer_bytes,
        install_hook: !s.hook_installed,
        start_server_on: match s.server_port {
            Some(_) => None,
            None => Some(port),
        },
    }
}

impl RemoteLogState {
    /// Nothing set up yet.
    pub fn new() -> (s: RemoteLogState)
        ensures
            s == fresh_state(),
    {
        RemoteLogState { hook_installed: false, server_port: None }
    }
}

/// Installs (or replaces) the log sink and starts the service if it is not
/// already running: every call replaces the sink with an empty ring of the
/// target's size; the hook is installed only once; the accept thread is
/// started only once, on the first call's port.
pub fn init(state: &mut RemoteLogState, target: LogTarget) -> (actions: InitActions)
    ensures
        *final(state) == state_after_init(*old(state), target),
        actions == init_actions(*old(state), target),
{
    let LogTarget::TcpServer { port, buffer_bytes } = target;
    let install_hook = !state.hook_installed;
    let start_server_on = match state.server_port {
        Some(_) => None,
        None => Some(port),
    };
    state.hook_installed = true;
    if state.server_port.is_none() {
        state.server_port = Some(port);
    }
    InitActions { sink_capacity: buffer_bytes, install_hook, start_server_on }
}

/// Re-initialising keeps what the first `init` started: the hook is not
/// installed again, no second server starts, the first port sticks, and only
/// the sink is replaced with one of the new size.
pub proof fn lemma_reinit_keeps_first_port(t1: LogTarget, t2: LogTarget)
    ensures
        init_actions(fresh_state(), t1).install_hook,
        init_actions(fresh_state(), t1).start_server_on == Some(t1->port),
        !init_actions(state_after_init(fresh_state(), t1), t2).install_hook,
        init_actions(state_after_init(fresh_state(), t1), t2).start_server_on is None,
        init_actions(state_after_init(fresh_state(), t1), t2).sink_capacity == t2->buffer_bytes,
        state_after_init(state_after_init(fresh_state(), t1), t2).server_port == Some(t1->port),
{
}

/// Once the service runs, every later `init` leaves its hook and port as
/// they are.
pub proof fn lemma_init_after_start_is_stable(s: RemoteLogState, t: LogTarget)
    requires
        s.hook_installed,
        s.server_port is Some,
    ensures
        state_after_init(s, t) == s,
        !init_actions(s, t).install_hook,
        init_actions(s, t).start_server_on is None,
{
}

} // verus!
