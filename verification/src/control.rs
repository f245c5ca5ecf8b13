//! The control plane: recognition of the one-shot shutdown token and the
//! state of the worker that serves the control endpoint.
//!
//! The worker accepts control connections one after another. The first
//! connection whose bytes begin with the token `stop` makes it signal the
//! acceptor and stop serving; every later connection is without effect.

use vstd::prelude::*;

verus! {

/// The shutdown token: the bytes of `stop`.
pub open spec fn spec_stop_token() -> Seq<u8> {
    seq![115u8, 116u8, 111u8, 112u8]
}

/// A control payload is a shutdown command when it begins with the token.
pub open spec fn spec_is_shutdown(s: Seq<u8>) -> bool {
    s.len() >= spec_stop_token().len() && s.subrange(0, spec_stop_token().len() as int)
        == spec_stop_token()
}

/// The shutdown token as a byte vector, as the client writes it.
pub fn stop_token_bytes() -> (r: Vec<u8>)
    ensures
        r@ == spec_stop_token(),
{
    let mut v: Vec<u8> = Vec::new();
    v.push(115u8);
    v.push(116u8);
    v.push(111u8);
    v.push(112u8);
    proof {
        assert(v@ =~= spec_stop_token());
    }
    v
}

/// Whether the bytes read from a control connection begin with the
/// shutdown token. Any other content is ignored by the worker.
pub fn is_shutdown_command(buf: &[u8]) -> (r: bool)
    ensures
        r == spec_is_shutdown(buf@),
{
    let token = stop_token_bytes();
    if buf.len() < token.len() {
        return false;
    }
    let mut i: usize = 0;
    while i < token.len()
        invariant
            token@ == spec_stop_token(),
            token@.len() <= buf@.len(),
            0 <= i <= token@.len(),
            forall|k: int| 0 <= k < i ==> buf@[k] == token@[k],
        decreases token@.len() - i,
    {
        if buf[i] != token[i] {
            proof {
                assert(buf@.subrange(0, spec_stop_token().len() as int)[i as int] == buf@[
                i as int]);
            }
            return false;
        }
        i = i + 1;
    }
    proof {
        assert(buf@.subrange(0, spec_stop_token().len() as int) =~= spec_stop_token());
    }
    true
}

/// What one control connection does to the worker: if it has already
/// signalled, nothing; otherwise it signals exactly when the payload is a
/// shutdown command, and stops serving once it has.
pub open spec fn spec_control_step(stopped: bool, payload: Seq<u8>) -> (bool, bool) {
    if stopped {
        (true, false)
    } else {
        (spec_is_shutdown(payload), spec_is_shutdown(payload))
    }
}

/// The control worker: serves the control endpoint until it has signalled
/// shutdown once.
pub struct ControlWorker {
    pub stopped: bool,
}

impl ControlWorker {
    /// A freshly started worker has not signalled yet.
    pub fn new() -> (w: ControlWorker)
        ensures
            !w.stopped,
    {
        ControlWorker { stopped: false }
    }

    /// Handles the bytes read from one control connection; returns whether
    /// the shutdown signal is to be delivered to the acceptor now.
    pub fn on_connection(&mut self, payload: &[u8]) -> (signal: bool)
        ensures
            (final (self).stopped, signal) == spec_control_step(old(self).stopped, payload@),
    {
        if self.stopped {
            return false;
        }
        let shutdown = is_shutdown_command(payload);
        self.stopped = shutdown;
        shutdown
    }
}

/// Shutdown is one-shot: once a connection has made the worker signal,
/// no later connection makes it signal again, whatever its payload.
pub proof fn lemma_shutdown_one_shot(first_payload: Seq<u8>, second_payload: Seq<u8>)
    requires
        spec_control_step(false, first_payload).1,
    ensures
        !spec_control_step(spec_control_step(false, first_payload).0, second_payload).1,
{
}

} // verus!
