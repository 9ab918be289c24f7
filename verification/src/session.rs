//! The control flow of one connection: register, relay line after line until
//! the exit keyword or the end of the stream, unregister.

use vstd::prelude::*;
use crate::broadcast::{recipients, relay, Delivery};
use crate::identity::Identity;
use crate::registry::{distinct, without, Record, Registry};
use crate::registry_laws::{lemma_push_membership, lemma_without_membership};
use crate::text::{exit_line, is_exit_line, relay_line};

verus! {

/// Where a session stands in its life.
#[derive(Clone, Copy, PartialEq, Eq, Structural, Debug)]
pub enum Phase {
    /// Accepted, not yet registered.
    Connecting,
    /// Registered; its lines are relayed.
    Active,
    /// It asked to leave or its stream ended; still registered.
    Terminating,
    /// Unregistered; nothing follows.
    Terminated,
}

/// What a handler meets on its own connection.
pub enum Event {
    /// The connection was accepted and a handle to write on it is at hand.
    Accepted,
    /// A line came in, without its terminator.
    Line(Seq<char>),
    /// The peer closed the stream.
    EndOfStream,
    /// Reading from the stream failed.
    ReadError,
    /// The session's resources are given up.
    Released,
}

/// The phase that follows `phase` on `event`. An event that has no meaning in
/// a phase leaves it as it is.
pub open spec fn next_phase(phase: Phase, event: Event) -> Phase {
    match (phase, event) {
        (Phase::Connecting, Event::Accepted) => Phase::Active,
        (Phase::Active, Event::Line(line)) => if exit_line(line) {
            Phase::Terminating
        } else {
            Phase::Active
        },
        (Phase::Active, Event::EndOfStream) => Phase::Terminating,
        (Phase::Active, Event::ReadError) => Phase::Terminating,
        (Phase::Terminating, Event::Released) => Phase::Terminated,
        _ => phase,
    }
}

/// Whether a session in `phase` has its record in the registry.
pub open spec fn registered_in(phase: Phase) -> bool {
    phase == Phase::Active || phase == Phase::Terminating
}

/// How far a session has come: the phases in the order of a session's life.
pub open spec fn progress(phase: Phase) -> nat {
    match phase {
        Phase::Connecting => 0,
        Phase::Active => 1,
        Phase::Terminating => 2,
        Phase::Terminated => 3,
    }
}

/// A session never goes back, and goes at most one phase on at a time.
pub proof fn lemma_phase_moves_forward(phase: Phase, event: Event)
    ensures
        progress(phase) <= progress(next_phase(phase, event)) <= progress(phase) + 1,
{
}

/// Nothing follows the last phase.
pub proof fn lemma_terminated_is_final(event: Event)
    ensures
        next_phase(Phase::Terminated, event) == Phase::Terminated,
{
}

/// An active session stays active on exactly the lines that are no exit
/// lines; the end of its stream and a failed read end it like an exit line.
pub proof fn lemma_active_session(line: Seq<char>)
    ensures
        next_phase(Phase::Active, Event::Line(line)) == Phase::Active <==> !exit_line(line),
        next_phase(Phase::Active, Event::Line(line)) == Phase::Terminating <==> exit_line(line),
        next_phase(Phase::Active, Event::EndOfStream) == Phase::Terminating,
        next_phase(Phase::Active, Event::ReadError) == Phase::Terminating,
{
}

/// A session gets its record when it is accepted and loses it when it is
/// released, and at no other time.
pub proof fn lemma_registration_changes(phase: Phase, event: Event)
    ensures
        !registered_in(phase) && registered_in(next_phase(phase, event)) <==> phase
            == Phase::Connecting && event == Event::Accepted,
        registered_in(phase) && !registered_in(next_phase(phase, event)) <==> phase
            == Phase::Terminating && event == Event::Released,
{
}

/// The handler of one connection.
pub struct Handler {
    identity: Identity,
    phase: Phase,
}

impl Handler {
    /// The session's identity. It never changes.
    pub closed spec fn spec_identity(&self) -> &Identity {
        &self.identity
    }

    /// The session's phase.
    pub closed spec fn spec_phase(&self) -> Phase {
        self.phase
    }

    /// The registry and the handler agree: the session has a record exactly
    /// in the phases in which it is registered.
    pub open spec fn agrees_with<H>(&self, registry: &Registry<H>) -> bool {
        registry.holds(self.identity()@) <==> registered_in(self.phase())
    }

    /// The handler of a connection that was just accepted.
    pub fn accept(identity: Identity) -> (handler: Handler)
        ensures
            *handler.identity() == identity,
            handler.phase() == Phase::Connecting,
    {
        Handler { identity, phase: Phase::Connecting }
    }

    /// The session's identity.
    #[verifier::when_used_as_spec(spec_identity)]
    pub fn identity(&self) -> (identity: &Identity)
        ensures
            identity == self.identity(),
    {
        &self.identity
    }

    /// The session's phase.
    #[verifier::when_used_as_spec(spec_phase)]
    pub fn phase(&self) -> (phase: Phase)
        ensures
            phase == self.phase(),
    {
        self.phase
    }

    /// Registers the session with `handle` and makes it active. Any
    /// connection is taken. Where the session is not connecting, nothing
    /// changes and the handle is given up.
    pub fn open<H>(&mut self, registry: &mut Registry<H>, handle: H)
        ensures
            final(self).identity() == old(self).identity(),
            final(self).phase() == next_phase(old(self).phase(), Event::Accepted),
            old(self).phase() == Phase::Connecting ==> final(registry)@ == old(registry)@.push(
                Record { identity: *old(self).identity(), handle },
            ),
            old(self).phase() != Phase::Connecting ==> final(registry)@ == old(registry)@,
            old(self).agrees_with(old(registry)) ==> final(self).agrees_with(final(registry)),
            old(self).agrees_with(old(registry)) && distinct(old(registry)@) ==> distinct(
                final(registry)@,
            ),
            forall|other: Seq<char>|
                other != old(self).identity()@ ==> (#[trigger] final(registry).holds(other)
                    <==> old(registry).holds(other)),
    {
        if self.phase == Phase::Connecting {
            let ghost added = Record { identity: self.identity, handle };
            registry.register(self.identity.clone(), handle);
            self.phase = Phase::Active;
            proof {
                assert forall|other: Seq<char>| other != old(self).identity()@ implies (
                #[trigger] registry.holds(other) <==> old(registry).holds(other)) by {
                    lemma_push_membership(old(registry)@, added, other);
                }
            }
        }
    }

    /// Takes one line from the session's stream. An exit line ends the
    /// session and is relayed to nobody. Any other line is relayed: the
    /// result holds one delivery for each record of another session. Where
    /// the session is not active, nothing changes and nothing is relayed.
    pub fn on_line<'a, H>(&mut self, registry: &'a Registry<H>, line: &str) -> (out: Vec<
        Delivery<'a, H>,
    >)
        ensures
            final(self).identity() == old(self).identity(),
            final(self).phase() == next_phase(old(self).phase(), Event::Line(line@)),
            old(self).phase() == Phase::Active && !exit_line(line@) ==> recipients(out@) == without(
                registry@,
                old(self).identity()@,
            ),
            old(self).phase() != Phase::Active || exit_line(line@) ==> out@.len() == 0,
            forall|k: int|
                0 <= k < out@.len() ==> (#[trigger] out@[k]).line@ == relay_line(
                    old(self).identity()@,
                    line@,
                ),
            forall|k: int|
                0 <= k < out@.len() ==> (#[trigger] out@[k]).to.identity@ != old(
                    self,
                ).identity()@,
            old(self).agrees_with(registry) ==> final(self).agrees_with(registry),
    {
        if self.phase != Phase::Active {
            return Vec::new();
        }
        if is_exit_line(line) {
            self.phase = Phase::Terminating;
            return Vec::new();
        }
        relay(registry.snapshot_for_broadcast(), &self.identity, line)
    }

    /// The peer closed the stream: an active session starts to end.
    pub fn on_end_of_stream(&mut self)
        ensures
            final(self).identity() == old(self).identity(),
            final(self).phase() == next_phase(old(self).phase(), Event::EndOfStream),
    {
        if self.phase == Phase::Active {
            self.phase = Phase::Terminating;
        }
    }

    /// Reading failed: an active session starts to end. Nothing is tried
    /// again.
    pub fn on_read_error(&mut self)
        ensures
            final(self).identity() == old(self).identity(),
            final(self).phase() == next_phase(old(self).phase(), Event::ReadError),
    {
        if self.phase == Phase::Active {
            self.phase = Phase::Terminating;
        }
    }

    /// Unregisters a session that is ending; it is then terminated. Where
    /// the session is not ending, nothing changes.
    pub fn close<H>(&mut self, registry: &mut Registry<H>)
        ensures
            final(self).identity() == old(self).identity(),
            final(self).phase() == next_phase(old(self).phase(), Event::Released),
            old(self).phase() == Phase::Terminating ==> final(registry)@ == without(
                old(registry)@,
                old(self).identity()@,
            ),
            old(self).phase() != Phase::Terminating ==> final(registry)@ == old(registry)@,
            old(self).agrees_with(old(registry)) ==> final(self).agrees_with(final(registry)),
            distinct(old(registry)@) ==> distinct(final(registry)@),
            forall|other: Seq<char>|
                other != old(self).identity()@ ==> (#[trigger] final(registry).holds(other)
                    <==> old(registry).holds(other)),
    {
        if self.phase == Phase::Terminating {
            registry.unregister(&self.identity);
            self.phase = Phase::Terminated;
            proof {
                assert forall|other: Seq<char>| other != old(self).identity()@ implies (
                #[trigger] registry.holds(other) <==> old(registry).holds(other)) by {
                    lemma_without_membership(old(registry)@, old(self).identity()@, other);
                }
            }
        }
    }
}

} // verus!
