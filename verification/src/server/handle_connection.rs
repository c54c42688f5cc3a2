//! The life of one connection of a server.
use vstd::prelude::*;

use crate::addr::Addr;
use crate::codec::Codec;
use crate::error::ErrorKind;
use crate::server::{Event, Server};

verus! {

/// Where a connection stands. Each variant but the last names the operation under way.
#[derive(Clone, Copy, Debug, PartialEq, Eq, Structural)]
pub enum HandlePhase {
    /// The sink is being told that the client has connected.
    Connecting,
    /// Messages are exchanged.
    Serving,
    /// The socket is being shut down.
    ShuttingDown,
    /// The sink is being told that the connection is over.
    Disconnecting,
    /// Nothing is left to do.
    Finished,
}

/// The next thing to do for a connection.
#[derive(Debug)]
pub enum HandleAction<Tin, TErr> {
    /// Hand this to the sink, as coming from this client.
    Deliver(Addr, Event<Tin, TErr>),
    /// Exchange messages with the client until receiving from it ends.
    Serve,
    /// Shut down both directions of the socket.
    Shutdown,
    /// Stop.
    Finish,
    /// Give up the socket, and stop with a panic.
    Panic,
}

/// A connection of a server.
#[derive(Clone, Copy, Debug, PartialEq, Eq, Structural)]
pub struct HandleConnection {
    /// The client.
    pub addr: Addr,
    pub phase: HandlePhase,
}

impl HandleConnection {
    /// A new connection is first of all reported.
    pub open spec fn first<Tin, TErr>(addr: Addr) -> (Self, HandleAction<Tin, TErr>) {
        (
            HandleConnection { addr, phase: HandlePhase::Connecting },
            HandleAction::Deliver(addr, Event::Connect),
        )
    }

    /// What comes after a delivery. A sink that no longer takes any is a reason to panic.
    pub open spec fn after_delivery<Tin, TErr>(self, accepted: bool) -> (
        Self,
        HandleAction<Tin, TErr>,
    ) {
        if !accepted {
            (
                HandleConnection { phase: HandlePhase::Finished, ..self },
                HandleAction::Panic,
            )
        } else if self.phase is Connecting {
            (HandleConnection { phase: HandlePhase::Serving, ..self }, HandleAction::Serve)
        } else {
            (HandleConnection { phase: HandlePhase::Finished, ..self }, HandleAction::Finish)
        }
    }

    /// What comes after receiving has ended: the socket is shut down.
    pub open spec fn after_serving<Tin, TErr>(self) -> (Self, HandleAction<Tin, TErr>) {
        (
            HandleConnection { phase: HandlePhase::ShuttingDown, ..self },
            HandleAction::Shutdown,
        )
    }

    /// What comes after shutting down the socket: the end is reported. A failure is a reason to
    /// panic.
    pub open spec fn after_shutdown<Tin, TErr>(self, outcome: Result<(), ErrorKind>) -> (
        Self,
        HandleAction<Tin, TErr>,
    ) {
        if outcome is Ok {
            (
                HandleConnection { phase: HandlePhase::Disconnecting, ..self },
                HandleAction::Deliver(self.addr, Event::Disconnect),
            )
        } else {
            (
                HandleConnection { phase: HandlePhase::Finished, ..self },
                HandleAction::Panic,
            )
        }
    }

    /// Takes in whether the sink has accepted what was handed to it.
    pub fn on_delivered<Tin, TErr>(self, accepted: bool) -> (next: (
        Self,
        HandleAction<Tin, TErr>,
    ))
        requires
            self.phase is Connecting || self.phase is Disconnecting,
        ensures
            next == self.after_delivery::<Tin, TErr>(accepted),
    {
        let addr = self.addr;
        if !accepted {
            (HandleConnection { addr, phase: HandlePhase::Finished }, HandleAction::Panic)
        } else {
            match self.phase {
                HandlePhase::Connecting => (
                    HandleConnection { addr, phase: HandlePhase::Serving },
                    HandleAction::Serve,
                ),
                _ => (
                    HandleConnection { addr, phase: HandlePhase::Finished },
                    HandleAction::Finish,
                ),
            }
        }
    }

    /// Takes in that receiving from the client has ended. From here on, nothing can be sent to
    /// the client any more.
    pub fn on_served<Tin, Tout, C, Q>(self, server: &mut Server<Tin, Tout, C, Q>) -> (next: (
        Self,
        HandleAction<Tin, C::TErr>,
    )) where C: Codec<Tin, Tout>
        requires
            self.phase is Serving,
            old(server).wf(),
        ensures
            next == self.after_serving::<Tin, C::TErr>(),
            final(server).wf(),
            final(server)@ == old(server)@.unregistered(self.addr),
    {
        server.unregister(self.addr);
        (
            HandleConnection { addr: self.addr, phase: HandlePhase::ShuttingDown },
            HandleAction::Shutdown,
        )
    }

    /// Takes in the outcome of shutting down the socket.
    pub fn on_shutdown<Tin, TErr>(self, outcome: Result<(), ErrorKind>) -> (next: (
        Self,
        HandleAction<Tin, TErr>,
    ))
        requires
            self.phase is ShuttingDown,
        ensures
            next == self.after_shutdown::<Tin, TErr>(outcome),
    {
        let addr = self.addr;
        match outcome {
            Ok(()) => (
                HandleConnection { addr, phase: HandlePhase::Disconnecting },
                HandleAction::Deliver(addr, Event::Disconnect),
            ),
            Err(_) => (
                HandleConnection { addr, phase: HandlePhase::Finished },
                HandleAction::Panic,
            ),
        }
    }
}

} // verus!
