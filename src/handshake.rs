//! The portal handshake, one endpoint at a time: discover, exchange
//! identities, register. The functions here decide each step from the
//! portal's reply; sending and receiving is left to the caller.
use vstd::prelude::*;
use crate::model::{AppError, ErrorKind};
use crate::portal::{PortalAddr, PortalState};
use crate::text::joined;

verus! {

/// What a portal answered.
pub enum PortalReply {
    IdRequest,
    IdResponse { peer_identity: bool },
    RegisterResponse,
    Error(String),
    Other,
}

/// What follows the identity exchange.
pub enum IdentityOutcome {
    /// The portal sent its own identity: acknowledge it, verify it and keep it.
    VerifyPeer,
    /// The portal sent no identity: the exchange is over.
    Done,
    /// The exchange failed.
    Fail(AppError),
}

/// The answer to `Discover` must be a request for our identity.
pub fn discovery_step(reply: &PortalReply) -> (r: Result<(), AppError>)
    ensures
        reply is IdRequest ==> r is Ok,
        !(reply is IdRequest) ==> (r matches Err(e) && e@ == (ErrorKind::Authentication, "Unexpected response to Discover"@)),
{
    match reply {
        PortalReply::IdRequest => Ok(()),
        _ => {
            proof { reveal_strlit("Unexpected response to Discover"); }
            Err(AppError { kind: ErrorKind::Authentication, message: "Unexpected response to Discover".to_owned() })
        },
    }
}

/// Decides what follows the portal's answer to our identity.
pub fn identity_step(reply: PortalReply) -> (r: IdentityOutcome)
    ensures
        reply matches PortalReply::IdResponse { peer_identity } ==> if peer_identity {
            r is VerifyPeer
        } else {
            r is Done
        },
        reply matches PortalReply::Error(m) ==> (r matches IdentityOutcome::Fail(e) && e.kind == ErrorKind::Network && e.message == m),
        !(reply is IdResponse) && !(reply is Error) ==> (r matches IdentityOutcome::Fail(e) && e@ == (ErrorKind::Network, "Unexpected message payload"@)),
{
    match reply {
        PortalReply::IdResponse { peer_identity } => {
            if peer_identity {
                IdentityOutcome::VerifyPeer
            } else {
                IdentityOutcome::Done
            }
        },
        PortalReply::Error(m) => IdentityOutcome::Fail(AppError { kind: ErrorKind::Network, message: m }),
        _ => {
            proof { reveal_strlit("Unexpected message payload"); }
            IdentityOutcome::Fail(AppError { kind: ErrorKind::Network, message: "Unexpected message payload".to_owned() })
        },
    }
}

/// The identity a portal sent must verify.
pub fn peer_verification(verified: bool) -> (r: Result<(), AppError>)
    ensures
        verified ==> r is Ok,
        !verified ==> (r matches Err(e) && e@ == (ErrorKind::Authentication, "Identifier verification failed"@)),
{
    if verified {
        Ok(())
    } else {
        proof { reveal_strlit("Identifier verification failed"); }
        Err(AppError { kind: ErrorKind::Authentication, message: "Identifier verification failed".to_owned() })
    }
}

/// The answer to a registration request must accept it.
pub fn registration_step(reply: PortalReply) -> (r: Result<(), AppError>)
    ensures
        reply is RegisterResponse ==> r is Ok,
        reply matches PortalReply::Error(m) ==> (r matches Err(e) && e@ == (ErrorKind::Network, "Server responded : "@ + m@)),
        !(reply is RegisterResponse) && !(reply is Error) ==> (r matches Err(e) && e@ == (ErrorKind::Network, "Recieved illagal response"@)),
{
    match reply {
        PortalReply::RegisterResponse => Ok(()),
        PortalReply::Error(m) => {
            proof { reveal_strlit("Server responded : "); }
            Err(AppError { kind: ErrorKind::Network, message: joined("Server responded : ", m.as_str()) })
        },
        _ => {
            proof { reveal_strlit("Recieved illagal response"); }
            Err(AppError { kind: ErrorKind::Network, message: "Recieved illagal response".to_owned() })
        },
    }
}

/// Records the outcome of registering with the endpoint at `address`: a
/// success marks it in time; a failure leaves the table alone.
pub fn record_registration(portals: &mut PortalState, address: PortalAddr, outcome: &Result<(), AppError>) -> (r: Result<(), AppError>)
    requires
        old(portals).wf(),
    ensures
        final(portals).wf(),
        outcome is Err ==> final(portals).entries() == old(portals).entries() && r is Ok,
        outcome is Ok && old(portals).has(address) ==> final(portals).in_time_of(address) && r is Ok,
        outcome is Ok && !old(portals).has(address) ==> r is Err && final(portals).entries() == old(portals).entries(),
        forall|b: PortalAddr| b != address ==> (#[trigger] final(portals).in_time_of(b) <==> old(portals).in_time_of(b)),
{
    match outcome {
        Ok(()) => portals.set_time(address, true),
        Err(_) => Ok(()),
    }
}

} // verus!
