use vstd::prelude::*;

use crate::device::Device;
use crate::proc::Proc;

verus! {

#[verifier::external_type_specification]
#[verifier::external_body]
pub struct ExUuid(uuid::Uuid);

/// Relies on uuid::Uuid::new_v4: a freshly generated version-4 identifier.
/// The value is random, so nothing is promised of it.
#[verifier::external_body]
fn fresh_id() -> uuid::Uuid {
    uuid::Uuid::new_v4()
}

/// One authenticated session to one device. `S` is the transport's session
/// handle, opaque here: opening channels on it is the transport's work, and
/// what this layer decides about a failed channel-open is
/// `Pool::handle_open_failure`. A connection may outlive its pool entry (an
/// in-flight command keeps it alive after eviction), but a new pool lookup
/// always builds a fresh connection rather than reuse an evicted one.
pub struct Connection<S> {
    /// Opaque identifier, for diagnostics only.
    pub id: uuid::Uuid,
    pub device: Device,
    pub session: S,
}

impl<S> Connection<S> {
    /// Binds a freshly established session to its device.
    pub fn new(device: Device, session: S) -> (c: Connection<S>)
        ensures
            c.device == device,
            c.session == session,
    {
        Connection { id: fresh_id(), device, session }
    }

    /// Wraps a channel just opened on this connection, together with the
    /// command it will carry, into a started process handle. The channel is
    /// opened eagerly, before the command runs, so channel-open failures
    /// surface here and not inside `Proc::run`.
    pub fn open<C>(&self, command: &str, channel: C) -> (p: Proc<C>)
        ensures
            p.command@ == command@,
            p.channel == Some(channel),
    {
        Proc::new(command.to_owned(), channel)
    }
}

} // verus!
