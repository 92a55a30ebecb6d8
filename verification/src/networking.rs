//! The transport abstraction: a typed failure taxonomy, the capability a
//! platform connection must provide, and the verified framing of messages
//! onto it. The transport itself (sockets, handshakes) lives outside the
//! library; the library only ever hands it whole encoded messages and
//! decodes whole received ones.

use vstd::prelude::*;

use crate::messages::{
    decode_from_server, decode_to_server, encode_from_server, encode_to_server, from_server_wf,
    FromServer, ToServer,
};

verus! {

/// A connection-level failure, as seen by the owning loop. All three are
/// terminal for the connection they occur on, never for the process.
#[derive(Clone, Copy, Debug, PartialEq, Eq, Structural)]
pub enum Error {
    /// The underlying socket experienced a connection fault, or failed to
    /// establish a connection in the first place.
    Connection,
    /// Data received over the connection was not a valid message encoding.
    MalformedPayload,
    /// The remote peer performed a clean closing handshake.
    ConnectionClosed,
}

/// The capability an established connection provides: sending and receiving
/// whole message frames over a reliable ordered byte stream, non-blocking.
/// Implemented by the platform transports outside the library.
pub trait ConnectionTrait {
    /// Send one message's bytes as a frame.
    fn send_bytes(&mut self, bytes: Vec<u8>) -> Result<(), Error>;

    /// Attempt to receive one frame's bytes; `Ok(None)` when no complete
    /// frame has arrived, which is not an error.
    fn receive_bytes(&mut self) -> Result<Option<Vec<u8>>, Error>;
}

/// A connection that has not yet been fully established (still performing
/// its handshake). Implemented by the platform transports outside the
/// library.
pub trait PendingConnectionTrait<T: ConnectionTrait>: Sized {
    /// Establishes an intent to connect to the specified address
    /// (non-blocking).
    fn new(connection_str: &'static str) -> Self;

    /// Check if the connection has been established. Returns `Ok(None)` when
    /// no errors have been encountered but the connection is still being
    /// established.
    fn ready(&self) -> Result<Option<T>, Error>;
}

/// Establish an intent to connect to the specified address (non-blocking).
pub fn connect<T: ConnectionTrait, P: PendingConnectionTrait<T>>(
    connection_str: &'static str,
) -> P {
    P::new(connection_str)
}

/// Encode a client-to-server message and send it as one frame.
pub fn send_to_server<C: ConnectionTrait>(connection: &mut C, message: &ToServer) -> Result<
    (),
    Error,
> {
    connection.send_bytes(encode_to_server(message))
}

/// Encode a server-to-client message and send it as one frame.
pub fn send_to_client<C: ConnectionTrait>(connection: &mut C, message: &FromServer) -> Result<
    (),
    Error,
>
    requires
        from_server_wf(*message),
{
    connection.send_bytes(encode_from_server(message))
}

/// Receive and decode one server-to-client message, if a frame has arrived.
/// A frame that is not a valid encoding is a malformed payload.
pub fn receive_from_server<C: ConnectionTrait>(connection: &mut C) -> (r: Result<
    Option<FromServer>,
    Error,
>)
    ensures
        (r matches Ok(Some(m)) ==> from_server_wf(m)),
{
    match connection.receive_bytes() {
        Ok(Some(bytes)) => match decode_from_server(bytes.as_slice()) {
            Some(message) => Ok(Some(message)),
            None => Err(Error::MalformedPayload),
        },
        Ok(None) => Ok(None),
        Err(e) => Err(e),
    }
}

/// Receive and decode one client-to-server message, if a frame has arrived.
/// A frame that is not a valid encoding is a malformed payload.
pub fn receive_from_client<C: ConnectionTrait>(connection: &mut C) -> Result<
    Option<ToServer>,
    Error,
> {
    match connection.receive_bytes() {
        Ok(Some(bytes)) => match decode_to_server(bytes.as_slice()) {
            Some(message) => Ok(Some(message)),
            None => Err(Error::MalformedPayload),
        },
        Ok(None) => Ok(None),
        Err(e) => Err(e),
    }
}

} // verus!
