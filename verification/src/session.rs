//! The per-device TCP session state machine. The socket itself lives with
//! the I/O layer; the session tracks the connection state and whether a
//! stream is held, and rules on the outcomes the I/O layer reports. The
//! reset command is the special case: its transport errors are forgiven, and
//! a delivered reset parts with the stream but leaves the session in
//! `Connecting` so the device's re-attach finds it alive.

use vstd::prelude::*;
use crate::types::{ConnectionState, Esp32DeviceConfig, Esp32Error};

verus! {

/// What to do with a command about to be sent.
#[derive(Debug, Clone, Copy, PartialEq, Eq, Structural)]
pub enum SendStep {
    /// A stream is held: write the command on it.
    Write,
    /// No stream: dial first, then write.
    Reconnect,
}

/// One device's command session.
#[derive(Debug, Clone)]
pub struct TcpSession {
    pub config: Esp32DeviceConfig,
    pub state: ConnectionState,
    pub has_stream: bool,
}

impl TcpSession {
    /// A fresh session: disconnected, holding no stream.
    pub fn new(config: Esp32DeviceConfig) -> (r: Self)
        ensures
            r.config == config,
            r.state is Disconnected,
            !r.has_stream,
    {
        TcpSession { config, state: ConnectionState::Disconnected, has_stream: false }
    }

    /// The current connection state.
    pub fn get_connection_state(&self) -> (r: ConnectionState)
        ensures
            r == self.state,
    {
        match &self.state {
            ConnectionState::Disconnected => ConnectionState::Disconnected,
            ConnectionState::Connecting => ConnectionState::Connecting,
            ConnectionState::Connected => ConnectionState::Connected,
            ConnectionState::Failed(s) => ConnectionState::Failed(s.clone()),
        }
    }

    /// A dial is starting.
    pub fn begin_connect(&mut self)
        ensures
            final(self).state is Connecting,
            final(self).config == old(self).config,
            final(self).has_stream == old(self).has_stream,
    {
        self.state = ConnectionState::Connecting;
    }

    /// The dial succeeded and a stream is now held.
    pub fn on_tcp_connected(&mut self)
        ensures
            final(self).state is Connected,
            final(self).has_stream,
            final(self).config == old(self).config,
    {
        self.state = ConnectionState::Connected;
        self.has_stream = true;
    }

    /// The dial failed. The session stays in `Connecting` for the next
    /// attempt; the error reports a timeout or the dial failure.
    pub fn on_connect_failed(&mut self, timed_out: bool, reason: String) -> (e: Esp32Error)
        ensures
            *final(self) == *old(self),
            timed_out ==> e is Timeout,
            !timed_out ==> (e matches Esp32Error::ConnectionFailed(m) && m == reason),
    {
        if timed_out {
            Esp32Error::Timeout
        } else {
            Esp32Error::ConnectionFailed(reason)
        }
    }

    /// The peer closed the stream (a read returned nothing).
    pub fn on_stream_closed(&mut self)
        ensures
            !final(self).has_stream,
            final(self).state == old(self).state,
            final(self).config == old(self).config,
    {
        self.has_stream = false;
    }

    /// How to send the next command.
    pub fn plan_send(&self) -> (r: SendStep)
        ensures
            r == (if self.has_stream { SendStep::Write } else { SendStep::Reconnect }),
    {
        if self.has_stream {
            SendStep::Write
        } else {
            SendStep::Reconnect
        }
    }

    /// Rule on a write's outcome. A reset is never an error: a failed write
    /// or flush means the device already closed the socket by design.
    /// Whatever the write's outcome, a reset parts with the stream and
    /// leaves the session in `Connecting` — not `Disconnected` — with no
    /// disconnect emitted, so the device's re-attach finds the session
    /// alive.
    pub fn settle_send(&mut self, is_reset: bool, write_ok: bool) -> (r: Result<(), Esp32Error>)
        requires
            old(self).has_stream,
        ensures
            final(self).config == old(self).config,
            is_reset ==> r is Ok && !final(self).has_stream
                && final(self).state is Connecting,
            (!is_reset && write_ok) ==> r is Ok && *final(self) == *old(self),
            (!is_reset && !write_ok) ==> r is Err && *final(self) == *old(self),
    {
        if is_reset {
            self.has_stream = false;
            self.state = ConnectionState::Connecting;
            Ok(())
        } else {
            if write_ok {
                Ok(())
            } else {
                Err(Esp32Error::TcpError("write failed".to_owned()))
            }
        }
    }

    /// Tear the session down: the stream is dropped and the state returns
    /// to `Disconnected`.
    pub fn disconnect(&mut self)
        ensures
            !final(self).has_stream,
            final(self).state is Disconnected,
            final(self).config == old(self).config,
    {
        self.has_stream = false;
        self.state = ConnectionState::Disconnected;
    }
}

} // verus!
