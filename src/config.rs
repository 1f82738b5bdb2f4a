//! Keep-alive and size limits of WebSocket connections.

use std::sync::Arc;
use std::time::Duration;
use vstd::prelude::*;

verus! {

/// The duration that `Duration::from_secs(secs)` returns.
pub uninterp spec fn duration_from_secs(secs: u64) -> Duration;

/// Relies on `Duration::from_secs`: a whole number of seconds, depending on
/// `secs` alone.
pub assume_specification[ Duration::from_secs ](secs: u64) -> (r: Duration)
    ensures
        r == duration_from_secs(secs),
;

/// Default interval without a full message after which a ping is sent.
pub const DEFAULT_PING_SECS: u64 = 10;

/// Default timeout without a full message (and without any byte) after which
/// the connection is dropped.
///
/// Earlier documentation of this library gave 25 seconds for the message
/// timeout; the value actually used has always been 30 seconds, and that is
/// what is kept here.
pub const DEFAULT_TIMEOUT_SECS: u64 = 30;

/// Default largest frame size accepted: 10 MiB.
pub const DEFAULT_MAX_PACKET_SIZE: usize = 10485760;

/// Keep-alive and resource limits of a WebSocket connection.
///
/// Built with [`Config::new`] and the setters, then frozen with
/// [`Config::done`] into a shared read-only handle.
#[derive(Clone, Copy, Debug)]
pub struct Config {
    /// Time without a fully received message after which a ping is sent.
    pub ping_interval: Duration,
    /// Time without a fully received message after which the connection is
    /// shut down.
    pub message_timeout: Duration,
    /// Time without any byte sent or received (outgoing pings excluded)
    /// after which the connection is shut down.
    pub byte_timeout: Duration,
    /// Largest frame size; a frame declaring more aborts the connection.
    pub max_packet_size: usize,
}

impl Config {
    /// Whether `c` holds the default values.
    pub open spec fn is_default(c: Config) -> bool {
        &&& c.ping_interval == duration_from_secs(DEFAULT_PING_SECS)
        &&& c.message_timeout == duration_from_secs(DEFAULT_TIMEOUT_SECS)
        &&& c.byte_timeout == duration_from_secs(DEFAULT_TIMEOUT_SECS)
        &&& c.max_packet_size == DEFAULT_MAX_PACKET_SIZE
    }

    /// Create a config with defaults: ping every 10 seconds, 30 seconds
    /// for both timeouts, frames up to 10 MiB.
    pub fn new() -> (r: Config)
        ensures
            Config::is_default(r),
    {
        Config {
            ping_interval: Duration::from_secs(DEFAULT_PING_SECS),
            message_timeout: Duration::from_secs(DEFAULT_TIMEOUT_SECS),
            byte_timeout: Duration::from_secs(DEFAULT_TIMEOUT_SECS),
            max_packet_size: DEFAULT_MAX_PACKET_SIZE,
        }
    }

    /// Set ping interval.
    ///
    /// If no full message has been received within this interval, a ping is
    /// sent, even while a large frame is still arriving. The interval cannot
    /// be removed, only made large; the timeouts may need tuning with it.
    pub fn ping_interval(&mut self, dur: Duration) -> (r: &mut Self)
        ensures
            *r == (Config { ping_interval: dur, ..*old(self) }),
            *final(self) == *final(r),
    {
        self.ping_interval = dur;
        self
    }

    /// Set message (inactivity) timeout.
    ///
    /// A connection is shut down if no full message was received during
    /// this interval. Set it large enough for the slowest client to send
    /// the largest frame and another ping.
    pub fn message_timeout(&mut self, dur: Duration) -> (r: &mut Self)
        ensures
            *r == (Config { message_timeout: dur, ..*old(self) }),
            *final(self) == *final(r),
    {
        self.message_timeout = dur;
        self
    }

    /// Sets both message timeout and byte timeout to the same value.
    pub fn inactivity_timeout(&mut self, dur: Duration) -> (r: &mut Self)
        ensures
            *r == (Config { message_timeout: dur, byte_timeout: dur, ..*old(self) }),
            *final(self) == *final(r),
    {
        self.message_timeout = dur;
        self.byte_timeout = dur;
        self
    }

    /// Set byte timeout: like the message timeout, but any byte sent or
    /// received (outgoing pings aside) resets the timer.
    ///
    /// A value larger than the message timeout has no effect.
    pub fn byte_timeout(&mut self, dur: Duration) -> (r: &mut Self)
        ensures
            *r == (Config { byte_timeout: dur, ..*old(self) }),
            *final(self) == *final(r),
    {
        self.byte_timeout = dur;
        self
    }

    /// Set the maximum packet size: a frame that declares a larger size
    /// aborts the connection at once.
    pub fn max_packet_size(&mut self, size: usize) -> (r: &mut Self)
        ensures
            *r == (Config { max_packet_size: size, ..*old(self) }),
            *final(self) == *final(r),
    {
        self.max_packet_size = size;
        self
    }

    /// Freeze the current values into a shared, read-only handle.
    ///
    /// The builder is left as it was and may be changed and frozen again;
    /// handles made earlier keep their own copy.
    pub fn done(&mut self) -> (r: Arc<Config>)
        ensures
            *r == *old(self),
            *final(self) == *old(self),
    {
        Arc::new(*self)
    }
}

} // verus!
