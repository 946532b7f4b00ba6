//! Configuration consumed by the bus client and the consumer loop. All
//! intervals are wall-clock seconds.
use vstd::prelude::*;

use crate::client::SubscribeError;

verus! {

/// Bus client configuration.
#[derive(Debug, Clone)]
pub struct Config {
    pub url: String,
    pub creds: String,
    pub subscribe_durable: Option<SubscribeDurableConfig>,
    pub subscribe_ephemeral: Option<SubscribeEphemeralConfig>,
}

/// Durable pull subscription: the stream and consumer must already exist
/// server-side.
#[derive(Debug, Clone)]
pub struct SubscribeDurableConfig {
    pub stream: String,
    pub consumer: String,
    pub batch: usize,
    /// Keepalive heartbeat, in seconds.
    pub idle_heartbeat: u64,
}

/// Ephemeral push subscription.
#[derive(Debug, Clone)]
pub struct SubscribeEphemeralConfig {
    pub stream: String,
}

/// Consumer loop timing, in seconds.
#[derive(Debug, Clone, Copy, PartialEq, Eq, Structural)]
pub struct ConsumerConfig {
    /// Base unit of the exponential retry backoff, and the telemetry
    /// forwarding threshold.
    pub suspend_interval: u64,
    /// Upper clamp of the retry backoff.
    pub max_suspend_interval: u64,
    /// Only primes the telemetry limiter's initial timestamp so that the
    /// first report is forwarded.
    pub suspend_sentry_interval: u64,
    /// Sleep between attempts to re-open a closed stream.
    pub resubscribe_interval: u64,
}

impl Config {
    /// The durable subscription section, required before a durable
    /// subscribe may be attempted.
    pub fn durable(&self) -> (r: Result<&SubscribeDurableConfig, SubscribeError>)
        ensures
            match r {
                Ok(c) => self.subscribe_durable is Some && c == self.subscribe_durable->Some_0,
                Err(e) => self.subscribe_durable is None && e is SubscribeConfigNotFound,
            },
    {
        match &self.subscribe_durable {
            Some(c) => Ok(c),
            None => Err(SubscribeError::SubscribeConfigNotFound),
        }
    }

    /// The ephemeral subscription section, required before an ephemeral
    /// subscribe may be attempted.
    pub fn ephemeral(&self) -> (r: Result<&SubscribeEphemeralConfig, SubscribeError>)
        ensures
            match r {
                Ok(c) => self.subscribe_ephemeral is Some && c == self.subscribe_ephemeral->Some_0,
                Err(e) => self.subscribe_ephemeral is None && e is SubscribeConfigNotFound,
            },
    {
        match &self.subscribe_ephemeral {
            Some(c) => Ok(c),
            None => Err(SubscribeError::SubscribeConfigNotFound),
        }
    }
}

} // verus!
