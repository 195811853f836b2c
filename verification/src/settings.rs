//! The front end's own settings (`settings.json`).

use vstd::prelude::*;
use std::time::Duration;

verus! {

/// Run-time settings: where the kernel listens, timeouts and the kernel's executable.
#[derive(Debug, Clone)]
pub struct Settings {
    pub mihomo_api: String,
    pub mihomo_ctrl_addr: String,
    pub mixed_port: u16,
    pub socks_port: u16,
    pub test_url: String,
    pub delay_timeout_ms: u64,
    pub external_controller: String,
    pub http_timeout_ms: u64,
    pub delay_http_timeout_ms: u64,
    pub provider_retry: u32,
    pub provider_retry_interval_ms: u64,
    pub poll_interval_ms: u64,
    pub mihomo_exe: String,
    pub channel_capacity: usize,
}

impl Default for Settings {
    fn default() -> (res: Self)
        ensures
            res.mihomo_api@ == "http://127.0.0.1:9090"@,
            res.mihomo_ctrl_addr@ == "127.0.0.1:9090"@,
            res.mixed_port == 7890,
            res.socks_port == 7891,
            res.test_url@ == "https://www.gstatic.com/generate_204"@,
            res.delay_timeout_ms == 5000,
            res.external_controller@ == ":9090"@,
            res.http_timeout_ms == 5000,
            res.delay_http_timeout_ms == 6000,
            res.provider_retry == 6,
            res.provider_retry_interval_ms == 500,
            res.poll_interval_ms == 100,
            res.mihomo_exe@ == "mihomo-windows-amd64.exe"@,
            res.channel_capacity == 16,
    {
        Self {
            mihomo_api: "http://127.0.0.1:9090".to_owned(),
            mihomo_ctrl_addr: "127.0.0.1:9090".to_owned(),
            mixed_port: 7890,
            socks_port: 7891,
            test_url: "https://www.gstatic.com/generate_204".to_owned(),
            delay_timeout_ms: 5000,
            external_controller: ":9090".to_owned(),
            http_timeout_ms: 5000,
            delay_http_timeout_ms: 6000,
            provider_retry: 6,
            provider_retry_interval_ms: 500,
            poll_interval_ms: 100,
            mihomo_exe: "mihomo-windows-amd64.exe".to_owned(),
            channel_capacity: 16,
        }
    }
}

/// What `Duration::from_millis` gives for `ms`.
pub uninterp spec fn millis_duration(ms: u64) -> Duration;

/// `Duration::from_millis` (std).
#[verifier::external_body]
fn duration_from_millis(ms: u64) -> (d: Duration)
    ensures
        d == millis_duration(ms),
{
    Duration::from_millis(ms)
}

impl Settings {
    /// Timeout of ordinary requests to the kernel.
    pub fn http_timeout(&self) -> (d: Duration)
        ensures
            d == millis_duration(self.http_timeout_ms),
    {
        duration_from_millis(self.http_timeout_ms)
    }

    /// Timeout of delay-test requests.
    pub fn delay_http_timeout(&self) -> (d: Duration)
        ensures
            d == millis_duration(self.delay_http_timeout_ms),
    {
        duration_from_millis(self.delay_http_timeout_ms)
    }

    /// Pause between attempts to reach a provider.
    pub fn provider_retry_interval(&self) -> (d: Duration)
        ensures
            d == millis_duration(self.provider_retry_interval_ms),
    {
        duration_from_millis(self.provider_retry_interval_ms)
    }

    /// How long one wait for a key press lasts.
    pub fn poll_interval(&self) -> (d: Duration)
        ensures
            d == millis_duration(self.poll_interval_ms),
    {
        duration_from_millis(self.poll_interval_ms)
    }
}

} // verus!
