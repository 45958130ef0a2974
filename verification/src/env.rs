//! Tunable times and limits.
//!
//! Each setting is a cell that is filled once: the first reading takes the
//! value from the environment variable or the default, and every later
//! reading gives that value again.
use crate::text::{decimal, decimal_round_trip, parse_u64, parsed_u64};
use crate::time::Duration;
use vstd::prelude::*;

verus! {

/// The cells of all settings. An empty cell has not been read yet.
#[derive(Debug)]
pub struct Settings {
    pub heartbeat_interval: Option<Duration>,
    pub metrics_poll_interval: Option<Duration>,
    pub watchdog_tick: Option<Duration>,
    pub heartbeat_timeout: Option<Duration>,
    pub restart_backoff: Option<Vec<Duration>>,
    pub health_timeout: Option<Duration>,
    pub deploy_timeout: Option<Duration>,
    pub poll_address_timeout: Option<Duration>,
    pub health_check_http_timeout: Option<Duration>,
    pub tcp_ready_poll_interval: Option<Duration>,
    pub rpc_connect_timeout: Option<Duration>,
    pub api_client_timeout: Option<Duration>,
    pub metadata_timeout: Option<Duration>,
    pub snapshot_threshold: Option<u64>,
    pub snapshot_log_keep: Option<u64>,
}

impl Settings {
    /// Settings of which none has been read.
    pub fn new() -> (res: Settings)
        ensures
            res.heartbeat_interval is None,
            res.metrics_poll_interval is None,
            res.watchdog_tick is None,
            res.heartbeat_timeout is None,
            res.restart_backoff is None,
            res.health_timeout is None,
            res.deploy_timeout is None,
            res.poll_address_timeout is None,
            res.health_check_http_timeout is None,
            res.tcp_ready_poll_interval is None,
            res.rpc_connect_timeout is None,
            res.api_client_timeout is None,
            res.metadata_timeout is None,
            res.snapshot_threshold is None,
            res.snapshot_log_keep is None,
    {
        Settings {
            heartbeat_interval: None,
            metrics_poll_interval: None,
            watchdog_tick: None,
            heartbeat_timeout: None,
            restart_backoff: None,
            health_timeout: None,
            deploy_timeout: None,
            poll_address_timeout: None,
            health_check_http_timeout: None,
            tcp_ready_poll_interval: None,
            rpc_connect_timeout: None,
            api_client_timeout: None,
            metadata_timeout: None,
            snapshot_threshold: None,
            snapshot_log_keep: None,
        }
    }
}

/// The number that a variable holds, or the default where the variable is not
/// set or holds no number.
pub open spec fn setting(var: Option<String>, default: u64) -> u64 {
    match var {
        Some(text) => match parsed_u64(text@) {
            Some(n) => n,
            None => default,
        },
        None => default,
    }
}

/// The span that a variable holds in milliseconds, or the default.
pub open spec fn millis_setting(var: Option<String>, default: u64) -> Duration {
    Duration { nanos: (setting(var, default) * 1_000_000) as u128 }
}

/// Reads a number from a variable, or takes the default.
fn read_u64(var: Option<String>, default: u64) -> (res: u64)
    ensures
        res == setting(var, default),
{
    match var {
        Some(text) => match parse_u64(text.as_str()) {
            Some(n) => n,
            None => default,
        },
        None => default,
    }
}

/// Reads a span in milliseconds from a variable, or takes the default.
fn read_ms(var: Option<String>, default: u64) -> (res: Duration)
    ensures
        res == millis_setting(var, default),
{
    Duration::from_millis(read_u64(var, default))
}

/// The delays before a service is started again: after the first failure,
/// the second and so on, the last one from then on.
pub open spec fn default_backoff() -> Seq<Duration> {
    seq![
        Duration { nanos: 1_000_000_000 },
        Duration { nanos: 5_000_000_000 },
        Duration { nanos: 30_000_000_000 },
        Duration { nanos: 60_000_000_000 },
    ]
}

/// The delays that tests run with.
pub open spec fn test_backoff() -> Seq<Duration> {
    seq![
        Duration { nanos: 200_000_000 },
        Duration { nanos: 500_000_000 },
        Duration { nanos: 1_000_000_000 },
        Duration { nanos: 2_000_000_000 },
    ]
}

fn copy_durations(v: &Vec<Duration>) -> (res: Vec<Duration>)
    ensures
        res@ == v@,
{
    let mut out: Vec<Duration> = Vec::new();
    let mut i: usize = 0;
    while i < v.len()
        invariant
            i <= v@.len(),
            out@ == v@.take(i as int),
        decreases v@.len() - i,
    {
        out.push(v[i]);
        i = i + 1;
        assert(out@ =~= v@.take(i as int));
    }
    assert(out@ =~= v@);
    out
}

/// The delays before a service is started again.
pub fn restart_backoff(settings: &mut Settings) -> (res: Vec<Duration>)
    ensures
        final(settings).restart_backoff is Some,
        final(settings).restart_backoff->0@ == res@,
        match old(settings).restart_backoff {
            Some(v) => *final(settings) == *old(settings) && res@ == v@,
            None => res@ == default_backoff() && *final(settings) == (Settings {
                restart_backoff: final(settings).restart_backoff,
                ..*old(settings)
            }),
        },
{
    match &settings.restart_backoff {
        Some(v) => copy_durations(v),
        None => {
            let delays = vec![
                Duration::from_secs(1),
                Duration::from_secs(5),
                Duration::from_secs(30),
                Duration::from_secs(60),
            ];
            assert(delays@ =~= default_backoff());
            let res = copy_durations(&delays);
            settings.restart_backoff = Some(delays);
            res
        },
    }
}

/// How often a node reports to the primary.
///
/// `var` is what `MILL_HEARTBEAT_INTERVAL_MS` holds, where it is set.
pub fn heartbeat_interval(settings: &mut Settings, var: Option<String>) -> (res: Duration)
    ensures
        match old(settings).heartbeat_interval {
            Some(v) => res == v && *final(settings) == *old(settings),
            None => res == millis_setting(var, 5000) && *final(settings) == (Settings {
                heartbeat_interval: Some(res),
                ..*old(settings)
            }),
        },
{
    match settings.heartbeat_interval {
        Some(v) => v,
        None => {
            let v: Duration = read_ms(var, 5000);
            settings.heartbeat_interval = Some(v);
            v
        },
    }
}

/// How often a node reads its resource use.
///
/// `var` is what `MILL_METRICS_POLL_INTERVAL_MS` holds, where it is set.
pub fn metrics_poll_interval(settings: &mut Settings, var: Option<String>) -> (res: Duration)
    ensures
        match old(settings).metrics_poll_interval {
            Some(v) => res == v && *final(settings) == *old(settings),
            None => res == millis_setting(var, 10000) && *final(settings) == (Settings {
                metrics_poll_interval: Some(res),
                ..*old(settings)
            }),
        },
{
    match settings.metrics_poll_interval {
        Some(v) => v,
        None => {
            let v: Duration = read_ms(var, 10000);
            settings.metrics_poll_interval = Some(v);
            v
        },
    }
}

/// How often the watchdog looks at the cluster.
///
/// `var` is what `MILL_WATCHDOG_TICK_MS` holds, where it is set.
pub fn watchdog_tick(settings: &mut Settings, var: Option<String>) -> (res: Duration)
    ensures
        match old(settings).watchdog_tick {
            Some(v) => res == v && *final(settings) == *old(settings),
            None => res == millis_setting(var, 1000) && *final(settings) == (Settings {
                watchdog_tick: Some(res),
                ..*old(settings)
            }),
        },
{
    match settings.watchdog_tick {
        Some(v) => v,
        None => {
            let v: Duration = read_ms(var, 1000);
            settings.watchdog_tick = Some(v);
            v
        },
    }
}

/// How long a node may be silent before it counts as down.
///
/// `var` is what `MILL_HEARTBEAT_TIMEOUT_MS` holds, where it is set.
pub fn heartbeat_timeout(settings: &mut Settings, var: Option<String>) -> (res: Duration)
    ensures
        match old(settings).heartbeat_timeout {
            Some(v) => res == v && *final(settings) == *old(settings),
            None => res == millis_setting(var, 15000) && *final(settings) == (Settings {
                heartbeat_timeout: Some(res),
                ..*old(settings)
            }),
        },
{
    match settings.heartbeat_timeout {
        Some(v) => v,
        None => {
            let v: Duration = read_ms(var, 15000);
            settings.heartbeat_timeout = Some(v);
            v
        },
    }
}

/// How long a new allocation may take to become healthy.
///
/// `var` is what `MILL_HEALTH_TIMEOUT_MS` holds, where it is set.
pub fn health_timeout(settings: &mut Settings, var: Option<String>) -> (res: Duration)
    ensures
        match old(settings).health_timeout {
            Some(v) => res == v && *final(settings) == *old(settings),
            None => res == millis_setting(var, 30000) && *final(settings) == (Settings {
                health_timeout: Some(res),
                ..*old(settings)
            }),
        },
{
    match settings.health_timeout {
        Some(v) => v,
        None => {
            let v: Duration = read_ms(var, 30000);
            settings.health_timeout = Some(v);
            v
        },
    }
}

/// How long an allocation may take to run.
///
/// `var` is what `MILL_DEPLOY_TIMEOUT_MS` holds, where it is set.
pub fn deploy_timeout(settings: &mut Settings, var: Option<String>) -> (res: Duration)
    ensures
        match old(settings).deploy_timeout {
            Some(v) => res == v && *final(settings) == *old(settings),
            None => res == millis_setting(var, 60000) && *final(settings) == (Settings {
                deploy_timeout: Some(res),
                ..*old(settings)
            }),
        },
{
    match settings.deploy_timeout {
        Some(v) => v,
        None => {
            let v: Duration = read_ms(var, 60000);
            settings.deploy_timeout = Some(v);
            v
        },
    }
}

/// How long an allocation may take to report its address.
///
/// `var` is what `MILL_POLL_ADDRESS_TIMEOUT_MS` holds, where it is set.
pub fn poll_address_timeout(settings: &mut Settings, var: Option<String>) -> (res: Duration)
    ensures
        match old(settings).poll_address_timeout {
            Some(v) => res == v && *final(settings) == *old(settings),
            None => res == millis_setting(var, 10000) && *final(settings) == (Settings {
                poll_address_timeout: Some(res),
                ..*old(settings)
            }),
        },
{
    match settings.poll_address_timeout {
        Some(v) => v,
        None => {
            let v: Duration = read_ms(var, 10000);
            settings.poll_address_timeout = Some(v);
            v
        },
    }
}

/// How long one health request may take.
///
/// `var` is what `MILL_HEALTH_CHECK_HTTP_TIMEOUT_MS` holds, where it is set.
pub fn health_check_http_timeout(settings: &mut Settings, var: Option<String>) -> (res: Duration)
    ensures
        match old(settings).health_check_http_timeout {
            Some(v) => res == v && *final(settings) == *old(settings),
            None => res == millis_setting(var, 5000) && *final(settings) == (Settings {
                health_check_http_timeout: Some(res),
                ..*old(settings)
            }),
        },
{
    match settings.health_check_http_timeout {
        Some(v) => v,
        None => {
            let v: Duration = read_ms(var, 5000);
            settings.health_check_http_timeout = Some(v);
            v
        },
    }
}

/// How long to wait between two connection attempts of the readiness probe.
/// A short interval adds little to a deploy, and a failed attempt costs
/// next to nothing.
///
/// `var` is what `MILL_TCP_READY_POLL_INTERVAL_MS` holds, where it is set.
pub fn tcp_ready_poll_interval(settings: &mut Settings, var: Option<String>) -> (res: Duration)
    ensures
        match old(settings).tcp_ready_poll_interval {
            Some(v) => res == v && *final(settings) == *old(settings),
            None => res == millis_setting(var, 100) && *final(settings) == (Settings {
                tcp_ready_poll_interval: Some(res),
                ..*old(settings)
            }),
        },
{
    match settings.tcp_ready_poll_interval {
        Some(v) => v,
        None => {
            let v: Duration = read_ms(var, 100);
            settings.tcp_ready_poll_interval = Some(v);
            v
        },
    }
}

/// How long connecting to a node may take.
///
/// `var` is what `MILL_RPC_CONNECT_TIMEOUT_MS` holds, where it is set.
pub fn rpc_connect_timeout(settings: &mut Settings, var: Option<String>) -> (res: Duration)
    ensures
        match old(settings).rpc_connect_timeout {
            Some(v) => res == v && *final(settings) == *old(settings),
            None => res == millis_setting(var, 5000) && *final(settings) == (Settings {
                rpc_connect_timeout: Some(res),
                ..*old(settings)
            }),
        },
{
    match settings.rpc_connect_timeout {
        Some(v) => v,
        None => {
            let v: Duration = read_ms(var, 5000);
            settings.rpc_connect_timeout = Some(v);
            v
        },
    }
}

/// How long a request to the API may take.
///
/// `var` is what `MILL_API_CLIENT_TIMEOUT_MS` holds, where it is set.
pub fn api_client_timeout(settings: &mut Settings, var: Option<String>) -> (res: Duration)
    ensures
        match old(settings).api_client_timeout {
            Some(v) => res == v && *final(settings) == *old(settings),
            None => res == millis_setting(var, 30000) && *final(settings) == (Settings {
                api_client_timeout: Some(res),
                ..*old(settings)
            }),
        },
{
    match settings.api_client_timeout {
        Some(v) => v,
        None => {
            let v: Duration = read_ms(var, 30000);
            settings.api_client_timeout = Some(v);
            v
        },
    }
}

/// How long a request to the cloud's metadata service may take.
///
/// `var` is what `MILL_METADATA_TIMEOUT_MS` holds, where it is set.
pub fn metadata_timeout(settings: &mut Settings, var: Option<String>) -> (res: Duration)
    ensures
        match old(settings).metadata_timeout {
            Some(v) => res == v && *final(settings) == *old(settings),
            None => res == millis_setting(var, 2000) && *final(settings) == (Settings {
                metadata_timeout: Some(res),
                ..*old(settings)
            }),
        },
{
    match settings.metadata_timeout {
        Some(v) => v,
        None => {
            let v: Duration = read_ms(var, 2000);
            settings.metadata_timeout = Some(v);
            v
        },
    }
}

/// How many log entries come between two snapshots.
///
/// `var` is what `MILL_SNAPSHOT_THRESHOLD` holds, where it is set.
pub fn snapshot_threshold(settings: &mut Settings, var: Option<String>) -> (res: u64)
    ensures
        match old(settings).snapshot_threshold {
            Some(v) => res == v && *final(settings) == *old(settings),
            None => res == setting(var, 5000) && *final(settings) == (Settings {
                snapshot_threshold: Some(res),
                ..*old(settings)
            }),
        },
{
    match settings.snapshot_threshold {
        Some(v) => v,
        None => {
            let v: u64 = read_u64(var, 5000);
            settings.snapshot_threshold = Some(v);
            v
        },
    }
}

/// How many log entries a snapshot leaves in place.
///
/// `var` is what `MILL_SNAPSHOT_LOG_KEEP` holds, where it is set.
pub fn snapshot_log_keep(settings: &mut Settings, var: Option<String>) -> (res: u64)
    ensures
        match old(settings).snapshot_log_keep {
            Some(v) => res == v && *final(settings) == *old(settings),
            None => res == setting(var, 1000) && *final(settings) == (Settings {
                snapshot_log_keep: Some(res),
                ..*old(settings)
            }),
        },
{
    match settings.snapshot_log_keep {
        Some(v) => v,
        None => {
            let v: u64 = read_u64(var, 1000);
            settings.snapshot_log_keep = Some(v);
            v
        },
    }
}

/// The value of a cell, or the given one where the cell is empty.
pub open spec fn filled<T>(cell: Option<T>, value: T) -> Option<T> {
    match cell {
        Some(v) => Some(v),
        None => Some(value),
    }
}

fn fill(cell: &mut Option<Duration>, millis: u64)
    ensures
        *final(cell) == filled(*old(cell), Duration { nanos: (millis * 1_000_000) as u128 }),
{
    if cell.is_none() {
        *cell = Some(Duration::from_millis(millis));
    }
}

fn fill_u64(cell: &mut Option<u64>, value: u64)
    ensures
        *final(cell) == filled(*old(cell), value),
{
    if cell.is_none() {
        *cell = Some(value);
    }
}

/// Fills every cell that has not been read with a fast value for tests. Where
/// this comes first, no variable is ever looked at.
pub fn init_test_defaults(settings: &mut Settings)
    ensures
        final(settings).heartbeat_interval == filled(
            old(settings).heartbeat_interval,
            Duration { nanos: 100_000_000 },
        ),
        final(settings).metrics_poll_interval == filled(
            old(settings).metrics_poll_interval,
            Duration { nanos: 2_000_000_000 },
        ),
        final(settings).watchdog_tick == filled(
            old(settings).watchdog_tick,
            Duration { nanos: 100_000_000 },
        ),
        final(settings).heartbeat_timeout == filled(
            old(settings).heartbeat_timeout,
            Duration { nanos: 300_000_000 },
        ),
        final(settings).health_timeout == filled(
            old(settings).health_timeout,
            Duration { nanos: 1_000_000_000 },
        ),
        final(settings).deploy_timeout == filled(
            old(settings).deploy_timeout,
            Duration { nanos: 3_000_000_000 },
        ),
        final(settings).poll_address_timeout == filled(
            old(settings).poll_address_timeout,
            Duration { nanos: 1_000_000_000 },
        ),
        final(settings).health_check_http_timeout == filled(
            old(settings).health_check_http_timeout,
            Duration { nanos: 2_000_000_000 },
        ),
        final(settings).tcp_ready_poll_interval == filled(
            old(settings).tcp_ready_poll_interval,
            Duration { nanos: 50_000_000 },
        ),
        final(settings).rpc_connect_timeout == filled(
            old(settings).rpc_connect_timeout,
            Duration { nanos: 1_000_000_000 },
        ),
        final(settings).api_client_timeout == filled(
            old(settings).api_client_timeout,
            Duration { nanos: 5_000_000_000 },
        ),
        final(settings).metadata_timeout == filled(
            old(settings).metadata_timeout,
            Duration { nanos: 100_000_000 },
        ),
        final(settings).snapshot_threshold == filled(old(settings).snapshot_threshold, 1u64),
        final(settings).snapshot_log_keep == filled(old(settings).snapshot_log_keep, 0u64),
        match old(settings).restart_backoff {
            Some(v) => final(settings).restart_backoff == Some(v),
            None => final(settings).restart_backoff is Some
                && final(settings).restart_backoff->0@ == test_backoff(),
        },
{
    fill(&mut settings.heartbeat_interval, 100);
    fill(&mut settings.metrics_poll_interval, 2000);
    fill(&mut settings.watchdog_tick, 100);
    fill(&mut settings.heartbeat_timeout, 300);
    fill(&mut settings.health_timeout, 1000);
    fill(&mut settings.deploy_timeout, 3000);
    fill(&mut settings.poll_address_timeout, 1000);
    fill(&mut settings.health_check_http_timeout, 2000);
    fill(&mut settings.tcp_ready_poll_interval, 50);
    fill(&mut settings.rpc_connect_timeout, 1000);
    fill(&mut settings.api_client_timeout, 5000);
    fill(&mut settings.metadata_timeout, 100);
    fill_u64(&mut settings.snapshot_threshold, 1);
    fill_u64(&mut settings.snapshot_log_keep, 0);
    if settings.restart_backoff.is_none() {
        let delays = vec![
            Duration::from_millis(200),
            Duration::from_millis(500),
            Duration::from_secs(1),
            Duration::from_secs(2),
        ];
        assert(delays@ =~= test_backoff());
        settings.restart_backoff = Some(delays);
    }
}

/// A setting is the number that its variable writes, and the default where the variable
/// is not set or writes none; spans are counted in milliseconds.
pub proof fn settings_are_what_variables_write(var: Option<String>, default: u64, n: u64)
    ensures
        var is None ==> setting(var, default) == default,
        var is Some && parsed_u64(var->0@) is None ==> setting(var, default) == default,
        var is Some && parsed_u64(var->0@) == Some(n) ==> setting(var, default) == n,
        var is Some && var->0@ == decimal(n as nat) ==> setting(var, default) == n,
        millis_setting(var, default).nanos == 1_000_000 * setting(var, default),
{
    decimal_round_trip(n);
}

/// A service is started again after one second, then five, then half a minute, and a
/// minute from then on.
pub proof fn restarts_wait_longer_and_longer()
    ensures
        default_backoff().len() == 4,
        default_backoff()[0].nanos == 1_000_000_000,
        default_backoff()[1].nanos == 5 * default_backoff()[0].nanos,
        default_backoff()[2].nanos == 30 * default_backoff()[0].nanos,
        default_backoff()[3].nanos == 60 * default_backoff()[0].nanos,
{
}

/// A cell that has been filled keeps its value, and an empty one takes the given value.
pub proof fn cells_are_filled_once<T>(cell: Option<T>, value: T, later: T)
    ensures
        filled(filled(cell, value), later) == filled(cell, value),
        cell is None ==> filled(cell, value) == Some(value),
        cell is Some ==> filled(cell, value) == cell,
{
}

} // verus!
