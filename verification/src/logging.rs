//! A bounded log with levels, and a collector of performance metrics that
//! keeps a summary of the last five minutes.
//!
//! Nothing is printed here: `log` says whether it kept the entry, and the
//! caller prints what it wants to. Shares such as the error rate are kept as
//! the two counts they are made of.

use crate::clock::instant_seconds;
use crate::recent::{appended, newest, newest_first};
use crate::text::{copy_text, same_text, text_view};
use crate::wallclock::unix_millis_now;
use std::time::Instant;
use vstd::prelude::*;

verus! {

/// How grave a log entry is.
#[derive(Clone, Copy, Debug, PartialEq, Eq, Structural)]
pub enum LogLevel {
    DEBUG,
    INFO,
    WARN,
    ERROR,
    CRITICAL,
}

impl LogLevel {
    /// The levels in rising order, from 0 for `DEBUG` to 4 for `CRITICAL`.
    pub open spec fn rank(self) -> int {
        match self {
            LogLevel::DEBUG => 0,
            LogLevel::INFO => 1,
            LogLevel::WARN => 2,
            LogLevel::ERROR => 3,
            LogLevel::CRITICAL => 4,
        }
    }

    /// The rank of the level.
    pub fn ordinal(&self) -> (rank: u8)
        ensures
            rank == self.rank(),
    {
        match self {
            LogLevel::DEBUG => 0,
            LogLevel::INFO => 1,
            LogLevel::WARN => 2,
            LogLevel::ERROR => 3,
            LogLevel::CRITICAL => 4,
        }
    }
}

/// One line of the log.
#[derive(Debug)]
pub struct LogEntry {
    /// When it was written, in milliseconds since the start of 1970.
    pub timestamp: i64,
    pub level: LogLevel,
    pub message: String,
    pub module: String,
    pub function: String,
    pub line: u32,
    pub user_id: Option<String>,
    pub request_id: Option<String>,
    pub duration_ms: Option<u64>,
}

/// A log entry with its texts as sequences of characters.
pub struct LogEntryView {
    pub timestamp: i64,
    pub level: LogLevel,
    pub message: Seq<char>,
    pub module: Seq<char>,
    pub function: Seq<char>,
    pub line: u32,
    pub user_id: Option<Seq<char>>,
    pub request_id: Option<Seq<char>>,
    pub duration_ms: Option<u64>,
}

impl View for LogEntry {
    type V = LogEntryView;

    open spec fn view(&self) -> LogEntryView {
        LogEntryView {
            timestamp: self.timestamp,
            level: self.level,
            message: self.message@,
            module: self.module@,
            function: self.function@,
            line: self.line,
            user_id: text_view(self.user_id),
            request_id: text_view(self.request_id),
            duration_ms: self.duration_ms,
        }
    }
}

impl Clone for LogEntry {
    fn clone(&self) -> (copy: Self)
        ensures
            copy@ == self@,
    {
        LogEntry {
            timestamp: self.timestamp,
            level: self.level,
            message: self.message.clone(),
            module: self.module.clone(),
            function: self.function.clone(),
            line: self.line,
            user_id: copy_text(&self.user_id),
            request_id: copy_text(&self.request_id),
            duration_ms: self.duration_ms,
        }
    }
}

/// The views of the entries of a log.
pub open spec fn entry_views(entries: Seq<LogEntry>) -> Seq<LogEntryView> {
    Seq::new(entries.len(), |i: int| entries[i]@)
}

/// Whether a query for entries up to the level `filter` returns an entry of
/// the level `level`. A query without a filter returns every entry.
pub open spec fn up_to(filter: Option<LogLevel>, level: LogLevel) -> bool {
    match filter {
        Some(most) => level.rank() <= most.rank(),
        None => true,
    }
}

/// The entry that `log` writes: without user, request or duration.
pub open spec fn plain_entry(
    level: LogLevel,
    message: Seq<char>,
    module: Seq<char>,
    function: Seq<char>,
    line: u32,
    timestamp: i64,
) -> LogEntryView {
    LogEntryView {
        timestamp,
        level,
        message,
        module,
        function,
        line,
        user_id: None,
        request_id: None,
        duration_ms: None,
    }
}

/// A log that keeps its newest entries.
pub struct Logger {
    entries: Vec<LogEntry>,
    max_entries: usize,
    enabled: bool,
    log_level: LogLevel,
}

impl Logger {
    /// The entries, the oldest first.
    pub closed spec fn entries(&self) -> Seq<LogEntryView> {
        entry_views(self.entries@)
    }

    /// The most entries that the log keeps.
    pub closed spec fn max_entries(&self) -> usize {
        self.max_entries
    }

    /// Whether the log takes entries at all.
    pub closed spec fn enabled(&self) -> bool {
        self.enabled
    }

    /// The lowest level that the log takes.
    pub closed spec fn threshold(&self) -> LogLevel {
        self.log_level
    }

    /// The log holds no more entries than it keeps.
    pub closed spec fn well_formed(&self) -> bool {
        self.entries@.len() <= self.max_entries
    }

    /// Whether the log takes an entry of the level `level`.
    pub open spec fn takes(&self, level: LogLevel) -> bool {
        self.enabled() && level.rank() >= self.threshold().rank()
    }

    /// An empty log that takes entries from `INFO` up and keeps ten thousand
    /// of them.
    pub fn new() -> (logger: Self)
        ensures
            logger.well_formed(),
            logger.entries() == Seq::<LogEntryView>::empty(),
            logger.max_entries() == 10000,
            logger.enabled(),
            logger.threshold() == LogLevel::INFO,
    {
        let logger = Logger { entries: Vec::new(), max_entries: 10000, enabled: true, log_level: LogLevel::INFO };
        assert(logger.entries() =~= Seq::<LogEntryView>::empty());
        logger
    }

    /// Whether an entry of the level `level` is not below the log's
    /// threshold.
    pub fn should_log(&self, level: &LogLevel) -> (wanted: bool)
        ensures
            wanted == (level.rank() >= self.threshold().rank()),
    {
        level.ordinal() >= self.log_level.ordinal()
    }

    /// What writing an entry makes of a log, and whether the entry was kept.
    pub open spec fn logged(pre: &Self, entry: LogEntryView, post: &Self, kept: bool) -> bool {
        &&& post.max_entries() == pre.max_entries()
        &&& post.enabled() == pre.enabled()
        &&& post.threshold() == pre.threshold()
        &&& kept == pre.takes(entry.level)
        &&& post.entries() == (if kept {
            appended(pre.entries(), entry, pre.max_entries() as nat)
        } else {
            pre.entries()
        })
    }

    /// Writes an entry with the time `timestamp`. The entry is kept where the
    /// log is enabled and the level is not below its threshold; the oldest
    /// entry leaves where the log is full.
    pub fn log_at(
        &mut self,
        level: LogLevel,
        message: &str,
        module: &str,
        function: &str,
        line: u32,
        timestamp: i64,
    ) -> (kept: bool)
        requires
            old(self).well_formed(),
        ensures
            final(self).well_formed(),
            Self::logged(
                old(self),
                plain_entry(level, message@, module@, function@, line, timestamp),
                final(self),
                kept,
            ),
    {
        if !self.enabled || !self.should_log(&level) {
            return false;
        }
        let entry = LogEntry {
            timestamp,
            level,
            message: message.to_owned(),
            module: module.to_owned(),
            function: function.to_owned(),
            line,
            user_id: None,
            request_id: None,
            duration_ms: None,
        };
        let ghost before = self.entries@;
        self.entries.push(entry);
        assert(entry_views(self.entries@) =~= entry_views(before).push(entry@));
        if self.entries.len() > self.max_entries {
            let ghost all = self.entries@;
            let _ = self.entries.remove(0);
            assert(entry_views(self.entries@) =~= entry_views(all).skip(1));
        }
        true
    }

    /// Writes an entry with the time of the call.
    pub fn log(&mut self, level: LogLevel, message: &str, module: &str, function: &str, line: u32) -> (kept: bool)
        requires
            old(self).well_formed(),
        ensures
            final(self).well_formed(),
            exists|timestamp: i64| #[trigger]
                Self::logged(
                    old(self),
                    plain_entry(level, message@, module@, function@, line, timestamp),
                    final(self),
                    kept,
                ),
    {
        let timestamp = unix_millis_now();
        self.log_at(level, message, module, function, line, timestamp)
    }

    /// The newest `limit` entries whose level is at most `level`, the newest
    /// first; without a level, the newest `limit` entries.
    pub fn get_entries(&self, level: Option<LogLevel>, limit: usize) -> (found: Vec<LogEntry>)
        ensures
            entry_views(found@) == newest(
                self.entries(),
                |entry: LogEntryView| up_to(level, entry.level),
                limit as nat,
            ),
    {
        let ghost keep = |entry: LogEntryView| up_to(level, entry.level);
        let mut found: Vec<LogEntry> = Vec::new();
        let mut i: usize = self.entries.len();
        proof {
            assert(self.entries().take(i as int) =~= self.entries());
            assert(entry_views(found@) + newest_first(self.entries(), keep) =~= newest_first(
                self.entries(),
                keep,
            ));
        }
        while i > 0 && found.len() < limit
            invariant
                i <= self.entries@.len(),
                found@.len() <= limit,
                keep == |entry: LogEntryView| up_to(level, entry.level),
                newest_first(self.entries(), keep) == entry_views(found@) + newest_first(
                    self.entries().take(i as int),
                    keep,
                ),
            decreases i,
        {
            i = i - 1;
            let entry = &self.entries[i];
            let wanted = match level {
                Some(most) => entry.level.ordinal() <= most.ordinal(),
                None => true,
            };
            proof {
                let prefix = self.entries().take(i + 1);
                assert(prefix.drop_last() =~= self.entries().take(i as int));
                assert(prefix.last() == entry@);
                assert(wanted == keep(entry@));
            }
            if wanted {
                let ghost before = entry_views(found@);
                found.push(entry.clone());
                assert(entry_views(found@) =~= before.push(entry@));
                assert(before.push(entry@) + newest_first(self.entries().take(i as int), keep) =~= before + (
                seq![entry@] + newest_first(self.entries().take(i as int), keep)));
            }
        }
        proof {
            if i == 0 {
                assert(self.entries().take(0) =~= Seq::<LogEntryView>::empty());
                assert(newest_first(self.entries(), keep) =~= entry_views(found@));
            } else {
                assert(newest_first(self.entries(), keep).take(limit as int) =~= entry_views(found@));
            }
        }
        found
    }

    /// Empties the log.
    pub fn clear_entries(&mut self)
        ensures
            final(self).well_formed(),
            final(self).entries() == Seq::<LogEntryView>::empty(),
            final(self).max_entries() == old(self).max_entries(),
            final(self).enabled() == old(self).enabled(),
            final(self).threshold() == old(self).threshold(),
    {
        self.entries.clear();
        assert(self.entries() =~= Seq::<LogEntryView>::empty());
    }
}

/// Writes an entry of the level `DEBUG`.
pub fn debug(logger: &mut Logger, message: &str, module: &str, function: &str, line: u32) -> (kept: bool)
    requires
        old(logger).well_formed(),
    ensures
        final(logger).well_formed(),
        exists|timestamp: i64| #[trigger]
            Logger::logged(
                old(logger),
                plain_entry(LogLevel::DEBUG, message@, module@, function@, line, timestamp),
                final(logger),
                kept,
            ),
{
    logger.log(LogLevel::DEBUG, message, module, function, line)
}

/// Writes an entry of the level `INFO`.
pub fn info(logger: &mut Logger, message: &str, module: &str, function: &str, line: u32) -> (kept: bool)
    requires
        old(logger).well_formed(),
    ensures
        final(logger).well_formed(),
        exists|timestamp: i64| #[trigger]
            Logger::logged(
                old(logger),
                plain_entry(LogLevel::INFO, message@, module@, function@, line, timestamp),
                final(logger),
                kept,
            ),
{
    logger.log(LogLevel::INFO, message, module, function, line)
}

/// Writes an entry of the level `WARN`.
pub fn warn(logger: &mut Logger, message: &str, module: &str, function: &str, line: u32) -> (kept: bool)
    requires
        old(logger).well_formed(),
    ensures
        final(logger).well_formed(),
        exists|timestamp: i64| #[trigger]
            Logger::logged(
                old(logger),
                plain_entry(LogLevel::WARN, message@, module@, function@, line, timestamp),
                final(logger),
                kept,
            ),
{
    logger.log(LogLevel::WARN, message, module, function, line)
}

/// Writes an entry of the level `ERROR`.
pub fn error(logger: &mut Logger, message: &str, module: &str, function: &str, line: u32) -> (kept: bool)
    requires
        old(logger).well_formed(),
    ensures
        final(logger).well_formed(),
        exists|timestamp: i64| #[trigger]
            Logger::logged(
                old(logger),
                plain_entry(LogLevel::ERROR, message@, module@, function@, line, timestamp),
                final(logger),
                kept,
            ),
{
    logger.log(LogLevel::ERROR, message, module, function, line)
}

/// Writes an entry of the level `CRITICAL`.
pub fn critical(logger: &mut Logger, message: &str, module: &str, function: &str, line: u32) -> (kept: bool)
    requires
        old(logger).well_formed(),
    ensures
        final(logger).well_formed(),
        exists|timestamp: i64| #[trigger]
            Logger::logged(
                old(logger),
                plain_entry(LogLevel::CRITICAL, message@, module@, function@, line, timestamp),
                final(logger),
                kept,
            ),
{
    logger.log(LogLevel::CRITICAL, message, module, function, line)
}

/// The newest `limit` entries whose level is at most `level`, the newest
/// first.
pub fn get_recent_logs(logger: &Logger, level: Option<LogLevel>, limit: usize) -> (found: Vec<LogEntry>)
    ensures
        entry_views(found@) == newest(
            logger.entries(),
            |entry: LogEntryView| up_to(level, entry.level),
            limit as nat,
        ),
{
    logger.get_entries(level, limit)
}

/// What an operation used of the machine.
#[derive(Clone, Copy, Debug, PartialEq, Eq, Structural)]
pub struct ResourceUsage {
    pub memory_mb: u64,
    pub cpu_percent: u32,
    pub disk_usage_mb: u64,
}

/// One measured operation.
#[derive(Debug)]
pub struct PerformanceMetric {
    pub operation: String,
    pub duration_ms: u64,
    /// When it was recorded, in milliseconds since the start of 1970.
    pub timestamp: i64,
    pub success: bool,
    pub error_message: Option<String>,
    pub resource_usage: ResourceUsage,
}

/// A metric with its texts as sequences of characters.
pub struct MetricView {
    pub operation: Seq<char>,
    pub duration_ms: u64,
    pub timestamp: i64,
    pub success: bool,
    pub error_message: Option<Seq<char>>,
    pub resource_usage: ResourceUsage,
}

impl View for PerformanceMetric {
    type V = MetricView;

    open spec fn view(&self) -> MetricView {
        MetricView {
            operation: self.operation@,
            duration_ms: self.duration_ms,
            timestamp: self.timestamp,
            success: self.success,
            error_message: text_view(self.error_message),
            resource_usage: self.resource_usage,
        }
    }
}

impl Clone for PerformanceMetric {
    fn clone(&self) -> (copy: Self)
        ensures
            copy@ == self@,
    {
        PerformanceMetric {
            operation: self.operation.clone(),
            duration_ms: self.duration_ms,
            timestamp: self.timestamp,
            success: self.success,
            error_message: copy_text(&self.error_message),
            resource_usage: self.resource_usage,
        }
    }
}

/// The views of the metrics of a history.
pub open spec fn metric_views(metrics: Seq<PerformanceMetric>) -> Seq<MetricView> {
    Seq::new(metrics.len(), |i: int| metrics[i]@)
}

/// How a service fares: a word for it, and the counts of the last five
/// minutes that the word is decided from. The error rate is
/// `recent_errors / recent_requests`, the average response time
/// `recent_duration_ms / recent_requests`.
#[derive(Debug)]
pub struct SystemHealth {
    pub status: String,
    pub uptime_seconds: u64,
    pub memory_usage_percent: u32,
    pub cpu_usage_percent: u32,
    pub active_connections: usize,
    pub recent_requests: usize,
    pub recent_errors: usize,
    pub recent_duration_ms: u128,
}

/// A health report with its status as a sequence of characters.
pub struct HealthView {
    pub status: Seq<char>,
    pub uptime_seconds: u64,
    pub memory_usage_percent: u32,
    pub cpu_usage_percent: u32,
    pub active_connections: usize,
    pub recent_requests: usize,
    pub recent_errors: usize,
    pub recent_duration_ms: u128,
}

impl View for SystemHealth {
    type V = HealthView;

    open spec fn view(&self) -> HealthView {
        HealthView {
            status: self.status@,
            uptime_seconds: self.uptime_seconds,
            memory_usage_percent: self.memory_usage_percent,
            cpu_usage_percent: self.cpu_usage_percent,
            active_connections: self.active_connections,
            recent_requests: self.recent_requests,
            recent_errors: self.recent_errors,
            recent_duration_ms: self.recent_duration_ms,
        }
    }
}

impl Clone for SystemHealth {
    fn clone(&self) -> (copy: Self)
        ensures
            copy@ == self@,
    {
        SystemHealth {
            status: self.status.clone(),
            uptime_seconds: self.uptime_seconds,
            memory_usage_percent: self.memory_usage_percent,
            cpu_usage_percent: self.cpu_usage_percent,
            active_connections: self.active_connections,
            recent_requests: self.recent_requests,
            recent_errors: self.recent_errors,
            recent_duration_ms: self.recent_duration_ms,
        }
    }
}

/// The length of the time that the health report looks back on, in
/// milliseconds.
pub const RECENT_MILLIS: i64 = 300_000;

/// Whether a metric was recorded less than five minutes before `now`.
pub open spec fn is_recent(metric: MetricView, now: i64) -> bool {
    metric.timestamp > now - RECENT_MILLIS
}

/// The number of recent metrics.
pub open spec fn recent_requests(metrics: Seq<MetricView>, now: i64) -> nat
    decreases metrics.len(),
{
    if metrics.len() == 0 {
        0
    } else {
        recent_requests(metrics.drop_last(), now) + if is_recent(metrics.last(), now) {
            1nat
        } else {
            0nat
        }
    }
}

/// The number of recent metrics of operations that failed.
pub open spec fn recent_errors(metrics: Seq<MetricView>, now: i64) -> nat
    decreases metrics.len(),
{
    if metrics.len() == 0 {
        0
    } else {
        recent_errors(metrics.drop_last(), now) + if is_recent(metrics.last(), now) && !metrics.last().success {
            1nat
        } else {
            0nat
        }
    }
}

/// The durations of the recent metrics, added up.
pub open spec fn recent_duration(metrics: Seq<MetricView>, now: i64) -> nat
    decreases metrics.len(),
{
    if metrics.len() == 0 {
        0
    } else {
        recent_duration(metrics.drop_last(), now) + if is_recent(metrics.last(), now) {
            metrics.last().duration_ms as nat
        } else {
            0nat
        }
    }
}

/// The word for a service of whose `requests` recent operations `errors`
/// failed: `healthy` where fewer than one in twenty failed, else `degraded`.
pub open spec fn status_word(errors: nat, requests: nat) -> Seq<char> {
    if errors * 20 < requests || requests == 0 {
        "healthy"@
    } else {
        "degraded"@
    }
}

/// The health report for a history of metrics at the time `now`, after
/// `uptime_seconds` seconds of service.
pub open spec fn health_of(metrics: Seq<MetricView>, now: i64, uptime_seconds: u64) -> HealthView {
    HealthView {
        status: status_word(recent_errors(metrics, now), recent_requests(metrics, now)),
        uptime_seconds,
        memory_usage_percent: 0,
        cpu_usage_percent: 0,
        active_connections: 0,
        recent_requests: recent_requests(metrics, now) as usize,
        recent_errors: recent_errors(metrics, now) as usize,
        recent_duration_ms: recent_duration(metrics, now) as u128,
    }
}

/// Whether a query for the metrics of `operation` returns a metric of the
/// operation `name`. A query without an operation returns every metric.
pub open spec fn of_operation(operation: Option<Seq<char>>, name: Seq<char>) -> bool {
    match operation {
        Some(wanted) => name == wanted,
        None => true,
    }
}

/// A history of metrics with the health report made from it.
pub struct MetricsCollector {
    metrics: Vec<PerformanceMetric>,
    max_metrics: usize,
    system_health: SystemHealth,
    start_time: Instant,
}

impl MetricsCollector {
    /// The metrics, the oldest first.
    pub closed spec fn metrics(&self) -> Seq<MetricView> {
        metric_views(self.metrics@)
    }

    /// The most metrics that the history keeps.
    pub closed spec fn max_metrics(&self) -> usize {
        self.max_metrics
    }

    /// The health report as it was last made.
    pub closed spec fn health(&self) -> HealthView {
        self.system_health@
    }

    /// The history holds no more metrics than it keeps.
    pub closed spec fn well_formed(&self) -> bool {
        self.metrics@.len() <= self.max_metrics
    }

    /// An empty history that keeps ten thousand metrics, with a report of
    /// good health.
    pub fn new() -> (collector: Self)
        ensures
            collector.well_formed(),
            collector.metrics() == Seq::<MetricView>::empty(),
            collector.max_metrics() == 10000,
            collector.health() == health_of(Seq::<MetricView>::empty(), 0, 0),
    {
        let collector = MetricsCollector {
            metrics: Vec::new(),
            max_metrics: 10000,
            system_health: SystemHealth {
                status: "healthy".to_owned(),
                uptime_seconds: 0,
                memory_usage_percent: 0,
                cpu_usage_percent: 0,
                active_connections: 0,
                recent_requests: 0,
                recent_errors: 0,
                recent_duration_ms: 0,
            },
            start_time: Instant::now(),
        };
        assert(collector.metrics() =~= Seq::<MetricView>::empty());
        collector
    }

    /// What the machine is using. Nothing is measured: every number is zero.
    fn get_current_resource_usage(&self) -> (usage: ResourceUsage)
        ensures
            usage == (ResourceUsage { memory_mb: 0, cpu_percent: 0, disk_usage_mb: 0 }),
    {
        ResourceUsage { memory_mb: 0, cpu_percent: 0, disk_usage_mb: 0 }
    }

    /// Makes the health report anew from the history.
    fn update_system_health(&mut self, now: i64, uptime_seconds: u64)
        ensures
            final(self).metrics == old(self).metrics,
            final(self).max_metrics == old(self).max_metrics,
            final(self).health() == health_of(old(self).metrics(), now, uptime_seconds),
    {
        let mut requests: usize = 0;
        let mut errors: usize = 0;
        let mut duration: u128 = 0;
        let mut i: usize = 0;
        while i < self.metrics.len()
            invariant
                i <= self.metrics@.len(),
                requests == recent_requests(self.metrics().take(i as int), now),
                errors == recent_errors(self.metrics().take(i as int), now),
                duration == recent_duration(self.metrics().take(i as int), now),
                errors <= requests <= i,
                duration <= i * u64::MAX,
            decreases self.metrics@.len() - i,
        {
            let metric = &self.metrics[i];
            proof {
                assert(self.metrics().take(i + 1).drop_last() =~= self.metrics().take(i as int));
                assert(self.metrics().take(i + 1).last() == metric@);
                assert((i + 1) * u64::MAX == i * u64::MAX + u64::MAX) by (nonlinear_arith);
                assert(i * u64::MAX + u64::MAX <= usize::MAX * u64::MAX + u64::MAX) by (nonlinear_arith)
                    requires
                        i <= usize::MAX,
                ;
            }
            if (metric.timestamp as i128) > (now as i128) - (RECENT_MILLIS as i128) {
                requests = requests + 1;
                duration = duration + metric.duration_ms as u128;
                if !metric.success {
                    errors = errors + 1;
                }
            }
            i = i + 1;
        }
        assert(self.metrics().take(i as int) =~= self.metrics());
        let healthy = requests == 0 || (errors as u128) * 20 < requests as u128;
        self.system_health = SystemHealth {
            status: if healthy {
                "healthy".to_owned()
            } else {
                "degraded".to_owned()
            },
            uptime_seconds,
            memory_usage_percent: 0,
            cpu_usage_percent: 0,
            active_connections: 0,
            recent_requests: requests,
            recent_errors: errors,
            recent_duration_ms: duration,
        };
    }

    /// What recording a metric makes of a collector: the metric joins the
    /// history, the oldest leaves where the history is full, and the health
    /// report is made anew from what is kept.
    pub open spec fn metric_recorded(
        pre: &Self,
        metric: MetricView,
        uptime_seconds: u64,
        post: &Self,
    ) -> bool {
        &&& post.max_metrics() == pre.max_metrics()
        &&& post.metrics() == appended(pre.metrics(), metric, pre.max_metrics() as nat)
        &&& post.health() == health_of(post.metrics(), metric.timestamp, uptime_seconds)
    }

    /// Records an operation at the time `now`, after `uptime_seconds`
    /// seconds of service.
    pub fn record_metric_at(
        &mut self,
        operation: &str,
        duration_ms: u64,
        success: bool,
        error_message: Option<String>,
        now: i64,
        uptime_seconds: u64,
    )
        requires
            old(self).well_formed(),
        ensures
            final(self).well_formed(),
            Self::metric_recorded(
                old(self),
                (MetricView {
                    operation: operation@,
                    duration_ms,
                    timestamp: now,
                    success,
                    error_message: text_view(error_message),
                    resource_usage: ResourceUsage { memory_mb: 0, cpu_percent: 0, disk_usage_mb: 0 },
                }),
                uptime_seconds,
                final(self),
            ),
    {
        let metric = PerformanceMetric {
            operation: operation.to_owned(),
            duration_ms,
            timestamp: now,
            success,
            error_message,
            resource_usage: self.get_current_resource_usage(),
        };
        let ghost before = self.metrics@;
        self.metrics.push(metric);
        assert(metric_views(self.metrics@) =~= metric_views(before).push(metric@));
        if self.metrics.len() > self.max_metrics {
            let ghost all = self.metrics@;
            let _ = self.metrics.remove(0);
            assert(metric_views(self.metrics@) =~= metric_views(all).skip(1));
        }
        self.update_system_health(now, uptime_seconds);
    }

    /// Records an operation at the time of the call.
    pub fn record_metric(&mut self, operation: &str, duration_ms: u64, success: bool, error_message: Option<String>)
        requires
            old(self).well_formed(),
        ensures
            final(self).well_formed(),
            exists|now: i64, uptime_seconds: u64| #[trigger]
                Self::metric_recorded(
                    old(self),
                    (MetricView {
                        operation: operation@,
                        duration_ms,
                        timestamp: now,
                        success,
                        error_message: text_view(error_message),
                        resource_usage: ResourceUsage { memory_mb: 0, cpu_percent: 0, disk_usage_mb: 0 },
                    }),
                    uptime_seconds,
                    final(self),
                ),
    {
        let now = unix_millis_now();
        let uptime_seconds = instant_seconds(&self.start_time);
        self.record_metric_at(operation, duration_ms, success, error_message, now, uptime_seconds)
    }

    /// The health report as it was last made.
    pub fn get_system_health(&self) -> (health: SystemHealth)
        ensures
            health@ == self.health(),
    {
        self.system_health.clone()
    }

    /// The newest `limit` metrics of `operation`, the newest first; without
    /// an operation, the newest `limit` metrics.
    pub fn get_metrics(&self, operation: Option<&str>, limit: usize) -> (found: Vec<PerformanceMetric>)
        ensures
            metric_views(found@) == newest(
                self.metrics(),
                |metric: MetricView| of_operation(str_view(operation), metric.operation),
                limit as nat,
            ),
    {
        let ghost keep = |metric: MetricView| of_operation(str_view(operation), metric.operation);
        let mut found: Vec<PerformanceMetric> = Vec::new();
        let mut i: usize = self.metrics.len();
        proof {
            assert(self.metrics().take(i as int) =~= self.metrics());
            assert(metric_views(found@) + newest_first(self.metrics(), keep) =~= newest_first(
                self.metrics(),
                keep,
            ));
        }
        while i > 0 && found.len() < limit
            invariant
                i <= self.metrics@.len(),
                found@.len() <= limit,
                keep == |metric: MetricView| of_operation(str_view(operation), metric.operation),
                newest_first(self.metrics(), keep) == metric_views(found@) + newest_first(
                    self.metrics().take(i as int),
                    keep,
                ),
            decreases i,
        {
            i = i - 1;
            let metric = &self.metrics[i];
            let wanted = match operation {
                Some(name) => same_text(metric.operation.as_str(), name),
                None => true,
            };
            proof {
                let prefix = self.metrics().take(i + 1);
                assert(prefix.drop_last() =~= self.metrics().take(i as int));
                assert(prefix.last() == metric@);
                assert(wanted == keep(metric@));
            }
            if wanted {
                let ghost before = metric_views(found@);
                found.push(metric.clone());
                assert(metric_views(found@) =~= before.push(metric@));
                assert(before.push(metric@) + newest_first(self.metrics().take(i as int), keep) =~= before + (
                seq![metric@] + newest_first(self.metrics().take(i as int), keep)));
            }
        }
        proof {
            if i == 0 {
                assert(self.metrics().take(0) =~= Seq::<MetricView>::empty());
                assert(newest_first(self.metrics(), keep) =~= metric_views(found@));
            } else {
                assert(newest_first(self.metrics(), keep).take(limit as int) =~= metric_views(found@));
            }
        }
        found
    }
}

/// An optional string slice as an optional sequence of characters.
pub open spec fn str_view(text: Option<&str>) -> Option<Seq<char>> {
    match text {
        Some(t) => Some(t@),
        None => None,
    }
}

/// Records an operation at the time of the call.
pub fn record_performance(
    collector: &mut MetricsCollector,
    operation: &str,
    duration_ms: u64,
    success: bool,
    error_message: Option<String>,
)
    requires
        old(collector).well_formed(),
    ensures
        final(collector).well_formed(),
        exists|now: i64, uptime_seconds: u64| #[trigger]
            MetricsCollector::metric_recorded(
                old(collector),
                (MetricView {
                    operation: operation@,
                    duration_ms,
                    timestamp: now,
                    success,
                    error_message: text_view(error_message),
                    resource_usage: ResourceUsage { memory_mb: 0, cpu_percent: 0, disk_usage_mb: 0 },
                }),
                uptime_seconds,
                final(collector),
            ),
{
    collector.record_metric(operation, duration_ms, success, error_message)
}

/// The health report as it was last made.
pub fn get_system_health(collector: &MetricsCollector) -> (health: SystemHealth)
    ensures
        health@ == collector.health(),
{
    collector.get_system_health()
}

/// The newest `limit` metrics of `operation`, the newest first.
pub fn get_performance_metrics(collector: &MetricsCollector, operation: Option<&str>, limit: usize) -> (found: Vec<
    PerformanceMetric,
>)
    ensures
        metric_views(found@) == newest(
            collector.metrics(),
            |metric: MetricView| of_operation(str_view(operation), metric.operation),
            limit as nat,
        ),
{
    collector.get_metrics(operation, limit)
}

} // verus!
