//! Guards at the boundary of a service: a rate limit for each caller, a list
//! of blocked addresses, checks on what callers send, and a history of what
//! the guards saw.
//!
//! Time is a count of nanoseconds on the manager's own clock. Each operation
//! that depends on time comes in a form that takes the time, with an exact
//! contract, and in a form that reads the clock.

use crate::clock::{deadline, later, longer_than, monotonic_now, NANOS_PER_SECOND, time_between};
use crate::numeric::{is_numeric, numeric_count};
use crate::pattern::{regex_search, search};
use crate::random::random_u64;
use crate::recent::{appended, newest, newest_first};
use crate::store::KeyedStore;
use crate::text::{
    char_is_control, char_is_whitespace, chars_of, copy_text, decimal, fields, is_control,
    is_whitespace, lower_hex, push_decimal, push_lower_hex, same_text, split_fields, string_push,
    string_views, text_view, trim, trim_bounds, trimmed, views,
};
use std::time::Instant;
use vstd::prelude::*;
use vstd::string::StringSliceAdditionalSpecFns;

verus! {

/// The length of the window in which requests are counted, in seconds.
pub const WINDOW_SECONDS: u64 = 60;

/// How long a caller that went over the limit stays blocked, in seconds.
pub const BLOCK_SECONDS: u64 = 300;

/// The number of events that the history keeps.
pub const MAX_EVENTS: usize = 1000;

/// What the rate limiter knows of one caller.
#[derive(Clone, Copy, Debug, PartialEq, Eq, Structural)]
pub struct RateLimitInfo {
    /// The requests counted in the current window.
    pub requests: u32,
    /// When the current window began.
    pub window_start: u64,
    /// Until when the caller is blocked, if it is.
    pub blocked_until: Option<u64>,
}

/// How grave an event is.
#[derive(Clone, Copy, Debug, PartialEq, Eq, Structural)]
pub enum SecuritySeverity {
    LOW,
    MEDIUM,
    HIGH,
    CRITICAL,
}

impl SecuritySeverity {
    /// The severities in rising order, from 0 for `LOW` to 3 for `CRITICAL`.
    pub open spec fn rank(self) -> int {
        match self {
            SecuritySeverity::LOW => 0,
            SecuritySeverity::MEDIUM => 1,
            SecuritySeverity::HIGH => 2,
            SecuritySeverity::CRITICAL => 3,
        }
    }

    /// The rank of the severity.
    pub fn level(&self) -> (rank: u8)
        ensures
            rank == self.rank(),
    {
        match self {
            SecuritySeverity::LOW => 0,
            SecuritySeverity::MEDIUM => 1,
            SecuritySeverity::HIGH => 2,
            SecuritySeverity::CRITICAL => 3,
        }
    }
}

/// Something that a guard saw.
#[derive(Debug)]
pub struct SecurityEvent {
    /// When it was recorded.
    pub timestamp: u64,
    /// The kind of event.
    pub event_type: String,
    /// The address it came from, if known.
    pub source_ip: Option<String>,
    /// The user it concerns, if known.
    pub user_id: Option<String>,
    /// What happened, in words.
    pub details: String,
    /// How grave it is.
    pub severity: SecuritySeverity,
}

/// An event with its texts as sequences of characters.
pub struct EventView {
    pub timestamp: u64,
    pub event_type: Seq<char>,
    pub source_ip: Option<Seq<char>>,
    pub user_id: Option<Seq<char>>,
    pub details: Seq<char>,
    pub severity: SecuritySeverity,
}

impl View for SecurityEvent {
    type V = EventView;

    open spec fn view(&self) -> EventView {
        EventView {
            timestamp: self.timestamp,
            event_type: self.event_type@,
            source_ip: text_view(self.source_ip),
            user_id: text_view(self.user_id),
            details: self.details@,
            severity: self.severity,
        }
    }
}

impl Clone for SecurityEvent {
    fn clone(&self) -> (copy: Self)
        ensures
            copy@ == self@,
    {
        SecurityEvent {
            timestamp: self.timestamp,
            event_type: self.event_type.clone(),
            source_ip: copy_text(&self.source_ip),
            user_id: copy_text(&self.user_id),
            details: self.details.clone(),
            severity: self.severity,
        }
    }
}

/// The views of the events in a history.
pub open spec fn event_views(events: Seq<SecurityEvent>) -> Seq<EventView> {
    Seq::new(events.len(), |i: int| events[i]@)
}

/// Whether a query for events up to the severity `filter` returns an event of
/// the severity `severity`. A query without a filter returns every event.
pub open spec fn within(filter: Option<SecuritySeverity>, severity: SecuritySeverity) -> bool {
    match filter {
        Some(most) => severity.rank() <= most.rank(),
        None => true,
    }
}

/// The settings of a security manager.
#[derive(Debug)]
pub struct SecurityConfig {
    /// The requests that a caller may make in one window.
    pub max_requests_per_minute: u32,
    /// The longest input that is accepted, in bytes.
    pub max_request_size_bytes: usize,
    /// Whether inputs are checked at all.
    pub enable_input_validation: bool,
    pub enable_threat_detection: bool,
    pub blocked_ips: Vec<String>,
    pub allowed_origins: Vec<String>,
    pub max_concurrent_connections: usize,
}

/// The regular expressions that mark an input as a threat: words of script
/// injection, of SQL, of command execution, and opening script tags, in any
/// mix of upper and lower case.
pub open spec fn threat_patterns() -> Seq<Seq<char>> {
    seq![
        "(?i)(script|javascript|vbscript|onload|onerror)"@,
        "(?i)(union|select|insert|update|delete|drop|create|alter)"@,
        "(?i)(eval|exec|system|shell|cmd)"@,
        "(?i)(<script|javascript:|vbscript:)"@,
    ]
}

/// The guards of a service with their state.
pub struct SecurityManager {
    rate_limits: KeyedStore<RateLimitInfo>,
    security_events: Vec<SecurityEvent>,
    blocked_ips: KeyedStore<u64>,
    config: SecurityConfig,
    threat_patterns: Vec<String>,
    origin: Instant,
}

/// The event that is recorded when a caller goes over its limit.
pub open spec fn rate_limit_event(identifier: Seq<char>, now: u64) -> EventView {
    EventView {
        timestamp: now,
        event_type: "RATE_LIMIT_EXCEEDED"@,
        source_ip: Some(identifier),
        user_id: None,
        details: "Rate limit exceeded for "@ + identifier,
        severity: SecuritySeverity::MEDIUM,
    }
}

/// The event that is recorded when an address is blocked.
pub open spec fn ip_blocked_event(ip: Seq<char>, seconds: u64, now: u64) -> EventView {
    EventView {
        timestamp: now,
        event_type: "IP_BLOCKED"@,
        source_ip: Some(ip),
        user_id: None,
        details: "IP "@ + ip + " blocked for "@ + decimal(seconds as nat) + " seconds"@,
        severity: SecuritySeverity::MEDIUM,
    }
}

impl SecurityManager {
    /// What the rate limiter knows of each caller.
    pub closed spec fn rate_limits(&self) -> Map<Seq<char>, RateLimitInfo> {
        self.rate_limits@
    }

    /// The blocked addresses, each with the time until which it is blocked.
    pub closed spec fn blocked(&self) -> Map<Seq<char>, u64> {
        self.blocked_ips@
    }

    /// The blocked addresses in the order in which `get_blocked_ips` lists
    /// them.
    pub closed spec fn blocked_order(&self) -> Seq<Seq<char>> {
        self.blocked_ips.keys()
    }

    /// The history of events, the oldest first.
    pub closed spec fn events(&self) -> Seq<EventView> {
        event_views(self.security_events@)
    }

    /// The settings.
    pub closed spec fn config(&self) -> SecurityConfig {
        self.config
    }

    /// The invariant of the manager: its tables are well formed, its history
    /// holds at most `MAX_EVENTS` events, and it knows the threat patterns.
    pub closed spec fn well_formed(&self) -> bool {
        &&& self.rate_limits.well_formed()
        &&& self.blocked_ips.well_formed()
        &&& self.security_events@.len() <= MAX_EVENTS
        &&& string_views(self.threat_patterns@) == threat_patterns()
    }

    /// The history of a well-formed manager holds at most `MAX_EVENTS`
    /// events, and the list of blocked addresses names each blocked address
    /// once.
    pub proof fn lemma_well_formed(&self)
        requires
            self.well_formed(),
        ensures
            self.events().len() <= MAX_EVENTS,
            self.blocked_order().no_duplicates(),
            self.blocked_order().to_set() == self.blocked().dom(),
    {
        self.blocked_ips.lemma_slots_are_the_map();
    }

    /// A manager with the given settings that knows no caller, blocks no
    /// address and has seen nothing.
    pub fn new(config: SecurityConfig) -> (manager: Self)
        ensures
            manager.well_formed(),
            manager.config() == config,
            manager.rate_limits() == Map::<Seq<char>, RateLimitInfo>::empty(),
            manager.blocked() == Map::<Seq<char>, u64>::empty(),
            manager.events() == Seq::<EventView>::empty(),
    {
        let mut patterns: Vec<String> = Vec::new();
        patterns.push("(?i)(script|javascript|vbscript|onload|onerror)".to_owned());
        patterns.push("(?i)(union|select|insert|update|delete|drop|create|alter)".to_owned());
        patterns.push("(?i)(eval|exec|system|shell|cmd)".to_owned());
        patterns.push("(?i)(<script|javascript:|vbscript:)".to_owned());
        let manager = SecurityManager {
            rate_limits: KeyedStore::new(),
            security_events: Vec::new(),
            blocked_ips: KeyedStore::new(),
            config,
            threat_patterns: patterns,
            origin: Instant::now(),
        };
        assert(string_views(manager.threat_patterns@) =~= threat_patterns());
        assert(manager.events() =~= Seq::<EventView>::empty());
        manager
    }

    /// What the manager's clock shows.
    fn clock(&self) -> u64 {
        monotonic_now(&self.origin, 0)
    }

    /// Adds an event to the history and drops the oldest where the history
    /// would grow beyond `MAX_EVENTS`.
    fn push_event(&mut self, event: SecurityEvent)
        requires
            old(self).well_formed(),
        ensures
            final(self).well_formed(),
            final(self).events() == appended(old(self).events(), event@, MAX_EVENTS as nat),
            final(self).rate_limits == old(self).rate_limits,
            final(self).blocked_ips == old(self).blocked_ips,
            final(self).config == old(self).config,
    {
        let ghost before = self.security_events@;
        self.security_events.push(event);
        assert(event_views(self.security_events@) =~= event_views(before).push(event@));
        if self.security_events.len() > MAX_EVENTS {
            let ghost all = self.security_events@;
            let _ = self.security_events.remove(0);
            assert(event_views(self.security_events@) =~= event_views(all).skip(1));
        }
    }

    /// What recording an event at `now` makes of a manager: the event joins
    /// the history, and the oldest event leaves where the history is full.
    pub open spec fn recorded(pre: &Self, event: EventView, post: &Self) -> bool {
        &&& post.events() == appended(pre.events(), event, MAX_EVENTS as nat)
        &&& post.rate_limits() == pre.rate_limits()
        &&& post.blocked() == pre.blocked()
        &&& post.blocked_order() == pre.blocked_order()
        &&& post.config() == pre.config()
    }

    /// Records an event with the time `now`.
    pub fn record_security_event_at(
        &mut self,
        event_type: &str,
        source_ip: Option<String>,
        user_id: Option<String>,
        details: String,
        severity: SecuritySeverity,
        now: u64,
    )
        requires
            old(self).well_formed(),
        ensures
            final(self).well_formed(),
            Self::recorded(
                old(self),
                (EventView {
                    timestamp: now,
                    event_type: event_type@,
                    source_ip: text_view(source_ip),
                    user_id: text_view(user_id),
                    details: details@,
                    severity,
                }),
                final(self),
            ),
    {
        let event = SecurityEvent {
            timestamp: now,
            event_type: event_type.to_owned(),
            source_ip,
            user_id,
            details,
            severity,
        };
        self.push_event(event);
    }

    /// Records an event with the time that the manager's clock shows.
    pub fn record_security_event(
        &mut self,
        event_type: &str,
        source_ip: Option<String>,
        user_id: Option<String>,
        details: String,
        severity: SecuritySeverity,
    )
        requires
            old(self).well_formed(),
        ensures
            final(self).well_formed(),
            exists|now: u64| #[trigger]
                Self::recorded(
                    old(self),
                    (EventView {
                        timestamp: now,
                        event_type: event_type@,
                        source_ip: text_view(source_ip),
                        user_id: text_view(user_id),
                        details: details@,
                        severity,
                    }),
                    final(self),
                ),
    {
        let now = self.clock();
        self.record_security_event_at(event_type, source_ip, user_id, details, severity, now);
    }

    /// What a request of the caller `identifier` at `now` makes of a manager,
    /// and whether the request is allowed.
    ///
    /// A caller's first request opens a window and is allowed. A caller that
    /// is blocked is refused until the block ends. A request more than
    /// `WINDOW_SECONDS` after the window began opens a new window, lifts an
    /// ended block and is allowed. Within the window, requests are allowed
    /// and counted up to the limit; the request after that is refused, blocks
    /// the caller for `BLOCK_SECONDS` and is recorded.
    pub open spec fn rate_checked(pre: &Self, identifier: Seq<char>, now: u64, post: &Self, allowed: bool) -> bool {
        let opened = RateLimitInfo { requests: 1, window_start: now, blocked_until: None };
        &&& post.blocked() == pre.blocked()
        &&& post.blocked_order() == pre.blocked_order()
        &&& post.config() == pre.config()
        &&& if !pre.rate_limits().contains_key(identifier) {
            &&& allowed
            &&& post.rate_limits() == pre.rate_limits().insert(identifier, opened)
            &&& post.events() == pre.events()
        } else {
            let info = pre.rate_limits()[identifier];
            if info.blocked_until is Some && now < info.blocked_until.unwrap() {
                &&& !allowed
                &&& post.rate_limits() == pre.rate_limits()
                &&& post.events() == pre.events()
            } else if time_between(info.window_start, now) > WINDOW_SECONDS * NANOS_PER_SECOND {
                &&& allowed
                &&& post.rate_limits() == pre.rate_limits().insert(identifier, opened)
                &&& post.events() == pre.events()
            } else if info.requests >= pre.config().max_requests_per_minute {
                &&& !allowed
                &&& post.rate_limits() == pre.rate_limits().insert(
                    identifier,
                    RateLimitInfo {
                        requests: info.requests,
                        window_start: info.window_start,
                        blocked_until: Some(later(now, BLOCK_SECONDS)),
                    },
                )
                &&& post.events() == appended(
                    pre.events(),
                    rate_limit_event(identifier, now),
                    MAX_EVENTS as nat,
                )
            } else {
                &&& allowed
                &&& post.rate_limits() == pre.rate_limits().insert(
                    identifier,
                    RateLimitInfo {
                        requests: (info.requests + 1) as u32,
                        window_start: info.window_start,
                        blocked_until: info.blocked_until,
                    },
                )
                &&& post.events() == pre.events()
            }
        }
    }

    /// Decides on a request of the caller `identifier` at the time `now`.
    pub fn check_rate_limit_at(&mut self, identifier: &str, now: u64) -> (allowed: bool)
        requires
            old(self).well_formed(),
        ensures
            final(self).well_formed(),
            Self::rate_checked(old(self), identifier@, now, final(self), allowed),
    {
        let known = match self.rate_limits.get(identifier) {
            Some(info) => Some(*info),
            None => None,
        };
        match known {
            None => {
                let _ = self.rate_limits.insert(
                    identifier,
                    RateLimitInfo { requests: 1, window_start: now, blocked_until: None },
                );
                true
            },
            Some(info) => {
                let blocked = match info.blocked_until {
                    Some(until) => now < until,
                    None => false,
                };
                if blocked {
                    false
                } else if longer_than(info.window_start, now, WINDOW_SECONDS) {
                    let _ = self.rate_limits.insert(
                        identifier,
                        RateLimitInfo { requests: 1, window_start: now, blocked_until: None },
                    );
                    true
                } else if info.requests >= self.config.max_requests_per_minute {
                    let _ = self.rate_limits.insert(
                        identifier,
                        RateLimitInfo {
                            requests: info.requests,
                            window_start: info.window_start,
                            blocked_until: Some(deadline(now, BLOCK_SECONDS)),
                        },
                    );
                    let details = "Rate limit exceeded for ".to_owned().concat(identifier);
                    self.push_event(
                        SecurityEvent {
                            timestamp: now,
                            event_type: "RATE_LIMIT_EXCEEDED".to_owned(),
                            source_ip: Some(identifier.to_owned()),
                            user_id: None,
                            details,
                            severity: SecuritySeverity::MEDIUM,
                        },
                    );
                    false
                } else {
                    let _ = self.rate_limits.insert(
                        identifier,
                        RateLimitInfo {
                            requests: info.requests + 1,
                            window_start: info.window_start,
                            blocked_until: info.blocked_until,
                        },
                    );
                    true
                }
            },
        }
    }

    /// Decides on a request of the caller `identifier` at the time that the
    /// manager's clock shows.
    pub fn check_rate_limit(&mut self, identifier: &str) -> (allowed: bool)
        requires
            old(self).well_formed(),
        ensures
            final(self).well_formed(),
            exists|now: u64| #[trigger] Self::rate_checked(old(self), identifier@, now, final(self), allowed),
    {
        let now = self.clock();
        self.check_rate_limit_at(identifier, now)
    }

    /// What the rate limiter knows of a caller.
    pub fn get_rate_limit_info(&self, identifier: &str) -> (info: Option<RateLimitInfo>)
        requires
            self.well_formed(),
        ensures
            info == (if self.rate_limits().contains_key(identifier@) {
                Some(self.rate_limits()[identifier@])
            } else {
                None
            }),
    {
        match self.rate_limits.get(identifier) {
            Some(info) => Some(*info),
            None => None,
        }
    }

    /// Forgets every caller.
    pub fn clear_rate_limits(&mut self)
        requires
            old(self).well_formed(),
        ensures
            final(self).well_formed(),
            final(self).rate_limits() == Map::<Seq<char>, RateLimitInfo>::empty(),
            final(self).blocked() == old(self).blocked(),
            final(self).blocked_order() == old(self).blocked_order(),
            final(self).events() == old(self).events(),
            final(self).config() == old(self).config(),
    {
        self.rate_limits.clear();
    }

    /// What asking at `now` whether `ip` is blocked makes of a manager, and
    /// the answer: an address is blocked before the time until which it was
    /// blocked, and a block that has ended is forgotten.
    pub open spec fn block_checked(pre: &Self, ip: Seq<char>, now: u64, post: &Self, blocked: bool) -> bool {
        &&& post.rate_limits() == pre.rate_limits()
        &&& post.events() == pre.events()
        &&& post.config() == pre.config()
        &&& blocked == (pre.blocked().contains_key(ip) && now < pre.blocked()[ip])
        &&& post.blocked() == (if pre.blocked().contains_key(ip) && !blocked {
            pre.blocked().remove(ip)
        } else {
            pre.blocked()
        })
    }

    /// Whether `ip` is blocked at the time `now`.
    pub fn is_ip_blocked_at(&mut self, ip: &str, now: u64) -> (blocked: bool)
        requires
            old(self).well_formed(),
        ensures
            final(self).well_formed(),
            Self::block_checked(old(self), ip@, now, final(self), blocked),
    {
        let until = match self.blocked_ips.get(ip) {
            Some(until) => Some(*until),
            None => None,
        };
        match until {
            Some(until) => {
                if now < until {
                    true
                } else {
                    let _ = self.blocked_ips.remove(ip);
                    false
                }
            },
            None => false,
        }
    }

    /// Whether `ip` is blocked at the time that the manager's clock shows.
    pub fn is_ip_blocked(&mut self, ip: &str) -> (blocked: bool)
        requires
            old(self).well_formed(),
        ensures
            final(self).well_formed(),
            exists|now: u64| #[trigger] Self::block_checked(old(self), ip@, now, final(self), blocked),
    {
        let now = self.clock();
        self.is_ip_blocked_at(ip, now)
    }

    /// What blocking `ip` at `now` for `seconds` seconds makes of a manager:
    /// the address is blocked until then, whatever held of it before, and the
    /// block is recorded.
    pub open spec fn ip_blocked(pre: &Self, ip: Seq<char>, seconds: u64, now: u64, post: &Self) -> bool {
        &&& post.rate_limits() == pre.rate_limits()
        &&& post.config() == pre.config()
        &&& post.blocked() == pre.blocked().insert(ip, later(now, seconds))
        &&& post.events() == appended(pre.events(), ip_blocked_event(ip, seconds, now), MAX_EVENTS as nat)
    }

    /// Blocks `ip` for `duration_seconds` seconds from the time `now`.
    pub fn block_ip_at(&mut self, ip: &str, duration_seconds: u64, now: u64)
        requires
            old(self).well_formed(),
        ensures
            final(self).well_formed(),
            Self::ip_blocked(old(self), ip@, duration_seconds, now, final(self)),
    {
        let _ = self.blocked_ips.insert(ip, deadline(now, duration_seconds));
        let mut details = "IP ".to_owned().concat(ip).concat(" blocked for ");
        push_decimal(&mut details, duration_seconds);
        let details = details.concat(" seconds");
        self.push_event(
            SecurityEvent {
                timestamp: now,
                event_type: "IP_BLOCKED".to_owned(),
                source_ip: Some(ip.to_owned()),
                user_id: None,
                details,
                severity: SecuritySeverity::MEDIUM,
            },
        );
    }

    /// Blocks `ip` for `duration_seconds` seconds from the time that the
    /// manager's clock shows.
    pub fn block_ip(&mut self, ip: &str, duration_seconds: u64)
        requires
            old(self).well_formed(),
        ensures
            final(self).well_formed(),
            exists|now: u64| #[trigger] Self::ip_blocked(old(self), ip@, duration_seconds, now, final(self)),
    {
        let now = self.clock();
        self.block_ip_at(ip, duration_seconds, now)
    }

    /// The addresses that are listed as blocked, each once. A block that has
    /// ended stays listed until someone asks for that address.
    pub fn get_blocked_ips(&self) -> (ips: Vec<String>)
        requires
            self.well_formed(),
        ensures
            string_views(ips@) == self.blocked_order(),
            ips@.len() == self.blocked().len(),
    {
        proof {
            self.blocked_ips.lemma_slots_are_the_map();
        }
        let mut ips: Vec<String> = Vec::new();
        let mut i: usize = 0;
        while i < self.blocked_ips.len()
            invariant
                i <= self.blocked_ips.keys().len(),
                ips@.len() == i,
                forall|j: int| 0 <= j < i ==> (#[trigger] ips@[j])@ == self.blocked_ips.keys()[j],
            decreases self.blocked_ips.keys().len() - i,
        {
            ips.push(self.blocked_ips.key_at(i).to_owned());
            i = i + 1;
        }
        assert(string_views(ips@) =~= self.blocked_order());
        ips
    }

    /// The newest `limit` events whose severity is at most `severity`, the
    /// newest first; without a severity, the newest `limit` events.
    pub fn get_security_events(&self, severity: Option<SecuritySeverity>, limit: usize) -> (found: Vec<SecurityEvent>)
        ensures
            event_views(found@) == newest(
                self.events(),
                |event: EventView| within(severity, event.severity),
                limit as nat,
            ),
    {
        let ghost keep = |event: EventView| within(severity, event.severity);
        let mut found: Vec<SecurityEvent> = Vec::new();
        let mut i: usize = self.security_events.len();
        proof {
            assert(self.events().take(i as int) =~= self.events());
            assert(event_views(found@) + newest_first(self.events(), keep)
                =~= newest_first(self.events(), keep));
        }
        while i > 0 && found.len() < limit
            invariant
                i <= self.security_events@.len(),
                found@.len() <= limit,
                keep == |event: EventView| within(severity, event.severity),
                newest_first(self.events(), keep) == event_views(found@)
                    + newest_first(self.events().take(i as int), keep),
            decreases i,
        {
            i = i - 1;
            let event = &self.security_events[i];
            let wanted = match severity {
                Some(most) => event.severity.level() <= most.level(),
                None => true,
            };
            proof {
                let prefix = self.events().take(i + 1);
                assert(prefix.drop_last() =~= self.events().take(i as int));
                assert(prefix.last() == event@);
                assert(wanted == keep(event@));
            }
            if wanted {
                let ghost before = event_views(found@);
                found.push(event.clone());
                assert(event_views(found@) =~= before.push(event@));
                assert(before.push(event@) + newest_first(self.events().take(i as int), keep)
                    =~= before + (seq![event@] + newest_first(
                    self.events().take(i as int),
                    keep,
                )));
            }
        }
        proof {
            assert(self.events().take(self.security_events@.len() as int) =~= self.events());
            if i == 0 {
                assert(self.events().take(0) =~= Seq::<EventView>::empty());
                assert(newest_first(self.events(), keep) =~= event_views(found@));
            } else {
                assert(newest_first(self.events(), keep).take(limit as int) =~= event_views(
                    found@,
                ));
            }
        }
        found
    }
}

/// The most times in a row that a text may repeat the character before.
pub const MAX_REPEATS: usize = 10;

/// Whether one of the threat patterns matches the input.
pub open spec fn is_threat(input: Seq<char>) -> bool {
    exists|i: int|
        0 <= i < threat_patterns().len() && regex_search(#[trigger] threat_patterns()[i], input) == Some(true)
}

/// The number of whitespace characters in a text.
pub open spec fn whitespace_count(s: Seq<char>) -> nat
    decreases s.len(),
{
    if s.len() == 0 {
        0
    } else {
        whitespace_count(s.drop_last()) + if is_whitespace(s.last()) {
            1nat
        } else {
            0nat
        }
    }
}

/// How many times in a row, up to position `i`, a character of the text
/// repeats the one before it.
pub open spec fn repeats(s: Seq<char>, i: int) -> nat
    decreases i,
{
    if 0 < i < s.len() && s[i] == s[i - 1] {
        1 + repeats(s, i - 1)
    } else {
        0
    }
}

/// Whether the text repeats a character more than `MAX_REPEATS` times in a
/// row: whether it holds the same character twelve times in a row.
pub open spec fn has_long_run(s: Seq<char>) -> bool {
    exists|i: int| 0 <= i < s.len() && #[trigger] repeats(s, i) > MAX_REPEATS
}

/// What is wrong with a text input of the given characters and length in
/// bytes, if anything: more whitespace characters than half its bytes, or a
/// long run of one character.
pub open spec fn text_fault(chars: Seq<char>, bytes: nat) -> Option<Seq<char>> {
    if whitespace_count(chars) > bytes / 2 {
        Some("Input contains excessive whitespace"@)
    } else if has_long_run(chars) {
        Some("Input contains excessive repeated characters"@)
    } else {
        None
    }
}

/// What is wrong with an input of numeric data, if anything: no field is a
/// number, or fewer fields than half of them, rounded down.
pub open spec fn data_fault(chars: Seq<char>) -> Option<Seq<char>> {
    let valid = numeric_count(fields(chars));
    if valid == 0 {
        Some("No valid numeric data found"@)
    } else if valid < fields(chars).len() / 2 {
        Some("Too many invalid numeric values"@)
    } else {
        None
    }
}

/// How many more `open` than `close` characters a text holds.
pub open spec fn depth(s: Seq<char>, open: char, close: char) -> int
    decreases s.len(),
{
    if s.len() == 0 {
        0
    } else {
        depth(s.drop_last(), open, close) + if s.last() == open {
            1int
        } else if s.last() == close {
            -1int
        } else {
            0int
        }
    }
}

/// Whether no part of the text from its start closes more than was opened.
pub open spec fn never_closes_early(s: Seq<char>, open: char, close: char) -> bool {
    forall|i: int| 0 <= i <= s.len() ==> depth(#[trigger] s.take(i), open, close) >= 0
}

/// Whether braces and brackets are balanced, each kind counted by itself and
/// wherever they stand.
pub open spec fn balanced(s: Seq<char>) -> bool {
    &&& never_closes_early(s, '{', '}')
    &&& never_closes_early(s, '[', ']')
    &&& depth(s, '{', '}') == 0
    &&& depth(s, '[', ']') == 0
}

/// What is wrong with a JSON input, if anything: it does not start with a
/// brace or a bracket once trimmed, or its braces or brackets are not
/// balanced.
pub open spec fn json_fault(chars: Seq<char>) -> Option<Seq<char>> {
    let inner = trimmed(chars);
    if !(inner.len() > 0 && (inner[0] == '{' || inner[0] == '[')) {
        Some("Invalid JSON format"@)
    } else if !balanced(chars) {
        Some("Unbalanced JSON structure"@)
    } else {
        None
    }
}

/// What is wrong with an input of the given kind, if anything. The checks
/// are made in this order: threat patterns, length, null characters, and then
/// what the kind asks for. Kinds other than `text`, `data` and `json` ask for
/// nothing more. With validation switched off nothing is wrong.
pub open spec fn input_fault(config: SecurityConfig, chars: Seq<char>, bytes: nat, kind: Seq<char>) -> Option<
    Seq<char>,
> {
    if !config.enable_input_validation {
        None
    } else if is_threat(chars) {
        Some("Invalid input detected in "@ + kind)
    } else if bytes > config.max_request_size_bytes {
        Some("Input size exceeds maximum allowed size"@)
    } else if chars.contains('\0') {
        Some("Input contains null bytes"@)
    } else if kind == "text"@ {
        text_fault(chars, bytes)
    } else if kind == "data"@ {
        data_fault(chars)
    } else if kind == "json"@ {
        json_fault(chars)
    } else {
        None
    }
}

/// The event that is recorded when an input matches a threat pattern.
pub open spec fn threat_event(chars: Seq<char>, kind: Seq<char>, now: u64) -> EventView {
    EventView {
        timestamp: now,
        event_type: "THREAT_DETECTED"@,
        source_ip: None,
        user_id: None,
        details: "Threat pattern detected in "@ + kind + ": "@ + chars,
        severity: SecuritySeverity::HIGH,
    }
}

/// Checks a text input.
pub fn validate_text_input(input: &str) -> (verdict: Result<(), String>)
    ensures
        match verdict {
            Ok(_) => text_fault(input@, input.spec_bytes().len()) is None,
            Err(message) => text_fault(input@, input.spec_bytes().len()) == Some(message@),
        },
{
    let chars = chars_of(input);
    let mut white: usize = 0;
    let mut i: usize = 0;
    while i < chars.len()
        invariant
            i <= chars@.len(),
            white == whitespace_count(chars@.take(i as int)),
            white <= i,
        decreases chars@.len() - i,
    {
        proof {
            assert(chars@.take(i + 1).drop_last() =~= chars@.take(i as int));
        }
        if char_is_whitespace(chars[i]) {
            white = white + 1;
        }
        i = i + 1;
    }
    assert(chars@.take(i as int) =~= chars@);
    if white > input.as_bytes().len() / 2 {
        return Err("Input contains excessive whitespace".to_owned());
    }
    let mut run: usize = 0;
    let mut i: usize = 0;
    while i < chars.len()
        invariant
            i <= chars@.len(),
            i > 0 ==> run == repeats(chars@, i - 1),
            i == 0 ==> run == 0,
            run <= MAX_REPEATS,
            forall|j: int| 0 <= j < i ==> #[trigger] repeats(chars@, j) <= MAX_REPEATS,
            chars@ == input@,
            text_fault(input@, input.spec_bytes().len()) == (if has_long_run(input@) {
                Some("Input contains excessive repeated characters"@)
            } else {
                None
            }),
        decreases chars@.len() - i,
    {
        if i > 0 && chars[i] == chars[i - 1] {
            run = run + 1;
            if run > MAX_REPEATS {
                assert(repeats(chars@, i as int) > MAX_REPEATS);
                return Err("Input contains excessive repeated characters".to_owned());
            }
        } else {
            run = 0;
        }
        i = i + 1;
    }
    Ok(())
}

/// Checks an input of numeric data.
pub fn validate_data_input(input: &str) -> (verdict: Result<(), String>)
    ensures
        match verdict {
            Ok(_) => data_fault(input@) is None,
            Err(message) => data_fault(input@) == Some(message@),
        },
{
    let chars = chars_of(input);
    let parts = split_fields(chars.as_slice());
    let mut valid: usize = 0;
    let mut i: usize = 0;
    while i < parts.len()
        invariant
            i <= parts@.len(),
            valid <= i,
            valid == numeric_count(views(parts@).take(i as int)),
        decreases parts@.len() - i,
    {
        proof {
            assert(views(parts@).take(i + 1).drop_last() =~= views(parts@).take(i as int));
        }
        let inner = trim(parts[i].as_slice());
        if is_numeric(inner.as_slice()) {
            valid = valid + 1;
        }
        i = i + 1;
    }
    assert(views(parts@).take(i as int) =~= views(parts@));
    if valid == 0 {
        Err("No valid numeric data found".to_owned())
    } else if valid < parts.len() / 2 {
        Err("Too many invalid numeric values".to_owned())
    } else {
        Ok(())
    }
}

/// Checks a JSON input.
pub fn validate_json_input(input: &str) -> (verdict: Result<(), String>)
    ensures
        match verdict {
            Ok(_) => json_fault(input@) is None,
            Err(message) => json_fault(input@) == Some(message@),
        },
{
    let chars = chars_of(input);
    let bounds = trim_bounds(chars.as_slice());
    if bounds.0 >= bounds.1 {
        assert(trimmed(chars@).len() == 0);
        return Err("Invalid JSON format".to_owned());
    }
    let first = chars[bounds.0];
    assert(trimmed(chars@)[0] == first);
    if first != '{' && first != '[' {
        return Err("Invalid JSON format".to_owned());
    }
    let mut braces: usize = 0;
    let mut brackets: usize = 0;
    let mut i: usize = 0;
    while i < chars.len()
        invariant
            i <= chars@.len(),
            braces == depth(chars@.take(i as int), '{', '}'),
            brackets == depth(chars@.take(i as int), '[', ']'),
            braces <= i,
            brackets <= i,
            chars@ == input@,
            json_fault(input@) == (if balanced(input@) {
                None
            } else {
                Some("Unbalanced JSON structure"@)
            }),
            forall|j: int| 0 <= j <= i ==> depth(#[trigger] chars@.take(j), '{', '}') >= 0,
            forall|j: int| 0 <= j <= i ==> depth(#[trigger] chars@.take(j), '[', ']') >= 0,
        decreases chars@.len() - i,
    {
        let c = chars[i];
        proof {
            assert(chars@.take(i + 1).drop_last() =~= chars@.take(i as int));
            assert(chars@.take(i + 1).last() == c);
        }
        if c == '{' {
            braces = braces + 1;
        } else if c == '}' {
            if braces == 0 {
                assert(depth(chars@.take(i + 1), '{', '}') < 0);
                return Err("Unbalanced JSON structure".to_owned());
            }
            braces = braces - 1;
        } else if c == '[' {
            brackets = brackets + 1;
        } else if c == ']' {
            if brackets == 0 {
                assert(depth(chars@.take(i + 1), '[', ']') < 0);
                return Err("Unbalanced JSON structure".to_owned());
            }
            brackets = brackets - 1;
        }
        i = i + 1;
    }
    assert(chars@.take(i as int) =~= chars@);
    if braces != 0 || brackets != 0 {
        Err("Unbalanced JSON structure".to_owned())
    } else {
        Ok(())
    }
}

impl SecurityManager {
    /// Whether one of the threat patterns matches the input.
    fn detect_threat(&self, input: &str) -> (threat: bool)
        requires
            self.well_formed(),
        ensures
            threat == is_threat(input@),
    {
        let mut i: usize = 0;
        while i < self.threat_patterns.len()
            invariant
                i <= self.threat_patterns@.len(),
                string_views(self.threat_patterns@) == threat_patterns(),
                forall|j: int| 0 <= j < i ==> regex_search(#[trigger] threat_patterns()[j], input@) != Some(true),
            decreases self.threat_patterns@.len() - i,
        {
            assert(string_views(self.threat_patterns@)[i as int] == self.threat_patterns@[i as int]@);
            match search(self.threat_patterns[i].as_str(), input) {
                Some(true) => {
                    return true;
                },
                _ => {},
            }
            i = i + 1;
        }
        assert(string_views(self.threat_patterns@).len() == self.threat_patterns@.len());
        false
    }

    /// What checking an input at `now` makes of a manager and what the check
    /// returns: the fault that `input_fault` finds, as an error, and `Ok`
    /// where it finds none. An input that matches a threat pattern is
    /// recorded; nothing else changes.
    pub open spec fn validated(
        pre: &Self,
        chars: Seq<char>,
        bytes: nat,
        kind: Seq<char>,
        now: u64,
        post: &Self,
        verdict: Result<(), String>,
    ) -> bool {
        &&& post.rate_limits() == pre.rate_limits()
        &&& post.blocked() == pre.blocked()
        &&& post.blocked_order() == pre.blocked_order()
        &&& post.config() == pre.config()
        &&& post.events() == (if pre.config().enable_input_validation && is_threat(chars) {
            appended(pre.events(), threat_event(chars, kind, now), MAX_EVENTS as nat)
        } else {
            pre.events()
        })
        &&& match verdict {
            Ok(_) => input_fault(pre.config(), chars, bytes, kind) is None,
            Err(message) => input_fault(pre.config(), chars, bytes, kind) == Some(message@),
        }
    }

    /// Checks an input of the kind `input_type` at the time `now`.
    pub fn validate_input_at(&mut self, input: &str, input_type: &str, now: u64) -> (verdict: Result<(), String>)
        requires
            old(self).well_formed(),
        ensures
            final(self).well_formed(),
            Self::validated(old(self), input@, input.spec_bytes().len(), input_type@, now, final(self), verdict),
    {
        if !self.config.enable_input_validation {
            return Ok(());
        }
        if self.detect_threat(input) {
            let details = "Threat pattern detected in ".to_owned().concat(input_type).concat(": ").concat(input);
            self.push_event(
                SecurityEvent {
                    timestamp: now,
                    event_type: "THREAT_DETECTED".to_owned(),
                    source_ip: None,
                    user_id: None,
                    details,
                    severity: SecuritySeverity::HIGH,
                },
            );
            return Err("Invalid input detected in ".to_owned().concat(input_type));
        }
        if input.as_bytes().len() > self.config.max_request_size_bytes {
            return Err("Input size exceeds maximum allowed size".to_owned());
        }
        if has_null(input) {
            return Err("Input contains null bytes".to_owned());
        }
        if same_text(input_type, "text") {
            validate_text_input(input)
        } else if same_text(input_type, "data") {
            validate_data_input(input)
        } else if same_text(input_type, "json") {
            validate_json_input(input)
        } else {
            Ok(())
        }
    }

    /// Checks an input of the kind `input_type` at the time that the
    /// manager's clock shows.
    pub fn validate_input(&mut self, input: &str, input_type: &str) -> (verdict: Result<(), String>)
        requires
            old(self).well_formed(),
        ensures
            final(self).well_formed(),
            exists|now: u64| #[trigger]
                Self::validated(
                    old(self),
                    input@,
                    input.spec_bytes().len(),
                    input_type@,
                    now,
                    final(self),
                    verdict,
                ),
    {
        let now = self.clock();
        self.validate_input_at(input, input_type, now)
    }
}

/// Whether the text holds a null character.
fn has_null(input: &str) -> (found: bool)
    ensures
        found == input@.contains('\0'),
{
    let chars = chars_of(input);
    let mut i: usize = 0;
    while i < chars.len()
        invariant
            i <= chars@.len(),
            chars@ == input@,
            forall|j: int| 0 <= j < i ==> chars@[j] != '\0',
        decreases chars@.len() - i,
    {
        if chars[i] == '\0' {
            assert(input@[i as int] == '\0');
            return true;
        }
        i = i + 1;
    }
    false
}

impl Default for SecurityConfig {
    /// A hundred requests a minute, inputs up to one mebibyte, every check
    /// switched on, no address blocked, every origin allowed, and a thousand
    /// connections at once.
    fn default() -> (config: Self)
        ensures
            config.max_requests_per_minute == 100,
            config.max_request_size_bytes == 1024 * 1024,
            config.enable_input_validation,
            config.enable_threat_detection,
            config.blocked_ips@.len() == 0,
            string_views(config.allowed_origins@) == seq!["*"@],
            config.max_concurrent_connections == 1000,
    {
        let mut origins: Vec<String> = Vec::new();
        origins.push("*".to_owned());
        assert(string_views(origins@) =~= seq!["*"@]);
        SecurityConfig {
            max_requests_per_minute: 100,
            max_request_size_bytes: 1024 * 1024,
            enable_input_validation: true,
            enable_threat_detection: true,
            blocked_ips: Vec::new(),
            allowed_origins: origins,
            max_concurrent_connections: 1000,
        }
    }
}

/// Decides on a request of the caller `identifier`.
pub fn check_rate_limit(manager: &mut SecurityManager, identifier: &str) -> (allowed: bool)
    requires
        old(manager).well_formed(),
    ensures
        final(manager).well_formed(),
        exists|now: u64| #[trigger]
            SecurityManager::rate_checked(old(manager), identifier@, now, final(manager), allowed),
{
    manager.check_rate_limit(identifier)
}

/// Checks an input of the kind `input_type`.
pub fn validate_input(manager: &mut SecurityManager, input: &str, input_type: &str) -> (verdict: Result<
    (),
    String,
>)
    requires
        old(manager).well_formed(),
    ensures
        final(manager).well_formed(),
        exists|now: u64| #[trigger]
            SecurityManager::validated(
                old(manager),
                input@,
                input.spec_bytes().len(),
                input_type@,
                now,
                final(manager),
                verdict,
            ),
{
    manager.validate_input(input, input_type)
}

/// Whether `ip` is blocked.
pub fn is_ip_blocked(manager: &mut SecurityManager, ip: &str) -> (blocked: bool)
    requires
        old(manager).well_formed(),
    ensures
        final(manager).well_formed(),
        exists|now: u64| #[trigger] SecurityManager::block_checked(old(manager), ip@, now, final(manager), blocked),
{
    manager.is_ip_blocked(ip)
}

/// Blocks `ip` for `duration_seconds` seconds.
pub fn block_ip(manager: &mut SecurityManager, ip: &str, duration_seconds: u64)
    requires
        old(manager).well_formed(),
    ensures
        final(manager).well_formed(),
        exists|now: u64| #[trigger]
            SecurityManager::ip_blocked(old(manager), ip@, duration_seconds, now, final(manager)),
{
    manager.block_ip(ip, duration_seconds)
}

/// Records an event.
pub fn record_security_event(
    manager: &mut SecurityManager,
    event_type: &str,
    source_ip: Option<String>,
    user_id: Option<String>,
    details: String,
    severity: SecuritySeverity,
)
    requires
        old(manager).well_formed(),
    ensures
        final(manager).well_formed(),
        exists|now: u64| #[trigger]
            SecurityManager::recorded(
                old(manager),
                (EventView {
                    timestamp: now,
                    event_type: event_type@,
                    source_ip: text_view(source_ip),
                    user_id: text_view(user_id),
                    details: details@,
                    severity,
                }),
                final(manager),
            ),
{
    manager.record_security_event(event_type, source_ip, user_id, details, severity)
}

/// The newest `limit` events whose severity is at most `severity`, the
/// newest first.
pub fn get_security_events(manager: &SecurityManager, severity: Option<SecuritySeverity>, limit: usize) -> (found:
    Vec<SecurityEvent>)
    ensures
        event_views(found@) == newest(
            manager.events(),
            |event: EventView| within(severity, event.severity),
            limit as nat,
        ),
{
    manager.get_security_events(severity, limit)
}

/// What the rate limiter knows of a caller.
pub fn get_rate_limit_info(manager: &SecurityManager, identifier: &str) -> (info: Option<RateLimitInfo>)
    requires
        manager.well_formed(),
    ensures
        info == (if manager.rate_limits().contains_key(identifier@) {
            Some(manager.rate_limits()[identifier@])
        } else {
            None
        }),
{
    manager.get_rate_limit_info(identifier)
}

/// The addresses that are listed as blocked.
pub fn get_blocked_ips(manager: &SecurityManager) -> (ips: Vec<String>)
    requires
        manager.well_formed(),
    ensures
        string_views(ips@) == manager.blocked_order(),
        ips@.len() == manager.blocked().len(),
{
    manager.get_blocked_ips()
}

/// A text without its control characters.
pub open spec fn sanitized(s: Seq<char>) -> Seq<char>
    decreases s.len(),
{
    if s.len() == 0 {
        Seq::empty()
    } else if s.last() != '\0' && !is_control(s.last()) {
        sanitized(s.drop_last()).push(s.last())
    } else {
        sanitized(s.drop_last())
    }
}

/// Removes the null characters and the other control characters from a
/// text.
pub fn sanitize_input(input: &str) -> (clean: String)
    ensures
        clean@ == sanitized(input@),
{
    let chars = chars_of(input);
    let mut clean = String::new();
    let mut i: usize = 0;
    while i < chars.len()
        invariant
            i <= chars@.len(),
            clean@ == sanitized(chars@.take(i as int)),
        decreases chars@.len() - i,
    {
        let c = chars[i];
        proof {
            assert(chars@.take(i + 1).drop_last() =~= chars@.take(i as int));
        }
        if c != '\0' && !char_is_control(c) {
            string_push(&mut clean, c);
        }
        i = i + 1;
    }
    assert(chars@.take(i as int) =~= chars@);
    clean
}

/// The request identifier for a number: `req_` and the number in lower-case
/// hexadecimal.
pub fn request_id_for(id: u64) -> (text: String)
    ensures
        text@ == "req_"@ + lower_hex(id as nat),
{
    let mut text = "req_".to_owned();
    push_lower_hex(&mut text, id);
    text
}

/// A request identifier for a random number.
pub fn generate_request_id() -> (text: String)
    ensures
        exists|id: u64| text@ == "req_"@ + #[trigger] lower_hex(id as nat),
{
    request_id_for(random_u64())
}

} // verus!
