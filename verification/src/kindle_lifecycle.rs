use vstd::prelude::*;
use crate::text::{
    chars_of, contains, contains_str, copy_str, eq_str, push_str, string_of, trim, trim_bounds,
};

verus! {

/// The root Upstart job that owns the X server and window manager;
/// stopping it takes the Kindle UI down with it.
pub const KINDLE_X_SERVICE: &'static str = "x";

/// The framework job, which `start x` alone does not bring back.
pub const KINDLE_GUI_SERVICE: &'static str = "lab126_gui";

/// How the runtime takes the framebuffer over from the Kindle UI. Timeouts
/// are held in milliseconds and seconds.
#[derive(Clone, Debug)]
pub struct LifecycleConfig {
    pub enabled: bool,
    pub marker: String,
    /// The service stopped for the framebuffer takeover.
    pub service: String,
    pub stop_timeout_ms: u64,
    pub watchdog_timeout_s: u64,
}

impl LifecycleConfig {
    /// The lifecycle settings of a configuration; the watchdog timeout is at
    /// least one second.
    pub fn from_config(c: &crate::config::LifecycleConfig) -> (r: Self)
        ensures
            r.enabled == c.enabled,
            r.marker@ == c.marker@,
            r.service@ == c.service@,
            r.stop_timeout_ms == c.stop_timeout_ms,
            r.watchdog_timeout_s == if c.watchdog_timeout_s == 0 { 1 } else { c.watchdog_timeout_s },
    {
        LifecycleConfig {
            enabled: c.enabled,
            marker: copy_str(c.marker.as_str()),
            service: copy_str(c.service.as_str()),
            stop_timeout_ms: c.stop_timeout_ms,
            watchdog_timeout_s: if c.watchdog_timeout_s == 0 { 1 } else { c.watchdog_timeout_s },
        }
    }
}

/// The session marker that a running instance keeps on disk, so that a
/// watchdog (or the next start) can bring the Kindle UI back.
#[derive(Clone, Debug)]
pub struct SessionMarker {
    pub pid: u32,
    pub service: String,
    pub started_at: u64,
    pub heartbeat_at: u64,
    pub watchdog_timeout_s: u64,
}

/// A fresh marker written at `now`: it keeps the start time of an existing
/// marker, and its watchdog timeout is at least one second.
pub fn new_marker(
    pid: u32,
    service: &str,
    existing_started_at: Option<u64>,
    now: u64,
    watchdog_timeout_s: u64,
) -> (m: SessionMarker)
    ensures
        m.pid == pid,
        m.service@ == service@,
        m.started_at == match existing_started_at {
            Some(t) => t,
            None => now,
        },
        m.heartbeat_at == now,
        m.watchdog_timeout_s == if watchdog_timeout_s == 0 { 1 } else { watchdog_timeout_s },
{
    SessionMarker {
        pid,
        service: copy_str(service),
        started_at: match existing_started_at {
            Some(t) => t,
            None => now,
        },
        heartbeat_at: now,
        watchdog_timeout_s: if watchdog_timeout_s == 0 { 1 } else { watchdog_timeout_s },
    }
}

/// Seconds between heartbeats: a third of the watchdog timeout, at least
/// one.
pub fn heartbeat_interval_s(watchdog_timeout_s: u64) -> (r: u64)
    ensures
        r == if watchdog_timeout_s / 3 == 0 { 1 } else { watchdog_timeout_s / 3 },
        r >= 1,
{
    let third = watchdog_timeout_s / 3;
    if third == 0 {
        1
    } else {
        third
    }
}

/// Whether a marker belongs to no live instance: unreadable, its heartbeat
/// older than its watchdog timeout (at least one second), or its process
/// gone.
pub open spec fn marker_stale(marker: Option<SessionMarker>, now: u64, process_alive: bool) -> bool {
    match marker {
        None => true,
        Some(m) => {
            let age: int = if now >= m.heartbeat_at { now - m.heartbeat_at } else { 0 };
            let timeout: int = if m.watchdog_timeout_s == 0 { 1 } else { m.watchdog_timeout_s as int };
            age > timeout || !process_alive
        },
    }
}

/// Whether the marker that was read (`None` when it could not be parsed)
/// is stale at `now`; `process_alive` says whether its process exists.
pub fn marker_is_stale(marker: &Option<SessionMarker>, now: u64, process_alive: bool) -> (r: bool)
    ensures
        r == marker_stale(*marker, now, process_alive),
{
    match marker {
        None => true,
        Some(m) => {
            let age = now.saturating_sub(m.heartbeat_at);
            let timeout = if m.watchdog_timeout_s == 0 { 1 } else { m.watchdog_timeout_s };
            age > timeout || !process_alive
        },
    }
}

/// What to do with a marker found at start-up: nothing when there is none;
/// refuse to start while it belongs to a live instance and the lifecycle is
/// enabled; else bring the Kindle UI back and remove it (`Ok(true)`).
pub fn stale_marker_plan(
    marker_path: &str,
    marker_exists: bool,
    marker: &Option<SessionMarker>,
    now: u64,
    process_alive: bool,
    enabled: bool,
) -> (r: Result<bool, String>)
    ensures
        !marker_exists ==> r == Ok::<bool, String>(false),
        marker_exists && !marker_stale(*marker, now, process_alive) && enabled ==> (r matches Err(
            e,
        ) && e@ == "active PED lifecycle marker already present at "@ + marker_path@),
        marker_exists && (marker_stale(*marker, now, process_alive) || !enabled) ==> r == Ok::<
            bool,
            String,
        >(true),
{
    if !marker_exists {
        return Ok(false);
    }
    let stale = marker_is_stale(marker, now, process_alive);
    if !stale && enabled {
        let mut msg: Vec<char> = Vec::new();
        push_str(&mut msg, "active PED lifecycle marker already present at ");
        push_str(&mut msg, marker_path);
        return Err(string_of(&msg));
    }
    Ok(true)
}

/// Why the framebuffer cannot be taken over, if it cannot: no framebuffer
/// device, or no service name.
pub fn environment_error(framebuffer_exists: bool, service: &str) -> (r: Option<String>)
    ensures
        !framebuffer_exists ==> (r matches Some(e) && e@
            == "Kindle framebuffer /dev/fb0 is unavailable"@),
        framebuffer_exists && trim(service@).len() == 0 ==> (r matches Some(e) && e@
            == "Kindle UI service name is empty"@),
        framebuffer_exists && trim(service@).len() > 0 ==> r is None,
{
    if !framebuffer_exists {
        return Some(copy_str("Kindle framebuffer /dev/fb0 is unavailable"));
    }
    let cs = chars_of(service);
    let (a, b) = trim_bounds(&cs);
    if a == b {
        return Some(copy_str("Kindle UI service name is empty"));
    }
    None
}

/// The outcome of `/sbin/ACTION SERVICE`: success; a start of a running
/// job or a stop of a stopped one also counts as success; else the error,
/// with the command's trimmed output when it printed any.
pub open spec fn service_command_result(
    action: Seq<char>,
    service: Seq<char>,
    success: bool,
    stdout: Seq<char>,
    stderr: Seq<char>,
    status: Seq<char>,
) -> Result<(), Seq<char>> {
    if success {
        Ok(())
    } else {
        let detail = trim(stdout + stderr);
        if action == "start"@ && contains(detail, "already running"@) {
            Ok(())
        } else if action == "stop"@ && (contains(detail, "Unknown instance"@) || contains(
            detail,
            "already been stopped"@,
        )) {
            Ok(())
        } else if detail.len() == 0 {
            Err("/sbin/"@ + action + " "@ + service + " failed with "@ + status)
        } else {
            Err("/sbin/"@ + action + " "@ + service + " failed with "@ + status + ": "@ + detail)
        }
    }
}

/// Interprets what `/sbin/ACTION SERVICE` printed and how it exited
/// (`status` is the exit status as text).
pub fn service_command_outcome(
    action: &str,
    service: &str,
    success: bool,
    stdout: &str,
    stderr: &str,
    status: &str,
) -> (r: Result<(), String>)
    ensures
        match service_command_result(action@, service@, success, stdout@, stderr@, status@) {
            Ok(()) => r is Ok,
            Err(e) => r matches Err(x) && x@ == e,
        },
{
    if success {
        return Ok(());
    }
    let mut both: Vec<char> = Vec::new();
    push_str(&mut both, stdout);
    push_str(&mut both, stderr);
    let (a, b) = trim_bounds(&both);
    let detail = crate::text::slice_chars(&both, a, b);
    let act = chars_of(action);
    if eq_str(&act, "start") && contains_str(&detail, "already running") {
        return Ok(());
    }
    if eq_str(&act, "stop") && (contains_str(&detail, "Unknown instance") || contains_str(
        &detail,
        "already been stopped",
    )) {
        return Ok(());
    }
    let mut msg: Vec<char> = Vec::new();
    push_str(&mut msg, "/sbin/");
    push_str(&mut msg, action);
    push_str(&mut msg, " ");
    push_str(&mut msg, service);
    push_str(&mut msg, " failed with ");
    push_str(&mut msg, status);
    if detail.len() > 0 {
        push_str(&mut msg, ": ");
        crate::text::push_chars(&mut msg, &detail);
    }
    Err(string_of(&msg))
}

/// Whether `/sbin/status SERVICE` printed that the job is running.
pub fn status_says_running(stdout: &str) -> (r: bool)
    ensures
        r == contains(stdout@, "start/running"@),
{
    let cs = chars_of(stdout);
    contains_str(&cs, "start/running")
}

/// Whether the `frameworkStarted` property query says the framework is up:
/// it succeeded and printed `1`.
pub fn framework_started(success: bool, stdout: &str) -> (r: bool)
    ensures
        r == (success && trim(stdout@) == "1"@),
{
    if !success {
        return false;
    }
    let cs = chars_of(stdout);
    let (a, b) = trim_bounds(&cs);
    let t = crate::text::slice_chars(&cs, a, b);
    eq_str(&t, "1")
}

/// A reading of the clock in whole seconds since the Unix epoch, or zero
/// for a clock that reads before it (`None`).
pub fn seconds_or_zero(secs: Option<u64>) -> (r: u64)
    ensures
        r == match secs {
            Some(s) => s,
            None => 0,
        },
{
    match secs {
        Some(s) => s,
        None => 0,
    }
}

/// The current time in whole seconds since the Unix epoch, or zero when the
/// clock is before it: `seconds_or_zero` of the clock's reading. The clock
/// is read outside the proof, and any value is a possible reading.
pub fn unix_now() -> (r: u64) {
    seconds_or_zero(crate::wrappers::secs_since_epoch())
}

} // verus!

verus! {

/// A marker whose heartbeat is older than its watchdog timeout, or whose
/// process is gone, is stale; a fresh heartbeat from a live process is not.
pub proof fn lemma_staleness(m: SessionMarker, now: u64, process_alive: bool)
    ensures
        !process_alive ==> marker_stale(Some(m), now, process_alive),
        now >= m.heartbeat_at && now - m.heartbeat_at > (if m.watchdog_timeout_s == 0 {
            1
        } else {
            m.watchdog_timeout_s as int
        }) ==> marker_stale(Some(m), now, process_alive),
        process_alive && now <= m.heartbeat_at ==> !marker_stale(Some(m), now, process_alive),
        marker_stale(None, now, process_alive),
{
}

/// Heartbeats come at least three times per watchdog period once the
/// period is three seconds or more, and never more often than once a
/// second.
pub proof fn lemma_heartbeat_often_enough(watchdog_timeout_s: u64)
    ensures
        ({
            let r: int = if watchdog_timeout_s / 3 == 0 { 1 } else { (watchdog_timeout_s / 3) as int };
            &&& r >= 1
            &&& watchdog_timeout_s >= 3 ==> 3 * r <= watchdog_timeout_s
        }),
{
}

} // verus!

verus! {

/// The state an Upstart job is driven to.
#[derive(Clone, Copy, Debug, PartialEq, Eq, Structural)]
pub enum ServiceGoal {
    Stopped,
    Started,
}

/// What was observed while driving a job.
pub enum ServiceEvent {
    /// Whether the job was running before anything was done.
    Initial { running: bool },
    /// The outcome of the stop or start command; on failure, its message
    /// and whether the job has reached the goal anyway.
    Commanded { result: Result<(), (String, bool)> },
    /// Whether the job reached the goal before the timeout.
    Waited { reached: bool },
}

/// What to do next while driving a job.
pub enum ServiceAction {
    /// Run `/sbin/stop` or `/sbin/start` (see `command_name`).
    RunCommand,
    /// Wait, up to the timeout, for the job to reach the goal.
    WaitForGoal,
    /// Done.
    Finish(Result<(), String>),
}

/// The `/sbin` command that drives a job towards a goal.
pub fn command_name(goal: ServiceGoal) -> (r: &'static str)
    ensures
        r@ == match goal {
            ServiceGoal::Stopped => "stop"@,
            ServiceGoal::Started => "start"@,
        },
{
    match goal {
        ServiceGoal::Stopped => "stop",
        ServiceGoal::Started => "start",
    }
}

/// Whether a job that is (or is not) running has reached the goal.
pub open spec fn at_goal(goal: ServiceGoal, running: bool) -> bool {
    match goal {
        ServiceGoal::Stopped => !running,
        ServiceGoal::Started => running,
    }
}

/// The error when a job does not reach the goal in time.
pub open spec fn timeout_message(goal: ServiceGoal, service: Seq<char>) -> Seq<char> {
    "Kindle UI service "@ + service + match goal {
        ServiceGoal::Stopped => " did not stop before timeout"@,
        ServiceGoal::Started => " did not restart before timeout"@,
    }
}

/// Drives a job towards a goal: nothing to do when it is there already;
/// else run the command, where a failure counts only while the job has not
/// reached the goal anyway (a stop of a stopped job, a start of a running
/// one); then wait for the goal, and fail when the wait times out.
pub fn drive_service(goal: ServiceGoal, service: &str, event: ServiceEvent) -> (a: ServiceAction)
    ensures
        match event {
            ServiceEvent::Initial { running } => if at_goal(goal, running) {
                a matches ServiceAction::Finish(Ok(()))
            } else {
                a is RunCommand
            },
            ServiceEvent::Commanded { result } => match result {
                Ok(()) => a is WaitForGoal,
                Err((m, reached)) => if reached {
                    a is WaitForGoal
                } else {
                    a matches ServiceAction::Finish(Err(e)) && e@ == m@
                },
            },
            ServiceEvent::Waited { reached } => if reached {
                a matches ServiceAction::Finish(Ok(()))
            } else {
                a matches ServiceAction::Finish(Err(e)) && e@ == timeout_message(goal, service@)
            },
        },
{
    match event {
        ServiceEvent::Initial { running } => {
            let there = match goal {
                ServiceGoal::Stopped => !running,
                ServiceGoal::Started => running,
            };
            if there {
                ServiceAction::Finish(Ok(()))
            } else {
                ServiceAction::RunCommand
            }
        },
        ServiceEvent::Commanded { result } => match result {
            Ok(()) => ServiceAction::WaitForGoal,
            Err((message, reached)) => if reached {
                ServiceAction::WaitForGoal
            } else {
                ServiceAction::Finish(Err(message))
            },
        },
        ServiceEvent::Waited { reached } => {
            if reached {
                return ServiceAction::Finish(Ok(()));
            }
            let mut msg: Vec<char> = Vec::new();
            push_str(&mut msg, "Kindle UI service ");
            push_str(&mut msg, service);
            match goal {
                ServiceGoal::Stopped => push_str(&mut msg, " did not stop before timeout"),
                ServiceGoal::Started => push_str(&mut msg, " did not restart before timeout"),
            }
            ServiceAction::Finish(Err(string_of(&msg)))
        },
    }
}

/// How long to wait for the framework after the UI jobs were started:
/// four times the stop timeout, at least 90 seconds.
pub fn framework_wait_ms(stop_timeout_ms: u64) -> (r: u64)
    ensures
        r == if (if stop_timeout_ms * 4 > u64::MAX { u64::MAX as int } else { stop_timeout_ms
            * 4 }) < 90_000 {
            90_000
        } else if stop_timeout_ms * 4 > u64::MAX {
            u64::MAX as int
        } else {
            stop_timeout_ms * 4
        },
{
    let scaled: u64 = if stop_timeout_ms > u64::MAX / 4 {
        u64::MAX
    } else {
        stop_timeout_ms * 4
    };
    if scaled < 90_000 {
        90_000
    } else {
        scaled
    }
}

} // verus!

verus! {

/// Whether a job that is (or is not) running has reached the goal.
pub fn is_at_goal(goal: ServiceGoal, running: bool) -> (r: bool)
    ensures
        r == at_goal(goal, running),
{
    match goal {
        ServiceGoal::Stopped => !running,
        ServiceGoal::Started => running,
    }
}

} // verus!
