use vstd::prelude::*;
use crate::config::{
    is_applied_report, is_restart_report, reload_needs_restart, reloaded, url_allowed, Config,
    ReloadReport,
};
use crate::control::Request;
use crate::display::{waveform_named, Scheduler, Waveform};
use crate::runtime::{flags_of, RuntimeFlags, State};
use crate::text::{chars_of, copy_str, eq_str, push_str, string_of, strings_view};
use crate::url_parts::{opt_chars, url_parse_result, UrlParts, UrlView};
use crate::wrappers::{json_string, json_string_text};

verus! {

/// What the runtime does with one control request.
#[derive(Debug)]
pub enum CommandPlan {
    /// Reply with the runtime status.
    Status,
    /// Navigate the page to this URL and reply that it was accepted.
    Open { url: String },
    /// A new frame was requested: reply with the scheduler's sequence and
    /// the force flag.
    Refresh { sequence: u64, force: bool },
    /// Reload the configuration from this file.
    Reload { path: String },
    /// The configuration was reloaded: reply with the report and the
    /// scheduler's pacing.
    Reloaded { report: ReloadReport },
    /// Evaluate this script in the page and reply with its value.
    Evaluate { script: String },
    /// Run this event-dispatching script in the page and reply that it was
    /// accepted once it ran.
    Emit { script: String },
    /// Shut the runtime down and reply that it was accepted.
    Stop,
    /// Reply with this error.
    Fail { code: &'static str, message: String },
}

/// A command plan as values.
pub enum PlanView {
    Status,
    Open(Seq<char>),
    Refresh(u64, bool),
    Reload(Seq<char>),
    Reloaded(bool, bool, Seq<Seq<char>>),
    Evaluate(Seq<char>),
    Emit(Seq<char>),
    Stop,
    Fail(Seq<char>, Seq<char>),
}

pub open spec fn plan_view(p: CommandPlan) -> PlanView {
    match p {
        CommandPlan::Status => PlanView::Status,
        CommandPlan::Open { url } => PlanView::Open(url@),
        CommandPlan::Refresh { sequence, force } => PlanView::Refresh(sequence, force),
        CommandPlan::Reload { path } => PlanView::Reload(path@),
        CommandPlan::Reloaded { report } => PlanView::Reloaded(
            report.applied,
            report.restart_required,
            strings_view(report.messages@),
        ),
        CommandPlan::Evaluate { script } => PlanView::Evaluate(script@),
        CommandPlan::Emit { script } => PlanView::Emit(script@),
        CommandPlan::Stop => PlanView::Stop,
        CommandPlan::Fail { code, message } => PlanView::Fail(code@, message@),
    }
}

/// The length in bytes of the UTF-8 encoding of `s`, as `str::len` gives
/// it.
pub open spec fn byte_len(s: Seq<char>) -> usize {
    vstd::utf8::encode_utf8(s).len() as usize
}

/// The script that dispatches a `CustomEvent` of the given (JSON-encoded)
/// type with the given JSON detail.
pub open spec fn emit_script_text(type_json: Seq<char>, detail_json: Seq<char>) -> Seq<char> {
    "window.dispatchEvent(new CustomEvent("@ + type_json + ", {detail: "@ + detail_json
        + "}));"@
}

/// The plan for `emit` once the event type has been JSON-encoded: the
/// detail (JSON `null` when absent) may not exceed the configured size.
pub open spec fn emit_plan(
    encoded_type: Result<Seq<char>, Seq<char>>,
    detail: Option<Seq<char>>,
    max_event_detail_bytes: usize,
) -> PlanView {
    match encoded_type {
        Err(e) => PlanView::Fail("invalid_event_type"@, e),
        Ok(t) => {
            let d = match detail {
                Some(d) => d,
                None => "null"@,
            };
            if byte_len(d) > max_event_detail_bytes {
                PlanView::Fail(
                    "event_detail_too_large"@,
                    "event detail exceeds configured limit"@,
                )
            } else {
                PlanView::Emit(emit_script_text(t, d))
            }
        },
    }
}

/// The plan for `open`: the URL must parse and be allowed by the page
/// policy.
pub open spec fn open_plan(url: Option<Seq<char>>, config: Config, initial: UrlView) -> PlanView {
    match url {
        None => PlanView::Fail("invalid_url"@, "open requires a valid URL"@),
        Some(u) => match url_parse_result(u) {
            Err(_) => PlanView::Fail("invalid_url"@, "open requires a valid URL"@),
            Ok(v) => if url_allowed(strings_view(config.page.allowed_origins@), v, initial) {
                PlanView::Open(v.serialization)
            } else {
                PlanView::Fail("url_not_allowed"@, "URL is not in the configured allowlist"@)
            },
        },
    }
}

/// The plan for one control request, for a scheduler whose sequence is
/// `sequence`.
pub open spec fn command_plan(req: Request, config: Config, initial: UrlView, sequence: u64) -> PlanView {
    let m = req.method@;
    if m == "status"@ {
        PlanView::Status
    } else if m == "open"@ {
        open_plan(opt_chars(req.url), config, initial)
    } else if m == "refresh"@ {
        PlanView::Refresh(sequence, req.force)
    } else if m == "reload-config"@ {
        match config.source_path {
            Some(p) => PlanView::Reload(p@),
            None => PlanView::Fail(
                "reload_failed"@,
                "PED was started without a config file path"@,
            ),
        }
    } else if m == "eval"@ {
        match req.script {
            None => PlanView::Fail("missing_script"@, "eval requires script"@),
            Some(s) => if byte_len(s@) > config.control.max_script_bytes {
                PlanView::Fail("script_too_large"@, "script exceeds configured limit"@)
            } else {
                PlanView::Evaluate(s@)
            },
        }
    } else if m == "emit"@ {
        match req.event_type {
            None => PlanView::Fail("missing_event_type"@, "emit requires type"@),
            Some(t) => emit_plan(
                json_string_text(t@),
                opt_chars(req.detail),
                config.control.max_event_detail_bytes,
            ),
        }
    } else if m == "stop"@ {
        PlanView::Stop
    } else {
        PlanView::Fail("unknown_method"@, "unknown control method"@)
    }
}

/// The scheduler after a control request: a `refresh` requests a frame
/// (a full one when forced); nothing else touches it.
pub open spec fn scheduler_after_command(method: Seq<char>, force: bool, s: Scheduler) -> Scheduler {
    if method == "status"@ || method == "open"@ {
        s
    } else if method == "refresh"@ {
        s.spec_requested(force)
    } else {
        s
    }
}

/// The runtime state after a control request: `refresh` makes it running,
/// `stop` makes it stopping, nothing else changes it.
pub open spec fn state_after_command(method: Seq<char>, st: State) -> State {
    if method == "status"@ || method == "open"@ {
        st
    } else if method == "refresh"@ {
        State::Running
    } else if method == "reload-config"@ || method == "eval"@ || method == "emit"@ {
        st
    } else if method == "stop"@ {
        State::Stopping
    } else {
        st
    }
}

fn fail(code: &'static str, message: &str) -> (p: CommandPlan)
    ensures
        plan_view(p) == PlanView::Fail(code@, message@),
{
    CommandPlan::Fail { code, message: copy_str(message) }
}

/// The `emit` plan for an event type that was JSON-encoded to
/// `encoded_type`, with the request's JSON detail.
pub fn plan_emit(
    encoded_type: Result<String, String>,
    detail: &Option<String>,
    max_event_detail_bytes: usize,
) -> (p: CommandPlan)
    ensures
        plan_view(p) == emit_plan(
            match encoded_type {
                Ok(t) => Ok::<Seq<char>, Seq<char>>(t@),
                Err(e) => Err::<Seq<char>, Seq<char>>(e@),
            },
            opt_chars(*detail),
            max_event_detail_bytes,
        ),
{
    let event_type = match encoded_type {
        Ok(t) => t,
        Err(e) => return CommandPlan::Fail { code: "invalid_event_type", message: e },
    };
    let detail_json = match detail {
        Some(d) => copy_str(d.as_str()),
        None => copy_str("null"),
    };
    if detail_json.as_str().len() > max_event_detail_bytes {
        return fail("event_detail_too_large", "event detail exceeds configured limit");
    }
    let mut script: Vec<char> = Vec::new();
    push_str(&mut script, "window.dispatchEvent(new CustomEvent(");
    push_str(&mut script, event_type.as_str());
    push_str(&mut script, ", {detail: ");
    push_str(&mut script, detail_json.as_str());
    push_str(&mut script, "}));");
    CommandPlan::Emit { script: string_of(&script) }
}

fn plan_open(url: &Option<String>, config: &Config, initial_url: &UrlParts) -> (p: CommandPlan)
    ensures
        plan_view(p) == open_plan(opt_chars(*url), *config, initial_url@),
{
    let text = match url {
        Some(u) => u,
        None => return fail("invalid_url", "open requires a valid URL"),
    };
    match UrlParts::parse(text.as_str()) {
        Err(_) => fail("invalid_url", "open requires a valid URL"),
        Ok(parsed) => if config.is_url_allowed(&parsed, initial_url) {
            CommandPlan::Open { url: parsed.serialization }
        } else {
            fail("url_not_allowed", "URL is not in the configured allowlist")
        },
    }
}

/// Decides what to do with a control request. A `refresh` requests a frame
/// (a full one when forced) and puts the runtime back to running; `stop`
/// marks it stopping; nothing else changes the scheduler or the state.
pub fn plan_command(
    request: &Request,
    config: &Config,
    initial_url: &UrlParts,
    scheduler: &mut Scheduler,
    state: &mut State,
) -> (p: CommandPlan)
    ensures
        plan_view(p) == command_plan(*request, *config, initial_url@, old(scheduler).spec_sequence()),
        *final(scheduler) == scheduler_after_command(request.method@, request.force, *old(scheduler)),
        *final(state) == state_after_command(request.method@, *old(state)),
{
    let method = chars_of(request.method.as_str());
    if eq_str(&method, "status") {
        return CommandPlan::Status;
    }
    if eq_str(&method, "open") {
        return plan_open(&request.url, config, initial_url);
    }
    if eq_str(&method, "refresh") {
        scheduler.request(request.force);
        *state = State::Running;
        return CommandPlan::Refresh { sequence: scheduler.sequence(), force: request.force };
    }
    if eq_str(&method, "reload-config") {
        return match &config.source_path {
            Some(path) => CommandPlan::Reload { path: path.clone() },
            None => fail("reload_failed", "PED was started without a config file path"),
        };
    }
    if eq_str(&method, "eval") {
        return match &request.script {
            None => fail("missing_script", "eval requires script"),
            Some(script) => if script.as_str().len() > config.control.max_script_bytes {
                fail("script_too_large", "script exceeds configured limit")
            } else {
                CommandPlan::Evaluate { script: script.clone() }
            },
        };
    }
    if eq_str(&method, "emit") {
        return match &request.event_type {
            None => fail("missing_event_type", "emit requires type"),
            Some(event_type) => plan_emit(
                json_string(event_type),
                &request.detail,
                config.control.max_event_detail_bytes,
            ),
        };
    }
    if eq_str(&method, "stop") {
        *state = State::Stopping;
        return CommandPlan::Stop;
    }
    fail("unknown_method", "unknown control method")
}

/// Applies a configuration that was loaded for a reload. When the reload
/// is applied, the scheduler takes the new pacing, and the waveform and
/// display flags follow the new display settings; a waveform that does not
/// parse is reported as an error (after the configuration was updated, as
/// the reload itself went through).
pub fn reload_config(
    config: &mut Config,
    scheduler: &mut Scheduler,
    flags: &mut RuntimeFlags,
    waveform: &mut Waveform,
    next: Result<Config, String>,
) -> (r: Result<ReloadReport, String>)
    ensures
        match next {
            Err(e) => {
                &&& r matches Err(x) && x@ == e@
                &&& *final(config) == *old(config)
                &&& *final(scheduler) == *old(scheduler)
                &&& *final(flags) == *old(flags)
                &&& *final(waveform) == *old(waveform)
            },
            Ok(n) => if reload_needs_restart(*old(config), n) {
                &&& r matches Ok(rep) && is_restart_report(rep)
                &&& *final(config) == *old(config)
                &&& *final(scheduler) == *old(scheduler)
                &&& *final(flags) == *old(flags)
                &&& *final(waveform) == *old(waveform)
            } else {
                &&& *final(config) == reloaded(*old(config), n)
                &&& *final(scheduler) == old(scheduler).spec_with_enabled(
                    n.display.auto_refresh,
                ).spec_with_interval(n.display.refresh_interval_ms)
                &&& match waveform_named(n.display.waveform@) {
                    Some(w) => {
                        &&& r matches Ok(rep) && is_applied_report(rep)
                        &&& *final(waveform) == w
                        &&& *final(flags) == flags_of(n.display)
                    },
                    None => {
                        &&& r matches Err(x) && x@ == "unsupported display waveform: "@
                            + n.display.waveform@
                        &&& *final(waveform) == *old(waveform)
                        &&& *final(flags) == *old(flags)
                    },
                }
            },
        },
{
    let next = match next {
        Ok(n) => n,
        Err(e) => return Err(e),
    };
    let ghost n = next;
    let report = match config.apply_runtime_reload(next) {
        Ok(report) => report,
        Err(e) => return Err(e),
    };
    if report.applied {
        assert(!reload_needs_restart(*old(config), n));
        scheduler.set_enabled(config.display.auto_refresh);
        scheduler.set_interval_ms(config.display.refresh_interval_ms);
        *waveform = match Waveform::parse(config.display.waveform.as_str()) {
            Ok(w) => w,
            Err(e) => return Err(e),
        };
        *flags = RuntimeFlags::from_display(&config.display);
    }
    Ok(report)
}

/// The reply to a `reload-config` request, from the outcome of the reload.
pub open spec fn reload_reply(r: Result<ReloadReport, String>) -> PlanView {
    match r {
        Err(e) => PlanView::Fail("reload_failed"@, e@),
        Ok(rep) => if rep.restart_required {
            PlanView::Fail(
                "restart_required"@,
                if rep.messages@.len() > 0 {
                    rep.messages@[0]@
                } else {
                    "restart required"@
                },
            )
        } else {
            PlanView::Reloaded(rep.applied, rep.restart_required, strings_view(rep.messages@))
        },
    }
}

/// How a reload's outcome is answered: a reload that needs a restart is an
/// error carrying its first message.
pub fn plan_reload_reply(outcome: Result<ReloadReport, String>) -> (p: CommandPlan)
    ensures
        plan_view(p) == reload_reply(outcome),
{
    match outcome {
        Err(e) => CommandPlan::Fail { code: "reload_failed", message: e },
        Ok(report) => if report.restart_required {
            let message = if report.messages.len() > 0 {
                report.messages[0].clone()
            } else {
                copy_str("restart required")
            };
            CommandPlan::Fail { code: "restart_required", message }
        } else {
            CommandPlan::Reloaded { report }
        },
    }
}

/// `open` is origin-allowlisted: a navigation is only ever planned to a URL
/// that parses and that the page policy allows, and it goes to that URL.
pub proof fn lemma_open_is_allowlisted(req: Request, config: Config, initial: UrlView, sequence: u64)
    ensures
        command_plan(req, config, initial, sequence) matches PlanView::Open(u) ==> {
            &&& req.url is Some
            &&& url_parse_result(req.url->0@) is Ok
            &&& url_allowed(
                strings_view(config.page.allowed_origins@),
                url_parse_result(req.url->0@)->Ok_0,
                initial,
            )
            &&& u == url_parse_result(req.url->0@)->Ok_0.serialization
        },
{
}

/// Scripts and event details over the configured limits are never run: an
/// evaluated script, and the detail of a dispatched event, stay within
/// them.
pub proof fn lemma_size_limits_hold(req: Request, config: Config, initial: UrlView, sequence: u64)
    ensures
        command_plan(req, config, initial, sequence) matches PlanView::Evaluate(script) ==> byte_len(
            script,
        ) <= config.control.max_script_bytes,
        command_plan(req, config, initial, sequence) matches PlanView::Emit(script) ==> {
            &&& req.event_type is Some
            &&& json_string_text(req.event_type->0@) is Ok
            &&& byte_len(
                match req.detail {
                    Some(d) => d@,
                    None => "null"@,
                },
            ) <= config.control.max_event_detail_bytes
            &&& script == emit_script_text(
                json_string_text(req.event_type->0@)->Ok_0,
                match req.detail {
                    Some(d) => d@,
                    None => "null"@,
                },
            )
        },
{
}

/// `reload-config` answers `restart_required` exactly when the reload was
/// refused for a restart-only change, and reports an applied reload with its
/// message.
pub proof fn lemma_reload_reply_matches_report(rep: ReloadReport)
    ensures
        is_restart_report(rep) ==> reload_reply(Ok(rep)) == PlanView::Fail(
            "restart_required"@,
            "socket/static-server/page/lifecycle/queue changes require restart"@,
        ),
        is_applied_report(rep) ==> reload_reply(Ok(rep)) == PlanView::Reloaded(
            true,
            false,
            strings_view(rep.messages@),
        ),
{
}

/// Only `refresh` and `stop` change the runtime: `refresh` requests a frame
/// and makes it running, `stop` makes it stopping; every other request
/// leaves scheduler and state alone.
pub proof fn lemma_only_refresh_and_stop_change_the_runtime(
    method: Seq<char>,
    force: bool,
    s: Scheduler,
    st: State,
)
    ensures
        method == "refresh"@ ==> scheduler_after_command(method, force, s) == s.spec_requested(force)
            && state_after_command(method, st) == State::Running,
        method == "stop"@ ==> scheduler_after_command(method, force, s) == s && state_after_command(
            method,
            st,
        ) == State::Stopping,
        method != "refresh"@ && method != "stop"@ ==> scheduler_after_command(method, force, s) == s
            && state_after_command(method, st) == st,
{
    reveal_strlit("status");
    reveal_strlit("open");
    reveal_strlit("refresh");
    reveal_strlit("reload-config");
    reveal_strlit("eval");
    reveal_strlit("emit");
    reveal_strlit("stop");
    assert("status"@.len() == 6 && "open"@.len() == 4 && "refresh"@.len() == 7);
    assert("reload-config"@.len() == 13 && "eval"@.len() == 4 && "emit"@.len() == 4);
    assert("stop"@.len() == 4 && "stop"@[0] == 's');
    assert("open"@[0] == 'o' && "eval"@[0] == 'e' && "emit"@[0] == 'e');
}

} // verus!
