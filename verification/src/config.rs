use vstd::prelude::*;
use crate::text::{chars_of, copy_str, eq_str, push_chars, push_str, starts_with, string_of, strings_view};
use crate::url_parts::{url_parse_result, UrlParts, UrlView};
use crate::wrappers::{
    file_url, file_url_of, is_relative_path, join_path, parent_path, path_is_relative, path_joined,
    path_parent, paths_equal, same_path,
};

verus! {

/// The page shown when no page is configured.
pub const DEFAULT_PAGE: &'static str = "data:text/html,<body style='font-family:sans-serif'><h1>PED</h1><p>Configure a page in ped.toml.</p></body>";

/// The runtime configuration, as read from `ped.toml`. Paths are held as
/// strings.
#[derive(Clone, Debug)]
pub struct Config {
    pub page: PageConfig,
    pub display: DisplayConfig,
    pub control: ControlConfig,
    pub lifecycle: LifecycleConfig,
    pub static_server: StaticServerConfig,
    /// The absolute path of the file the configuration came from.
    pub source_path: Option<String>,
}

#[derive(Clone, Debug)]
pub struct PageConfig {
    pub url: String,
    /// Scripts injected into every page.
    pub script: Vec<String>,
    /// Origins allowed to use the privileged Kindle API.
    pub trusted_origins: Vec<String>,
    /// Origins that `open` may navigate to.
    pub allowed_origins: Vec<String>,
}

#[derive(Clone, Debug)]
pub struct DisplayConfig {
    pub auto_refresh: bool,
    pub refresh_interval_ms: u64,
    pub waveform: String,
    pub orientation: String,
    pub periodic_full_refresh: bool,
    pub full_refresh_interval: u32,
    pub wait_for_complete: bool,
}

#[derive(Clone, Debug)]
pub struct ControlConfig {
    pub socket: String,
    pub max_script_bytes: usize,
    pub max_event_detail_bytes: usize,
    pub max_request_bytes: usize,
    pub queue_capacity: usize,
}

#[derive(Clone, Debug)]
pub struct LifecycleConfig {
    pub enabled: bool,
    pub marker: String,
    pub service: String,
    pub stop_timeout_ms: u64,
    pub watchdog_timeout_s: u64,
}

#[derive(Clone, Debug)]
pub struct StaticServerConfig {
    pub enabled: bool,
    pub bind: String,
    pub port: u16,
    pub prefix: String,
}

/// What a configuration reload did.
#[derive(Clone, Debug)]
pub struct ReloadReport {
    pub applied: bool,
    pub restart_required: bool,
    pub messages: Vec<String>,
}

impl Default for PageConfig {
    fn default() -> (r: Self)
        ensures
            r.url@ == DEFAULT_PAGE@,
            r.script@.len() == 0,
            r.trusted_origins@.len() == 0,
            r.allowed_origins@.len() == 0,
    {
        Self {
            url: copy_str(DEFAULT_PAGE),
            script: Vec::new(),
            trusted_origins: Vec::new(),
            allowed_origins: Vec::new(),
        }
    }
}

impl Default for DisplayConfig {
    fn default() -> (r: Self)
        ensures
            r.auto_refresh,
            r.refresh_interval_ms == 2500,
            r.waveform@ == "quality"@,
            r.orientation@ == "portrait"@,
            r.periodic_full_refresh,
            r.full_refresh_interval == 20,
            !r.wait_for_complete,
    {
        Self {
            auto_refresh: true,
            refresh_interval_ms: 2500,
            waveform: copy_str("quality"),
            orientation: copy_str("portrait"),
            periodic_full_refresh: true,
            full_refresh_interval: 20,
            wait_for_complete: false,
        }
    }
}

impl Default for ControlConfig {
    fn default() -> (r: Self)
        ensures
            r.socket@ == "/tmp/ped.sock"@,
            r.max_script_bytes == 64 * 1024,
            r.max_event_detail_bytes == 32 * 1024,
            r.max_request_bytes == 128 * 1024,
            r.queue_capacity == 32,
    {
        Self {
            socket: copy_str("/tmp/ped.sock"),
            max_script_bytes: 64 * 1024,
            max_event_detail_bytes: 32 * 1024,
            max_request_bytes: 128 * 1024,
            queue_capacity: 32,
        }
    }
}

impl Default for LifecycleConfig {
    fn default() -> (r: Self)
        ensures
            !r.enabled,
            r.marker@ == "/var/run/ped/session.json"@,
            r.service@ == "lab126_gui"@,
            r.stop_timeout_ms == 3000,
            r.watchdog_timeout_s == 30,
    {
        Self {
            enabled: false,
            marker: copy_str("/var/run/ped/session.json"),
            service: copy_str("lab126_gui"),
            stop_timeout_ms: 3000,
            watchdog_timeout_s: 30,
        }
    }
}

impl Default for StaticServerConfig {
    fn default() -> (r: Self)
        ensures
            r.enabled,
            r.bind@ == "127.0.0.1"@,
            r.port == 0,
            r.prefix@ == "/"@,
    {
        Self { enabled: true, bind: copy_str("127.0.0.1"), port: 0, prefix: copy_str("/") }
    }
}

/// The configuration that `Default` gives.
pub open spec fn is_default_config(c: Config) -> bool {
    &&& c.page.url@ == DEFAULT_PAGE@
    &&& c.page.script@.len() == 0
    &&& c.page.trusted_origins@.len() == 0
    &&& c.page.allowed_origins@.len() == 0
    &&& c.display.auto_refresh
    &&& c.display.refresh_interval_ms == 2500
    &&& c.display.waveform@ == "quality"@
    &&& c.display.orientation@ == "portrait"@
    &&& c.display.periodic_full_refresh
    &&& c.display.full_refresh_interval == 20
    &&& !c.display.wait_for_complete
    &&& c.control.socket@ == "/tmp/ped.sock"@
    &&& c.control.max_script_bytes == 64 * 1024
    &&& c.control.max_event_detail_bytes == 32 * 1024
    &&& c.control.max_request_bytes == 128 * 1024
    &&& c.control.queue_capacity == 32
    &&& !c.lifecycle.enabled
    &&& c.lifecycle.marker@ == "/var/run/ped/session.json"@
    &&& c.lifecycle.service@ == "lab126_gui"@
    &&& c.lifecycle.stop_timeout_ms == 3000
    &&& c.lifecycle.watchdog_timeout_s == 30
    &&& c.static_server.enabled
    &&& c.static_server.bind@ == "127.0.0.1"@
    &&& c.static_server.port == 0
    &&& c.static_server.prefix@ == "/"@
    &&& c.source_path is None
}

impl Default for Config {
    fn default() -> (r: Self)
        ensures
            is_default_config(r),
    {
        Self {
            page: PageConfig::default(),
            display: DisplayConfig::default(),
            control: ControlConfig::default(),
            lifecycle: LifecycleConfig::default(),
            static_server: StaticServerConfig::default(),
            source_path: None,
        }
    }
}

} // verus!

verus! {

/// Whether a parsed origin holds more than a scheme and a host (and port).
pub open spec fn origin_shape_bad(u: UrlView) -> bool {
    u.host is None || (u.path.len() != 0 && u.path != "/"@) || u.query is Some || u.fragment
        is Some
}

/// The error of the first configured origin that does not parse, or holds
/// more than a scheme and host.
pub open spec fn first_bad_origin(origins: Seq<Seq<char>>) -> Option<Seq<char>>
    decreases origins.len(),
{
    if origins.len() == 0 {
        None
    } else {
        let o = origins[0];
        match url_parse_result(o) {
            Err(e) => Some("invalid origin "@ + o + ": "@ + e),
            Ok(u) => if origin_shape_bad(u) {
                Some("origin must contain only scheme and host: "@ + o)
            } else {
                first_bad_origin(origins.drop_first())
            },
        }
    }
}

/// Why a configuration is refused, or `None` when it is valid.
pub open spec fn config_error(c: Config) -> Option<Seq<char>> {
    if c.display.refresh_interval_ms == 0 {
        Some("display.refresh_interval_ms must be greater than zero"@)
    } else if c.control.max_script_bytes == 0 {
        Some("control.max_script_bytes must be greater than zero"@)
    } else if c.control.max_event_detail_bytes == 0 {
        Some("control.max_event_detail_bytes must be greater than zero"@)
    } else if c.control.max_request_bytes < c.control.max_script_bytes
        || c.control.max_request_bytes < c.control.max_event_detail_bytes {
        Some("control.max_request_bytes must cover script and event detail limits"@)
    } else if c.control.queue_capacity == 0 {
        Some("control.queue_capacity must be greater than zero"@)
    } else if c.display.full_refresh_interval == 0 {
        Some("display.full_refresh_interval must be greater than zero"@)
    } else if c.static_server.enabled && (!starts_with(c.static_server.bind@, "127."@)
        && c.static_server.bind@ != "localhost"@) {
        Some("static_server.bind must remain loopback-only"@)
    } else {
        match url_parse_result(c.page.url@) {
            Err(e) => Some("invalid page.url: "@ + e),
            Ok(page) => match first_bad_origin(
                strings_view(c.page.trusted_origins@) + strings_view(c.page.allowed_origins@),
            ) {
                Some(e) => Some(e),
                None => if page.scheme == "file"@ && !c.static_server.enabled {
                    Some("file:// pages require static_server.enabled"@)
                } else {
                    None
                },
            },
        }
    }
}

proof fn lemma_first_bad_origin_append(a: Seq<Seq<char>>, b: Seq<Seq<char>>)
    ensures
        first_bad_origin(a + b) == match first_bad_origin(a) {
            Some(e) => Some(e),
            None => first_bad_origin(b),
        },
    decreases a.len(),
{
    if a.len() == 0 {
        assert(a + b =~= b);
    } else {
        assert((a + b).drop_first() =~= a.drop_first() + b);
        assert((a + b)[0] == a[0]);
        lemma_first_bad_origin_append(a.drop_first(), b);
    }
}

fn check_origins(origins: &Vec<String>) -> (r: Result<(), String>)
    ensures
        match first_bad_origin(strings_view(origins@)) {
            Some(e) => r matches Err(x) && x@ == e,
            None => r is Ok,
        },
{
    let ghost all = strings_view(origins@);
    let mut i: usize = 0;
    assert(all.skip(0) =~= all);
    while i < origins.len()
        invariant
            all == strings_view(origins@),
            i <= origins@.len(),
            first_bad_origin(all) == first_bad_origin(all.skip(i as int)),
        decreases origins.len() - i,
    {
        let origin = &origins[i];
        assert(all.skip(i as int)[0] == origin@);
        assert(all.skip(i as int).drop_first() =~= all.skip(i + 1));
        match UrlParts::parse(origin.as_str()) {
            Err(error) => {
                let mut msg: Vec<char> = Vec::new();
                push_str(&mut msg, "invalid origin ");
                push_str(&mut msg, origin.as_str());
                push_str(&mut msg, ": ");
                push_str(&mut msg, error.as_str());
                return Err(string_of(&msg));
            },
            Ok(parsed) => {
                let path = chars_of(parsed.path.as_str());
                if parsed.host.is_none() || (path.len() != 0 && !eq_str(&path, "/"))
                    || parsed.query.is_some() || parsed.fragment.is_some() {
                    let mut msg: Vec<char> = Vec::new();
                    push_str(&mut msg, "origin must contain only scheme and host: ");
                    push_str(&mut msg, origin.as_str());
                    return Err(string_of(&msg));
                }
            },
        }
        i = i + 1;
    }
    assert(all.skip(i as int) =~= Seq::<Seq<char>>::empty());
    Ok(())
}

fn error_text(text: &str) -> (r: Result<(), String>)
    ensures
        r matches Err(e) && e@ == text@,
{
    Err(copy_str(text))
}

/// Whether two lists of script paths are equal as lists of `Path`s.
pub open spec fn path_lists_equal(a: Seq<String>, b: Seq<String>) -> bool {
    a.len() == b.len() && forall|i: int| 0 <= i < a.len() ==> #[trigger] paths_equal(a[i]@, b[i]@)
}

/// Whether moving from `cur` to `next` touches a setting that is only read at
/// start-up.
pub open spec fn reload_needs_restart(cur: Config, next: Config) -> bool {
    ||| !paths_equal(cur.control.socket@, next.control.socket@)
    ||| cur.static_server.bind@ != next.static_server.bind@
    ||| cur.static_server.port != next.static_server.port
    ||| cur.static_server.enabled != next.static_server.enabled
    ||| cur.static_server.prefix@ != next.static_server.prefix@
    ||| cur.page.url@ != next.page.url@
    ||| !path_lists_equal(cur.page.script@, next.page.script@)
    ||| cur.lifecycle.enabled != next.lifecycle.enabled
    ||| !paths_equal(cur.lifecycle.marker@, next.lifecycle.marker@)
    ||| cur.lifecycle.service@ != next.lifecycle.service@
    ||| cur.control.queue_capacity != next.control.queue_capacity
}

/// `cur` with the runtime-reloadable settings taken from `next`.
pub open spec fn reloaded(cur: Config, next: Config) -> Config {
    Config {
        display: next.display,
        page: PageConfig {
            trusted_origins: next.page.trusted_origins,
            allowed_origins: next.page.allowed_origins,
            ..cur.page
        },
        control: ControlConfig {
            max_script_bytes: next.control.max_script_bytes,
            max_event_detail_bytes: next.control.max_event_detail_bytes,
            max_request_bytes: next.control.max_request_bytes,
            ..cur.control
        },
        lifecycle: LifecycleConfig {
            stop_timeout_ms: next.lifecycle.stop_timeout_ms,
            watchdog_timeout_s: next.lifecycle.watchdog_timeout_s,
            ..cur.lifecycle
        },
        ..cur
    }
}

/// The report of a reload that was refused because a restart is needed.
pub open spec fn is_restart_report(r: ReloadReport) -> bool {
    &&& r.restart_required
    &&& !r.applied
    &&& r.messages@.len() == 1
    &&& r.messages@[0]@ == "socket/static-server/page/lifecycle/queue changes require restart"@
}

/// The report of a reload that was applied.
pub open spec fn is_applied_report(r: ReloadReport) -> bool {
    &&& r.applied
    &&& !r.restart_required
    &&& r.messages@.len() == 1
    &&& r.messages@[0]@ == "reloaded display/control/origin runtime settings"@
}

/// A reload keeps every setting that is only read at start-up, and takes
/// the runtime-reloadable ones from the new configuration.
pub proof fn lemma_reload_keeps_startup_settings(cur: Config, next: Config)
    ensures
        reloaded(cur, next).control.socket == cur.control.socket,
        reloaded(cur, next).control.queue_capacity == cur.control.queue_capacity,
        reloaded(cur, next).static_server == cur.static_server,
        reloaded(cur, next).page.url == cur.page.url,
        reloaded(cur, next).page.script == cur.page.script,
        reloaded(cur, next).lifecycle.enabled == cur.lifecycle.enabled,
        reloaded(cur, next).lifecycle.marker == cur.lifecycle.marker,
        reloaded(cur, next).lifecycle.service == cur.lifecycle.service,
        reloaded(cur, next).source_path == cur.source_path,
        reloaded(cur, next).display == next.display,
        reloaded(cur, next).page.trusted_origins == next.page.trusted_origins,
        reloaded(cur, next).page.allowed_origins == next.page.allowed_origins,
        reloaded(cur, next).control.max_script_bytes == next.control.max_script_bytes,
        reloaded(cur, next).control.max_event_detail_bytes == next.control.max_event_detail_bytes,
        reloaded(cur, next).control.max_request_bytes == next.control.max_request_bytes,
        reloaded(cur, next).lifecycle.stop_timeout_ms == next.lifecycle.stop_timeout_ms,
        reloaded(cur, next).lifecycle.watchdog_timeout_s == next.lifecycle.watchdog_timeout_s,
{
}

/// Reloading the configuration in use changes nothing.
pub proof fn lemma_reload_of_same_config(c: Config)
    ensures
        reloaded(c, c) == c,
{
}

fn same_text(a: &String, b: &String) -> (r: bool)
    ensures
        r == (a@ == b@),
{
    let same: bool = *a == *b;
    same
}

fn same_path_list(a: &Vec<String>, b: &Vec<String>) -> (r: bool)
    ensures
        r == path_lists_equal(a@, b@),
{
    if a.len() != b.len() {
        return false;
    }
    let mut i: usize = 0;
    while i < a.len()
        invariant
            a@.len() == b@.len(),
            i <= a@.len(),
            forall|j: int| 0 <= j < i ==> #[trigger] paths_equal(a@[j]@, b@[j]@),
        decreases a.len() - i,
    {
        if !same_path(a[i].as_str(), b[i].as_str()) {
            return false;
        }
        i = i + 1;
    }
    true
}

/// The directory that relative paths in a configuration file are read
/// from: the file's parent, else `.`.
pub open spec fn config_base(config_path: Seq<char>) -> Seq<char> {
    match path_parent(config_path) {
        Some(p) => p,
        None => "."@,
    }
}

/// A path read from the configuration, resolved against `base`.
pub open spec fn resolved_path(base: Seq<char>, p: Seq<char>) -> Seq<char> {
    if path_is_relative(p) {
        path_joined(base, p)
    } else {
        p
    }
}

/// Whether a page URL is a file path rather than a URL: it holds no `://`
/// and is no `data:` URL.
pub open spec fn page_is_path(url: Seq<char>) -> bool {
    !crate::text::contains(url, "://"@) && !starts_with(url, "data:"@)
}

impl Config {
    /// Checks the limits, the loopback-only binding of the static server, the
    /// page URL and the configured origins; reports the first problem.
    pub fn validate(&self) -> (r: Result<(), String>)
        ensures
            match config_error(*self) {
                Some(e) => r matches Err(x) && x@ == e,
                None => r is Ok,
            },
    {
        if self.display.refresh_interval_ms == 0 {
            return error_text("display.refresh_interval_ms must be greater than zero");
        }
        if self.control.max_script_bytes == 0 {
            return error_text("control.max_script_bytes must be greater than zero");
        }
        if self.control.max_event_detail_bytes == 0 {
            return error_text("control.max_event_detail_bytes must be greater than zero");
        }
        if self.control.max_request_bytes < self.control.max_script_bytes
            || self.control.max_request_bytes < self.control.max_event_detail_bytes {
            return error_text("control.max_request_bytes must cover script and event detail limits");
        }
        if self.control.queue_capacity == 0 {
            return error_text("control.queue_capacity must be greater than zero");
        }
        if self.display.full_refresh_interval == 0 {
            return error_text("display.full_refresh_interval must be greater than zero");
        }
        let bind = chars_of(self.static_server.bind.as_str());
        if self.static_server.enabled && (!crate::text::starts_with_str(&bind, "127.") && !eq_str(
            &bind,
            "localhost",
        )) {
            return error_text("static_server.bind must remain loopback-only");
        }
        let page_url = match UrlParts::parse(self.page.url.as_str()) {
            Ok(url) => url,
            Err(error) => {
                let mut msg: Vec<char> = Vec::new();
                push_str(&mut msg, "invalid page.url: ");
                push_str(&mut msg, error.as_str());
                return Err(string_of(&msg));
            },
        };
        proof {
            lemma_first_bad_origin_append(
                strings_view(self.page.trusted_origins@),
                strings_view(self.page.allowed_origins@),
            );
        }
        match check_origins(&self.page.trusted_origins) {
            Err(e) => return Err(e),
            Ok(()) => {},
        }
        match check_origins(&self.page.allowed_origins) {
            Err(e) => return Err(e),
            Ok(()) => {},
        }
        let scheme = chars_of(page_url.scheme.as_str());
        if eq_str(&scheme, "file") && !self.static_server.enabled {
            return error_text("file:// pages require static_server.enabled");
        }
        Ok(())
    }

    /// Resolves the paths of a configuration read from `config_path`:
    /// relative script paths are taken from the file's directory. When the
    /// page URL is a file path, the returned path (made absolute the same
    /// way) is to be turned into a `file:` URL with `set_page_path` once it
    /// has been canonicalized.
    pub fn resolve_paths(&mut self, config_path: &str) -> (r: Option<String>)
        ensures
            final(self).page.script@.len() == old(self).page.script@.len(),
            forall|i: int|
                0 <= i < old(self).page.script@.len() ==> #[trigger] final(self).page.script@[i]@
                    == resolved_path(config_base(config_path@), old(self).page.script@[i]@),
            final(self).page.url == old(self).page.url,
            final(self).page.trusted_origins == old(self).page.trusted_origins,
            final(self).page.allowed_origins == old(self).page.allowed_origins,
            final(self).display == old(self).display,
            final(self).control == old(self).control,
            final(self).lifecycle == old(self).lifecycle,
            final(self).static_server == old(self).static_server,
            final(self).source_path == old(self).source_path,
            page_is_path(old(self).page.url@) ==> (r matches Some(p) && p@ == resolved_path(
                config_base(config_path@),
                old(self).page.url@,
            )),
            !page_is_path(old(self).page.url@) ==> r is None,
    {
        let base = match parent_path(config_path) {
            Some(p) => p,
            None => copy_str("."),
        };
        let mut scripts: Vec<String> = Vec::new();
        let mut i: usize = 0;
        while i < self.page.script.len()
            invariant
                base@ == config_base(config_path@),
                i <= self.page.script@.len(),
                scripts@.len() == i,
                forall|j: int|
                    0 <= j < i ==> #[trigger] scripts@[j]@ == resolved_path(base@, self.page.script@[j]@),
            decreases self.page.script.len() - i,
        {
            let script = self.page.script[i].as_str();
            let resolved = if is_relative_path(script) {
                join_path(base.as_str(), script)
            } else {
                copy_str(script)
            };
            scripts.push(resolved);
            i = i + 1;
        }
        self.page.script = scripts;
        let url = chars_of(self.page.url.as_str());
        if crate::text::contains_str(&url, "://") || crate::text::starts_with_str(&url, "data:") {
            return None;
        }
        let page = self.page.url.as_str();
        if is_relative_path(page) {
            Some(join_path(base.as_str(), page))
        } else {
            Some(copy_str(page))
        }
    }

    /// Sets the page URL to the `file:` URL of the (canonical) page path; a
    /// path that has no file URL is kept as text, for `validate` to report.
    pub fn set_page_path(&mut self, page_path: &str)
        ensures
            final(self).page.url@ == match file_url_of(page_path@) {
                Some(u) => u,
                None => page_path@,
            },
            final(self).page.script == old(self).page.script,
            final(self).page.trusted_origins == old(self).page.trusted_origins,
            final(self).page.allowed_origins == old(self).page.allowed_origins,
            final(self).display == old(self).display,
            final(self).control == old(self).control,
            final(self).lifecycle == old(self).lifecycle,
            final(self).static_server == old(self).static_server,
            final(self).source_path == old(self).source_path,
    {
        self.page.url = match file_url(page_path) {
            Some(u) => u,
            None => copy_str(page_path),
        };
    }

    /// The page URL, parsed.
    pub fn page_url(&self) -> (r: Result<UrlParts, String>)
        ensures
            match url_parse_result(self.page.url@) {
                Ok(u) => r matches Ok(x) && x@ == u,
                Err(e) => r matches Err(x) && x@ == "invalid page.url: "@ + e,
            },
    {
        match UrlParts::parse(self.page.url.as_str()) {
            Ok(url) => Ok(url),
            Err(error) => {
                let mut msg: Vec<char> = Vec::new();
                push_str(&mut msg, "invalid page.url: ");
                push_str(&mut msg, error.as_str());
                Err(string_of(&msg))
            },
        }
    }

    /// Applies the settings that can change while running: display,
    /// origins, control size limits and lifecycle timeouts. When anything
    /// that needs a restart differs (socket, static server, page, scripts,
    /// lifecycle switches, queue), nothing is changed and the report says
    /// that a restart is required.
    pub fn apply_runtime_reload(&mut self, next: Config) -> (r: Result<ReloadReport, String>)
        ensures
            r is Ok,
            r matches Ok(report) && if reload_needs_restart(*old(self), next) {
                &&& is_restart_report(report)
                &&& *final(self) == *old(self)
            } else {
                &&& is_applied_report(report)
                &&& *final(self) == reloaded(*old(self), next)
            },
    {
        let restart = !same_path(self.control.socket.as_str(), next.control.socket.as_str())
            || !same_text(&self.static_server.bind, &next.static_server.bind)
            || self.static_server.port != next.static_server.port
            || self.static_server.enabled != next.static_server.enabled
            || !same_text(&self.static_server.prefix, &next.static_server.prefix)
            || !same_text(&self.page.url, &next.page.url)
            || !same_path_list(&self.page.script, &next.page.script)
            || self.lifecycle.enabled != next.lifecycle.enabled
            || !same_path(self.lifecycle.marker.as_str(), next.lifecycle.marker.as_str())
            || !same_text(&self.lifecycle.service, &next.lifecycle.service)
            || self.control.queue_capacity != next.control.queue_capacity;
        let mut messages: Vec<String> = Vec::new();
        if restart {
            messages.push(copy_str("socket/static-server/page/lifecycle/queue changes require restart"));
            return Ok(ReloadReport { applied: false, restart_required: true, messages });
        }
        self.display = next.display;
        self.page.trusted_origins = next.page.trusted_origins;
        self.page.allowed_origins = next.page.allowed_origins;
        self.control.max_script_bytes = next.control.max_script_bytes;
        self.control.max_event_detail_bytes = next.control.max_event_detail_bytes;
        self.control.max_request_bytes = next.control.max_request_bytes;
        self.lifecycle.stop_timeout_ms = next.lifecycle.stop_timeout_ms;
        self.lifecycle.watchdog_timeout_s = next.lifecycle.watchdog_timeout_s;
        messages.push(copy_str("reloaded display/control/origin runtime settings"));
        Ok(ReloadReport { applied: true, restart_required: false, messages })
    }

    /// The configured display orientation, parsed.
    pub fn orientation(&self) -> (r: Result<crate::display::Orientation, String>)
        ensures
            crate::display::orientation_named(
                crate::text::lower(crate::text::trim(self.display.orientation@)),
            ) matches Some(o) ==> r == Ok::<crate::display::Orientation, String>(o),
            crate::display::orientation_named(
                crate::text::lower(crate::text::trim(self.display.orientation@)),
            ) is None ==> (r matches Err(e) && e@ == crate::display::orientation_error(
                self.display.orientation@,
            )),
    {
        crate::display::Orientation::parse(self.display.orientation.as_str())
    }
}

} // verus!

verus! {

/// Whether a candidate URL belongs to a configured origin: same scheme and
/// host, and the configured port (if any) equals the candidate's explicit
/// port, or its default port when it has none.
pub open spec fn origin_matches_spec(configured: Seq<char>, c: UrlView) -> bool {
    match url_parse_result(configured) {
        Err(_) => false,
        Ok(a) => a.scheme == c.scheme && a.host == c.host && match a.port {
            None => true,
            Some(expected) => match c.port {
                Some(actual) => expected == actual,
                None => c.known_port == Some(expected),
            },
        },
    }
}

/// Whether some configured origin matches the candidate.
pub open spec fn any_origin_matches(origins: Seq<Seq<char>>, c: UrlView) -> bool {
    exists|i: int| 0 <= i < origins.len() && #[trigger] origin_matches_spec(origins[i], c)
}

/// Whether `open` may navigate to `candidate`: with no allowed origins, only
/// within the initial page's (tuple) origin.
pub open spec fn url_allowed(allowed: Seq<Seq<char>>, candidate: UrlView, initial: UrlView) -> bool {
    if allowed.len() == 0 {
        candidate.origin is Some && candidate.origin == initial.origin
    } else {
        any_origin_matches(allowed, candidate)
    }
}

/// Whether a page may use the privileged Kindle API: with no trusted
/// origins, only http, https and file pages on the loopback host (or with no
/// host).
pub open spec fn origin_trusted(trusted: Seq<Seq<char>>, candidate: UrlView) -> bool {
    if trusted.len() == 0 {
        (candidate.scheme == "http"@ || candidate.scheme == "https"@ || candidate.scheme
            == "file"@) && match candidate.host {
            None => true,
            Some(h) => h == "127.0.0.1"@ || h == "localhost"@,
        }
    } else {
        any_origin_matches(trusted, candidate)
    }
}

fn opt_str_eq(a: &Option<String>, b: &Option<String>) -> (r: bool)
    ensures
        r == (crate::url_parts::opt_chars(*a) == crate::url_parts::opt_chars(*b)),
{
    match (a, b) {
        (Some(x), Some(y)) => {
            let same: bool = *x == *y;
            same
        },
        (None, None) => true,
        _ => false,
    }
}

/// Whether the configured origin matches the candidate URL.
pub fn origin_matches(configured: &str, candidate: &UrlParts) -> (r: bool)
    ensures
        r == origin_matches_spec(configured@, candidate@),
{
    let allowed = match UrlParts::parse(configured) {
        Ok(url) => url,
        Err(_) => return false,
    };
    if !(allowed.scheme == candidate.scheme) {
        return false;
    }
    if !opt_str_eq(&allowed.host, &candidate.host) {
        return false;
    }
    match (allowed.port, candidate.port) {
        (None, _) => true,
        (Some(expected), Some(actual)) => expected == actual,
        (Some(expected), None) => match candidate.known_port {
            Some(p) => p == expected,
            None => false,
        },
    }
}

fn any_matches(origins: &Vec<String>, candidate: &UrlParts) -> (r: bool)
    ensures
        r == any_origin_matches(strings_view(origins@), candidate@),
{
    let ghost all = strings_view(origins@);
    let mut i: usize = 0;
    while i < origins.len()
        invariant
            all == strings_view(origins@),
            i <= origins@.len(),
            forall|j: int| 0 <= j < i ==> !origin_matches_spec(#[trigger] all[j], candidate@),
        decreases origins.len() - i,
    {
        assert(all[i as int] == origins@[i as int]@);
        if origin_matches(origins[i].as_str(), candidate) {
            return true;
        }
        i = i + 1;
    }
    false
}

fn origin_eq(a: &Option<(String, String, u16)>, b: &Option<(String, String, u16)>) -> (r: bool)
    ensures
        r == (crate::url_parts::origin_view(*a) is Some && crate::url_parts::origin_view(*a)
            == crate::url_parts::origin_view(*b)),
{
    match (a, b) {
        (Some(x), Some(y)) => x.0 == y.0 && x.1 == y.1 && x.2 == y.2,
        _ => false,
    }
}

impl Config {
    /// Whether the control socket may open `candidate`, given the initial
    /// page URL.
    pub fn is_url_allowed(&self, candidate: &UrlParts, initial: &UrlParts) -> (r: bool)
        ensures
            r == url_allowed(strings_view(self.page.allowed_origins@), candidate@, initial@),
    {
        if self.page.allowed_origins.len() == 0 {
            return origin_eq(&candidate.origin, &initial.origin);
        }
        any_matches(&self.page.allowed_origins, candidate)
    }

    /// Whether a page at `candidate` may use the privileged Kindle API.
    pub fn is_origin_trusted(&self, candidate: &UrlParts) -> (r: bool)
        ensures
            r == origin_trusted(strings_view(self.page.trusted_origins@), candidate@),
    {
        if self.page.trusted_origins.len() == 0 {
            let scheme = chars_of(candidate.scheme.as_str());
            let scheme_ok = eq_str(&scheme, "http") || eq_str(&scheme, "https") || eq_str(
                &scheme,
                "file",
            );
            let host_ok = match &candidate.host {
                None => true,
                Some(host) => {
                    let h = chars_of(host.as_str());
                    eq_str(&h, "127.0.0.1") || eq_str(&h, "localhost")
                },
            };
            return scheme_ok && host_ok;
        }
        any_matches(&self.page.trusted_origins, candidate)
    }
}

/// With no allowed origins, `open` stays within the initial page's origin,
/// and a page with an opaque origin (such as a `data:` URL) allows nothing.
pub proof fn lemma_default_url_policy(candidate: UrlView, initial: UrlView)
    ensures
        url_allowed(Seq::empty(), candidate, initial) <==> (candidate.origin is Some
            && candidate.origin == initial.origin),
        initial.origin is None ==> !url_allowed(Seq::empty(), candidate, initial),
{
}

/// With no trusted origins, only `http`, `https` and `file` pages on the
/// loopback host (or with no host) are trusted.
pub proof fn lemma_default_trust_is_loopback(candidate: UrlView)
    ensures
        origin_trusted(Seq::empty(), candidate) ==> (candidate.scheme == "http"@ || candidate.scheme
            == "https"@ || candidate.scheme == "file"@),
        origin_trusted(Seq::empty(), candidate) && candidate.host is Some ==> (candidate.host->0
            == "127.0.0.1"@ || candidate.host->0 == "localhost"@),
{
}

/// A valid configuration keeps the static server on the loopback
/// interface.
pub proof fn lemma_valid_server_is_loopback(c: Config)
    requires
        config_error(c) is None,
        c.static_server.enabled,
    ensures
        starts_with(c.static_server.bind@, "127."@) || c.static_server.bind@ == "localhost"@,
{
}

/// Reloading the configuration in use applies it, given that each of its
/// paths compares equal to itself as `Path` compares them.
pub proof fn lemma_reload_of_same_config_applies(c: Config)
    requires
        paths_equal(c.control.socket@, c.control.socket@),
        paths_equal(c.lifecycle.marker@, c.lifecycle.marker@),
        forall|i: int|
            0 <= i < c.page.script@.len() ==> #[trigger] paths_equal(
                c.page.script@[i]@,
                c.page.script@[i]@,
            ),
    ensures
        !reload_needs_restart(c, c),
{
}

/// A reload is applied only when it loses nothing: whenever no restart is
/// needed, the reloaded configuration agrees with the new one on every
/// setting that a reload does not copy (paths as `Path` compares them). A
/// change to any start-up setting (socket, static server, page, scripts,
/// lifecycle switches, queue capacity) therefore always needs a restart.
pub proof fn lemma_applied_reload_loses_nothing(cur: Config, next: Config)
    ensures
        !reload_needs_restart(cur, next) ==> {
            let r = reloaded(cur, next);
            &&& r.control.queue_capacity == next.control.queue_capacity
            &&& paths_equal(r.control.socket@, next.control.socket@)
            &&& r.static_server.enabled == next.static_server.enabled
            &&& r.static_server.port == next.static_server.port
            &&& r.static_server.bind@ == next.static_server.bind@
            &&& r.static_server.prefix@ == next.static_server.prefix@
            &&& r.page.url@ == next.page.url@
            &&& path_lists_equal(r.page.script@, next.page.script@)
            &&& r.lifecycle.enabled == next.lifecycle.enabled
            &&& paths_equal(r.lifecycle.marker@, next.lifecycle.marker@)
            &&& r.lifecycle.service@ == next.lifecycle.service@
            &&& r.display == next.display
            &&& r.page.trusted_origins == next.page.trusted_origins
            &&& r.page.allowed_origins == next.page.allowed_origins
            &&& r.control.max_script_bytes == next.control.max_script_bytes
            &&& r.control.max_event_detail_bytes == next.control.max_event_detail_bytes
            &&& r.control.max_request_bytes == next.control.max_request_bytes
            &&& r.lifecycle.stop_timeout_ms == next.lifecycle.stop_timeout_ms
            &&& r.lifecycle.watchdog_timeout_s == next.lifecycle.watchdog_timeout_s
        },
        cur.control.queue_capacity != next.control.queue_capacity ==> reload_needs_restart(
            cur,
            next,
        ),
        cur.static_server.port != next.static_server.port ==> reload_needs_restart(cur, next),
        cur.lifecycle.enabled != next.lifecycle.enabled ==> reload_needs_restart(cur, next),
{
}

} // verus!
