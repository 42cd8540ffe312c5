use vstd::prelude::*;
use std::time::Instant;

verus! {

/// The lifecycle state of the runtime.
#[derive(Clone, Copy, Debug, PartialEq, Eq, Structural)]
pub enum State {
    Starting,
    Running,
    Refreshing,
    Stopping,
    Recovering,
    Stopped,
}

/// The name under which a state is reported.
pub open spec fn state_name(s: State) -> Seq<char> {
    match s {
        State::Starting => "starting"@,
        State::Running => "running"@,
        State::Refreshing => "refreshing"@,
        State::Stopping => "stopping"@,
        State::Recovering => "recovering"@,
        State::Stopped => "stopped"@,
    }
}

impl State {
    /// The state's stable name.
    pub fn as_str(self) -> (r: &'static str)
        ensures
            r@ == state_name(self),
    {
        match self {
            State::Starting => "starting",
            State::Running => "running",
            State::Refreshing => "refreshing",
            State::Stopping => "stopping",
            State::Recovering => "recovering",
            State::Stopped => "stopped",
        }
    }
}

/// Counters of the display refreshes that were committed.
#[derive(Clone, Debug)]
pub struct RefreshStats {
    pub sequence: u64,
    pub successful: u64,
    pub failed: u64,
    /// The last refreshed region as `(x, y, width, height)`.
    pub last_region: Option<(u32, u32, u32, u32)>,
    pub last_refresh: Option<Instant>,
}

impl Default for RefreshStats {
    fn default() -> (r: Self)
        ensures
            r.sequence == 0,
            r.successful == 0,
            r.failed == 0,
            r.last_region is None,
            r.last_refresh is None,
    {
        Self { sequence: 0, successful: 0, failed: 0, last_region: None, last_refresh: None }
    }
}

impl RefreshStats {
    /// Records a committed refresh: its sequence number, region and time.
    pub fn record_success(&mut self, sequence: u64, region: (u32, u32, u32, u32), at: Instant)
        requires
            old(self).successful < u64::MAX,
        ensures
            final(self).sequence == sequence,
            final(self).successful == old(self).successful + 1,
            final(self).failed == old(self).failed,
            final(self).last_region == Some(region),
            final(self).last_refresh == Some(at),
    {
        self.sequence = sequence;
        self.successful = self.successful + 1;
        self.last_region = Some(region);
        self.last_refresh = Some(at);
    }

    /// Records a refresh that failed.
    pub fn record_failure(&mut self)
        requires
            old(self).failed < u64::MAX,
        ensures
            final(self).failed == old(self).failed + 1,
            final(self).sequence == old(self).sequence,
            final(self).successful == old(self).successful,
            final(self).last_region == old(self).last_region,
            final(self).last_refresh == old(self).last_refresh,
    {
        self.failed = self.failed + 1;
    }
}

} // verus!

verus! {

/// Display behaviour that a configuration reload can change.
#[derive(Clone, Copy, Debug, PartialEq, Eq, Structural)]
pub struct RuntimeFlags {
    pub wait_for_complete: bool,
    pub periodic_full_refresh: bool,
    pub full_refresh_interval: u32,
}

/// The flags that a display configuration sets.
pub open spec fn flags_of(d: crate::config::DisplayConfig) -> RuntimeFlags {
    RuntimeFlags {
        wait_for_complete: d.wait_for_complete,
        periodic_full_refresh: d.periodic_full_refresh,
        full_refresh_interval: d.full_refresh_interval,
    }
}

impl RuntimeFlags {
    /// The flags of a display configuration.
    pub fn from_display(display: &crate::config::DisplayConfig) -> (r: Self)
        ensures
            r == flags_of(*display),
    {
        RuntimeFlags {
            wait_for_complete: display.wait_for_complete,
            periodic_full_refresh: display.periodic_full_refresh,
            full_refresh_interval: display.full_refresh_interval,
        }
    }
}

} // verus!
