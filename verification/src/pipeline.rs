use vstd::prelude::*;
use std::time::Instant;
use crate::control::ErrorResponse;
use crate::display::{
    bounds_differences, changed_region_of, lemma_row_col_bounds, lemma_union_covers,
    pixel_differs, rect_edges_fit, rect_union, GrayFrame, Rect, Scheduler, Waveform,
};
use crate::runtime::{RefreshStats, RuntimeFlags, State};
use crate::text::copy_str;

verus! {

/// A refresh that the page asked for through the Kindle API, waiting for
/// its frame. `callback` answers the page.
pub struct PendingApiRefresh<C> {
    pub region: Option<Rect>,
    pub waveform: Waveform,
    pub flashing: bool,
    pub full: bool,
    pub callback: C,
}

/// A request made by the page through the privileged Kindle API. Refresh
/// regions come already mapped into the logical frame (`None` for one that
/// lies outside it).
pub enum KindleCommand<C> {
    SetAutoRefresh { enabled: bool, interval_ms: u32 },
    Refresh {
        regions: Vec<Option<Rect>>,
        waveform: Waveform,
        flashing: bool,
        full: bool,
        callback: C,
    },
    Battery { callback: C },
    Network { callback: C },
}

/// What is left to do for a Kindle API command.
pub enum KindleAction<C> {
    /// Nothing.
    Done,
    /// Answer the page with this error.
    Refuse { callback: C, error: ErrorResponse },
    /// Ask the page for a new frame, after telling the refresh it replaced
    /// (if any) that it was superseded.
    RequestFrame { superseded: Option<(C, ErrorResponse)> },
    /// Read the battery and answer the page.
    ReportBattery { callback: C },
    /// Read the network state and answer the page.
    ReportNetwork { callback: C },
}

/// The bounding rectangle of the regions that are present, in order
/// (`Iterator::reduce` with `Rect::union`).
pub open spec fn union_of_regions(rs: Seq<Option<Rect>>) -> Option<Rect>
    decreases rs.len(),
{
    if rs.len() == 0 {
        None
    } else {
        match (union_of_regions(rs.drop_last()), rs.last()) {
            (None, x) => x,
            (Some(a), None) => Some(a),
            (Some(a), Some(b)) => Some(rect_union(a, b)),
        }
    }
}

/// Whether every present region has edges that fit in a `u32`.
pub open spec fn regions_fit(rs: Seq<Option<Rect>>) -> bool {
    forall|i: int| 0 <= i < rs.len() ==> (#[trigger] rs[i] matches Some(r) ==> rect_edges_fit(r))
}

/// Whether `e` is the error with this code and message.
pub open spec fn is_error(e: ErrorResponse, code: Seq<char>, message: Seq<char>) -> bool {
    e.code@ == code && e.message@ == message
}

fn error_response(code: &'static str, message: &str) -> (e: ErrorResponse)
    ensures
        is_error(e, code@, message@),
{
    ErrorResponse { code, message: copy_str(message) }
}

/// The union of the regions of a Kindle refresh request.
pub fn union_regions(regions: &Vec<Option<Rect>>) -> (r: Option<Rect>)
    requires
        regions_fit(regions@),
    ensures
        r == union_of_regions(regions@),
        r matches Some(u) ==> rect_edges_fit(u),
{
    let mut acc: Option<Rect> = None;
    let mut i: usize = 0;
    while i < regions.len()
        invariant
            i <= regions@.len(),
            regions_fit(regions@),
            acc == union_of_regions(regions@.take(i as int)),
            acc matches Some(u) ==> rect_edges_fit(u),
        decreases regions.len() - i,
    {
        assert(regions@.take(i + 1).drop_last() =~= regions@.take(i as int));
        assert(regions@.take(i + 1).last() == regions@[i as int]);
        let next = regions[i];
        acc = match (acc, next) {
            (None, x) => x,
            (Some(a), None) => Some(a),
            (Some(a), Some(b)) => {
                proof {
                    lemma_union_covers(a, b);
                }
                Some(a.union(b))
            },
        };
        i = i + 1;
    }
    assert(regions@.take(regions@.len() as int) =~= regions@);
    acc
}

/// What handling a Kindle API command does, from a page whose origin is
/// `trusted` (or not): untrusted pages are refused (a refused pacing change
/// is dropped); a refresh replaces the pending one, which is told it was
/// superseded, is full when asked so or when no region was given, and
/// requests a full refresh from the scheduler when full or flashing.
pub open spec fn kindle_handled<C>(
    command: KindleCommand<C>,
    trusted: bool,
    s0: Scheduler,
    s1: Scheduler,
    p0: Option<PendingApiRefresh<C>>,
    p1: Option<PendingApiRefresh<C>>,
    a: KindleAction<C>,
) -> bool {
    &&& !trusted ==> s1 == s0 && p1 == p0
    &&& match command {
        KindleCommand::SetAutoRefresh { enabled, interval_ms } => {
            &&& a is Done
            &&& trusted ==> s1 == s0.spec_with_enabled(enabled).spec_with_interval(
                if interval_ms == 0 { 1u64 } else { interval_ms as u64 },
            )
            &&& p1 == p0
        },
        KindleCommand::Refresh { regions, waveform, flashing, full, callback } => if trusted {
            let region = union_of_regions(regions@);
            &&& p1 == Some(
                PendingApiRefresh { region, waveform, flashing, full: full || region is None, callback },
            )
            &&& s1 == s0.spec_requested(full || flashing)
            &&& a matches KindleAction::RequestFrame { superseded } && match p0 {
                Some(p) => superseded matches Some(s) && s.0 == p.callback && is_error(
                    s.1,
                    "superseded"@,
                    "a newer Kindle refresh replaced this request"@,
                ),
                None => superseded is None,
            }
        } else {
            a matches KindleAction::Refuse { callback: c, error } && c == callback && is_error(
                error,
                "origin_not_trusted"@,
                "page origin is not trusted for Kindle refresh"@,
            )
        },
        KindleCommand::Battery { callback } => {
            &&& s1 == s0
            &&& p1 == p0
            &&& if trusted {
                a == KindleAction::ReportBattery { callback }
            } else {
                a matches KindleAction::Refuse { callback: c, error } && c == callback && is_error(
                    error,
                    "origin_not_trusted"@,
                    "page origin is not trusted for battery telemetry"@,
                )
            }
        },
        KindleCommand::Network { callback } => {
            &&& s1 == s0
            &&& p1 == p0
            &&& if trusted {
                a == KindleAction::ReportNetwork { callback }
            } else {
                a matches KindleAction::Refuse { callback: c, error } && c == callback && is_error(
                    error,
                    "origin_not_trusted"@,
                    "page origin is not trusted for network telemetry"@,
                )
            }
        },
    }
}

/// Whether the region of a pending Kindle refresh, if any, has edges that
/// fit.
pub open spec fn api_fits<C>(p: Option<PendingApiRefresh<C>>) -> bool {
    p matches Some(api) ==> (api.region matches Some(r) ==> rect_edges_fit(r))
}

fn kindle_step<C>(
    command: KindleCommand<C>,
    trusted: bool,
    scheduler: &mut Scheduler,
    pending: &mut Option<PendingApiRefresh<C>>,
) -> (a: KindleAction<C>)
    requires
        command matches KindleCommand::Refresh { regions, .. } ==> regions_fit(regions@),
        api_fits(*old(pending)),
    ensures
        kindle_handled(command, trusted, *old(scheduler), *final(scheduler), *old(pending), *final(pending), a),
        api_fits(*final(pending)),
{
    match command {
        KindleCommand::SetAutoRefresh { enabled, interval_ms } => {
            if trusted {
                scheduler.set_enabled(enabled);
                let interval: u64 = if interval_ms == 0 { 1 } else { interval_ms as u64 };
                scheduler.set_interval_ms(interval);
            }
            KindleAction::Done
        },
        KindleCommand::Refresh { regions, waveform, flashing, full, callback } => {
            if !trusted {
                return KindleAction::Refuse {
                    callback,
                    error: error_response(
                        "origin_not_trusted",
                        "page origin is not trusted for Kindle refresh",
                    ),
                };
            }
            let superseded = match pending.take() {
                Some(previous) => Some(
                    (
                        previous.callback,
                        error_response("superseded", "a newer Kindle refresh replaced this request"),
                    ),
                ),
                None => None,
            };
            let region = union_regions(&regions);
            let whole = full || region.is_none();
            *pending = Some(PendingApiRefresh { region, waveform, flashing, full: whole, callback });
            scheduler.request(full || flashing);
            KindleAction::RequestFrame { superseded }
        },
        KindleCommand::Battery { callback } => {
            if !trusted {
                return KindleAction::Refuse {
                    callback,
                    error: error_response(
                        "origin_not_trusted",
                        "page origin is not trusted for battery telemetry",
                    ),
                };
            }
            KindleAction::ReportBattery { callback }
        },
        KindleCommand::Network { callback } => {
            if !trusted {
                return KindleAction::Refuse {
                    callback,
                    error: error_response(
                        "origin_not_trusted",
                        "page origin is not trusted for network telemetry",
                    ),
                };
            }
            KindleAction::ReportNetwork { callback }
        },
    }
}

/// The answer to a telemetry query: what was read, or the `unavailable`
/// error with the reader's message.
pub fn telemetry_reply<T>(reading: Result<T, String>) -> (r: Result<T, ErrorResponse>)
    ensures
        match reading {
            Ok(v) => r == Ok::<T, ErrorResponse>(v),
            Err(m) => r matches Err(e) && e.code@ == "unavailable"@ && e.message@ == m@,
        },
{
    match reading {
        Ok(v) => Ok(v),
        Err(message) => Err(ErrorResponse { code: "unavailable", message }),
    }
}

/// A bounding box of the differences of two frames of `w` x `h` pixels lies
/// inside the frame.
pub proof fn lemma_bounds_inside(r: Rect, a: Seq<u8>, b: Seq<u8>, w: int, h: int)
    requires
        a.len() == w * h,
        w >= 0,
        h >= 0,
        bounds_differences(r, a, b, w),
    ensures
        r.left + r.width <= w,
        r.top + r.height <= h,
{
    let k = choose|i: int| #[trigger] pixel_differs(a, b, i) && i % w == r.left + r.width - 1;
    let j = choose|i: int| #[trigger] pixel_differs(a, b, i) && i / w == r.top + r.height - 1;
    lemma_row_col_bounds(k, w, h);
    lemma_row_col_bounds(j, w, h);
}

/// A frame ready to be committed to the panel.
pub struct CommitJob<C> {
    pub frame: GrayFrame,
    /// The logical region to refresh.
    pub region: Rect,
    pub waveform: Waveform,
    pub flashing: bool,
    /// The page's Kindle refresh that this commit answers, if any.
    pub callback: Option<C>,
}

/// What follows a commit: the answer to the page's refresh (if one was
/// waiting), and whether a new frame must be requested for a periodic full
/// refresh.
pub struct CommitFollowUp<C> {
    pub reply: Option<(C, Result<(), ErrorResponse>)>,
    pub request_frame: bool,
}

/// The frame pipeline's state as values.
pub struct PipelineView<C> {
    /// The logical frame size.
    pub width: u32,
    pub height: u32,
    /// The newest frame, waiting for its refresh.
    pub pending_frame: Option<GrayFrame>,
    /// The region that the waiting frame should refresh.
    pub pending_region: Option<Rect>,
    /// The frame last written to the panel.
    pub last_frame: Option<GrayFrame>,
    /// The refresh that the page asked for, if any.
    pub pending_api: Option<PendingApiRefresh<C>>,
    /// Refreshes since the last periodic full refresh.
    pub refresh_count: u32,
}

/// The whole logical frame.
pub open spec fn full_rect<C>(v: PipelineView<C>) -> Rect {
    Rect { left: 0, top: 0, width: v.width, height: v.height }
}

/// Frames on their way from the page to the panel.
pub struct FramePipeline<C> {
    width: u32,
    height: u32,
    pending_frame: Option<GrayFrame>,
    pending_region: Option<Rect>,
    last_frame: Option<GrayFrame>,
    pending_api: Option<PendingApiRefresh<C>>,
    refresh_count: u32,
}

impl<C> View for FramePipeline<C> {
    type V = PipelineView<C>;

    closed spec fn view(&self) -> PipelineView<C> {
        PipelineView {
            width: self.width,
            height: self.height,
            pending_frame: self.pending_frame,
            pending_region: self.pending_region,
            last_frame: self.last_frame,
            pending_api: self.pending_api,
            refresh_count: self.refresh_count,
        }
    }
}

impl<C> FramePipeline<C> {
    /// Whether the frames held are well formed and the regions held have
    /// edges that fit, as the methods keep them.
    pub closed spec fn wf(&self) -> bool {
        &&& self.pending_frame matches Some(f) ==> f.wf()
        &&& self.last_frame matches Some(f) ==> f.wf()
        &&& self.pending_region matches Some(r) ==> rect_edges_fit(r)
        &&& api_fits(self.pending_api)
    }

    /// An empty pipeline for frames of `width` x `height` pixels.
    pub fn new(width: u32, height: u32) -> (r: Self)
        ensures
            r.wf(),
            r@ == (PipelineView::<C> {
                width,
                height,
                pending_frame: None,
                pending_region: None,
                last_frame: None,
                pending_api: None,
                refresh_count: 0,
            }),
    {
        FramePipeline {
            width,
            height,
            pending_frame: None,
            pending_region: None,
            last_frame: None,
            pending_api: None,
            refresh_count: 0,
        }
    }

    /// Handles a Kindle API command (see `kindle_handled`); the pipeline
    /// holds the page's pending refresh.
    pub fn handle_kindle(
        &mut self,
        command: KindleCommand<C>,
        trusted: bool,
        scheduler: &mut Scheduler,
    ) -> (a: KindleAction<C>)
        requires
            old(self).wf(),
            command matches KindleCommand::Refresh { regions, .. } ==> regions_fit(regions@),
        ensures
            final(self).wf(),
            kindle_handled(
                command,
                trusted,
                *old(scheduler),
                *final(scheduler),
                old(self)@.pending_api,
                final(self)@.pending_api,
                a,
            ),
            final(self)@ == (PipelineView { pending_api: final(self)@.pending_api, ..old(self)@ }),
    {
        kindle_step(command, trusted, scheduler, &mut self.pending_api)
    }

    /// Records the first frame, committed at start-up whether or not that
    /// commit succeeded: it becomes the last frame, counts as the first
    /// refresh, and is committed in the scheduler and the statistics.
    pub fn record_initial(
        &mut self,
        frame: GrayFrame,
        now: Instant,
        scheduler: &mut Scheduler,
        stats: &mut RefreshStats,
    )
        requires
            old(self).wf(),
            frame.wf(),
            old(scheduler).spec_sequence() < u64::MAX,
            old(stats).successful < u64::MAX,
        ensures
            final(self).wf(),
            final(self)@ == (PipelineView {
                last_frame: Some(frame),
                refresh_count: 1,
                ..old(self)@
            }),
            *final(scheduler) == old(scheduler).spec_committed(now),
            *final(stats) == (RefreshStats {
                sequence: (old(scheduler).spec_sequence() + 1) as u64,
                successful: (old(stats).successful + 1) as u64,
                last_region: Some((0u32, 0u32, old(self)@.width, old(self)@.height)),
                last_refresh: Some(now),
                ..*old(stats)
            }),
    {
        self.refresh_count = 1;
        let sequence = scheduler.commit(now);
        stats.record_success(sequence, (0, 0, self.width, self.height), now);
        self.last_frame = Some(frame);
    }

    /// Takes a new frame from the page. With a Kindle refresh pending, the
    /// frame waits for the region it asked for (the whole frame when full or
    /// when it gave none). Otherwise it waits only when something changed
    /// since the last frame, for the changed region, or when a full refresh
    /// is requested, for the whole frame; else it is dropped.
    pub fn offer_frame(&mut self, frame: GrayFrame, scheduler: &mut Scheduler)
        requires
            old(self).wf(),
            frame.wf(),
        ensures
            final(self).wf(),
            match old(self)@.pending_api {
                Some(api) => {
                    &&& final(self)@ == (PipelineView {
                        pending_frame: Some(frame),
                        pending_region: Some(
                            if api.full {
                                full_rect(old(self)@)
                            } else {
                                match api.region {
                                    Some(r) => r,
                                    None => full_rect(old(self)@),
                                }
                            },
                        ),
                        ..old(self)@
                    })
                    &&& *final(scheduler) == old(scheduler).spec_requested(api.full || api.flashing)
                },
                None => match changed_region_of(frame, old(self)@.last_frame) {
                    Some(r) => {
                        &&& final(self)@ == (PipelineView {
                            pending_frame: Some(frame),
                            pending_region: Some(r),
                            ..old(self)@
                        })
                        &&& *final(scheduler) == old(scheduler).spec_requested(false)
                    },
                    None => {
                        &&& *final(scheduler) == *old(scheduler)
                        &&& if old(scheduler).spec_pending_full() {
                            final(self)@ == (PipelineView {
                                pending_frame: Some(frame),
                                pending_region: Some(full_rect(old(self)@)),
                                ..old(self)@
                            })
                        } else {
                            final(self)@ == old(self)@
                        }
                    },
                },
            },
    {
        let full = Rect::full(self.width, self.height);
        match &self.pending_api {
            Some(api) => {
                let region = if api.full {
                    full
                } else {
                    match api.region {
                        Some(r) => r,
                        None => full,
                    }
                };
                scheduler.request(api.full || api.flashing);
                self.pending_region = Some(region);
                self.pending_frame = Some(frame);
            },
            None => {
                let changed = frame.changed_region(self.last_frame.as_ref());
                match changed {
                    Some(region) => {
                        proof {
                            let last = self.last_frame;
                            if last is Some && last->0.width == frame.width && last->0.height
                                == frame.height {
                                lemma_bounds_inside(
                                    region,
                                    frame.pixels@,
                                    last->0.pixels@,
                                    frame.width as int,
                                    frame.height as int,
                                );
                            }
                        }
                        self.pending_region = Some(region);
                        self.pending_frame = Some(frame);
                        scheduler.request(false);
                    },
                    None => {
                        if scheduler.full_requested() {
                            self.pending_region = Some(full);
                            self.pending_frame = Some(frame);
                        }
                    },
                }
            },
        }
    }

    /// When a refresh is due: takes the waiting frame with its region,
    /// waveform and flash, and marks the runtime refreshing. The page's
    /// Kindle refresh decides the waveform and flash, and the region (the
    /// whole frame when full or flashing); otherwise the default waveform is
    /// used, without flash, and a requested full refresh is taken for the
    /// whole frame. Without a waiting frame nothing happens.
    pub fn take_commit(
        &mut self,
        default_waveform: Waveform,
        scheduler: &mut Scheduler,
        state: &mut State,
    ) -> (job: Option<CommitJob<C>>)
        requires
            old(self).wf(),
        ensures
            final(self).wf(),
            old(self)@.pending_frame is None ==> job is None && final(self)@ == old(self)@
                && *final(scheduler) == *old(scheduler) && *final(state) == *old(state),
            old(self)@.pending_frame matches Some(f) ==> job matches Some(j) && {
                let base = match old(self)@.pending_region {
                    Some(r) => r,
                    None => full_rect(old(self)@),
                };
                &&& j.frame == f
                &&& j.frame.wf()
                &&& rect_edges_fit(j.region)
                &&& final(self)@ == (PipelineView {
                    pending_frame: None,
                    pending_region: None,
                    pending_api: None,
                    ..old(self)@
                })
                &&& *final(state) == State::Refreshing
                &&& match old(self)@.pending_api {
                    Some(api) => {
                        &&& j.waveform == api.waveform
                        &&& j.flashing == api.flashing
                        &&& j.callback == Some(api.callback)
                        &&& j.region == if api.full || api.flashing {
                            full_rect(old(self)@)
                        } else {
                            match api.region {
                                Some(r) => r,
                                None => base,
                            }
                        }
                        &&& *final(scheduler) == *old(scheduler)
                    },
                    None => {
                        &&& j.waveform == default_waveform
                        &&& !j.flashing
                        &&& j.callback is None
                        &&& j.region == if old(scheduler).spec_pending_full() {
                            full_rect(old(self)@)
                        } else {
                            base
                        }
                        &&& *final(scheduler) == old(scheduler).spec_full_taken()
                    },
                }
            },
    {
        let frame = match self.pending_frame.take() {
            Some(f) => f,
            None => return None,
        };
        let full = Rect::full(self.width, self.height);
        let api = self.pending_api.take();
        let mut region = match self.pending_region.take() {
            Some(r) => r,
            None => full,
        };
        let mut waveform = default_waveform;
        let mut flashing = false;
        let callback = match api {
            Some(api) => {
                waveform = api.waveform;
                flashing = api.flashing;
                if api.full || api.flashing {
                    region = full;
                } else {
                    match api.region {
                        Some(r) => {
                            region = r;
                        },
                        None => {},
                    }
                }
                Some(api.callback)
            },
            None => {
                if scheduler.take_full_request() {
                    region = full;
                }
                None
            },
        };
        *state = State::Refreshing;
        Some(CommitJob { frame, region, waveform, flashing, callback })
    }

    /// Accounts for the commit of `job` and marks the runtime running again.
    /// A committed frame becomes the last frame, is committed in the
    /// scheduler and the statistics, and answers the page's refresh; every
    /// `full_refresh_interval` refreshes (when periodic full refreshes are
    /// on) a full refresh is requested and the count starts over. A failed
    /// commit is counted and reported to the page as `commit_failed`.
    pub fn finish_commit(
        &mut self,
        job: CommitJob<C>,
        result: Result<(), String>,
        now: Instant,
        flags: &RuntimeFlags,
        scheduler: &mut Scheduler,
        stats: &mut RefreshStats,
        state: &mut State,
    ) -> (f: CommitFollowUp<C>)
        requires
            old(self).wf(),
            job.frame.wf(),
            result is Ok ==> old(scheduler).spec_sequence() < u64::MAX && old(stats).successful
                < u64::MAX && old(self)@.refresh_count < u32::MAX,
            result is Err ==> old(stats).failed < u64::MAX,
        ensures
            final(self).wf(),
            *final(state) == State::Running,
            match result {
                Ok(()) => {
                    let count = (old(self)@.refresh_count + 1) as u32;
                    let periodic = flags.periodic_full_refresh && count
                        >= flags.full_refresh_interval;
                    &&& final(self)@ == (PipelineView {
                        last_frame: Some(job.frame),
                        refresh_count: if periodic { 0 } else { count },
                        ..old(self)@
                    })
                    &&& *final(scheduler) == if periodic {
                        old(scheduler).spec_committed(now).spec_requested(true)
                    } else {
                        old(scheduler).spec_committed(now)
                    }
                    &&& f.request_frame == periodic
                    &&& *final(stats) == (RefreshStats {
                        sequence: (old(scheduler).spec_sequence() + 1) as u64,
                        successful: (old(stats).successful + 1) as u64,
                        last_region: Some(
                            (job.region.left, job.region.top, job.region.width, job.region.height),
                        ),
                        last_refresh: Some(now),
                        ..*old(stats)
                    })
                    &&& match job.callback {
                        Some(c) => f.reply == Some((c, Ok::<(), ErrorResponse>(()))),
                        None => f.reply is None,
                    }
                },
                Err(m) => {
                    &&& final(self)@ == old(self)@
                    &&& *final(scheduler) == *old(scheduler)
                    &&& !f.request_frame
                    &&& *final(stats) == (RefreshStats {
                        failed: (old(stats).failed + 1) as u64,
                        ..*old(stats)
                    })
                    &&& match job.callback {
                        Some(c) => f.reply matches Some((cb, Err(e))) && cb == c && is_error(
                            e,
                            "commit_failed"@,
                            m@,
                        ),
                        None => f.reply is None,
                    }
                },
            },
    {
        let CommitJob { frame, region, waveform: _, flashing: _, callback } = job;
        match result {
            Ok(()) => {
                self.last_frame = Some(frame);
                let sequence = scheduler.commit(now);
                self.refresh_count = self.refresh_count + 1;
                stats.record_success(
                    sequence,
                    (region.left, region.top, region.width, region.height),
                    now,
                );
                let reply = match callback {
                    Some(c) => Some((c, Ok(()))),
                    None => None,
                };
                *state = State::Running;
                let mut request_frame = false;
                if flags.periodic_full_refresh && self.refresh_count >= flags.full_refresh_interval {
                    self.refresh_count = 0;
                    scheduler.request(true);
                    request_frame = true;
                }
                CommitFollowUp { reply, request_frame }
            },
            Err(message) => {
                stats.record_failure();
                let reply = match callback {
                    Some(c) => Some((c, Err(ErrorResponse { code: "commit_failed", message }))),
                    None => None,
                };
                *state = State::Running;
                CommitFollowUp { reply, request_frame: false }
            },
        }
    }
}

/// Privileged calls are limited to trusted pages: a command from a page
/// whose origin is not trusted changes neither the scheduler nor the pending
/// refresh, and is either dropped (pacing) or refused.
pub proof fn lemma_untrusted_commands_change_nothing<C>(
    command: KindleCommand<C>,
    s0: Scheduler,
    s1: Scheduler,
    p0: Option<PendingApiRefresh<C>>,
    p1: Option<PendingApiRefresh<C>>,
    a: KindleAction<C>,
)
    requires
        kindle_handled(command, false, s0, s1, p0, p1, a),
    ensures
        s1 == s0,
        p1 == p0,
        a is Done || a is Refuse,
{
}

/// A trusted refresh always leaves exactly one refresh pending, its own,
/// and asks the page for a frame.
pub proof fn lemma_newest_refresh_wins<C>(
    command: KindleCommand<C>,
    s0: Scheduler,
    s1: Scheduler,
    p0: Option<PendingApiRefresh<C>>,
    p1: Option<PendingApiRefresh<C>>,
    a: KindleAction<C>,
)
    requires
        kindle_handled(command, true, s0, s1, p0, p1, a),
        command is Refresh,
    ensures
        p1 matches Some(p) && p.callback == command->Refresh_callback,
        a is RequestFrame,
        s1.spec_pending(),
{
    crate::display::lemma_request_effect(s0, command->Refresh_full || command->Refresh_flashing);
}

/// With periodic full refreshes on, the count of refreshes since the last
/// full one stays below the interval after every successful commit (or
/// starts over at zero), and a full refresh is requested when it starts
/// over.
pub proof fn lemma_periodic_full_refresh(count: u32, flags: RuntimeFlags)
    requires
        count < u32::MAX,
        flags.periodic_full_refresh,
    ensures
        ({
            let next = (count + 1) as u32;
            let periodic = flags.periodic_full_refresh && next >= flags.full_refresh_interval;
            let after: u32 = if periodic { 0 } else { next };
            after < flags.full_refresh_interval || after == 0
        }),
{
}

} // verus!
