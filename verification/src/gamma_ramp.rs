//! Colour lookup tables, and the controller that applies them to display
//! devices and restores what the devices held before.
//!
//! The controller never touches a device itself. An operation on devices is a
//! `DeviceJob`; `GammaRampController::advance` takes the job together with
//! what the last device access gave, and answers with the next access to
//! make, or with the operation's result.

use crate::error::{
    failure_views, outcome_view, texts, DeviceFailure, DeviceFailureView, FilterError,
    FilterErrorView,
};
use crate::string_map::StringMap;
use crate::types::{color_value, lemma_color_value_monotone, FilterConfig};
use vstd::prelude::*;

verus! {

/// Whether no entry of `values` is below an earlier one.
pub open spec fn never_falls(values: Seq<u32>) -> bool {
    forall|i: int, j: int| 0 <= i <= j < values.len() ==> values[i] <= values[j]
}

/// The gamma-corrected intensity of each of the 256 input levels, as a
/// numerator over `GAMMA_SCALE`: the level's `contrasted_level` raised to the
/// power 1 / gamma. As the power of a base that rises with the level, it
/// never falls from a level to a higher one.
#[derive(Clone, Copy, Debug, PartialEq, Eq)]
pub struct GammaCurve {
    values: [u32; 256],
}

impl View for GammaCurve {
    type V = Seq<u32>;

    /// The intensities, by level.
    closed spec fn view(&self) -> Seq<u32> {
        self.values@
    }
}

impl GammaCurve {
    /// The curve never falls.
    #[verifier::type_invariant]
    closed spec fn rising(&self) -> bool {
        never_falls(self.values@)
    }

    /// The curve of the intensities `values`, if they never fall from a
    /// level to a higher one.
    pub fn new(values: [u32; 256]) -> (curve: Option<Self>)
        ensures
            match curve {
                Some(curve) => curve@ == values@ && never_falls(values@),
                None => !never_falls(values@),
            },
    {
        let mut i: usize = 0;
        while i < 255
            invariant
                i <= 255,
                forall|a: int, b: int| 0 <= a <= b <= i ==> values@[a] <= values@[b],
            decreases 255 - i,
        {
            if values[i] > values[i + 1] {
                return None;
            }
            assert forall|a: int, b: int| 0 <= a <= b <= i + 1 implies values@[a] <= values@[b] by {
                if b == i + 1 && a <= i {
                    assert(values@[a] <= values@[i as int]);
                }
            }
            i = i + 1;
        }
        Some(GammaCurve { values })
    }

    /// The intensities, by level.
    pub fn values(&self) -> (values: &[u32; 256])
        ensures
            values@ == self@,
            never_falls(self@),
    {
        proof {
            use_type_invariant(self);
        }
        &self.values
    }
}

/// A colour lookup table: for each channel, the output intensity for each of
/// the 256 input levels.
#[derive(Clone, Copy, Debug, PartialEq, Eq)]
pub struct GammaRamp {
    pub red: [u16; 256],
    pub green: [u16; 256],
    pub blue: [u16; 256],
}

impl GammaRamp {
    /// Every channel maps level `i` to `256 * i`.
    pub open spec fn is_linear(&self) -> bool {
        forall|i: int|
            0 <= i < 256 ==> self.red[i] == 256 * i && self.green[i] == 256 * i && self.blue[i]
                == 256 * i
    }

    /// The table holds, for each channel and level, the colour value of
    /// `config` for the gamma-corrected intensity that `gamma_curve` gives
    /// for the level.
    pub open spec fn is_curve_of(&self, config: FilterConfig, gamma_curve: Seq<u32>) -> bool {
        forall|i: int|
            0 <= i < 256 ==> {
                &&& self.red[i] == color_value(
                    config.brightness as int,
                    config.red_scale as int,
                    gamma_curve[i] as int,
                )
                &&& self.green[i] == color_value(
                    config.brightness as int,
                    config.green_scale as int,
                    gamma_curve[i] as int,
                )
                &&& self.blue[i] == color_value(
                    config.brightness as int,
                    config.blue_scale as int,
                    gamma_curve[i] as int,
                )
            }
    }

    /// No channel maps a level to less than it maps a lower level to.
    pub open spec fn never_falls(&self) -> bool {
        forall|i: int, j: int|
            0 <= i <= j < 256 ==> self.red[i] <= self.red[j] && self.green[i] <= self.green[j]
                && self.blue[i] <= self.blue[j]
    }

    /// Builds the table of `config` from the gamma-corrected intensities of
    /// the levels. The table of a valid configuration never falls from a
    /// level to a higher one: the entry of level 0 is never above that of
    /// level 255.
    pub fn from_config(config: &FilterConfig, gamma_curve: &GammaCurve) -> (ramp: Self)
        ensures
            ramp.is_curve_of(*config, gamma_curve@),
            config.is_valid() ==> ramp.never_falls(),
            config.is_valid() ==> ramp.red[0] <= ramp.red[255] && ramp.green[0] <= ramp.green[255]
                && ramp.blue[0] <= ramp.blue[255],
    {
        let gamma_curve = gamma_curve.values();
        let mut ramp = GammaRamp { red: [0u16; 256], green: [0u16; 256], blue: [0u16; 256] };
        let mut i: usize = 0;
        while i < 256
            invariant
                i <= 256,
                forall|j: int|
                    0 <= j < i ==> {
                        &&& ramp.red[j] == color_value(
                            config.brightness as int,
                            config.red_scale as int,
                            gamma_curve[j] as int,
                        )
                        &&& ramp.green[j] == color_value(
                            config.brightness as int,
                            config.green_scale as int,
                            gamma_curve[j] as int,
                        )
                        &&& ramp.blue[j] == color_value(
                            config.brightness as int,
                            config.blue_scale as int,
                            gamma_curve[j] as int,
                        )
                    },
            decreases 256 - i,
        {
            let corrected = gamma_curve[i];
            ramp.red[i] = config.calculate_color_value(config.red_scale, corrected);
            ramp.green[i] = config.calculate_color_value(config.green_scale, corrected);
            ramp.blue[i] = config.calculate_color_value(config.blue_scale, corrected);
            i = i + 1;
        }
        proof {
            if config.is_valid() {
                assert forall|i: int, j: int| 0 <= i <= j < 256 implies ramp.red[i] <= ramp.red[j]
                    && ramp.green[i] <= ramp.green[j] && ramp.blue[i] <= ramp.blue[j] by {
                    lemma_table_rises_with_curve(ramp, *config, gamma_curve@, i, j);
                }
            }
        }
        ramp
    }
}

impl Default for GammaRamp {
    /// The linear table, which shows every level as it is.
    fn default() -> (ramp: Self)
        ensures
            ramp.is_linear(),
    {
        let mut ramp = GammaRamp { red: [0u16; 256], green: [0u16; 256], blue: [0u16; 256] };
        let mut i: usize = 0;
        while i < 256
            invariant
                i <= 256,
                forall|j: int|
                    0 <= j < i ==> ramp.red[j] == 256 * j && ramp.green[j] == 256 * j
                        && ramp.blue[j] == 256 * j,
            decreases 256 - i,
        {
            let value: u16 = (i * 256) as u16;
            ramp.red[i] = value;
            ramp.green[i] = value;
            ramp.blue[i] = value;
            i = i + 1;
        }
        ramp
    }
}

/// Whether a job reads a device's table before it first writes to the device.
#[derive(Clone, Copy, Debug, PartialEq, Eq, Structural)]
pub enum Capture {
    /// The job reads nothing.
    Never,
    /// The job reads where the controller holds no original yet, and writes
    /// even if the read fails.
    WhereMissing,
}

/// What is to happen to the preset catalogue once a job has succeeded.
#[derive(Clone, Debug, PartialEq, Eq)]
pub enum Followup {
    /// The catalogue stays as it is.
    Nothing,
    /// The preset becomes the active one.
    Activate { preset_id: String },
    /// No preset is active any more.
    Deactivate,
}

/// The mathematical value of a `Followup`.
pub enum FollowupView {
    Nothing,
    Activate { preset_id: Seq<char> },
    Deactivate,
}

impl View for Followup {
    type V = FollowupView;

    open spec fn view(&self) -> FollowupView {
        match *self {
            Followup::Nothing => FollowupView::Nothing,
            Followup::Activate { preset_id } => FollowupView::Activate { preset_id: preset_id@ },
            Followup::Deactivate => FollowupView::Deactivate,
        }
    }
}

/// A table that a job is to write to a device.
#[derive(Clone, Debug, PartialEq, Eq)]
pub struct PlannedWrite {
    pub device: String,
    pub ramp: GammaRamp,
}

/// The mathematical value of a `PlannedWrite`.
pub struct PlannedWriteView {
    pub device: Seq<char>,
    pub ramp: GammaRamp,
}

impl View for PlannedWrite {
    type V = PlannedWriteView;

    open spec fn view(&self) -> PlannedWriteView {
        PlannedWriteView { device: self.device@, ramp: self.ramp }
    }
}

/// What a device access gave.
#[derive(Debug, PartialEq, Eq)]
pub enum DeviceEvent {
    /// Nothing was accessed yet.
    Begin,
    /// The read that the job asked for ended, with the device's table or the cause of failure.
    ReadFinished(Result<GammaRamp, String>),
    /// The write that the job asked for ended.
    WriteFinished(Result<(), String>),
}

/// An operation on devices, under way.
#[derive(Clone, Debug, PartialEq, Eq)]
pub struct DeviceJob {
    steps: Vec<PlannedWrite>,
    position: usize,
    capture: Capture,
    read_failed: bool,
    clear_cache: bool,
    single: bool,
    succeeded: Vec<String>,
    failed: Vec<DeviceFailure>,
    followup: Followup,
}

/// The mathematical value of a `DeviceJob`.
pub struct DeviceJobView {
    /// The writes to make, in order.
    pub steps: Seq<PlannedWriteView>,
    /// How many of the steps are dealt with.
    pub position: nat,
    pub capture: Capture,
    /// The read for the current step was tried and failed.
    pub read_failed: bool,
    /// The controller forgets all originals when the job ends.
    pub clear_cache: bool,
    /// The job is about one device, and reports a failure as that device's.
    pub single: bool,
    /// The devices written so far.
    pub succeeded: Seq<Seq<char>>,
    /// The devices given up so far, each with the cause.
    pub failed: Seq<DeviceFailureView>,
    pub followup: FollowupView,
}

/// The values of `steps`.
pub open spec fn step_views(steps: Seq<PlannedWrite>) -> Seq<PlannedWriteView> {
    steps.map_values(|step: PlannedWrite| step@)
}

impl View for DeviceJob {
    type V = DeviceJobView;

    closed spec fn view(&self) -> DeviceJobView {
        DeviceJobView {
            steps: step_views(self.steps@),
            position: self.position as nat,
            capture: self.capture,
            read_failed: self.read_failed,
            clear_cache: self.clear_cache,
            single: self.single,
            succeeded: texts(self.succeeded@),
            failed: failure_views(self.failed@),
            followup: self.followup@,
        }
    }
}

impl DeviceJobView {
    /// Every step is dealt with.
    pub open spec fn is_complete(self) -> bool {
        self.position >= self.steps.len()
    }

    /// The device of the current step.
    pub open spec fn device(self) -> Seq<char> {
        self.steps[self.position as int].device
    }

    /// The job waits for the current device's table to be read.
    pub open spec fn awaits_read(self, cache: Map<Seq<char>, GammaRamp>) -> bool {
        &&& !self.is_complete()
        &&& self.capture != Capture::Never
        &&& !self.read_failed
        &&& !cache.contains_key(self.device())
    }

    /// The job waits for the current step's table to be written.
    pub open spec fn awaits_write(self, cache: Map<Seq<char>, GammaRamp>) -> bool {
        !self.is_complete() && !self.awaits_read(cache)
    }

    /// The job with the current device written.
    pub open spec fn written(self) -> DeviceJobView {
        DeviceJobView {
            position: self.position + 1,
            read_failed: false,
            succeeded: self.succeeded.push(self.device()),
            ..self
        }
    }

    /// The job with the current device given up for `cause`.
    pub open spec fn given_up(self, cause: Seq<char>) -> DeviceJobView {
        DeviceJobView {
            position: self.position + 1,
            read_failed: false,
            failed: self.failed.push(DeviceFailureView { device: self.device(), cause }),
            ..self
        }
    }

    /// What the job has come to: success if no device was given up;
    /// otherwise the failure of the one device for a job about one device,
    /// and for any other job the devices written and those given up.
    pub open spec fn result(self) -> Result<(), FilterErrorView> {
        if self.failed.len() == 0 {
            Ok(())
        } else if self.single {
            Err(
                FilterErrorView::DeviceError {
                    device: self.failed[0].device,
                    cause: self.failed[0].cause,
                },
            )
        } else {
            Err(FilterErrorView::PartialFailure { succeeded: self.succeeded, failed: self.failed })
        }
    }

    /// The job after `event`. An event that does not answer what the job
    /// waits for changes nothing.
    pub open spec fn after(self, cache: Map<Seq<char>, GammaRamp>, event: DeviceEvent)
        -> DeviceJobView {
        match event {
            DeviceEvent::Begin => self,
            DeviceEvent::ReadFinished(Ok(_)) => self,
            DeviceEvent::ReadFinished(Err(_)) => if self.awaits_read(cache) {
                DeviceJobView { read_failed: true, ..self }
            } else {
                self
            },
            DeviceEvent::WriteFinished(Ok(())) => if self.awaits_write(cache) {
                self.written()
            } else {
                self
            },
            DeviceEvent::WriteFinished(Err(cause)) => if self.awaits_write(cache) {
                self.given_up(cause@)
            } else {
                self
            },
        }
    }

    /// The originals that the controller holds after `event`: a table that
    /// was read for the job is kept as the device's original.
    pub open spec fn cache_after(self, cache: Map<Seq<char>, GammaRamp>, event: DeviceEvent)
        -> Map<Seq<char>, GammaRamp> {
        match event {
            DeviceEvent::ReadFinished(Ok(ramp)) => if self.awaits_read(cache) {
                cache.insert(self.device(), ramp)
            } else {
                cache
            },
            _ => cache,
        }
    }

    /// What is to be done next for the job.
    pub open spec fn next(self, cache: Map<Seq<char>, GammaRamp>) -> DeviceActionView {
        if self.is_complete() {
            DeviceActionView::Done { result: self.result(), followup: self.followup }
        } else if self.awaits_read(cache) {
            DeviceActionView::Read { job: self, device: self.device() }
        } else {
            DeviceActionView::Write {
                job: self,
                device: self.device(),
                ramp: self.steps[self.position as int].ramp,
            }
        }
    }

    /// The originals that the controller holds once the next action is
    /// given out: a job that forgets the originals does so when it ends.
    pub open spec fn cache_kept(self, cache: Map<Seq<char>, GammaRamp>) -> Map<
        Seq<char>,
        GammaRamp,
    > {
        if self.is_complete() && self.clear_cache {
            Map::empty()
        } else {
            cache
        }
    }
}

/// What the caller is to do for a job.
#[derive(Debug, PartialEq, Eq)]
pub enum DeviceAction {
    /// Read the table of `device` and report it with `DeviceEvent::ReadFinished`.
    Read { job: DeviceJob, device: String },
    /// Write `ramp` to `device` and report with `DeviceEvent::WriteFinished`.
    Write { job: DeviceJob, device: String, ramp: GammaRamp },
    /// The job has ended with `result`.
    Done { result: Result<(), FilterError>, followup: Followup },
}

/// The mathematical value of a `DeviceAction`.
pub enum DeviceActionView {
    Read { job: DeviceJobView, device: Seq<char> },
    Write { job: DeviceJobView, device: Seq<char>, ramp: GammaRamp },
    Done { result: Result<(), FilterErrorView>, followup: FollowupView },
}

impl View for DeviceAction {
    type V = DeviceActionView;

    open spec fn view(&self) -> DeviceActionView {
        match *self {
            DeviceAction::Read { job, device } => DeviceActionView::Read {
                job: job@,
                device: device@,
            },
            DeviceAction::Write { job, device, ramp } => DeviceActionView::Write {
                job: job@,
                device: device@,
                ramp,
            },
            DeviceAction::Done { result, followup } => DeviceActionView::Done {
                result: outcome_view(result),
                followup: followup@,
            },
        }
    }
}

/// The steps that write `ramp` to each of `devices`, in order.
pub open spec fn uniform_steps(devices: Seq<Seq<char>>, ramp: GammaRamp) -> Seq<PlannedWriteView> {
    devices.map_values(|device: Seq<char>| PlannedWriteView { device, ramp })
}

/// A job at its start, with nothing written and nothing given up.
pub open spec fn fresh_job(
    steps: Seq<PlannedWriteView>,
    capture: Capture,
    clear_cache: bool,
    single: bool,
) -> DeviceJobView {
    DeviceJobView {
        steps,
        position: 0,
        capture,
        read_failed: false,
        clear_cache,
        single,
        succeeded: Seq::empty(),
        failed: Seq::empty(),
        followup: FollowupView::Nothing,
    }
}

/// The steps of `job` write back exactly the originals in `cache`, each
/// device once.
pub open spec fn restores(steps: Seq<PlannedWriteView>, cache: Map<Seq<char>, GammaRamp>) -> bool {
    &&& forall|i: int, j: int|
        0 <= i < steps.len() && 0 <= j < steps.len() && i != j ==> steps[i].device
            != steps[j].device
    &&& forall|i: int|
        0 <= i < steps.len() ==> cache.contains_key(#[trigger] steps[i].device)
            && steps[i].ramp == cache[steps[i].device]
    &&& forall|device: Seq<char>| #[trigger]
        cache.contains_key(device) ==> exists|i: int|
            0 <= i < steps.len() && steps[i].device == device
}

/// Where the gamma-corrected intensity does not fall from level `low` to
/// level `high`, no channel of the table of a valid configuration falls
/// either; so the table's entry for level 0 is never above that for level
/// 255 where the same holds of the curve.
pub proof fn lemma_table_rises_with_curve(
    ramp: GammaRamp,
    config: FilterConfig,
    gamma_curve: Seq<u32>,
    low: int,
    high: int,
)
    requires
        config.is_valid(),
        ramp.is_curve_of(config, gamma_curve),
        0 <= low <= high < 256,
        gamma_curve[low] <= gamma_curve[high],
    ensures
        ramp.red[low] <= ramp.red[high],
        ramp.green[low] <= ramp.green[high],
        ramp.blue[low] <= ramp.blue[high],
{
    let lower = gamma_curve[low] as int;
    let upper = gamma_curve[high] as int;
    lemma_color_value_monotone(config.brightness as int, config.red_scale as int, lower, upper);
    lemma_color_value_monotone(config.brightness as int, config.green_scale as int, lower, upper);
    lemma_color_value_monotone(config.brightness as int, config.blue_scale as int, lower, upper);
}

/// A reset that follows a reset finds nothing to restore: when a job that
/// forgets the originals has ended, the job that `reset` then starts has no
/// step, so it asks for no device access, ends at once with success, and
/// leaves the controller without originals.
pub proof fn lemma_reset_after_reset(
    first: DeviceJobView,
    cache: Map<Seq<char>, GammaRamp>,
    last: DeviceEvent,
    second: DeviceJobView,
    event: DeviceEvent,
)
    requires
        first.clear_cache,
        first.after(cache, last).is_complete(),
        restores(second.steps, first.after(cache, last).cache_kept(first.cache_after(cache, last))),
        second == fresh_job(second.steps, Capture::Never, true, false),
    ensures
        first.after(cache, last).cache_kept(first.cache_after(cache, last)) == Map::<
            Seq<char>,
            GammaRamp,
        >::empty(),
        second.steps.len() == 0,
        second.after(Map::empty(), event).next(second.cache_after(Map::empty(), event))
            == (DeviceActionView::Done { result: Ok(()), followup: FollowupView::Nothing }),
        second.after(Map::empty(), event).cache_kept(second.cache_after(Map::empty(), event))
            == Map::<Seq<char>, GammaRamp>::empty(),
{
    let held = first.after(cache, last).cache_kept(first.cache_after(cache, last));
    assert(held == Map::<Seq<char>, GammaRamp>::empty());
    if second.steps.len() > 0 {
        assert(held.contains_key(second.steps[0].device));
    }
}

/// An original is read once: whatever the event, the controller keeps every
/// original that it holds, unchanged, until a job that forgets the originals
/// ends.
pub proof fn lemma_original_kept(
    job: DeviceJobView,
    cache: Map<Seq<char>, GammaRamp>,
    event: DeviceEvent,
    device: Seq<char>,
)
    requires
        cache.contains_key(device),
    ensures
        job.cache_after(cache, event).contains_key(device),
        job.cache_after(cache, event)[device] == cache[device],
{
}

impl DeviceJobView {
    /// An upper bound on the device accesses that the job still asks for:
    /// two for the current step where its read is still to come, one where
    /// only its write is, and two for every later step.
    pub open spec fn accesses_left(self, cache: Map<Seq<char>, GammaRamp>) -> nat {
        if self.is_complete() {
            0
        } else if self.awaits_read(cache) {
            (2 * (self.steps.len() - self.position)) as nat
        } else {
            (2 * (self.steps.len() - self.position) - 1) as nat
        }
    }

    /// Whether `event` answers what the job waits for.
    pub open spec fn answers(self, cache: Map<Seq<char>, GammaRamp>, event: DeviceEvent) -> bool {
        match event {
            DeviceEvent::Begin => false,
            DeviceEvent::ReadFinished(_) => self.awaits_read(cache),
            DeviceEvent::WriteFinished(_) => self.awaits_write(cache),
        }
    }
}

/// Every answer brings a job nearer its end: an event that answers what the
/// job waits for lowers the bound on the accesses still to come, and any
/// other event leaves job and originals as they are. So a job over `n`
/// devices ends after at most `2 * n` accesses.
pub proof fn lemma_answer_makes_progress(
    job: DeviceJobView,
    cache: Map<Seq<char>, GammaRamp>,
    event: DeviceEvent,
)
    ensures
        job.answers(cache, event) ==> job.after(cache, event).accesses_left(
            job.cache_after(cache, event),
        ) < job.accesses_left(cache),
        !job.answers(cache, event) ==> job.after(cache, event) == job && job.cache_after(
            cache,
            event,
        ) == cache,
        job.accesses_left(cache) <= 2 * job.steps.len(),
        job.accesses_left(cache) == 0 <==> job.is_complete(),
{
}

/// How a job deals with one device.
///
/// Where the job waits for the device's table, the answer `read` is taken
/// in: a table read becomes the device's original, and a failure is passed
/// over. Either way the job then asks for the step's table to be written to
/// the device. With the answer `write` the step is dealt with: the device is
/// noted as written, or as given up with the cause of the failed write, and
/// the originals stay as they were before the write. So a device whose write
/// fails stops no other device from being written.
pub proof fn lemma_device_dealt_with(
    job: DeviceJobView,
    cache: Map<Seq<char>, GammaRamp>,
    read: Result<GammaRamp, String>,
    write: Result<(), String>,
)
    requires
        !job.is_complete(),
        !job.read_failed,
    ensures
        ({
            let asked = job.awaits_read(cache);
            let read_event = DeviceEvent::ReadFinished(read);
            let write_event = DeviceEvent::WriteFinished(write);
            let read_job = if asked {
                job.after(cache, read_event)
            } else {
                job
            };
            let read_cache = if asked {
                job.cache_after(cache, read_event)
            } else {
                cache
            };
            let done_job = read_job.after(read_cache, write_event);
            let done_cache = read_job.cache_after(read_cache, write_event);
            &&& read_cache == match read {
                Ok(table) => if asked {
                    cache.insert(job.device(), table)
                } else {
                    cache
                },
                Err(_) => cache,
            }
            &&& read_job.next(read_cache) == (DeviceActionView::Write {
                job: read_job,
                device: job.device(),
                ramp: job.steps[job.position as int].ramp,
            })
            &&& done_cache == read_cache
            &&& done_job.position == job.position + 1
            &&& done_job.steps == job.steps
            &&& !done_job.read_failed
            &&& match write {
                Ok(()) => done_job.succeeded == job.succeeded.push(job.device())
                    && done_job.failed == job.failed,
                Err(cause) => done_job.succeeded == job.succeeded && done_job.failed
                    == job.failed.push(
                    DeviceFailureView { device: job.device(), cause: cause@ },
                ),
            }
        }),
{
}

/// The devices among the first `count` steps whose write succeeded, in the
/// order of the steps, where the write of step `i` gives `writes[i]`.
pub open spec fn devices_written(
    steps: Seq<PlannedWriteView>,
    writes: Seq<Result<(), String>>,
    count: nat,
) -> Seq<Seq<char>>
    decreases count,
{
    if count == 0 {
        Seq::empty()
    } else {
        let before = devices_written(steps, writes, (count - 1) as nat);
        match writes[count - 1] {
            Ok(()) => before.push(steps[count - 1].device),
            Err(_) => before,
        }
    }
}

/// The devices among the first `count` steps whose write failed, each with
/// the cause, in the order of the steps.
pub open spec fn devices_given_up(
    steps: Seq<PlannedWriteView>,
    writes: Seq<Result<(), String>>,
    count: nat,
) -> Seq<DeviceFailureView>
    decreases count,
{
    if count == 0 {
        Seq::empty()
    } else {
        let before = devices_given_up(steps, writes, (count - 1) as nat);
        match writes[count - 1] {
            Ok(()) => before,
            Err(cause) => before.push(
                DeviceFailureView { device: steps[count - 1].device, cause: cause@ },
            ),
        }
    }
}

/// The originals held once the first `count` steps are dealt with, where
/// reading the device of step `i` gives `reads[i]`: a job that reads adds
/// the table read for each device of which none was held.
pub open spec fn originals_after(
    cache: Map<Seq<char>, GammaRamp>,
    steps: Seq<PlannedWriteView>,
    reads: Seq<Result<GammaRamp, String>>,
    capture: Capture,
    count: nat,
) -> Map<Seq<char>, GammaRamp>
    decreases count,
{
    if count == 0 {
        cache
    } else {
        let before = originals_after(cache, steps, reads, capture, (count - 1) as nat);
        match reads[count - 1] {
            Ok(table) => if capture != Capture::Never && !before.contains_key(
                steps[count - 1].device,
            ) {
                before.insert(steps[count - 1].device, table)
            } else {
                before
            },
            Err(_) => before,
        }
    }
}

impl DeviceJobView {
    /// The job at its start: no step dealt with, nothing written and
    /// nothing given up.
    pub open spec fn is_fresh(self) -> bool {
        &&& self.position == 0
        &&& !self.read_failed
        &&& self.succeeded == Seq::<Seq<char>>::empty()
        &&& self.failed == Seq::<DeviceFailureView>::empty()
    }

    /// The job with the answer to the read taken in, if the job waits for
    /// the read, and the originals then held.
    pub open spec fn read_answered(
        self,
        cache: Map<Seq<char>, GammaRamp>,
        read: Result<GammaRamp, String>,
    ) -> (DeviceJobView, Map<Seq<char>, GammaRamp>) {
        if self.awaits_read(cache) {
            (
                self.after(cache, DeviceEvent::ReadFinished(read)),
                self.cache_after(cache, DeviceEvent::ReadFinished(read)),
            )
        } else {
            (self, cache)
        }
    }

    /// The job and the originals once the current step is dealt with: the
    /// read is answered with `read` where the job asks for it, and the write
    /// with `write`.
    pub open spec fn step_dealt(
        self,
        cache: Map<Seq<char>, GammaRamp>,
        read: Result<GammaRamp, String>,
        write: Result<(), String>,
    ) -> (DeviceJobView, Map<Seq<char>, GammaRamp>) {
        let (job, held) = self.read_answered(cache, read);
        (
            job.after(held, DeviceEvent::WriteFinished(write)),
            job.cache_after(held, DeviceEvent::WriteFinished(write)),
        )
    }

    /// The job and the originals once `count` steps are dealt with from the
    /// job's start, step `i` with the answers `reads[i]` and `writes[i]`.
    pub open spec fn run(
        self,
        cache: Map<Seq<char>, GammaRamp>,
        reads: Seq<Result<GammaRamp, String>>,
        writes: Seq<Result<(), String>>,
        count: nat,
    ) -> (DeviceJobView, Map<Seq<char>, GammaRamp>)
        decreases count,
    {
        if count == 0 {
            (self, cache)
        } else {
            let (job, held) = self.run(cache, reads, writes, (count - 1) as nat);
            job.step_dealt(held, reads[count - 1], writes[count - 1])
        }
    }
}

/// What a job has done after any number of its steps, whatever the device
/// accesses gave.
///
/// Once `count` steps of a job are dealt with, the devices noted as written
/// are those whose write succeeded, the devices given up are those whose
/// write failed, each with its cause, and the originals are those held
/// before together with the tables read for devices of which none was held.
/// A failed read changes none of this. For the next step the job asks for
/// the write of that step's table to that step's device, whatever the read
/// gave.
pub proof fn lemma_run(
    job: DeviceJobView,
    cache: Map<Seq<char>, GammaRamp>,
    reads: Seq<Result<GammaRamp, String>>,
    writes: Seq<Result<(), String>>,
    count: nat,
)
    requires
        job.is_fresh(),
        count <= job.steps.len(),
    ensures
        job.run(cache, reads, writes, count).0 == (DeviceJobView {
            position: count,
            succeeded: devices_written(job.steps, writes, count),
            failed: devices_given_up(job.steps, writes, count),
            ..job
        }),
        job.run(cache, reads, writes, count).1 == originals_after(
            cache,
            job.steps,
            reads,
            job.capture,
            count,
        ),
        count < job.steps.len() ==> ({
            let (at, held) = job.run(cache, reads, writes, count);
            let (asked, kept) = at.read_answered(held, reads[count as int]);
            asked.next(kept) == (DeviceActionView::Write {
                job: asked,
                device: job.steps[count as int].device,
                ramp: job.steps[count as int].ramp,
            })
        }),
    decreases count,
{
    if count == 0 {
        assert(job.run(cache, reads, writes, 0).0 == job);
    } else {
        let before = (count - 1) as nat;
        lemma_run(job, cache, reads, writes, before);
        let (at, held) = job.run(cache, reads, writes, before);
        lemma_device_dealt_with(at, held, reads[count - 1], writes[count - 1]);
    }
    if count < job.steps.len() {
        let (at, held) = job.run(cache, reads, writes, count);
        lemma_device_dealt_with(at, held, reads[count as int], writes[count as int]);
    }
}

/// No device is given up exactly where every write succeeded, and every step
/// dealt with is counted once, as written or as given up.
pub proof fn lemma_run_tally(
    steps: Seq<PlannedWriteView>,
    writes: Seq<Result<(), String>>,
    count: nat,
)
    ensures
        devices_written(steps, writes, count).len() + devices_given_up(steps, writes, count).len()
            == count,
        devices_given_up(steps, writes, count).len() == 0 <==> forall|i: int|
            0 <= i < count ==> (#[trigger] writes[i]) is Ok,
    decreases count,
{
    if count > 0 {
        lemma_run_tally(steps, writes, (count - 1) as nat);
        if devices_given_up(steps, writes, count).len() == 0 {
            assert forall|i: int| 0 <= i < count implies (#[trigger] writes[i]) is Ok by {
                if i < count - 1 {
                } else {
                }
            }
        } else if writes[count - 1] is Ok {
            let i = choose|i: int| 0 <= i < count - 1 && !((#[trigger] writes[i]) is Ok);
            assert(!(writes[i] is Ok));
        } else {
            assert(!(writes[count - 1] is Ok));
        }
    }
}

/// How a job ends, whatever the device accesses gave.
///
/// Once every step of a job is dealt with, the job ends: with success
/// exactly where every write succeeded, whatever the reads gave; and else,
/// for a job over several devices, with `PartialFailure`, which names the
/// devices written and, with its cause, every device whose write failed. A
/// job that forgets the originals leaves none held, whatever the writes
/// gave; any other leaves those held before and those read.
pub proof fn lemma_run_ends(
    job: DeviceJobView,
    cache: Map<Seq<char>, GammaRamp>,
    reads: Seq<Result<GammaRamp, String>>,
    writes: Seq<Result<(), String>>,
)
    requires
        job.is_fresh(),
    ensures
        ({
            let (end, held) = job.run(cache, reads, writes, job.steps.len());
            let written = devices_written(job.steps, writes, job.steps.len());
            let given_up = devices_given_up(job.steps, writes, job.steps.len());
            &&& end.is_complete()
            &&& end.next(held) == (DeviceActionView::Done {
                result: end.result(),
                followup: job.followup,
            })
            &&& end.result() is Ok <==> forall|i: int|
                0 <= i < job.steps.len() ==> (#[trigger] writes[i]) is Ok
            &&& !(end.result() is Ok) && !job.single ==> end.result() == Err::<
                (),
                FilterErrorView,
            >(FilterErrorView::PartialFailure { succeeded: written, failed: given_up })
            &&& !(end.result() is Ok) && job.single ==> end.result() == Err::<
                (),
                FilterErrorView,
            >(
                FilterErrorView::DeviceError {
                    device: given_up[0].device,
                    cause: given_up[0].cause,
                },
            )
            &&& end.cache_kept(held) == if job.clear_cache {
                Map::<Seq<char>, GammaRamp>::empty()
            } else {
                originals_after(cache, job.steps, reads, job.capture, job.steps.len())
            }
        }),
{
    lemma_run(job, cache, reads, writes, job.steps.len());
    lemma_run_tally(job.steps, writes, job.steps.len());
}

/// No step of a job is lost or counted twice: where the devices written and
/// the devices given up are as many as the steps dealt with, they are so
/// after any event. This holds of every job at its start.
pub proof fn lemma_tally_kept(
    job: DeviceJobView,
    cache: Map<Seq<char>, GammaRamp>,
    event: DeviceEvent,
)
    requires
        job.succeeded.len() + job.failed.len() == job.position,
    ensures
        job.after(cache, event).succeeded.len() + job.after(cache, event).failed.len()
            == job.after(cache, event).position,
        job.after(cache, event).steps == job.steps,
        job.position <= job.after(cache, event).position <= job.position + 1,
        job.after(cache, event).result() is Ok <==> job.after(cache, event).failed.len() == 0,
{
}

impl DeviceJob {
    /// Sets what is to happen to the preset catalogue once the job has succeeded.
    pub(crate) fn with_followup(self, followup: Followup) -> (job: DeviceJob)
        ensures
            job@ == (DeviceJobView { followup: followup@, ..self@ }),
    {
        let mut job = self;
        job.followup = followup;
        job
    }
}

/// Applies colour tables to display devices, and keeps for each device the
/// table that it held before the first write, so that it can be restored.
pub struct GammaRampController {
    original_ramps: StringMap<GammaRamp>,
}

impl View for GammaRampController {
    type V = Map<Seq<char>, GammaRamp>;

    /// The originals held: for each device written to since the last reset,
    /// the table read from it before the first write.
    closed spec fn view(&self) -> Map<Seq<char>, GammaRamp> {
        self.original_ramps@
    }
}

impl GammaRampController {
    /// A controller that holds no originals.
    pub fn new() -> (controller: Self)
        ensures
            controller@ == Map::<Seq<char>, GammaRamp>::empty(),
    {
        GammaRampController { original_ramps: StringMap::new() }
    }

    /// Whether the original table of `device` is held.
    pub fn has_original(&self, device: &str) -> (held: bool)
        ensures
            held == self@.contains_key(device@),
    {
        self.original_ramps.contains_key(device)
    }

    /// Starts applying `config` to `devices`.
    ///
    /// The job takes the devices in order. Where no original of a device is
    /// held, it first asks for the device's table, which becomes the original
    /// if the read succeeds; a failed read does not stop the write. A device
    /// whose write fails is given up, and the job goes on with the next. The
    /// job ends with success if every write succeeded, and otherwise with
    /// `PartialFailure`, which names the devices written and those given up.
    pub fn apply_filter(
        &self,
        config: &FilterConfig,
        gamma_curve: &GammaCurve,
        devices: Vec<String>,
    ) -> (started: Result<DeviceJob, FilterError>)
        ensures
            match started {
                Ok(job) => {
                    &&& config.is_valid()
                    &&& devices@.len() > 0
                    &&& job@.steps[0].ramp.is_curve_of(*config, gamma_curve@)
                    &&& job@ == fresh_job(
                        uniform_steps(texts(devices@), job@.steps[0].ramp),
                        Capture::WhereMissing,
                        false,
                        false,
                    )
                },
                Err(error) => if !config.is_valid() {
                    Err::<(), FilterError>(error) == config.validation()
                } else {
                    devices@.len() == 0 && error == FilterError::NoDevicesSelected
                },
            },
    {
        match config.validate() {
            Err(error) => {
                return Err(error);
            },
            Ok(()) => {},
        }
        if devices.len() == 0 {
            return Err(FilterError::NoDevicesSelected);
        }
        let ramp = GammaRamp::from_config(config, gamma_curve);
        let mut steps: Vec<PlannedWrite> = Vec::new();
        let mut devices = devices;
        let ghost names = texts(devices@);
        let mut i: usize = 0;
        while i < devices.len()
            invariant
                i <= devices@.len(),
                texts(devices@) == names,
                steps@.len() == i,
                step_views(steps@) =~= uniform_steps(names.take(i as int), ramp),
            decreases devices@.len() - i,
        {
            let device = devices[i].clone();
            let ghost earlier = steps@;
            assert(names[i as int] == devices@[i as int]@);
            steps.push(PlannedWrite { device, ramp });
            proof {
                let target = uniform_steps(names.take(i + 1), ramp);
                assert forall|j: int| 0 <= j <= i implies step_views(steps@)[j] == target[j] by {
                    if j < i {
                        assert(steps@[j] == earlier[j]);
                        assert(step_views(earlier)[j] == uniform_steps(
                            names.take(i as int),
                            ramp,
                        )[j]);
                    }
                }
                assert(step_views(steps@) =~= target);
            }
            i = i + 1;
        }
        assert(names.take(names.len() as int) =~= names);
        let job = DeviceJob {
            steps,
            position: 0,
            capture: Capture::WhereMissing,
            read_failed: false,
            clear_cache: false,
            single: false,
            succeeded: Vec::new(),
            failed: Vec::new(),
            followup: Followup::Nothing,
        };
        assert(job@.succeeded =~= Seq::empty());
        assert(job@.failed =~= Seq::empty());
        Ok(job)
    }

    /// Starts applying `config` to the one device `monitor_device`.
    ///
    /// Where no original of the device is held, the job first asks for the
    /// device's table, which becomes the original if the read succeeds; a
    /// failed read does not stop the write. The job ends with success if the
    /// write succeeded, and otherwise with the `DeviceError` of the write.
    pub fn apply_filter_to_monitor(
        &self,
        config: &FilterConfig,
        gamma_curve: &GammaCurve,
        monitor_device: &str,
    ) -> (started: Result<DeviceJob, FilterError>)
        ensures
            match started {
                Ok(job) => {
                    &&& config.is_valid()
                    &&& job@.steps[0].ramp.is_curve_of(*config, gamma_curve@)
                    &&& job@ == fresh_job(
                        seq![
                            PlannedWriteView {
                                device: monitor_device@,
                                ramp: job@.steps[0].ramp,
                            },
                        ],
                        Capture::WhereMissing,
                        false,
                        true,
                    )
                },
                Err(error) => Err::<(), FilterError>(error) == config.validation(),
            },
    {
        match config.validate() {
            Err(error) => {
                return Err(error);
            },
            Ok(()) => {},
        }
        let ramp = GammaRamp::from_config(config, gamma_curve);
        let mut steps: Vec<PlannedWrite> = Vec::new();
        steps.push(PlannedWrite { device: monitor_device.to_owned(), ramp });
        let job = DeviceJob {
            steps,
            position: 0,
            capture: Capture::WhereMissing,
            read_failed: false,
            clear_cache: false,
            single: true,
            succeeded: Vec::new(),
            failed: Vec::new(),
            followup: Followup::Nothing,
        };
        assert(job@.steps =~= seq![PlannedWriteView { device: monitor_device@, ramp }]);
        assert(job@.succeeded =~= Seq::empty());
        assert(job@.failed =~= Seq::empty());
        Ok(job)
    }

    /// Starts restoring every device whose original is held.
    ///
    /// The job writes each original back to its device, in no particular
    /// order, and goes on where a write fails. When it ends, the controller
    /// forgets all originals, whatever the writes gave. The job ends with
    /// success if every write succeeded, and otherwise with `PartialFailure`.
    pub fn reset(&self) -> (job: DeviceJob)
        ensures
            restores(job@.steps, self@),
            job@ == fresh_job(job@.steps, Capture::Never, true, false),
    {
        proof {
            use_type_invariant(&self.original_ramps);
            self.original_ramps.lemma_entries();
        }
        let mut steps: Vec<PlannedWrite> = Vec::new();
        let count = self.original_ramps.len();
        let mut i: usize = 0;
        while i < count
            invariant
                i <= count,
                count == self.original_ramps.keys().len(),
                self.original_ramps.wf(),
                steps@.len() == i,
                forall|j: int|
                    0 <= j < i ==> (#[trigger] steps@[j])@ == (PlannedWriteView {
                        device: self.original_ramps.keys()[j],
                        ramp: self.original_ramps@[self.original_ramps.keys()[j]],
                    }),
            decreases count - i,
        {
            let device = self.original_ramps.key_at(i).clone();
            let ramp = *self.original_ramps.value_at(i);
            steps.push(PlannedWrite { device, ramp });
            i = i + 1;
        }
        let job = DeviceJob {
            steps,
            position: 0,
            capture: Capture::Never,
            read_failed: false,
            clear_cache: true,
            single: false,
            succeeded: Vec::new(),
            failed: Vec::new(),
            followup: Followup::Nothing,
        };
        proof {
            let keys = self.original_ramps.keys();
            let views = job@.steps;
            assert(job@.succeeded =~= Seq::empty());
            assert(job@.failed =~= Seq::empty());
            assert forall|j: int| 0 <= j < views.len() implies views[j] == (PlannedWriteView {
                device: keys[j],
                ramp: self@[keys[j]],
            }) by {
                assert(views[j] == steps@[j]@);
            }
            assert forall|device: Seq<char>| #[trigger] self@.contains_key(device) implies exists|
                j: int,
            |
                0 <= j < views.len() && views[j].device == device by {
                assert(keys.to_set().contains(device));
                let j = keys.index_of(device);
                assert(views[j].device == device);
            }
        }
        job
    }

    /// Starts restoring the one device `monitor_device`.
    ///
    /// The job writes the device's original back, or the linear table where
    /// no original is held. The originals stay as they are. The job ends
    /// with success if the write succeeded, and otherwise with the
    /// `DeviceError` of the write.
    pub fn reset_monitor(&self, monitor_device: &str) -> (job: DeviceJob)
        ensures
            job@ == fresh_job(
                seq![PlannedWriteView { device: monitor_device@, ramp: job@.steps[0].ramp }],
                Capture::Never,
                false,
                true,
            ),
            if self@.contains_key(monitor_device@) {
                job@.steps[0].ramp == self@[monitor_device@]
            } else {
                job@.steps[0].ramp.is_linear()
            },
    {
        let ramp = match self.original_ramps.get(monitor_device) {
            Some(original) => *original,
            None => GammaRamp::default(),
        };
        let mut steps: Vec<PlannedWrite> = Vec::new();
        steps.push(PlannedWrite { device: monitor_device.to_owned(), ramp });
        let job = DeviceJob {
            steps,
            position: 0,
            capture: Capture::Never,
            read_failed: false,
            clear_cache: false,
            single: true,
            succeeded: Vec::new(),
            failed: Vec::new(),
            followup: Followup::Nothing,
        };
        assert(job@.steps =~= seq![PlannedWriteView { device: monitor_device@, ramp }]);
        assert(job@.succeeded =~= Seq::empty());
        assert(job@.failed =~= Seq::empty());
        job
    }

    /// Takes in what the last device access gave, and says what is to be
    /// done next for `job`.
    ///
    /// A table that was read becomes the original of its device; a failed
    /// read is passed over, and the write is asked for all the same. A device
    /// written is noted as such; one whose write failed is given up with the
    /// cause. An event that does not answer what the job waits for changes
    /// nothing. When every step is dealt with, the answer is the job's
    /// result.
    pub fn advance(&mut self, job: DeviceJob, event: DeviceEvent) -> (action: DeviceAction)
        ensures
            action@ == job@.after(old(self)@, event).next(job@.cache_after(old(self)@, event)),
            final(self)@ == job@.after(old(self)@, event).cache_kept(
                job@.cache_after(old(self)@, event),
            ),
    {
        let ghost before = job@;
        let ghost cache = self@;
        let mut job = job;
        if job.position < job.steps.len() {
            assert(before.device() == job.steps@[job.position as int].device@);
            let held = self.original_ramps.contains_key(job.steps[job.position].device.as_str());
            let awaits_read = match job.capture {
                Capture::Never => false,
                Capture::WhereMissing => !job.read_failed && !held,
            };
            assert(awaits_read == before.awaits_read(cache));
            match event {
                DeviceEvent::Begin => {},
                DeviceEvent::ReadFinished(Ok(ramp)) => {
                    if awaits_read {
                        let device = job.steps[job.position].device.clone();
                        self.original_ramps.insert(device, ramp);
                    }
                },
                DeviceEvent::ReadFinished(Err(_)) => {
                    if awaits_read {
                        job.read_failed = true;
                    }
                },
                DeviceEvent::WriteFinished(Ok(())) => {
                    if !awaits_read {
                        let device = job.steps[job.position].device.clone();
                        job.succeeded.push(device);
                        job.position = job.position + 1;
                        job.read_failed = false;
                        assert(job@.succeeded =~= before.written().succeeded);
                    }
                },
                DeviceEvent::WriteFinished(Err(cause)) => {
                    if !awaits_read {
                        let device = job.steps[job.position].device.clone();
                        job.failed.push(DeviceFailure { device, cause });
                        job.position = job.position + 1;
                        job.read_failed = false;
                        assert(job@.failed =~= before.given_up(cause@).failed);
                    }
                },
            }
        }
        assert(job@ == before.after(cache, event));
        assert(self@ == before.cache_after(cache, event));
        if job.position >= job.steps.len() {
            if job.clear_cache {
                self.original_ramps.clear();
            }
            let result = if job.failed.len() == 0 {
                Ok(())
            } else if job.single {
                let device = job.failed[0].device.clone();
                let cause = job.failed[0].cause.clone();
                Err(FilterError::DeviceError { device, cause })
            } else {
                Err(FilterError::PartialFailure { succeeded: job.succeeded, failed: job.failed })
            };
            DeviceAction::Done { result, followup: job.followup }
        } else {
            let device = job.steps[job.position].device.clone();
            let held = self.original_ramps.contains_key(device.as_str());
            let awaits_read = match job.capture {
                Capture::Never => false,
                Capture::WhereMissing => !job.read_failed && !held,
            };
            if awaits_read {
                DeviceAction::Read { job, device }
            } else {
                let ramp = job.steps[job.position].ramp;
                DeviceAction::Write { job, device, ramp }
            }
        }
    }
}

} // verus!
