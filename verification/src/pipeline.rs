//! The order of a render: which piece of GPU work comes next, and what a
//! failure of one leads to. The work itself is done by the caller, who
//! reports how it ended.

use crate::cache::{
    after_acquire, after_poison, fallback_driver, first_choice, first_driver, next_choice,
    plan_in, AcquirePlan, CacheState, DriverKind, ResourceCache,
};
use crate::error::{classify, RenderError};
use crate::native::{FAILURE_CODE, RECREATE_TARGET_CODE};
use crate::request::{valid_dimensions, validate_dimensions, MAX_INPUT_BYTES};
use vstd::prelude::*;

verus! {

/// How far a render has come.
#[derive(Clone, Copy, Debug, PartialEq, Eq, Structural)]
pub enum Stage {
    /// Nothing has been asked for yet.
    Start,
    /// The threading subsystem and the factory are being set up.
    Initializing,
    /// A device of this kind is being created.
    CreatingDevice(DriverKind),
    /// The drawing context is being created from the device.
    CreatingContext,
    /// The scene is being drawn into the target surface.
    Drawing,
    /// The GPU is converting the surface to straight alpha.
    Converting,
    /// The surface is being copied out. The flag tells whether the CPU has
    /// to convert the pixels to straight alpha.
    Reading(bool),
    /// The render has ended.
    Finished,
}

/// What the caller reports.
#[derive(Clone, Copy, Debug, PartialEq, Eq, Structural)]
pub enum Event {
    /// A render is asked for.
    Begin { width: u32, height: u32, input_len: u64 },
    /// The work asked for was done.
    Done,
    /// The work asked for failed with this native code.
    Failed(i32),
    /// The GPU cannot convert the surface: the effect could not be created
    /// or does not offer an image to draw.
    Unavailable,
}

/// What the caller has to do next.
#[derive(Clone, Copy, Debug, PartialEq, Eq, Structural)]
pub enum Action {
    /// Refuse the request. No GPU work was begun.
    Reject(RenderError),
    /// Set up the threading subsystem and create the factory.
    Initialize,
    /// Create a device of this kind.
    CreateDevice(DriverKind),
    /// Create the drawing context and cache factory, device and context.
    CreateContext,
    /// Clear the target to transparent black and draw the scene into it.
    Draw,
    /// Convert the surface to straight alpha in a second draw pass.
    Convert,
    /// Copy the surface out into a bitmap, and convert the pixels on the
    /// CPU where `unpremultiply` is set.
    ReadBack { unpremultiply: bool },
    /// Hand the bitmap to the caller of the render.
    Deliver,
    /// End the render with this failure.
    Fail(RenderError),
}

/// One step of a render: the stage and the cache afterwards, and what to do.
pub struct Step {
    pub stage: Stage,
    pub cache: CacheState,
    pub action: Action,
}

/// Whether the action is work on the GPU or on its resources.
pub open spec fn touches_gpu(action: Action) -> bool {
    match action {
        Action::Reject(_) => false,
        Action::Deliver => false,
        Action::Fail(_) => false,
        _ => true,
    }
}

/// The end of a render whose GPU work failed with `code`: a code that asks
/// for the target to be recreated poisons the cache.
pub open spec fn failed_step(cache: CacheState, code: i32) -> Step {
    Step {
        stage: Stage::Finished,
        cache: if code == RECREATE_TARGET_CODE {
            after_poison(cache)
        } else {
            cache
        },
        action: Action::Fail(classify(code)),
    }
}

/// The end of a render in which a report came that the stage does not
/// expect.
pub open spec fn confused_step(cache: CacheState) -> Step {
    Step {
        stage: Stage::Finished,
        cache,
        action: Action::Fail(RenderError::Unexpected(FAILURE_CODE)),
    }
}

/// The step that follows the report `event` at the stage `stage`.
pub open spec fn next_step(
    stage: Stage,
    cache: CacheState,
    prefer_hardware: bool,
    event: Event,
) -> Step {
    match (stage, event) {
        (Stage::Start, Event::Begin { width, height, input_len }) => {
            if !valid_dimensions(width, height) {
                Step {
                    stage: Stage::Finished,
                    cache,
                    action: Action::Reject(RenderError::InvalidArgument),
                }
            } else if input_len > MAX_INPUT_BYTES {
                Step {
                    stage: Stage::Finished,
                    cache,
                    action: Action::Reject(RenderError::OversizeInput),
                }
            } else if plan_in(cache) == AcquirePlan::Reuse {
                Step { stage: Stage::Drawing, cache, action: Action::Draw }
            } else {
                Step {
                    stage: Stage::Initializing,
                    cache: after_acquire(cache),
                    action: Action::Initialize,
                }
            }
        },
        (Stage::Initializing, Event::Done) => Step {
            stage: Stage::CreatingDevice(first_choice(prefer_hardware)),
            cache,
            action: Action::CreateDevice(first_choice(prefer_hardware)),
        },
        (Stage::Initializing, Event::Failed(code)) => Step {
            stage: Stage::Finished,
            cache,
            action: Action::Fail(RenderError::ResourceCreationFailure(code)),
        },
        (Stage::CreatingDevice(_), Event::Done) => Step {
            stage: Stage::CreatingContext,
            cache,
            action: Action::CreateContext,
        },
        (Stage::CreatingDevice(kind), Event::Failed(code)) => match next_choice(kind) {
            Some(other) => Step {
                stage: Stage::CreatingDevice(other),
                cache,
                action: Action::CreateDevice(other),
            },
            None => Step {
                stage: Stage::Finished,
                cache,
                action: Action::Fail(RenderError::ResourceCreationFailure(code)),
            },
        },
        (Stage::CreatingContext, Event::Done) => Step {
            stage: Stage::Drawing,
            cache: CacheState::Ready,
            action: Action::Draw,
        },
        (Stage::CreatingContext, Event::Failed(code)) => Step {
            stage: Stage::Finished,
            cache,
            action: Action::Fail(RenderError::ResourceCreationFailure(code)),
        },
        (Stage::Drawing, Event::Done) => Step {
            stage: Stage::Converting,
            cache,
            action: Action::Convert,
        },
        (Stage::Drawing, Event::Failed(code)) => failed_step(cache, code),
        (Stage::Converting, Event::Done) => Step {
            stage: Stage::Reading(false),
            cache,
            action: Action::ReadBack { unpremultiply: false },
        },
        (Stage::Converting, Event::Unavailable) => Step {
            stage: Stage::Reading(true),
            cache,
            action: Action::ReadBack { unpremultiply: true },
        },
        (Stage::Converting, Event::Failed(code)) => failed_step(cache, code),
        (Stage::Reading(_), Event::Done) => Step {
            stage: Stage::Finished,
            cache,
            action: Action::Deliver,
        },
        (Stage::Reading(_), Event::Failed(code)) => failed_step(cache, code),
        _ => confused_step(cache),
    }
}

/// One render in progress.
pub struct RenderSession {
    stage: Stage,
    prefer_hardware: bool,
}

impl RenderSession {
    /// The stage of the render.
    pub closed spec fn spec_stage(&self) -> Stage {
        self.stage
    }

    /// Whether a hardware device is tried before the software device.
    pub closed spec fn spec_prefer_hardware(&self) -> bool {
        self.prefer_hardware
    }

    /// A render that has not begun.
    pub fn new(prefer_hardware: bool) -> (s: RenderSession)
        ensures
            s.spec_stage() == Stage::Start,
            s.spec_prefer_hardware() == prefer_hardware,
    {
        RenderSession { stage: Stage::Start, prefer_hardware }
    }

    /// The stage of the render.
    #[verifier::when_used_as_spec(spec_stage)]
    pub fn stage(&self) -> (s: Stage)
        ensures
            s == self.spec_stage(),
    {
        self.stage
    }

    fn fail(&mut self, cache: &mut ResourceCache, code: i32) -> (action: Action)
        ensures
            final(self).spec_prefer_hardware() == old(self).spec_prefer_hardware(),
            (Step {
                stage: final(self).spec_stage(),
                cache: final(cache).spec_state(),
                action,
            }) == failed_step(old(cache).spec_state(), code),
    {
        self.stage = Stage::Finished;
        let e = RenderError::from_code(code);
        if e.is_device_loss() {
            cache.poison();
        }
        Action::Fail(e)
    }

    fn give_up(&mut self, code: i32) -> (action: Action)
        ensures
            final(self).spec_prefer_hardware() == old(self).spec_prefer_hardware(),
            final(self).spec_stage() == Stage::Finished,
            action == Action::Fail(RenderError::ResourceCreationFailure(code)),
    {
        self.stage = Stage::Finished;
        Action::Fail(RenderError::ResourceCreationFailure(code))
    }

    fn confused(&mut self) -> (action: Action)
        ensures
            final(self).spec_prefer_hardware() == old(self).spec_prefer_hardware(),
            final(self).spec_stage() == Stage::Finished,
            action == Action::Fail(RenderError::Unexpected(FAILURE_CODE)),
    {
        self.stage = Stage::Finished;
        Action::Fail(RenderError::Unexpected(FAILURE_CODE))
    }

    /// Takes the caller's report and tells what to do next.
    pub fn step(&mut self, cache: &mut ResourceCache, event: Event) -> (action: Action)
        ensures
            final(self).spec_prefer_hardware() == old(self).spec_prefer_hardware(),
            (Step {
                stage: final(self).spec_stage(),
                cache: final(cache).spec_state(),
                action,
            }) == next_step(
                old(self).spec_stage(),
                old(cache).spec_state(),
                old(self).spec_prefer_hardware(),
                event,
            ),
    {
        match self.stage {
            Stage::Start => match event {
                Event::Begin { width, height, input_len } => {
                    if validate_dimensions(width, height).is_err() {
                        self.stage = Stage::Finished;
                        Action::Reject(RenderError::InvalidArgument)
                    } else if input_len > MAX_INPUT_BYTES {
                        self.stage = Stage::Finished;
                        Action::Reject(RenderError::OversizeInput)
                    } else {
                        match cache.acquire() {
                            AcquirePlan::Reuse => {
                                self.stage = Stage::Drawing;
                                Action::Draw
                            },
                            AcquirePlan::Create => {
                                self.stage = Stage::Initializing;
                                Action::Initialize
                            },
                        }
                    }
                },
                _ => self.confused(),
            },
            Stage::Initializing => match event {
                Event::Done => {
                    let kind = first_driver(self.prefer_hardware);
                    self.stage = Stage::CreatingDevice(kind);
                    Action::CreateDevice(kind)
                },
                Event::Failed(code) => self.give_up(code),
                _ => self.confused(),
            },
            Stage::CreatingDevice(kind) => match event {
                Event::Done => {
                    self.stage = Stage::CreatingContext;
                    Action::CreateContext
                },
                Event::Failed(code) => match fallback_driver(kind) {
                    Some(other) => {
                        self.stage = Stage::CreatingDevice(other);
                        Action::CreateDevice(other)
                    },
                    None => self.give_up(code),
                },
                _ => self.confused(),
            },
            Stage::CreatingContext => match event {
                Event::Done => {
                    cache.created();
                    self.stage = Stage::Drawing;
                    Action::Draw
                },
                Event::Failed(code) => self.give_up(code),
                _ => self.confused(),
            },
            Stage::Drawing => match event {
                Event::Done => {
                    self.stage = Stage::Converting;
                    Action::Convert
                },
                Event::Failed(code) => self.fail(cache, code),
                _ => self.confused(),
            },
            Stage::Converting => match event {
                Event::Done => {
                    self.stage = Stage::Reading(false);
                    Action::ReadBack { unpremultiply: false }
                },
                Event::Unavailable => {
                    self.stage = Stage::Reading(true);
                    Action::ReadBack { unpremultiply: true }
                },
                Event::Failed(code) => self.fail(cache, code),
                _ => self.confused(),
            },
            Stage::Reading(_) => match event {
                Event::Done => {
                    self.stage = Stage::Finished;
                    Action::Deliver
                },
                Event::Failed(code) => self.fail(cache, code),
                _ => self.confused(),
            },
            Stage::Finished => self.confused(),
        }
    }
}

/// What to do about a render that failed.
#[derive(Clone, Copy, Debug, PartialEq, Eq, Structural)]
pub enum Recovery {
    /// Render the placeholder image at the size that was asked for.
    RenderPlaceholder,
    /// Fill a bitmap of that size with a solid colour.
    FillSolid,
    /// Report the failure of the render itself.
    Report(RenderError),
}

/// Whether a failure goes to the caller as it is: a size out of range and
/// resources that cannot be created are never covered up by another bitmap.
pub open spec fn reported_directly(failure: RenderError) -> bool {
    failure == RenderError::InvalidArgument || (failure is ResourceCreationFailure)
}

/// What to do about a render that failed with `failure` once `attempts`
/// ways of replacing its bitmap have failed too.
pub open spec fn recovery_after(failure: RenderError, attempts: u8) -> Recovery {
    if reported_directly(failure) {
        Recovery::Report(failure)
    } else if attempts == 0 {
        Recovery::RenderPlaceholder
    } else if attempts == 1 {
        Recovery::FillSolid
    } else {
        Recovery::Report(failure)
    }
}

/// Tells what to do about a failed render. A size out of range and
/// resources that cannot be created are reported as they are. For any other
/// failure the placeholder is tried first, then the solid fill, and the
/// failure of the render itself is reported where not even a bitmap can be
/// had.
pub fn recover(failure: RenderError, attempts: u8) -> (r: Recovery)
    ensures
        r == recovery_after(failure, attempts),
{
    match failure {
        RenderError::InvalidArgument => Recovery::Report(failure),
        RenderError::ResourceCreationFailure(_) => Recovery::Report(failure),
        _ => {
            if attempts == 0 {
                Recovery::RenderPlaceholder
            } else if attempts == 1 {
                Recovery::FillSolid
            } else {
                Recovery::Report(failure)
            }
        },
    }
}

/// What is reported of a draw session. `work` tells how the drawing went,
/// `ended` how the end of the session went, each with the native code of
/// its failure. An end that asks for the target to be recreated is reported
/// whatever the drawing did; any other failure of the end is passed over.
pub open spec fn session_event(work: Result<(), i32>, ended: Result<(), i32>) -> Event {
    if ended == Err::<(), i32>(RECREATE_TARGET_CODE) {
        Event::Failed(RECREATE_TARGET_CODE)
    } else {
        match work {
            Ok(_) => Event::Done,
            Err(code) => Event::Failed(code),
        }
    }
}

/// Tells what to report of a draw session.
pub fn draw_session_event(work: Result<(), i32>, ended: Result<(), i32>) -> (event: Event)
    ensures
        event == session_event(work, ended),
{
    let lost = match ended {
        Ok(_) => false,
        Err(code) => code == RECREATE_TARGET_CODE,
    };
    if lost {
        Event::Failed(RECREATE_TARGET_CODE)
    } else {
        match work {
            Ok(_) => Event::Done,
            Err(code) => Event::Failed(code),
        }
    }
}

/// A size out of range and resources that cannot be created are reported to
/// the caller as they are, however many replacements were tried: no bitmap
/// stands in for them.
pub proof fn lemma_dimension_and_resource_failures_are_reported(code: i32, attempts: u8)
    ensures
        recovery_after(RenderError::InvalidArgument, attempts) == Recovery::Report(
            RenderError::InvalidArgument,
        ),
        recovery_after(RenderError::ResourceCreationFailure(code), attempts) == Recovery::Report(
            RenderError::ResourceCreationFailure(code),
        ),
{
}

/// A draw session whose end asks for the target to be recreated poisons the
/// cache and fails the render with `DeviceLost`, whatever the drawing did.
pub proof fn lemma_lost_session_poisons(
    stage: Stage,
    cache: CacheState,
    prefer_hardware: bool,
    work: Result<(), i32>,
)
    requires
        stage == Stage::Drawing || stage == Stage::Converting || (stage is Reading),
    ensures
        next_step(
            stage,
            cache,
            prefer_hardware,
            session_event(work, Err(RECREATE_TARGET_CODE)),
        ) == (Step {
            stage: Stage::Finished,
            cache: after_poison(cache),
            action: Action::Fail(RenderError::DeviceLost),
        }),
{
}

/// A request for a bitmap of a size out of range is refused with
/// `InvalidArgument` at the first step, in every state of the cache, and
/// the cache is left as it was.
pub proof fn lemma_invalid_size_is_rejected(
    cache: CacheState,
    prefer_hardware: bool,
    width: u32,
    height: u32,
    input_len: u64,
)
    requires
        width == 0 || height == 0 || width > 4096 || height > 4096,
    ensures
        next_step(
            Stage::Start,
            cache,
            prefer_hardware,
            Event::Begin { width, height, input_len },
        ) == (Step {
            stage: Stage::Finished,
            cache,
            action: Action::Reject(RenderError::InvalidArgument),
        }),
{
}

/// Input over the cap is refused at the first step, and the cache is left
/// as it was.
pub proof fn lemma_oversized_input_is_rejected(
    cache: CacheState,
    prefer_hardware: bool,
    width: u32,
    height: u32,
    input_len: u64,
)
    requires
        valid_dimensions(width, height),
        input_len > MAX_INPUT_BYTES,
    ensures
        next_step(
            Stage::Start,
            cache,
            prefer_hardware,
            Event::Begin { width, height, input_len },
        ) == (Step {
            stage: Stage::Finished,
            cache,
            action: Action::Reject(RenderError::OversizeInput),
        }),
{
}

/// A render that has ended asks for no GPU work any more, whatever is
/// reported to it: a refused request never reaches the GPU.
pub proof fn lemma_finished_render_is_idle(cache: CacheState, prefer_hardware: bool, event: Event)
    ensures
        !touches_gpu(next_step(Stage::Finished, cache, prefer_hardware, event).action),
        next_step(Stage::Finished, cache, prefer_hardware, event).stage == Stage::Finished,
        next_step(Stage::Finished, cache, prefer_hardware, event).cache == cache,
{
}

/// Once a piece of GPU work has failed with the code that asks for the
/// target to be recreated, the render fails with `DeviceLost`, and the next
/// render on the same cache begins by creating the resources anew.
pub proof fn lemma_device_loss_is_recovered(
    stage: Stage,
    cache: CacheState,
    prefer_hardware: bool,
    width: u32,
    height: u32,
    input_len: u64,
)
    requires
        stage == Stage::Drawing || stage == Stage::Converting || (stage is Reading),
        cache == CacheState::Ready,
        valid_dimensions(width, height),
        input_len <= MAX_INPUT_BYTES,
    ensures
        ({
            let lost = next_step(stage, cache, prefer_hardware, Event::Failed(RECREATE_TARGET_CODE));
            let again = next_step(
                Stage::Start,
                lost.cache,
                prefer_hardware,
                Event::Begin { width, height, input_len },
            );
            &&& lost.action == Action::Fail(RenderError::DeviceLost)
            &&& lost.cache == CacheState::Poisoned
            &&& again.action == Action::Initialize
            &&& again.cache == CacheState::Uninitialized
        }),
{
}

} // verus!
