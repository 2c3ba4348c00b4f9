//! Presenting frames on a screen: which framebuffers are made, shown and destroyed, and what is
//! put back in the end.

use vstd::prelude::*;

use crate::display::formats::{framebuffer_depth, list_contains};
use crate::display::setup::Setup;

verus! {

/// Bits that a pixel takes in a framebuffer.
pub const BITS_PER_PIXEL: u32 = 32;

/// What is asked of the graphics card.
#[derive(Debug)]
pub enum DisplayAction {
    /// Finish the drawing of a frame.
    SwapBuffers,
    /// Take the buffer with the finished frame.
    LockFrontBuffer,
    /// Make a framebuffer of all planes of the buffer. The first buffer is described in the log.
    AddPlanarFramebuffer { describe: bool },
    /// Make a framebuffer of the buffer the old way. The first such fallback is explained in the
    /// log.
    AddFramebuffer { depth: u32, bits_per_pixel: u32, explain: bool },
    /// Show a framebuffer in the chosen mode, on the chosen connector.
    SetCrtc { crtc: u32, fb: u32 },
    /// Show a framebuffer from the next refresh on.
    PageFlip { crtc: u32, fb: u32 },
    /// Read events, and say on which CRTCs a flip is over.
    ReceiveEvents,
    /// Destroy a framebuffer.
    DestroyFramebuffer { fb: u32 },
    /// Put back what was shown at first, on the chosen connector if there is a mode for it.
    RestoreCrtc { crtc: u32, with_connector: bool },
    /// There is nothing more to do.
    Finish,
    /// Stop, for this reason.
    Fail { error: String },
}

/// What came of an action.
#[derive(Debug)]
pub enum Outcome {
    Done,
    /// A framebuffer was made.
    Framebuffer(u32),
    /// On these CRTCs a flip is over.
    Flips(Vec<u32>),
    /// The action failed, for this reason.
    Failed(String),
}

/// How far the display is.
#[derive(Debug)]
enum Phase {
    Idle,
    Swapping,
    Locking,
    AddingPlanar,
    Adding { planar_error: String },
    SettingCrtc { fb: u32 },
    Flipping { fb: u32 },
    AwaitingFlip { fb: u32 },
    Destroying,
    Restoring,
    DestroyingLast,
}

/// Mathematical model of [`DisplayAction`].
pub enum ActionModel {
    SwapBuffers,
    LockFrontBuffer,
    AddPlanarFramebuffer { describe: bool },
    AddFramebuffer { depth: u32, bits_per_pixel: u32, explain: bool },
    SetCrtc { crtc: u32, fb: u32 },
    PageFlip { crtc: u32, fb: u32 },
    ReceiveEvents,
    DestroyFramebuffer { fb: u32 },
    RestoreCrtc { crtc: u32, with_connector: bool },
    Finish,
    Fail { error: Seq<char> },
}

/// Mathematical model of [`Outcome`].
pub enum OutcomeModel {
    Done,
    Framebuffer(u32),
    Flips(Seq<u32>),
    Failed(Seq<char>),
}

/// How far a display is.
pub enum PhaseModel {
    Idle,
    Swapping,
    Locking,
    AddingPlanar,
    Adding { planar_error: Seq<char> },
    SettingCrtc { fb: u32 },
    Flipping { fb: u32 },
    AwaitingFlip { fb: u32 },
    Destroying,
    Restoring,
    DestroyingLast,
}

/// Mathematical model of [`DrmDisplay`].
pub struct DisplayModel {
    pub crtc: u32,
    pub size: (u32, u32),
    /// The code of the format that is drawn in.
    pub format: u32,
    /// Whether the CRTC had a mode at first.
    pub had_mode: bool,
    /// The framebuffer that is shown, once there is one.
    pub current: Option<u32>,
    /// Whether a buffer was described in the log.
    pub described: bool,
    /// Whether the fallback was explained in the log.
    pub explained: bool,
    pub phase: PhaseModel,
}

impl View for DisplayAction {
    type V = ActionModel;

    open spec fn view(&self) -> ActionModel {
        match *self {
            DisplayAction::SwapBuffers => ActionModel::SwapBuffers,
            DisplayAction::LockFrontBuffer => ActionModel::LockFrontBuffer,
            DisplayAction::AddPlanarFramebuffer {
                describe,
            } => ActionModel::AddPlanarFramebuffer { describe },
            DisplayAction::AddFramebuffer {
                depth,
                bits_per_pixel,
                explain,
            } => ActionModel::AddFramebuffer { depth, bits_per_pixel, explain },
            DisplayAction::SetCrtc { crtc, fb } => ActionModel::SetCrtc { crtc, fb },
            DisplayAction::PageFlip { crtc, fb } => ActionModel::PageFlip { crtc, fb },
            DisplayAction::ReceiveEvents => ActionModel::ReceiveEvents,
            DisplayAction::DestroyFramebuffer { fb } => ActionModel::DestroyFramebuffer { fb },
            DisplayAction::RestoreCrtc { crtc, with_connector } => ActionModel::RestoreCrtc {
                crtc,
                with_connector,
            },
            DisplayAction::Finish => ActionModel::Finish,
            DisplayAction::Fail { error } => ActionModel::Fail { error: error@ },
        }
    }
}

impl View for Outcome {
    type V = OutcomeModel;

    open spec fn view(&self) -> OutcomeModel {
        match *self {
            Outcome::Done => OutcomeModel::Done,
            Outcome::Framebuffer(fb) => OutcomeModel::Framebuffer(fb),
            Outcome::Flips(crtcs) => OutcomeModel::Flips(crtcs@),
            Outcome::Failed(error) => OutcomeModel::Failed(error@),
        }
    }
}

impl View for Phase {
    type V = PhaseModel;

    closed spec fn view(&self) -> PhaseModel {
        match *self {
            Phase::Idle => PhaseModel::Idle,
            Phase::Swapping => PhaseModel::Swapping,
            Phase::Locking => PhaseModel::Locking,
            Phase::AddingPlanar => PhaseModel::AddingPlanar,
            Phase::Adding { planar_error } => PhaseModel::Adding { planar_error: planar_error@ },
            Phase::SettingCrtc { fb } => PhaseModel::SettingCrtc { fb },
            Phase::Flipping { fb } => PhaseModel::Flipping { fb },
            Phase::AwaitingFlip { fb } => PhaseModel::AwaitingFlip { fb },
            Phase::Destroying => PhaseModel::Destroying,
            Phase::Restoring => PhaseModel::Restoring,
            Phase::DestroyingLast => PhaseModel::DestroyingLast,
        }
    }
}

/// A display that frames are presented on.
#[derive(Debug)]
pub struct DrmDisplay {
    crtc: u32,
    w: u32,
    h: u32,
    format: u32,
    had_mode: bool,
    current: Option<u32>,
    logged_bo: bool,
    logged_legacy_fb_fallback: bool,
    phase: Phase,
}

impl View for DrmDisplay {
    type V = DisplayModel;

    closed spec fn view(&self) -> DisplayModel {
        DisplayModel {
            crtc: self.crtc,
            size: (self.w, self.h),
            format: self.format,
            had_mode: self.had_mode,
            current: self.current,
            described: self.logged_bo,
            explained: self.logged_legacy_fb_fallback,
            phase: self.phase@,
        }
    }
}

impl DisplayModel {
    /// Whether an outcome can come of what was asked last.
    pub open spec fn expects(self, outcome: OutcomeModel) -> bool {
        match self.phase {
            PhaseModel::Idle => false,
            PhaseModel::AddingPlanar | PhaseModel::Adding { .. } => outcome is Framebuffer
                || outcome is Failed,
            PhaseModel::AwaitingFlip { .. } => outcome is Flips || outcome is Failed,
            _ => outcome is Done || outcome is Failed,
        }
    }

    /// What is said of a failure.
    pub open spec fn complaint(self, error: Seq<char>) -> Seq<char> {
        match self.phase {
            PhaseModel::Swapping => "eglSwapBuffers: "@ + error,
            PhaseModel::Locking => "lock_front_buffer: "@ + error,
            PhaseModel::Adding { planar_error } => "add_planar_framebuffer: "@ + planar_error
                + "; add_framebuffer fallback: "@ + error,
            PhaseModel::SettingCrtc { .. } => "set_crtc: "@ + error,
            PhaseModel::Flipping { .. } => "page_flip: "@ + error,
            PhaseModel::Destroying => "destroy_framebuffer: "@ + error,
            PhaseModel::Restoring => "restore set_crtc: "@ + error,
            PhaseModel::DestroyingLast => "restore destroy_framebuffer: "@ + error,
            _ => error,
        }
    }

    /// The display with the next framebuffer to show: the first one sets the mode, and each other
    /// one is flipped to.
    pub open spec fn showing(self, fb: u32) -> (DisplayModel, ActionModel) {
        if self.current is None {
            (
                DisplayModel { phase: PhaseModel::SettingCrtc { fb }, ..self },
                ActionModel::SetCrtc { crtc: self.crtc, fb },
            )
        } else {
            (
                DisplayModel { phase: PhaseModel::Flipping { fb }, ..self },
                ActionModel::PageFlip { crtc: self.crtc, fb },
            )
        }
    }

    /// The display after an outcome, and what it asks next.
    pub open spec fn after(self, outcome: OutcomeModel) -> (DisplayModel, ActionModel) {
        let idle = DisplayModel { phase: PhaseModel::Idle, ..self };
        match (self.phase, outcome) {
            (PhaseModel::Swapping, OutcomeModel::Done) => (
                DisplayModel { phase: PhaseModel::Locking, ..self },
                ActionModel::LockFrontBuffer,
            ),
            (PhaseModel::Locking, OutcomeModel::Done) => (
                DisplayModel { phase: PhaseModel::AddingPlanar, described: true, ..self },
                ActionModel::AddPlanarFramebuffer { describe: !self.described },
            ),
            (PhaseModel::AddingPlanar, OutcomeModel::Failed(error)) => (
                DisplayModel {
                    phase: PhaseModel::Adding { planar_error: error },
                    explained: true,
                    ..self
                },
                ActionModel::AddFramebuffer {
                    depth: crate::display::formats::depth_of(self.format),
                    bits_per_pixel: BITS_PER_PIXEL,
                    explain: !self.explained,
                },
            ),
            (_, OutcomeModel::Framebuffer(fb)) => self.showing(fb),
            (PhaseModel::SettingCrtc { fb }, OutcomeModel::Done) => (
                DisplayModel { current: Some(fb), ..idle },
                ActionModel::Finish,
            ),
            (PhaseModel::Flipping { fb }, OutcomeModel::Done) => (
                DisplayModel { phase: PhaseModel::AwaitingFlip { fb }, ..self },
                ActionModel::ReceiveEvents,
            ),
            (PhaseModel::AwaitingFlip { fb }, OutcomeModel::Flips(crtcs)) => if crtcs.contains(
                self.crtc,
            ) {
                match self.current {
                    Some(old) => (
                        DisplayModel {
                            phase: PhaseModel::Destroying,
                            current: Some(fb),
                            ..self
                        },
                        ActionModel::DestroyFramebuffer { fb: old },
                    ),
                    None => (DisplayModel { current: Some(fb), ..idle }, ActionModel::Finish),
                }
            } else {
                (self, ActionModel::ReceiveEvents)
            },
            (PhaseModel::Restoring, OutcomeModel::Done) => match self.current {
                Some(fb) => (
                    DisplayModel { phase: PhaseModel::DestroyingLast, current: None, ..self },
                    ActionModel::DestroyFramebuffer { fb },
                ),
                None => (idle, ActionModel::Finish),
            },
            (_, OutcomeModel::Failed(error)) => (
                idle,
                ActionModel::Fail { error: self.complaint(error) },
            ),
            _ => (idle, ActionModel::Finish),
        }
    }
}

/// A text that begins with another.
fn prefixed(prefix: &str, text: &str) -> (result: String)
    ensures
        result@ == prefix@ + text@,
{
    let mut result: String = prefix.to_owned();
    result.append(text);
    result
}

impl Phase {
    /// What is said of a failure.
    fn complaint(&self, error: &str) -> (text: String)
        ensures
            forall|display: DisplayModel|
                display.phase == self@ ==> text@ == #[trigger] display.complaint(error@),
    {
        match self {
            Phase::Swapping => prefixed("eglSwapBuffers: ", error),
            Phase::Locking => prefixed("lock_front_buffer: ", error),
            Phase::Adding { planar_error } => {
                let mut text: String = prefixed("add_planar_framebuffer: ", planar_error.as_str());
                text.append("; add_framebuffer fallback: ");
                text.append(error);
                text
            },
            Phase::SettingCrtc { .. } => prefixed("set_crtc: ", error),
            Phase::Flipping { .. } => prefixed("page_flip: ", error),
            Phase::Destroying => prefixed("destroy_framebuffer: ", error),
            Phase::Restoring => prefixed("restore set_crtc: ", error),
            Phase::DestroyingLast => prefixed("restore destroy_framebuffer: ", error),
            _ => error.to_owned(),
        }
    }
}

impl DrmDisplay {
    /// A display that shows nothing of ours yet. What is drawn has the given format, and the CRTC
    /// had a mode or not.
    pub fn new(setup: Setup, format: u32, had_mode: bool) -> (display: DrmDisplay)
        ensures
            display@ == (DisplayModel {
                crtc: setup.crtc,
                size: setup.size,
                format,
                had_mode,
                current: None,
                described: false,
                explained: false,
                phase: PhaseModel::Idle,
            }),
    {
        DrmDisplay {
            crtc: setup.crtc,
            w: setup.size.0,
            h: setup.size.1,
            format,
            had_mode,
            current: None,
            logged_bo: false,
            logged_legacy_fb_fallback: false,
            phase: Phase::Idle,
        }
    }

    /// The size of the screen in pixels.
    pub fn size(&self) -> (size: (u32, u32))
        ensures
            size == self@.size,
    {
        (self.w, self.h)
    }

    /// Whether nothing is being presented or put back.
    pub fn is_idle(&self) -> (idle: bool)
        ensures
            idle == (self@.phase is Idle),
    {
        matches!(self.phase, Phase::Idle)
    }

    /// Begins to present a frame.
    pub fn present(&mut self) -> (action: DisplayAction)
        requires
            old(self)@.phase is Idle,
        ensures
            final(self)@ == (DisplayModel { phase: PhaseModel::Swapping, ..old(self)@ }),
            action@ is SwapBuffers,
    {
        self.phase = Phase::Swapping;
        DisplayAction::SwapBuffers
    }

    /// Begins to put back what was shown at first.
    pub fn restore(&mut self) -> (action: DisplayAction)
        requires
            old(self)@.phase is Idle,
        ensures
            final(self)@ == (DisplayModel { phase: PhaseModel::Restoring, ..old(self)@ }),
            action@ == (ActionModel::RestoreCrtc {
                crtc: old(self)@.crtc,
                with_connector: old(self)@.had_mode,
            }),
    {
        self.phase = Phase::Restoring;
        DisplayAction::RestoreCrtc { crtc: self.crtc, with_connector: self.had_mode }
    }

    /// Goes on with a framebuffer to show.
    fn show(&mut self, fb: u32) -> (action: DisplayAction)
        ensures
            (final(self)@, action@) == old(self)@.showing(fb),
    {
        if self.current.is_none() {
            self.phase = Phase::SettingCrtc { fb };
            DisplayAction::SetCrtc { crtc: self.crtc, fb }
        } else {
            self.phase = Phase::Flipping { fb };
            DisplayAction::PageFlip { crtc: self.crtc, fb }
        }
    }

    /// Goes on with what came of the action that was asked last.
    pub fn on_outcome(&mut self, outcome: Outcome) -> (action: DisplayAction)
        requires
            old(self)@.expects(outcome@),
        ensures
            (final(self)@, action@) == old(self)@.after(outcome@),
    {
        match outcome {
            Outcome::Failed(error) => {
                if let Phase::AddingPlanar = self.phase {
                    let explain: bool = !self.logged_legacy_fb_fallback;
                    self.logged_legacy_fb_fallback = true;
                    self.phase = Phase::Adding { planar_error: error };
                    DisplayAction::AddFramebuffer {
                        depth: framebuffer_depth(self.format),
                        bits_per_pixel: BITS_PER_PIXEL,
                        explain,
                    }
                } else {
                    let error: String = self.phase.complaint(error.as_str());
                    self.phase = Phase::Idle;
                    DisplayAction::Fail { error }
                }
            },
            Outcome::Framebuffer(fb) => self.show(fb),
            Outcome::Flips(crtcs) => {
                if !list_contains(&crtcs, self.crtc) {
                    return DisplayAction::ReceiveEvents;
                }
                let old_fb: Option<u32> = self.current;
                if let Phase::AwaitingFlip { fb } = self.phase {
                    self.current = Some(fb);
                }
                match old_fb {
                    Some(fb) => {
                        self.phase = Phase::Destroying;
                        DisplayAction::DestroyFramebuffer { fb }
                    },
                    None => {
                        self.phase = Phase::Idle;
                        DisplayAction::Finish
                    },
                }
            },
            Outcome::Done => self.on_done(),
        }
    }

    /// Goes on after an action that has no result.
    fn on_done(&mut self) -> (action: DisplayAction)
        requires
            old(self)@.expects(OutcomeModel::Done),
        ensures
            (final(self)@, action@) == old(self)@.after(OutcomeModel::Done),
    {
        match self.phase {
            Phase::Swapping => {
                self.phase = Phase::Locking;
                DisplayAction::LockFrontBuffer
            },
            Phase::Locking => {
                let describe: bool = !self.logged_bo;
                self.logged_bo = true;
                self.phase = Phase::AddingPlanar;
                DisplayAction::AddPlanarFramebuffer { describe }
            },
            Phase::SettingCrtc { fb } => {
                self.current = Some(fb);
                self.phase = Phase::Idle;
                DisplayAction::Finish
            },
            Phase::Flipping { fb } => {
                self.phase = Phase::AwaitingFlip { fb };
                DisplayAction::ReceiveEvents
            },
            Phase::Restoring => {
                match self.current {
                    Some(fb) => {
                        self.current = None;
                        self.phase = Phase::DestroyingLast;
                        DisplayAction::DestroyFramebuffer { fb }
                    },
                    None => {
                        self.phase = Phase::Idle;
                        DisplayAction::Finish
                    },
                }
            },
            _ => {
                self.phase = Phase::Idle;
                DisplayAction::Finish
            },
        }
    }
}

impl DisplayModel {
    /// The framebuffer that was made and is not shown yet.
    pub open spec fn pending(self) -> Option<u32> {
        match self.phase {
            PhaseModel::SettingCrtc { fb } => Some(fb),
            PhaseModel::Flipping { fb } => Some(fb),
            PhaseModel::AwaitingFlip { fb } => Some(fb),
            _ => None,
        }
    }

    /// The framebuffers that the display holds.
    pub open spec fn framebuffers(self) -> Set<u32> {
        Set::new(|fb: u32| self.current == Some(fb) || self.pending() == Some(fb))
    }

    /// The mode is set for the first frame only, and a new framebuffer is not the one that is
    /// shown.
    pub open spec fn is_well_formed(self) -> bool {
        &&& self.phase is SettingCrtc ==> self.current is None
        &&& self.phase is Flipping || self.phase is AwaitingFlip ==> self.current is Some
        &&& self.pending() is Some ==> self.pending() != self.current
    }

    /// The display after some outcomes, and what it asked in between.
    pub open spec fn run(self, outcomes: Seq<OutcomeModel>) -> (DisplayModel, Seq<ActionModel>)
        decreases outcomes.len(),
    {
        if outcomes.len() == 0 {
            (self, Seq::empty())
        } else {
            let (before, actions) = self.run(outcomes.drop_last());
            let (after, action) = before.after(outcomes.last());
            (after, actions.push(action))
        }
    }
}

/// No framebuffer is lost: until something fails, each one that was made is held until it is
/// destroyed, and only one that is held is destroyed.
pub proof fn law_framebuffers_are_accounted_for(display: DisplayModel, outcome: OutcomeModel)
    requires
        display.is_well_formed(),
        display.expects(outcome),
        outcome is Failed ==> display.phase is AddingPlanar,
        outcome matches OutcomeModel::Framebuffer(fb) ==> !display.framebuffers().contains(fb),
    ensures
        display.after(outcome).0.is_well_formed(),
        ({
            let (after, action) = display.after(outcome);
            match (outcome, action) {
                (OutcomeModel::Framebuffer(fb), _) => after.framebuffers()
                    == display.framebuffers().insert(fb),
                (_, ActionModel::DestroyFramebuffer { fb }) => display.framebuffers().contains(fb)
                    && after.framebuffers() == display.framebuffers().remove(fb),
                _ => after.framebuffers() == display.framebuffers(),
            }
        }),
{
    let (after, action) = display.after(outcome);
    match (outcome, action) {
        (OutcomeModel::Framebuffer(fb), _) => {
            assert(after.framebuffers() =~= display.framebuffers().insert(fb));
        },
        (_, ActionModel::DestroyFramebuffer { fb }) => {
            assert(after.framebuffers() =~= display.framebuffers().remove(fb));
        },
        _ => {
            assert(after.framebuffers() =~= display.framebuffers());
        },
    }
}

/// What is on the screen is never destroyed: a framebuffer is destroyed once a flip away from it
/// is over, or once the first picture is back.
pub proof fn law_shown_framebuffer_is_not_destroyed(
    display: DisplayModel,
    outcome: OutcomeModel,
    fb: u32,
)
    requires
        display.is_well_formed(),
        display.expects(outcome),
        display.after(outcome).1 == (ActionModel::DestroyFramebuffer { fb }),
    ensures
        display.current == Some(fb),
        display.after(outcome).0.current != Some(fb),
        display.phase is Restoring || (outcome matches OutcomeModel::Flips(crtcs)
            && crtcs.contains(display.crtc)),
{
}

/// A failure leaves the display as it is, with the same framebuffer on the screen.
pub proof fn law_failure_changes_nothing(display: DisplayModel, error: Seq<char>)
    requires
        display.expects(OutcomeModel::Failed(error)),
        display.phase !is AddingPlanar,
    ensures
        display.after(OutcomeModel::Failed(error)) == (
            DisplayModel { phase: PhaseModel::Idle, ..display },
            ActionModel::Fail { error: display.complaint(error) },
        ),
{
}

/// Each remark goes to the log at most once.
pub proof fn law_remarks_come_once(display: DisplayModel, outcome: OutcomeModel)
    requires
        display.expects(outcome),
    ensures
        ({
            let (after, action) = display.after(outcome);
            &&& action matches ActionModel::AddPlanarFramebuffer { describe } ==> describe
                == !display.described && after.described
            &&& action matches ActionModel::AddFramebuffer { explain, .. } ==> explain
                == !display.explained && after.explained
            &&& display.described ==> after.described
            &&& display.explained ==> after.explained
        }),
{
}

/// What comes of making a framebuffer: it is made of all planes at once, or the old way after that
/// has failed with an error.
pub open spec fn making(planar_error: Option<Seq<char>>, fb: u32) -> Seq<OutcomeModel> {
    match planar_error {
        Some(error) => seq![OutcomeModel::Failed(error), OutcomeModel::Framebuffer(fb)],
        None => seq![OutcomeModel::Framebuffer(fb)],
    }
}

impl DisplayModel {
    /// What is asked to make a framebuffer, the old way or not.
    pub open spec fn adding(self, the_old_way: bool) -> Seq<ActionModel> {
        let planar = ActionModel::AddPlanarFramebuffer { describe: !self.described };
        let legacy = ActionModel::AddFramebuffer {
            depth: crate::display::formats::depth_of(self.format),
            bits_per_pixel: BITS_PER_PIXEL,
            explain: !self.explained,
        };
        if the_old_way {
            seq![planar, legacy]
        } else {
            seq![planar]
        }
    }

    /// The display once a frame is on the screen, in a framebuffer that was made the old way or
    /// not.
    pub open spec fn with_frame(self, fb: u32, the_old_way: bool) -> DisplayModel {
        DisplayModel {
            phase: PhaseModel::Idle,
            current: Some(fb),
            described: true,
            explained: self.explained || the_old_way,
            ..self
        }
    }
}

/// Whether outcomes are flips on other CRTCs only.
pub open spec fn are_foreign(outcomes: Seq<OutcomeModel>, crtc: u32) -> bool {
    forall|i: int|
        0 <= i < outcomes.len() ==> (#[trigger] outcomes[i] matches OutcomeModel::Flips(crtcs)
            && !crtcs.contains(crtc))
}

/// Events are asked for again and again.
pub open spec fn receiving(times: nat) -> Seq<ActionModel> {
    Seq::new(times, |i: int| ActionModel::ReceiveEvents)
}

proof fn lemma_run(display: DisplayModel, outcomes: Seq<OutcomeModel>, outcome: OutcomeModel)
    ensures
        ({
            let (before, actions) = display.run(outcomes);
            let (after, action) = before.after(outcome);
            display.run(outcomes.push(outcome)) == (after, actions.push(action))
        }),
{
    assert(outcomes.push(outcome).drop_last() =~= outcomes);
}

/// A run is a run of its beginning, and one of the rest from there.
proof fn lemma_runs_join(
    display: DisplayModel,
    first: Seq<OutcomeModel>,
    second: Seq<OutcomeModel>,
)
    ensures
        ({
            let (middle, actions) = display.run(first);
            let (after, more) = middle.run(second);
            display.run(first + second) == (after, actions + more)
        }),
    decreases second.len(),
{
    let (middle, actions) = display.run(first);
    if second.len() == 0 {
        assert(first + second =~= first);
        assert(actions + Seq::<ActionModel>::empty() =~= actions);
    } else {
        let before = second.drop_last();
        lemma_runs_join(display, first, before);
        assert((first + second).drop_last() =~= first + before);
        let (_, more) = middle.run(before);
        let action = middle.run(before).0.after(second.last()).1;
        assert((actions + more).push(action) =~= actions + more.push(action));
    }
}

/// A frame is drawn, and a framebuffer is made for it.
proof fn lemma_frame_is_made(display: DisplayModel, planar_error: Option<Seq<char>>, fb: u32)
    requires
        display.phase is Swapping,
    ensures
        ({
            let made = DisplayModel {
                described: true,
                explained: display.explained || planar_error is Some,
                ..display
            };
            let (after, actions) = display.run(
                seq![OutcomeModel::Done, OutcomeModel::Done] + making(planar_error, fb),
            );
            &&& after == made.showing(fb).0
            &&& actions == seq![ActionModel::LockFrontBuffer] + display.adding(
                planar_error is Some,
            ) + seq![made.showing(fb).1]
        }),
{
    let done = OutcomeModel::Done;
    let made = OutcomeModel::Framebuffer(fb);
    let drawn = seq![done, done];
    lemma_run(display, seq![], done);
    assert(seq![done] =~= seq![].push(done));
    lemma_run(display, seq![done], done);
    assert(drawn =~= seq![done].push(done));
    let actions = display.run(drawn + making(planar_error, fb)).1;
    match planar_error {
        Some(error) => {
            let failed = OutcomeModel::Failed(error);
            lemma_run(display, drawn, failed);
            lemma_run(display, drawn.push(failed), made);
            assert(drawn + making(planar_error, fb) =~= drawn.push(failed).push(made));
        },
        None => {
            lemma_run(display, drawn, made);
            assert(drawn + making(planar_error, fb) =~= drawn.push(made));
        },
    }
    assert(actions =~= seq![ActionModel::LockFrontBuffer] + display.adding(planar_error is Some)
        + seq![actions.last()]);
}

/// Flips on other CRTCs leave a display waiting.
proof fn lemma_foreign_flips(display: DisplayModel, foreign: Seq<OutcomeModel>)
    requires
        display.phase is AwaitingFlip,
        are_foreign(foreign, display.crtc),
    ensures
        display.run(foreign) == (display, receiving(foreign.len())),
    decreases foreign.len(),
{
    if foreign.len() > 0 {
        let before = foreign.drop_last();
        assert forall|i: int| 0 <= i < before.len() implies (
        #[trigger] before[i] matches OutcomeModel::Flips(crtcs) && !crtcs.contains(display.crtc)) by {
            assert(before[i] == foreign[i]);
        }
        lemma_foreign_flips(display, before);
        assert(foreign[foreign.len() - 1] == foreign.last());
        assert(receiving(before.len()).push(ActionModel::ReceiveEvents) =~= receiving(
            foreign.len(),
        ));
    } else {
        assert(receiving(0) =~= Seq::empty());
    }
}

/// The first frame sets the mode, and leaves nothing to destroy, however its framebuffer was made.
pub proof fn law_first_frame_sets_the_mode(
    display: DisplayModel,
    planar_error: Option<Seq<char>>,
    fb: u32,
)
    requires
        display.phase is Swapping,
        display.current is None,
    ensures
        display.run(
            seq![OutcomeModel::Done, OutcomeModel::Done] + making(planar_error, fb) + seq![
                OutcomeModel::Done,
            ],
        ) == (
            display.with_frame(fb, planar_error is Some),
            seq![ActionModel::LockFrontBuffer] + display.adding(planar_error is Some) + seq![
                ActionModel::SetCrtc { crtc: display.crtc, fb },
                ActionModel::Finish,
            ],
        ),
{
    let done = OutcomeModel::Done;
    let begun = seq![done, done] + making(planar_error, fb);
    lemma_frame_is_made(display, planar_error, fb);
    lemma_run(display, begun, done);
    assert(begun + seq![done] =~= begun.push(done));
    assert(display.run(begun.push(done)).1 =~= seq![ActionModel::LockFrontBuffer]
        + display.adding(planar_error is Some) + seq![
        ActionModel::SetCrtc { crtc: display.crtc, fb },
        ActionModel::Finish,
    ]);
}

/// A later frame flips to its framebuffer, however that was made. It waits until the flip is over,
/// however often flips on other CRTCs are reported before, and then destroys the framebuffer that
/// was shown.
pub proof fn law_later_frames_flip(
    display: DisplayModel,
    planar_error: Option<Seq<char>>,
    fb: u32,
    old_fb: u32,
    foreign: Seq<OutcomeModel>,
    crtcs: Seq<u32>,
)
    requires
        display.phase is Swapping,
        display.current == Some(old_fb),
        are_foreign(foreign, display.crtc),
        crtcs.contains(display.crtc),
    ensures
        display.run(
            seq![OutcomeModel::Done, OutcomeModel::Done] + making(planar_error, fb) + seq![
                OutcomeModel::Done,
            ] + foreign + seq![OutcomeModel::Flips(crtcs), OutcomeModel::Done],
        ) == (
            display.with_frame(fb, planar_error is Some),
            seq![ActionModel::LockFrontBuffer] + display.adding(planar_error is Some) + seq![
                ActionModel::PageFlip { crtc: display.crtc, fb },
                ActionModel::ReceiveEvents,
            ] + receiving(foreign.len()) + seq![
                ActionModel::DestroyFramebuffer { fb: old_fb },
                ActionModel::Finish,
            ],
        ),
{
    let done = OutcomeModel::Done;
    let over = OutcomeModel::Flips(crtcs);
    let begun = seq![done, done] + making(planar_error, fb);
    let flipping = begun + seq![done];
    let waited = flipping + foreign;
    let added = seq![ActionModel::LockFrontBuffer] + display.adding(planar_error is Some);
    let asked = added + seq![
        ActionModel::PageFlip { crtc: display.crtc, fb },
        ActionModel::ReceiveEvents,
    ];
    lemma_frame_is_made(display, planar_error, fb);
    lemma_run(display, begun, done);
    assert(flipping =~= begun.push(done));
    assert(display.run(flipping).1 =~= asked);
    lemma_runs_join(display, flipping, foreign);
    lemma_foreign_flips(display.run(flipping).0, foreign);
    lemma_run(display, waited, over);
    lemma_run(display, waited.push(over), done);
    assert(waited + seq![over, done] =~= waited.push(over).push(done));
    assert(display.run(waited.push(over).push(done)).1 =~= asked + receiving(foreign.len())
        + seq![ActionModel::DestroyFramebuffer { fb: old_fb }, ActionModel::Finish]);
}

/// Putting back what was shown at first leaves no framebuffer of ours.
pub proof fn law_restoring_leaves_nothing(display: DisplayModel, fb: u32)
    requires
        display.phase is Restoring,
        display.current == Some(fb),
    ensures
        display.run(seq![OutcomeModel::Done, OutcomeModel::Done]) == (
            DisplayModel { phase: PhaseModel::Idle, current: None, ..display },
            seq![ActionModel::DestroyFramebuffer { fb }, ActionModel::Finish],
        ),
{
    let done = OutcomeModel::Done;
    lemma_run(display, seq![], done);
    assert(seq![done] =~= seq![].push(done));
    lemma_run(display, seq![done], done);
    assert(seq![done, done] =~= seq![done].push(done));
}

/// An action that fails is named in what is said, with the reason behind it. A framebuffer that could
/// be made in neither way is complained about with both reasons.
pub proof fn law_failures_are_named(display: DisplayModel, error: Seq<char>, fb: u32, planar: Seq<char>)
    ensures
        (DisplayModel { phase: PhaseModel::Swapping, ..display }).complaint(error)
            == "eglSwapBuffers: "@ + error,
        (DisplayModel { phase: PhaseModel::Locking, ..display }).complaint(error)
            == "lock_front_buffer: "@ + error,
        (DisplayModel {
            phase: PhaseModel::Adding { planar_error: planar },
            ..display
        }).complaint(error) == "add_planar_framebuffer: "@ + planar
            + "; add_framebuffer fallback: "@ + error,
        (DisplayModel { phase: PhaseModel::SettingCrtc { fb }, ..display }).complaint(error)
            == "set_crtc: "@ + error,
        (DisplayModel { phase: PhaseModel::Flipping { fb }, ..display }).complaint(error)
            == "page_flip: "@ + error,
        (DisplayModel { phase: PhaseModel::AwaitingFlip { fb }, ..display }).complaint(error)
            == error,
        (DisplayModel { phase: PhaseModel::Destroying, ..display }).complaint(error)
            == "destroy_framebuffer: "@ + error,
        (DisplayModel { phase: PhaseModel::Restoring, ..display }).complaint(error)
            == "restore set_crtc: "@ + error,
        (DisplayModel { phase: PhaseModel::DestroyingLast, ..display }).complaint(error)
            == "restore destroy_framebuffer: "@ + error,
{
}

/// A framebuffer that cannot be made of all planes is made the old way, of 32 bits for each pixel,
/// and of these as many count as the format has.
pub proof fn law_fallback_keeps_the_format(display: DisplayModel, error: Seq<char>)
    requires
        display.phase is AddingPlanar,
    ensures
        display.after(OutcomeModel::Failed(error)) == (
            DisplayModel {
                phase: PhaseModel::Adding { planar_error: error },
                explained: true,
                ..display
            },
            ActionModel::AddFramebuffer {
                depth: crate::display::formats::depth_of(display.format),
                bits_per_pixel: 32,
                explain: !display.explained,
            },
        ),
{
}

/// Everything that is asked can fail, and anything but what an action can bring is not expected.
pub proof fn law_outcomes_fit_what_was_asked(display: DisplayModel, outcome: OutcomeModel)
    ensures
        display.phase is Idle ==> !display.expects(outcome),
        !(display.phase is Idle) && outcome is Failed ==> display.expects(outcome),
        outcome is Framebuffer ==> (display.expects(outcome) <==> display.phase is AddingPlanar
            || display.phase is Adding),
        outcome is Flips ==> (display.expects(outcome) <==> display.phase is AwaitingFlip),
        outcome is Done ==> (display.expects(outcome) <==> !(display.phase is Idle)
            && !(display.phase is AddingPlanar) && !(display.phase is Adding) && !(display.phase
            is AwaitingFlip)),
{
}

/// Each step keeps what the display is for: its CRTC, its size, its format, and whether there was a
/// mode at first.
pub proof fn law_display_stays_the_same(display: DisplayModel, outcome: OutcomeModel)
    ensures
        ({
            let after = display.after(outcome).0;
            &&& after.crtc == display.crtc
            &&& after.size == display.size
            &&& after.format == display.format
            &&& after.had_mode == display.had_mode
        }),
{
}

/// Where nothing of ours was shown, nothing is destroyed when the first picture is back.
pub proof fn law_restoring_an_unused_display(display: DisplayModel)
    requires
        display.phase is Restoring,
        display.current is None,
    ensures
        display.after(OutcomeModel::Done) == (
            DisplayModel { phase: PhaseModel::Idle, ..display },
            ActionModel::Finish,
        ),
{
}

} // verus!
