//! The stream driver: which frame to draw next, whether to clear first, and when
//! to stop.
use vstd::prelude::*;

use crate::geometry::TerminalGeometry;
use crate::monitor::EventManager;
use crate::render::RenderConfig;

verus! {

/// Where frames come from.
#[derive(Clone, Copy, Debug, PartialEq, Eq, Structural)]
pub enum SourceKind {
    /// One still image, drawn once.
    SingleImage,
    /// A finite sequence of decoded frames held in memory.
    FrameSequence,
    /// A live capture device, which never runs out of frames.
    DeviceCapture,
}

/// Where the driver stands.
#[derive(Clone, Copy, Debug, PartialEq, Eq, Structural)]
pub enum DriverState {
    Idle,
    Streaming,
    Stopped,
}

/// What the driver asks of its caller next.
#[derive(Clone, Copy, Debug, PartialEq, Eq, Structural)]
pub enum Action {
    /// Clear the whole screen first where `clear_first` is set, then draw frame
    /// `index` of the sequence (for a still image or a live device: the frame that
    /// the source gives next, and `index` is 0 for a driver made by `new`), then
    /// pause for `pause_ms`.
    Render { index: usize, clear_first: bool, pause_ms: u64 },
    /// Playback is over.
    Stop,
}

/// The decisions of playback; the caller pulls frames, draws, clears and sleeps
/// as the returned actions say.
#[derive(Clone, Copy, Debug, PartialEq, Eq, Structural)]
pub struct StreamDriver {
    pub state: DriverState,
    pub kind: SourceKind,
    /// Number of frames of a frame sequence.
    pub frame_count: usize,
    /// Index of the next frame of a frame sequence to draw.
    pub next_index: usize,
    pub loop_animation: bool,
    pub delay_ms: u64,
    /// The terminal geometry last seen, for resize detection.
    pub monitor: EventManager,
}

/// The driver before its first step.
pub open spec fn initial_driver(
    kind: SourceKind,
    frame_count: usize,
    config: RenderConfig,
    geometry: TerminalGeometry,
) -> StreamDriver {
    StreamDriver {
        state: DriverState::Idle,
        kind,
        frame_count,
        next_index: 0,
        loop_animation: config.loop_animation,
        delay_ms: config.frame_delay_ms,
        monitor: EventManager { last_known: geometry },
    }
}

/// The driver is drawing frames from a sequence or a device.
pub open spec fn streams(d: StreamDriver) -> bool {
    d.state != DriverState::Stopped && d.kind != SourceKind::SingleImage
}

/// A frame sequence still has a frame to draw.
pub open spec fn has_next_frame(d: StreamDriver) -> bool {
    d.kind == SourceKind::DeviceCapture || d.next_index < d.frame_count
}

/// Index of the sequence frame after the current one: back to 0 after the last
/// one where the animation loops. A live device keeps its index.
pub open spec fn index_after(d: StreamDriver) -> usize {
    if d.kind == SourceKind::DeviceCapture {
        d.next_index
    } else if d.loop_animation && d.next_index + 1 == d.frame_count {
        0
    } else {
        (d.next_index + 1) as usize
    }
}

/// What the driver asks for when the terminal's geometry is `current`.
pub open spec fn next_action(d: StreamDriver, current: TerminalGeometry) -> Action {
    if d.state == DriverState::Stopped {
        Action::Stop
    } else if d.kind == SourceKind::SingleImage {
        Action::Render { index: 0, clear_first: false, pause_ms: 0 }
    } else if has_next_frame(d) {
        Action::Render {
            index: d.next_index,
            clear_first: current != d.monitor.last_known,
            pause_ms: d.delay_ms,
        }
    } else {
        Action::Stop
    }
}

/// The driver after that step.
pub open spec fn next_driver(d: StreamDriver, current: TerminalGeometry) -> StreamDriver {
    if d.state == DriverState::Stopped {
        d
    } else if d.kind == SourceKind::SingleImage {
        StreamDriver { state: DriverState::Stopped, ..d }
    } else if has_next_frame(d) {
        StreamDriver {
            state: DriverState::Streaming,
            next_index: index_after(d),
            monitor: EventManager { last_known: current },
            ..d
        }
    } else {
        StreamDriver { state: DriverState::Stopped, ..d }
    }
}

/// The actions of successive steps, one for each sampled geometry.
pub open spec fn actions_of(d: StreamDriver, gs: Seq<TerminalGeometry>) -> Seq<Action>
    decreases gs.len(),
{
    if gs.len() == 0 {
        Seq::empty()
    } else {
        seq![next_action(d, gs[0])] + actions_of(next_driver(d, gs[0]), gs.drop_first())
    }
}

/// The driver after successive steps.
pub open spec fn driver_after(d: StreamDriver, gs: Seq<TerminalGeometry>) -> StreamDriver
    decreases gs.len(),
{
    if gs.len() == 0 {
        d
    } else {
        driver_after(next_driver(d, gs[0]), gs.drop_first())
    }
}

impl StreamDriver {
    /// A driver for `frame_count` frames of the given kind of source, paced and
    /// looped as `config` says, starting from the terminal geometry `geometry`.
    pub fn new(
        kind: SourceKind,
        frame_count: usize,
        config: RenderConfig,
        geometry: TerminalGeometry,
    ) -> (d: StreamDriver)
        ensures
            d == initial_driver(kind, frame_count, config, geometry),
    {
        StreamDriver {
            state: DriverState::Idle,
            kind,
            frame_count,
            next_index: 0,
            loop_animation: config.loop_animation,
            delay_ms: config.frame_delay_ms,
            monitor: EventManager::new(geometry),
        }
    }

    /// One iteration: given the terminal's current geometry, says what to do.
    /// A still image is drawn once, unpaced and without resize checks. A frame
    /// sequence is drawn in order, from the start again after its last frame
    /// where it loops; otherwise the step after its last frame stops. A live
    /// device is drawn from without end. Each streamed frame is preceded by a
    /// full clear exactly when the geometry changed since the previous step.
    pub fn step(&mut self, current: TerminalGeometry) -> (a: Action)
        ensures
            a == next_action(*old(self), current),
            *final(self) == next_driver(*old(self), current),
    {
        if self.is_stopped() {
            return Action::Stop;
        }
        match self.kind {
            SourceKind::SingleImage => {
                self.state = DriverState::Stopped;
                Action::Render { index: 0, clear_first: false, pause_ms: 0 }
            },
            SourceKind::DeviceCapture => {
                let clear_first = self.monitor.run(current);
                self.state = DriverState::Streaming;
                Action::Render { index: self.next_index, clear_first, pause_ms: self.delay_ms }
            },
            SourceKind::FrameSequence => {
                if self.next_index < self.frame_count {
                    let index = self.next_index;
                    let clear_first = self.monitor.run(current);
                    self.state = DriverState::Streaming;
                    self.next_index = if self.loop_animation && index + 1 == self.frame_count {
                        0
                    } else {
                        index + 1
                    };
                    Action::Render { index, clear_first, pause_ms: self.delay_ms }
                } else {
                    self.state = DriverState::Stopped;
                    Action::Stop
                }
            },
        }
    }

    /// Ends playback at once, as after a failed frame pull or draw.
    pub fn stop(&mut self)
        ensures
            final(self).state == DriverState::Stopped,
            *final(self) == (StreamDriver { state: DriverState::Stopped, ..*old(self) }),
    {
        self.state = DriverState::Stopped;
    }

    /// Playback is over.
    pub fn is_stopped(&self) -> (r: bool)
        ensures
            r == (self.state == DriverState::Stopped),
    {
        match self.state {
            DriverState::Stopped => true,
            _ => false,
        }
    }
}

/// Every step yields one action.
proof fn lemma_actions_len(d: StreamDriver, gs: Seq<TerminalGeometry>)
    ensures
        actions_of(d, gs).len() == gs.len(),
    decreases gs.len(),
{
    if gs.len() > 0 {
        lemma_actions_len(next_driver(d, gs[0]), gs.drop_first());
    }
}

/// A stopped driver stays stopped, and asks for nothing but stopping.
proof fn lemma_stopped_stays(d: StreamDriver, gs: Seq<TerminalGeometry>)
    requires
        d.state == DriverState::Stopped,
    ensures
        forall|i: int| 0 <= i < gs.len() ==> actions_of(d, gs)[i] == Action::Stop,
        driver_after(d, gs) == d,
    decreases gs.len(),
{
    lemma_actions_len(d, gs);
    if gs.len() > 0 {
        let rest = gs.drop_first();
        lemma_stopped_stays(next_driver(d, gs[0]), rest);
        lemma_actions_len(next_driver(d, gs[0]), rest);
        assert forall|i: int| 0 <= i < gs.len() implies actions_of(d, gs)[i] == Action::Stop by {
            if i > 0 {
                assert(actions_of(d, gs)[i] == actions_of(d, rest)[i - 1]);
            }
        }
    }
}

proof fn lemma_sequence_from(d: StreamDriver, gs: Seq<TerminalGeometry>)
    requires
        d.kind == SourceKind::FrameSequence,
        !d.loop_animation,
        d.state != DriverState::Stopped,
        d.next_index <= d.frame_count,
    ensures
        forall|i: int|
            0 <= i < gs.len() && i < d.frame_count - d.next_index ==> (#[trigger] actions_of(d, gs)[i] matches Action::Render { index, .. } && index == d.next_index + i),
        forall|i: int|
            0 <= i < gs.len() && i >= d.frame_count - d.next_index ==> actions_of(d, gs)[i]
                == Action::Stop,
        gs.len() > d.frame_count - d.next_index ==> driver_after(d, gs).state
            == DriverState::Stopped,
    decreases gs.len(),
{
    lemma_actions_len(d, gs);
    if gs.len() > 0 {
        let rest = gs.drop_first();
        let d1 = next_driver(d, gs[0]);
        lemma_actions_len(d1, rest);
        if d.next_index < d.frame_count {
            lemma_sequence_from(d1, rest);
        } else {
            lemma_stopped_stays(d1, rest);
        }
        assert forall|i: int| 0 < i < gs.len() implies actions_of(d, gs)[i] == actions_of(
            d1,
            rest,
        )[i - 1] by {}
    }
}

/// A frame sequence that does not loop is drawn once: with `n` frames, the first
/// `n` steps draw frames 0 to `n - 1` in order, every later step asks to stop, and
/// after the step that follows the last frame the driver has stopped.
pub proof fn lemma_sequence_plays_once(
    n: usize,
    config: RenderConfig,
    start: TerminalGeometry,
    gs: Seq<TerminalGeometry>,
)
    requires
        !config.loop_animation,
    ensures
        ({
            let d = initial_driver(SourceKind::FrameSequence, n, config, start);
            let acts = actions_of(d, gs);
            &&& acts.len() == gs.len()
            &&& forall|i: int|
                0 <= i < gs.len() && i < n ==> (#[trigger] acts[i] matches Action::Render { index, .. } && index == i)
            &&& forall|i: int| 0 <= i < gs.len() && i >= n ==> acts[i] == Action::Stop
            &&& gs.len() > n ==> driver_after(d, gs).state == DriverState::Stopped
        }),
{
    let d = initial_driver(SourceKind::FrameSequence, n, config, start);
    lemma_actions_len(d, gs);
    lemma_sequence_from(d, gs);
}

/// Index of the frame after `k` in a cycle of `n`.
proof fn lemma_cycle_step(k: int, n: int, i: int)
    requires
        0 <= k < n,
        i >= 1,
    ensures
        ((if k + 1 == n { 0 } else { k + 1 }) + (i - 1)) % n == (k + i) % n,
{
    if k + 1 == n {
        vstd::arithmetic::div_mod::lemma_mod_add_multiples_vanish(i - 1, n);
        assert(n + (i - 1) == k + i);
    }
}

proof fn lemma_cycle_from(d: StreamDriver, gs: Seq<TerminalGeometry>)
    requires
        d.kind == SourceKind::FrameSequence,
        d.loop_animation,
        d.state != DriverState::Stopped,
        d.next_index < d.frame_count,
    ensures
        forall|i: int|
            0 <= i < gs.len() ==> (#[trigger] actions_of(d, gs)[i] matches Action::Render { index, .. } && index == (d.next_index + i) % (d.frame_count as int)),
    decreases gs.len(),
{
    lemma_actions_len(d, gs);
    if gs.len() > 0 {
        let rest = gs.drop_first();
        let d1 = next_driver(d, gs[0]);
        lemma_actions_len(d1, rest);
        lemma_cycle_from(d1, rest);
        vstd::arithmetic::div_mod::lemma_small_mod(d.next_index as nat, d.frame_count as nat);
        assert forall|i: int| 0 <= i < gs.len() implies (#[trigger] actions_of(d, gs)[i] matches Action::Render { index, .. } && index == (d.next_index + i) % (d.frame_count as int)) by {
            if i > 0 {
                assert(actions_of(d, gs)[i] == actions_of(d1, rest)[i - 1]);
                lemma_cycle_step(d.next_index as int, d.frame_count as int, i);
            }
        }
    }
}

/// A looping frame sequence of `n > 0` frames is drawn without end in the order
/// 0, 1, ..., n - 1, 0, 1, ...: step `i` draws frame `i % n`.
pub proof fn lemma_looping_sequence_cycles(
    n: usize,
    config: RenderConfig,
    start: TerminalGeometry,
    gs: Seq<TerminalGeometry>,
)
    requires
        config.loop_animation,
        n > 0,
    ensures
        ({
            let acts = actions_of(initial_driver(SourceKind::FrameSequence, n, config, start), gs);
            &&& acts.len() == gs.len()
            &&& forall|i: int|
                0 <= i < gs.len() ==> (#[trigger] acts[i] matches Action::Render { index, .. } && index == i % (n as int))
        }),
{
    let d = initial_driver(SourceKind::FrameSequence, n, config, start);
    lemma_actions_len(d, gs);
    lemma_cycle_from(d, gs);
}

/// The geometry that step `i` is compared with: the one sampled at the step
/// before, or, at the first step, the one last seen by the driver.
pub open spec fn previous_geometry(d: StreamDriver, gs: Seq<TerminalGeometry>, i: int) -> TerminalGeometry {
    if i == 0 {
        d.monitor.last_known
    } else {
        gs[i - 1]
    }
}

/// While frames of a sequence or a live device are drawn, a full clear comes
/// before a frame exactly when the geometry sampled for it differs from the one
/// sampled at the step before: one clear for each change, none while the
/// terminal keeps its size.
pub proof fn lemma_clear_exactly_on_resize(d: StreamDriver, gs: Seq<TerminalGeometry>)
    requires
        d.kind != SourceKind::SingleImage,
    ensures
        forall|i: int|
            0 <= i < gs.len() ==> (#[trigger] actions_of(d, gs)[i] matches Action::Render { clear_first, .. } ==> clear_first == (gs[i] != previous_geometry(d, gs, i))),
    decreases gs.len(),
{
    lemma_actions_len(d, gs);
    if gs.len() > 0 {
        let rest = gs.drop_first();
        let d1 = next_driver(d, gs[0]);
        lemma_actions_len(d1, rest);
        lemma_clear_exactly_on_resize(d1, rest);
        if d1.state == DriverState::Stopped {
            lemma_stopped_stays(d1, rest);
        }
        assert forall|i: int| 0 <= i < gs.len() implies (#[trigger] actions_of(d, gs)[i] matches Action::Render { clear_first, .. } ==> clear_first == (gs[i] != previous_geometry(d, gs, i))) by {
            if i > 0 {
                assert(actions_of(d, gs)[i] == actions_of(d1, rest)[i - 1]);
                assert(rest[i - 1] == gs[i]);
                if i > 1 {
                    assert(rest[i - 2] == gs[i - 1]);
                }
            }
        }
    }
}

/// Across steps that all sample the geometry the driver last saw, no full clear
/// is asked for.
pub proof fn lemma_steady_geometry_never_clears(d: StreamDriver, gs: Seq<TerminalGeometry>)
    requires
        d.kind != SourceKind::SingleImage,
        forall|i: int| 0 <= i < gs.len() ==> gs[i] == d.monitor.last_known,
    ensures
        forall|i: int|
            0 <= i < gs.len() ==> (#[trigger] actions_of(d, gs)[i] matches Action::Render { clear_first, .. } ==> !clear_first),
{
    lemma_clear_exactly_on_resize(d, gs);
}

} // verus!
