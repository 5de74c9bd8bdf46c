//! Command protocol of the 3.97-inch 800 x 480 monochrome e-paper controller.
//!
//! The driver that owns the SPI bus and pins runs these plans step by step;
//! every choice of command, data byte, delay and timeout is made here.
use vstd::prelude::*;

use crate::text::{decimal, push_decimal, push_str};

verus! {

/// Native panel width in pixels.
pub const WIDTH: usize = 800;

/// Native panel height in pixels.
pub const HEIGHT: usize = 480;

/// Bytes of one native one-bit frame.
pub const FRAMEBUFFER_SIZE: usize = 48000;

/// Interval between busy-line samples.
pub const BUSY_POLL_MS: u32 = 20;

/// Longest time the busy line may stay high.
pub const BUSY_TIMEOUT_MS: u32 = 15000;

/// Wait before the first busy-line sample.
pub const BUSY_SETTLE_MS: u32 = 100;

/// A frame had the wrong number of bytes.
#[derive(Clone, Copy, Debug, PartialEq, Eq, Structural)]
pub struct FrameSizeError {
    pub got: usize,
}

impl FrameSizeError {
    /// Human-readable description of the rejected frame.
    pub fn message(&self) -> (text: String)
        ensures
            text@ == "invalid panel frame size: got "@ + decimal(self.got as nat)
                + ", expected "@ + decimal(FRAMEBUFFER_SIZE as nat),
    {
        let mut text = String::new();
        push_str(&mut text, "invalid panel frame size: got ");
        push_decimal(&mut text, self.got as u64);
        push_str(&mut text, ", expected ");
        push_decimal(&mut text, FRAMEBUFFER_SIZE as u64);
        text
    }
}

/// Accept exactly one native frame.
pub fn validate_frame(frame: &[u8]) -> (checked: Result<(), FrameSizeError>)
    ensures
        checked is Ok <==> frame@.len() == FRAMEBUFFER_SIZE,
        checked matches Err(error) ==> error.got == frame@.len(),
{
    if frame.len() != FRAMEBUFFER_SIZE {
        return Err(FrameSizeError { got: frame.len() });
    }
    Ok(())
}

/// One step of a panel operation.
#[derive(Debug)]
pub enum PanelStep {
    /// Drive data/command low and send one command byte.
    Command(u8),
    /// Drive data/command high and send these parameter bytes.
    Data(Vec<u8>),
    /// Drive data/command high and send the caller's frame.
    FrameData,
    /// Drive the reset line to this level.
    Reset(bool),
    /// Drive the chip-select line low.
    SelectChip,
    /// Drive the data/command line low.
    CommandMode,
    /// Switch the panel's PMIC rail on or off.
    PowerRail(bool),
    /// Wait this many milliseconds.
    DelayMs(u32),
    /// Wait until the busy line is released, failing after the timeout.
    WaitIdle,
}

/// A step as seen by specifications.
pub enum StepView {
    Command(u8),
    Data(Seq<u8>),
    FrameData,
    Reset(bool),
    SelectChip,
    CommandMode,
    PowerRail(bool),
    DelayMs(u32),
    WaitIdle,
}

impl View for PanelStep {
    type V = StepView;

    open spec fn view(&self) -> StepView {
        match self {
            PanelStep::Command(c) => StepView::Command(*c),
            PanelStep::Data(d) => StepView::Data(d@),
            PanelStep::FrameData => StepView::FrameData,
            PanelStep::Reset(level) => StepView::Reset(*level),
            PanelStep::SelectChip => StepView::SelectChip,
            PanelStep::CommandMode => StepView::CommandMode,
            PanelStep::PowerRail(on) => StepView::PowerRail(*on),
            PanelStep::DelayMs(ms) => StepView::DelayMs(*ms),
            PanelStep::WaitIdle => StepView::WaitIdle,
        }
    }
}

pub open spec fn steps_view(steps: Seq<PanelStep>) -> Seq<StepView> {
    steps.map_values(|step: PanelStep| step@)
}

/// Pin levels set when the driver is constructed: data/command low, reset
/// released high, chip select held low.
pub open spec fn idle_pins_plan() -> Seq<StepView> {
    seq![StepView::CommandMode, StepView::Reset(true), StepView::SelectChip]
}

/// Full hardware reset used before configuration.
pub open spec fn hardware_reset_plan() -> Seq<StepView> {
    seq![
        StepView::Reset(true),
        StepView::DelayMs(50),
        StepView::Reset(false),
        StepView::DelayMs(2),
        StepView::Reset(true),
        StepView::DelayMs(50),
    ]
}

/// Short hardware reset used before every partial refresh.
pub open spec fn fast_reset_plan() -> Seq<StepView> {
    seq![
        StepView::Reset(true),
        StepView::DelayMs(10),
        StepView::Reset(false),
        StepView::DelayMs(2),
        StepView::Reset(true),
        StepView::DelayMs(10),
    ]
}

/// Power the panel and configure the controller for global refresh.
pub open spec fn initialize_plan() -> Seq<StepView> {
    seq![StepView::PowerRail(true), StepView::DelayMs(10)] + hardware_reset_plan() + seq![
        StepView::WaitIdle,
        StepView::Command(0x12),
        StepView::WaitIdle,
        StepView::Command(0x18),
        StepView::Data(seq![0x80u8]),
        StepView::Command(0x0C),
        StepView::Data(seq![0xAEu8, 0xC7u8, 0xC3u8, 0xC0u8, 0x80u8]),
        StepView::Command(0x01),
        StepView::Data(seq![0xDFu8, 0x01u8, 0x02u8]),
        StepView::Command(0x3C),
        StepView::Data(seq![0x01u8]),
        StepView::Command(0x11),
        StepView::Data(seq![0x01u8]),
        StepView::Command(0x44),
        StepView::Data(seq![0x00u8, 0x00u8, 0x1Fu8, 0x03u8]),
        StepView::Command(0x45),
        StepView::Data(seq![0xDFu8, 0x01u8, 0x00u8, 0x00u8]),
        StepView::Command(0x4E),
        StepView::Data(seq![0x00u8, 0x00u8]),
        StepView::Command(0x4F),
        StepView::Data(seq![0x00u8, 0x00u8]),
        StepView::WaitIdle,
    ]
}

/// Activate the display with the given update-control byte and wait for it.
pub open spec fn turn_on_plan(refresh_control: u8) -> Seq<StepView> {
    seq![
        StepView::Command(0x22),
        StepView::Data(seq![refresh_control]),
        StepView::Command(0x20),
        StepView::WaitIdle,
    ]
}

/// Write the frame to both RAM planes and run a global refresh.
pub open spec fn show_base_plan() -> Seq<StepView> {
    seq![StepView::Command(0x24), StepView::FrameData, StepView::Command(0x26), StepView::FrameData]
        + turn_on_plan(0xF7)
}

/// Full-screen fast refresh of the current RAM plane.
pub open spec fn show_partial_plan() -> Seq<StepView> {
    fast_reset_plan() + seq![
        StepView::Command(0x18),
        StepView::Data(seq![0x80u8]),
        StepView::Command(0x3C),
        StepView::Data(seq![0x80u8]),
        StepView::Command(0x44),
        StepView::Data(seq![0x00u8, 0x00u8, 0x18u8, 0x03u8]),
        StepView::Command(0x45),
        StepView::Data(seq![0xDFu8, 0x01u8, 0x00u8, 0x00u8]),
        StepView::Command(0x4E),
        StepView::Data(seq![0x00u8, 0x00u8]),
        StepView::Command(0x4F),
        StepView::Data(seq![0x00u8, 0x00u8]),
        StepView::Command(0x24),
        StepView::FrameData,
    ] + turn_on_plan(0xFF)
}

/// A 16-bit value as the controller takes it: low byte first.
pub open spec fn le16(value: int) -> Seq<u8> {
    seq![(value % 256) as u8, (value / 256) as u8]
}

/// The parameter bytes that follow the first `command` of a plan at or after
/// position `from`.
pub open spec fn data_after_from(plan: Seq<StepView>, command: u8, from: int) -> Option<Seq<u8>>
    decreases plan.len() - from,
{
    if from < 0 || from + 1 >= plan.len() {
        None
    } else if plan[from] == StepView::Command(command) {
        match plan[from + 1] {
            StepView::Data(data) => Some(data),
            _ => None,
        }
    } else {
        data_after_from(plan, command, from + 1)
    }
}

/// The parameter bytes that follow the first `command` of a plan.
pub open spec fn data_after(plan: Seq<StepView>, command: u8) -> Option<Seq<u8>> {
    data_after_from(plan, command, 0)
}

/// The RAM window that initialization sets up and every partial refresh
/// addresses again: data entry with Y decrementing (`0x11` = `0x01`), so the
/// Y window runs from the bottom row `HEIGHT - 1` down to row 0 in both, the
/// X window starts at column 0, and both put the RAM address counters at the
/// origin before the frame is written.
#[verifier::rlimit(40)]
pub proof fn lemma_partial_refresh_keeps_the_ram_window()
    ensures
        data_after(initialize_plan(), 0x11) == Some(seq![0x01u8]),
        data_after(initialize_plan(), 0x45) == Some(le16(HEIGHT - 1) + le16(0)),
        data_after(show_partial_plan(), 0x45) == data_after(initialize_plan(), 0x45),
        data_after(initialize_plan(), 0x44) == Some(le16(0) + le16(WIDTH - 1)),
        data_after(show_partial_plan(), 0x44) matches Some(x) && x.subrange(0, 2) == le16(0),
        data_after(show_partial_plan(), 0x4E) == Some(le16(0)),
        data_after(show_partial_plan(), 0x4F) == Some(le16(0)),
        data_after(initialize_plan(), 0x4E) == Some(le16(0)),
        data_after(initialize_plan(), 0x4F) == Some(le16(0)),
{
    assert(data_after(initialize_plan(), 0x11) == Some(seq![0x01u8])) by {
        reveal_with_fuel(data_after_from, 32);
    }
    assert(data_after(initialize_plan(), 0x45) == Some(le16(HEIGHT - 1) + le16(0))) by {
        reveal_with_fuel(data_after_from, 32);
    }
    assert(data_after(show_partial_plan(), 0x45) == Some(le16(HEIGHT - 1) + le16(0))) by {
        reveal_with_fuel(data_after_from, 32);
    }
    assert(data_after(initialize_plan(), 0x44) == Some(le16(0) + le16(WIDTH - 1))) by {
        reveal_with_fuel(data_after_from, 32);
    }
    assert(data_after(show_partial_plan(), 0x44) == Some(seq![0x00u8, 0x00u8, 0x18u8, 0x03u8]))
        by {
        reveal_with_fuel(data_after_from, 32);
    }
    assert(seq![0x00u8, 0x00u8, 0x18u8, 0x03u8].subrange(0, 2) =~= le16(0));
    assert(data_after(show_partial_plan(), 0x4E) == Some(le16(0))) by {
        reveal_with_fuel(data_after_from, 32);
    }
    assert(data_after(show_partial_plan(), 0x4F) == Some(le16(0))) by {
        reveal_with_fuel(data_after_from, 32);
    }
    assert(data_after(initialize_plan(), 0x4E) == Some(le16(0))) by {
        reveal_with_fuel(data_after_from, 32);
    }
    assert(data_after(initialize_plan(), 0x4F) == Some(le16(0))) by {
        reveal_with_fuel(data_after_from, 32);
    }
}

/// Deep sleep, release the lines and switch the panel rail off.
pub open spec fn sleep_plan() -> Seq<StepView> {
    seq![
        StepView::Command(0x10),
        StepView::Data(seq![0x01u8]),
        StepView::DelayMs(10),
        StepView::Reset(false),
        StepView::SelectChip,
        StepView::CommandMode,
        StepView::PowerRail(false),
        StepView::DelayMs(10),
    ]
}

fn push_data(steps: &mut Vec<PanelStep>, data: Vec<u8>)
    ensures
        steps_view(final(steps)@) == steps_view(old(steps)@).push(StepView::Data(data@)),
{
    let ghost before = steps@;
    steps.push(PanelStep::Data(data));
    assert(steps_view(steps@) =~= steps_view(before).push(StepView::Data(data@)));
}

fn push_step(steps: &mut Vec<PanelStep>, step: PanelStep)
    ensures
        steps_view(final(steps)@) == steps_view(old(steps)@).push(step@),
{
    let ghost before = steps@;
    steps.push(step);
    assert(steps_view(steps@) =~= steps_view(before).push(step@));
}

fn push_reset(steps: &mut Vec<PanelStep>, settle_ms: u32)
    ensures
        steps_view(final(steps)@) == steps_view(old(steps)@) + seq![
            StepView::Reset(true),
            StepView::DelayMs(settle_ms),
            StepView::Reset(false),
            StepView::DelayMs(2),
            StepView::Reset(true),
            StepView::DelayMs(settle_ms),
        ],
{
    push_step(steps, PanelStep::Reset(true));
    push_step(steps, PanelStep::DelayMs(settle_ms));
    push_step(steps, PanelStep::Reset(false));
    push_step(steps, PanelStep::DelayMs(2));
    push_step(steps, PanelStep::Reset(true));
    push_step(steps, PanelStep::DelayMs(settle_ms));
    assert(steps_view(final(steps)@) =~= steps_view(old(steps)@) + seq![
        StepView::Reset(true),
        StepView::DelayMs(settle_ms),
        StepView::Reset(false),
        StepView::DelayMs(2),
        StepView::Reset(true),
        StepView::DelayMs(settle_ms),
    ]);
}

fn push_turn_on(steps: &mut Vec<PanelStep>, refresh_control: u8)
    ensures
        steps_view(final(steps)@) == steps_view(old(steps)@) + turn_on_plan(refresh_control),
{
    push_step(steps, PanelStep::Command(0x22));
    let data = vec![refresh_control];
    assert(data@ =~= seq![refresh_control]);
    push_data(steps, data);
    push_step(steps, PanelStep::Command(0x20));
    push_step(steps, PanelStep::WaitIdle);
    assert(steps_view(final(steps)@) =~~= steps_view(old(steps)@) + turn_on_plan(refresh_control));
}

/// The panel controller's command protocol. Each operation yields the plan
/// of pin, bus and timing steps that the bus driver carries out in order.
#[derive(Clone, Copy, Debug)]
pub struct Epaper397;

impl Epaper397 {
    /// Construct the driver together with the idle pin levels the bus driver
    /// sets before any other step.
    pub fn new() -> (made: (Epaper397, Vec<PanelStep>))
        ensures
            steps_view(made.1@) == idle_pins_plan(),
    {
        let mut steps: Vec<PanelStep> = Vec::new();
        push_step(&mut steps, PanelStep::CommandMode);
        push_step(&mut steps, PanelStep::Reset(true));
        push_step(&mut steps, PanelStep::SelectChip);
        assert(steps_view(steps@) =~= idle_pins_plan());
        (Epaper397, steps)
    }

    /// Power-up and controller configuration for global refresh.
    #[verifier::rlimit(40)]
    pub fn initialize(&self) -> (steps: Vec<PanelStep>)
        ensures
            steps_view(steps@) == initialize_plan(),
    {
        let mut steps: Vec<PanelStep> = Vec::new();
        push_step(&mut steps, PanelStep::PowerRail(true));
        push_step(&mut steps, PanelStep::DelayMs(10));
        push_reset(&mut steps, 50);
        push_step(&mut steps, PanelStep::WaitIdle);
        push_step(&mut steps, PanelStep::Command(0x12));
        push_step(&mut steps, PanelStep::WaitIdle);
        push_step(&mut steps, PanelStep::Command(0x18));
        let data = vec![0x80];
        assert(data@ =~= seq![0x80]);
        push_data(&mut steps, data);
        push_step(&mut steps, PanelStep::Command(0x0C));
        let data = vec![0xAE, 0xC7, 0xC3, 0xC0, 0x80];
        assert(data@ =~= seq![0xAE, 0xC7, 0xC3, 0xC0, 0x80]);
        push_data(&mut steps, data);
        push_step(&mut steps, PanelStep::Command(0x01));
        let last_row = HEIGHT - 1;
        let data = vec![(last_row % 256) as u8, (last_row / 256) as u8, 0x02];
        assert(data@ =~= seq![(last_row % 256) as u8, (last_row / 256) as u8, 0x02]);
        push_data(&mut steps, data);
        push_step(&mut steps, PanelStep::Command(0x3C));
        let data = vec![0x01];
        assert(data@ =~= seq![0x01]);
        push_data(&mut steps, data);
        push_step(&mut steps, PanelStep::Command(0x11));
        let data = vec![0x01];
        assert(data@ =~= seq![0x01]);
        push_data(&mut steps, data);
        push_step(&mut steps, PanelStep::Command(0x44));
        let last_column = WIDTH - 1;
        let data = vec![0x00, 0x00, (last_column % 256) as u8, (last_column / 256) as u8];
        assert(data@ =~= seq![0x00, 0x00, (last_column % 256) as u8, (last_column / 256) as u8]);
        push_data(&mut steps, data);
        push_step(&mut steps, PanelStep::Command(0x45));
        let data = vec![(last_row % 256) as u8, (last_row / 256) as u8, 0x00, 0x00];
        assert(data@ =~= seq![(last_row % 256) as u8, (last_row / 256) as u8, 0x00, 0x00]);
        push_data(&mut steps, data);
        push_step(&mut steps, PanelStep::Command(0x4E));
        let data = vec![0x00, 0x00];
        assert(data@ =~= seq![0x00, 0x00]);
        push_data(&mut steps, data);
        push_step(&mut steps, PanelStep::Command(0x4F));
        let data = vec![0x00, 0x00];
        assert(data@ =~= seq![0x00, 0x00]);
        push_data(&mut steps, data);
        push_step(&mut steps, PanelStep::WaitIdle);
        assert(steps_view(steps@) =~~= initialize_plan());
        steps
    }

    /// Write a base frame to both controller RAM planes and run a global
    /// refresh; the frame must be a full panel frame.
    pub fn show_base(&self, frame: &[u8]) -> (steps: Result<Vec<PanelStep>, FrameSizeError>)
        ensures
            steps is Ok <==> frame@.len() == FRAMEBUFFER_SIZE,
            steps matches Ok(s) ==> steps_view(s@) == show_base_plan(),
            steps matches Err(error) ==> error.got == frame@.len(),
    {
        validate_frame(frame)?;
        let mut steps: Vec<PanelStep> = Vec::new();
        push_step(&mut steps, PanelStep::Command(0x24));
        push_step(&mut steps, PanelStep::FrameData);
        push_step(&mut steps, PanelStep::Command(0x26));
        push_step(&mut steps, PanelStep::FrameData);
        push_turn_on(&mut steps, 0xF7);
        assert(steps_view(steps@) =~= show_base_plan());
        Ok(steps)
    }

    /// Full-screen fast refresh on the current RAM plane, skipping the long
    /// hardware reset; the frame must be a full panel frame.
    pub fn show_partial_fullscreen(&self, frame: &[u8]) -> (steps: Result<Vec<PanelStep>, FrameSizeError>)
        ensures
            steps is Ok <==> frame@.len() == FRAMEBUFFER_SIZE,
            steps matches Ok(s) ==> steps_view(s@) == show_partial_plan(),
            steps matches Ok(s) ==> data_after(steps_view(s@), 0x45) == data_after(
                initialize_plan(),
                0x45,
            ),
            steps matches Ok(s) ==> data_after(steps_view(s@), 0x45) == Some(
                le16(HEIGHT - 1) + le16(0),
            ),
            steps matches Err(error) ==> error.got == frame@.len(),
    {
        proof {
            lemma_partial_refresh_keeps_the_ram_window();
        }
        validate_frame(frame)?;
        let mut steps: Vec<PanelStep> = Vec::new();
        push_reset(&mut steps, 10);
        push_step(&mut steps, PanelStep::Command(0x18));
        let data = vec![0x80];
        assert(data@ =~= seq![0x80]);
        push_data(&mut steps, data);
        push_step(&mut steps, PanelStep::Command(0x3C));
        let data = vec![0x80];
        assert(data@ =~= seq![0x80]);
        push_data(&mut steps, data);
        push_step(&mut steps, PanelStep::Command(0x44));
        let data = vec![0x00, 0x00, 0x18, 0x03];
        assert(data@ =~= seq![0x00, 0x00, 0x18, 0x03]);
        push_data(&mut steps, data);
        push_step(&mut steps, PanelStep::Command(0x45));
        let data = vec![0xDF, 0x01, 0x00, 0x00];
        assert(data@ =~= seq![0xDF, 0x01, 0x00, 0x00]);
        push_data(&mut steps, data);
        push_step(&mut steps, PanelStep::Command(0x4E));
        let data = vec![0x00, 0x00];
        assert(data@ =~= seq![0x00, 0x00]);
        push_data(&mut steps, data);
        push_step(&mut steps, PanelStep::Command(0x4F));
        let data = vec![0x00, 0x00];
        assert(data@ =~= seq![0x00, 0x00]);
        push_data(&mut steps, data);
        push_step(&mut steps, PanelStep::Command(0x24));
        push_step(&mut steps, PanelStep::FrameData);
        push_turn_on(&mut steps, 0xFF);
        assert(steps_view(steps@) =~~= show_partial_plan());
        Ok(steps)
    }

    /// Deep sleep and rail shutdown.
    pub fn sleep(&self) -> (steps: Vec<PanelStep>)
        ensures
            steps_view(steps@) == sleep_plan(),
    {
        let mut steps: Vec<PanelStep> = Vec::new();
        push_step(&mut steps, PanelStep::Command(0x10));
        let data = vec![0x01];
        assert(data@ =~= seq![0x01]);
        push_data(&mut steps, data);
        push_step(&mut steps, PanelStep::DelayMs(10));
        push_step(&mut steps, PanelStep::Reset(false));
        push_step(&mut steps, PanelStep::SelectChip);
        push_step(&mut steps, PanelStep::CommandMode);
        push_step(&mut steps, PanelStep::PowerRail(false));
        push_step(&mut steps, PanelStep::DelayMs(10));
        assert(steps_view(steps@) =~~= sleep_plan());
        steps
    }
}

/// What to do after sampling the busy line.
#[derive(Clone, Copy, Debug, PartialEq, Eq, Structural)]
pub enum BusyAction {
    /// The controller is idle; the operation may continue.
    Released { elapsed_ms: u32 },
    /// Wait this long and sample again.
    Poll(u32),
    /// The busy line stayed high for the whole timeout.
    TimedOut,
}

/// Time spent waiting for the busy line, starting after the settle delay.
#[derive(Clone, Copy, Debug, PartialEq, Eq, Structural)]
pub struct BusyWait {
    elapsed_ms: u32,
}

impl View for BusyWait {
    type V = u32;

    closed spec fn view(&self) -> u32 {
        self.elapsed_ms
    }
}

/// Next action and elapsed time after one busy-line sample.
pub open spec fn busy_step(elapsed_ms: u32, busy: bool) -> (BusyAction, u32) {
    if !busy {
        (BusyAction::Released { elapsed_ms }, elapsed_ms)
    } else if elapsed_ms >= BUSY_TIMEOUT_MS {
        (BusyAction::TimedOut, elapsed_ms)
    } else {
        (BusyAction::Poll(BUSY_POLL_MS), (elapsed_ms + BUSY_POLL_MS) as u32)
    }
}

impl BusyWait {
    /// A wait that starts after the initial settle delay.
    pub fn after_settle() -> (wait: BusyWait)
        ensures
            wait@ == BUSY_SETTLE_MS,
    {
        BusyWait { elapsed_ms: BUSY_SETTLE_MS }
    }

    pub fn elapsed_ms(&self) -> (elapsed: u32)
        ensures
            elapsed == self@,
    {
        self.elapsed_ms
    }

    /// Decide what follows a busy-line sample.
    pub fn on_sample(&mut self, busy: bool) -> (action: BusyAction)
        ensures
            (action, final(self)@) == busy_step(old(self)@, busy),
    {
        if !busy {
            return BusyAction::Released { elapsed_ms: self.elapsed_ms };
        }
        if self.elapsed_ms >= BUSY_TIMEOUT_MS {
            return BusyAction::TimedOut;
        }
        self.elapsed_ms = self.elapsed_ms + BUSY_POLL_MS;
        BusyAction::Poll(BUSY_POLL_MS)
    }
}

/// Elapsed time after `n` busy samples from `start`, stopping at the timeout.
pub open spec fn elapsed_after_busy(start: u32, n: nat) -> u32
    decreases n,
{
    if n == 0 {
        start
    } else {
        busy_step(elapsed_after_busy(start, (n - 1) as nat), true).1
    }
}

/// A busy line that never releases is reported as timed out at the sample
/// after 745 polls from the settle delay, so waiting always ends.
pub proof fn lemma_busy_wait_times_out()
    ensures
        busy_step(elapsed_after_busy(BUSY_SETTLE_MS, 745), true).0 == BusyAction::TimedOut,
{
    lemma_busy_elapsed(745);
}

proof fn lemma_busy_elapsed(n: nat)
    requires
        n <= 745,
    ensures
        elapsed_after_busy(BUSY_SETTLE_MS, n) == BUSY_SETTLE_MS + BUSY_POLL_MS * n,
    decreases n,
{
    if n > 0 {
        lemma_busy_elapsed((n - 1) as nat);
    }
}

} // verus!
