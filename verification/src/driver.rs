//! The panel controller driver: the initialization state machine and the
//! draw operations, on top of the bus transport.
//!
//! The driver performs no I/O. Initialization is a dialogue: the driver says
//! what must happen next on the lines, the caller does it and reports how it
//! went. Draw operations queue bus cycles on the transport; the caller takes
//! them from there and shifts them out.

use vstd::prelude::*;
use crate::bus::{BusEvent, BusState, BusWidth, ParallelBus, SelectPhase};
use crate::color::{Color, PixelFormat, PixelSample};
use crate::config::{
    script_view, InitCommand, PanelConfig, MEMORY_WRITE, RESET_HOLD_US, RESET_SETTLE_US,
};
use crate::error::DisplayError;
use crate::geometry::{AddressWindow, PanelGeometry, Point};
use crate::protocol::{
    command_events, fill_events, lemma_stream_words_len, lemma_window_events_shape, send_command,
    send_fill, send_stream, send_window, stream_events, window_events, words_per_sample,
};

verus! {

/// Where the controller stands. Only `Ready` accepts draw operations;
/// `Faulted` is never left.
#[derive(Clone, Copy, Debug, PartialEq, Eq, Structural)]
pub enum ControllerState {
    Uninitialized,
    Resetting,
    Configuring,
    Ready,
    Faulted,
}

/// What the caller must do next for initialization to go on.
#[derive(Clone, Copy, Debug, PartialEq, Eq, Structural)]
pub enum InitStep {
    /// Hold the reset line asserted for `hold_us` microseconds, release it,
    /// then wait `settle_us` microseconds.
    PulseReset { hold_us: u32, settle_us: u32 },
    /// There is no reset line: wait `settle_us` microseconds.
    Wait { settle_us: u32 },
    /// Shift out what the transport has queued, then wait `settle_us`
    /// microseconds.
    Transmit { settle_us: u32 },
    /// Nothing is left to do. `backlight` says whether there is a backlight
    /// line to switch on.
    Finished { backlight: bool },
}

/// How the step that the driver last asked for went.
#[derive(Clone, Copy, Debug, PartialEq, Eq, Structural)]
pub enum StepOutcome {
    Done,
    /// A bus or pin primitive reported a failure.
    Fault,
}

/// A pixel to draw: where, and in which color.
#[derive(Clone, Copy, Debug, PartialEq, Eq, Structural)]
pub struct Pixel {
    pub at: Point,
    pub color: Color,
}

/// What the driver is, to a caller.
pub struct DriverState {
    pub state: ControllerState,
    pub geometry: PanelGeometry,
    pub config: PanelConfig,
    pub reset_line: bool,
    pub backlight_line: bool,
    /// Number of script commands queued so far in this initialization.
    pub cursor: nat,
    pub bus: BusState,
}

/// The window of the single pixel at `p`, a point of the panel.
pub open spec fn pixel_window(p: Point) -> AddressWindow {
    AddressWindow::pixel(p.x as u16, p.y as u16)
}

/// Number of pixels at the front of `pixels` that lie on the panel, up to
/// the first that does not.
pub open spec fn drawable_prefix(geometry: PanelGeometry, pixels: Seq<Pixel>) -> nat
    decreases pixels.len(),
{
    if pixels.len() == 0 || !geometry.contains(pixels[0].at) {
        0
    } else {
        1 + drawable_prefix(geometry, pixels.skip(1))
    }
}

/// Drawing pixels one by one: for each, its 1×1 window is programmed and its
/// converted sample is streamed.
pub open spec fn pixels_events(
    format: PixelFormat,
    width: BusWidth,
    pixels: Seq<Pixel>,
) -> Seq<BusEvent>
    decreases pixels.len(),
{
    if pixels.len() == 0 {
        seq![]
    } else {
        pixels_events(format, width, pixels.drop_last()) + fill_events(
            format,
            width,
            pixel_window(pixels.last().at),
            format.sample_of(pixels.last().color),
        )
    }
}

impl DriverState {
    /// The pixel format the panel is configured for.
    pub open spec fn format(self) -> PixelFormat {
        self.config.pixel_format
    }

    /// The driver with `events` queued behind what the transport holds, and
    /// the select line at `phase`.
    pub open spec fn queued(self, events: Seq<BusEvent>, phase: SelectPhase) -> DriverState {
        DriverState {
            bus: BusState { phase, pending: self.bus.pending + events, ..self.bus },
            ..self
        }
    }

    /// The first step of an initialization.
    pub open spec fn reset_step(self) -> InitStep {
        if self.reset_line {
            InitStep::PulseReset { hold_us: RESET_HOLD_US, settle_us: RESET_SETTLE_US }
        } else {
            InitStep::Wait { settle_us: RESET_SETTLE_US }
        }
    }

    /// What `init` answers.
    pub open spec fn init_reply(self) -> Result<InitStep, DisplayError> {
        match self.state {
            ControllerState::Uninitialized | ControllerState::Ready => Ok(self.reset_step()),
            ControllerState::Resetting | ControllerState::Configuring => Err(
                DisplayError::NotInitialized,
            ),
            ControllerState::Faulted => Err(DisplayError::BusFault),
        }
    }

    /// The driver after `init`.
    pub open spec fn after_init(self) -> DriverState {
        if self.init_reply() is Ok {
            DriverState { state: ControllerState::Resetting, cursor: 0, ..self }
        } else {
            self
        }
    }

    /// What a configuring driver does when the last step went well: the next
    /// command of the script is queued, or, when none is left, the driver is
    /// ready.
    pub open spec fn configure(self) -> (DriverState, InitStep) {
        let script = self.config.script();
        if self.cursor < script.len() {
            let step = script[self.cursor as int];
            (
                DriverState {
                    state: ControllerState::Configuring,
                    cursor: self.cursor + 1,
                    ..self.queued(
                        command_events(step.opcode, step.params),
                        if step.params.len() == 0 {
                            SelectPhase::Command
                        } else {
                            SelectPhase::Data
                        },
                    )
                },
                InitStep::Transmit { settle_us: step.settle_us },
            )
        } else {
            (
                DriverState { state: ControllerState::Ready, ..self },
                InitStep::Finished { backlight: self.backlight_line },
            )
        }
    }

    /// What `advance` answers.
    pub open spec fn advance_reply(self, outcome: StepOutcome) -> Result<InitStep, DisplayError> {
        match (outcome, self.state) {
            (StepOutcome::Fault, _) => Err(DisplayError::BusFault),
            (StepOutcome::Done, ControllerState::Faulted) => Err(DisplayError::BusFault),
            (StepOutcome::Done, ControllerState::Uninitialized) => Err(
                DisplayError::NotInitialized,
            ),
            (StepOutcome::Done, ControllerState::Ready) => Ok(
                InitStep::Finished { backlight: self.backlight_line },
            ),
            (StepOutcome::Done, ControllerState::Resetting) => Ok(
                (DriverState { cursor: 0, ..self }).configure().1,
            ),
            (StepOutcome::Done, ControllerState::Configuring) => Ok(self.configure().1),
        }
    }

    /// The driver after `advance`.
    pub open spec fn after_advance(self, outcome: StepOutcome) -> DriverState {
        match (outcome, self.state) {
            (StepOutcome::Fault, _) => DriverState { state: ControllerState::Faulted, ..self },
            (StepOutcome::Done, ControllerState::Resetting) => (DriverState {
                cursor: 0,
                ..self
            }).configure().0,
            (StepOutcome::Done, ControllerState::Configuring) => self.configure().0,
            (StepOutcome::Done, _) => self,
        }
    }

    /// What a draw operation that needs nothing but a ready controller
    /// answers.
    pub open spec fn draw_reply(self) -> Result<(), DisplayError> {
        if self.state == ControllerState::Ready {
            Ok(())
        } else {
            Err(DisplayError::NotInitialized)
        }
    }

    /// What `set_window`, `fill` and `fill_sample` answer.
    pub open spec fn window_reply(self, rect: AddressWindow) -> Result<(), DisplayError> {
        if self.state != ControllerState::Ready {
            Err(DisplayError::NotInitialized)
        } else if !rect.within(self.geometry) {
            Err(DisplayError::OutOfBounds)
        } else {
            Ok(())
        }
    }

    /// The driver after `set_window`.
    pub open spec fn after_window(self, rect: AddressWindow) -> DriverState {
        if self.window_reply(rect) is Ok {
            self.queued(window_events(rect), SelectPhase::Command)
        } else {
            self
        }
    }

    /// The driver after `stream_pixels`.
    pub open spec fn after_stream(self, samples: Seq<PixelSample>) -> DriverState {
        if self.draw_reply() is Ok {
            self.queued(
                stream_events(self.format(), self.bus.width, samples),
                SelectPhase::Data,
            )
        } else {
            self
        }
    }

    /// The driver after `fill_sample`.
    pub open spec fn after_fill(self, rect: AddressWindow, sample: PixelSample) -> DriverState {
        if self.window_reply(rect) is Ok {
            self.queued(
                fill_events(self.format(), self.bus.width, rect, sample),
                SelectPhase::Data,
            )
        } else {
            self
        }
    }

    /// What `draw_iter` answers.
    pub open spec fn pixels_reply(self, pixels: Seq<Pixel>) -> Result<(), DisplayError> {
        if self.state != ControllerState::Ready {
            Err(DisplayError::NotInitialized)
        } else if drawable_prefix(self.geometry, pixels) < pixels.len() {
            Err(DisplayError::OutOfBounds)
        } else {
            Ok(())
        }
    }

    /// The driver after `draw_iter`: the pixels before the first that lies
    /// off the panel are drawn, in order.
    pub open spec fn after_pixels(self, pixels: Seq<Pixel>) -> DriverState {
        let n = drawable_prefix(self.geometry, pixels);
        if self.state != ControllerState::Ready || n == 0 {
            self
        } else {
            self.queued(
                pixels_events(self.format(), self.bus.width, pixels.take(n as int)),
                SelectPhase::Data,
            )
        }
    }
}

/// What is fixed when the driver is made, and how far the initialization
/// script has been played.
struct Plan {
    geometry: PanelGeometry,
    config: PanelConfig,
    script: Vec<InitCommand>,
    cursor: usize,
}

impl Plan {
    #[verifier::type_invariant]
    spec fn inv(self) -> bool {
        &&& self.geometry.valid()
        &&& self.geometry.rotation == self.config.rotation
        &&& script_view(self.script@) == self.config.script()
        &&& self.cursor <= self.script@.len()
    }
}

/// The driver. It is made once around its transport and is never copied.
pub struct ILI9488 {
    bus: ParallelBus,
    plan: Plan,
    reset_line: bool,
    backlight_line: bool,
    state: ControllerState,
}

impl View for ILI9488 {
    type V = DriverState;

    closed spec fn view(&self) -> DriverState {
        DriverState {
            state: self.state,
            geometry: self.plan.geometry,
            config: self.plan.config,
            reset_line: self.reset_line,
            backlight_line: self.backlight_line,
            cursor: self.plan.cursor as nat,
            bus: self.bus@,
        }
    }
}

impl ILI9488 {
    /// Makes the driver around its transport, for a panel of `width` columns
    /// and `height` rows after rotation. `reset_line` and `backlight_line`
    /// say whether those lines are wired.
    ///
    /// Fails with `ConfigurationError` exactly when the panel has no pixel.
    pub fn new(
        bus: ParallelBus,
        reset_line: bool,
        backlight_line: bool,
        width: u16,
        height: u16,
        config: PanelConfig,
    ) -> (made: Result<ILI9488, DisplayError>)
        ensures
            width > 0 && height > 0 ==> made is Ok && made->Ok_0@ == (DriverState {
                state: ControllerState::Uninitialized,
                geometry: PanelGeometry { width, height, rotation: config.rotation },
                config,
                reset_line,
                backlight_line,
                cursor: 0,
                bus: bus@,
            }),
            width == 0 || height == 0 ==> made == Err::<ILI9488, DisplayError>(
                DisplayError::ConfigurationError,
            ),
    {
        if width == 0 || height == 0 {
            return Err(DisplayError::ConfigurationError);
        }
        let script = config.build_script();
        let plan = Plan {
            geometry: PanelGeometry { width, height, rotation: config.rotation },
            config,
            script,
            cursor: 0,
        };
        Ok(ILI9488 { bus, plan, reset_line, backlight_line, state: ControllerState::Uninitialized })
    }

    pub fn state(&self) -> (state: ControllerState)
        ensures
            state == self@.state,
    {
        self.state
    }

    pub fn geometry(&self) -> (geometry: PanelGeometry)
        ensures
            geometry == self@.geometry,
            geometry.valid(),
            geometry.rotation == self@.config.rotation,
    {
        proof {
            use_type_invariant(&self.plan);
        }
        self.plan.geometry
    }

    pub fn config(&self) -> (config: PanelConfig)
        ensures
            config == self@.config,
    {
        self.plan.config
    }

    /// The pixel format that the driver converts colors to.
    pub fn pixel_format(&self) -> (format: PixelFormat)
        ensures
            format == self@.format(),
    {
        self.plan.config.pixel_format
    }

    /// The transport, to look at what it has queued.
    pub fn bus(&self) -> (bus: &ParallelBus)
        ensures
            bus@ == self@.bus,
    {
        &self.bus
    }

    /// The window that covers the whole panel.
    pub fn bounding_box(&self) -> (window: AddressWindow)
        ensures
            window == self@.geometry.full(),
            window.within(self@.geometry),
    {
        proof {
            use_type_invariant(&self.plan);
        }
        self.plan.geometry.full_window()
    }

    /// Hands the queued bus cycles to the caller, oldest first, and leaves
    /// the queue empty.
    pub fn take_pending(&mut self) -> (cycles: Vec<BusEvent>)
        ensures
            cycles@ == old(self)@.bus.pending,
            final(self)@ == (DriverState {
                bus: BusState { pending: Seq::empty(), ..old(self)@.bus },
                ..old(self)@
            }),
    {
        self.bus.drain()
    }

    /// Hands the oldest queued bus cycle to the caller, if there is one, and
    /// takes it off the queue.
    pub fn next_cycle(&mut self) -> (cycle: Option<BusEvent>)
        ensures
            match cycle {
                Some(event) => old(self)@.bus.pending.len() > 0 && event == old(
                    self,
                )@.bus.pending[0] && final(self)@ == (DriverState {
                    bus: BusState { pending: old(self)@.bus.pending.skip(1), ..old(self)@.bus },
                    ..old(self)@
                }),
                None => old(self)@.bus.pending.len() == 0 && final(self)@ == old(self)@,
            },
    {
        self.bus.next_cycle()
    }

    /// Begins initialization and says what must happen first. It is accepted
    /// from `Uninitialized` and from `Ready`; while an initialization is under
    /// way it is refused with `NotInitialized`, and after a fault with
    /// `BusFault`.
    pub fn init(&mut self) -> (reply: Result<InitStep, DisplayError>)
        ensures
            reply == old(self)@.init_reply(),
            final(self)@ == old(self)@.after_init(),
    {
        match self.state {
            ControllerState::Uninitialized | ControllerState::Ready => {
                proof {
                    use_type_invariant(&self.plan);
                }
                self.state = ControllerState::Resetting;
                self.plan.cursor = 0;
                if self.reset_line {
                    Ok(InitStep::PulseReset { hold_us: RESET_HOLD_US, settle_us: RESET_SETTLE_US })
                } else {
                    Ok(InitStep::Wait { settle_us: RESET_SETTLE_US })
                }
            },
            ControllerState::Resetting | ControllerState::Configuring => Err(
                DisplayError::NotInitialized,
            ),
            ControllerState::Faulted => Err(DisplayError::BusFault),
        }
    }

    /// Takes the report on the step last asked for and says what must happen
    /// next.
    ///
    /// A fault moves the driver to `Faulted`, whatever its state, and is
    /// answered with `BusFault`. Otherwise a resetting driver starts to
    /// configure, and a configuring driver queues the next command of its
    /// script or, when the script is through, becomes `Ready`.
    pub fn advance(&mut self, outcome: StepOutcome) -> (reply: Result<InitStep, DisplayError>)
        ensures
            reply == old(self)@.advance_reply(outcome),
            final(self)@ == old(self)@.after_advance(outcome),
    {
        proof {
            use_type_invariant(&self.plan);
        }
        if outcome == StepOutcome::Fault {
            self.state = ControllerState::Faulted;
            return Err(DisplayError::BusFault);
        }
        match self.state {
            ControllerState::Faulted => Err(DisplayError::BusFault),
            ControllerState::Uninitialized => Err(DisplayError::NotInitialized),
            ControllerState::Ready => Ok(InitStep::Finished { backlight: self.backlight_line }),
            ControllerState::Resetting => {
                self.plan.cursor = 0;
                Ok(self.configure())
            },
            ControllerState::Configuring => Ok(self.configure()),
        }
    }

    fn configure(&mut self) -> (step: InitStep)
        ensures
            step == old(self)@.configure().1,
            final(self)@ == old(self)@.configure().0,
    {
        proof {
            use_type_invariant(&self.plan);
        }
        if self.plan.cursor < self.plan.script.len() {
            let ghost step = self.plan.config.script()[self.plan.cursor as int];
            assert(step == script_view(self.plan.script@)[self.plan.cursor as int]);
            let command = &self.plan.script[self.plan.cursor];
            send_command(&mut self.bus, command.opcode, &command.params);
            let settle_us: u32 = command.settle_us;
            self.plan.cursor = self.plan.cursor + 1;
            self.state = ControllerState::Configuring;
            InitStep::Transmit { settle_us }
        } else {
            self.state = ControllerState::Ready;
            InitStep::Finished { backlight: self.backlight_line }
        }
    }

    /// Programs the window that the next pixel data populates, in raster
    /// order, and arms the panel for it.
    ///
    /// Refused with `NotInitialized` unless the controller is `Ready`, and
    /// with `OutOfBounds` when the window is out of order or leaves the panel.
    /// A refused call queues nothing.
    pub fn set_window(&mut self, rect: AddressWindow) -> (reply: Result<(), DisplayError>)
        ensures
            reply == old(self)@.window_reply(rect),
            final(self)@ == old(self)@.after_window(rect),
            reply is Err ==> final(self)@ == old(self)@,
            reply == Err::<(), DisplayError>(DisplayError::OutOfBounds) <==> old(self)@.state
                == ControllerState::Ready && (rect.x1 >= old(self)@.geometry.width || rect.y1
                >= old(self)@.geometry.height || rect.x0 > rect.x1 || rect.y0 > rect.y1),
    {
        if self.state != ControllerState::Ready {
            return Err(DisplayError::NotInitialized);
        }
        if !rect.fits(&self.plan.geometry) {
            return Err(DisplayError::OutOfBounds);
        }
        send_window(&mut self.bus, rect);
        Ok(())
    }

    /// Streams samples into the window that was programmed last: the data
    /// phase is selected once, then the words of every sample follow in
    /// order.
    ///
    /// Refused with `NotInitialized` unless the controller is `Ready`. That
    /// the call follows `set_window` directly, and that there are no more
    /// samples than the window has pixels, is for the caller to see to: the
    /// driver checks neither.
    pub fn stream_pixels(&mut self, samples: &Vec<PixelSample>) -> (reply: Result<
        (),
        DisplayError,
    >)
        ensures
            reply == old(self)@.draw_reply(),
            final(self)@ == old(self)@.after_stream(samples@),
    {
        if self.state != ControllerState::Ready {
            return Err(DisplayError::NotInitialized);
        }
        send_stream(&mut self.bus, self.plan.config.pixel_format, samples);
        Ok(())
    }

    /// Fills a window with one native sample: the window is programmed, then
    /// exactly one sample for each of its pixels is streamed.
    ///
    /// Refused like `set_window`; a refused call queues nothing.
    pub fn fill_sample(&mut self, rect: AddressWindow, sample: PixelSample) -> (reply: Result<
        (),
        DisplayError,
    >)
        ensures
            reply == old(self)@.window_reply(rect),
            final(self)@ == old(self)@.after_fill(rect, sample),
    {
        if self.state != ControllerState::Ready {
            return Err(DisplayError::NotInitialized);
        }
        if !rect.fits(&self.plan.geometry) {
            return Err(DisplayError::OutOfBounds);
        }
        send_fill(&mut self.bus, self.plan.config.pixel_format, rect, sample);
        Ok(())
    }

    /// Fills a window with a color, converted to the panel's format.
    pub fn fill(&mut self, rect: AddressWindow, color: Color) -> (reply: Result<(), DisplayError>)
        ensures
            reply == old(self)@.window_reply(rect),
            final(self)@ == old(self)@.after_fill(rect, old(self)@.format().sample_of(color)),
    {
        let sample = self.plan.config.pixel_format.convert(color);
        self.fill_sample(rect, sample)
    }

    /// Fills the whole panel with a color.
    pub fn clear(&mut self, color: Color) -> (reply: Result<(), DisplayError>)
        ensures
            reply == old(self)@.draw_reply(),
            final(self)@ == old(self)@.after_fill(
                old(self)@.geometry.full(),
                old(self)@.format().sample_of(color),
            ),
    {
        let full = self.bounding_box();
        self.fill(full, color)
    }

    /// Draws pixels one by one, in the order given: for each, its 1×1 window
    /// is programmed and its converted sample is streamed.
    ///
    /// Refused with `NotInitialized` unless the controller is `Ready`. At the
    /// first pixel that lies off the panel the call stops with `OutOfBounds`;
    /// the pixels before it are drawn.
    pub fn draw_iter(&mut self, pixels: &Vec<Pixel>) -> (reply: Result<(), DisplayError>)
        ensures
            reply == old(self)@.pixels_reply(pixels@),
            final(self)@ == old(self)@.after_pixels(pixels@),
    {
        if self.state != ControllerState::Ready {
            return Err(DisplayError::NotInitialized);
        }
        let drawn = send_pixels(
            &mut self.bus,
            self.plan.config.pixel_format,
            self.plan.geometry,
            pixels,
        );
        if drawn < pixels.len() {
            Err(DisplayError::OutOfBounds)
        } else {
            Ok(())
        }
    }
}

/// Puts one pixel on the bus: its 1×1 window, then its converted sample.
fn send_pixel(bus: &mut ParallelBus, format: PixelFormat, pixel: Pixel)
    requires
        0 <= pixel.at.x <= u16::MAX,
        0 <= pixel.at.y <= u16::MAX,
    ensures
        final(bus)@ == (BusState {
            phase: SelectPhase::Data,
            pending: old(bus)@.pending + fill_events(
                format,
                old(bus)@.width,
                pixel_window(pixel.at),
                format.sample_of(pixel.color),
            ),
            ..old(bus)@
        }),
{
    let x: u16 = pixel.at.x as u16;
    let y: u16 = pixel.at.y as u16;
    send_fill(bus, format, AddressWindow::new(x, y, x, y), format.convert(pixel.color));
}

/// Puts pixels on the bus one by one, up to the first that lies off the
/// panel, and says how many went.
fn send_pixels(
    bus: &mut ParallelBus,
    format: PixelFormat,
    geometry: PanelGeometry,
    pixels: &Vec<Pixel>,
) -> (drawn: usize)
    ensures
        drawn == drawable_prefix(geometry, pixels@),
        final(bus)@ == (BusState {
            phase: if drawn == 0 {
                old(bus)@.phase
            } else {
                SelectPhase::Data
            },
            pending: old(bus)@.pending + pixels_events(
                format,
                old(bus)@.width,
                pixels@.take(drawn as int),
            ),
            ..old(bus)@
        }),
{
    let ghost width = bus@.width;
    let ghost before = bus@.pending;
    let mut i: usize = 0;
    proof {
        assert(pixels_events(format, width, pixels@.take(0)) =~= seq![]);
        assert(before + pixels_events(format, width, pixels@.take(0)) =~= before);
    }
    while i < pixels.len()
        invariant
            i <= pixels.len(),
            forall|j: int| 0 <= j < i ==> geometry.contains(#[trigger] pixels@[j].at),
            bus@.width == width,
            bus@.phase == if i == 0 {
                old(bus)@.phase
            } else {
                SelectPhase::Data
            },
            bus@.pending == before + pixels_events(format, width, pixels@.take(i as int)),
        ensures
            i == pixels.len() || !geometry.contains(pixels@[i as int].at),
        decreases pixels.len() - i,
    {
        let pixel = pixels[i];
        if !geometry.has_point(pixel.at) {
            break ;
        }
        send_pixel(bus, format, pixel);
        proof {
            lemma_pixels_events_next(format, width, pixels@, i as int);
            let done = pixels_events(format, width, pixels@.take(i as int));
            let step = fill_events(
                format,
                width,
                pixel_window(pixel.at),
                format.sample_of(pixel.color),
            );
            assert(bus@.pending == (before + done) + step);
            assert((before + done) + step =~= before + (done + step));
        }
        i += 1;
    }
    proof {
        lemma_drawable_prefix(geometry, pixels@, i as int);
    }
    i
}

/// Drawing one pixel more puts its fill behind the others.
pub proof fn lemma_pixels_events_next(
    format: PixelFormat,
    width: BusWidth,
    pixels: Seq<Pixel>,
    i: int,
)
    requires
        0 <= i < pixels.len(),
    ensures
        pixels_events(format, width, pixels.take(i + 1)) == pixels_events(
            format,
            width,
            pixels.take(i),
        ) + fill_events(
            format,
            width,
            pixel_window(pixels[i].at),
            format.sample_of(pixels[i].color),
        ),
{
    assert(pixels.take(i + 1).drop_last() =~= pixels.take(i));
    assert(pixels.take(i + 1).last() == pixels[i]);
}

/// The drawable prefix ends at the first pixel off the panel, or at the end.
pub proof fn lemma_drawable_prefix(geometry: PanelGeometry, pixels: Seq<Pixel>, n: int)
    requires
        0 <= n <= pixels.len(),
        forall|j: int| 0 <= j < n ==> geometry.contains(#[trigger] pixels[j].at),
        n == pixels.len() || !geometry.contains(pixels[n].at),
    ensures
        drawable_prefix(geometry, pixels) == n,
    decreases pixels.len(),
{
    if n > 0 {
        let rest = pixels.skip(1);
        assert forall|j: int| 0 <= j < n - 1 implies geometry.contains(#[trigger] rest[j].at) by {
            assert(rest[j] == pixels[j + 1]);
        }
        lemma_drawable_prefix(geometry, rest, n - 1);
    }
}

/// A window followed by a stream of exactly as many samples as the window
/// has pixels: both calls are accepted by a ready driver, and what they put
/// on the bus is the window, whose last cycles are memory write in the
/// command phase, then one selection of the data phase, then nothing but the
/// words of the samples.
pub proof fn lemma_window_then_stream_cycles(
    d: DriverState,
    rect: AddressWindow,
    samples: Seq<PixelSample>,
)
    requires
        d.state == ControllerState::Ready,
        rect.within(d.geometry),
        samples.len() == rect.area(),
    ensures
        d.window_reply(rect) == Ok::<(), DisplayError>(()),
        d.after_window(rect).draw_reply() == Ok::<(), DisplayError>(()),
        ({
            let window = window_events(rect);
            let stream = stream_events(d.format(), d.bus.width, samples);
            let per_sample = words_per_sample(d.format(), d.bus.width);
            &&& d.after_window(rect).after_stream(samples).bus.pending == d.bus.pending + window
                + stream
            &&& window.len() == 16
            &&& window[14] == BusEvent::Select(SelectPhase::Command)
            &&& window[15] == BusEvent::Word(MEMORY_WRITE as u16)
            &&& stream.len() == 1 + rect.area() * per_sample
            &&& stream[0] == BusEvent::Select(SelectPhase::Data)
            &&& forall|i: int| 1 <= i < stream.len() ==> #[trigger] stream[i] is Word
        }),
{
    let window = window_events(rect);
    let stream = stream_events(d.format(), d.bus.width, samples);
    lemma_stream_words_len(d.format(), d.bus.width, samples);
    lemma_window_events_shape(rect);
    assert(d.after_window(rect).after_stream(samples).bus.pending =~= d.bus.pending + window
        + stream);
}

/// A fault is final: a fault reported at any time leaves the driver faulted,
/// and a faulted driver stays faulted, refuses every draw operation and
/// queues nothing.
pub proof fn lemma_fault_is_final(
    d: DriverState,
    outcome: StepOutcome,
    rect: AddressWindow,
    sample: PixelSample,
    samples: Seq<PixelSample>,
    pixels: Seq<Pixel>,
)
    ensures
        d.advance_reply(StepOutcome::Fault) == Err::<InitStep, DisplayError>(
            DisplayError::BusFault,
        ),
        d.after_advance(StepOutcome::Fault) == (DriverState {
            state: ControllerState::Faulted,
            ..d
        }),
        ({
            let f = d.after_advance(StepOutcome::Fault);
            &&& f.init_reply() is Err && f.after_init() == f
            &&& f.advance_reply(outcome) is Err && f.after_advance(outcome) == f
            &&& f.window_reply(rect) == Err::<(), DisplayError>(DisplayError::NotInitialized)
            &&& f.after_window(rect) == f
            &&& f.draw_reply() == Err::<(), DisplayError>(DisplayError::NotInitialized)
            &&& f.after_stream(samples) == f
            &&& f.after_fill(rect, sample) == f
            &&& f.pixels_reply(pixels) == Err::<(), DisplayError>(DisplayError::NotInitialized)
            &&& f.after_pixels(pixels) == f
        }),
{
}

/// Draw operations leave the controller state alone, accepted or not.
pub proof fn lemma_draw_keeps_state(
    d: DriverState,
    rect: AddressWindow,
    sample: PixelSample,
    samples: Seq<PixelSample>,
    pixels: Seq<Pixel>,
)
    ensures
        d.after_window(rect).state == d.state,
        d.after_stream(samples).state == d.state,
        d.after_fill(rect, sample).state == d.state,
        d.after_pixels(pixels).state == d.state,
{
}

} // verus!
