//! Panel configuration and the initialization script built from it.

use vstd::prelude::*;
use crate::color::PixelFormat;
use crate::geometry::Rotation;

verus! {

/// Sleep out.
pub const SLEEP_OUT: u8 = 0x11;

/// Display on.
pub const DISPLAY_ON: u8 = 0x29;

/// Column address set.
pub const COLUMN_ADDRESS_SET: u8 = 0x2A;

/// Row address set.
pub const ROW_ADDRESS_SET: u8 = 0x2B;

/// Memory write.
pub const MEMORY_WRITE: u8 = 0x2C;

/// Memory access control.
pub const MEMORY_ACCESS_CONTROL: u8 = 0x36;

/// Pixel format set.
pub const PIXEL_FORMAT_SET: u8 = 0x3A;

/// Microseconds the reset line is held asserted.
pub const RESET_HOLD_US: u32 = 10_000;

/// Microseconds the panel is given after the reset line is released.
pub const RESET_SETTLE_US: u32 = 120_000;

/// Microseconds the panel is given after sleep out.
pub const SLEEP_OUT_SETTLE_US: u32 = 120_000;

/// Microseconds the panel is given after display on.
pub const DISPLAY_ON_SETTLE_US: u32 = 20_000;

/// The order in which the panel's subpixels are wired.
#[derive(Clone, Copy, Debug, PartialEq, Eq, Structural)]
pub enum ColorOrder {
    Rgb,
    Bgr,
}

/// What distinguishes one panel variant from another.
#[derive(Clone, Copy, Debug, PartialEq, Eq, Structural)]
pub struct PanelConfig {
    pub rotation: Rotation,
    pub mirror: bool,
    pub color_order: ColorOrder,
    pub pixel_format: PixelFormat,
}

/// One command of the initialization script, as contracts speak of it.
pub struct ScriptStep {
    pub opcode: u8,
    pub params: Seq<u8>,
    /// Microseconds the panel is given once the command is on the bus.
    pub settle_us: u32,
}

/// One command of the initialization script.
#[derive(Debug, PartialEq, Eq)]
pub struct InitCommand {
    pub opcode: u8,
    pub params: Vec<u8>,
    pub settle_us: u32,
}

impl View for InitCommand {
    type V = ScriptStep;

    open spec fn view(&self) -> ScriptStep {
        ScriptStep { opcode: self.opcode, params: self.params@, settle_us: self.settle_us }
    }
}

/// The steps that the commands of `script` stand for.
pub open spec fn script_view(script: Seq<InitCommand>) -> Seq<ScriptStep> {
    Seq::new(script.len(), |i: int| script[i]@)
}

impl PanelConfig {
    /// The parameter of memory access control: row/column exchange and the
    /// two address orders by rotation, the column order flipped by `mirror`,
    /// and the subpixel order.
    pub open spec fn access_control(self) -> u8 {
        let scan: int = match (self.rotation, self.mirror) {
            (Rotation::Deg0, false) => 0x00,
            (Rotation::Deg0, true) => 0x40,
            (Rotation::Deg90, false) => 0x60,
            (Rotation::Deg90, true) => 0x20,
            (Rotation::Deg180, false) => 0xC0,
            (Rotation::Deg180, true) => 0x80,
            (Rotation::Deg270, false) => 0xA0,
            (Rotation::Deg270, true) => 0xE0,
        };
        let order: int = match self.color_order {
            ColorOrder::Rgb => 0x00,
            ColorOrder::Bgr => 0x08,
        };
        (scan + order) as u8
    }

    /// The initialization script: sleep out, pixel format, memory access
    /// control, display on.
    pub open spec fn script(self) -> Seq<ScriptStep> {
        seq![
            ScriptStep { opcode: SLEEP_OUT, params: seq![], settle_us: SLEEP_OUT_SETTLE_US },
            ScriptStep {
                opcode: PIXEL_FORMAT_SET,
                params: seq![self.pixel_format.selector()],
                settle_us: 0,
            },
            ScriptStep {
                opcode: MEMORY_ACCESS_CONTROL,
                params: seq![self.access_control()],
                settle_us: 0,
            },
            ScriptStep { opcode: DISPLAY_ON, params: seq![], settle_us: DISPLAY_ON_SETTLE_US },
        ]
    }

    pub fn new(
        rotation: Rotation,
        mirror: bool,
        color_order: ColorOrder,
        pixel_format: PixelFormat,
    ) -> (config: PanelConfig)
        ensures
            config == (PanelConfig { rotation, mirror, color_order, pixel_format }),
    {
        PanelConfig { rotation, mirror, color_order, pixel_format }
    }

    /// The parameter of memory access control for this configuration.
    pub fn access_control_byte(&self) -> (byte: u8)
        ensures
            byte == self.access_control(),
    {
        let scan: u8 = match self.rotation {
            Rotation::Deg0 => if self.mirror { 0x40 } else { 0x00 },
            Rotation::Deg90 => if self.mirror { 0x20 } else { 0x60 },
            Rotation::Deg180 => if self.mirror { 0x80 } else { 0xC0 },
            Rotation::Deg270 => if self.mirror { 0xE0 } else { 0xA0 },
        };
        let order: u8 = match self.color_order {
            ColorOrder::Rgb => 0x00,
            ColorOrder::Bgr => 0x08,
        };
        scan + order
    }

    /// Builds the initialization script of this configuration.
    pub fn build_script(&self) -> (script: Vec<InitCommand>)
        ensures
            script_view(script@) == self.script(),
    {
        let mut script: Vec<InitCommand> = Vec::new();
        script.push(
            InitCommand { opcode: SLEEP_OUT, params: Vec::new(), settle_us: SLEEP_OUT_SETTLE_US },
        );
        let mut format: Vec<u8> = Vec::new();
        format.push(self.pixel_format.selector_byte());
        script.push(InitCommand { opcode: PIXEL_FORMAT_SET, params: format, settle_us: 0 });
        let mut access: Vec<u8> = Vec::new();
        access.push(self.access_control_byte());
        script.push(InitCommand { opcode: MEMORY_ACCESS_CONTROL, params: access, settle_us: 0 });
        script.push(
            InitCommand { opcode: DISPLAY_ON, params: Vec::new(), settle_us: DISPLAY_ON_SETTLE_US },
        );
        proof {
            let steps = script_view(script@);
            assert(steps[0].params =~= seq![]);
            assert(steps[1].params =~= seq![self.pixel_format.selector()]);
            assert(steps[2].params =~= seq![self.access_control()]);
            assert(steps[3].params =~= seq![]);
            assert(steps =~= self.script());
        }
        script
    }
}

} // verus!
