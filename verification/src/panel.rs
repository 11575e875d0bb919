//! A model of the panel: it takes bus cycles one by one, as the controller
//! does, and keeps the frame memory they leave behind.
//!
//! The model stands in for the glass wherever the effect of bus cycles has
//! to be observed or proved. It follows the column and row address commands
//! and memory write; every other command passes without effect on the frame.

use vstd::prelude::*;
use crate::bus::{BusEvent, BusWidth, SelectPhase};
use crate::color::PixelFormat;
use crate::config::{COLUMN_ADDRESS_SET, MEMORY_WRITE, ROW_ADDRESS_SET};
use crate::geometry::{grid_index, AddressWindow, PanelGeometry};
use crate::protocol::words_per_sample;

verus! {

/// What the model is, to a caller.
pub struct PanelState {
    pub geometry: PanelGeometry,
    pub format: PixelFormat,
    pub width: BusWidth,
    /// The level of the select line.
    pub phase: SelectPhase,
    /// The command under way, if any.
    pub opcode: Option<u8>,
    /// Number of parameters taken since the opcode, counted up to four.
    pub seen: nat,
    /// The first three parameters taken since the opcode.
    pub p0: u8,
    pub p1: u8,
    pub p2: u8,
    /// The column and row address registers.
    pub window: AddressWindow,
    /// Where the next sample goes.
    pub cx: u16,
    pub cy: u16,
    /// Number of words taken of the sample under way, and what they hold.
    pub have: nat,
    pub acc: u32,
    /// Frame memory, row by row.
    pub frame: Seq<u32>,
}

impl PanelState {
    /// The place of pixel (`x`, `y`) in frame memory.
    pub open spec fn index(self, x: int, y: int) -> int {
        grid_index(self.geometry.width as int, x, y)
    }

    /// The frame has one entry for each pixel of the panel.
    pub open spec fn wf(self) -> bool {
        self.frame.len() == self.geometry.width * self.geometry.height
    }

    /// What pixel (`x`, `y`) of the panel holds.
    pub open spec fn pixel(self, x: int, y: int) -> u32
        recommends
            0 <= x < self.geometry.width,
            0 <= y < self.geometry.height,
            self.wf(),
    {
        self.frame[self.index(x, y)]
    }

    /// Number of bus words that make one sample.
    pub open spec fn sample_len(self) -> nat {
        words_per_sample(self.format, self.width)
    }

    /// The state after the select line changed.
    pub open spec fn select(self, phase: SelectPhase) -> PanelState {
        PanelState { phase, ..self }
    }

    /// The state after a word in the command phase: a command begins. Memory
    /// write puts the cursor at the first pixel of the window.
    pub open spec fn begin(self, word: u16) -> PanelState {
        let opcode = (word as int % 256) as u8;
        if opcode == MEMORY_WRITE {
            PanelState {
                opcode: Some(opcode),
                seen: 0,
                have: 0,
                acc: 0,
                cx: self.window.x0,
                cy: self.window.y0,
                ..self
            }
        } else {
            PanelState { opcode: Some(opcode), seen: 0, ..self }
        }
    }

    /// The state after a parameter of an address command: the first three
    /// are kept, the fourth sets the two boundaries, any further is ignored.
    pub open spec fn parameter(self, columns: bool, word: u16) -> PanelState {
        let byte = (word as int % 256) as u8;
        if self.seen == 0 {
            PanelState { seen: 1, p0: byte, ..self }
        } else if self.seen == 1 {
            PanelState { seen: 2, p1: byte, ..self }
        } else if self.seen == 2 {
            PanelState { seen: 3, p2: byte, ..self }
        } else if self.seen == 3 {
            let low = (self.p0 * 256 + self.p1) as u16;
            let high = (self.p2 * 256 + byte) as u16;
            if columns {
                PanelState { seen: 4, window: AddressWindow { x0: low, x1: high, ..self.window }, ..self }
            } else {
                PanelState { seen: 4, window: AddressWindow { y0: low, y1: high, ..self.window }, ..self }
            }
        } else {
            self
        }
    }

    /// Where the cursor goes after a sample: one column on, at the end of a
    /// row to the start of the next, at the end of the window to its start.
    pub open spec fn next_cursor(self) -> (u16, u16) {
        if self.cx < self.window.x1 {
            ((self.cx + 1) as u16, self.cy)
        } else if self.cy < self.window.y1 {
            (self.window.x0, (self.cy + 1) as u16)
        } else {
            (self.window.x0, self.window.y0)
        }
    }

    /// The frame with `value` at the cursor, if the cursor is on the panel.
    pub open spec fn painted(self, value: u32) -> Seq<u32> {
        let at = self.index(self.cx as int, self.cy as int);
        if self.cx < self.geometry.width && self.cy < self.geometry.height && at
            < self.frame.len() {
            self.frame.update(at, value)
        } else {
            self.frame
        }
    }

    /// The state after a word of pixel data: words are gathered, most
    /// significant first, until they make a sample; the sample is stored at
    /// the cursor and the cursor moves on.
    pub open spec fn gather(self, word: u16) -> PanelState {
        let part = (self.acc as int % 0x1_0000) * self.width.limit() + word as int
            % self.width.limit();
        if self.have + 1 < self.sample_len() {
            PanelState { have: self.have + 1, acc: part as u32, ..self }
        } else {
            let value = (part % self.format.sample_limit()) as u32;
            let next = self.next_cursor();
            PanelState {
                have: 0,
                acc: 0,
                frame: self.painted(value),
                cx: next.0,
                cy: next.1,
                ..self
            }
        }
    }

    /// The state after a word in the data phase.
    pub open spec fn data(self, word: u16) -> PanelState {
        match self.opcode {
            Some(opcode) => {
                if opcode == COLUMN_ADDRESS_SET {
                    self.parameter(true, word)
                } else if opcode == ROW_ADDRESS_SET {
                    self.parameter(false, word)
                } else if opcode == MEMORY_WRITE {
                    self.gather(word)
                } else {
                    self
                }
            },
            None => self,
        }
    }

    /// The state after one bus cycle.
    pub open spec fn step(self, event: BusEvent) -> PanelState {
        match event {
            BusEvent::Select(phase) => self.select(phase),
            BusEvent::Word(word) => match self.phase {
                SelectPhase::Command => self.begin(word),
                SelectPhase::Data => self.data(word),
            },
        }
    }

    /// The state after the bus cycles of `events`, in their order.
    #[verifier::opaque]
    pub open spec fn run(self, events: Seq<BusEvent>) -> PanelState
        decreases events.len(),
    {
        if events.len() == 0 {
            self
        } else {
            self.run(events.drop_last()).step(events.last())
        }
    }
}

/// The model of one panel.
pub struct PanelModel {
    geometry: PanelGeometry,
    format: PixelFormat,
    width: BusWidth,
    phase: SelectPhase,
    opcode: Option<u8>,
    seen: u8,
    p0: u8,
    p1: u8,
    p2: u8,
    window: AddressWindow,
    cx: u16,
    cy: u16,
    have: u8,
    acc: u32,
    frame: Vec<u32>,
}

impl View for PanelModel {
    type V = PanelState;

    closed spec fn view(&self) -> PanelState {
        PanelState {
            geometry: self.geometry,
            format: self.format,
            width: self.width,
            phase: self.phase,
            opcode: self.opcode,
            seen: self.seen as nat,
            p0: self.p0,
            p1: self.p1,
            p2: self.p2,
            window: self.window,
            cx: self.cx,
            cy: self.cy,
            have: self.have as nat,
            acc: self.acc,
            frame: self.frame@,
        }
    }
}

impl PanelModel {
    /// A panel fresh from power-up: no command under way, the address
    /// registers at zero, every pixel zero.
    pub fn new(geometry: PanelGeometry, format: PixelFormat, width: BusWidth) -> (model: PanelModel)
        ensures
            model@ == (PanelState {
                geometry,
                format,
                width,
                phase: SelectPhase::Command,
                opcode: None,
                seen: 0,
                p0: 0,
                p1: 0,
                p2: 0,
                window: AddressWindow { x0: 0, y0: 0, x1: 0, y1: 0 },
                cx: 0,
                cy: 0,
                have: 0,
                acc: 0,
                frame: Seq::new((geometry.width * geometry.height) as nat, |i: int| 0u32),
            }),
            model@.wf(),
    {
        let total: u32 = {
            assert(geometry.width * geometry.height <= 0xFFFF * 0xFFFF) by (nonlinear_arith)
                requires
                    geometry.width <= 0xFFFF,
                    geometry.height <= 0xFFFF,
            ;
            geometry.width as u32 * geometry.height as u32
        };
        let mut frame: Vec<u32> = Vec::new();
        let mut i: u32 = 0;
        while i < total
            invariant
                i <= total,
                frame@ =~= Seq::new(i as nat, |k: int| 0u32),
            decreases total - i,
        {
            frame.push(0);
            i += 1;
        }
        PanelModel {
            geometry,
            format,
            width,
            phase: SelectPhase::Command,
            opcode: None,
            seen: 0,
            p0: 0,
            p1: 0,
            p2: 0,
            window: AddressWindow { x0: 0, y0: 0, x1: 0, y1: 0 },
            cx: 0,
            cy: 0,
            have: 0,
            acc: 0,
            frame,
        }
    }

    pub fn geometry(&self) -> (geometry: PanelGeometry)
        ensures
            geometry == self@.geometry,
    {
        self.geometry
    }

    /// The column and row address registers.
    pub fn window(&self) -> (window: AddressWindow)
        ensures
            window == self@.window,
    {
        self.window
    }

    /// Frame memory, row by row.
    pub fn frame(&self) -> (frame: &Vec<u32>)
        ensures
            frame@ == self@.frame,
    {
        &self.frame
    }

    /// What pixel (`x`, `y`) holds; nothing when it is off the panel.
    pub fn pixel(&self, x: u16, y: u16) -> (held: Option<u32>)
        ensures
            held == if x < self@.geometry.width && y < self@.geometry.height && self@.index(
                x as int,
                y as int,
            ) < self@.frame.len() {
                Some(self@.pixel(x as int, y as int))
            } else {
                None
            },
    {
        if x < self.geometry.width && y < self.geometry.height {
            let at = self.place(x, y);
            if at < self.frame.len() {
                return Some(self.frame[at]);
            }
        }
        None
    }

    fn place(&self, x: u16, y: u16) -> (at: usize)
        ensures
            at == self@.index(x as int, y as int),
    {
        reveal(grid_index);
        assert(y * self.geometry.width + x <= 0xFFFF * 0xFFFF + 0xFFFF) by (nonlinear_arith)
            requires
                y <= 0xFFFF,
                self.geometry.width <= 0xFFFF,
                x <= 0xFFFF,
        ;
        let at: u32 = y as u32 * self.geometry.width as u32 + x as u32;
        at as usize
    }

    fn sample_len(&self) -> (n: u8)
        ensures
            n == self@.sample_len(),
    {
        match self.width {
            BusWidth::Eight => match self.format {
                PixelFormat::Bits16 => 2,
                _ => 3,
            },
            BusWidth::Sixteen => match self.format {
                PixelFormat::Bits16 => 1,
                _ => 2,
            },
        }
    }

    fn parameter(&mut self, columns: bool, word: u16)
        ensures
            final(self)@ == old(self)@.parameter(columns, word),
    {
        let byte: u8 = (word % 256) as u8;
        if self.seen == 0 {
            self.seen = 1;
            self.p0 = byte;
        } else if self.seen == 1 {
            self.seen = 2;
            self.p1 = byte;
        } else if self.seen == 2 {
            self.seen = 3;
            self.p2 = byte;
        } else if self.seen == 3 {
            let low: u16 = self.p0 as u16 * 256 + self.p1 as u16;
            let high: u16 = self.p2 as u16 * 256 + byte as u16;
            self.seen = 4;
            if columns {
                self.window.x0 = low;
                self.window.x1 = high;
            } else {
                self.window.y0 = low;
                self.window.y1 = high;
            }
        }
    }

    fn gather(&mut self, word: u16)
        ensures
            final(self)@ == old(self)@.gather(word),
    {
        let unit: u32 = match self.width {
            BusWidth::Eight => 0x100,
            BusWidth::Sixteen => 0x1_0000,
        };
        let part: u32 = (self.acc % 0x1_0000) * unit + word as u32 % unit;
        let n: u8 = self.sample_len();
        if (self.have as u32) + 1 < n as u32 {
            self.have = self.have + 1;
            self.acc = part;
        } else {
            let value: u32 = match self.format {
                PixelFormat::Bits16 => part % 0x1_0000,
                _ => part % 0x100_0000,
            };
            if self.cx < self.geometry.width && self.cy < self.geometry.height {
                let at = self.place(self.cx, self.cy);
                if at < self.frame.len() {
                    self.frame.set(at, value);
                }
            }
            if self.cx < self.window.x1 {
                self.cx = self.cx + 1;
            } else if self.cy < self.window.y1 {
                self.cx = self.window.x0;
                self.cy = self.cy + 1;
            } else {
                self.cx = self.window.x0;
                self.cy = self.window.y0;
            }
            self.have = 0;
            self.acc = 0;
        }
    }

    /// Takes one bus cycle.
    pub fn apply(&mut self, event: BusEvent)
        ensures
            final(self)@ == old(self)@.step(event),
    {
        match event {
            BusEvent::Select(phase) => {
                self.phase = phase;
            },
            BusEvent::Word(word) => match self.phase {
                SelectPhase::Command => {
                    let opcode: u8 = (word % 256) as u8;
                    self.opcode = Some(opcode);
                    self.seen = 0;
                    if opcode == MEMORY_WRITE {
                        self.have = 0;
                        self.acc = 0;
                        self.cx = self.window.x0;
                        self.cy = self.window.y0;
                    }
                },
                SelectPhase::Data => match self.opcode {
                    Some(opcode) => {
                        if opcode == COLUMN_ADDRESS_SET {
                            self.parameter(true, word);
                        } else if opcode == ROW_ADDRESS_SET {
                            self.parameter(false, word);
                        } else if opcode == MEMORY_WRITE {
                            self.gather(word);
                        }
                    },
                    None => {},
                },
            },
        }
    }

    /// Takes the bus cycles of `events`, in their order.
    pub fn feed(&mut self, events: &Vec<BusEvent>)
        ensures
            final(self)@ == old(self)@.run(events@),
    {
        let mut i: usize = 0;
        proof {
            reveal(PanelState::run);
        }
        while i < events.len()
            invariant
                i <= events.len(),
                self@ == old(self)@.run(events@.take(i as int)),
            decreases events.len() - i,
        {
            self.apply(events[i]);
            proof {
                reveal(PanelState::run);
                assert(events@.take(i + 1).drop_last() =~= events@.take(i as int));
            }
            i += 1;
        }
        assert(events@.take(i as int) =~= events@);
    }
}

} // verus!
