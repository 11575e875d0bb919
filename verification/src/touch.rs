//! The TSC2007 resistive touch controller: which registers to ask for over
//! I2C and what the bytes that come back mean.
//!
//! The bus and the interrupt line stay with the caller. For every exchange
//! the caller writes the command byte to the device at `addr` and hands the
//! reply, or the failure, to the function that reads it.

use vstd::prelude::*;

verus! {

/// The address the device answers to.
pub const TSC2007_DEF_ADDR: u8 = 0x48;

/// The command that measures the X position.
pub const TSC2007_CMD_READ_X: u8 = 0xC0;

/// The command that measures the Y position.
pub const TSC2007_CMD_READ_Y: u8 = 0xD0;

/// The height that the Y measurement is mirrored in.
pub const TOUCH_HEIGHT: u16 = 320;

/// The bits of the Y register that hold the measurement.
pub const TOUCH_Y_MASK: u16 = 0x1fff;

/// What can go wrong with the touch controller.
#[derive(Debug)]
pub enum Error<PinE, TransferE> {
    /// The interrupt line could not be read.
    Pin(PinE),
    /// An I2C exchange failed.
    I2C(TransferE),
}

/// The touch controller.
pub struct TSC2007 {
    addr: u8,
}

/// The sixteen-bit register value in a reply of two bytes, high byte first.
pub open spec fn register_value(reply: [u8; 2]) -> u16 {
    (reply[0] * 256 + reply[1]) as u16
}

/// The measurement in the Y register.
pub open spec fn y_measure(reply: [u8; 2]) -> u16 {
    register_value(reply) & TOUCH_Y_MASK
}

/// The sixteen-bit register value in a reply of two bytes.
fn register_of(reply: &[u8; 2]) -> (value: u16)
    ensures
        value == register_value(*reply),
{
    reply[0] as u16 * 256 + reply[1] as u16
}

impl TSC2007 {
    /// The I2C address of the device.
    pub closed spec fn address(&self) -> u8 {
        self.addr
    }

    /// The controller at its default address.
    pub fn new<PinE>() -> (made: Result<TSC2007, PinE>)
        ensures
            made is Ok,
            made->Ok_0.address() == TSC2007_DEF_ADDR,
    {
        Ok(TSC2007 { addr: TSC2007_DEF_ADDR })
    }

    /// The device needs no preparation.
    pub fn init<PinE, TransferE>(&mut self) -> (done: Result<(), Error<PinE, TransferE>>)
        ensures
            done is Ok,
            final(self).address() == old(self).address(),
    {
        Ok(())
    }

    /// The I2C address of the device.
    pub fn addr(&self) -> (addr: u8)
        ensures
            addr == self.address(),
    {
        self.addr
    }

    /// Reads a register of one byte from its reply.
    pub fn read_reg<TransferE>(&self, reply: Result<[u8; 1], TransferE>) -> (value: Result<
        u8,
        TransferE,
    >)
        ensures
            match reply {
                Ok(bytes) => value == Ok::<u8, TransferE>(bytes[0]),
                Err(e) => value == Err::<u8, TransferE>(e),
            },
    {
        match reply {
            Ok(bytes) => Ok(bytes[0]),
            Err(e) => Err(e),
        }
    }

    /// Reads a register of two bytes from its reply, high byte first.
    pub fn read_reg_16<TransferE>(&self, reply: Result<[u8; 2], TransferE>) -> (value: Result<
        u16,
        TransferE,
    >)
        ensures
            match reply {
                Ok(bytes) => value == Ok::<u16, TransferE>(register_value(bytes)),
                Err(e) => value == Err::<u16, TransferE>(e),
            },
    {
        match reply {
            Ok(bytes) => Ok(register_of(&bytes)),
            Err(e) => Err(e),
        }
    }

    /// The panel is pressed exactly when the interrupt line is low.
    pub fn is_pressed<PinE>(&self, irq_low: Result<bool, PinE>) -> (pressed: Result<bool, PinE>)
        ensures
            pressed == irq_low,
    {
        irq_low
    }

    /// The X position in the reply to `TSC2007_CMD_READ_X`.
    pub fn read_x<TransferE>(&self, reply: Result<[u8; 2], TransferE>) -> (x: Result<
        u16,
        TransferE,
    >)
        ensures
            match reply {
                Ok(bytes) => x == Ok::<u16, TransferE>(register_value(bytes)),
                Err(e) => x == Err::<u16, TransferE>(e),
            },
    {
        self.read_reg_16(reply)
    }

    /// Whether the measurement in a reply to `TSC2007_CMD_READ_Y` lies
    /// within the height it is mirrored in.
    pub fn y_in_range(&self, reply: &[u8; 2]) -> (ok: bool)
        ensures
            ok == (y_measure(*reply) <= TOUCH_HEIGHT),
    {
        (register_of(reply) & TOUCH_Y_MASK) <= TOUCH_HEIGHT
    }

    /// The Y position in the reply to `TSC2007_CMD_READ_Y`: the measurement,
    /// mirrored in the height.
    pub fn read_y<TransferE>(&self, reply: Result<[u8; 2], TransferE>) -> (y: Result<
        u16,
        TransferE,
    >)
        requires
            reply is Ok ==> y_measure(reply->Ok_0) <= TOUCH_HEIGHT,
        ensures
            match reply {
                Ok(bytes) => y == Ok::<u16, TransferE>((TOUCH_HEIGHT - y_measure(bytes)) as u16),
                Err(e) => y == Err::<u16, TransferE>(e),
            },
    {
        match self.read_reg_16(reply) {
            Ok(raw) => Ok(TOUCH_HEIGHT - (raw & TOUCH_Y_MASK)),
            Err(e) => Err(e),
        }
    }

    /// The touched point, if the panel is pressed: nothing when the line is
    /// high or could not be read, else the X and Y positions in `replies`,
    /// the replies to `TSC2007_CMD_READ_X` and to `TSC2007_CMD_READ_Y`.
    pub fn read<PinE, TransferE>(
        &self,
        pressed: Result<bool, PinE>,
        replies: Option<([u8; 2], [u8; 2])>,
    ) -> (point: Result<Option<(u16, u16)>, Error<PinE, TransferE>>)
        requires
            pressed == Ok::<bool, PinE>(true) ==> replies is Some && y_measure(replies->Some_0.1)
                <= TOUCH_HEIGHT,
        ensures
            point is Ok,
            point->Ok_0 == if pressed == Ok::<bool, PinE>(true) {
                Some(
                    (
                        register_value(replies->Some_0.0),
                        (TOUCH_HEIGHT - y_measure(replies->Some_0.1)) as u16,
                    ),
                )
            } else {
                None
            },
    {
        match (self.is_pressed(pressed), replies) {
            (Ok(true), Some((x_reply, y_reply))) => {
                let x: u16 = register_of(&x_reply);
                let y: u16 = TOUCH_HEIGHT - (register_of(&y_reply) & TOUCH_Y_MASK);
                Ok(Some((x, y)))
            },
            _ => Ok(None),
        }
    }
}

} // verus!
