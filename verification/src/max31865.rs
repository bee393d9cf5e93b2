//! MAX31865 RTD-to-digital converter, 2-wire Pt100.
//!
//! The 16-bit reading carries the RTD code in its upper 15 bits and the fault
//! flag in its lowest.

use vstd::prelude::*;

verus! {

pub const REG_CONFIG_WRITE: u8 = 0x80;

pub const REG_RTD_MSB: u8 = 0x01;

pub const REG_FAULT_STATUS: u8 = 0x07;

/// Bias on, automatic conversion, 2-wire, fault clear, 50 Hz filter.
pub const CONFIG_2WIRE_AUTO_50HZ: u8 = 0xC3;

#[derive(Debug)]
pub enum Error<E> {
    Spi(E),
    /// The chip raised a fault flag; its fault status register.
    Fault(u8),
}

impl<E> From<E> for Error<E> {
    fn from(e: E) -> (error: Self) {
        Error::Spi(e)
    }
}

impl<E> vstd::std_specs::convert::FromSpecImpl<E> for Error<E> {
    open spec fn obeys_from_spec() -> bool {
        true
    }

    open spec fn from_spec(e: E) -> Self {
        Error::Spi(e)
    }
}

pub struct Max31865<SPI> {
    pub spi: SPI,
}

/// The 16-bit reading in a transfer that began with the register number.
pub open spec fn reading(buf: Seq<u8>) -> int {
    0x100 * buf[1] + buf[2]
}

/// A reading under way.
#[derive(Debug)]
pub enum RtdRead<E> {
    /// The RTD registers are to be read.
    Data,
    /// The fault flag is up: the fault status is to be read.
    Status,
    /// The fault status was read: the fault is to be cleared.
    Clear { fault: u8 },
    Done(Result<u16, Error<E>>),
}

/// What a reading asks for.
#[derive(Debug, Clone, Copy)]
pub enum RtdStep {
    /// Exchange three bytes.
    ReadData([u8; 3]),
    /// Exchange two bytes.
    ReadStatus([u8; 2]),
    /// Write two bytes; how that ends does not matter.
    Write([u8; 2]),
    Done,
}

impl<SPI> Max31865<SPI> {
    pub fn new(spi: SPI) -> (chip: Self)
        ensures
            chip == (Max31865 { spi }),
    {
        Max31865 { spi }
    }

    /// The write that brings the chip up in 2-wire continuous mode.
    pub fn init(&self) -> (write: [u8; 2])
        ensures
            write@ == seq![REG_CONFIG_WRITE, CONFIG_2WIRE_AUTO_50HZ],
    {
        write_reg(REG_CONFIG_WRITE, CONFIG_2WIRE_AUTO_50HZ)
    }

    /// Start to read the latest RTD code.
    pub fn read_raw<E>(&self) -> (read: RtdRead<E>)
        ensures
            read is Data,
    {
        RtdRead::Data
    }
}

fn write_reg(reg: u8, value: u8) -> (write: [u8; 2])
    ensures
        write@ == seq![reg, value],
{
    [reg, value]
}

fn read_reg(reg: u8) -> (transfer: [u8; 2])
    ensures
        transfer@ == seq![reg & 0x7F, 0],
{
    [reg & 0x7F, 0]
}

impl<E> RtdRead<E> {
    /// The reading once the RTD registers were read.
    pub open spec fn after_data(self, buf: Result<[u8; 3], E>) -> RtdRead<E> {
        match self {
            RtdRead::Data => match buf {
                Err(e) => RtdRead::Done(Err(Error::Spi(e))),
                Ok(b) => if reading(b@) % 2 == 1 {
                    RtdRead::Status
                } else {
                    RtdRead::Done(Ok((reading(b@) / 2) as u16))
                },
            },
            _ => self,
        }
    }

    /// The reading once the fault status was read.
    pub open spec fn after_status(self, buf: Result<[u8; 2], E>) -> RtdRead<E> {
        match self {
            RtdRead::Status => match buf {
                Err(e) => RtdRead::Done(Err(Error::Spi(e))),
                Ok(b) => RtdRead::Clear { fault: b[1] },
            },
            _ => self,
        }
    }

    /// The reading once the fault was cleared.
    pub open spec fn after_clear(self) -> RtdRead<E> {
        match self {
            RtdRead::Clear { fault } => RtdRead::Done(Err(Error::Fault(fault))),
            _ => self,
        }
    }

    /// What to do now.
    pub fn step(&self) -> (step: RtdStep)
        ensures
            match *self {
                RtdRead::Data => step matches RtdStep::ReadData(b) && b@ == seq![REG_RTD_MSB, 0, 0],
                RtdRead::Status => step matches RtdStep::ReadStatus(b) && b@ == seq![
                    REG_FAULT_STATUS,
                    0,
                ],
                RtdRead::Clear { .. } => step matches RtdStep::Write(b) && b@ == seq![
                    REG_CONFIG_WRITE,
                    CONFIG_2WIRE_AUTO_50HZ,
                ],
                RtdRead::Done(_) => step is Done,
            },
    {
        match self {
            RtdRead::Data => RtdStep::ReadData([REG_RTD_MSB, 0, 0]),
            RtdRead::Status => {
                assert(0x07u8 & 0x7F == 0x07) by (bit_vector);
                RtdStep::ReadStatus(read_reg(REG_FAULT_STATUS))
            },
            RtdRead::Clear { .. } => RtdStep::Write(
                write_reg(REG_CONFIG_WRITE, CONFIG_2WIRE_AUTO_50HZ),
            ),
            RtdRead::Done(_) => RtdStep::Done,
        }
    }

    /// The RTD registers were read, or the bus failed: the code without the
    /// fault flag, unless that flag is up.
    pub fn on_data(self, buf: Result<[u8; 3], E>) -> (next: Self)
        ensures
            self is Data ==> match buf {
                Err(e) => next == RtdRead::Done(Err::<u16, Error<E>>(Error::Spi(e))),
                Ok(b) => if reading(b@) % 2 == 1 {
                    next == RtdRead::<E>::Status
                } else {
                    next == RtdRead::Done(Ok::<u16, Error<E>>((reading(b@) / 2) as u16))
                },
            },
            !(self is Data) ==> next == self,
            next == self.after_data(buf),
    {
        match self {
            RtdRead::Data => match buf {
                Err(e) => RtdRead::Done(Err(Error::from(e))),
                Ok(b) => {
                    let raw: u16 = 0x100 * (b[1] as u16) + b[2] as u16;
                    if raw % 2 != 0 {
                        RtdRead::Status
                    } else {
                        RtdRead::Done(Ok(raw / 2))
                    }
                },
            },
            _ => self,
        }
    }

    /// The fault status was read, or the bus failed.
    pub fn on_status(self, buf: Result<[u8; 2], E>) -> (next: Self)
        ensures
            self is Status ==> match buf {
                Err(e) => next == RtdRead::Done(Err::<u16, Error<E>>(Error::Spi(e))),
                Ok(b) => next == (RtdRead::<E>::Clear { fault: b[1] }),
            },
            !(self is Status) ==> next == self,
            next == self.after_status(buf),
    {
        match self {
            RtdRead::Status => match buf {
                Err(e) => RtdRead::Done(Err(Error::from(e))),
                Ok(b) => RtdRead::Clear { fault: b[1] },
            },
            _ => self,
        }
    }

    /// The fault was cleared, as far as it would be.
    pub fn on_clear(self) -> (next: Self)
        ensures
            match self {
                RtdRead::Clear { fault } => next == RtdRead::Done(
                    Err::<u16, Error<E>>(Error::Fault(fault)),
                ),
                _ => next == self,
            },
            next == self.after_clear(),
    {
        match self {
            RtdRead::Clear { fault } => RtdRead::Done(Err(Error::Fault(fault))),
            _ => self,
        }
    }
}

/// A code has 15 bits and comes only from a reading without the fault flag;
/// reading and code determine each other then.
pub proof fn law_code_is_the_upper_15_bits(buf: Seq<u8>)
    requires
        buf.len() == 3,
    ensures
        0 <= reading(buf) / 2 <= 0x7FFF,
        reading(buf) % 2 == 0 ==> reading(buf) == 2 * (reading(buf) / 2),
        reading(buf) % 2 == 1 <==> buf[2] % 2 == 1,
{
}

/// Every 15-bit code that the chip sends with its fault flag down is what comes
/// of the reading, whatever the first byte of the transfer. With the flag up,
/// the code is not used: the fault status is read, the fault cleared, and the
/// status is what comes of the reading. A bus that fails ends it.
pub proof fn law_readings_give_the_code<E>(
    code: u16,
    data: [u8; 3],
    status: [u8; 2],
    error: E,
)
    requires
        code < 0x8000,
        data[1] == code / 0x80,
        data[2] / 2 == code % 0x80,
    ensures
        data[2] % 2 == 0 ==> RtdRead::<E>::Data.after_data(Ok(data)) == RtdRead::Done(
            Ok::<u16, Error<E>>(code),
        ),
        data[2] % 2 == 1 ==> RtdRead::<E>::Data.after_data(Ok(data)).after_status(
            Ok(status),
        ).after_clear() == RtdRead::Done(Err::<u16, Error<E>>(Error::Fault(status[1]))),
        RtdRead::Data.after_data(Err(error)) == RtdRead::Done(
            Err::<u16, Error<E>>(Error::Spi(error)),
        ),
        RtdRead::Status.after_status(Err(error)) == RtdRead::Done(
            Err::<u16, Error<E>>(Error::Spi(error)),
        ),
{
    assert(reading(data@) == 0x100 * data[1] + data[2]);
}

/// A transfer that belongs to another step changes nothing, and what a reading
/// came to stays.
pub proof fn law_other_transfers_change_nothing<E>(
    read: RtdRead<E>,
    data: Result<[u8; 3], E>,
    status: Result<[u8; 2], E>,
)
    ensures
        !(read is Data) ==> read.after_data(data) == read,
        !(read is Status) ==> read.after_status(status) == read,
        !(read is Clear) ==> read.after_clear() == read,
{
}

} // verus!
