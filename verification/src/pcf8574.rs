//! PCF8574 port expander.
//!
//! The chip is a single 8-bit quasi-bidirectional port: writes drive the
//! open-drain outputs, reads return the pin states. It has no read-back of the
//! output latch, so the byte that was last driven is mirrored here, and a
//! single-bit update leaves the rest of the port alone.

use vstd::prelude::*;

verus! {

/// A bus failure.
#[derive(Debug)]
pub enum Error<E> {
    Bus(E),
}

impl<E> From<E> for Error<E> {
    fn from(e: E) -> (error: Self) {
        Error::Bus(e)
    }
}

impl<E> vstd::std_specs::convert::FromSpecImpl<E> for Error<E> {
    open spec fn obeys_from_spec() -> bool {
        true
    }

    open spec fn from_spec(e: E) -> Self {
        Error::Bus(e)
    }
}

/// One byte to write to the chip at `addr`.
#[derive(Debug, Clone, Copy, PartialEq, Eq, Structural)]
pub struct BusWrite {
    pub addr: u8,
    pub byte: u8,
}

/// Whether a port bit is high.
pub open spec fn is_high(port: u8, bit: u8) -> bool {
    port & (1u8 << bit) != 0
}

/// `port` with one bit set to a level.
pub open spec fn with_bit(port: u8, bit: u8, high: bool) -> u8 {
    if high {
        port | (1u8 << bit)
    } else {
        port & !(1u8 << bit)
    }
}

/// `shadow` with one bit set to a level.
pub fn set_bit(shadow: u8, bit: u8, high: bool) -> (port: u8)
    requires
        bit < 8,
    ensures
        port == with_bit(shadow, bit, high),
{
    let mask: u8 = 1u8 << bit;
    if high {
        shadow | mask
    } else {
        shadow & !mask
    }
}

/// The write that a single-bit update takes, nothing if the bit already has
/// that level.
pub open spec fn bit_write(addr: u8, shadow: u8, bit: u8, high: bool) -> Option<BusWrite> {
    if with_bit(shadow, bit, high) == shadow {
        None
    } else {
        Some(BusWrite { addr, byte: with_bit(shadow, bit, high) })
    }
}

/// The write that drives `value`.
pub open spec fn port_write(addr: u8, value: u8) -> BusWrite {
    BusWrite { addr, byte: value }
}

/// The pin states that a read gives.
pub open spec fn pins_of<E>(read: Result<[u8; 1], E>) -> Result<u8, Error<E>> {
    match read {
        Ok(buf) => Ok(buf[0]),
        Err(e) => Err(Error::Bus(e)),
    }
}

pub struct Pcf8574<BUS> {
    pub bus: BUS,
    pub addr: u8,
    /// The byte that was last driven on the port.
    pub shadow: u8,
}

impl<BUS> Pcf8574<BUS> {
    pub fn new(bus: BUS, addr: u8, initial: u8) -> (chip: Self)
        ensures
            chip == (Pcf8574 { bus, addr, shadow: initial }),
    {
        Pcf8574 { bus, addr, shadow: initial }
    }

    /// The write that drives the shadow byte.
    pub fn commit(&self) -> (write: BusWrite)
        ensures
            write == (BusWrite { addr: self.addr, byte: self.shadow }),
            write == port_write(self.addr, self.shadow),
    {
        BusWrite { addr: self.addr, byte: self.shadow }
    }

    /// The write that drives an explicit byte, which is remembered.
    pub fn write_port(&mut self, value: u8) -> (write: BusWrite)
        ensures
            *final(self) == (Pcf8574 { shadow: value, ..*old(self) }),
            write == (BusWrite { addr: old(self).addr, byte: value }),
            write == port_write(old(self).addr, value),
            final(self).shadow == write.byte,
    {
        self.shadow = value;
        self.commit()
    }

    /// Update a single bit of the shadow; the write that drives it, nothing if
    /// the bit already had that level.
    pub fn set_bit(&mut self, bit: u8, high: bool) -> (write: Option<BusWrite>)
        requires
            bit < 8,
        ensures
            ({
                let port = with_bit(old(self).shadow, bit, high);
                &&& *final(self) == (Pcf8574 { shadow: port, ..*old(self) })
                &&& write == (if port == old(self).shadow {
                    None
                } else {
                    Some(BusWrite { addr: old(self).addr, byte: port })
                })
            }),
            write == bit_write(old(self).addr, old(self).shadow, bit, high),
    {
        let new: u8 = set_bit(self.shadow, bit, high);
        if new != self.shadow {
            self.shadow = new;
            return Some(self.commit());
        }
        None
    }

    /// The pin states, given how a one-byte read at [`Pcf8574::addr`] ended.
    pub fn read_port<E>(&self, read: Result<[u8; 1], E>) -> (port: Result<u8, Error<E>>)
        ensures
            match read {
                Ok(buf) => port == Ok::<u8, Error<E>>(buf[0]),
                Err(e) => port == Err::<u8, Error<E>>(Error::Bus(e)),
            },
            port == pins_of(read),
    {
        match read {
            Ok(buf) => Ok(buf[0]),
            Err(e) => Err(Error::from(e)),
        }
    }

    pub fn shadow(&self) -> (byte: u8)
        ensures
            byte == self.shadow,
    {
        self.shadow
    }
}

/// A single-bit update sets that bit and leaves the others alone; doing it
/// twice is doing it once.
pub proof fn law_set_bit_touches_one_bit(port: u8, bit: u8, high: bool, other: u8)
    requires
        bit < 8,
        other < 8,
    ensures
        is_high(with_bit(port, bit, high), bit) == high,
        other != bit ==> is_high(with_bit(port, bit, high), other) == is_high(port, other),
        with_bit(with_bit(port, bit, high), bit, high) == with_bit(port, bit, high),
{
    assert({
        &&& is_high(with_bit(port, bit, high), bit) == high
        &&& other != bit ==> is_high(with_bit(port, bit, high), other) == is_high(port, other)
        &&& with_bit(with_bit(port, bit, high), bit, high) == with_bit(port, bit, high)
    }) by (bit_vector)
        requires
            bit < 8,
            other < 8,
    ;
}

/// A single-bit update is written exactly if it changes the level of the bit,
/// to the chip itself, and what is written has that level in that bit and the
/// byte that was last driven in every other.
pub proof fn law_bit_is_written_on_change(addr: u8, shadow: u8, bit: u8, high: bool, other: u8)
    requires
        bit < 8,
        other < 8,
    ensures
        bit_write(addr, shadow, bit, high) is None <==> (shadow & (1u8 << bit) != 0) == high,
        bit_write(addr, shadow, bit, high) matches Some(write) ==> {
            &&& write.addr == addr
            &&& write.byte & (1u8 << bit) != 0 <==> high
            &&& other != bit ==> write.byte & (1u8 << other) == shadow & (1u8 << other)
        },
{
    assert({
        let port = with_bit(shadow, bit, high);
        &&& port == shadow <==> (shadow & (1u8 << bit) != 0) == high
        &&& port & (1u8 << bit) != 0 <==> high
        &&& other != bit ==> port & (1u8 << other) == shadow & (1u8 << other)
    }) by (bit_vector)
        requires
            bit < 8,
            other < 8,
    ;
}

/// A read gives all eight pins as they came, or the failure of the bus.
pub proof fn law_pins_are_given_as_read<E>(byte: [u8; 1], error: E)
    ensures
        pins_of::<E>(Ok(byte)) == Ok::<u8, Error<E>>(byte[0]),
        pins_of::<E>(Err(error)) == Err::<u8, Error<E>>(Error::Bus(error)),
{
}

/// A write to the port carries all eight bits to the chip that was named.
pub proof fn law_port_is_written_whole(addr: u8, value: u8)
    ensures
        port_write(addr, value).addr == addr,
        port_write(addr, value).byte == value,
{
}

} // verus!
