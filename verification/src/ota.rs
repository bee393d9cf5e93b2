//! Over-the-air update: the partition scheme of the two firmware slots.
//!
//! An update goes through these steps:
//!   1. parse the partition table to locate the two app slots and the `otadata`
//!      partition ([`read_layout`]),
//!   2. pick the slot that is not running, from the two `otadata` copies
//!      ([`OtaSession::begin`]),
//!   3. stream the new image into that slot ([`OtaSession::write`]),
//!   4. read the slot back and sum it ([`ReadBack`]),
//!   5. once both sums match, write the `otadata` copy with the lower sequence,
//!      so that the boot loader takes the new slot ([`OtaSession::finish`]).
//!
//! The flash itself is driven by the caller: this module says which addresses
//! are read and written, and decides from what came back.

use vstd::arithmetic::div_mod::{
    lemma_add_mod_noop, lemma_mod_add_multiples_vanish, lemma_mod_bound, lemma_mod_twice,
    lemma_small_mod, lemma_sub_mod_noop,
};
use vstd::prelude::*;

use crate::crc::{crc32, crc32_of, law_crc32_streams, lemma_crc32_of_nothing};
use crate::crc_table::crc_shift8;

verus! {

/// Flash sector size. Images are written in multiples of this, so that each
/// sector is erased and written once.
pub const SECTOR: usize = 4096;

/// Address of the partition table.
pub const PT_OFFSET: u32 = 0x8000;

/// Rows of the table that are scanned.
pub const PT_ROWS: usize = 96;

/// Size of a partition table row and of an `otadata` copy.
pub const ENTRY: usize = 32;

/// Bytes that are read back from the slot at a time.
pub const READ_BACK: usize = 256;

pub const MAGIC0: u8 = 0xAA;

pub const MAGIC1: u8 = 0x50;

pub const TYPE_APP: u8 = 0x00;

pub const TYPE_DATA: u8 = 0x01;

pub const SUBTYPE_OTA0: u8 = 0x10;

pub const SUBTYPE_OTADATA: u8 = 0x00;

#[derive(Debug, Clone, Copy, PartialEq, Eq, Structural)]
pub enum OtaError {
    /// The partition table lacks two app slots and an otadata partition.
    NoOtaPartitions,
    /// The image is larger than the target slot.
    TooBig,
    /// A flash read or write failed.
    Flash,
    /// The streamed or read-back CRC-32 did not match the advertised value.
    Crc,
}

impl OtaError {
    pub fn as_str(self) -> (text: &'static str)
        ensures
            text@ == (match self {
                OtaError::NoOtaPartitions => "no OTA partitions"@,
                OtaError::TooBig => "image too big for slot"@,
                OtaError::Flash => "flash error"@,
                OtaError::Crc => "CRC mismatch"@,
            }),
    {
        match self {
            OtaError::NoOtaPartitions => "no OTA partitions",
            OtaError::TooBig => "image too big for slot",
            OtaError::Flash => "flash error",
            OtaError::Crc => "CRC mismatch",
        }
    }
}

/// The number that four little-endian bytes of `bytes` from `at` hold.
pub open spec fn le32(bytes: Seq<u8>, at: int) -> u32 {
    (bytes[at] + 0x100 * bytes[at + 1] + 0x1_0000 * bytes[at + 2] + 0x100_0000 * bytes[at
        + 3]) as u32
}

/// The four little-endian bytes of `x`.
pub open spec fn le_bytes(x: u32) -> Seq<u8> {
    seq![
        (x % 0x100) as u8,
        (x / 0x100 % 0x100) as u8,
        (x / 0x1_0000 % 0x100) as u8,
        (x / 0x100_0000) as u8,
    ]
}

fn read_le32(bytes: &[u8; 32], at: usize) -> (x: u32)
    requires
        at + 4 <= 32,
    ensures
        x == le32(bytes@, at as int),
{
    (bytes[at] as u32) + 0x100 * (bytes[at + 1] as u32) + 0x1_0000 * (bytes[at + 2] as u32)
        + 0x100_0000 * (bytes[at + 3] as u32)
}

fn to_le(x: u32) -> (bytes: [u8; 4])
    ensures
        bytes@ == le_bytes(x),
{
    [
        (x % 0x100) as u8,
        (x / 0x100 % 0x100) as u8,
        (x / 0x1_0000 % 0x100) as u8,
        (x / 0x100_0000) as u8,
    ]
}

/// OTA slots and otadata geometry, as the partition table gives them.
#[derive(Debug, Clone, Copy)]
pub struct Layout {
    /// Offset and size of `ota_0` and `ota_1`.
    pub ota: [(u32, u32); 2],
    /// How many of the two slots the table names.
    pub count: usize,
    pub otadata_off: u32,
    pub otadata_size: u32,
}

impl Layout {
    /// Both slots and the otadata partition are there.
    pub open spec fn complete(self) -> bool {
        &&& self.count == 2
        &&& self.otadata_size != 0
    }

    /// Address of one of the two otadata copies: they share the partition
    /// evenly.
    pub open spec fn copy_address(self, second: bool) -> u32 {
        if second {
            self.otadata_off.wrapping_add(self.otadata_size / 2)
        } else {
            self.otadata_off
        }
    }

    /// Address at which an otadata copy is read and written.
    pub fn copy_offset(&self, second: bool) -> (address: u32)
        ensures
            address == self.copy_address(second),
    {
        if second {
            self.otadata_off.wrapping_add(self.otadata_size / 2)
        } else {
            self.otadata_off
        }
    }
}

/// A row that was never written: the end of the table.
pub open spec fn blank_row(row: Seq<u8>) -> bool {
    forall|i: int| 0 <= i < ENTRY ==> row[i] == 0xFF
}

/// A row that describes a partition.
pub open spec fn partition_row(row: Seq<u8>) -> bool {
    row[0] == MAGIC0 && row[1] == MAGIC1
}

/// A row that describes the app slot `ota_<slot>`.
pub open spec fn slot_row(row: Seq<u8>, slot: int) -> bool {
    partition_row(row) && row[2] == TYPE_APP && row[3] == SUBTYPE_OTA0 + slot
}

/// A row that describes the otadata partition.
pub open spec fn otadata_row(row: Seq<u8>) -> bool {
    partition_row(row) && row[2] == TYPE_DATA && row[3] == SUBTYPE_OTADATA
}

/// Offset and size of a partition.
pub open spec fn extent(row: Seq<u8>) -> (u32, u32) {
    (le32(row, 4), le32(row, 8))
}

/// The extent that the last row for `slot` gives, nothing if none does.
pub open spec fn slot_extent(rows: Seq<Seq<u8>>, slot: int) -> Option<(u32, u32)>
    decreases rows.len(),
{
    if rows.len() == 0 {
        None
    } else if slot_row(rows.last(), slot) {
        Some(extent(rows.last()))
    } else {
        slot_extent(rows.drop_last(), slot)
    }
}

/// The extent that the last otadata row gives, nothing if there is none.
pub open spec fn otadata_extent(rows: Seq<Seq<u8>>) -> Option<(u32, u32)>
    decreases rows.len(),
{
    if rows.len() == 0 {
        None
    } else if otadata_row(rows.last()) {
        Some(extent(rows.last()))
    } else {
        otadata_extent(rows.drop_last())
    }
}

pub open spec fn or_zero(extent: Option<(u32, u32)>) -> (u32, u32) {
    match extent {
        Some(e) => e,
        None => (0, 0),
    }
}

/// One for a slot that the table names.
pub open spec fn named(extent: Option<(u32, u32)>) -> int {
    if extent is Some {
        1
    } else {
        0
    }
}

/// What `rows` say about the slots and the otadata partition.
pub open spec fn describes(rows: Seq<Seq<u8>>, layout: Layout) -> bool {
    &&& layout.ota@ == seq![or_zero(slot_extent(rows, 0)), or_zero(slot_extent(rows, 1))]
    &&& layout.count == named(slot_extent(rows, 0)) + named(slot_extent(rows, 1))
    &&& (layout.otadata_off, layout.otadata_size) == or_zero(otadata_extent(rows))
}

/// The rows of `table` that count: those in front of the first one that could
/// not be read or is blank, and no more than are scanned.
pub open spec fn live_rows(table: Seq<Option<[u8; 32]>>) -> Seq<Seq<u8>> {
    live_prefix(table.take(if table.len() < PT_ROWS { table.len() as int } else { PT_ROWS as int }))
}

pub open spec fn live_prefix(table: Seq<Option<[u8; 32]>>) -> Seq<Seq<u8>>
    decreases table.len(),
{
    if table.len() == 0 {
        Seq::empty()
    } else {
        match table[0] {
            None => Seq::empty(),
            Some(row) => if blank_row(row@) {
                Seq::empty()
            } else {
                seq![row@] + live_prefix(table.drop_first())
            },
        }
    }
}

fn is_blank(row: &[u8; 32]) -> (blank: bool)
    ensures
        blank == blank_row(row@),
{
    let mut i: usize = 0;
    while i < 32
        invariant
            i <= 32,
            forall|j: int| 0 <= j < i ==> row@[j] == 0xFF,
        decreases 32 - i,
    {
        if row[i] != 0xFF {
            return false;
        }
        i = i + 1;
    }
    true
}

proof fn lemma_live_step(table: Seq<Option<[u8; 32]>>, i: int)
    requires
        0 <= i < table.len(),
        table[i] is Some,
        !blank_row(table[i].unwrap()@),
    ensures
        live_prefix(table.skip(i)) == seq![table[i].unwrap()@] + live_prefix(table.skip(i + 1)),
{
    assert(table.skip(i).drop_first() =~= table.skip(i + 1));
}

/// Address of row `i` of the partition table.
pub open spec fn row_at(i: int) -> int {
    PT_OFFSET + ENTRY * i
}

/// Address of row `i` of the partition table.
pub fn row_address(i: usize) -> (address: u32)
    requires
        i < PT_ROWS,
    ensures
        address == PT_OFFSET + ENTRY * i,
        address == row_at(i as int),
{
    PT_OFFSET + 32 * i as u32
}

/// Scan the partition table for the OTA slots and the otadata partition.
/// `table` holds the rows from [`PT_OFFSET`] on, `None` where a read failed.
pub fn read_layout(table: &[Option<[u8; 32]>]) -> (layout: Result<Layout, OtaError>)
    ensures
        layout is Ok <==> {
            let rows = live_rows(table@);
            &&& slot_extent(rows, 0) is Some
            &&& slot_extent(rows, 1) is Some
            &&& or_zero(otadata_extent(rows)).1 != 0
        },
        layout matches Ok(l) ==> describes(live_rows(table@), l) && l.complete(),
        layout matches Err(e) ==> e == OtaError::NoOtaPartitions,
{
    let mut layout = Layout { ota: [(0, 0), (0, 0)], count: 0, otadata_off: 0, otadata_size: 0 };
    let scanned: usize = if table.len() < PT_ROWS {
        table.len()
    } else {
        PT_ROWS
    };
    let ghost window = table@.take(scanned as int);
    let ghost mut rows: Seq<Seq<u8>> = Seq::empty();
    let mut seen: [bool; 2] = [false, false];
    let mut at: usize = 0;
    proof {
        assert(window.skip(0) =~= window);
        assert(rows + live_prefix(window) =~= live_prefix(window));
    }
    while at < scanned
        invariant_except_break
            at <= scanned <= table@.len(),
            window == table@.take(scanned as int),
            live_prefix(window) == rows + live_prefix(window.skip(at as int)),
            describes(rows, layout),
            seen[0] == (slot_extent(rows, 0) is Some),
            seen[1] == (slot_extent(rows, 1) is Some),
        ensures
            live_prefix(window) == rows,
            describes(rows, layout),
        decreases scanned - at,
    {
        let row: [u8; 32] = match table[at] {
            None => {
                assert(live_prefix(window.skip(at as int)) =~= Seq::empty());
                assert(live_prefix(window) =~= rows);
                break;
            },
            Some(row) => row,
        };
        let ghost before = rows;
        if is_blank(&row) {
            assert(live_prefix(window.skip(at as int)) =~= Seq::empty());
            assert(live_prefix(window) =~= rows);
            break;
        }
        proof {
            lemma_live_step(window, at as int);
            assert(rows.push(row@) + live_prefix(window.skip(at + 1)) =~= rows + (seq![row@]
                + live_prefix(window.skip(at + 1))));
            rows = rows.push(row@);
        }
        let ghost earlier = rows.drop_last();
        assert(earlier =~= before);
        at = at + 1;
        if row[0] == MAGIC0 && row[1] == MAGIC1 {
            let off: u32 = read_le32(&row, 4);
            let size: u32 = read_le32(&row, 8);
            if row[2] == TYPE_APP && row[3] >= SUBTYPE_OTA0 {
                let idx: usize = (row[3] - SUBTYPE_OTA0) as usize;
                if idx < 2 {
                    layout.ota[idx] = (off, size);
                    if !seen[idx] {
                        seen[idx] = true;
                        layout.count = layout.count + 1;
                    }
                }
            } else if row[2] == TYPE_DATA && row[3] == SUBTYPE_OTADATA {
                layout.otadata_off = off;
                layout.otadata_size = size;
            }
        }
        proof {
            assert(rows.last() == row@);
            assert(layout.ota@ =~= seq![
                or_zero(slot_extent(rows, 0)),
                or_zero(slot_extent(rows, 1)),
            ]);
            if at == scanned {
                assert(window.skip(at as int) =~= Seq::empty());
                assert(live_prefix(window) =~= rows);
            }
        }
    }
    if layout.count < 2 || layout.otadata_size == 0 {
        return Err(OtaError::NoOtaPartitions);
    }
    Ok(layout)
}

/// The app slot that a boot sequence number stands for: the numbers from one
/// on take the slots in turn.
pub open spec fn part_of(seq: u32, count: usize) -> int {
    (if seq == 0 { 0 } else { seq - 1 }) % (count as int)
}

/// The slot that the boot loader runs: the one of the highest sequence, the
/// first one if neither copy holds a sequence.
pub open spec fn running_part(seq0: u32, seq1: u32, count: usize) -> int {
    let highest = if seq0 >= seq1 { seq0 } else { seq1 };
    if highest == 0 { 0 } else { part_of(highest, count) }
}

/// The sum that guards a sequence number.
pub open spec fn seq_sum(seq: u32) -> u32 {
    crc32_of(le_bytes(seq), 0xFFFF_FFFF)
}

/// The sequence that an otadata copy holds, zero if its sum does not check
/// out.
pub open spec fn copy_seq(entry: Seq<u8>) -> u32 {
    if seq_sum(le32(entry, 0)) == le32(entry, 28) {
        le32(entry, 0)
    } else {
        0
    }
}

/// [`copy_seq`] of what the flash gave, zero where the read failed.
pub open spec fn seq_of_read(entry: Option<[u8; 32]>) -> u32 {
    match entry {
        Some(bytes) => copy_seq(bytes@),
        None => 0,
    }
}

/// The otadata copy for `seq`: the number, a blank label, an undefined image
/// state and the sum of the number.
pub open spec fn boot_entry(seq: u32) -> Seq<u8> {
    le_bytes(seq) + Seq::new(24, |i: int| 0xFFu8) + le_bytes(seq_sum(seq))
}

/// App slot of a boot sequence number.
pub fn seq_to_part(seq: u32, count: usize) -> (part: usize)
    requires
        count > 0,
    ensures
        part == part_of(seq, count),
{
    (seq.saturating_sub(1) as usize) % count
}

/// Sequence number of an otadata copy as it was read, or 0 if the read failed
/// or the sum does not check out.
pub fn read_seq(entry: Option<[u8; 32]>) -> (seq: u32)
    ensures
        seq == seq_of_read(entry),
{
    match entry {
        None => 0,
        Some(e) => {
            let seq: u32 = read_le32(&e, 0);
            let crc: u32 = read_le32(&e, 28);
            let guarded: [u8; 4] = to_le(seq);
            if crc32(guarded.as_slice(), 0xFFFF_FFFF) == crc {
                seq
            } else {
                0
            }
        },
    }
}

/// A write of `entry` at `address` that makes the new slot the one to boot.
pub struct BootRecord {
    pub address: u32,
    pub entry: [u8; 32],
}

/// An update in progress into the slot that is not running.
pub struct OtaSession {
    pub layout: Layout,
    /// Sequence in the first otadata copy, 0 if it holds none.
    pub seq0: u32,
    /// Sequence in the second otadata copy, 0 if it holds none.
    pub seq1: u32,
    pub target: usize,
    pub slot_off: u32,
    /// Length of the image.
    pub size: u32,
    /// Bytes of the image that were written.
    pub written: u32,
    /// The CRC-32 that was advertised for the image.
    pub target_crc: u32,
    /// The CRC-32 of what was written.
    pub run_crc: u32,
    /// What was written.
    pub stream: Ghost<Seq<u8>>,
}

/// A session for an image of `size` bytes, before anything is written.
pub open spec fn fresh_session(
    layout: Layout,
    copy0: Option<[u8; 32]>,
    copy1: Option<[u8; 32]>,
    size: u32,
    crc: u32,
) -> OtaSession {
    let seq0 = seq_of_read(copy0);
    let seq1 = seq_of_read(copy1);
    let target = (running_part(seq0, seq1, 2) + 1) % 2;
    OtaSession {
        layout,
        seq0,
        seq1,
        target: target as usize,
        slot_off: layout.ota[target].0,
        size,
        written: 0,
        target_crc: crc,
        run_crc: 0,
        stream: Ghost(Seq::empty()),
    }
}

impl OtaSession {
    /// The image fits the target slot, and length and sum are those of what
    /// was written.
    pub open spec fn wf(self) -> bool {
        &&& self.layout.complete()
        &&& self.target < self.layout.count
        &&& self.slot_off == self.layout.ota[self.target as int].0
        &&& self.written <= self.size <= self.layout.ota[self.target as int].1
        &&& self.stream@.len() == self.written
        &&& self.run_crc == crc32_of(self.stream@, 0)
    }

    /// The image is no larger than the target slot.
    pub open spec fn fits(self) -> bool {
        self.size <= self.layout.ota[self.target as int].1
    }

    /// Why the update is not made the one to boot, given what the slot read
    /// back as; nothing if it is.
    pub open spec fn refusal(self, read_back: Result<u32, OtaError>) -> Option<OtaError> {
        if self.run_crc != self.target_crc {
            Some(OtaError::Crc)
        } else {
            match read_back {
                Err(failure) => Some(failure),
                Ok(crc) => if crc == self.target_crc {
                    None
                } else {
                    Some(OtaError::Crc)
                },
            }
        }
    }

    /// Address of the otadata copy that the boot record replaces.
    pub open spec fn record_address(self) -> u32 {
        self.layout.copy_address(self.seq0 > self.seq1)
    }

    /// How much of a chunk of `len` bytes belongs to the image.
    pub open spec fn accepted(self, len: int) -> int {
        if len < self.size - self.written {
            len
        } else {
            self.size - self.written
        }
    }

    /// All of the image was written.
    pub open spec fn is_full(self) -> bool {
        self.written == self.size
    }

    /// Address of the next byte of the image.
    pub open spec fn store_address(self) -> u32 {
        self.slot_off.wrapping_add(self.written)
    }

    /// The session once the flash took a chunk.
    pub open spec fn after_chunk(self, chunk: Seq<u8>) -> OtaSession {
        let part = chunk.take(self.accepted(chunk.len() as int));
        OtaSession {
            written: (self.written + part.len()) as u32,
            run_crc: crc32_of(part, self.run_crc),
            stream: Ghost(self.stream@ + part),
            ..self
        }
    }

    /// A session for an image of `size` bytes whose CRC-32 is `crc`. Takes the
    /// slot that the boot loader is not running. `copy0` and `copy1` are the
    /// otadata copies, `None` where a read failed.
    pub fn begin(
        layout: Layout,
        copy0: Option<[u8; 32]>,
        copy1: Option<[u8; 32]>,
        size: u32,
        crc: u32,
    ) -> (session: Result<Self, OtaError>)
        requires
            layout.complete(),
        ensures
            ({
                let seq0 = seq_of_read(copy0);
                let seq1 = seq_of_read(copy1);
                let target = (running_part(seq0, seq1, layout.count) + 1) % (layout.count as int);
                &&& session is Ok <==> size <= layout.ota[target].1
                &&& session matches Ok(s) ==> {
                    &&& s.wf()
                    &&& s.layout == layout
                    &&& s.seq0 == seq0
                    &&& s.seq1 == seq1
                    &&& s.target == target
                    &&& s.slot_off == layout.ota[target].0
                    &&& s.size == size
                    &&& s.written == 0
                    &&& s.target_crc == crc
                    &&& s.run_crc == 0
                    &&& s.stream@ == Seq::<u8>::empty()
                }
                &&& session matches Ok(s) ==> s == fresh_session(layout, copy0, copy1, size, crc)
                &&& session is Ok <==> fresh_session(layout, copy0, copy1, size, crc).fits()
                &&& session matches Err(e) ==> e == OtaError::TooBig
            }),
    {
        let seq0: u32 = read_seq(copy0);
        let seq1: u32 = read_seq(copy1);
        let highest: u32 = if seq0 >= seq1 {
            seq0
        } else {
            seq1
        };
        let current: usize = if highest == 0 {
            0
        } else {
            seq_to_part(highest, layout.count)
        };
        let target: usize = (current + 1) % layout.count;
        let (slot_off, slot_size) = layout.ota[target];
        if size > slot_size {
            return Err(OtaError::TooBig);
        }
        proof {
            lemma_crc32_of_nothing();
        }
        Ok(
            OtaSession {
                layout,
                seq0,
                seq1,
                target,
                slot_off,
                size,
                written: 0,
                target_crc: crc,
                run_crc: 0,
                stream: Ghost(Seq::empty()),
            },
        )
    }

    /// Where the next chunk goes and how many of its bytes are written there;
    /// `None` if nothing is left to write.
    pub fn next_write(&self, chunk: &[u8]) -> (place: Option<(u32, usize)>)
        requires
            self.wf(),
        ensures
            match place {
                None => self.accepted(chunk@.len() as int) == 0,
                Some((address, len)) => {
                    &&& len == self.accepted(chunk@.len() as int)
                    &&& len > 0
                    &&& address == self.slot_off.wrapping_add(self.written)
                    &&& address == self.store_address()
                },
            },
    {
        let remaining: usize = (self.size - self.written) as usize;
        let n: usize = if chunk.len() < remaining {
            chunk.len()
        } else {
            remaining
        };
        if n == 0 {
            return None;
        }
        Some((self.slot_off.wrapping_add(self.written), n))
    }

    /// Take in the next chunk. `stored` says whether the flash took the write
    /// that [`OtaSession::next_write`] asks for. Returns `Ok(true)` once the
    /// whole image has been written.
    pub fn write(&mut self, chunk: &[u8], stored: bool) -> (complete: Result<bool, OtaError>)
        requires
            old(self).wf(),
        ensures
            final(self).wf(),
            ({
                let n = old(self).accepted(chunk@.len() as int);
                if n == 0 {
                    &&& complete == Ok::<bool, OtaError>(old(self).written == old(self).size)
                    &&& *final(self) == *old(self)
                } else if !stored {
                    complete == Err::<bool, OtaError>(OtaError::Flash) && *final(self) == *old(self)
                } else {
                    &&& complete == Ok::<bool, OtaError>(old(self).written + n == old(self).size)
                    &&& *final(self) == (OtaSession {
                        written: (old(self).written + n) as u32,
                        run_crc: crc32_of(chunk@.take(n), old(self).run_crc),
                        stream: Ghost(old(self).stream@ + chunk@.take(n)),
                        ..*old(self)
                    })
                    &&& *final(self) == old(self).after_chunk(chunk@)
                }
            }),
            complete matches Ok(whole) ==> whole == old(self).after_chunk(chunk@).is_full(),
            complete is Err <==> !stored && !old(self).is_full() && chunk@.len() > 0,
    {
        let n: usize = match self.next_write(chunk) {
            None => {
                return Ok(self.written >= self.size);
            },
            Some((_, n)) => n,
        };
        if !stored {
            return Err(OtaError::Flash);
        }
        let part: &[u8] = vstd::slice::slice_subrange(chunk, 0, n);
        assert(part@ =~= chunk@.take(n as int));
        proof {
            law_crc32_streams(self.stream@, part@, 0);
        }
        self.run_crc = crc32(part, self.run_crc);
        self.written = self.written + n as u32;
        self.stream = Ghost(self.stream@ + part@);
        Ok(self.written >= self.size)
    }

    /// Whether the sum of what was written is the one that was advertised.
    pub fn stream_matches(&self) -> (matches: bool)
        ensures
            matches == (self.run_crc == self.target_crc),
    {
        self.run_crc == self.target_crc
    }

    /// Start to read the slot back.
    pub fn verify(&self) -> (read_back: ReadBack)
        ensures
            read_back.wf(),
            read_back.follows(*self),
            read_back.seen@ == Seq::<u8>::empty(),
            read_back.rem == self.size,
    {
        proof {
            lemma_crc32_of_nothing();
        }
        ReadBack { off: self.slot_off, rem: self.size, crc: 0, seen: Ghost(Seq::empty()) }
    }

    /// The number that the new boot record carries: the first one after the
    /// highest known that is not zero and stands for the target slot.
    pub open spec fn next_seq(self, seq: u32) -> bool {
        exists|k: int| #[trigger] self.nth_is_first(k) && seq == self.nth_after(k)
    }

    /// The `k`-th number after the highest known, in the cycle of 32 bits.
    pub open spec fn nth_after(self, k: int) -> u32 {
        ((if self.seq0 >= self.seq1 { self.seq0 } else { self.seq1 } + k) % 0x1_0000_0000) as u32
    }

    pub open spec fn eligible(self, seq: u32) -> bool {
        seq != 0 && part_of(seq, self.layout.count) == self.target
    }

    pub open spec fn nth_is_first(self, k: int) -> bool {
        &&& k >= 1
        &&& self.eligible(self.nth_after(k))
        &&& forall|j: int| 1 <= j < k ==> !self.eligible(#[trigger] self.nth_after(j))
    }

    /// One of any four numbers in a row stands for the target slot, whether or
    /// not they pass through zero.
    proof fn lemma_one_in_four(self)
        requires
            self.wf(),
        ensures
            exists|k: int| 1 <= k <= 4 && self.eligible(#[trigger] self.nth_after(k)),
    {
        let highest: int = if self.seq0 >= self.seq1 {
            self.seq0 as int
        } else {
            self.seq1 as int
        };
        if highest < 0xFFFF_FFFE {
            assert(self.eligible(self.nth_after(1)) || self.eligible(self.nth_after(2)));
        } else if highest == 0xFFFF_FFFE {
            assert(self.eligible(self.nth_after(1)) || self.eligible(self.nth_after(4)));
        } else {
            assert(self.eligible(self.nth_after(2)) || self.eligible(self.nth_after(3)));
        }
    }

    fn new_seq(&self) -> (seq: u32)
        requires
            self.wf(),
        ensures
            self.next_seq(seq),
    {
        let mut seq: u32 = if self.seq0 >= self.seq1 {
            self.seq0
        } else {
            self.seq1
        };
        let ghost highest = seq;
        let ghost mut k: int = 0;
        loop
            invariant_except_break
                self.wf(),
                highest == (if self.seq0 >= self.seq1 {
                    self.seq0
                } else {
                    self.seq1
                }),
                0 <= k < 4,
                seq == (highest + k) % 0x1_0000_0000,
                forall|j: int| 1 <= j <= k ==> !self.eligible(#[trigger] self.nth_after(j)),
            ensures
                self.next_seq(seq),
            decreases 4 - k,
        {
            seq = seq.wrapping_add(1);
            proof {
                k = k + 1;
                assert(seq == self.nth_after(k));
            }
            if seq != 0 && seq_to_part(seq, self.layout.count) == self.target {
                assert(self.nth_is_first(k));
                break;
            }
            proof {
                if k == 4 {
                    self.lemma_one_in_four();
                    assert(!self.eligible(self.nth_after(4)));
                    assert(false);
                }
            }
        }
        seq
    }

    /// Decide on the update once the slot was read back, `read_back` being the
    /// CRC-32 of the slot. If both sums are the advertised one, gives the write
    /// that makes the new slot the one to boot: it goes to the copy with the
    /// lower sequence.
    pub fn finish(&self, read_back: Result<u32, OtaError>) -> (record: Result<BootRecord, OtaError>)
        requires
            self.wf(),
        ensures
            record is Ok <==> {
                &&& self.run_crc == self.target_crc
                &&& read_back == Ok::<u32, OtaError>(self.target_crc)
            },
            record matches Err(e) ==> e == (if self.run_crc != self.target_crc {
                OtaError::Crc
            } else {
                match read_back {
                    Err(failure) => failure,
                    Ok(_) => OtaError::Crc,
                }
            }),
            match self.refusal(read_back) {
                None => record is Ok,
                Some(e) => record == Err::<BootRecord, OtaError>(e),
            },
            record matches Ok(r) ==> {
                &&& r.address == self.layout.copy_address(self.seq0 > self.seq1)
                &&& r.address == self.record_address()
                &&& exists|seq: u32| #[trigger]
                    self.next_seq(seq) && r.entry@ == boot_entry(seq)
            },
    {
        if self.run_crc != self.target_crc {
            return Err(OtaError::Crc);
        }
        match read_back {
            Err(e) => {
                return Err(e);
            },
            Ok(crc) => if crc != self.target_crc {
                return Err(OtaError::Crc);
            },
        }
        let seq: u32 = self.new_seq();
        let number: [u8; 4] = to_le(seq);
        let sum: [u8; 4] = to_le(crc32(number.as_slice(), 0xFFFF_FFFF));
        let mut entry: [u8; 32] = [0xFF;32];
        entry[0] = number[0];
        entry[1] = number[1];
        entry[2] = number[2];
        entry[3] = number[3];
        entry[28] = sum[0];
        entry[29] = sum[1];
        entry[30] = sum[2];
        entry[31] = sum[3];
        assert(entry@ =~= boot_entry(seq));
        Ok(BootRecord { address: self.layout.copy_offset(self.seq0 > self.seq1), entry })
    }
}

/// The slot being read back, in pieces of at most [`READ_BACK`] bytes.
pub struct ReadBack {
    /// Address of the next piece.
    pub off: u32,
    /// Bytes that are left to read.
    pub rem: u32,
    /// CRC-32 of what was read.
    pub crc: u32,
    /// What was read.
    pub seen: Ghost<Seq<u8>>,
}

impl ReadBack {
    /// The sum is that of what was read.
    pub open spec fn wf(self) -> bool {
        self.crc == crc32_of(self.seen@, 0)
    }

    /// What was read and what is left make up the image of `session`, and the
    /// next read goes on where the last one ended.
    pub open spec fn follows(self, session: OtaSession) -> bool {
        &&& self.seen@.len() + self.rem == session.size
        &&& self.off == (session.slot_off + self.seen@.len()) % 0x1_0000_0000
    }

    /// Length of the next piece.
    pub open spec fn piece(self) -> int {
        if self.rem < READ_BACK {
            self.rem as int
        } else {
            READ_BACK as int
        }
    }

    /// The next read, none once the image is through.
    pub open spec fn next_read(self) -> Option<(u32, int)> {
        if self.rem > 0 {
            Some((self.off, self.piece()))
        } else {
            None
        }
    }

    /// Address and length of the next read; `None` once the image is through.
    pub fn next(&self) -> (read: Option<(u32, usize)>)
        ensures
            match read {
                None => self.rem == 0,
                Some((address, len)) => self.rem > 0 && address == self.off && len == self.piece(),
            },
            match read {
                None => self.next_read() is None,
                Some((address, len)) => self.next_read() == Some((address, len as int)),
            },
    {
        if self.rem == 0 {
            return None;
        }
        let n: usize = if (self.rem as usize) < READ_BACK {
            self.rem as usize
        } else {
            READ_BACK
        };
        Some((self.off, n))
    }

    /// Take in the piece that was asked for.
    pub fn feed(&mut self, piece: &[u8])
        requires
            old(self).wf(),
            piece@.len() == old(self).piece(),
        ensures
            final(self).wf(),
            final(self).seen@ == old(self).seen@ + piece@,
            final(self).rem == old(self).rem - piece@.len(),
            final(self).off == old(self).off.wrapping_add(piece@.len() as u32),
            final(self).crc == crc32_of(piece@, old(self).crc),
            forall|session: OtaSession| #[trigger]
                old(self).follows(session) ==> final(self).follows(session),
    {
        proof {
            law_crc32_streams(self.seen@, piece@, 0);
        }
        self.crc = crc32(piece, self.crc);
        self.off = self.off.wrapping_add(piece.len() as u32);
        self.rem = self.rem - piece.len() as u32;
        self.seen = Ghost(self.seen@ + piece@);
    }
}

proof fn lemma_le_round_trip(x: u32, bytes: Seq<u8>, at: int)
    requires
        0 <= at,
        at + 4 <= bytes.len(),
        bytes.subrange(at, at + 4) == le_bytes(x),
    ensures
        le32(bytes, at) == x,
{
    let le = le_bytes(x);
    assert(bytes[at] == bytes.subrange(at, at + 4)[0]);
    assert(bytes[at + 1] == bytes.subrange(at, at + 4)[1]);
    assert(bytes[at + 2] == bytes.subrange(at, at + 4)[2]);
    assert(bytes[at + 3] == bytes.subrange(at, at + 4)[3]);
}

/// A boot record reads back as the sequence that it was made for.
pub proof fn law_boot_entry_reads_back(seq: u32)
    ensures
        boot_entry(seq).len() == ENTRY,
        copy_seq(boot_entry(seq)) == seq,
{
    let entry = boot_entry(seq);
    assert(entry.subrange(0, 4) =~= le_bytes(seq));
    assert(entry.subrange(28, 32) =~= le_bytes(seq_sum(seq)));
    lemma_le_round_trip(seq, entry, 0);
    lemma_le_round_trip(seq_sum(seq), entry, 28);
}

/// An erased otadata copy holds no sequence.
pub proof fn law_erased_copy_holds_none(entry: Seq<u8>)
    requires
        entry.len() == ENTRY,
        blank_row(entry),
    ensures
        copy_seq(entry) == 0,
{
    let seq = 0xFFFF_FFFFu32;
    assert(le32(entry, 0) == seq);
    assert(le32(entry, 28) == seq);
    let bytes = le_bytes(seq);
    assert(bytes =~= seq![0xFFu8, 0xFFu8, 0xFFu8, 0xFFu8]);
    assert(bytes.drop_last() =~= seq![0xFFu8, 0xFFu8, 0xFFu8]);
    assert(bytes.drop_last().drop_last() =~= seq![0xFFu8, 0xFFu8]);
    assert(bytes.drop_last().drop_last().drop_last() =~= seq![0xFFu8]);
    assert(bytes.drop_last().drop_last().drop_last().drop_last() =~= Seq::<u8>::empty());
    reveal_with_fuel(crate::crc::crc_register, 5);
    assert({
        &&& !0xFFFF_FFFFu32 == 0u32
        &&& crc_shift8(0u32 ^ 0xFFu32) == 0x2d02_ef8du32
        &&& crc_shift8(0x2d02_ef8du32 ^ 0xFFu32) == 0xbe26_12ffu32
        &&& crc_shift8(0xbe26_12ffu32 ^ 0xFFu32) == 0x00be_2612u32
        &&& crc_shift8(0x00be_2612u32 ^ 0xFFu32) == 0xdebb_20e3u32
        &&& !0xdebb_20e3u32 != 0xFFFF_FFFFu32
    }) by (bit_vector);
}

/// `flash` after `bytes` were written from `address` on.
pub open spec fn flash_with(flash: Seq<u8>, address: int, bytes: Seq<u8>) -> Seq<u8> {
    Seq::new(
        flash.len(),
        |i: int|
            if address <= i < address + bytes.len() {
                bytes[i - address]
            } else {
                flash[i]
            },
    )
}

/// The sequence that one otadata copy on the flash holds.
pub open spec fn seq_on_flash(flash: Seq<u8>, layout: Layout, second: bool) -> u32 {
    let address = layout.copy_address(second) as int;
    copy_seq(flash.subrange(address, address + ENTRY))
}

/// The slot that the boot loader would run from `flash`.
pub open spec fn boots(flash: Seq<u8>, layout: Layout) -> int {
    running_part(
        seq_on_flash(flash, layout, false),
        seq_on_flash(flash, layout, true),
        layout.count,
    )
}

/// The otadata partition lies on the flash and its halves hold a copy each.
pub open spec fn copies_apart(flash: Seq<u8>, layout: Layout) -> bool {
    &&& layout.otadata_size / 2 >= ENTRY
    &&& layout.otadata_off + layout.otadata_size <= flash.len()
    &&& flash.len() <= 0x1_0000_0000
}

/// With the otadata partition erased, the first slot is the one to boot.
pub proof fn law_erased_otadata_boots_the_first_slot(flash: Seq<u8>, layout: Layout)
    requires
        copies_apart(flash, layout),
        forall|i: int|
            layout.otadata_off <= i < layout.otadata_off + layout.otadata_size ==> flash[i]
                == 0xFF,
    ensures
        boots(flash, layout) == 0,
{
    let first = layout.copy_address(false) as int;
    let second = layout.copy_address(true) as int;
    law_erased_copy_holds_none(flash.subrange(first, first + ENTRY));
    law_erased_copy_holds_none(flash.subrange(second, second + ENTRY));
}

/// A session always takes the slot that is not running.
pub proof fn law_target_is_idle(session: OtaSession)
    requires
        session.layout.complete(),
        session.target == (running_part(session.seq0, session.seq1, session.layout.count) + 1)
            % (session.layout.count as int),
    ensures
        session.target != running_part(session.seq0, session.seq1, session.layout.count),
{
}

proof fn lemma_next_is_higher(session: OtaSession, seq: u32)
    requires
        session.layout.count == 2,
        session.target == (running_part(session.seq0, session.seq1, 2) + 1) % 2,
        session.seq0 != 0xFFFF_FFFF,
        session.seq1 != 0xFFFF_FFFF,
        session.next_seq(seq),
    ensures
        seq > session.seq0,
        seq > session.seq1,
        part_of(seq, 2) == session.target,
{
    let highest: int = if session.seq0 >= session.seq1 {
        session.seq0 as int
    } else {
        session.seq1 as int
    };
    let k = choose|k: int| #[trigger] session.nth_is_first(k) && seq == session.nth_after(k);
    assert(session.nth_after(1) == highest + 1);
    if k > 1 {
        assert(!session.eligible(session.nth_after(1)));
        assert(session.nth_after(2) == highest + 2);
        if k > 2 {
            assert(!session.eligible(session.nth_after(2)));
        }
    }
}

/// The boot record of a finished session makes the boot loader take the new
/// slot, and not the one that was running. The highest 32-bit sequence has no
/// successor, so a flash that holds it is left out.
pub proof fn law_record_moves_the_boot(session: OtaSession, flash: Seq<u8>, seq: u32)
    requires
        session.wf(),
        copies_apart(flash, session.layout),
        session.seq0 == seq_on_flash(flash, session.layout, false),
        session.seq1 == seq_on_flash(flash, session.layout, true),
        session.target == (running_part(session.seq0, session.seq1, session.layout.count) + 1)
            % (session.layout.count as int),
        session.seq0 != 0xFFFF_FFFF,
        session.seq1 != 0xFFFF_FFFF,
        session.next_seq(seq),
    ensures
        ({
            let after = flash_with(flash, session.record_address() as int, boot_entry(seq));
            &&& boots(flash, session.layout) != session.target
            &&& boots(after, session.layout) == session.target
        }),
{
    let layout = session.layout;
    let high_first = session.seq0 > session.seq1;
    let address = layout.copy_address(high_first) as int;
    let other = layout.copy_address(!high_first) as int;
    let after = flash_with(flash, address, boot_entry(seq));
    law_boot_entry_reads_back(seq);
    assert(after.subrange(address, address + ENTRY) =~= boot_entry(seq));
    assert(after.subrange(other, other + ENTRY) =~= flash.subrange(other, other + ENTRY));
    lemma_next_is_higher(session, seq);
}

/// The boot sequences take the slots in turn: the first one stands for the
/// first slot, each further one for the slot after that of the one before, and
/// a sequence stands for slot `i` exactly if it leaves the remainder of `i + 1`.
pub proof fn law_sequences_take_the_slots_in_turn(seq: u32, count: usize, slot: int)
    requires
        seq >= 1,
        count > 0,
        0 <= slot < count,
    ensures
        part_of(1, count) == 0,
        0 <= part_of(seq, count) < count,
        seq < 0xFFFF_FFFF ==> part_of((seq + 1) as u32, count) == (part_of(seq, count) + 1) % (
        count as int),
        part_of(seq, count) == slot <==> (seq - (slot + 1)) % (count as int) == 0,
{
    let m = count as int;
    lemma_small_mod(0, m as nat);
    lemma_mod_bound(seq - 1, m);
    lemma_add_mod_noop(seq - 1, 1, m);
    lemma_mod_twice(seq - 1, m);
    lemma_add_mod_noop((seq - 1) % m, 1, m);
    lemma_sub_mod_noop(seq - 1, slot, m);
    lemma_small_mod(slot as nat, m as nat);
    let part = (seq - 1) % m;
    if part >= slot {
        lemma_small_mod((part - slot) as nat, m as nat);
    } else {
        lemma_mod_add_multiples_vanish(part - slot, m);
        lemma_small_mod((m + part - slot) as nat, m as nat);
    }
}

/// The board runs the slot of the higher of the two sequences, whichever copy
/// holds it, and the first slot if neither copy holds one.
pub proof fn law_highest_sequence_runs(seq0: u32, seq1: u32)
    ensures
        running_part(seq0, seq1, 2) == running_part(seq1, seq0, 2),
        running_part(0, 0, 2) == 0,
        seq0 > 0 && seq0 >= seq1 ==> (seq0 - 1 - running_part(seq0, seq1, 2)) % 2 == 0,
        seq1 > 0 && seq1 >= seq0 ==> (seq1 - 1 - running_part(seq0, seq1, 2)) % 2 == 0,
        running_part(seq0, seq1, 2) == 0 || running_part(seq0, seq1, 2) == 1,
{
}

/// The boot record carries the sequence right after the highest known one; on a
/// board that was never updated over the air, and after the highest 32-bit
/// sequence, which has no successor, it carries the second.
pub proof fn law_next_sequence_is_the_successor(session: OtaSession, seq: u32)
    requires
        session.layout.complete(),
        session.target == (running_part(session.seq0, session.seq1, 2) + 1) % 2,
        session.next_seq(seq),
    ensures
        session.seq0 == 0 && session.seq1 == 0 ==> seq == 2,
        0xFFFF_FFFF > session.seq0 > 0 && session.seq0 >= session.seq1 ==> seq == session.seq0 + 1,
        0xFFFF_FFFF > session.seq1 > 0 && session.seq1 >= session.seq0 ==> seq == session.seq1 + 1,
        session.seq0 == 0xFFFF_FFFF || session.seq1 == 0xFFFF_FFFF ==> seq == 2,
{
    let highest: int = if session.seq0 >= session.seq1 {
        session.seq0 as int
    } else {
        session.seq1 as int
    };
    let k = choose|k: int| #[trigger] session.nth_is_first(k) && seq == session.nth_after(k);
    if 0 < highest < 0xFFFF_FFFF {
        assert(session.nth_after(1) == highest + 1);
        assert(session.eligible(session.nth_after(1)));
    } else if highest == 0xFFFF_FFFF {
        assert(session.nth_after(1) == 0);
        assert(session.nth_after(2) == 1);
        assert(session.nth_after(3) == 2);
        assert(session.eligible(session.nth_after(3)));
        assert(!session.eligible(session.nth_after(2)));
        assert(!session.eligible(session.nth_after(1)));
    } else {
        assert(session.nth_after(1) == 1);
        assert(session.nth_after(2) == 2);
        assert(session.eligible(session.nth_after(2)));
        assert(!session.eligible(session.nth_after(1)));
    }
}

/// An otadata copy holds a sequence exactly if its first four bytes are that
/// sequence, lowest byte first, and its last four are the sum of the first
/// four, lowest byte first.
pub proof fn law_copy_holds_what_its_bytes_say(entry: Seq<u8>, seq: u32)
    requires
        entry.len() == 32,
        seq != 0,
    ensures
        copy_seq(entry) == seq <==> {
            let sum = crc32_of(entry.take(4), 0xFFFF_FFFF);
            &&& entry[0] + 0x100 * entry[1] + 0x1_0000 * entry[2] + 0x100_0000 * entry[3] == seq
            &&& entry[28] + 0x100 * entry[29] + 0x1_0000 * entry[30] + 0x100_0000 * entry[31] == sum
        },
{
    let number = le32(entry, 0);
    lemma_four_bytes(entry[0], entry[1], entry[2], entry[3]);
    lemma_four_bytes(entry[28], entry[29], entry[30], entry[31]);
    assert(entry.take(4) =~= le_bytes(number));
}

/// Four bytes and the number that they make up, lowest first.
proof fn lemma_four_bytes(a: u8, b: u8, c: u8, d: u8)
    ensures
        ({
            let sum = a + 0x100 * b + 0x1_0000 * c + 0x100_0000 * d;
            let number = sum as u32;
            &&& number == sum
            &&& number % 0x100 == a
            &&& number / 0x100 % 0x100 == b
            &&& number / 0x1_0000 % 0x100 == c
            &&& number / 0x100_0000 == d
        }),
{
}

/// The two otadata copies stand at the start and at the middle of their
/// partition.
pub proof fn law_copies_halve_the_partition(layout: Layout)
    requires
        layout.otadata_off + layout.otadata_size <= 0x1_0000_0000,
        layout.otadata_size > 0,
    ensures
        layout.copy_address(false) == layout.otadata_off,
        ({
            let first_half = layout.copy_address(true) - layout.copy_address(false);
            let second_half = layout.otadata_off + layout.otadata_size - layout.copy_address(true);
            second_half - 1 <= first_half <= second_half
        }),
{
}

/// A session takes the slot that is not running, whatever the copies hold, and
/// starts with nothing written.
pub proof fn law_session_takes_the_idle_slot(
    layout: Layout,
    copy0: Option<[u8; 32]>,
    copy1: Option<[u8; 32]>,
    size: u32,
    crc: u32,
)
    ensures
        ({
            let session = fresh_session(layout, copy0, copy1, size, crc);
            let running = running_part(seq_of_read(copy0), seq_of_read(copy1), 2);
            &&& session.target + running == 1
            &&& session.slot_off == layout.ota[session.target as int].0
            &&& session.size == size
            &&& session.target_crc == crc
            &&& session.written == 0
            &&& session.stream@.len() == 0
            &&& copy0 matches Some(bytes) ==> session.seq0 == copy_seq(bytes@)
            &&& copy1 matches Some(bytes) ==> session.seq1 == copy_seq(bytes@)
            &&& copy0 is None ==> session.seq0 == 0
            &&& copy1 is None ==> session.seq1 == 0
            &&& session.fits() <==> (running == 0 && size <= layout.ota[1].1) || (running == 1
                && size <= layout.ota[0].1)
        }),
{
}

/// However an image is cut into chunks, the session ends up the same: taking in
/// two chunks is taking in both as one.
pub proof fn law_chunks_make_one_stream(session: OtaSession, first: Seq<u8>, second: Seq<u8>)
    requires
        session.wf(),
    ensures
        session.after_chunk(first).after_chunk(second) == session.after_chunk(first + second),
{
    let a = session.accepted(first.len() as int);
    let b = session.after_chunk(first).accepted(second.len() as int);
    let whole = session.accepted((first + second).len() as int);
    assert(whole == a + b);
    assert((first + second).take(whole) =~= first.take(a) + second.take(b));
    law_crc32_streams(first.take(a), second.take(b), session.run_crc);
    assert(session.stream@ + (first.take(a) + second.take(b)) =~= (session.stream@ + first.take(a))
        + second.take(b));
}

/// Of what comes in, a session keeps everything up to the length of the image
/// and nothing beyond it, with the sum of what it keeps. The next byte goes
/// right behind what was kept.
pub proof fn law_session_keeps_the_image(session: OtaSession, chunk: Seq<u8>)
    requires
        session.wf(),
    ensures
        ({
            let after = session.after_chunk(chunk);
            let fed = session.stream@ + chunk;
            let kept = if fed.len() < session.size {
                fed.len() as int
            } else {
                session.size as int
            };
            &&& after.stream@ == fed.take(kept)
            &&& after.written == kept
            &&& after.is_full() <==> fed.len() >= session.size
            &&& after.run_crc == crc32_of(fed.take(kept), 0)
            &&& after.size == session.size
            &&& after.slot_off == session.slot_off
            &&& after.target_crc == session.target_crc
            &&& session.slot_off + session.size <= 0xFFFF_FFFF ==> after.store_address()
                == session.slot_off + kept
        }),
{
    let n = session.accepted(chunk.len() as int);
    law_crc32_streams(session.stream@, chunk.take(n), 0);
    assert((session.stream@ + chunk).take(session.written + n) =~= session.stream@ + chunk.take(n));
}

/// An update becomes the one to boot exactly if both what was streamed and what
/// the slot read back as have the advertised sum. Otherwise it fails for the
/// sum, unless the stream was sound and the slot could not be read: then it
/// fails for that.
pub proof fn law_both_sums_must_match(session: OtaSession, read_back: Result<u32, OtaError>)
    ensures
        session.refusal(read_back) is None <==> session.run_crc == session.target_crc
            && read_back is Ok && read_back.unwrap() == session.target_crc,
        read_back is Ok && session.refusal(read_back) is Some ==> session.refusal(read_back)
            == Some(OtaError::Crc),
        session.run_crc != session.target_crc ==> session.refusal(read_back) == Some(OtaError::Crc),
        session.run_crc == session.target_crc && read_back is Err ==> session.refusal(read_back)
            == Some(read_back->Err_0),
{
}

/// The boot record replaces the copy with the lower sequence, the first one if
/// they are alike: the copy that is booted from stays until the new one is in.
pub proof fn law_record_spares_the_higher_copy(session: OtaSession)
    requires
        session.layout.otadata_off + session.layout.otadata_size <= 0xFFFF_FFFF,
    ensures
        session.seq0 <= session.seq1 ==> session.record_address() == session.layout.otadata_off,
        session.seq0 > session.seq1 ==> session.record_address() == session.layout.otadata_off
            + session.layout.otadata_size / 2,
{
}

/// Reading back starts at the slot and goes on where the last piece ended, in
/// pieces that cover all that is left, 256 bytes at most at a time.
pub proof fn law_read_back_walks_the_slot(read_back: ReadBack, session: OtaSession)
    requires
        read_back.follows(session),
        session.slot_off + session.size <= 0xFFFF_FFFF,
    ensures
        read_back.off == session.slot_off + read_back.seen@.len(),
        read_back.rem == session.size - read_back.seen@.len(),
        read_back.rem > 0 ==> 0 < read_back.piece() <= read_back.rem,
        read_back.piece() == read_back.rem || read_back.piece() == 256,
        read_back.piece() <= 256,
        read_back.rem == 0 <==> read_back.next_read() is None,
        read_back.next_read() matches Some(read) ==> read.0 == session.slot_off
            + read_back.seen@.len() && read.1 == read_back.piece(),
{
}

/// The rows that count are those in front of the first that could not be read
/// or is all ones, and no more than 96.
pub proof fn law_rows_count_up_to_the_first_blank(table: Seq<Option<[u8; 32]>>, i: int)
    requires
        0 <= i < table.len(),
    ensures
        i < live_rows(table).len() <==> i < 96 && forall|j: int|
            0 <= j <= i ==> (#[trigger] table[j]) is Some && exists|k: int|
                0 <= k < 32 && (#[trigger] table[j].unwrap()@[k]) != 0xFF,
        i < live_rows(table).len() ==> live_rows(table)[i] == table[i].unwrap()@,
{
    let window = table.take(if table.len() < PT_ROWS { table.len() as int } else { PT_ROWS as int });
    if i < window.len() {
        lemma_live_prefix(window, i);
        assert(window[i] == table[i]);
        if i < live_rows(table).len() {
            assert forall|j: int| 0 <= j <= i implies (#[trigger] table[j]) is Some && exists|k: int|
                0 <= k < 32 && (#[trigger] table[j].unwrap()@[k]) != 0xFF by {
                assert(window[j] == table[j]);
                let row = table[j].unwrap()@;
                assert(!blank_row(row));
                let k = choose|k: int| 0 <= k < ENTRY && row[k] != 0xFF;
                assert(table[j].unwrap()@[k] != 0xFF);
            }
        } else {
            let j = choose|j: int|
                0 <= j <= i && ((#[trigger] window[j]) is None || blank_row(window[j].unwrap()@));
            assert(table[j] == window[j]);
        }
    } else {
        lemma_live_len(window);
    }
}

proof fn lemma_live_len(table: Seq<Option<[u8; 32]>>)
    ensures
        live_prefix(table).len() <= table.len(),
    decreases table.len(),
{
    if table.len() > 0 {
        lemma_live_len(table.drop_first());
    }
}

proof fn lemma_live_prefix(table: Seq<Option<[u8; 32]>>, i: int)
    requires
        0 <= i < table.len(),
    ensures
        i < live_prefix(table).len() ==> {
            &&& live_prefix(table)[i] == table[i].unwrap()@
            &&& forall|j: int|
                0 <= j <= i ==> (#[trigger] table[j]) is Some && !blank_row(table[j].unwrap()@)
        },
        i >= live_prefix(table).len() ==> exists|j: int|
            0 <= j <= i && ((#[trigger] table[j]) is None || blank_row(table[j].unwrap()@)),
    decreases table.len(),
{
    let rest = table.drop_first();
    if table[0] is Some && !blank_row(table[0].unwrap()@) && i > 0 {
        lemma_live_prefix(rest, i - 1);
        let live = live_prefix(table);
        assert(live == seq![table[0].unwrap()@] + live_prefix(rest));
        if i < live.len() {
            assert(live[i] == live_prefix(rest)[i - 1]);
            assert forall|j: int| 0 <= j <= i implies (#[trigger] table[j]) is Some && !blank_row(
                table[j].unwrap()@,
            ) by {
                if j > 0 {
                    assert(rest[j - 1] == table[j]);
                }
            }
        } else {
            let j = choose|j: int|
                0 <= j <= i - 1 && ((#[trigger] rest[j]) is None || blank_row(rest[j].unwrap()@));
            assert(table[j + 1] == rest[j]);
        }
    } else if table[0] is Some && !blank_row(table[0].unwrap()@) {
        assert(live_prefix(table)[0] == table[0].unwrap()@);
    } else {
        assert(table[0] is None || blank_row(table[0].unwrap()@));
    }
}

/// A row that names an app slot: its marks, the type of an app and the number of
/// the slot.
pub open spec fn names_slot(row: Seq<u8>, slot: int) -> bool {
    row[0] == 0xAA && row[1] == 0x50 && row[2] == 0x00 && row[3] == 0x10 + slot
}

/// A row that names the otadata partition.
pub open spec fn names_otadata(row: Seq<u8>) -> bool {
    row[0] == 0xAA && row[1] == 0x50 && row[2] == 0x01 && row[3] == 0x00
}

/// The four bytes of `row` from `at` on, lowest first.
pub open spec fn four_bytes(row: Seq<u8>, at: int) -> int {
    row[at] + 0x100 * row[at + 1] + 0x1_0000 * row[at + 2] + 0x100_0000 * row[at + 3]
}

/// The last row that names a slot gives its offset and size; without such a row
/// the slot is not there.
pub proof fn law_last_row_gives_the_slot(rows: Seq<Seq<u8>>, slot: int, i: int)
    requires
        slot == 0 || slot == 1,
    ensures
        0 <= i < rows.len() && names_slot(rows[i], slot) && (forall|j: int|
            i < j < rows.len() ==> !names_slot(#[trigger] rows[j], slot)) ==> {
            &&& slot_extent(rows, slot) is Some
            &&& slot_extent(rows, slot).unwrap().0 == four_bytes(rows[i], 4)
            &&& slot_extent(rows, slot).unwrap().1 == four_bytes(rows[i], 8)
        },
        (forall|j: int| 0 <= j < rows.len() ==> !names_slot(#[trigger] rows[j], slot))
            ==> slot_extent(rows, slot) is None,
    decreases rows.len(),
{
    if rows.len() > 0 {
        let before = rows.drop_last();
        law_last_row_gives_the_slot(before, slot, i);
        if forall|j: int| 0 <= j < rows.len() ==> !names_slot(#[trigger] rows[j], slot) {
            assert(!names_slot(rows[rows.len() - 1], slot));
            assert forall|j: int| 0 <= j < before.len() implies !names_slot(
                #[trigger] before[j],
                slot,
            ) by {
                assert(before[j] == rows[j]);
            }
        }
        if 0 <= i < before.len() && names_slot(rows[i], slot) && (forall|j: int|
            i < j < rows.len() ==> !names_slot(#[trigger] rows[j], slot)) {
            assert(!names_slot(rows[rows.len() - 1], slot));
            assert forall|j: int| i < j < before.len() implies !names_slot(
                #[trigger] before[j],
                slot,
            ) by {
                assert(before[j] == rows[j]);
            }
        }
    }
}

/// The last row that names the otadata partition gives its offset and size;
/// without such a row it is not there.
pub proof fn law_last_row_gives_the_otadata(rows: Seq<Seq<u8>>, i: int)
    ensures
        0 <= i < rows.len() && names_otadata(rows[i]) && (forall|j: int|
            i < j < rows.len() ==> !names_otadata(#[trigger] rows[j])) ==> {
            &&& otadata_extent(rows) is Some
            &&& otadata_extent(rows).unwrap().0 == four_bytes(rows[i], 4)
            &&& otadata_extent(rows).unwrap().1 == four_bytes(rows[i], 8)
        },
        (forall|j: int| 0 <= j < rows.len() ==> !names_otadata(#[trigger] rows[j]))
            ==> otadata_extent(rows) is None,
    decreases rows.len(),
{
    if rows.len() > 0 {
        let before = rows.drop_last();
        law_last_row_gives_the_otadata(before, i);
        if forall|j: int| 0 <= j < rows.len() ==> !names_otadata(#[trigger] rows[j]) {
            assert(!names_otadata(rows[rows.len() - 1]));
            assert forall|j: int| 0 <= j < before.len() implies !names_otadata(
                #[trigger] before[j],
            ) by {
                assert(before[j] == rows[j]);
            }
        }
        if 0 <= i < before.len() && names_otadata(rows[i]) && (forall|j: int|
            i < j < rows.len() ==> !names_otadata(#[trigger] rows[j])) {
            assert(!names_otadata(rows[rows.len() - 1]));
            assert forall|j: int| i < j < before.len() implies !names_otadata(
                #[trigger] before[j],
            ) by {
                assert(before[j] == rows[j]);
            }
        }
    }
}

/// A layout that describes rows with both slots and an otadata partition holds
/// their extents, each in its place.
pub proof fn law_layout_holds_the_extents(rows: Seq<Seq<u8>>, layout: Layout)
    requires
        describes(rows, layout),
        slot_extent(rows, 0) is Some,
        slot_extent(rows, 1) is Some,
        otadata_extent(rows) is Some,
    ensures
        layout.ota[0] == slot_extent(rows, 0).unwrap(),
        layout.ota[1] == slot_extent(rows, 1).unwrap(),
        (layout.otadata_off, layout.otadata_size) == otadata_extent(rows).unwrap(),
        layout.count == 2,
{
    assert(layout.ota@[0] == slot_extent(rows, 0).unwrap());
    assert(layout.ota@[1] == slot_extent(rows, 1).unwrap());
}

/// The rows of the table follow each other from 0x8000 on, 32 bytes each.
pub proof fn law_rows_follow_each_other(i: int)
    ensures
        row_at(0) == 0x8000,
        row_at(i + 1) == row_at(i) + 32,
{
}

/// A boot record is 32 bytes: the sequence, lowest byte first, 24 bytes of ones,
/// and the sum of the first four bytes, lowest byte first.
pub proof fn law_boot_entry_bytes(seq: u32, i: int)
    requires
        4 <= i < 28,
    ensures
        boot_entry(seq).len() == 32,
        four_bytes(boot_entry(seq), 0) == seq,
        boot_entry(seq)[i] == 0xFF,
        four_bytes(boot_entry(seq), 28) == crc32_of(boot_entry(seq).take(4), 0xFFFF_FFFF),
{
    let entry = boot_entry(seq);
    assert(entry.subrange(0, 4) =~= le_bytes(seq));
    assert(entry.subrange(28, 32) =~= le_bytes(seq_sum(seq)));
    assert(entry.take(4) =~= le_bytes(seq));
    lemma_le_round_trip(seq, entry, 0);
    lemma_le_round_trip(seq_sum(seq), entry, 28);
    lemma_four_bytes(entry[0], entry[1], entry[2], entry[3]);
    lemma_four_bytes(entry[28], entry[29], entry[30], entry[31]);
}

} // verus!
