//! Upload of a firmware image: the course of `POST /api/ota`.
//!
//! The image comes in over a connection in pieces of any length and is gathered
//! into whole flash sectors, so that each is erased and written once. Once all
//! of it is stored, the slot is read back, and only if its sum is the one that
//! was advertised is the boot record written.
//!
//! The caller does what [`OtaUpload::step`] asks for and hands the outcome to
//! the matching `on_` function. An outcome that was not asked for changes
//! nothing.

use vstd::prelude::*;
use vstd::slice::slice_subrange;

use crate::crc::{crc32_of, law_crc32_streams};
use crate::ota::{
    boot_entry, boots, copies_apart, describes, flash_with, fresh_session,
    law_record_moves_the_boot, live_rows, or_zero, otadata_extent, read_layout, running_part,
    seq_of_read, seq_on_flash, slot_extent, BootRecord, Layout, OtaError, OtaSession, ReadBack,
    ENTRY, PT_ROWS, SECTOR,
};

verus! {

/// How an upload ended.
#[derive(Debug, Clone, Copy, PartialEq, Eq, Structural)]
pub enum Verdict {
    /// The new image is the one to boot.
    Committed,
    /// The request did not say how long the image is.
    MissingLength,
    /// The client closed the connection early.
    Short,
    /// The connection broke: there is nobody to answer.
    Dropped,
    Failed(OtaError),
}

/// The message of an error.
pub open spec fn failure_text(error: OtaError) -> Seq<char> {
    match error {
        OtaError::NoOtaPartitions => "no OTA partitions"@,
        OtaError::TooBig => "image too big for slot"@,
        OtaError::Flash => "flash error"@,
        OtaError::Crc => "CRC mismatch"@,
    }
}

/// The message that answers an upload, none where nobody is left to read it.
pub open spec fn verdict_text(verdict: Verdict) -> Option<Seq<char>> {
    match verdict {
        Verdict::Committed => Some("OK - rebooting into new firmware"@),
        Verdict::MissingLength => Some("missing Content-Length"@),
        Verdict::Short => Some("short upload"@),
        Verdict::Dropped => None,
        Verdict::Failed(error) => Some(failure_text(error)),
    }
}

/// The board boots the new image after this verdict.
pub open spec fn boots_anew(verdict: Verdict) -> bool {
    verdict == Verdict::Committed
}

impl Verdict {
    /// The message for the client.
    pub fn message(self) -> (text: Option<&'static str>)
        ensures
            match text {
                Some(message) => verdict_text(self) == Some(message@),
                None => verdict_text(self) is None,
            },
    {
        match self {
            Verdict::Committed => Some("OK - rebooting into new firmware"),
            Verdict::MissingLength => Some("missing Content-Length"),
            Verdict::Short => Some("short upload"),
            Verdict::Dropped => None,
            Verdict::Failed(error) => Some(error.as_str()),
        }
    }

    /// Whether the board is to boot the new image.
    pub fn reboots(self) -> (reboot: bool)
        ensures
            reboot == (self == Verdict::Committed),
            reboot == boots_anew(self),
    {
        match self {
            Verdict::Committed => true,
            _ => false,
        }
    }
}

/// Where an upload stands.
pub enum UploadState {
    /// The partition table is to be read.
    Table,
    /// The two otadata copies are to be read.
    Copies { layout: Layout },
    /// More of the image is to come.
    Receiving { session: OtaSession, sector: Vec<u8> },
    /// A sector is full, or the last one is complete.
    Storing { session: OtaSession, sector: Vec<u8> },
    /// The slot is being read back.
    Checking { session: OtaSession, read_back: ReadBack },
    /// The boot record is to be written.
    Committing { session: OtaSession, record: BootRecord, seen: Ghost<Seq<u8>> },
    Over(Verdict),
}

/// What the caller is to do next.
pub enum UploadStep<'a> {
    /// Read the first `rows` rows of the partition table, each where
    /// [`row_address`](crate::ota::row_address) says.
    ReadTable { rows: usize },
    /// Read the otadata copies at two addresses.
    ReadCopies { first: u32, second: u32 },
    /// Wait for the client and read up to `want` bytes.
    Receive { want: usize },
    /// Write `data` to the flash.
    Write { address: u32, data: &'a [u8] },
    /// Read `len` bytes from the flash.
    Read { address: u32, len: usize },
    /// Write the boot record.
    Commit { address: u32, entry: [u8; 32] },
    /// Answer the client, reboot if it says so.
    Done(Verdict),
}

/// What came from the client.
pub enum Arrival<'a> {
    Data(&'a [u8]),
    /// The client closed the connection.
    Closed,
    /// The connection failed.
    Broken,
}

/// Something that happens to an upload.
pub enum UploadEvent {
    /// The rows of the partition table came in.
    Table { table: Seq<Option<[u8; 32]>> },
    /// The otadata copies came in.
    Copies { copy0: Option<[u8; 32]>, copy1: Option<[u8; 32]> },
    /// The client sent something.
    Data { data: Seq<u8> },
    /// The client closed the connection.
    Closed,
    /// The connection failed.
    Broken,
    /// The flash took a sector, or failed to.
    Written { stored: bool },
    /// A piece of the slot was read back, or the read failed.
    Read { piece: Option<Seq<u8>> },
    /// The flash took the boot record, or failed to.
    Committed { stored: bool },
}

/// What came from the client, as an event.
pub open spec fn arrival_event(arrival: Arrival<'_>) -> UploadEvent {
    match arrival {
        Arrival::Data(data) => UploadEvent::Data { data: data@ },
        Arrival::Closed => UploadEvent::Closed,
        Arrival::Broken => UploadEvent::Broken,
    }
}

/// A read from the flash, as an event.
pub open spec fn read_event(piece: Option<&[u8]>) -> UploadEvent {
    UploadEvent::Read {
        piece: match piece {
            Some(data) => Some(data@),
            None => None,
        },
    }
}

/// What of `body` belongs to an image of `size` bytes.
pub open spec fn head_of(body: Seq<u8>, size: u32) -> Seq<u8> {
    body.take(
        if body.len() < size {
            body.len() as int
        } else {
            size as int
        },
    )
}

/// An upload of `size` bytes whose CRC-32 is `crc`.
pub struct OtaUpload {
    pub size: u32,
    pub crc: u32,
    /// The bytes that came along with the request.
    pub head: Vec<u8>,
    pub state: UploadState,
}

/// The session is one for this image, in the slot that is not running.
pub open spec fn session_for(session: OtaSession, size: u32, crc: u32) -> bool {
    &&& session.wf()
    &&& session.size == size
    &&& session.target_crc == crc
    &&& session.target == (running_part(session.seq0, session.seq1, 2) + 1) % 2
}

/// The session with `data` written.
pub open spec fn with_data(session: OtaSession, data: Seq<u8>) -> OtaSession {
    OtaSession {
        written: (session.written + data.len()) as u32,
        run_crc: crc32_of(data, session.run_crc),
        stream: Ghost(session.stream@ + data),
        ..session
    }
}

impl OtaUpload {
    pub open spec fn wf(self) -> bool {
        &&& self.head@.len() <= self.size
        &&& self.head@.len() < SECTOR
        &&& self.state is Over || self.size > 0
        &&& match self.state {
            UploadState::Table => true,
            UploadState::Copies { layout } => layout.complete(),
            UploadState::Receiving { session, sector } => {
                &&& session_for(session, self.size, self.crc)
                &&& session.written % SECTOR as u32 == 0
                &&& sector@.len() < SECTOR
                &&& session.written + sector@.len() < self.size
            },
            UploadState::Storing { session, sector } => {
                &&& session_for(session, self.size, self.crc)
                &&& session.written % SECTOR as u32 == 0
                &&& 0 < sector@.len() <= SECTOR
                &&& session.written + sector@.len() <= self.size
                &&& sector@.len() == SECTOR || session.written + sector@.len() == self.size
            },
            UploadState::Checking { session, read_back } => {
                &&& session_for(session, self.size, self.crc)
                &&& session.written == self.size
                &&& session.run_crc == self.crc
                &&& read_back.wf()
                &&& read_back.follows(session)
                &&& read_back.rem > 0
            },
            UploadState::Committing { session, record, seen } => {
                &&& session_for(session, self.size, self.crc)
                &&& session.written == self.size
                &&& session.run_crc == self.crc
                &&& seen@.len() == self.size
                &&& crc32_of(seen@, 0) == self.crc
                &&& record_of(session, record)
            },
            UploadState::Over(_) => true,
        }
    }

    /// The same image, whatever the state.
    pub open spec fn same_image(self, other: OtaUpload) -> bool {
        self.size == other.size && self.crc == other.crc && self.head == other.head
    }

    pub open spec fn is_over(self, verdict: Verdict) -> bool {
        self.state matches UploadState::Over(v) && v == verdict
    }

    pub open spec fn is_receiving(self, session: OtaSession, sector: Seq<u8>) -> bool {
        self.state matches UploadState::Receiving { session: s, sector: v } && s == session && v@
            == sector
    }

    pub open spec fn is_storing(self, session: OtaSession, sector: Seq<u8>) -> bool {
        self.state matches UploadState::Storing { session: s, sector: v } && s == session && v@
            == sector
    }

    /// A sector holds `sector` so far: it is stored once it is full or the
    /// image ends in it.
    pub open spec fn gathers(self, session: OtaSession, sector: Seq<u8>) -> bool {
        if sector.len() == SECTOR || session.written + sector.len() == session.size {
            self.is_storing(session, sector)
        } else {
            self.is_receiving(session, sector)
        }
    }

    /// A sector has been stored: the next one follows, or the check of the
    /// whole image.
    pub open spec fn goes_on(self, session: OtaSession) -> bool {
        if session.written < session.size {
            self.is_receiving(session, Seq::empty())
        } else if session.run_crc != session.target_crc {
            self.is_over(Verdict::Failed(OtaError::Crc))
        } else {
            self.state matches UploadState::Checking { session: s, read_back } && s == session
                && read_back.seen@ == Seq::<u8>::empty() && read_back.rem == session.size
                && read_back.off == session.slot_off
        }
    }

    /// How many bytes the client is asked for, with `gathered` in the sector: what
    /// the sector or the image lacks.
    pub open spec fn wanted(self, session: OtaSession, gathered: int) -> int {
        let missing = self.size - session.written - gathered;
        let room = SECTOR - gathered;
        if room < missing {
            room
        } else {
            missing
        }
    }

    /// An event is as long as what was asked for: no more than the client was
    /// asked for, and exactly the piece that was to be read.
    pub open spec fn admits(self, event: UploadEvent) -> bool {
        match (self.state, event) {
            (UploadState::Receiving { session, sector }, UploadEvent::Data { data }) => {
                &&& sector@.len() + data.len() <= SECTOR
                &&& session.written + sector@.len() + data.len() <= self.size
            },
            (
                UploadState::Checking { session, read_back },
                UploadEvent::Read { piece: Some(data) },
            ) => data.len() == read_back.piece(),
            _ => true,
        }
    }

    /// The upload is `next` after `event`. An event that was not asked for
    /// changes nothing.
    pub open spec fn leads(self, event: UploadEvent, next: OtaUpload) -> bool {
        match (self.state, event) {
            (UploadState::Table, UploadEvent::Table { table }) => {
                let rows = live_rows(table);
                if slot_extent(rows, 0) is Some && slot_extent(rows, 1) is Some && or_zero(
                    otadata_extent(rows),
                ).1 != 0 {
                    next.state matches UploadState::Copies { layout } && describes(rows, layout)
                } else {
                    next.is_over(Verdict::Failed(OtaError::NoOtaPartitions))
                }
            },
            (UploadState::Copies { layout }, UploadEvent::Copies { copy0, copy1 }) => {
                let session = fresh_session(layout, copy0, copy1, self.size, self.crc);
                if self.size > layout.ota[session.target as int].1 {
                    next.is_over(Verdict::Failed(OtaError::TooBig))
                } else {
                    next.gathers(session, self.head@)
                }
            },
            (UploadState::Receiving { session, sector }, UploadEvent::Data { data }) => {
                if data.len() == 0 {
                    next.is_over(Verdict::Short)
                } else {
                    next.gathers(session, sector@ + data)
                }
            },
            (UploadState::Receiving { .. }, UploadEvent::Closed) => next.is_over(Verdict::Short),
            (UploadState::Receiving { .. }, UploadEvent::Broken) => next.is_over(Verdict::Dropped),
            (UploadState::Storing { session, sector }, UploadEvent::Written { stored }) => {
                if stored {
                    next.goes_on(with_data(session, sector@))
                } else {
                    next.is_over(Verdict::Failed(OtaError::Flash))
                }
            },
            (
                UploadState::Checking { session, read_back },
                UploadEvent::Read { piece: Some(data) },
            ) => {
                let seen = read_back.seen@ + data;
                if seen.len() < self.size {
                    next.state matches UploadState::Checking { session: s, read_back: r } && s
                        == session && r.seen@ == seen
                } else if crc32_of(seen, 0) != self.crc {
                    next.is_over(Verdict::Failed(OtaError::Crc))
                } else {
                    next.state matches UploadState::Committing { session: s, record, seen: all }
                        && s == session && all@ == seen
                }
            },
            (UploadState::Checking { .. }, UploadEvent::Read { piece: None }) => next.is_over(
                Verdict::Failed(OtaError::Flash),
            ),
            (UploadState::Committing { .. }, UploadEvent::Committed { stored }) => next.is_over(
                if stored {
                    Verdict::Committed
                } else {
                    Verdict::Failed(OtaError::Flash)
                },
            ),
            _ => next == self,
        }
    }

    /// The upload is one of `size` bytes with the sum `crc` that has just begun,
    /// with what of `body` belongs to it.
    pub open spec fn begins(self, size: u32, crc: u32, body: Seq<u8>) -> bool {
        &&& self.size == size
        &&& self.crc == crc
        &&& self.head@ == head_of(body, size)
        &&& if size == 0 {
            self.is_over(Verdict::MissingLength)
        } else {
            self.state is Table
        }
    }

    /// Start an upload. `body` is what followed the head of the request.
    pub fn new(size: u32, crc: u32, body: &[u8]) -> (upload: Self)
        requires
            body@.len() < SECTOR,
        ensures
            upload.wf(),
            upload.size == size,
            upload.crc == crc,
            upload.head@ == body@.take(
                if body@.len() < size {
                    body@.len() as int
                } else {
                    size as int
                },
            ),
            upload.head@ == head_of(body@, size),
            upload.state == (if size == 0 {
                UploadState::Over(Verdict::MissingLength)
            } else {
                UploadState::Table
            }),
            upload.begins(size, crc, body@),
    {
        let seed: usize = if body.len() < size as usize {
            body.len()
        } else {
            size as usize
        };
        let part: &[u8] = slice_subrange(body, 0, seed);
        assert(part@ =~= body@.take(seed as int));
        let mut head: Vec<u8> = Vec::new();
        gather(&mut head, part);
        assert(head@ =~= part@);
        let state = if size == 0 {
            UploadState::Over(Verdict::MissingLength)
        } else {
            UploadState::Table
        };
        OtaUpload { size, crc, head, state }
    }

    /// `step` is what is to be done next.
    pub open spec fn asks(self, step: UploadStep<'_>) -> bool {
        match (self.state, step) {
            (UploadState::Table, UploadStep::ReadTable { rows }) => rows == PT_ROWS,
            (UploadState::Copies { layout }, UploadStep::ReadCopies { first, second }) => {
                first == layout.copy_address(false) && second == layout.copy_address(true)
            },
            (UploadState::Receiving { session, sector }, UploadStep::Receive { want }) => {
                want == self.wanted(session, sector@.len() as int)
            },
            (UploadState::Storing { session, sector }, UploadStep::Write { address, data }) => {
                address == session.store_address() && data@ == sector@
            },
            (
                UploadState::Checking { session, read_back },
                UploadStep::Read { address, len },
            ) => address == read_back.off && len == read_back.piece(),
            (
                UploadState::Committing { session, record, seen },
                UploadStep::Commit { address, entry },
            ) => address == record.address && entry == record.entry,
            (UploadState::Over(verdict), UploadStep::Done(v)) => v == verdict,
            _ => false,
        }
    }

    /// What is to be done next.
    pub fn step(&self) -> (step: UploadStep<'_>)
        requires
            self.wf(),
        ensures
            match (self.state, step) {
                (UploadState::Table, UploadStep::ReadTable { rows }) => rows == PT_ROWS,
                (UploadState::Copies { layout }, UploadStep::ReadCopies { first, second }) => {
                    first == layout.copy_address(false) && second == layout.copy_address(true)
                },
                (UploadState::Receiving { session, sector }, UploadStep::Receive { want }) => {
                    let missing = self.size - session.written - sector@.len();
                    let room = SECTOR - sector@.len();
                    want == (if room < missing { room } else { missing })
                },
                (UploadState::Storing { session, sector }, UploadStep::Write { address, data }) => {
                    address == session.slot_off.wrapping_add(session.written) && data@ == sector@
                },
                (
                    UploadState::Checking { session, read_back },
                    UploadStep::Read { address, len },
                ) => address == read_back.off && len == read_back.piece(),
                (
                    UploadState::Committing { session, record, seen },
                    UploadStep::Commit { address, entry },
                ) => address == record.address && entry == record.entry,
                (UploadState::Over(verdict), UploadStep::Done(v)) => v == verdict,
                _ => false,
            },
            self.asks(step),
    {
        match &self.state {
            UploadState::Table => UploadStep::ReadTable { rows: PT_ROWS },
            UploadState::Copies { layout } => UploadStep::ReadCopies {
                first: layout.copy_offset(false),
                second: layout.copy_offset(true),
            },
            UploadState::Receiving { session, sector } => {
                let missing: u32 = self.size - session.written - sector.len() as u32;
                let room: usize = SECTOR - sector.len();
                let want: usize = if room < missing as usize {
                    room
                } else {
                    missing as usize
                };
                UploadStep::Receive { want }
            },
            UploadState::Storing { session, sector } => {
                UploadStep::Write {
                    address: session.slot_off.wrapping_add(session.written),
                    data: sector.as_slice(),
                }
            },
            UploadState::Checking { session: _, read_back } => {
                match read_back.next() {
                    Some((address, len)) => UploadStep::Read { address, len },
                    None => UploadStep::Read { address: 0, len: 0 },
                }
            },
            UploadState::Committing { session: _, record, seen: _ } => UploadStep::Commit {
                address: record.address,
                entry: record.entry,
            },
            UploadState::Over(verdict) => UploadStep::Done(*verdict),
        }
    }

    fn moved(self, state: UploadState) -> (next: Self)
        ensures
            next.same_image(self),
            next.state == state,
    {
        OtaUpload { size: self.size, crc: self.crc, head: self.head, state }
    }

    /// The rows of the partition table came in, `None` where a read failed.
    pub fn on_table(self, table: &[Option<[u8; 32]>]) -> (next: Self)
        requires
            self.wf(),
        ensures
            next.wf(),
            next.same_image(self),
            self.leads(UploadEvent::Table { table: table@ }, next),
    {
        match self.state {
            UploadState::Table => {},
            _ => {
                return self;
            },
        }
        let state = match read_layout(table) {
            Ok(layout) => UploadState::Copies { layout },
            Err(error) => UploadState::Over(Verdict::Failed(error)),
        };
        self.moved(state)
    }

    /// The otadata copies came in, `None` where a read failed. The session
    /// starts with the bytes that came along with the request.
    pub fn on_copies(self, copy0: Option<[u8; 32]>, copy1: Option<[u8; 32]>) -> (next: Self)
        requires
            self.wf(),
        ensures
            next.wf(),
            next.same_image(self),
            self.leads(UploadEvent::Copies { copy0, copy1 }, next),
    {
        let layout: Layout = match self.state {
            UploadState::Copies { layout } => layout,
            _ => {
                return self;
            },
        };
        match OtaSession::begin(layout, copy0, copy1, self.size, self.crc) {
            Err(error) => self.moved(UploadState::Over(Verdict::Failed(error))),
            Ok(session) => {
                assert(session.stream == Ghost(Seq::<u8>::empty()));
                let mut sector: Vec<u8> = Vec::new();
                gather(&mut sector, self.head.as_slice());
                assert(sector@ =~= self.head@);
                self.gathered(session, sector)
            },
        }
    }

    /// A sector that holds `sector` so far.
    fn gathered(self, session: OtaSession, sector: Vec<u8>) -> (next: Self)
        requires
            session_for(session, self.size, self.crc),
            session.written % SECTOR as u32 == 0,
            session.written < self.size,
            sector@.len() <= SECTOR,
            session.written + sector@.len() <= self.size,
            self.head@.len() <= self.size,
            self.head@.len() < SECTOR,
        ensures
            next.wf(),
            next.same_image(self),
            next.gathers(session, sector@),
    {
        let full = sector.len() == SECTOR || session.written + sector.len() as u32 == session.size;
        if full {
            self.moved(UploadState::Storing { session, sector })
        } else {
            self.moved(UploadState::Receiving { session, sector })
        }
    }

    /// The client sent something, or will not.
    pub fn on_arrival(self, arrival: Arrival<'_>) -> (next: Self)
        requires
            self.wf(),
            self.admits(arrival_event(arrival)),
        ensures
            next.wf(),
            next.same_image(self),
            self.leads(arrival_event(arrival), next),
    {
        let OtaUpload { size, crc, head, state } = self;
        match state {
            UploadState::Receiving { session, sector } => {
                let rest = OtaUpload { size, crc, head, state: UploadState::Table };
                match arrival {
                    Arrival::Data(data) => if data.len() == 0 {
                        rest.moved(UploadState::Over(Verdict::Short))
                    } else {
                        let mut sector = sector;
                        gather(&mut sector, data);
                        rest.gathered(session, sector)
                    },
                    Arrival::Closed => rest.moved(UploadState::Over(Verdict::Short)),
                    Arrival::Broken => rest.moved(UploadState::Over(Verdict::Dropped)),
                }
            },
            state => OtaUpload { size, crc, head, state },
        }
    }

    /// The flash took the sector, or failed to.
    pub fn on_written(self, stored: bool) -> (next: Self)
        requires
            self.wf(),
        ensures
            next.wf(),
            next.same_image(self),
            self.leads(UploadEvent::Written { stored }, next),
    {
        let OtaUpload { size, crc, head, state } = self;
        match state {
            UploadState::Storing { session, sector } => {
                let rest = OtaUpload { size, crc, head, state: UploadState::Table };
                let mut session = session;
                let ghost before = session;
                assert(sector@.take(sector@.len() as int) =~= sector@);
                match session.write(sector.as_slice(), stored) {
                    Err(error) => {
                        return rest.moved(UploadState::Over(Verdict::Failed(error)));
                    },
                    Ok(_) => {},
                }
                assert(session == with_data(before, sector@));
                if session.written < session.size {
                    assert(session.written == before.written + SECTOR);
                    assert(before.written % 4096 == 0);
                    assert((before.written + 4096) % 4096 == 0);
                    let sector: Vec<u8> = Vec::new();
                    assert(sector@ =~= Seq::<u8>::empty());
                    return rest.moved(UploadState::Receiving { session, sector });
                }
                if !session.stream_matches() {
                    return rest.moved(UploadState::Over(Verdict::Failed(OtaError::Crc)));
                }
                let read_back = session.verify();
                rest.moved(UploadState::Checking { session, read_back })
            },
            state => OtaUpload { size, crc, head, state },
        }
    }

    /// A piece of the slot was read back; `None` if the read failed.
    pub fn on_read(self, piece: Option<&[u8]>) -> (next: Self)
        requires
            self.wf(),
            self.admits(read_event(piece)),
        ensures
            next.wf(),
            next.same_image(self),
            self.leads(read_event(piece), next),
    {
        let OtaUpload { size, crc, head, state } = self;
        match state {
            UploadState::Checking { session, read_back } => {
                let rest = OtaUpload { size, crc, head, state: UploadState::Table };
                let data: &[u8] = match piece {
                    None => {
                        return rest.moved(UploadState::Over(Verdict::Failed(OtaError::Flash)));
                    },
                    Some(data) => data,
                };
                let mut read_back = read_back;
                read_back.feed(data);
                if read_back.rem > 0 {
                    return rest.moved(UploadState::Checking { session, read_back });
                }
                match session.finish(Ok(read_back.crc)) {
                    Err(error) => rest.moved(UploadState::Over(Verdict::Failed(error))),
                    Ok(record) => rest.moved(
                        UploadState::Committing { session, record, seen: read_back.seen },
                    ),
                }
            },
            state => OtaUpload { size, crc, head, state },
        }
    }

    /// The flash took the boot record, or failed to.
    pub fn on_committed(self, stored: bool) -> (next: Self)
        requires
            self.wf(),
        ensures
            next.wf(),
            next.same_image(self),
            self.leads(UploadEvent::Committed { stored }, next),
    {
        match self.state {
            UploadState::Committing { .. } => {},
            _ => {
                return self;
            },
        }
        let verdict = if stored {
            Verdict::Committed
        } else {
            Verdict::Failed(OtaError::Flash)
        };
        self.moved(UploadState::Over(verdict))
    }
}

/// The record is the one that a finished session gives.
pub open spec fn record_of(session: OtaSession, record: BootRecord) -> bool {
    &&& record.address == session.record_address()
    &&& exists|seq: u32| #[trigger]
        session.next_seq(seq) && record.entry@ == boot_entry(seq)
}

/// Append `data` to `sector`.
fn gather(sector: &mut Vec<u8>, data: &[u8])
    ensures
        final(sector)@ == old(sector)@ + data@,
{
    let mut at: usize = 0;
    while at < data.len()
        invariant
            at <= data@.len(),
            sector@ == old(sector)@ + data@.take(at as int),
        decreases data@.len() - at,
    {
        sector.push(data[at]);
        assert(data@.take(at + 1) =~= data@.take(at as int).push(data@[at as int]));
        at = at + 1;
    }
    assert(data@.take(at as int) =~= data@);
}

/// The slot that an image goes to lies on the flash, apart from the otadata
/// partition.
pub open spec fn slot_apart(flash: Seq<u8>, session: OtaSession) -> bool {
    let layout = session.layout;
    let slot_end = session.slot_off + layout.ota[session.target as int].1;
    &&& copies_apart(flash, layout)
    &&& slot_end <= flash.len()
    &&& slot_end <= layout.otadata_off || layout.otadata_off + layout.otadata_size
        <= session.slot_off
}

/// Every write of an upload begins at a sector of the slot, is no longer than
/// a sector and stays inside the slot.
pub proof fn law_sector_writes_stay_in_the_slot(upload: OtaUpload)
    requires
        upload.wf(),
        upload.state is Storing,
    ensures
        upload.state matches UploadState::Storing { session, sector } && {
            &&& session.written % SECTOR as u32 == 0
            &&& 0 < sector@.len() <= SECTOR
            &&& session.written + sector@.len() <= session.layout.ota[session.target as int].1
            &&& sector@.len() < SECTOR ==> session.written + sector@.len() == session.size
        },
{
}

/// The boot record is written only once the sum of what came in and the sum of
/// what the slot holds, over the whole length, are the advertised one.
pub proof fn law_commit_needs_both_sums(upload: OtaUpload)
    requires
        upload.wf(),
        upload.state is Committing,
    ensures
        upload.state matches UploadState::Committing { session, record, seen } && {
            &&& session.stream@.len() == upload.size
            &&& crc32_of(session.stream@, 0) == upload.crc
            &&& seen@.len() == upload.size
            &&& crc32_of(seen@, 0) == upload.crc
        },
{
}

/// Writing two pieces one behind the other is writing them as one.
pub proof fn law_pieces_make_the_image(
    flash: Seq<u8>,
    address: int,
    first: Seq<u8>,
    second: Seq<u8>,
)
    ensures
        flash_with(flash_with(flash, address, first), address + first.len(), second) == flash_with(
            flash,
            address,
            first + second,
        ),
{
    assert(flash_with(flash_with(flash, address, first), address + first.len(), second)
        =~= flash_with(flash, address, first + second));
}

/// Until the boot record is written, an upload leaves the slot to boot as it
/// was, however far it gets.
pub proof fn law_upload_keeps_the_boot(upload: OtaUpload, flash: Seq<u8>)
    requires
        upload.wf(),
        upload.state is Storing,
        upload.state matches UploadState::Storing { session, sector } && slot_apart(flash, session),
    ensures
        upload.state matches UploadState::Storing { session, sector } && {
            let after = flash_with(flash, session.store_address() as int, sector@);
            &&& boots(after, session.layout) == boots(flash, session.layout)
            &&& slot_apart(after, session)
        },
{
    if let UploadState::Storing { session, sector } = upload.state {
        let layout = session.layout;
        let address = session.slot_off.wrapping_add(session.written) as int;
        let after = flash_with(flash, address, sector@);
        let first = layout.copy_address(false) as int;
        let second = layout.copy_address(true) as int;
        assert(after.subrange(first, first + ENTRY) =~= flash.subrange(first, first + ENTRY));
        assert(after.subrange(second, second + ENTRY) =~= flash.subrange(second, second + ENTRY));
    }
}

/// The slot holds what has been written so far.
pub open spec fn slot_holds(flash: Seq<u8>, session: OtaSession) -> bool {
    &&& session.slot_off + session.size <= flash.len()
    &&& flash.len() <= 0x1_0000_0000
    &&& flash.subrange(session.slot_off as int, session.slot_off + session.written)
        == session.stream@
}

/// Every sector that is written continues what the slot holds.
pub proof fn law_slot_follows_the_stream(upload: OtaUpload, flash: Seq<u8>)
    requires
        upload.wf(),
        upload.state matches UploadState::Storing { session, sector } && slot_holds(flash, session),
    ensures
        upload.state matches UploadState::Storing { session, sector } && {
            let after = flash_with(flash, session.store_address() as int, sector@);
            slot_holds(after, with_data(session, sector@))
        },
{
    if let UploadState::Storing { session, sector } = upload.state {
        let address = session.slot_off.wrapping_add(session.written) as int;
        let after = flash_with(flash, address, sector@);
        let next = with_data(session, sector@);
        let from = session.slot_off as int;
        assert(address == from + session.written);
        assert forall|i: int| 0 <= i < session.written implies after[from + i]
            == session.stream@[i] by {
            assert(flash.subrange(from, from + session.written)[i] == flash[from + i]);
        }
        assert(after.subrange(from, from + next.written) =~= next.stream@);
    }
}

/// An image that came in with the advertised sum, in a slot that holds it, is
/// committed: reading it back never fails the check.
pub proof fn law_good_image_is_committed(upload: OtaUpload, flash: Seq<u8>, data: Seq<u8>)
    requires
        upload.wf(),
        upload.state matches UploadState::Checking { session, read_back } && {
            &&& slot_holds(flash, session)
            &&& read_back.seen@ == session.stream@.take(read_back.seen@.len() as int)
            &&& data == flash.subrange(read_back.off as int, read_back.off + read_back.piece())
        },
    ensures
        upload.state matches UploadState::Checking { session, read_back } && {
            let seen = read_back.seen@ + data;
            &&& seen == session.stream@.take(seen.len() as int)
            &&& seen.len() == upload.size ==> crc32_of(seen, 0) == upload.crc
        },
{
    if let UploadState::Checking { session, read_back } = upload.state {
        let from = session.slot_off as int;
        let n = read_back.seen@.len() as int;
        let seen = read_back.seen@ + data;
        assert(read_back.off == from + n);
        assert forall|i: int| 0 <= i < data.len() implies data[i] == session.stream@[n + i] by {
            assert(data[i] == flash[from + n + i]);
            assert(flash.subrange(from, from + session.written)[n + i] == flash[from + n + i]);
        }
        assert(seen =~= session.stream@.take(seen.len() as int));
        if seen.len() == upload.size {
            assert(seen =~= session.stream@);
        }
    }
}

/// A flash that keeps what was written gives the image back, and its sum is
/// that of what came in.
pub proof fn law_faithful_flash_checks_out(session: OtaSession, flash: Seq<u8>)
    requires
        session.wf(),
        session.written == session.size,
        session.slot_off + session.size <= flash.len(),
    ensures
        ({
            let after = flash_with(flash, session.slot_off as int, session.stream@);
            let slot = after.subrange(
                session.slot_off as int,
                session.slot_off + session.size,
            );
            slot == session.stream@ && crc32_of(slot, 0) == session.run_crc
        }),
{
    let after = flash_with(flash, session.slot_off as int, session.stream@);
    assert(after.subrange(session.slot_off as int, session.slot_off + session.size)
        =~= session.stream@);
}

/// The boot record makes the uploaded slot the one to boot, and it was not so
/// before. The highest 32-bit sequence has no successor, so a flash that holds
/// it is left out.
pub proof fn law_commit_boots_the_image(upload: OtaUpload, flash: Seq<u8>)
    requires
        upload.wf(),
        upload.state matches UploadState::Committing { session, record, seen } && {
            &&& copies_apart(flash, session.layout)
            &&& session.seq0 == seq_on_flash(flash, session.layout, false)
            &&& session.seq1 == seq_on_flash(flash, session.layout, true)
            &&& session.seq0 != 0xFFFF_FFFF
            &&& session.seq1 != 0xFFFF_FFFF
        },
    ensures
        upload.state matches UploadState::Committing { session, record, seen } && {
            let after = flash_with(flash, record.address as int, record.entry@);
            &&& boots(flash, session.layout) != session.target
            &&& boots(after, session.layout) == session.target
        },
{
    if let UploadState::Committing { session, record, seen } = upload.state {
        let seq = choose|seq: u32| #[trigger]
            session.next_seq(seq) && record.entry@ == boot_entry(seq);
        law_record_moves_the_boot(session, flash, seq);
    }
}

/// An upload and the flash that it works on.
pub struct Run {
    pub upload: OtaUpload,
    pub flash: Seq<u8>,
}

impl Run {
    /// The flash after `event`: it changes where it took a write.
    pub open spec fn flash_after(self, event: UploadEvent) -> Seq<u8> {
        match (self.upload.state, event) {
            (UploadState::Storing { session, sector }, UploadEvent::Written { stored: true }) => {
                flash_with(self.flash, session.store_address() as int, sector@)
            },
            (
                UploadState::Committing { session, record, seen },
                UploadEvent::Committed { stored: true },
            ) => flash_with(self.flash, record.address as int, record.entry@),
            _ => self.flash,
        }
    }

    /// `event` takes the run to `next`.
    pub open spec fn leads(self, event: UploadEvent, next: Run) -> bool {
        &&& self.upload.admits(event)
        &&& self.upload.leads(event, next.upload)
        &&& next.upload.wf()
        &&& next.upload.same_image(self.upload)
        &&& next.flash == self.flash_after(event)
    }

    /// `event` answers what was asked for, and the board does its part: both
    /// slots are found, the image fits the one that is not running, the flash
    /// takes every write and gives back what it holds. What the client does is
    /// left open.
    pub open spec fn sound(self, event: UploadEvent) -> bool {
        match self.upload.state {
            UploadState::Table => event matches UploadEvent::Table { table } && {
                let rows = live_rows(table);
                &&& slot_extent(rows, 0) is Some
                &&& slot_extent(rows, 1) is Some
                &&& or_zero(otadata_extent(rows)).1 != 0
            },
            UploadState::Copies { layout } => event matches UploadEvent::Copies { copy0, copy1 }
                && {
                let upload = self.upload;
                let session = fresh_session(layout, copy0, copy1, upload.size, upload.crc);
                &&& upload.size <= layout.ota[session.target as int].1
                &&& session.slot_off + upload.size <= self.flash.len() <= 0x1_0000_0000
            },
            UploadState::Receiving { .. } => event is Data || event is Closed || event is Broken,
            UploadState::Storing { .. } => event == (UploadEvent::Written { stored: true }),
            UploadState::Checking { session, read_back } => event == (UploadEvent::Read {
                piece: Some(
                    self.flash.subrange(
                        read_back.off as int,
                        read_back.off + read_back.piece(),
                    ),
                ),
            }),
            UploadState::Committing { .. } => event == (UploadEvent::Committed { stored: true }),
            UploadState::Over(_) => true,
        }
    }

    /// What `event` adds to the image.
    pub open spec fn arrived(self, event: UploadEvent) -> Seq<u8> {
        match (self.upload.state, event) {
            (UploadState::Receiving { .. }, UploadEvent::Data { data }) => data,
            _ => Seq::empty(),
        }
    }

    /// The connection fails with `event` while the image comes in.
    pub open spec fn breaks(self, event: UploadEvent) -> bool {
        self.upload.state is Receiving && event is Broken
    }
}

/// `events` take an upload from its start through `runs`, on a board that does
/// its part.
pub open spec fn is_course(runs: Seq<Run>, events: Seq<UploadEvent>) -> bool {
    &&& runs.len() == events.len() + 1
    &&& runs[0].upload.wf()
    &&& runs[0].upload.state is Table
    &&& forall|i: int|
        0 <= i < events.len() ==> #[trigger] runs[i].leads(events[i], runs[i + 1])
            && runs[i].sound(events[i])
}

/// All of the image that came in: what followed the head of the request, and
/// what the events brought.
pub open spec fn came_in(runs: Seq<Run>, events: Seq<UploadEvent>) -> Seq<u8>
    decreases events.len(),
{
    if events.len() == 0 {
        runs[0].upload.head@
    } else {
        came_in(runs, events.drop_last()) + runs[events.len() - 1].arrived(events.last())
    }
}

/// The connection failed at some point of the course.
pub open spec fn broke(runs: Seq<Run>, events: Seq<UploadEvent>) -> bool
    decreases events.len(),
{
    events.len() > 0 && (broke(runs, events.drop_last()) || runs[events.len() - 1].breaks(
        events.last(),
    ))
}

/// The verdict on an image of which `image` came in, over a connection that
/// failed or not.
pub open spec fn due(upload: OtaUpload, image: Seq<u8>, broken: bool) -> Verdict {
    if image.len() < upload.size {
        if broken {
            Verdict::Dropped
        } else {
            Verdict::Short
        }
    } else if crc32_of(image, 0) == upload.crc {
        Verdict::Committed
    } else {
        Verdict::Failed(OtaError::Crc)
    }
}

/// How an upload stands to what came in.
pub open spec fn on_course(run: Run, image: Seq<u8>, broken: bool) -> bool {
    &&& image.len() <= run.upload.size
    &&& !(run.upload.state is Over) ==> !broken
    &&& match run.upload.state {
        UploadState::Table => image == run.upload.head@,
        UploadState::Copies { layout } => image == run.upload.head@,
        UploadState::Receiving { session, sector } => {
            &&& image == session.stream@ + sector@
            &&& slot_holds(run.flash, session)
        },
        UploadState::Storing { session, sector } => {
            &&& image == session.stream@ + sector@
            &&& slot_holds(run.flash, session)
        },
        UploadState::Checking { session, read_back } => {
            &&& image == session.stream@
            &&& slot_holds(run.flash, session)
            &&& read_back.seen@ == session.stream@.take(read_back.seen@.len() as int)
        },
        UploadState::Committing { session, record, seen } => image == session.stream@,
        UploadState::Over(verdict) => verdict == due(run.upload, image, broken),
    }
}

proof fn lemma_receiving_step(run: Run, event: UploadEvent, next: Run, image: Seq<u8>)
    requires
        run.upload.wf(),
        run.upload.state is Receiving,
        on_course(run, image, false),
        run.leads(event, next),
        run.sound(event),
    ensures
        on_course(next, image + run.arrived(event), run.breaks(event)),
{
    if let UploadState::Receiving { session, sector } = run.upload.state {
        if let UploadEvent::Data { data } = event {
            assert(image + data =~= session.stream@ + (sector@ + data));
            if data.len() == 0 {
                assert(image + data =~= image);
            }
        } else {
            assert(image + Seq::<u8>::empty() =~= image);
        }
    }
}

proof fn lemma_storing_step(run: Run, event: UploadEvent, next: Run, image: Seq<u8>)
    requires
        run.upload.wf(),
        run.upload.state is Storing,
        on_course(run, image, false),
        run.leads(event, next),
        run.sound(event),
    ensures
        on_course(next, image, false),
{
    if let UploadState::Storing { session, sector } = run.upload.state {
        law_slot_follows_the_stream(run.upload, run.flash);
        law_crc32_streams(session.stream@, sector@, 0);
        let after = with_data(session, sector@);
        assert(after.stream@ == image);
        assert(after.stream@ + Seq::<u8>::empty() =~= image);
        assert(after.stream@.take(0) =~= Seq::<u8>::empty());
    }
}

proof fn lemma_checking_step(run: Run, event: UploadEvent, next: Run, image: Seq<u8>)
    requires
        run.upload.wf(),
        run.upload.state is Checking,
        on_course(run, image, false),
        run.leads(event, next),
        run.sound(event),
    ensures
        on_course(next, image, false),
{
    if let UploadState::Checking { session, read_back } = run.upload.state {
        let data = run.flash.subrange(read_back.off as int, read_back.off + read_back.piece());
        assert(read_back.off == session.slot_off + read_back.seen@.len());
        law_good_image_is_committed(run.upload, run.flash, data);
    }
}

proof fn lemma_course_step(run: Run, event: UploadEvent, next: Run, image: Seq<u8>, broken: bool)
    requires
        run.upload.wf(),
        on_course(run, image, broken),
        run.leads(event, next),
        run.sound(event),
    ensures
        on_course(next, image + run.arrived(event), broken || run.breaks(event)),
{
    match run.upload.state {
        UploadState::Receiving { .. } => {
            lemma_receiving_step(run, event, next, image);
        },
        UploadState::Storing { .. } => {
            assert(image + run.arrived(event) =~= image);
            lemma_storing_step(run, event, next, image);
        },
        UploadState::Checking { .. } => {
            assert(image + run.arrived(event) =~= image);
            lemma_checking_step(run, event, next, image);
        },
        UploadState::Copies { layout } => {
            assert(image + run.arrived(event) =~= image);
            assert(Seq::<u8>::empty() + image =~= image);
            if let UploadEvent::Copies { copy0, copy1 } = event {
                let upload = run.upload;
                let session = fresh_session(layout, copy0, copy1, upload.size, upload.crc);
                assert(run.flash.subrange(session.slot_off as int, session.slot_off + 0)
                    =~= Seq::<u8>::empty());
            }
        },
        _ => {
            assert(image + run.arrived(event) =~= image);
        },
    }
}

proof fn lemma_course(runs: Seq<Run>, events: Seq<UploadEvent>)
    requires
        is_course(runs, events),
    ensures
        runs.last().upload.wf(),
        runs.last().upload.same_image(runs[0].upload),
        on_course(runs.last(), came_in(runs, events), broke(runs, events)),
    decreases events.len(),
{
    if events.len() > 0 {
        let earlier = runs.drop_last();
        let before = events.drop_last();
        let last = events.len() - 1;
        assert forall|i: int| 0 <= i < before.len() implies #[trigger] earlier[i].leads(
            before[i],
            earlier[i + 1],
        ) && earlier[i].sound(before[i]) by {
            assert(runs[i].leads(events[i], runs[i + 1]));
        }
        lemma_course(earlier, before);
        lemma_same_history(runs, earlier, before);
        assert(runs[last].leads(events[last], runs[last + 1]));
        lemma_course_step(
            runs[last],
            events[last],
            runs[last + 1],
            came_in(runs, before),
            broke(runs, before),
        );
    }
}

proof fn lemma_same_history(runs: Seq<Run>, earlier: Seq<Run>, events: Seq<UploadEvent>)
    requires
        events.len() < earlier.len() <= runs.len(),
        forall|i: int| 0 <= i < earlier.len() ==> runs[i] == earlier[i],
    ensures
        came_in(runs, events) == came_in(earlier, events),
        broke(runs, events) == broke(earlier, events),
    decreases events.len(),
{
    if events.len() > 0 {
        lemma_same_history(runs, earlier, events.drop_last());
    }
}

/// A whole upload, on a board that does its part: no more than the image comes
/// in, and once the upload is over, it was committed exactly if all of the
/// image came in and its sum is the advertised one. Otherwise the sum did not
/// match, or the image was short, because the client closed the connection or
/// because it failed.
pub proof fn law_upload_ends_as_it_should(runs: Seq<Run>, events: Seq<UploadEvent>)
    requires
        is_course(runs, events),
        runs.last().upload.state is Over,
    ensures
        ({
            let upload = runs[0].upload;
            let image = came_in(runs, events);
            let verdict = runs.last().upload.state->Over_0;
            &&& image.len() <= upload.size
            &&& verdict == Verdict::Committed <==> image.len() == upload.size && crc32_of(image, 0)
                == upload.crc
            &&& verdict == Verdict::Failed(OtaError::Crc) <==> image.len() == upload.size
                && crc32_of(image, 0) != upload.crc
            &&& verdict == Verdict::Dropped <==> image.len() < upload.size && broke(runs, events)
            &&& verdict == Verdict::Short <==> image.len() < upload.size && !broke(runs, events)
        }),
{
    lemma_course(runs, events);
}

/// The bytes that came along with the request belong to the image, all of them
/// or as many as the image has.
pub proof fn law_head_is_the_start_of_the_body(body: Seq<u8>, size: u32)
    ensures
        head_of(body, size).len() <= size,
        head_of(body, size).len() == body.len() || head_of(body, size).len() == size,
        forall|i: int|
            0 <= i < head_of(body, size).len() ==> #[trigger] head_of(body, size)[i] == body[i],
{
}

/// The client is always asked for something, never for more than the image
/// lacks or the sector holds. Once all that was asked for has come the sector is
/// stored, and before that it is not; what comes in is appended to what was
/// there.
pub proof fn law_receiving_fills_the_sector(upload: OtaUpload, data: Seq<u8>, next: OtaUpload)
    requires
        upload.wf(),
        upload.state is Receiving,
        0 < data.len(),
        upload.state matches UploadState::Receiving { session, sector } && data.len()
            <= upload.wanted(session, sector@.len() as int),
    ensures
        upload.state matches UploadState::Receiving { session, sector } && {
            let want = upload.wanted(session, sector@.len() as int);
            &&& 0 < want
            &&& want + sector@.len() <= 4096
            &&& session.written + sector@.len() + want <= upload.size
            &&& want + sector@.len() == 4096 || session.written + sector@.len() + want
                == upload.size
            &&& upload.admits(UploadEvent::Data { data })
            &&& upload.leads(UploadEvent::Data { data }, next) ==> if data.len() == want {
                next.is_storing(session, sector@ + data)
            } else {
                next.is_receiving(session, sector@ + data)
            }
        },
{
}

/// A sector that was stored is the end of what the session wrote, byte for byte,
/// and the session is otherwise the same: slot, length and advertised sum.
pub proof fn law_stored_sectors_extend_the_stream(session: OtaSession, data: Seq<u8>)
    requires
        session.wf(),
        session.written + data.len() <= session.size,
    ensures
        with_data(session, data) == session.after_chunk(data),
        with_data(session, data).wf(),
{
    assert(data.take(data.len() as int) =~= data);
    law_crc32_streams(session.stream@, data, 0);
}

/// Where the board does not do its part, the upload ends with the cause: no
/// partitions, an image larger than the slot that is not running, or a flash
/// that failed, at whichever step that was.
pub proof fn law_failures_name_their_cause(upload: OtaUpload, event: UploadEvent, next: OtaUpload)
    requires
        upload.wf(),
        upload.leads(event, next),
    ensures
        upload.state is Table && event is Table ==> {
            let rows = live_rows(event->table);
            &&& slot_extent(rows, 0) is None || slot_extent(rows, 1) is None || otadata_extent(
                rows,
            ) is None || otadata_extent(rows).unwrap().1 == 0 ==> next.is_over(
                Verdict::Failed(OtaError::NoOtaPartitions),
            )
            &&& next.is_over(Verdict::Failed(OtaError::NoOtaPartitions)) ==> slot_extent(rows, 0)
                is None || slot_extent(rows, 1) is None || otadata_extent(rows) is None
                || otadata_extent(rows).unwrap().1 == 0
        },
        upload.state matches UploadState::Copies { layout } ==> event is Copies ==> {
            let running = running_part(seq_of_read(event->copy0), seq_of_read(event->copy1), 2);
            next.is_over(Verdict::Failed(OtaError::TooBig)) <==> (running == 0 && upload.size
                > layout.ota[1].1) || (running == 1 && upload.size > layout.ota[0].1)
        },
        upload.state is Storing && event == (UploadEvent::Written { stored: false })
            ==> next.is_over(Verdict::Failed(OtaError::Flash)),
        upload.state is Checking && event == (UploadEvent::Read { piece: None }) ==> next.is_over(
            Verdict::Failed(OtaError::Flash),
        ),
        upload.state is Committing && event == (UploadEvent::Committed { stored: false })
            ==> next.is_over(Verdict::Failed(OtaError::Flash)),
        upload.state is Over ==> next == upload,
{
}

/// The board boots anew only for an image that was committed, and only an upload
/// whose connection broke is not answered. Every other verdict has its own
/// message.
pub proof fn law_verdicts_are_told(one: Verdict, other: Verdict)
    ensures
        boots_anew(one) <==> one is Committed,
        verdict_text(one) is None <==> one is Dropped,
        one != other && verdict_text(one) is Some ==> verdict_text(one) != verdict_text(other),
        verdict_text(Verdict::Committed) == Some("OK - rebooting into new firmware"@),
        verdict_text(Verdict::MissingLength) == Some("missing Content-Length"@),
        verdict_text(Verdict::Short) == Some("short upload"@),
        verdict_text(Verdict::Failed(OtaError::NoOtaPartitions)) == Some("no OTA partitions"@),
        verdict_text(Verdict::Failed(OtaError::TooBig)) == Some("image too big for slot"@),
        verdict_text(Verdict::Failed(OtaError::Flash)) == Some("flash error"@),
        verdict_text(Verdict::Failed(OtaError::Crc)) == Some("CRC mismatch"@),
{
    reveal_strlit("OK - rebooting into new firmware");
    reveal_strlit("missing Content-Length");
    reveal_strlit("short upload");
    reveal_strlit("no OTA partitions");
    reveal_strlit("image too big for slot");
    reveal_strlit("flash error");
    reveal_strlit("CRC mismatch");
    assert("OK - rebooting into new firmware"@.len() == 32);
    assert("missing Content-Length"@.len() == 22);
    assert("image too big for slot"@.len() == 22);
    assert("missing Content-Length"@[0] != "image too big for slot"@[0]);
    assert("short upload"@.len() == 12);
    assert("CRC mismatch"@.len() == 12);
    assert("short upload"@[0] != "CRC mismatch"@[0]);
    assert("no OTA partitions"@.len() == 17);
    assert("flash error"@.len() == 11);
}

/// What the caller is asked for is what the upload goes by: a write puts the
/// sector right behind what the slot holds, a read gives the piece that is
/// checked next, and the boot record goes where the lower sequence is. Before
/// that all 96 rows of the table are asked for, and both otadata copies.
pub proof fn law_steps_are_what_the_course_takes(run: Run, step: UploadStep<'_>)
    requires
        run.upload.wf(),
        run.upload.asks(step),
        run.upload.state matches UploadState::Checking { session, .. } ==> slot_holds(
            run.flash,
            session,
        ),
    ensures
        step is ReadTable <==> run.upload.state is Table,
        step matches UploadStep::ReadTable { rows } ==> rows == 96,
        step matches UploadStep::ReadCopies { first, second } ==> (
        run.upload.state matches UploadState::Copies { layout } && first == layout.otadata_off && (
        layout.otadata_off + layout.otadata_size <= 0xFFFF_FFFF ==> second == layout.otadata_off
            + layout.otadata_size / 2)),
        step matches UploadStep::Receive { want } ==> want > 0 && run.upload.state is Receiving,
        step matches UploadStep::Write { address, data } ==> run.flash_after(
            UploadEvent::Written { stored: true },
        ) == flash_with(run.flash, address as int, data@),
        step matches UploadStep::Read { address, len } ==> {
            let event = UploadEvent::Read {
                piece: Some(run.flash.subrange(address as int, address + len)),
            };
            len > 0 && run.sound(event) && run.upload.admits(event)
        },
        step matches UploadStep::Commit { address, entry } ==> run.flash_after(
            UploadEvent::Committed { stored: true },
        ) == flash_with(run.flash, address as int, entry@),
        step matches UploadStep::Done(verdict) ==> run.upload.is_over(verdict),
{
}

/// An upload is of the length and sum that were announced, and starts with the
/// bytes that came along; one that announces no length is over at once.
pub proof fn law_upload_is_of_what_was_announced(
    upload: OtaUpload,
    size: u32,
    crc: u32,
    body: Seq<u8>,
)
    requires
        upload.begins(size, crc, body),
    ensures
        upload.size == size,
        upload.crc == crc,
        forall|i: int|
            0 <= i < body.len() && i < size ==> i < upload.head@.len() && #[trigger] body[i]
                == upload.head@[i],
        upload.head@.len() <= size,
        size == 0 <==> upload.is_over(Verdict::MissingLength),
        size > 0 ==> upload.state is Table,
{
}

} // verus!
