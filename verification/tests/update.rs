use kc868_a6::crc::crc32;
use kc868_a6::ota::{read_layout, read_seq, row_address, seq_to_part, Layout, OtaError, OtaSession, PT_ROWS};
use kc868_a6::ota_upload::{Arrival, OtaUpload, UploadStep, Verdict};

fn row(kind: u8, sub: u8, off: u32, size: u32) -> Option<[u8; 32]> {
    let mut bytes = [0u8; 32];
    bytes[0] = 0xAA;
    bytes[1] = 0x50;
    bytes[2] = kind;
    bytes[3] = sub;
    bytes[4..8].copy_from_slice(&off.to_le_bytes());
    bytes[8..12].copy_from_slice(&size.to_le_bytes());
    Some(bytes)
}

fn table() -> Vec<Option<[u8; 32]>> {
    let mut rows = vec![
        row(1, 2, 0x9000, 0x4000),
        row(1, 0, 0xd000, 0x2000),
        Some([0xEB; 32]),
        row(0, 0x10, 0x10000, 0x4000),
        row(0, 0x11, 0x14000, 0x4000),
        row(0, 0x12, 0x18000, 0x4000),
    ];
    while rows.len() < PT_ROWS {
        rows.push(Some([0xFF; 32]));
    }
    rows
}

fn entry(seq: u32) -> [u8; 32] {
    let mut bytes = [0xFFu8; 32];
    bytes[..4].copy_from_slice(&seq.to_le_bytes());
    bytes[28..].copy_from_slice(&crc32(&seq.to_le_bytes(), 0xFFFF_FFFF).to_le_bytes());
    bytes
}

#[test]
fn crc_check_value() {
    assert_eq!(crc32(b"123456789", 0), 0xCBF4_3926);
    assert_eq!(crc32(b"", 0), 0);
}

#[test]
fn crc_streams() {
    let whole = crc32(b"hello, board", 0);
    assert_eq!(crc32(b", board", crc32(b"hello", 0)), whole);
}

#[test]
fn boot_sequence_crc() {
    assert_eq!(crc32(&1u32.to_le_bytes(), 0xFFFF_FFFF), 0x4743_989A);
    assert_eq!(crc32(&2u32.to_le_bytes(), 0xFFFF_FFFF), 0x55F6_3774);
}

#[test]
fn layout_is_found() {
    let layout = read_layout(&table()).unwrap();
    assert_eq!(layout.ota, [(0x10000, 0x4000), (0x14000, 0x4000)]);
    assert_eq!(layout.count, 2);
    assert_eq!(layout.otadata_off, 0xd000);
    assert_eq!(layout.otadata_size, 0x2000);
    assert_eq!(layout.copy_offset(false), 0xd000);
    assert_eq!(layout.copy_offset(true), 0xe000);
}

#[test]
fn table_rows_lie_one_behind_the_other() {
    assert_eq!(row_address(0), 0x8000);
    assert_eq!(row_address(95), 0x8BE0);
}

#[test]
fn layout_stops_at_blank_or_unreadable_row() {
    let mut rows = table();
    rows[4] = Some([0xFF; 32]);
    assert_eq!(read_layout(&rows).err(), Some(OtaError::NoOtaPartitions));
    let mut rows = table();
    rows[3] = None;
    assert_eq!(read_layout(&rows).err(), Some(OtaError::NoOtaPartitions));
    let mut rows = table();
    rows[1] = row(1, 2, 0, 0);
    assert_eq!(read_layout(&rows).err(), Some(OtaError::NoOtaPartitions));
    let mut rows = table();
    rows[3] = row(1, 2, 0, 0);
    assert_eq!(read_layout(&rows).err(), Some(OtaError::NoOtaPartitions));
    assert_eq!(read_layout(&[]).err(), Some(OtaError::NoOtaPartitions));
}

#[test]
fn erased_otadata_stands_for_the_first_slot() {
    let blank = Some([0xFF; 32]);
    let session = OtaSession::begin(layout(), blank, blank, 1, 0).ok().unwrap();
    assert_eq!((session.seq0, session.seq1, session.target), (0, 0, 1));
}

#[test]
fn sequences_take_the_slots_in_turn() {
    assert_eq!(seq_to_part(0, 2), 0);
    assert_eq!(seq_to_part(1, 2), 0);
    assert_eq!(seq_to_part(2, 2), 1);
    assert_eq!(seq_to_part(3, 2), 0);
}

#[test]
fn otadata_copies_are_checked() {
    assert_eq!(read_seq(Some(entry(7))), 7);
    assert_eq!(read_seq(Some([0xFF; 32])), 0);
    assert_eq!(read_seq(None), 0);
    let mut torn = entry(7);
    torn[0] = 8;
    assert_eq!(read_seq(Some(torn)), 0);
}

fn layout() -> Layout {
    read_layout(&table()).unwrap()
}

#[test]
fn idle_slot_is_taken() {
    let blank = OtaSession::begin(layout(), None, Some([0xFF; 32]), 10, 0).ok().unwrap();
    assert_eq!(blank.target, 1);
    let first = OtaSession::begin(layout(), Some(entry(1)), Some(entry(2)), 10, 0).ok().unwrap();
    assert_eq!(first.target, 0);
    assert_eq!(first.slot_off, 0x10000);
    assert_eq!(
        OtaSession::begin(layout(), None, None, 0x4001, 0).err(),
        Some(OtaError::TooBig)
    );
}

#[test]
fn session_errors() {
    let mut session = OtaSession::begin(layout(), None, None, 3, 1).ok().unwrap();
    assert_eq!(session.write(b"", true), Ok(false));
    assert_eq!(session.write(b"", false), Ok(false));
    assert_eq!(session.written, 0);
    assert_eq!(session.write(b"abc", false), Err(OtaError::Flash));
    assert_eq!(session.write(b"abcd", true), Ok(true));
    assert_eq!(session.write(b"e", true), Ok(true));
    assert!(!session.stream_matches());
    assert_eq!(session.finish(Ok(1)).err(), Some(OtaError::Crc));
    let mut session = OtaSession::begin(layout(), None, None, 3, crc32(b"abc", 0)).ok().unwrap();
    assert_eq!(session.write(b"ab", true), Ok(false));
    assert_eq!(session.write(b"c", true), Ok(true));
    assert_eq!(session.finish(Err(OtaError::Flash)).err(), Some(OtaError::Flash));
    assert_eq!(session.finish(Ok(5)).err(), Some(OtaError::Crc));
    let record = session.finish(Ok(crc32(b"abc", 0))).ok().unwrap();
    assert_eq!(record.address, 0xd000);
    assert_eq!(record.entry, entry(2));
}

#[test]
fn error_texts() {
    assert_eq!(OtaError::NoOtaPartitions.as_str(), "no OTA partitions");
    assert_eq!(OtaError::TooBig.as_str(), "image too big for slot");
    assert_eq!(OtaError::Flash.as_str(), "flash error");
    assert_eq!(OtaError::Crc.as_str(), "CRC mismatch");
}

struct Flash {
    bytes: Vec<u8>,
    writes: Vec<(u32, usize)>,
    commits: usize,
    corrupt: Option<usize>,
    refuse_write: Option<usize>,
    refuse_commit: bool,
}

fn flash() -> Flash {
    let mut bytes = vec![0xFFu8; 0x18000];
    for (i, row) in table().iter().enumerate() {
        bytes[0x8000 + 32 * i..0x8020 + 32 * i].copy_from_slice(&row.unwrap());
    }
    Flash {
        bytes,
        writes: Vec::new(),
        commits: 0,
        corrupt: None,
        refuse_write: None,
        refuse_commit: false,
    }
}

fn at(bytes: &[u8], address: u32) -> Option<[u8; 32]> {
    let mut out = [0u8; 32];
    out.copy_from_slice(&bytes[address as usize..address as usize + 32]);
    Some(out)
}

/// Run an upload of `image` that arrives in pieces of `chunk` bytes.
fn upload(flash: &mut Flash, image: &[u8], size: u32, crc: u32, seed: usize, chunk: usize) -> Verdict {
    let mut state = OtaUpload::new(size, crc, &image[..seed]);
    let mut sent = seed;
    loop {
        state = match state.step() {
            UploadStep::ReadTable { rows } => {
                assert_eq!(rows, PT_ROWS);
                let table: Vec<Option<[u8; 32]>> =
                    (0..rows).map(|i| at(&flash.bytes, row_address(i))).collect();
                state.on_table(&table)
            }
            UploadStep::ReadCopies { first, second } => {
                let (a, b) = (at(&flash.bytes, first), at(&flash.bytes, second));
                state.on_copies(a, b)
            }
            UploadStep::Receive { want } => {
                assert!(want > 0);
                let n = want.min(chunk).min(image.len() - sent);
                sent += n;
                if n == 0 {
                    state.on_arrival(Arrival::Closed)
                } else {
                    state.on_arrival(Arrival::Data(&image[sent - n..sent]))
                }
            }
            UploadStep::Write { address, data } => {
                assert_eq!(address as usize % 4096, 0);
                let from = address as usize;
                let refused = flash.refuse_write == Some(flash.writes.len());
                if !refused {
                    flash.bytes[from..from + data.len()].copy_from_slice(data);
                    flash.writes.push((address, data.len()));
                }
                state.on_written(!refused)
            }
            UploadStep::Read { address, len } => {
                if let Some(spot) = flash.corrupt.take() {
                    flash.bytes[spot] ^= 1;
                }
                let from = address as usize;
                let piece = flash.bytes[from..from + len].to_vec();
                state.on_read(Some(&piece))
            }
            UploadStep::Commit { address, entry } => {
                if !flash.refuse_commit {
                    let from = address as usize;
                    flash.bytes[from..from + 32].copy_from_slice(&entry);
                    flash.commits += 1;
                }
                state.on_committed(!flash.refuse_commit)
            }
            UploadStep::Done(verdict) => return verdict,
        };
    }
}

fn image(len: usize) -> Vec<u8> {
    (0..len).map(|i| (i * 7 + i / 251) as u8).collect()
}

#[test]
fn upload_boots_the_new_slot() {
    let mut flash = flash();
    let image = image(9_000);
    let crc = crc32(&image, 0);
    assert_eq!(upload(&mut flash, &image, 9_000, crc, 100, 1_460), Verdict::Committed);
    assert_eq!(flash.writes, vec![(0x14000, 4096), (0x15000, 4096), (0x16000, 808)]);
    assert_eq!(&flash.bytes[0x14000..0x14000 + 9_000], &image[..]);
    assert_eq!(flash.commits, 1);
    assert_eq!(read_seq(at(&flash.bytes, 0xd000)), 2);
    assert_eq!(upload(&mut flash, &image, 9_000, crc, 0, 4_096), Verdict::Committed);
    assert_eq!(flash.writes[3], (0x10000, 4096));
    assert_eq!(read_seq(at(&flash.bytes, 0xd000)), 2);
    assert_eq!(read_seq(at(&flash.bytes, 0xe000)), 3);
}

#[test]
fn upload_of_whole_sectors_and_small_images() {
    for len in [1usize, 255, 256, 257, 4_095, 4_096, 4_097, 8_192] {
        let mut flash = flash();
        let image = image(len);
        let seed = len.min(17);
        let verdict = upload(&mut flash, &image, len as u32, crc32(&image, 0), seed, 333);
        assert_eq!(verdict, Verdict::Committed);
        assert_eq!(&flash.bytes[0x14000..0x14000 + len], &image[..]);
    }
}

#[test]
fn upload_with_wrong_sum_is_refused() {
    let mut flash = flash();
    let image = image(5_000);
    assert_eq!(
        upload(&mut flash, &image, 5_000, 1, 0, 1_000),
        Verdict::Failed(OtaError::Crc)
    );
    assert_eq!(flash.commits, 0);
}

#[test]
fn upload_with_bad_flash_is_refused() {
    let mut flash = flash();
    let image = image(5_000);
    flash.corrupt = Some(0x14000 + 4_999);
    assert_eq!(
        upload(&mut flash, &image, 5_000, crc32(&image, 0), 0, 1_000),
        Verdict::Failed(OtaError::Crc)
    );
    assert_eq!(flash.commits, 0);
}

#[test]
fn upload_with_failing_writes() {
    let image = image(5_000);
    let crc = crc32(&image, 0);
    let mut first = flash();
    first.refuse_write = Some(1);
    assert_eq!(upload(&mut first, &image, 5_000, crc, 0, 1_000), Verdict::Failed(OtaError::Flash));
    let mut second = flash();
    second.refuse_commit = true;
    assert_eq!(upload(&mut second, &image, 5_000, crc, 0, 1_000), Verdict::Failed(OtaError::Flash));
}

#[test]
fn upload_verdicts_without_an_image() {
    let mut flash = flash();
    assert_eq!(upload(&mut flash, &[], 0, 0, 0, 1), Verdict::MissingLength);
    assert_eq!(upload(&mut flash, &[1, 2], 3, 0, 0, 1), Verdict::Short);
    assert_eq!(upload(&mut flash, &[1, 2], 0x4001, 0, 0, 1), Verdict::Failed(OtaError::TooBig));
    assert_eq!(flash.commits, 0);
    for byte in &mut flash.bytes[0x8000..0x8400] {
        *byte = 0xFF;
    }
    assert_eq!(
        upload(&mut flash, &[1, 2], 2, 0, 0, 1),
        Verdict::Failed(OtaError::NoOtaPartitions)
    );
}

#[test]
fn broken_connection_drops_the_upload() {
    let state = OtaUpload::new(10, 0, b"abc");
    let state = state.on_table(&table()).on_copies(None, None).on_arrival(Arrival::Broken);
    match state.step() {
        UploadStep::Done(verdict) => {
            assert_eq!(verdict, Verdict::Dropped);
            assert_eq!(verdict.message(), None);
        }
        _ => panic!("not over"),
    }
}

#[test]
fn verdict_messages() {
    assert_eq!(Verdict::Committed.message(), Some("OK - rebooting into new firmware"));
    assert_eq!(Verdict::MissingLength.message(), Some("missing Content-Length"));
    assert_eq!(Verdict::Short.message(), Some("short upload"));
    assert_eq!(Verdict::Failed(OtaError::Crc).message(), Some("CRC mismatch"));
    assert!(Verdict::Committed.reboots());
    assert!(!Verdict::Short.reboots());
}
