//! Tests of the file-watch cache, the handler registry and the binary
//! G-code helpers.

use gantry::bgcode::{
    checksum_check_needed, BlockHeader, CheckSum, ChecksumType, Error, FileHeader,
};
use gantry::files::FileWatchCache;
use gantry::gcode::GcodeFile;

fn bytes(s: &str) -> Vec<u8> {
    s.as_bytes().to_vec()
}

#[test]
fn cache_lookup_finds_inserted_paths() {
    let mut c = FileWatchCache::new();
    assert!(c.lookup(&bytes("/data/a.gcode")).is_none());
    c.insert(bytes("/data/a.gcode"), GcodeFile::parse("G28\n"));
    c.insert(bytes("/data/b.gcode"), GcodeFile::parse("G1 X1\n"));
    let i = c.lookup(&bytes("/data/b.gcode")).expect("the entry should be found");
    assert_eq!(c.entries[i].1.commands[0].cmd, "G1");
    assert!(c.lookup(&bytes("/data/c.gcode")).is_none());
}

#[test]
fn events_invalidate_by_prefix() {
    let mut c = FileWatchCache::new();
    c.insert(bytes("/data/jobs/a.gcode"), GcodeFile::parse("G28\n"));
    c.insert(bytes("/data/jobs/b.gcode"), GcodeFile::parse("G28\n"));
    c.insert(bytes("/other/c.gcode"), GcodeFile::parse("G28\n"));
    // A directory-wide event drops everything below it.
    c.invalidate(&vec![bytes("/data/jobs")]);
    assert_eq!(c.entries.len(), 1);
    assert_eq!(c.entries[0].0, bytes("/other/c.gcode"));
    // An exact-path event drops exactly that entry.
    c.invalidate(&vec![bytes("/other/c.gcode")]);
    assert!(c.entries.is_empty());
}

#[test]
fn handlers_match_prefixes_and_unregister() {
    let mut c = FileWatchCache::new();
    let a = c.watch(bytes("/data"));
    let b = c.watch(bytes("/logs"));
    let hit = c.handlers_to_invoke(&vec![bytes("/data/jobs/a.gcode")]);
    assert_eq!(hit, vec![a]);
    let both = c.handlers_to_invoke(&vec![bytes("/data/x"), bytes("/logs/y")]);
    assert_eq!(both, vec![a, b]);
    // A handler whose callback declined to stay is unregistered.
    c.unregister(a);
    let after = c.handlers_to_invoke(&vec![bytes("/data/x")]);
    assert!(after.is_empty());
    assert_eq!(c.handlers.len(), 1);
}

#[test]
fn block_size_depends_on_compression() {
    let plain = BlockHeader {
        type_: 1,
        compression: 0,
        uncompressed_size: 100,
        compressed_size: 60,
        position: 4,
    };
    assert_eq!(plain.get_size(), 100);
    assert_eq!(plain.get_position(), 4);
    let deflated = BlockHeader { compression: 1, ..plain };
    assert_eq!(deflated.get_size(), 60);
}

#[test]
fn checksum_precheck_rejects_empty_buffers() {
    let header = FileHeader::new(0x45444347, 1, 0);
    assert_eq!(checksum_check_needed(&header, 0), Err(Error::InvalidBuffer));
    assert_eq!(checksum_check_needed(&header, 16), Ok(false));
    let with_crc = FileHeader::new(0x45444347, 1, 1);
    assert_eq!(checksum_check_needed(&with_crc, 16), Ok(true));
    let c = CheckSum::new(ChecksumType::CRC32);
    assert_eq!(c.get_type(), ChecksumType::CRC32);
}

#[test]
fn printer_results_carry_payload_or_error() {
    let ok = gantry::api::PrinterResult::ok(5u64);
    assert_eq!(ok.result, Some(5));
    assert_eq!(ok.error.code, gantry::api::PrinterErrorCode::NoError);
    let err = gantry::api::PrinterResult::<u64>::err(gantry::api::PrinterError {
        code: gantry::api::PrinterErrorCode::FileCapacityFull,
        message: "disk full".to_string(),
    });
    assert!(err.result.is_none());
    assert_eq!(err.error.code, gantry::api::PrinterErrorCode::FileCapacityFull);
}
