use riscos::fs::{Error as FsError, File};
use riscos::helper::ROString;
use riscos::path::{Error as PathError, Path};
use riscos::rt::{
    claim_size, heap_size, size_change, slot_change, wanted_slot_size, ReallocAction,
    ReallocRetry,
};
use riscos::sys::os::gbpb_transferred;
use riscos::sys::wimp::slot_size_arg;
use riscos::vdu::write_str_bytes;

#[test]
fn ro_string_from_str() {
    assert_eq!(ROString::from_str("abc").as_bytes(), b"abc\0");
    assert_eq!(ROString::from_str("").as_bytes(), b"\0");
    assert_eq!(ROString::from_str("\u{e9}\u{100}").as_bytes(), &[0xe9, 0x00, 0x00]);
}

#[test]
fn path_to_c_str() {
    let mut buffer = [0xffu8; 8];
    assert_eq!(Path::from("a.b").to_c_str(&mut buffer), Ok(4));
    assert_eq!(&buffer, &[b'a', b'.', b'b', 0, 0xff, 0xff, 0xff, 0xff]);
}

#[test]
fn path_too_long() {
    let mut buffer = [0xffu8; 3];
    assert_eq!(Path::from("abc").to_c_str(&mut buffer), Err(PathError::PathTooLong));
    assert_eq!(buffer, [0xff; 3]);
}

#[test]
fn path_with_nul_is_invalid() {
    let mut buffer = [0xffu8; 4];
    let bytes: &[u8] = b"a\0b";
    assert_eq!(Path::from(bytes).to_c_str(&mut buffer), Err(PathError::InvalidPath));
    assert_eq!(buffer, [b'a', 0, b'b', 0]);
}

#[test]
fn file_open_request() {
    let buf = File::open_request(Path::from("$.Dir.File")).unwrap();
    assert_eq!(&buf[..11], b"$.Dir.File\0");
    assert!(buf[11..].iter().all(|&b| b == 0));
    let long = "x".repeat(256);
    assert_eq!(File::open_request(Path::from(long.as_str())).err(), Some(FsError::InvalidPath));
    let fits = "x".repeat(255);
    assert!(File::open_request(Path::from(fits.as_str())).is_ok());
    let bytes: &[u8] = b"a\0";
    assert_eq!(File::open_request(Path::from(bytes)).err(), Some(FsError::InvalidPath));
}

#[test]
fn file_handles_and_reads() {
    assert_eq!(File::from_handle(0).err(), Some(FsError::NotFound));
    assert_eq!(File::from_handle(0xfe).unwrap().handle(), 0xfe);
    assert_eq!(File::read_outcome(12, true), Ok(12));
    assert_eq!(File::read_outcome(12, false), Err(FsError::PermissionDenied));
    assert_eq!(gbpb_transferred(256, 56), 200);
}

#[test]
fn vdu_bytes_for_text() {
    assert_eq!(write_str_bytes("a\nb"), vec![b'a', 13, 10, b'b']);
    assert_eq!(write_str_bytes(""), Vec::<u8>::new());
    assert_eq!(write_str_bytes("\n\n"), vec![13, 10, 13, 10]);
    assert_eq!(write_str_bytes("\u{a3}"), vec![0xa3]);
}

#[test]
fn allocation_sizes() {
    assert_eq!(claim_size(0), 0);
    assert_eq!(claim_size(5), 8);
    assert_eq!(claim_size(8), 8);
    assert_eq!(wanted_slot_size(4096, 1), 8192);
    assert_eq!(wanted_slot_size(4096, 0), 4096);
    assert_eq!(wanted_slot_size(100, 200), 4096);
    assert_eq!(heap_size(0x8000, 0x8007), 4);
    assert_eq!(size_change(100, 40), -60);
    assert_eq!(slot_change(8192, 4096), -4096);
    assert_eq!(slot_change(4096, 12288), 8192);
}

#[test]
fn realloc_schedule() {
    let mut retry = ReallocRetry::new();
    assert!(retry.after_resize(true, 10) == ReallocAction::Finish);
    assert!(retry.after_resize(false, -10) == ReallocAction::Finish);
    assert!(retry.after_resize(false, 10) == ReallocAction::GrowHeap(4096));
    assert!(retry.after_grow(true));
    assert!(retry.after_resize(false, 10) == ReallocAction::GrowHeap(5120));
    assert!(!retry.after_grow(false));
    assert!(retry.after_resize(false, 10) == ReallocAction::GrowHeap(5120));
}

#[test]
fn realloc_gives_up_after_all_attempts() {
    let mut retry = ReallocRetry::new();
    let mut resizes = 1;
    while retry.after_grow(true) {
        resizes += 1;
    }
    assert_eq!(resizes, 55);
    assert!(retry.after_resize(false, 1) == ReallocAction::GrowHeap(875737902));
}

#[test]
fn slot_size_arguments() {
    assert_eq!(slot_size_arg(None), -1);
    assert_eq!(slot_size_arg(Some(0x8000)), 0x8000);
    assert_eq!(slot_size_arg(Some(usize::MAX)), i32::MAX);
}

#[test]
fn vdu_bytes_of_joined_strings() {
    let joined = write_str_bytes("ab\ncd\n");
    let mut pieces = write_str_bytes("ab\nc");
    pieces.extend(write_str_bytes("d\n"));
    assert_eq!(joined, pieces);
}

#[test]
fn vdu_line_feeds_follow_returns() {
    let out = write_str_bytes("x\ny\n\nz");
    for (j, &b) in out.iter().enumerate() {
        if b == 10 {
            assert!(j > 0 && out[j - 1] == 13);
        }
    }
}

#[test]
fn aligned_sizes_are_kept() {
    for size in [0usize, 4, 8, 4096, 1 << 20] {
        assert_eq!(claim_size(size), size);
        assert_eq!(claim_size(claim_size(size + 1)), claim_size(size + 1));
    }
    assert_eq!(wanted_slot_size(8192, 4096), 12288);
}
