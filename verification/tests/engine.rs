use hdd_speed_test::words::{fill_value, wrapping_add32};
use hdd_speed_test::worker::{speedtest_testfunc, WorkerError};
use memmap::MmapMut;

fn word_at(buf: &[u8], off: usize) -> u32 {
    ((buf[off] as u32) << 24)
        + ((buf[off + 1] as u32) << 16)
        + ((buf[off + 2] as u32) << 8)
        + (buf[off + 3] as u32)
}

#[test]
fn fill_value_exact() {
    assert_eq!(fill_value(0), 1);
    assert_eq!(fill_value(1), 17);
    assert_eq!(fill_value(2), 33);
    assert_eq!(fill_value(1023), 1023 * 16 + 1);
    assert_eq!(fill_value(0x1000_0000), 1);
}

#[test]
fn wrapping_add32_wraps() {
    assert_eq!(wrapping_add32(5, 7), 12);
    assert_eq!(wrapping_add32(u32::MAX, 1), 0);
    assert_eq!(wrapping_add32(u32::MAX, u32::MAX), u32::MAX - 1);
}

#[test]
fn write_only_fills_every_word() {
    let mut m = MmapMut::map_anon(8192).unwrap();
    let wl: Vec<u64> = vec![0, 1];
    let r = speedtest_testfunc(&mut m, 8192, &wl, false, true);
    assert_eq!(r, Ok(8192));
    for w in 0..1024 {
        assert_eq!(word_at(&m[..], 4 * w), 1);
    }
    for w in 0..1024 {
        assert_eq!(word_at(&m[..], 4096 + 4 * w), 17);
    }
}

#[test]
fn write_only_round_trip() {
    let mut m = MmapMut::map_anon(12288).unwrap();
    let wl: Vec<u64> = vec![2];
    let r = speedtest_testfunc(&mut m, 12288, &wl, false, true);
    assert_eq!(r, Ok(12288));
    for w in 0..1024 {
        let off = 8192 + 4 * w;
        assert_eq!(m[off], 0);
        assert_eq!(m[off + 1], 0);
        assert_eq!(m[off + 2], 0);
        assert_eq!(m[off + 3], 33);
        assert_eq!(word_at(&m[..], off), fill_value(2));
    }
    for i in 0..8192 {
        assert_eq!(m[i], 0);
    }
}

#[test]
fn write_only_idempotent() {
    let mut once = MmapMut::map_anon(16384).unwrap();
    let mut twice = MmapMut::map_anon(16384).unwrap();
    let r1 = speedtest_testfunc(&mut once, 16384, &vec![3], false, true);
    let r2 = speedtest_testfunc(&mut twice, 16384, &vec![3, 3], false, true);
    assert_eq!(r1, Ok(16384));
    assert_eq!(r2, Ok(16384));
    assert_eq!(&once[..], &twice[..]);
}

#[test]
fn rmw_additive() {
    let mut m = MmapMut::map_anon(4096).unwrap();
    let seed = speedtest_testfunc(&mut m, 4096, &vec![0], false, true);
    assert_eq!(seed, Ok(4096));
    let r = speedtest_testfunc(&mut m, 4096, &vec![0, 0], true, true);
    assert_eq!(r, Ok(4096));
    for w in 0..1024 {
        assert_eq!(word_at(&m[..], 4 * w), 3);
    }
}

#[test]
fn rmw_from_zero() {
    let mut m = MmapMut::map_anon(8192).unwrap();
    let r = speedtest_testfunc(&mut m, 8192, &vec![1], true, true);
    assert_eq!(r, Ok(8192));
    for w in 0..1024 {
        assert_eq!(word_at(&m[..], 4096 + 4 * w), 17);
    }
    for i in 0..4096 {
        assert_eq!(m[i], 0);
    }
}

#[test]
fn size_mismatch_is_fatal() {
    let mut m = MmapMut::map_anon(4096).unwrap();
    let r = speedtest_testfunc(&mut m, 8192, &vec![0], false, true);
    assert_eq!(r, Err(WorkerError::SizeMismatch));
    for i in 0..4096 {
        assert_eq!(m[i], 0);
    }
}

#[test]
fn index_out_of_range_is_fatal() {
    let mut m = MmapMut::map_anon(4096).unwrap();
    let r = speedtest_testfunc(&mut m, 4096, &vec![1], false, true);
    assert_eq!(r, Err(WorkerError::IndexOutOfRange));
    for i in 0..4096 {
        assert_eq!(m[i], 0);
    }
}

#[test]
fn synchronous_flush_succeeds() {
    let mut m = MmapMut::map_anon(4096).unwrap();
    let r = speedtest_testfunc(&mut m, 4096, &vec![0, 0, 0], false, false);
    assert_eq!(r, Ok(4096));
    for w in 0..1024 {
        assert_eq!(word_at(&m[..], 4 * w), 1);
    }
}
