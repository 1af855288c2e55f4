use hdd_speed_test::CHUNKSIZE;
use hdd_speed_test::aggregate::sum_lengths;
use hdd_speed_test::config::RunConfig;
use hdd_speed_test::paths::{backing_file_path, backing_file_paths, dirname};
use hdd_speed_test::provision::{
    FILLDATA_LEN, ProvisionDecision, ProvisionOutcome, fill_plan, provision_decision,
    throughput_measured,
};
use hdd_speed_test::workload::{generate_workload, random_buffer};

#[test]
fn scenario_single_thread() {
    let cfg = RunConfig::new(4, false, false, 10, 1, false).unwrap();
    assert_eq!(cfg.filesize(), 4_194_304);
    assert_eq!(cfg.chunk_count(), 1024);
    assert_eq!(cfg.ops_per_thread(), 10);
    assert_eq!(cfg.total_operations(), 10);
    let wl = generate_workload(cfg.wrnum, cfg.threadnums, cfg.chunk_count());
    assert_eq!(wl.len(), 10);
    for &c in &wl {
        assert!(c < 1024);
    }
}

#[test]
fn scenario_four_threads() {
    let cfg = RunConfig::new(4, false, false, 10, 4, false).unwrap();
    assert_eq!(cfg.ops_per_thread(), 2);
    assert_eq!(cfg.total_operations(), 8);
    assert_eq!(cfg.filesize(), CHUNKSIZE * 256);
    let wl = generate_workload(cfg.wrnum, cfg.threadnums, cfg.chunk_count());
    assert_eq!(wl.len(), 2);
}

#[test]
fn config_rejects_invalid() {
    assert!(RunConfig::new(0, false, false, 10, 1, false).is_none());
    assert!(RunConfig::new(4, false, false, 0, 1, false).is_none());
    assert!(RunConfig::new(4, false, false, 10, 0, false).is_none());
    assert!(RunConfig::new(u64::MAX, false, false, 10, 1, false).is_none());
    assert!(RunConfig::new(1, false, false, 10, 257, false).is_none());
    assert!(RunConfig::new(1, false, false, 10, 256, false).is_some());
}

#[test]
fn reuse_suppresses_throughput() {
    assert_eq!(
        provision_decision(Some(4_194_304), 4_194_304),
        ProvisionDecision::Reuse
    );
    assert!(throughput_measured(&vec![
        ProvisionOutcome::Created,
        ProvisionOutcome::Created
    ]));
    assert!(!throughput_measured(&vec![
        ProvisionOutcome::Created,
        ProvisionOutcome::Reused,
        ProvisionOutcome::Created
    ]));
}

#[test]
fn wrong_size_is_refilled() {
    assert_eq!(
        provision_decision(Some(4096), 4_194_304),
        ProvisionDecision::Refill
    );
    assert_eq!(provision_decision(None, 4_194_304), ProvisionDecision::Refill);
    let (nbig, nchunk) = fill_plan(4_194_304, FILLDATA_LEN, CHUNKSIZE);
    assert_eq!((nbig, nchunk), (32, 0));
    assert_eq!(nbig * FILLDATA_LEN + nchunk * CHUNKSIZE, 4_194_304);
    let odd_size = FILLDATA_LEN * 2 + CHUNKSIZE * 3;
    let (nbig, nchunk) = fill_plan(odd_size, FILLDATA_LEN, CHUNKSIZE);
    assert_eq!((nbig, nchunk), (2, 3));
    assert_eq!(nbig * FILLDATA_LEN + nchunk * CHUNKSIZE, odd_size);
}

#[test]
fn paths_are_zero_padded() {
    assert_eq!(
        backing_file_path(0).as_str(),
        "hdd_speed_test_tmpdir/testfile.dat-000000"
    );
    assert_eq!(
        backing_file_path(42).as_str(),
        "hdd_speed_test_tmpdir/testfile.dat-000042"
    );
    assert_eq!(
        backing_file_path(1_234_567).as_str(),
        "hdd_speed_test_tmpdir/testfile.dat-1234567"
    );
    assert_eq!(dirname(), "hdd_speed_test_tmpdir");
}

#[test]
fn path_list_is_exact_and_inside_dir() {
    let v = backing_file_paths(4);
    assert_eq!(v.len(), 4);
    for (i, p) in v.iter().enumerate() {
        assert_eq!(p.as_str(), backing_file_path(i as u64).as_str());
        assert!(p.starts_with("hdd_speed_test_tmpdir/"));
        for (j, q) in v.iter().enumerate() {
            if i != j {
                assert_ne!(p, q);
            }
        }
    }
}

#[test]
fn workload_respects_bounds() {
    let wl = generate_workload(10, 3, 1);
    assert_eq!(wl.len(), 3);
    for &c in &wl {
        assert_eq!(c, 0);
    }
}

#[test]
fn fill_buffers_have_requested_length() {
    assert_eq!(random_buffer(0).len(), 0);
    assert_eq!(random_buffer(4096).len(), 4096);
}

#[test]
fn total_bytes_are_summed() {
    assert_eq!(sum_lengths(&vec![1, 2, 3]), Some(6));
    assert_eq!(sum_lengths(&vec![]), Some(0));
    assert_eq!(sum_lengths(&vec![u64::MAX, 1]), None);
}
