//! Batch runs, statistics and the orphan sweep on concrete values.

use thumbcache::batch::{
    run_batch, BatchItem, BatchJob, CacheCancellation, JobStatus, ProgressEvent,
};
use thumbcache::fingerprint::fingerprint;
use thumbcache::models::{AppConfig, Resolution};
use thumbcache::stats::{count_missing, make_stats, sum_sizes, CacheStats};
use thumbcache::sweep::orphan_keys;
use thumbcache::text::decimal_string;

#[test]
fn a_full_run_generates_what_was_missing() {
    let fp_a = fingerprint(b"/root/a.psd", Some(100));
    let fp_b = fingerprint(b"/root/b.jpg", Some(200));
    let mut cache: Vec<Vec<u8>> = vec![fp_b.clone()];
    let items = vec![
        BatchItem { fingerprint: fp_a.clone(), gen_ok: true },
        BatchItem { fingerprint: fp_b.clone(), gen_ok: true },
    ];
    let cancels = vec![false, false];
    let report = run_batch(&mut cache, &items, &cancels);

    assert_eq!(report.generated, 1);
    assert!(!report.cancelled);
    assert_eq!(report.summary, "Generated 1 new thumbnails");
    assert_eq!(report.events, vec![
        ProgressEvent { current: 0, total: 2, status: JobStatus::Scanning },
        ProgressEvent { current: 1, total: 2, status: JobStatus::Generating },
        ProgressEvent { current: 2, total: 2, status: JobStatus::Generating },
        ProgressEvent { current: 2, total: 2, status: JobStatus::Finished },
    ]);
    assert_eq!(cache, vec![fp_b.clone(), fp_a.clone()]);
    let fps = vec![fp_a, fp_b];
    assert_eq!(count_missing(&fps, &cache), 0);
}

#[test]
fn a_cancel_stops_at_the_item_boundary() {
    let fp_a = fingerprint(b"/root/a.psd", Some(1));
    let fp_b = fingerprint(b"/root/b.ai", Some(2));
    let fp_c = fingerprint(b"/root/c.eps", Some(3));
    let mut cache: Vec<Vec<u8>> = Vec::new();
    let items = vec![
        BatchItem { fingerprint: fp_a.clone(), gen_ok: true },
        BatchItem { fingerprint: fp_b, gen_ok: true },
        BatchItem { fingerprint: fp_c, gen_ok: true },
    ];
    let cancels = vec![false, true, false];
    let report = run_batch(&mut cache, &items, &cancels);

    assert_eq!(report.generated, 1);
    assert!(report.cancelled);
    assert_eq!(report.summary, "Generation cancelled. Generated 1 thumbnails.");
    assert_eq!(report.events, vec![
        ProgressEvent { current: 0, total: 3, status: JobStatus::Scanning },
        ProgressEvent { current: 1, total: 3, status: JobStatus::Generating },
        ProgressEvent { current: 1, total: 3, status: JobStatus::Cancelled },
    ]);
    assert_eq!(cache, vec![fp_a]);
}

#[test]
fn a_failing_item_is_skipped_not_fatal() {
    let fp_a = fingerprint(b"/root/a.psd", Some(1));
    let fp_b = fingerprint(b"/root/b.ai", Some(2));
    let mut cache: Vec<Vec<u8>> = Vec::new();
    let items = vec![
        BatchItem { fingerprint: fp_a, gen_ok: false },
        BatchItem { fingerprint: fp_b.clone(), gen_ok: true },
    ];
    let cancels = vec![false, false];
    let report = run_batch(&mut cache, &items, &cancels);
    assert_eq!(report.generated, 1);
    assert!(!report.cancelled);
    assert_eq!(cache, vec![fp_b]);
    assert_eq!(report.events.last().unwrap().status, JobStatus::Finished);
}

#[test]
fn the_flag_sets_resets_and_reads() {
    let mut flag = CacheCancellation::new();
    assert!(!flag.is_canceled());
    flag.cancel();
    assert!(flag.is_canceled());
    flag.reset();
    assert!(!flag.is_canceled());
}

#[test]
fn the_stepwise_controller_matches_the_run() {
    let (mut job, ev) = BatchJob::start(2);
    assert_eq!(ev, ProgressEvent { current: 0, total: 2, status: JobStatus::Scanning });
    assert!(job.poll_cancel(false).is_none());
    let ev = job.begin_item();
    assert_eq!(ev, ProgressEvent { current: 1, total: 2, status: JobStatus::Generating });
    job.record_generated();
    let ev = job.poll_cancel(true).unwrap();
    assert_eq!(ev, ProgressEvent { current: 1, total: 2, status: JobStatus::Cancelled });
    assert_eq!(job.summary(), "Generation cancelled. Generated 1 thumbnails.");
}

#[test]
fn status_labels_spell_the_phases() {
    assert_eq!(JobStatus::Scanning.label(), "Scanning...");
    assert_eq!(JobStatus::Generating.label(), "Generating cache...");
    assert_eq!(JobStatus::Cancelled.label(), "Cancelled");
    assert_eq!(JobStatus::Finished.label(), "Finished");
}

#[test]
fn missing_counts_candidates_without_entries() {
    let fps = vec![b"k1".to_vec(), b"k2".to_vec(), b"k3".to_vec()];
    let cache = vec![b"k2".to_vec(), b"k9".to_vec()];
    assert_eq!(count_missing(&fps, &cache), 2);
    assert_eq!(count_missing(&Vec::new(), &cache), 0);
}

#[test]
fn sizes_add_up_and_saturate() {
    assert_eq!(sum_sizes(&vec![10, 20, 12]), 42);
    assert_eq!(sum_sizes(&Vec::new()), 0);
    assert_eq!(sum_sizes(&vec![u64::MAX, 5]), u64::MAX);
}

#[test]
fn stats_come_from_the_three_inputs() {
    let sizes = vec![100, 250];
    let fps = vec![b"a".to_vec(), b"b".to_vec()];
    let cache = vec![b"b".to_vec()];
    let s: CacheStats = make_stats(&sizes, &fps, &cache);
    assert_eq!(s.file_count, 2);
    assert_eq!(s.total_size, 350);
    assert_eq!(s.missing_count, 1);
}

#[test]
fn the_sweep_deletes_exactly_the_orphans() {
    let cached = vec![b"old".to_vec(), b"live".to_vec(), b"stale".to_vec()];
    let live = vec![b"live".to_vec()];
    assert_eq!(orphan_keys(&cached, &live), vec![b"old".to_vec(), b"stale".to_vec()]);
}

#[test]
fn a_modified_source_orphans_its_old_entry() {
    let path = b"/root/brief.indd";
    let old_fp = fingerprint(path, Some(1_000));
    let new_fp = fingerprint(path, Some(2_000));
    let cached = vec![old_fp.clone()];
    let live = vec![new_fp.clone()];

    let orphans = orphan_keys(&cached, &live);
    assert_eq!(orphans, vec![old_fp]);
    assert_eq!(count_missing(&live, &cached), 1);
}

#[test]
fn a_deleted_source_loses_its_entry() {
    let fp = fingerprint(b"/root/gone.tif", Some(10));
    let cached = vec![fp.clone()];
    let live: Vec<Vec<u8>> = Vec::new();
    assert_eq!(orphan_keys(&cached, &live), vec![fp]);
}

#[test]
fn counters_render_in_decimal() {
    assert_eq!(decimal_string(0), "0");
    assert_eq!(decimal_string(7), "7");
    assert_eq!(decimal_string(105), "105");
    assert_eq!(decimal_string(u64::MAX), "18446744073709551615");
}

#[test]
fn the_default_config_is_the_installation_default() {
    let c = AppConfig::default();
    assert_eq!(c.primary_color, "#111b23");
    assert_eq!(c.border_color, "rgba(124, 124, 124, 0.33)");
    assert_eq!(c.accent_color, "#2fa5a2");
    assert_eq!(c.warning_color, "#ff6b6b");
    assert_eq!(c.current_module, "M-Inicio");
    assert!(c.remember_module);
    assert!(!c.lowercase_path);
    assert_eq!(c.resolution, Resolution { width: 1000, height: 600 });
}

#[test]
fn an_empty_run_finishes_at_once() {
    let mut cache: Vec<Vec<u8>> = Vec::new();
    let report = run_batch(&mut cache, &Vec::new(), &Vec::new());
    assert_eq!(report.generated, 0);
    assert!(!report.cancelled);
    assert_eq!(report.events, vec![
        ProgressEvent { current: 0, total: 0, status: JobStatus::Scanning },
        ProgressEvent { current: 0, total: 0, status: JobStatus::Finished },
    ]);
    assert_eq!(report.summary, "Generated 0 new thumbnails");
}

#[test]
fn duplicate_fingerprints_are_generated_once() {
    let fp = fingerprint(b"/root/twice.png", Some(4));
    let mut cache: Vec<Vec<u8>> = Vec::new();
    let items = vec![
        BatchItem { fingerprint: fp.clone(), gen_ok: true },
        BatchItem { fingerprint: fp.clone(), gen_ok: true },
    ];
    let report = run_batch(&mut cache, &items, &vec![false, false]);
    assert_eq!(report.generated, 1);
    assert_eq!(cache, vec![fp]);
}

#[test]
fn sweeping_an_empty_cache_removes_nothing() {
    let live = vec![b"live".to_vec()];
    assert_eq!(orphan_keys(&Vec::new(), &live), Vec::<Vec<u8>>::new());
    assert_eq!(orphan_keys(&Vec::new(), &Vec::new()), Vec::<Vec<u8>>::new());
}
