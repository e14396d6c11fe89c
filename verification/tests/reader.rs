use kstat::kstat_ctl::{ChainEntry, KstatCtl, ReadOutcome};
use kstat::kstat_named::{KstatNamedData, RawNamed, StringTable};
use kstat::kstat_types::{
    KSTAT_DATA_UINT64, KSTAT_TYPE_IO, KSTAT_TYPE_NAMED, KSTAT_TYPE_RAW, KSTAT_TYPE_TIMER,
};
use kstat::{KstatData, KstatError, KstatReader};

fn counter(name: &str, v: u64) -> RawNamed {
    let mut slot = v.to_le_bytes().to_vec();
    slot.resize(16, 0);
    RawNamed { name: name.to_string(), data_type: KSTAT_DATA_UINT64, value: slot }
}

fn entry(module: &str, instance: i32, name: &str, class: &str, ks_type: u8) -> ChainEntry {
    ChainEntry {
        class: class.to_string(),
        module: module.to_string(),
        instance,
        name: name.to_string(),
        ks_type,
        crtime: 10,
        snaptime: 20,
        outcome: ReadOutcome::Data(vec![counter("value", instance as u64)]),
    }
}

/// A small simulated chain resembling a host's: cpu, memory and disk
/// providers of several classes, plus records whose type is not decodable.
fn sample_ctl() -> KstatCtl {
    let chain = vec![
        entry("cpu", 0, "vm", "misc", KSTAT_TYPE_NAMED),
        entry("cpu", 1, "vm", "misc", KSTAT_TYPE_NAMED),
        entry("unix", 0, "system_pages", "pages", KSTAT_TYPE_NAMED),
        entry("unix", 1, "kmem_alloc_16", "keme_cache", KSTAT_TYPE_NAMED),
        entry("sd", 0, "sd0", "disk", KSTAT_TYPE_IO),
        entry("unix", 0, "page_fault_trace", "trace", KSTAT_TYPE_RAW),
        entry("unix", 0, "deadman", "timer", KSTAT_TYPE_TIMER),
    ];
    KstatCtl::new(chain, StringTable::new(), 1)
}

fn assert_stats_eq(a: &[KstatData], b: &[KstatData]) {
    assert_eq!(format!("{:?}", a), format!("{:?}", b));
}

#[test]
fn all_reader() {
    let mut reader = KstatReader::new(sample_ctl());
    let stats = reader.read().expect("failed to read kstat(s)");
    assert!(stats.len() > 0);
}

#[test]
fn module_reader() {
    let module = "cpu";
    let mut reader = KstatReader::new(sample_ctl());
    reader.module(module);
    let stats = reader.read().expect("failed to read kstat(s)");
    for stat in stats {
        assert_eq!(stat.module, module);
    }
}

#[test]
fn instance_reader() {
    let instance: i32 = 0;
    let mut reader = KstatReader::new(sample_ctl());
    reader.instance(instance);
    let stats = reader.read().expect("failed to read kstat(s)");
    for stat in stats {
        assert_eq!(stat.instance, instance);
    }
}

#[test]
fn name_reader() {
    let name = "vm";
    let mut reader = KstatReader::new(sample_ctl());
    reader.name(name);
    let stats = reader.read().expect("failed to read kstat(s)");
    for stat in stats {
        assert_eq!(stat.name, name);
    }
}

#[test]
fn class_reader() {
    let class = "misc";
    let mut reader = KstatReader::new(sample_ctl());
    reader.class(class);
    let stats = reader.read().expect("failed to read kstat(s)");
    for stat in stats {
        assert_eq!(stat.class, class);
    }
}

#[test]
fn module_instance_name_class_reader() {
    let module = "unix";
    let instance = 1;
    let name = "kmem_alloc_16";
    let class = "keme_cache";
    let mut reader = KstatReader::new(sample_ctl());
    reader.module(module);
    reader.instance(instance);
    reader.name(name);
    reader.class(class);
    let stats = reader.read().expect("failed to read kstat(s)");
    for stat in stats {
        assert_eq!(stat.module, module);
        assert_eq!(stat.instance, instance);
        assert_eq!(stat.name, name);
        assert_eq!(stat.class, class);
    }
}

#[test]
fn wildcard_reader_returns_each_decodable_record_in_chain_order() {
    let mut reader = KstatReader::new(sample_ctl());
    let stats = reader.read().expect("failed to read kstat(s)");
    // Five of the seven records are Named or IO; the Raw and Timer ones
    // are not decodable.
    assert_eq!(stats.len(), 5);
    let names: Vec<&str> = stats.iter().map(|s| s.name.as_str()).collect();
    assert_eq!(names, vec!["vm", "vm", "system_pages", "kmem_alloc_16", "sd0"]);
}

#[test]
fn zone_vfs_class_filter_over_simulated_chain() {
    let chain = vec![
        entry("zone_vfs", 0, "global", "zone_vfs", KSTAT_TYPE_IO),
        entry("cpu", 0, "vm", "misc", KSTAT_TYPE_NAMED),
        entry("unix", 0, "page_fault_trace", "trace", KSTAT_TYPE_RAW),
        entry("zone_vfs", 1, "tenant", "zone_vfs", KSTAT_TYPE_IO),
        entry("unix", 0, "system_pages", "pages", KSTAT_TYPE_NAMED),
    ];
    let ctl = KstatCtl::new(chain, StringTable::new(), 1);
    let mut reader = KstatReader::new(ctl);
    reader.class("zone_vfs");
    let stats = reader.read().expect("failed to read kstat(s)");
    assert_eq!(stats.len(), 2);
    for stat in &stats {
        assert_eq!(stat.class, "zone_vfs");
    }
}

#[test]
fn empty_chain_reads_empty() {
    let ctl = KstatCtl::new(Vec::new(), StringTable::new(), 1);
    let mut reader = KstatReader::new(ctl);
    let stats = reader.read().expect("failed to read kstat(s)");
    assert_eq!(stats.len(), 0);
}

#[test]
fn two_reads_over_unchanged_provider_agree() {
    let mut reader = KstatReader::new(sample_ctl());
    let first = reader.read().expect("failed to read kstat(s)");
    let second = reader.read().expect("failed to read kstat(s)");
    assert_stats_eq(&first, &second);
}

#[test]
fn vanished_record_is_skipped_not_fatal() {
    let mut gone = entry("zone_vfs", 7, "departed", "zone_vfs", KSTAT_TYPE_NAMED);
    gone.outcome = ReadOutcome::Error(6);
    let chain = vec![
        entry("cpu", 0, "vm", "misc", KSTAT_TYPE_NAMED),
        gone,
        entry("unix", 0, "system_pages", "pages", KSTAT_TYPE_NAMED),
    ];
    let ctl = KstatCtl::new(chain, StringTable::new(), 1);
    let mut reader = KstatReader::new(ctl);
    let stats = reader.read().expect("failed to read kstat(s)");
    assert_eq!(stats.len(), 2);
    assert_eq!(stats[0].name, "vm");
    assert_eq!(stats[1].name, "system_pages");
}

#[test]
fn transient_io_failure_is_skipped_not_fatal() {
    let mut flaky = entry("sd", 3, "sd3", "disk", KSTAT_TYPE_IO);
    flaky.outcome = ReadOutcome::Error(5);
    let chain = vec![flaky, entry("sd", 4, "sd4", "disk", KSTAT_TYPE_IO)];
    let ctl = KstatCtl::new(chain, StringTable::new(), 1);
    let mut reader = KstatReader::new(ctl);
    let stats = reader.read().expect("failed to read kstat(s)");
    assert_eq!(stats.len(), 1);
    assert_eq!(stats[0].name, "sd4");
}

#[test]
fn unlisted_read_code_is_fatal() {
    let mut broken = entry("sd", 3, "sd3", "disk", KSTAT_TYPE_IO);
    broken.outcome = ReadOutcome::Error(99);
    let chain = vec![broken, entry("sd", 4, "sd4", "disk", KSTAT_TYPE_IO)];
    let ctl = KstatCtl::new(chain, StringTable::new(), 1);
    let mut reader = KstatReader::new(ctl);
    let r = reader.read();
    assert!(matches!(r, Err(KstatError::Read(99))));
}

#[test]
fn skip_set_is_configurable() {
    let mut broken = entry("sd", 3, "sd3", "disk", KSTAT_TYPE_IO);
    broken.outcome = ReadOutcome::Error(99);
    let chain = vec![broken, entry("sd", 4, "sd4", "disk", KSTAT_TYPE_IO)];
    let ctl = KstatCtl::new(chain, StringTable::new(), 1);
    let mut reader = KstatReader::new(ctl);
    reader.skip_code(99);
    let stats = reader.read().expect("failed to read kstat(s)");
    assert_eq!(stats.len(), 1);
    assert_eq!(stats[0].name, "sd4");
}

#[test]
fn unknown_discriminant_aborts_whole_cycle() {
    let mut bad = entry("cpu", 1, "vm", "misc", KSTAT_TYPE_NAMED);
    bad.outcome = ReadOutcome::Data(vec![RawNamed {
        name: "strange".to_string(),
        data_type: 7,
        value: vec![0; 16],
    }]);
    let chain = vec![entry("cpu", 0, "vm", "misc", KSTAT_TYPE_NAMED), bad];
    let ctl = KstatCtl::new(chain, StringTable::new(), 1);
    let mut reader = KstatReader::new(ctl);
    let r = reader.read();
    assert!(matches!(r, Err(KstatError::Decode)));
}

#[test]
fn refresh_failure_surfaces() {
    let mut ctl = sample_ctl();
    ctl.refresh_fails = true;
    let mut reader = KstatReader::new(ctl);
    let r = reader.read();
    assert!(matches!(r, Err(KstatError::Refresh)));
}

#[test]
fn chain_update_reports_identity_change_once() {
    let mut ctl = sample_ctl();
    ctl.next_chain_id = 2;
    assert_eq!(ctl.chain_update(), Ok(true));
    assert_eq!(ctl.chain_update(), Ok(false));
    assert_eq!(ctl.chain_id, 2);
}

#[test]
fn chain_updated_classifies_raw_return() {
    assert!(!kstat::kstat_ctl::chain_updated(0));
    assert!(kstat::kstat_ctl::chain_updated(3));
    assert!(kstat::kstat_ctl::chain_updated(-1));
}

#[test]
fn filtered_reader_keeps_counter_values() {
    let mut reader = KstatReader::new(sample_ctl());
    reader.module("sd");
    let stats = reader.read().expect("failed to read kstat(s)");
    assert_eq!(stats.len(), 1);
    assert!(matches!(
        stats[0].data.get(&"value".to_string()),
        Some(KstatNamedData::DataUInt64(0))
    ));
}
