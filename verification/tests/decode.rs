use kstat::kstat_ctl::{ChainEntry, Kstat, KstatCtl, ReadOutcome};
use kstat::kstat_named::{KstatNamed, KstatNamedData, RawNamed, StringTable};
use kstat::kstat_types::{
    KstatType, KSTAT_DATA_CHAR, KSTAT_DATA_INT32, KSTAT_DATA_INT64, KSTAT_DATA_STRING,
    KSTAT_DATA_UINT32, KSTAT_DATA_UINT64, KSTAT_TYPE_NAMED,
};
use kstat::KstatError;

fn slot(bytes: &[u8]) -> Vec<u8> {
    let mut s = bytes.to_vec();
    while s.len() < 16 {
        s.push(0);
    }
    s
}

fn nv(name: &str, data_type: u8, bytes: &[u8]) -> RawNamed {
    RawNamed { name: name.to_string(), data_type, value: slot(bytes) }
}

fn entry(name: &str, raws: Vec<RawNamed>) -> ChainEntry {
    ChainEntry {
        class: "misc".to_string(),
        module: "unix".to_string(),
        instance: 0,
        name: name.to_string(),
        ks_type: KSTAT_TYPE_NAMED,
        crtime: 100,
        snaptime: 200,
        outcome: ReadOutcome::Data(raws),
    }
}

#[test]
fn decode_round_trip_all_types() {
    let mut strings = StringTable::new();
    strings.add(0xDEAD_BEEF, "hello world".to_string());
    let raws = vec![
        nv("c", KSTAT_DATA_CHAR, &(-5i8).to_le_bytes()),
        nv("i32", KSTAT_DATA_INT32, &(-123_456i32).to_le_bytes()),
        nv("u32", KSTAT_DATA_UINT32, &3_000_000_000u32.to_le_bytes()),
        nv("i64", KSTAT_DATA_INT64, &(-9_000_000_000_000_000_000i64).to_le_bytes()),
        nv("u64", KSTAT_DATA_UINT64, &18_000_000_000_000_000_000u64.to_le_bytes()),
        nv("s", KSTAT_DATA_STRING, &0xDEAD_BEEFu64.to_le_bytes()),
    ];
    let ctl = KstatCtl::new(vec![entry("all_types", raws)], strings, 1);
    let stat = Kstat { index: 0 }.read(&ctl).expect("record must decode");
    assert_eq!(stat.class, "misc");
    assert_eq!(stat.module, "unix");
    assert_eq!(stat.instance, 0);
    assert_eq!(stat.name, "all_types");
    assert_eq!(stat.crtime, 100);
    assert_eq!(stat.snaptime, 200);
    assert_eq!(stat.data.len(), 6);
    assert!(matches!(stat.data.get(&"c".to_string()), Some(KstatNamedData::DataChar(-5))));
    assert!(matches!(stat.data.get(&"i32".to_string()), Some(KstatNamedData::DataInt32(-123_456))));
    assert!(matches!(
        stat.data.get(&"u32".to_string()),
        Some(KstatNamedData::DataUInt32(3_000_000_000))
    ));
    assert!(matches!(
        stat.data.get(&"i64".to_string()),
        Some(KstatNamedData::DataInt64(-9_000_000_000_000_000_000))
    ));
    assert!(matches!(
        stat.data.get(&"u64".to_string()),
        Some(KstatNamedData::DataUInt64(18_000_000_000_000_000_000))
    ));
    assert!(matches!(
        stat.data.get(&"s".to_string()),
        Some(KstatNamedData::DataString(s)) if s == "hello world"
    ));
}

#[test]
fn decode_exact_byte_interpretation() {
    let raws = vec![
        nv("le64", KSTAT_DATA_UINT64, &[8, 7, 6, 5, 4, 3, 2, 1]),
        nv("minus_one", KSTAT_DATA_INT32, &[0xFF, 0xFF, 0xFF, 0xFF]),
        nv("max_i32", KSTAT_DATA_INT32, &[0xFF, 0xFF, 0xFF, 0x7F]),
        nv("le32", KSTAT_DATA_UINT32, &[0x78, 0x56, 0x34, 0x12]),
    ];
    let ctl = KstatCtl::new(vec![entry("bytes", raws)], StringTable::new(), 1);
    let stat = Kstat { index: 0 }.read(&ctl).expect("record must decode");
    assert!(matches!(
        stat.data.get(&"le64".to_string()),
        Some(KstatNamedData::DataUInt64(0x0102_0304_0506_0708))
    ));
    assert!(matches!(stat.data.get(&"minus_one".to_string()), Some(KstatNamedData::DataInt32(-1))));
    assert!(matches!(
        stat.data.get(&"max_i32".to_string()),
        Some(KstatNamedData::DataInt32(0x7FFF_FFFF))
    ));
    assert!(matches!(
        stat.data.get(&"le32".to_string()),
        Some(KstatNamedData::DataUInt32(0x1234_5678))
    ));
}

#[test]
fn decode_duplicate_name_keeps_later_value() {
    let raws = vec![
        nv("hits", KSTAT_DATA_UINT32, &1u32.to_le_bytes()),
        nv("hits", KSTAT_DATA_UINT32, &2u32.to_le_bytes()),
    ];
    let ctl = KstatCtl::new(vec![entry("dups", raws)], StringTable::new(), 1);
    let stat = Kstat { index: 0 }.read(&ctl).expect("record must decode");
    assert_eq!(stat.data.len(), 1);
    assert!(matches!(stat.data.get(&"hits".to_string()), Some(KstatNamedData::DataUInt32(2))));
}

#[test]
fn decode_truncates_long_names() {
    let long_counter = "a".repeat(40);
    let raws = vec![nv(&long_counter, KSTAT_DATA_UINT32, &7u32.to_le_bytes())];
    let mut e = entry("trunc", raws);
    e.module = "m".repeat(35);
    let ctl = KstatCtl::new(vec![e], StringTable::new(), 1);
    let stat = Kstat { index: 0 }.read(&ctl).expect("record must decode");
    assert_eq!(stat.module, "m".repeat(30));
    assert!(stat.data.get(&long_counter).is_none());
    assert!(matches!(stat.data.get(&"a".repeat(30)), Some(KstatNamedData::DataUInt32(7))));
}

#[test]
fn truncation_counts_characters_not_bytes() {
    let long_name = "é".repeat(35);
    let raws = vec![nv(&long_name, KSTAT_DATA_UINT32, &9u32.to_le_bytes())];
    let ctl = KstatCtl::new(vec![entry("wide", raws)], StringTable::new(), 1);
    let stat = Kstat { index: 0 }.read(&ctl).expect("record must decode");
    assert!(matches!(stat.data.get(&"é".repeat(30)), Some(KstatNamedData::DataUInt32(9))));
}

#[test]
fn decode_unknown_discriminant_is_fatal() {
    let raws = vec![
        nv("fine", KSTAT_DATA_UINT32, &1u32.to_le_bytes()),
        nv("strange", 7, &1u32.to_le_bytes()),
    ];
    let ctl = KstatCtl::new(vec![entry("bad", raws)], StringTable::new(), 1);
    let r = Kstat { index: 0 }.read(&ctl);
    assert!(matches!(r, Err(KstatError::Decode)));
}

#[test]
fn decode_unresolved_string_address_is_fatal() {
    let raws = vec![nv("s", KSTAT_DATA_STRING, &0x1234u64.to_le_bytes())];
    let ctl = KstatCtl::new(vec![entry("dangling", raws)], StringTable::new(), 1);
    let r = Kstat { index: 0 }.read(&ctl);
    assert!(matches!(r, Err(KstatError::Decode)));
}

#[test]
fn named_value_reads_directly() {
    let raw = nv("octets", KSTAT_DATA_UINT64, &42u64.to_le_bytes());
    let named = KstatNamed::new(&raw);
    assert_eq!(named.name(), "octets");
    assert_eq!(named.get_data_type(), KSTAT_DATA_UINT64);
    let (key, value) = named.read(&StringTable::new()).expect("value must decode");
    assert_eq!(key, "octets");
    assert!(matches!(value, KstatNamedData::DataUInt64(42)));
}

#[test]
fn string_table_later_entry_wins() {
    let mut strings = StringTable::new();
    strings.add(1, "old".to_string());
    strings.add(1, "new".to_string());
    assert_eq!(strings.get(1), Some(&"new".to_string()));
    assert_eq!(strings.get(2), None);
}

#[test]
fn type_tags_map_to_types() {
    assert!(matches!(KstatType::from_tag(0), Some(KstatType::Raw)));
    assert!(matches!(KstatType::from_tag(1), Some(KstatType::Named)));
    assert!(matches!(KstatType::from_tag(2), Some(KstatType::Interrupt)));
    assert!(matches!(KstatType::from_tag(3), Some(KstatType::IO)));
    assert!(matches!(KstatType::from_tag(4), Some(KstatType::Timer)));
    assert!(matches!(KstatType::from_tag(9), None));
}

#[test]
fn lookup_resolves_first_match() {
    let chain = vec![
        entry("first", vec![]),
        entry("target", vec![nv("v", KSTAT_DATA_UINT32, &1u32.to_le_bytes())]),
        entry("target", vec![nv("v", KSTAT_DATA_UINT32, &2u32.to_le_bytes())]),
    ];
    let ctl = KstatCtl::new(chain, StringTable::new(), 1);
    let k = ctl
        .lookup(Some(&"unix".to_string()), -1, Some(&"target".to_string()))
        .expect("lookup must resolve");
    assert_eq!(k.get_inner(), 1);
    assert_eq!(k.get_name(&ctl), "target");
    assert_eq!(k.get_module(&ctl), "unix");
    assert_eq!(k.get_class(&ctl), "misc");
    assert_eq!(k.get_instance(&ctl), 0);
    assert_eq!(k.get_type(&ctl), KSTAT_TYPE_NAMED);
    assert_eq!(k.get_crtime(&ctl), 100);
    assert_eq!(k.get_snaptime(&ctl), 200);
}

#[test]
fn lookup_misses_report_not_found() {
    let ctl = KstatCtl::new(vec![entry("only", vec![])], StringTable::new(), 1);
    let r = ctl.lookup(None, 3, None);
    assert!(matches!(r, Err(KstatError::NotFound)));
    let r = ctl.lookup(Some(&"nope".to_string()), -1, None);
    assert!(matches!(r, Err(KstatError::NotFound)));
}

#[test]
fn lookup_read_injects_pseudo_fields() {
    let raws = vec![nv("reads", KSTAT_DATA_UINT64, &5u64.to_le_bytes())];
    let ctl = KstatCtl::new(vec![entry("disk0", raws)], StringTable::new(), 1);
    let m = ctl
        .lookup_read(None, -1, Some(&"disk0".to_string()))
        .expect("lookup_read must decode");
    assert_eq!(m.len(), 4);
    assert!(matches!(m.get(&"reads".to_string()), Some(KstatNamedData::DataUInt64(5))));
    assert!(matches!(
        m.get(&"class".to_string()),
        Some(KstatNamedData::DataString(s)) if s == "misc"
    ));
    assert!(matches!(m.get(&"crtime".to_string()), Some(KstatNamedData::DataInt64(100))));
    assert!(matches!(m.get(&"snaptime".to_string()), Some(KstatNamedData::DataInt64(200))));
}

#[test]
fn lookup_read_surfaces_read_failure() {
    let mut e = entry("gone", vec![]);
    e.outcome = ReadOutcome::Error(99);
    let ctl = KstatCtl::new(vec![e], StringTable::new(), 1);
    let r = ctl.lookup_read(None, -1, Some(&"gone".to_string()));
    assert!(matches!(r, Err(KstatError::Read(99))));
}
