use df::info::{build_file_info, collect_entries, get_file_info, FileInfo, InfoError, OwnerIds, RawEntry, RawMetadata};
use df::mode::{format_mode, Permissions};
use df::render::{
    banner, invalid_format_message, parse_format, render_file, render_file_named, render_listing, select_format,
    str_eq, Format, Layout,
};
use df::size::format_size;
use df::text::decimal_string;
use df::time::{format_time, LocalTime, Timestamp};

fn noon() -> LocalTime {
    LocalTime { year: 2024, month: 1, day: 2, hour: 3, minute: 4, second: 5, nanosecond: 0, offset_secs: 3600 }
}

fn raw(is_dir: bool, len: u64, ids: Option<OwnerIds>) -> RawMetadata {
    RawMetadata {
        is_dir,
        len,
        permissions: Permissions::Bits(0o100644),
        ids,
        created: Some(Timestamp { secs: 1_700_000_000, nanos: 0 }),
        modified: Some(Timestamp { secs: 1_700_000_100, nanos: 5 }),
    }
}

fn record(name: &str, ids: bool) -> FileInfo {
    let ids = if ids { Some(OwnerIds { uid: 1000, gid: 100 }) } else { None };
    build_file_info(name.to_string(), &raw(false, 1536, ids), noon(), noon())
}

#[test]
fn size_examples() {
    assert_eq!(format_size(0), "0.00 B");
    assert_eq!(format_size(1536), "1.50 KB");
    assert_eq!(format_size(1073741824), "1.00 GB");
}

#[test]
fn size_unit_boundaries() {
    assert_eq!(format_size(1023), "1023.00 B");
    assert_eq!(format_size(1024), "1.00 KB");
    assert_eq!(format_size(1048575), "1024.00 KB");
    assert_eq!(format_size(1048576), "1.00 MB");
    assert_eq!(format_size(1099511627776), "1.00 TB");
}

#[test]
fn size_rounds_ties_to_even() {
    // 1.125 KB and 1.375 KB
    assert_eq!(format_size(1152), "1.12 KB");
    assert_eq!(format_size(1408), "1.38 KB");
    assert_eq!(format_size(1100), "1.07 KB");
}

#[test]
fn size_terminal_unit() {
    assert_eq!(format_size(1024 * 1099511627776), "1024.00 TB");
    assert_eq!(format_size(u64::MAX), "16777216.00 TB");
}

#[test]
fn size_value_stays_below_1024_in_smaller_units() {
    for b in [1u64, 1000, 5000, 3_000_000, 7_000_000_000, 9_000_000_000_000] {
        let text = format_size(b);
        let value: f64 = text.split(' ').next().unwrap().parse().unwrap();
        let unit = text.split(' ').nth(1).unwrap();
        let power = ["B", "KB", "MB", "GB", "TB"].iter().position(|u| *u == unit).unwrap();
        assert!(unit == "TB" || value <= 1024.0);
        let back = value * 1024f64.powi(power as i32);
        assert!((back - b as f64).abs() <= 0.005 * 1024f64.powi(power as i32) + 1e-6);
    }
}

#[test]
fn mode_texts() {
    assert_eq!(format_mode(Permissions::Bits(0o755)), "755");
    assert_eq!(format_mode(Permissions::Bits(0o100644)), "100644");
    assert_eq!(format_mode(Permissions::Bits(5)), "005");
    assert_eq!(format_mode(Permissions::ReadOnly(true)), "readonly");
    assert_eq!(format_mode(Permissions::ReadOnly(false)), "writable");
}

#[test]
fn decimal_texts() {
    assert_eq!(decimal_string(0), "0");
    assert_eq!(decimal_string(4294967295), "4294967295");
}

#[test]
fn time_texts() {
    assert_eq!(format_time(&noon()), "2024-01-02 03:04:05");
    let mut t = noon();
    t.year = 10000;
    assert_eq!(format_time(&t), "+10000-01-02 03:04:05");
    t.year = -1;
    assert_eq!(format_time(&t), "-0001-01-02 03:04:05");
    t.year = 7;
    assert_eq!(format_time(&t), "0007-01-02 03:04:05");
}

#[test]
fn format_priority() {
    assert_eq!(select_format(false, false, false, false, false), Format::Text(Layout::Columns));
    assert_eq!(select_format(true, true, true, true, true), Format::Json);
    assert_eq!(select_format(false, true, false, true, false), Format::Yaml);
    assert_eq!(select_format(false, false, false, true, true), Format::Text(Layout::List));
    assert_eq!(select_format(false, false, false, false, true), Format::Text(Layout::Table));
}

#[test]
fn format_names() {
    assert_eq!(parse_format("json"), Some(Format::Json));
    assert_eq!(parse_format("yaml"), Some(Format::Yaml));
    assert_eq!(parse_format("table"), Some(Format::Text(Layout::Table)));
    assert!(str_eq("list", "list"));
    assert!(!str_eq("list", "lists"));
}

#[test]
fn unrecognized_format_gives_diagnostic() {
    assert_eq!(parse_format("xml"), None);
    assert_eq!(parse_format(""), None);
    assert_eq!(invalid_format_message(), "Invalid format. Please choose one of json/yaml/columns/list/table.");
}

#[test]
fn banner_lines() {
    assert_eq!(banner(true, "\".\""), "Directory: \".\"");
    assert_eq!(banner(false, "\"a.txt\""), "File: \"a.txt\"");
}

#[test]
fn single_file_type() {
    let f = get_file_info("a.txt".to_string(), &raw(false, 10, None)).ok().unwrap();
    assert_eq!(f.file_type, "file");
    assert_eq!(f.filename, "a.txt");
    assert_eq!(f.size, "10.00 B");
    assert_eq!(f.mode, "100644");
    assert!(1 <= f.created.month && f.created.month <= 12);
    let d = get_file_info("sub".to_string(), &raw(true, 4096, None)).ok().unwrap();
    assert_eq!(d.file_type, "directory");
}

#[test]
fn ownership_as_decimal() {
    let f = get_file_info("a".to_string(), &raw(false, 0, Some(OwnerIds { uid: 1000, gid: 0 }))).ok().unwrap();
    let o = f.ownership.unwrap();
    assert_eq!(o.owner, "1000");
    assert_eq!(o.group, "0");
}

#[test]
fn missing_timestamp_fails() {
    let mut m = raw(false, 1, None);
    m.created = None;
    assert_eq!(get_file_info("a".to_string(), &m).err(), Some(InfoError::MissingTimestamp));
    let mut m = raw(false, 1, None);
    m.modified = None;
    assert_eq!(get_file_info("a".to_string(), &m).err(), Some(InfoError::MissingTimestamp));
}

#[test]
fn out_of_range_timestamp_fails() {
    let mut m = raw(false, 1, None);
    m.created = Some(Timestamp { secs: i64::MAX, nanos: 0 });
    assert_eq!(get_file_info("a".to_string(), &m).err(), Some(InfoError::TimestampOutOfRange));
}

#[test]
fn unreadable_child_is_skipped() {
    let entry = |n: &str| Some(RawEntry { name: n.to_string(), metadata: raw(false, 1, None) });
    let children = vec![entry("a.txt"), None, entry("b.txt")];
    let infos = collect_entries(children).ok().unwrap();
    assert_eq!(infos.len(), 2);
    assert_eq!(render_listing(&infos, false, Layout::List), "a.txt\nb.txt\n");
}

#[test]
fn child_without_timestamp_fails_listing() {
    let mut m = raw(false, 1, None);
    m.modified = None;
    let children = vec![Some(RawEntry { name: "a".to_string(), metadata: m })];
    assert_eq!(collect_entries(children).err(), Some(InfoError::MissingTimestamp));
}

#[test]
fn list_has_one_line_per_entry() {
    let infos = vec![record("c", false), record("a", false), record("b", false)];
    let text = render_listing(&infos, false, Layout::List);
    let lines: Vec<&str> = text.lines().collect();
    assert_eq!(lines, vec!["c", "a", "b"]);
    assert_eq!(render_listing(&Vec::new(), false, Layout::List), "");
}

#[test]
fn columns_listing() {
    let infos = vec![record("a", false), record("b", false)];
    assert_eq!(render_listing(&infos, false, Layout::Columns), "a   b   ");
}

#[test]
fn table_listing() {
    let infos = vec![record("a", true)];
    let expected = "Type       Mode       Created              Modified             Size       Owner      Group      Filename\n\
                    file       100644     2024-01-02 03:04:05  2024-01-02 03:04:05  1.50 KB    1000       100        a\n";
    assert_eq!(render_listing(&infos, true, Layout::Table), expected);
    let bare = "Type       Mode       Created              Modified             Size       Filename\n";
    assert_eq!(render_listing(&Vec::new(), false, Layout::Table), bare);
}

#[test]
fn single_file_columns() {
    let f = record("a b", true);
    assert_eq!(
        render_file(&f, Layout::Columns),
        "Filename: \"a b\"   Size: 1.50 KB   Type: file   Mode: 100644   Created: 2024-01-02 03:04:05   \
         Modified: 2024-01-02 03:04:05   Owner: 1000   Group: 100   Mode: 100644\n"
    );
}

#[test]
fn single_file_list_quotes_name() {
    let f = record("q\"x", false);
    assert_eq!(
        render_file(&f, Layout::List),
        "Filename: \"q\\\"x\"\nSize: 1.50 KB\nType: file\nMode: 100644\nCreated: 2024-01-02 03:04:05\n\
         Modified: 2024-01-02 03:04:05\n\n"
    );
}

#[test]
fn single_file_table() {
    let f = record("a", false);
    assert_eq!(
        render_file_named(&f, "\"a\"", Layout::Table),
        "Type       Mode       Created              Modified             Size       Filename\n\
         file       100644     2024-01-02 03:04:05  2024-01-02 03:04:05  1.50 KB    \"a\"\n"
    );
}

#[test]
fn epoch_in_local_time() {
    let mut m = raw(false, 1, None);
    m.created = Some(Timestamp { secs: 0, nanos: 0 });
    m.modified = Some(Timestamp { secs: 86_400 * 365, nanos: 0 });
    let f = get_file_info("a".to_string(), &m).ok().unwrap();
    assert!(f.created.year == 1969 || f.created.year == 1970);
    assert!(f.created.offset_secs.abs() < 86_400);
    assert!(f.modified.year == 1970 || f.modified.year == 1971);
    let shown = format_time(&f.created);
    assert_eq!(shown.len(), 19);
}

fn with_created(secs: i64, nanos: u32) -> Result<FileInfo, InfoError> {
    let mut m = raw(false, 1, None);
    m.created = Some(Timestamp { secs, nanos });
    get_file_info("a".to_string(), &m)
}

#[test]
fn timestamp_range_edges() {
    assert!(with_created(8_210_266_876_799, 0).is_ok());
    assert_eq!(with_created(8_210_266_876_800, 0).err(), Some(InfoError::TimestampOutOfRange));
    assert!(with_created(-8_334_601_228_800, 0).is_ok());
    assert_eq!(with_created(-8_334_601_228_801, 0).err(), Some(InfoError::TimestampOutOfRange));
}

#[test]
fn leap_nanoseconds_only_in_last_second() {
    assert!(with_created(59, 1_500_000_000).is_ok());
    assert!(with_created(-1, 1_000_000_000).is_ok());
    assert_eq!(with_created(0, 1_000_000_000).err(), Some(InfoError::TimestampOutOfRange));
    assert_eq!(with_created(59, 2_000_000_000).err(), Some(InfoError::TimestampOutOfRange));
}

#[test]
fn empty_directory_lists_nothing() {
    let infos = collect_entries(Vec::new()).ok().unwrap();
    assert!(infos.is_empty());
    let infos = collect_entries(vec![None, None]).ok().unwrap();
    assert_eq!(render_listing(&infos, false, Layout::List), "");
}

#[test]
fn first_failing_child_decides_error() {
    let mut far = raw(false, 1, None);
    far.modified = Some(Timestamp { secs: i64::MIN, nanos: 0 });
    let mut missing = raw(true, 1, None);
    missing.created = None;
    let entry = |n: &str, m: RawMetadata| Some(RawEntry { name: n.to_string(), metadata: m });
    let children = vec![entry("ok", raw(false, 1, None)), None, entry("far", far), entry("missing", missing)];
    assert_eq!(collect_entries(children).err(), Some(InfoError::TimestampOutOfRange));
}

#[test]
fn readable_children_keep_type_and_order() {
    let entry = |n: &str, d: bool| Some(RawEntry { name: n.to_string(), metadata: raw(d, 1, None) });
    let infos = collect_entries(vec![entry("sub", true), None, entry("f", false)]).ok().unwrap();
    assert_eq!(infos[0].filename, "sub");
    assert_eq!(infos[0].file_type, "directory");
    assert_eq!(infos[1].filename, "f");
    assert_eq!(infos[1].file_type, "file");
}
