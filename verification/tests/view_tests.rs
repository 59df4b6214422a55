use driver_explorer::driver::DriverInfo;
use driver_explorer::names::NameSet;
use driver_explorer::snapshot::{comparison_report, comparison_summary, compare_snapshot};
use driver_explorer::state::{AppState, SortColumn};
use driver_explorer::text::{compare_codes, contains_codes, decimal_text, folded_codes, hex_text, join_texts};
use driver_explorer::ui::{format_address, sort_indicator, table_cells};

fn drv(name: &str) -> DriverInfo {
    DriverInfo {
        name: name.to_string(),
        load_address: 0xFFFFF802D5400000,
        end_address: 0,
        size: 0x1A2B3,
        load_count: 3,
        index: 42,
        file_type: Some("Driver".to_string()),
        file_description: None,
        file_version: None,
        company_name: None,
        product_name: None,
        modified_date: None,
        created_date: None,
        file_path: format!("C:\\d\\{}", name),
        file_attributes: Some("A".to_string()),
        service_name: Some("svc".to_string()),
        service_display_name: None,
        driver_type: "Kernel Driver".to_string(),
        status: "Stopped".to_string(),
        is_signed: Some(true),
        signer: None,
    }
}

#[test]
fn address_format() {
    assert_eq!(format_address(0), "");
    assert_eq!(format_address(0xFFFFF802D5400000), "FFFFF802`D5400000");
    assert_eq!(format_address(0x1234), "00000000`00001234");
    assert_eq!(format_address(u64::MAX).len(), 17);
}

#[test]
fn hex_and_decimal() {
    assert_eq!(hex_text(0xBEEF, 8), "0000BEEF");
    assert_eq!(hex_text(0x123456789, 8), "123456789");
    assert_eq!(hex_text(0, 16), "0000000000000000");
    assert_eq!(hex_text(u64::MAX, 16), "FFFFFFFFFFFFFFFF");
    assert_eq!(decimal_text(0), "0");
    assert_eq!(decimal_text(1905), "1905");
    assert_eq!(decimal_text(u64::MAX), "18446744073709551615");
}

#[test]
fn table_row_cells() {
    let cells = table_cells(&drv("a.sys"));
    assert_eq!(cells.len(), 16);
    assert_eq!(cells[0], "a.sys");
    assert_eq!(cells[1], "FFFFF802`D5400000");
    assert_eq!(cells[2], "");
    assert_eq!(cells[3], "0x0001A2B3");
    assert_eq!(cells[4], "3");
    assert_eq!(cells[5], "42");
    assert_eq!(cells[6], "Driver");
    assert_eq!(cells[13], "C:\\d\\a.sys");
    assert_eq!(cells[14], "A");
    assert_eq!(cells[15], "svc");
}

#[test]
fn header_arrows() {
    let mut s = AppState::new();
    assert_eq!(sort_indicator(&s, SortColumn::Name), " \u{2191}");
    assert_eq!(sort_indicator(&s, SortColumn::Size), "");
    s.toggle_sort(SortColumn::Name);
    assert_eq!(sort_indicator(&s, SortColumn::Name), " \u{2193}");
}

#[test]
fn lowercase_and_compare() {
    let a = folded_codes("ABC");
    let b = folded_codes("abc");
    assert_eq!(a, b);
    assert_eq!(compare_codes(&a, &b), 0);
    assert!(compare_codes(&folded_codes("a"), &folded_codes("B")) < 0);
    assert!(compare_codes(&folded_codes("ab"), &folded_codes("a")) > 0);
    assert!(contains_codes(&folded_codes("Microsoft Corporation"), &folded_codes("microsoft")));
    assert!(!contains_codes(&folded_codes("Micro Soft"), &folded_codes("microsoft")));
    assert!(contains_codes(&folded_codes("x"), &folded_codes("")));
}

#[test]
fn join_with_separator() {
    let parts = vec!["a".to_string(), "".to_string(), "c".to_string()];
    assert_eq!(join_texts(&parts, ", "), "a, , c");
    assert_eq!(join_texts(&Vec::new(), ","), "");
}

#[test]
fn name_set_operations() {
    let mut s = NameSet::new();
    assert!(s.is_empty());
    assert!(s.insert("a".to_string()));
    assert!(!s.insert("a".to_string()));
    assert!(s.insert("b".to_string()));
    assert_eq!(s.len(), 2);
    assert!(s.contains("a"));
    assert!(s.remove("a"));
    assert!(!s.remove("a"));
    assert!(!s.contains("a"));
    let mut allowed = NameSet::new();
    allowed.insert("c".to_string());
    s.retain_within(&allowed);
    assert!(s.is_empty());
}

#[test]
fn snapshot_comparison_by_name() {
    let baseline = vec![drv("b.sys"), drv("a.sys"), drv("gone.sys"), drv("a.sys")];
    let current = vec![drv("new2.sys"), drv("a.sys"), drv("b.sys"), drv("New1.sys")];
    let c = compare_snapshot(&baseline, &current);
    assert_eq!(c.added, vec!["New1.sys".to_string(), "new2.sys".to_string()]);
    assert_eq!(c.removed, vec!["gone.sys".to_string()]);
    assert_eq!(c.unchanged, 2);
    assert_eq!(comparison_summary(&c), "Compared: +2 added, -1 removed, 2 unchanged");
    let html = comparison_report("base.json", 4, 4, &c);
    assert!(html.starts_with("<!DOCTYPE html><html><head><title>Snapshot Comparison</title><style>"));
    assert!(html.contains("<h1>Snapshot Comparison</h1><p>Baseline: base.json (4 drivers)</p><p>Current: Live system (4 drivers)</p>"));
    assert!(html.contains("<h2 class=\"added\">Added (2):</h2><ul><li>+ New1.sys</li><li>+ new2.sys</li></ul>"));
    assert!(html.contains("<h2 class=\"removed\">Removed (1):</h2><ul><li>- gone.sys</li></ul>"));
    assert!(html.ends_with("<p class=\"unchanged\">Unchanged: 2</p></div></body></html>"));
}

#[test]
fn snapshot_comparison_of_identical_lists() {
    let list = vec![drv("a.sys"), drv("b.sys")];
    let c = compare_snapshot(&list, &list);
    assert!(c.added.is_empty() && c.removed.is_empty());
    assert_eq!(c.unchanged, 2);
    assert_eq!(comparison_summary(&c), "Compared: +0 added, -0 removed, 2 unchanged");
}
