use driver_explorer::driver::DriverInfo;
use driver_explorer::state::{AppState, LoadingState, SortColumn, SortOrder, StatusKind};

fn drv(name: &str, company: Option<&str>, path: &str, load: u64, size: u64) -> DriverInfo {
    DriverInfo {
        name: name.to_string(),
        load_address: load,
        end_address: if load == 0 { 0 } else { load + size },
        size,
        load_count: 1,
        index: 0,
        file_type: None,
        file_description: None,
        file_version: None,
        company_name: company.map(|c| c.to_string()),
        product_name: None,
        modified_date: None,
        created_date: None,
        file_path: path.to_string(),
        file_attributes: None,
        service_name: None,
        service_display_name: None,
        driver_type: "Kernel Driver".to_string(),
        status: "Running".to_string(),
        is_signed: None,
        signer: None,
    }
}

fn sample_state() -> AppState {
    let mut s = AppState::new();
    s.drivers = vec![
        drv("ntfs.sys", Some("Microsoft Corporation"), r"C:\Windows\System32\drivers\ntfs.sys", 0x3000, 0x100),
        drv("Beep.SYS", Some("Microsoft Corporation"), r"C:\Windows\System32\drivers\beep.sys", 0x1000, 0x10),
        drv("acme.sys", Some("ACME Inc."), r"C:\Vendors\acme.sys", 0x2000, 0x20),
        drv("zeta.sys", None, r"C:\Tools\zeta.sys", 0x1000, 0x30),
    ];
    s
}

fn names(v: &[&DriverInfo]) -> Vec<String> {
    v.iter().map(|d| d.name.clone()).collect()
}

#[test]
fn new_state_defaults() {
    let s = AppState::new();
    assert!(s.drivers.is_empty());
    assert_eq!(s.selection_count(), 0);
    assert!(s.anchor_index.is_none());
    assert!(s.cursor_pos.is_none());
    assert!(matches!(s.loading_state, LoadingState::Idle));
    assert!(s.show_microsoft && s.show_non_microsoft && s.mark_non_microsoft);
    assert!(s.show_grid_lines && !s.auto_refresh && s.read_signatures && s.dark_mode);
    assert_eq!(s.sort_column, SortColumn::Name);
    assert_eq!(s.sort_order, SortOrder::Ascending);
    assert_eq!(s.driver_manager.start_type, 3);
    assert_eq!(s.driver_manager.driver_type, 0);
    assert!(s.driver_manager.log.is_empty());
    assert!(s.status_message.is_none());
}

#[test]
fn filtered_sorts_by_name_ignoring_case() {
    let s = sample_state();
    assert_eq!(names(&s.filtered_drivers()), vec!["acme.sys", "Beep.SYS", "ntfs.sys", "zeta.sys"]);
}

#[test]
fn filtered_descending_and_by_address_is_stable() {
    let mut s = sample_state();
    s.toggle_sort(SortColumn::Name);
    assert_eq!(s.sort_order, SortOrder::Descending);
    assert_eq!(names(&s.filtered_drivers()), vec!["zeta.sys", "ntfs.sys", "Beep.SYS", "acme.sys"]);
    s.toggle_sort(SortColumn::Address);
    assert_eq!(s.sort_column, SortColumn::Address);
    assert_eq!(s.sort_order, SortOrder::Ascending);
    // Beep and zeta share address 0x1000: they keep list order.
    assert_eq!(names(&s.filtered_drivers()), vec!["Beep.SYS", "zeta.sys", "acme.sys", "ntfs.sys"]);
    s.toggle_sort(SortColumn::Address);
    assert_eq!(names(&s.filtered_drivers()), vec!["ntfs.sys", "acme.sys", "Beep.SYS", "zeta.sys"]);
}

#[test]
fn sort_click_twice_restores() {
    let mut s = sample_state();
    s.toggle_sort(SortColumn::Name);
    s.toggle_sort(SortColumn::Name);
    assert_eq!((s.sort_column, s.sort_order), (SortColumn::Name, SortOrder::Ascending));
}

#[test]
fn sort_by_company_puts_missing_first() {
    let mut s = sample_state();
    s.toggle_sort(SortColumn::Company);
    assert_eq!(names(&s.filtered_drivers()), vec!["zeta.sys", "acme.sys", "ntfs.sys", "Beep.SYS"]);
}

#[test]
fn search_is_case_insensitive_on_name_and_path() {
    let mut s = sample_state();
    s.search_filter = "BEEP".to_string();
    assert_eq!(names(&s.filtered_drivers()), vec!["Beep.SYS"]);
    s.search_filter = "vendors".to_string();
    assert_eq!(names(&s.filtered_drivers()), vec!["acme.sys"]);
    s.search_filter = "nothing-like-this".to_string();
    assert!(s.filtered_drivers().is_empty());
}

#[test]
fn vendor_checkboxes_filter() {
    let mut s = sample_state();
    s.show_microsoft = false;
    assert_eq!(names(&s.filtered_drivers()), vec!["acme.sys", "zeta.sys"]);
    s.show_microsoft = true;
    s.show_non_microsoft = false;
    assert_eq!(names(&s.filtered_drivers()), vec!["Beep.SYS", "ntfs.sys"]);
}

#[test]
fn empty_search_lists_every_driver() {
    let s = sample_state();
    assert_eq!(s.filtered_drivers().len(), s.drivers.len());
}

#[test]
fn select_driver_selects_one_row() {
    let mut s = sample_state();
    s.select_driver(1);
    assert!(s.is_selected("Beep.SYS"));
    assert_eq!(s.selection_count(), 1);
    assert_eq!(s.anchor_index, Some(1));
    assert_eq!(s.cursor_pos, Some(1));
    assert_eq!(s.cursor_index(), 1);
    assert_eq!(s.selected().map(|d| d.name.clone()), Some("Beep.SYS".to_string()));
    s.select_driver(10);
    assert_eq!(s.selection_count(), 1);
    assert_eq!(s.cursor_index(), 1);
}

#[test]
fn toggle_select_twice_restores() {
    let mut s = sample_state();
    s.select_driver(0);
    s.toggle_select_driver(2);
    assert!(s.is_selected("acme.sys") && s.is_selected("ntfs.sys"));
    assert_eq!(s.selection_count(), 2);
    s.toggle_select_driver(2);
    assert!(!s.is_selected("ntfs.sys"));
    assert_eq!(s.selection_count(), 1);
    assert_eq!(s.anchor_index, Some(2));
}

#[test]
fn range_select_keeps_anchor() {
    let mut s = sample_state();
    s.select_driver(1);
    s.range_select_driver(3);
    assert_eq!(s.selection_count(), 3);
    assert!(s.is_selected("Beep.SYS") && s.is_selected("ntfs.sys") && s.is_selected("zeta.sys"));
    assert_eq!(s.anchor_index, Some(1));
    assert_eq!(s.cursor_pos, Some(3));
    s.range_select_driver(0);
    assert_eq!(s.selection_count(), 2);
    assert!(s.is_selected("acme.sys") && s.is_selected("Beep.SYS"));
    // Past the end the range stops at the last row.
    s.range_select_driver(40);
    assert_eq!(s.selection_count(), 3);
}

#[test]
fn range_select_without_anchor_starts_at_zero() {
    let mut s = sample_state();
    s.range_select_driver(1);
    assert_eq!(s.selection_count(), 2);
    assert!(s.is_selected("acme.sys") && s.is_selected("Beep.SYS"));
    assert_eq!(s.anchor_index, None);
    assert!(s.range_select_allowed(1));
    let empty = AppState::new();
    assert!(!empty.range_select_allowed(0));
}

#[test]
fn validate_selection_drops_hidden_names() {
    let mut s = sample_state();
    s.select_all_shown();
    assert_eq!(s.selection_count(), 4);
    s.show_microsoft = false;
    s.validate_selection();
    assert_eq!(s.selection_count(), 2);
    assert!(s.is_selected("acme.sys") && s.is_selected("zeta.sys"));
    s.validate_selection();
    assert_eq!(s.selection_count(), 2);
    s.clear_selection();
    assert_eq!(s.selection_count(), 0);
}

#[test]
fn selected_drivers_follow_list_order() {
    let mut s = sample_state();
    s.select_driver(2);
    s.toggle_select_driver(1);
    let sel = s.selected_drivers();
    assert_eq!(names(&sel), vec!["ntfs.sys", "Beep.SYS"]);
    let cloned = s.selected_drivers_cloned();
    assert_eq!(cloned.len(), 2);
    assert_eq!(cloned[0].name, "ntfs.sys");
    assert_eq!(cloned[1].file_path, r"C:\Windows\System32\drivers\beep.sys");
    // In table order Beep comes first.
    assert_eq!(s.selected().map(|d| d.name.clone()), Some("Beep.SYS".to_string()));
}

#[test]
fn status_messages_expire_after_eight_seconds() {
    let mut s = AppState::new();
    s.set_status("Copied to clipboard".to_string(), StatusKind::Success);
    assert_eq!(s.status_message.as_ref().map(|m| m.text.clone()), Some("Copied to clipboard".to_string()));
    s.expire_status(7);
    assert!(s.status_message.is_some());
    s.tick_status();
    assert!(s.status_message.is_some());
    s.expire_status(8);
    assert!(s.status_message.is_none());
}

#[test]
fn receiver_delivers_driver_list() {
    let mut s = sample_state();
    s.select_driver(0);
    let (tx, rx) = std::sync::mpsc::channel();
    s.set_receiver(rx);
    assert!(matches!(s.loading_state, LoadingState::Loading));
    assert!(s.drivers.is_empty());
    assert_eq!(s.selection_count(), 0);
    s.check_receiver();
    assert!(matches!(s.loading_state, LoadingState::Loading));
    tx.send(vec![drv("new.sys", None, "C:\\new.sys", 0, 0)]).unwrap();
    s.check_receiver();
    assert!(matches!(s.loading_state, LoadingState::Loaded));
    assert_eq!(s.drivers.len(), 1);
    assert_eq!(s.selection_count(), 0);
    assert!(s.anchor_index.is_none() && s.cursor_pos.is_none() && s.receiver.is_none());
}

#[test]
fn clipboard_lines_are_tab_separated() {
    let mut s = sample_state();
    assert!(s.format_selected_for_clipboard().is_none());
    s.drivers[2].load_count = 12;
    s.drivers[2].index = 7;
    s.drivers[2].file_version = Some("1.2".to_string());
    s.select_driver(0);
    let text = s.format_selected_for_clipboard().unwrap();
    assert_eq!(
        text,
        "acme.sys\t0000000000002000\t0000000000002020\t0x00000020\t12\t7\t\t\t1.2\tACME Inc.\t\t\t\tC:\\Vendors\\acme.sys\t\t"
    );
    s.toggle_select_driver(3);
    let two = s.format_selected_for_clipboard().unwrap();
    assert_eq!(two.lines().count(), 2);
    assert!(two.starts_with("acme.sys\t"));
    assert!(two.contains("\nzeta.sys\t0000000000001000\t0000000000001030\t0x00000030\t1\t0\t"));
}

#[test]
fn driver_line_of_zero_size() {
    let d = drv("x.sys", None, "p", 0, 0);
    assert_eq!(AppState::format_driver_line(&d), "x.sys\t0000000000000000\t0000000000000000\t\t1\t0\t\t\t\t\t\t\t\tp\t\t");
}

#[test]
fn auto_refresh_timer() {
    let mut s = AppState::new();
    assert!(!s.refresh_due_after(100));
    s.set_auto_refresh(true);
    assert!(s.auto_refresh_interval.is_some());
    assert!(!s.refresh_due_after(4));
    assert!(s.refresh_due_after(5));
    assert!(!s.auto_refresh_due());
    s.loading_state = LoadingState::Loading;
    assert!(!s.refresh_due_after(10));
    s.set_auto_refresh(false);
    assert!(s.auto_refresh_interval.is_none());
    s.restart_refresh_timer();
    assert!(s.auto_refresh_interval.is_some());
}
