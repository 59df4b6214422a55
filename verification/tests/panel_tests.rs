use driver_explorer::state::GuiAction;
use driver_explorer::ui::{format_address, pending_menu_after, shortcut_actions, MenuKeys, ShortcutKeys};
use driver_explorer::driver::DriverInfo;
use driver_explorer::app::{export_file_name, search_url};
use driver_explorer::state::{driver_types, start_types, AppState, LoadingState, StatusKind};
use driver_explorer::theme::{add_fallback_font, log_color, palette, status_color, Colors, Rgb};
use driver_explorer::ui::{
    cell_tone, copy_cell_label, detail_sections, mnemonic_parts, elapsed_label, filter_count_label, idle_status_text, is_microsoft_driver,
    loading_label, navigation_target, row_shade, service_tone, CellTone, DetailTone, NavKey, RowShade,
    ServiceTone,
};
use driver_explorer::ui::table_columns;
use driver_explorer::state::SortColumn;

fn drv(name: &str, company: Option<&str>) -> DriverInfo {
    DriverInfo {
        name: name.to_string(),
        load_address: 0xFFFFF802D5400000,
        end_address: 0xFFFFF802D5410000,
        size: 0x10000,
        load_count: 2,
        index: 5,
        file_type: Some("Driver".to_string()),
        file_description: Some("Desc".to_string()),
        file_version: None,
        company_name: company.map(|c| c.to_string()),
        product_name: None,
        modified_date: Some("2024-01-01".to_string()),
        created_date: None,
        file_path: format!("C:\\drivers\\{}", name),
        file_attributes: None,
        service_name: Some("svc".to_string()),
        service_display_name: None,
        driver_type: "Kernel Driver".to_string(),
        status: "Running".to_string(),
        is_signed: Some(false),
        signer: None,
    }
}

#[test]
fn navigation_keys_stay_in_table() {
    assert_eq!(navigation_target(NavKey::Down, 3, 10, 4), 4);
    assert_eq!(navigation_target(NavKey::Down, 9, 10, 4), 9);
    assert_eq!(navigation_target(NavKey::Up, 0, 10, 4), 0);
    assert_eq!(navigation_target(NavKey::Up, 5, 10, 4), 4);
    assert_eq!(navigation_target(NavKey::PageDown, 3, 10, 4), 7);
    assert_eq!(navigation_target(NavKey::PageDown, 7, 10, 4), 9);
    assert_eq!(navigation_target(NavKey::PageUp, 3, 10, 4), 0);
    assert_eq!(navigation_target(NavKey::PageUp, 7, 10, 4), 3);
    assert_eq!(navigation_target(NavKey::Home, 7, 10, 4), 0);
    assert_eq!(navigation_target(NavKey::End, 2, 10, 4), 9);
}

#[test]
fn row_shades_and_tones() {
    assert_eq!(row_shade(true, true, false, 3), RowShade::Selected);
    assert_eq!(row_shade(false, true, false, 2), RowShade::NonMicrosoftEven);
    assert_eq!(row_shade(false, true, false, 3), RowShade::NonMicrosoftOdd);
    assert_eq!(row_shade(false, false, false, 3), RowShade::Odd);
    assert_eq!(row_shade(false, true, true, 4), RowShade::Even);
    assert_eq!(cell_tone(0, true, false), CellTone::NonMicrosoftName);
    assert_eq!(cell_tone(0, false, false), CellTone::Name);
    assert_eq!(cell_tone(1, true, false), CellTone::Address);
    assert_eq!(cell_tone(13, true, false), CellTone::Address);
    assert_eq!(cell_tone(3, true, false), CellTone::Plain);
}

#[test]
fn microsoft_driver_by_company() {
    assert!(is_microsoft_driver(&drv("a.sys", Some("MICROSOFT Corporation"))));
    assert!(!is_microsoft_driver(&drv("b.sys", Some("Acme"))));
    assert!(!is_microsoft_driver(&drv("c.sys", None)));
}

#[test]
fn log_line_ages() {
    assert_eq!(elapsed_label(0), "0s ago");
    assert_eq!(elapsed_label(59), "59s ago");
    assert_eq!(elapsed_label(60), "1m ago");
    assert_eq!(elapsed_label(185), "3m ago");
}

#[test]
fn status_bar_and_toolbar_labels() {
    let mut s = AppState::new();
    assert!(idle_status_text(&s).is_none());
    assert!(loading_label(&s).is_none());
    s.drivers = vec![drv("a.sys", Some("Microsoft")), drv("b.sys", Some("Acme")), drv("c.sys", None)];
    s.select_driver(0);
    assert_eq!(idle_status_text(&s).unwrap(), "C:\\drivers\\a.sys");
    s.toggle_select_driver(1);
    assert_eq!(idle_status_text(&s).unwrap(), "2 items selected");
    s.loading_state = LoadingState::Loading;
    assert_eq!(loading_label(&s).unwrap(), "Loading...");
    s.loading_state = LoadingState::Loaded;
    assert_eq!(loading_label(&s).unwrap(), "3 drivers");
    s.loading_state = LoadingState::Error("access denied".to_string());
    assert_eq!(loading_label(&s).unwrap(), "Error: access denied");
    assert_eq!(filter_count_label(&s), "3/3");
    s.show_microsoft = false;
    assert_eq!(filter_count_label(&s), "2/3");
}

#[test]
fn service_status_tones() {
    assert_eq!(service_tone("Running"), ServiceTone::Running);
    assert_eq!(service_tone("Stopped"), ServiceTone::Stopped);
    assert_eq!(service_tone("Not installed"), ServiceTone::Other);
    assert_eq!(service_tone("running"), ServiceTone::Other);
}

#[test]
fn detail_panel_rows() {
    let sections = detail_sections(&drv("a.sys", Some("Acme")));
    assert_eq!(sections.len(), 5);
    let first: Vec<(&str, &str)> = sections[0].iter().map(|r| (r.label.as_str(), r.value.as_str())).collect();
    assert_eq!(
        first,
        vec![
            ("Address:", "FFFFF802`D5400000"),
            ("End Address:", "FFFFF802`D5410000"),
            ("Size:", "0x00010000 (64 KB)"),
            ("Load Count:", "2"),
            ("Index:", "5"),
        ]
    );
    assert_eq!(sections[1].len(), 3);
    assert_eq!(sections[1][0].value, "Driver");
    assert_eq!(sections[1][2].label, "Status:");
    assert_eq!(sections[1][2].tone, DetailTone::Running);
    assert_eq!(sections[2].len(), 2);
    assert_eq!(sections[2][1].label, "Company:");
    assert_eq!(sections[3].len(), 2);
    assert_eq!(sections[3][1].value, "2024-01-01");
    assert_eq!(sections[4].len(), 2);
    assert_eq!(sections[4][1].label, "Signed:");
    assert_eq!(sections[4][1].value, "No");
    assert_eq!(sections[4][1].tone, DetailTone::Unsigned);

    let mut bare = drv("b.sys", None);
    bare.end_address = 0;
    bare.size = 0;
    bare.status = "Stopped".to_string();
    bare.is_signed = None;
    let s = detail_sections(&bare);
    assert_eq!(s[0].len(), 3);
    assert_eq!(s[1][2].tone, DetailTone::Stopped);
    assert_eq!(s[4].len(), 1);
}

#[test]
fn theme_palettes_and_colors() {
    let dark = palette(true);
    let light = palette(false);
    assert_eq!(dark.table_selected_row, Rgb { r: 50, g: 80, b: 130 });
    assert_eq!(light.table_selected_row, Rgb { r: 203, g: 220, b: 246 });
    assert_eq!(dark.empty_state_text, Rgb { r: 120, g: 120, b: 120 });
    assert_eq!(light.toolbar_bg, Rgb { r: 239, g: 243, b: 249 });
    assert_eq!(Colors::accent(true), Rgb { r: 100, g: 180, b: 255 });
    assert_eq!(Colors::accent(false), Rgb { r: 20, g: 95, b: 170 });
    assert_eq!(Colors::error(true), Rgb { r: 255, g: 100, b: 100 });
    assert_eq!(Colors::error(false), Rgb { r: 190, g: 45, b: 55 });
    for dark_mode in [true, false] {
        assert_eq!(Colors::running(dark_mode), Colors::success(dark_mode));
        assert_eq!(Colors::signed(dark_mode), Colors::success(dark_mode));
        assert_eq!(Colors::stopped(dark_mode), Colors::warning(dark_mode));
        assert_eq!(Colors::unsigned(dark_mode), Colors::warning(dark_mode));
    }
    assert_eq!(Colors::success(true), Rgb { r: 100, g: 200, b: 100 });
    assert_eq!(Colors::warning(false), Rgb { r: 190, g: 110, b: 20 });
}

#[test]
fn fallback_font_added_once() {
    let mut entries = vec!["Ubuntu-Light".to_string(), "emoji".to_string()];
    add_fallback_font(&mut entries, "windows_cjk_fallback");
    assert_eq!(entries, vec!["Ubuntu-Light", "emoji", "windows_cjk_fallback"]);
    add_fallback_font(&mut entries, "windows_cjk_fallback");
    assert_eq!(entries.len(), 3);
}

#[test]
fn copy_cell_labels() {
    assert_eq!(copy_cell_label("ntfs.sys"), "Copy \"ntfs.sys\"");
    let forty = "a".repeat(40);
    assert_eq!(copy_cell_label(&forty), format!("Copy \"{}\"", forty));
    let long = "0123456789".repeat(5);
    assert_eq!(copy_cell_label(&long), "Copy \"0123456789012345678901234567890123456...\"");
    let wide = format!("{}\u{e9}{}", "x".repeat(35), "y".repeat(10));
    assert_eq!(copy_cell_label(&wide), format!("Copy \"{}\u{e9}...\"", "x".repeat(35)));
}

#[test]
fn menu_mnemonics() {
    assert_eq!(mnemonic_parts("File", 'f'), Some((String::new(), 'F', "ile".to_string())));
    assert_eq!(mnemonic_parts("Export", 'x'), Some(("E".to_string(), 'x', "port".to_string())));
    assert_eq!(mnemonic_parts("Help", 'H'), Some((String::new(), 'H', "elp".to_string())));
    assert_eq!(mnemonic_parts("Tools", 'q'), None);
    assert_eq!(mnemonic_parts("", 'f'), None);
}

#[test]
fn status_and_log_colors() {
    assert_eq!(status_color(StatusKind::Info, true), Colors::accent(true));
    assert_eq!(status_color(StatusKind::Success, false), Colors::success(false));
    assert_eq!(status_color(StatusKind::Error, true), Colors::error(true));
    assert_eq!(log_color(StatusKind::Info, false), Rgb { r: 150, g: 150, b: 180 });
    assert_eq!(log_color(StatusKind::Success, true), Colors::success(true));
    assert_eq!(log_color(StatusKind::Error, false), Colors::error(false));
}

#[test]
fn driver_manager_choices() {
    assert_eq!(start_types(), vec!["Boot", "System", "Automatic", "Demand", "Disabled"]);
    assert_eq!(driver_types(), vec!["Kernel Driver", "File System Driver"]);
    assert_eq!(start_types()[AppState::new().driver_manager.start_type], "Demand");
}

#[test]
fn search_and_export_names() {
    assert_eq!(search_url("ntfs.sys"), "https://www.google.com/search?q=ntfs.sys");
    assert_eq!(export_file_name("csv", false), "driverexplorer.csv");
    assert_eq!(export_file_name("json", true), "driverexplorer_selected.json");
}

#[test]
fn table_column_titles() {
    let cols = table_columns();
    assert_eq!(cols.len(), 16);
    assert_eq!(cols[0], ("Driver Name", SortColumn::Name));
    assert_eq!(cols[13], ("Filename", SortColumn::Path));
    assert_eq!(cols[15], ("Service Name", SortColumn::ServiceName));
}

#[test]
fn keyboard_shortcuts() {
    let none = ShortcutKeys { ctrl: false, alt: false, f5: false, f8: false, f: false, c: false, s: false, a: false, d: false, enter: false };
    assert!(shortcut_actions(&none).is_empty());
    let r = shortcut_actions(&ShortcutKeys { f5: true, ctrl: true, c: true, a: true, ..none });
    assert_eq!(r.len(), 3);
    assert!(matches!(r[0], GuiAction::Refresh));
    assert!(matches!(r[1], GuiAction::CopySelectedItems));
    assert!(matches!(r[2], GuiAction::SelectAll));
    assert!(shortcut_actions(&ShortcutKeys { c: true, d: true, ..none }).is_empty());
    let r = shortcut_actions(&ShortcutKeys { alt: true, enter: true, f8: true, ..none });
    assert_eq!(r.len(), 2);
    assert!(matches!(r[0], GuiAction::FileProperties) && matches!(r[1], GuiAction::FileProperties));
}

#[test]
fn alt_letter_menus() {
    let none = MenuKeys { alt: false, f: false, e: false, v: false, x: false, t: false, h: false };
    assert_eq!(pending_menu_after(None, &MenuKeys { f: true, ..none }), None);
    assert_eq!(pending_menu_after(None, &MenuKeys { alt: true, x: true, ..none }), Some('x'));
    assert_eq!(pending_menu_after(None, &MenuKeys { alt: true, f: true, h: true, ..none }), Some('h'));
    assert_eq!(pending_menu_after(Some('v'), &MenuKeys { alt: true, ..none }), Some('v'));
}

#[test]
fn address_reads_back() {
    for addr in [1u64, 0xFFFFF802D5400000, 0x1234, u64::MAX, 0x0000000100000000] {
        let t = format_address(addr);
        assert_eq!(t.len(), 17);
        assert_eq!(t.as_bytes()[8], b'`');
        assert!(t.chars().enumerate().all(|(i, c)| i == 8 || c.is_ascii_digit() || ('A'..='F').contains(&c)));
        assert_eq!(u64::from_str_radix(&t.replace('`', ""), 16), Ok(addr));
    }
}
