use driver_explorer::app::{DmCommand, DriverExplorerApp, ServiceCommand};
use driver_explorer::driver::DriverInfo;
use driver_explorer::state::StatusKind;

fn drv(name: &str, service: Option<&str>) -> DriverInfo {
    DriverInfo {
        name: name.to_string(),
        load_address: 0,
        end_address: 0,
        size: 0,
        load_count: 0,
        index: 0,
        file_type: None,
        file_description: None,
        file_version: None,
        company_name: None,
        product_name: None,
        modified_date: None,
        created_date: None,
        file_path: format!("C:\\drivers\\{}", name),
        file_attributes: None,
        service_name: service.map(|s| s.to_string()),
        service_display_name: None,
        driver_type: "Kernel Driver".to_string(),
        status: "Running".to_string(),
        is_signed: None,
        signer: None,
    }
}

fn app() -> DriverExplorerApp {
    let mut a = DriverExplorerApp::new(false);
    a.state.drivers = vec![drv("beep.sys", Some("Beep")), drv("orphan.sys", None), drv("beep.sys", None)];
    a
}

fn status(a: &DriverExplorerApp) -> (String, StatusKind) {
    let m = a.state.status_message.as_ref().unwrap();
    (m.text.clone(), m.kind)
}

fn last_log(a: &DriverExplorerApp) -> (String, StatusKind) {
    let e = a.state.driver_manager.log.last().unwrap();
    (e.text.clone(), e.kind)
}

#[test]
fn new_app() {
    let a = DriverExplorerApp::new(true);
    assert!(a.is_elevated);
    assert!(a.last_dark_mode);
    assert!(a.state.drivers.is_empty());
}

#[test]
fn resolve_uses_first_driver_with_the_name() {
    let a = app();
    assert_eq!(a.resolve_service_name("beep.sys"), Some("Beep".to_string()));
    assert_eq!(a.resolve_service_name("orphan.sys"), None);
    assert_eq!(a.resolve_service_name("missing.sys"), None);
}

#[test]
fn start_request_and_outcomes() {
    let mut a = app();
    let req = a.handle_start_driver("beep.sys").unwrap();
    assert_eq!(req.command, ServiceCommand::Start);
    assert_eq!(req.service_name, "Beep");
    assert!(a.state.status_message.is_none());
    assert!(a.complete_service_request(&req, Ok(())));
    assert_eq!(status(&a), ("Driver 'beep.sys' started".to_string(), StatusKind::Success));
    assert!(!a.complete_service_request(&req, Err("Access is denied.".to_string())));
    assert_eq!(status(&a), ("Failed to start 'beep.sys': Access is denied.".to_string(), StatusKind::Error));
}

#[test]
fn missing_service_name_is_reported() {
    let mut a = app();
    assert!(a.handle_stop_driver("orphan.sys").is_none());
    assert_eq!(status(&a), ("No service name found for 'orphan.sys'".to_string(), StatusKind::Error));
    assert!(a.handle_unregister_driver("nope.sys").is_none());
    assert_eq!(status(&a), ("No service name found for 'nope.sys'".to_string(), StatusKind::Error));
}

#[test]
fn stop_and_unregister_messages() {
    let mut a = app();
    let stop = a.handle_stop_driver("beep.sys").unwrap();
    assert!(a.complete_service_request(&stop, Ok(())));
    assert_eq!(status(&a).0, "Driver 'beep.sys' stopped");
    let unreg = a.handle_unregister_driver("beep.sys").unwrap();
    assert_eq!(unreg.command, ServiceCommand::Unregister);
    a.complete_service_request(&unreg, Err("gone".to_string()));
    assert_eq!(status(&a).0, "Failed to unregister 'beep.sys': gone");
}

#[test]
fn register_uses_service_name_or_file_name() {
    let mut a = app();
    let r1 = a.handle_register_driver("beep.sys").unwrap();
    assert_eq!(r1.service_name, "Beep");
    assert_eq!(r1.driver_path, "C:\\drivers\\beep.sys");
    let r2 = a.handle_register_driver("orphan.sys").unwrap();
    assert_eq!(r2.service_name, "orphan.sys");
    assert!(a.handle_register_driver("none.sys").is_none());
    assert!(!a.complete_service_request(&r1, Ok(())));
    assert_eq!(status(&a).0, "Driver 'beep.sys' registered");
}

#[test]
fn unload_acts_on_first_selected() {
    let mut a = app();
    assert!(a.handle_unload_driver().is_none());
    assert!(a.state.status_message.is_none());
    // Rows by name: beep.sys, beep.sys, orphan.sys.
    a.state.select_driver(2);
    assert!(a.handle_unload_driver().is_none());
    assert_eq!(status(&a).0, "No service name found for 'orphan.sys'");
    a.state.select_driver(0);
    let req = a.handle_unload_driver().unwrap();
    assert_eq!(req.command, ServiceCommand::Unload);
    assert_eq!(req.service_name, "Beep");
    assert!(a.complete_service_request(&req, Ok(())));
    assert_eq!(status(&a).0, "Driver 'beep.sys' unloaded");
}

#[test]
fn driver_manager_requires_fields() {
    let mut a = app();
    assert!(a.handle_dm_register().is_none());
    assert_eq!(last_log(&a), ("Service name and driver path are required".to_string(), StatusKind::Error));
    assert!(a.handle_dm_start().is_none());
    assert_eq!(last_log(&a).0, "Service name is required");
    assert!(a.handle_dm_query_status().is_none());
    assert_eq!(a.state.driver_manager.log.len(), 3);
    assert!(!a.last_log_succeeded());
}

#[test]
fn driver_manager_operations() {
    let mut a = app();
    a.apply_browsed_driver("C:\\x\\mydrv.sys".to_string(), Some("mydrv".to_string()));
    assert_eq!(a.state.driver_manager.service_name, "mydrv");
    let reg = a.handle_dm_register().unwrap();
    assert_eq!(reg.command, DmCommand::Register);
    assert_eq!(reg.start_type, 3);
    a.complete_dm_request(&reg, Ok(()));
    assert_eq!(last_log(&a), ("Registered 'mydrv' successfully".to_string(), StatusKind::Success));
    assert!(a.last_log_succeeded());
    let start = a.handle_dm_start().unwrap();
    a.complete_dm_request(&start, Ok(()));
    assert_eq!(a.state.driver_manager.service_status.as_deref(), Some("Running"));
    let stop = a.handle_dm_stop().unwrap();
    a.complete_dm_request(&stop, Err("not started".to_string()));
    assert_eq!(last_log(&a), ("Stop 'mydrv' failed: not started".to_string(), StatusKind::Error));
    assert_eq!(a.state.driver_manager.service_status.as_deref(), Some("Running"));
    a.complete_dm_request(&stop, Ok(()));
    assert_eq!(a.state.driver_manager.service_status.as_deref(), Some("Stopped"));
    let unreg = a.handle_dm_unregister().unwrap();
    a.complete_dm_request(&unreg, Ok(()));
    assert_eq!(last_log(&a).0, "Unregistered 'mydrv' successfully");
    assert!(a.state.driver_manager.service_status.is_none());
    let name = a.handle_dm_query_status().unwrap();
    a.complete_dm_query_status(&name, Ok("Stopped".to_string()));
    assert_eq!(last_log(&a), ("'mydrv': Stopped".to_string(), StatusKind::Info));
    assert_eq!(a.state.driver_manager.service_status.as_deref(), Some("Stopped"));
    a.complete_dm_query_status(&name, Err("does not exist".to_string()));
    assert_eq!(last_log(&a).0, "Query 'mydrv' failed: does not exist");
    assert!(a.state.driver_manager.service_status.is_none());
    a.apply_browsed_driver("C:\\y".to_string(), None);
    assert_eq!(a.state.driver_manager.service_name, "driver");
}

#[test]
fn signature_reports() {
    let mut a = app();
    assert!(a.handle_verify_signature().is_none());
    assert_eq!(status(&a), ("No driver selected".to_string(), StatusKind::Error));
    a.state.select_driver(0);
    let req = a.handle_verify_signature().unwrap();
    assert_eq!(req.driver_name, "beep.sys");
    a.complete_verify_signature("beep.sys", Ok((true, Some("Microsoft Windows".to_string()))));
    assert_eq!(status(&a), ("beep.sys: Signed (Signer: Microsoft Windows)".to_string(), StatusKind::Success));
    a.complete_verify_signature("beep.sys", Ok((false, None)));
    assert_eq!(status(&a), ("beep.sys: Unsigned (Signer: N/A)".to_string(), StatusKind::Info));
    a.complete_verify_signature("beep.sys", Err("bad".to_string()));
    assert_eq!(status(&a), ("Signature check failed for 'beep.sys': bad".to_string(), StatusKind::Error));
}

#[test]
fn input_selection_and_export() {
    let mut a = app();
    assert!(a.select_from_input(0, false, false));
    assert!(a.state.scroll_to_cursor);
    assert!(a.select_from_input(2, false, true));
    assert_eq!(a.state.selection_count(), 2);
    assert!(a.select_from_input(1, true, false));
    assert_eq!(a.state.selection_count(), 1);
    let sel = a.export_selection(true).unwrap();
    assert_eq!(sel.len(), 1);
    assert_eq!(sel[0].name, "orphan.sys");
    let all = a.export_selection(false).unwrap();
    assert_eq!(all.len(), 3);
    a.state.clear_selection();
    assert!(a.export_selection(true).is_none());
    assert_eq!(status(&a), ("No drivers selected".to_string(), StatusKind::Error));
    let mut empty = DriverExplorerApp::new(false);
    assert!(!empty.select_from_input(0, false, true));
    assert!(!empty.state.scroll_to_cursor);
    a.handle_load_driver();
    assert!(a.state.show_driver_manager);
}

#[test]
fn quick_load_starts_only_after_register_succeeds() {
    let mut a = app();
    a.apply_browsed_driver("C:\\x\\q.sys".to_string(), Some("q".to_string()));
    let reg = a.handle_dm_register().unwrap();
    a.complete_dm_request(&reg, Err("denied".to_string()));
    assert!(a.quick_load_start().is_none());
    assert_eq!(a.state.driver_manager.log.len(), 1);
    a.complete_dm_request(&reg, Ok(()));
    let start = a.quick_load_start().unwrap();
    assert_eq!(start.command, DmCommand::Start);
    assert_eq!(start.service_name, "q");
}

#[test]
fn save_selected_needs_a_selection() {
    let mut a = app();
    assert!(a.handle_save_selected().is_none());
    assert_eq!(status(&a), ("No driver selected".to_string(), StatusKind::Error));
    a.state.select_driver(0);
    let text = a.handle_save_selected().unwrap();
    assert!(text.starts_with("beep.sys\t"));
    assert_eq!(text.lines().count(), 2);
}

#[test]
fn messages_carry_the_given_time() {
    let mut a = app();
    let at = std::time::Instant::now();
    a.state.set_status_at("hello".to_string(), StatusKind::Info, at);
    let m = a.state.status_message.as_ref().unwrap();
    assert_eq!((m.text.as_str(), m.kind, m.timestamp), ("hello", StatusKind::Info, at));
    a.dm_log_at("logged", StatusKind::Success, at);
    let e = a.state.driver_manager.log.last().unwrap();
    assert_eq!((e.text.as_str(), e.kind, e.timestamp), ("logged", StatusKind::Success, at));
    assert_eq!(a.state.driver_manager.log.len(), 1);
}
