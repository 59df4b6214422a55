use vstd::prelude::*;

use std::time::Instant;

use crate::driver::DriverInfo;
use crate::format::clipboard_text;
use crate::runtime::now;
use crate::state::{toggled, AppState, DriverManagerState, LogEntry, StatusKind};
use crate::text::{owned, same_text, text2, text3, text4, text5};

verus! {

/// The application: its state, whether it runs elevated, and the theme last
/// applied.
pub struct DriverExplorerApp {
    pub state: AppState,
    pub is_elevated: bool,
    pub last_dark_mode: bool,
}

/// An operation on the service of a listed driver.
#[derive(Clone, Copy, PartialEq, Eq, Debug, Structural)]
pub enum ServiceCommand {
    Start,
    Stop,
    Register,
    Unregister,
    /// Stop, then unregister.
    Unload,
}

/// A service operation the application is to carry out, and for which driver.
pub struct ServiceRequest {
    pub command: ServiceCommand,
    /// The driver's file name, as listed.
    pub driver_name: String,
    pub service_name: String,
    /// The driver file (used to register).
    pub driver_path: String,
}

/// An operation of the Driver Manager window.
#[derive(Clone, Copy, PartialEq, Eq, Debug, Structural)]
pub enum DmCommand {
    Register,
    Start,
    Stop,
    Unregister,
}

/// A Driver Manager operation to carry out, with the window's fields.
pub struct DmRequest {
    pub command: DmCommand,
    pub service_name: String,
    pub driver_path: String,
    pub start_type: usize,
    pub driver_type: usize,
}

/// A signature check to carry out on a driver file.
pub struct SignatureRequest {
    pub driver_name: String,
    pub driver_path: String,
}

/// The first driver in `drivers` called `name`.
pub open spec fn find_named(drivers: Seq<DriverInfo>, name: Seq<char>) -> Option<DriverInfo>
    decreases drivers.len(),
{
    if drivers.len() == 0 {
        None
    } else if drivers[0].name@ == name {
        Some(drivers[0])
    } else {
        find_named(drivers.drop_first(), name)
    }
}

/// The service name of the first driver called `name`.
pub open spec fn service_of(drivers: Seq<DriverInfo>, name: Seq<char>) -> Option<String> {
    match find_named(drivers, name) {
        Some(d) => d.service_name,
        None => None,
    }
}

/// `app` shows `text` as a `kind` message in the status bar.
pub open spec fn shows_status(app: DriverExplorerApp, text: Seq<char>, kind: StatusKind) -> bool {
    app.state.status_message matches Some(m) && m.text@ == text && m.kind == kind
}

/// `after` is `before` with another status message, and nothing else changed.
pub open spec fn only_status_changed(before: DriverExplorerApp, after: DriverExplorerApp) -> bool {
    after == DriverExplorerApp {
        state: AppState { status_message: after.state.status_message, ..before.state },
        ..before
    }
}

/// `after` is `before` with one more Driver Manager log line, `text` of kind
/// `kind`, the service status `status`, and nothing else changed.
pub open spec fn logged(
    before: DriverExplorerApp,
    after: DriverExplorerApp,
    text: Seq<char>,
    kind: StatusKind,
    status: Option<String>,
) -> bool {
    let log = after.state.driver_manager.log@;
    &&& log.len() == before.state.driver_manager.log@.len() + 1
    &&& log.drop_last() == before.state.driver_manager.log@
    &&& log.last().text@ == text
    &&& log.last().kind == kind
    &&& after.state.driver_manager.service_status == status
    &&& after == DriverExplorerApp {
        state: AppState {
            driver_manager: DriverManagerState {
                log: after.state.driver_manager.log,
                service_status: status,
                ..before.state.driver_manager
            },
            ..before.state
        },
        ..before
    }
}

/// The word for a completed service operation ("started", ...).
pub open spec fn done_word(c: ServiceCommand) -> Seq<char> {
    match c {
        ServiceCommand::Start => "started"@,
        ServiceCommand::Stop => "stopped"@,
        ServiceCommand::Register => "registered"@,
        ServiceCommand::Unregister => "unregistered"@,
        ServiceCommand::Unload => "unloaded"@,
    }
}

/// The verb for a service operation ("start", ...).
pub open spec fn verb(c: ServiceCommand) -> Seq<char> {
    match c {
        ServiceCommand::Start => "start"@,
        ServiceCommand::Stop => "stop"@,
        ServiceCommand::Register => "register"@,
        ServiceCommand::Unregister => "unregister"@,
        ServiceCommand::Unload => "unload"@,
    }
}

/// How a successful Driver Manager operation begins its log line
/// ("Registered", ...).
pub open spec fn dm_done_word(c: DmCommand) -> Seq<char> {
    match c {
        DmCommand::Register => "Registered"@,
        DmCommand::Start => "Started"@,
        DmCommand::Stop => "Stopped"@,
        DmCommand::Unregister => "Unregistered"@,
    }
}

/// How a failed Driver Manager operation begins its log line ("Register", ...).
pub open spec fn dm_verb(c: DmCommand) -> Seq<char> {
    match c {
        DmCommand::Register => "Register"@,
        DmCommand::Start => "Start"@,
        DmCommand::Stop => "Stop"@,
        DmCommand::Unregister => "Unregister"@,
    }
}

fn done_word_text(c: ServiceCommand) -> (r: &'static str)
    ensures
        r@ == done_word(c),
{
    match c {
        ServiceCommand::Start => "started",
        ServiceCommand::Stop => "stopped",
        ServiceCommand::Register => "registered",
        ServiceCommand::Unregister => "unregistered",
        ServiceCommand::Unload => "unloaded",
    }
}

fn verb_text(c: ServiceCommand) -> (r: &'static str)
    ensures
        r@ == verb(c),
{
    match c {
        ServiceCommand::Start => "start",
        ServiceCommand::Stop => "stop",
        ServiceCommand::Register => "register",
        ServiceCommand::Unregister => "unregister",
        ServiceCommand::Unload => "unload",
    }
}

fn dm_done_word_text(c: DmCommand) -> (r: &'static str)
    ensures
        r@ == dm_done_word(c),
{
    match c {
        DmCommand::Register => "Registered",
        DmCommand::Start => "Started",
        DmCommand::Stop => "Stopped",
        DmCommand::Unregister => "Unregistered",
    }
}

fn dm_verb_text(c: DmCommand) -> (r: &'static str)
    ensures
        r@ == dm_verb(c),
{
    match c {
        DmCommand::Register => "Register",
        DmCommand::Start => "Start",
        DmCommand::Stop => "Stop",
        DmCommand::Unregister => "Unregister",
    }
}

/// The position of the first driver called `name`.
fn find_named_index(drivers: &Vec<DriverInfo>, name: &str) -> (r: Option<usize>)
    ensures
        match r {
            Some(i) => i < drivers@.len() && find_named(drivers@, name@) == Some(drivers@[i as int]),
            None => find_named(drivers@, name@) is None,
        },
{
    let mut i: usize = 0;
    proof {
        assert(drivers@.skip(0) =~= drivers@);
    }
    while i < drivers.len()
        invariant
            0 <= i <= drivers@.len(),
            find_named(drivers@, name@) == find_named(drivers@.skip(i as int), name@),
        decreases drivers@.len() - i,
    {
        proof {
            assert(drivers@.skip(i as int)[0] == drivers@[i as int]);
            assert(drivers@.skip(i as int).drop_first() =~= drivers@.skip(i + 1));
        }
        if same_text(drivers[i].name.as_str(), name) {
            return Some(i);
        }
        i = i + 1;
    }
    None
}

impl DriverExplorerApp {
    /// A fresh application; `is_elevated` says whether the process runs with
    /// administrator rights.
    pub fn new(is_elevated: bool) -> (r: Self)
        ensures
            r.state.is_initial(),
            r.is_elevated == is_elevated,
            r.last_dark_mode,
    {
        DriverExplorerApp { state: AppState::new(), is_elevated, last_dark_mode: true }
    }

    /// The service name of the first listed driver called `driver_filename`.
    pub fn resolve_service_name(&self, driver_filename: &str) -> (r: Option<String>)
        ensures
            r == service_of(self.state.drivers@, driver_filename@),
    {
        match find_named_index(&self.state.drivers, driver_filename) {
            Some(i) => match &self.state.drivers[i].service_name {
                Some(s) => Some(s.clone()),
                None => None,
            },
            None => None,
        }
    }

    /// Opens the Driver Manager (the file browser that follows is the
    /// application's).
    pub fn handle_load_driver(&mut self)
        ensures
            *final(self) == (DriverExplorerApp {
                state: AppState { show_driver_manager: true, ..old(self).state },
                ..*old(self)
            }),
    {
        self.state.show_driver_manager = true;
    }

    fn request_by_name(&mut self, name: &str, command: ServiceCommand) -> (r: Option<ServiceRequest>)
        ensures
            match service_of(old(self).state.drivers@, name@) {
                None => r is None && shows_status(
                    *final(self),
                    "No service name found for '"@ + name@ + "'"@,
                    StatusKind::Error,
                ) && only_status_changed(*old(self), *final(self)),
                Some(svc) => r matches Some(q) && q.command == command
                    && q.driver_name@ == name@ && q.service_name == svc && q.driver_path@.len() == 0 && *final(self) == *old(self),
            },
    {
        match self.resolve_service_name(name) {
            Some(svc) => Some(
                ServiceRequest {
                    command,
                    driver_name: owned(name),
                    service_name: svc,
                    driver_path: String::new(),
                },
            ),
            None => {
                self.state.set_status(
                    text3("No service name found for '", name, "'"),
                    StatusKind::Error,
                );
                None
            },
        }
    }

    /// Start the service of the driver called `name`: the request to carry
    /// out, or an error in the status bar when it has no service name.
    pub fn handle_start_driver(&mut self, name: &str) -> (r: Option<ServiceRequest>)
        ensures
            match service_of(old(self).state.drivers@, name@) {
                None => r is None && shows_status(
                    *final(self),
                    "No service name found for '"@ + name@ + "'"@,
                    StatusKind::Error,
                ) && only_status_changed(*old(self), *final(self)),
                Some(svc) => r matches Some(q) && q.command
                    == ServiceCommand::Start && q.driver_name@ == name@ && q.service_name == svc
                    && q.driver_path@.len() == 0 && *final(self) == *old(self),
            },
    {
        self.request_by_name(name, ServiceCommand::Start)
    }

    /// Stop the service of the driver called `name`: the request to carry out,
    /// or an error in the status bar when it has no service name.
    pub fn handle_stop_driver(&mut self, name: &str) -> (r: Option<ServiceRequest>)
        ensures
            match service_of(old(self).state.drivers@, name@) {
                None => r is None && shows_status(
                    *final(self),
                    "No service name found for '"@ + name@ + "'"@,
                    StatusKind::Error,
                ) && only_status_changed(*old(self), *final(self)),
                Some(svc) => r matches Some(q) && q.command
                    == ServiceCommand::Stop && q.driver_name@ == name@ && q.service_name == svc
                    && q.driver_path@.len() == 0 && *final(self) == *old(self),
            },
    {
        self.request_by_name(name, ServiceCommand::Stop)
    }

    /// Unregister the service of the driver called `name`: the request to
    /// carry out, or an error in the status bar when it has no service name.
    pub fn handle_unregister_driver(&mut self, name: &str) -> (r: Option<ServiceRequest>)
        ensures
            match service_of(old(self).state.drivers@, name@) {
                None => r is None && shows_status(
                    *final(self),
                    "No service name found for '"@ + name@ + "'"@,
                    StatusKind::Error,
                ) && only_status_changed(*old(self), *final(self)),
                Some(svc) => r matches Some(q) && q.command
                    == ServiceCommand::Unregister && q.driver_name@ == name@ && q.service_name
                    == svc && q.driver_path@.len() == 0 && *final(self) == *old(self),
            },
    {
        self.request_by_name(name, ServiceCommand::Unregister)
    }

    /// Re-register the driver called `name` with its current file: its own
    /// service name, or `name` when it has none. Nothing when no driver is
    /// called `name`.
    pub fn handle_register_driver(&mut self, name: &str) -> (r: Option<ServiceRequest>)
        ensures
            *final(self) == *old(self),
            match find_named(old(self).state.drivers@, name@) {
                None => r is None,
                Some(d) => r matches Some(q) && q.command == ServiceCommand::Register
                    && q.driver_name@ == name@ && q.driver_path == d.file_path && q.service_name@
                    == (match d.service_name {
                    Some(s) => s@,
                    None => name@,
                }),
            },
    {
        match find_named_index(&self.state.drivers, name) {
            Some(i) => {
                let d = &self.state.drivers[i];
                let svc = match &d.service_name {
                    Some(s) => s.clone(),
                    None => owned(name),
                };
                Some(
                    ServiceRequest {
                        command: ServiceCommand::Register,
                        driver_name: owned(name),
                        service_name: svc,
                        driver_path: d.file_path.clone(),
                    },
                )
            },
            None => None,
        }
    }

    /// Unload (stop, then unregister) the first selected driver. Nothing when
    /// no driver is selected; an error in the status bar when it has no
    /// service name.
    pub fn handle_unload_driver(&mut self) -> (r: Option<ServiceRequest>)
        ensures
            match old(self).state.first_selected() {
                None => r is None && *final(self) == *old(self),
                Some(d) => match d.service_name {
                    None => r is None && shows_status(
                        *final(self),
                        "No service name found for '"@ + d.name@ + "'"@,
                        StatusKind::Error,
                    ) && only_status_changed(*old(self), *final(self)),
                    Some(svc) => r matches Some(q) && q.command
                        == ServiceCommand::Unload && q.driver_name == d.name && q.service_name
                        == svc && q.driver_path@.len() == 0 && *final(self) == *old(self),
                },
            },
    {
        let (display_name, svc) = match self.state.selected() {
            None => {
                return None;
            },
            Some(d) => (d.name.clone(), match &d.service_name {
                Some(s) => Some(s.clone()),
                None => None,
            }),
        };
        match svc {
            Some(service_name) => Some(
                ServiceRequest {
                    command: ServiceCommand::Unload,
                    driver_name: display_name,
                    service_name,
                    driver_path: String::new(),
                },
            ),
            None => {
                self.state.set_status(
                    text3("No service name found for '", display_name.as_str(), "'"),
                    StatusKind::Error,
                );
                None
            },
        }
    }

    /// Reports how a service operation went in the status bar; says whether
    /// the driver list is to be reloaded (after a successful start, stop,
    /// unregister or unload).
    pub fn complete_service_request(
        &mut self,
        request: &ServiceRequest,
        outcome: Result<(), String>,
    ) -> (reload: bool)
        ensures
            outcome is Ok ==> shows_status(
                *final(self),
                "Driver '"@ + request.driver_name@ + "' "@ + done_word(request.command),
                StatusKind::Success,
            ),
            outcome matches Err(e) ==> shows_status(
                *final(self),
                "Failed to "@ + verb(request.command) + " '"@ + request.driver_name@ + "': "@
                    + e@,
                StatusKind::Error,
            ),
            only_status_changed(*old(self), *final(self)),
            reload == (outcome is Ok && request.command != ServiceCommand::Register),
    {
        match outcome {
            Ok(()) => {
                let text = text4(
                    "Driver '",
                    request.driver_name.as_str(),
                    "' ",
                    done_word_text(request.command),
                );
                self.state.set_status(text, StatusKind::Success);
                match request.command {
                    ServiceCommand::Register => false,
                    _ => true,
                }
            },
            Err(e) => {
                let mut text = text5(
                    "Failed to ",
                    verb_text(request.command),
                    " '",
                    request.driver_name.as_str(),
                    "': ",
                );
                text.append(e.as_str());
                self.state.set_status(text, StatusKind::Error);
                false
            },
        }
    }

    /// Adds a line to the Driver Manager log, stamped with the reading `at`.
    pub fn dm_log_at(&mut self, text: &str, kind: StatusKind, at: Instant)
        ensures
            logged(*old(self), *final(self), text@, kind, old(self).state.driver_manager.service_status),
            final(self).state.driver_manager.log@.last().timestamp == at,
    {
        let entry = LogEntry { text: owned(text), kind, timestamp: at };
        self.state.driver_manager.log.push(entry);
        proof {
            assert(self.state.driver_manager.log@.drop_last() =~= old(self).state.driver_manager.log@);
        }
    }

    /// Adds a line to the Driver Manager log, stamped with the current time
    /// (read from the clock, as `dm_log_at` with that reading).
    pub fn dm_log(&mut self, text: &str, kind: StatusKind)
        ensures
            logged(*old(self), *final(self), text@, kind, old(self).state.driver_manager.service_status),
    {
        self.dm_log_at(text, kind, now());
    }

    /// Whether the last Driver Manager log line reports a success.
    pub fn last_log_succeeded(&self) -> (r: bool)
        ensures
            r == (self.state.driver_manager.log@.len() > 0
                && self.state.driver_manager.log@.last().kind == StatusKind::Success),
    {
        let n = self.state.driver_manager.log.len();
        if n == 0 {
            false
        } else {
            self.state.driver_manager.log[n - 1].kind == StatusKind::Success
        }
    }

    fn dm_request(&self, command: DmCommand) -> (r: DmRequest)
        ensures
            r.command == command,
            r.service_name == self.state.driver_manager.service_name,
            r.driver_path == self.state.driver_manager.driver_path,
            r.start_type == self.state.driver_manager.start_type,
            r.driver_type == self.state.driver_manager.driver_type,
    {
        let dm = &self.state.driver_manager;
        DmRequest {
            command,
            service_name: dm.service_name.clone(),
            driver_path: dm.driver_path.clone(),
            start_type: dm.start_type,
            driver_type: dm.driver_type,
        }
    }

    /// Register the service named in the Driver Manager with its driver file;
    /// both fields are required, else the log says so.
    pub fn handle_dm_register(&mut self) -> (r: Option<DmRequest>)
        ensures
            ({
                let dm = old(self).state.driver_manager;
                if dm.service_name@.len() == 0 || dm.driver_path@.len() == 0 {
                    r is None && logged(
                        *old(self),
                        *final(self),
                        "Service name and driver path are required"@,
                        StatusKind::Error,
                        dm.service_status,
                    )
                } else {
                    r matches Some(q) && q.command
                        == DmCommand::Register && q.service_name == dm.service_name
                        && q.driver_path == dm.driver_path && q.start_type == dm.start_type
                        && q.driver_type == dm.driver_type && *final(self) == *old(self)
                }
            }),
    {
        if self.state.driver_manager.service_name.as_str().is_empty()
            || self.state.driver_manager.driver_path.as_str().is_empty() {
            self.dm_log("Service name and driver path are required", StatusKind::Error);
            return None;
        }
        Some(self.dm_request(DmCommand::Register))
    }

    fn dm_request_by_name(&mut self, command: DmCommand) -> (r: Option<DmRequest>)
        ensures
            ({
                let dm = old(self).state.driver_manager;
                if dm.service_name@.len() == 0 {
                    r is None && logged(
                        *old(self),
                        *final(self),
                        "Service name is required"@,
                        StatusKind::Error,
                        dm.service_status,
                    )
                } else {
                    r matches Some(q) && q.command == command
                        && q.service_name == dm.service_name && q.driver_path == dm.driver_path
                        && q.start_type == dm.start_type && q.driver_type == dm.driver_type && *final(self) == *old(self)
                }
            }),
    {
        if self.state.driver_manager.service_name.as_str().is_empty() {
            self.dm_log("Service name is required", StatusKind::Error);
            return None;
        }
        Some(self.dm_request(command))
    }

    /// Start the service named in the Driver Manager; the name is required,
    /// else the log says so.
    pub fn handle_dm_start(&mut self) -> (r: Option<DmRequest>)
        ensures
            ({
                let dm = old(self).state.driver_manager;
                if dm.service_name@.len() == 0 {
                    r is None && logged(
                        *old(self),
                        *final(self),
                        "Service name is required"@,
                        StatusKind::Error,
                        dm.service_status,
                    )
                } else {
                    r matches Some(q) && q.command == DmCommand::Start
                        && q.service_name == dm.service_name && *final(self) == *old(self)
                }
            }),
    {
        self.dm_request_by_name(DmCommand::Start)
    }

    /// Stop the service named in the Driver Manager; the name is required,
    /// else the log says so.
    pub fn handle_dm_stop(&mut self) -> (r: Option<DmRequest>)
        ensures
            ({
                let dm = old(self).state.driver_manager;
                if dm.service_name@.len() == 0 {
                    r is None && logged(
                        *old(self),
                        *final(self),
                        "Service name is required"@,
                        StatusKind::Error,
                        dm.service_status,
                    )
                } else {
                    r matches Some(q) && q.command == DmCommand::Stop
                        && q.service_name == dm.service_name && *final(self) == *old(self)
                }
            }),
    {
        self.dm_request_by_name(DmCommand::Stop)
    }

    /// Unregister the service named in the Driver Manager; the name is
    /// required, else the log says so.
    pub fn handle_dm_unregister(&mut self) -> (r: Option<DmRequest>)
        ensures
            ({
                let dm = old(self).state.driver_manager;
                if dm.service_name@.len() == 0 {
                    r is None && logged(
                        *old(self),
                        *final(self),
                        "Service name is required"@,
                        StatusKind::Error,
                        dm.service_status,
                    )
                } else {
                    r matches Some(q) && q.command
                        == DmCommand::Unregister && q.service_name == dm.service_name && *final(self) == *old(self)
                }
            }),
    {
        self.dm_request_by_name(DmCommand::Unregister)
    }

    /// Logs how a Driver Manager operation went, and records the service
    /// status it implies: running after a start, stopped after a stop, none
    /// after unregistering.
    pub fn complete_dm_request(&mut self, request: &DmRequest, outcome: Result<(), String>)
        ensures
            outcome is Ok ==> logged(
                *old(self),
                *final(self),
                dm_done_word(request.command) + " '"@ + request.service_name@ + "' successfully"@,
                StatusKind::Success,
                match request.command {
                    DmCommand::Register => old(self).state.driver_manager.service_status,
                    DmCommand::Start => Some(final(self).state.driver_manager.service_status->0),
                    DmCommand::Stop => Some(final(self).state.driver_manager.service_status->0),
                    DmCommand::Unregister => None,
                },
            ),
            outcome is Ok && request.command == DmCommand::Start ==> (final(self).state.driver_manager.service_status matches Some(s) && s@ == "Running"@),
            outcome is Ok && request.command == DmCommand::Stop ==> (final(self).state.driver_manager.service_status matches Some(s) && s@ == "Stopped"@),
            outcome matches Err(e) ==> logged(
                *old(self),
                *final(self),
                dm_verb(request.command) + " '"@ + request.service_name@ + "' failed: "@ + e@,
                StatusKind::Error,
                old(self).state.driver_manager.service_status,
            ),
    {
        match outcome {
            Ok(()) => {
                let text = text3(
                    dm_done_word_text(request.command),
                    " '",
                    request.service_name.as_str(),
                );
                let mut text = text;
                text.append("' successfully");
                self.dm_log(text.as_str(), StatusKind::Success);
                match request.command {
                    DmCommand::Register => {},
                    DmCommand::Start => {
                        self.state.driver_manager.service_status = Some(owned("Running"));
                    },
                    DmCommand::Stop => {
                        self.state.driver_manager.service_status = Some(owned("Stopped"));
                    },
                    DmCommand::Unregister => {
                        self.state.driver_manager.service_status = None;
                    },
                }
            },
            Err(e) => {
                let mut text = text4(
                    dm_verb_text(request.command),
                    " '",
                    request.service_name.as_str(),
                    "' failed: ",
                );
                text.append(e.as_str());
                self.dm_log(text.as_str(), StatusKind::Error);
            },
        }
    }

    /// The second step of a quick load: the start request, made only when
    /// the register step before it succeeded (the log's last line reports a
    /// success); otherwise nothing.
    pub fn quick_load_start(&mut self) -> (r: Option<DmRequest>)
        ensures
            ({
                let log = old(self).state.driver_manager.log@;
                let dm = old(self).state.driver_manager;
                if !(log.len() > 0 && log.last().kind == StatusKind::Success) {
                    r is None && *final(self) == *old(self)
                } else if dm.service_name@.len() == 0 {
                    r is None && logged(
                        *old(self),
                        *final(self),
                        "Service name is required"@,
                        StatusKind::Error,
                        dm.service_status,
                    )
                } else {
                    r matches Some(q) && q.command == DmCommand::Start
                        && q.service_name == dm.service_name && *final(self) == *old(self)
                }
            }),
    {
        if self.last_log_succeeded() {
            self.handle_dm_start()
        } else {
            None
        }
    }

    /// Save the selected drivers: their clipboard text to write to a file, or
    /// an error in the status bar when none is selected.
    pub fn handle_save_selected(&mut self) -> (r: Option<String>)
        ensures
            old(self).state.selected_list().len() == 0 ==> r is None && shows_status(
                *final(self),
                "No driver selected"@,
                StatusKind::Error,
            ) && only_status_changed(*old(self), *final(self)),
            old(self).state.selected_list().len() > 0 ==> (r matches Some(t) && t@ == clipboard_text(
                old(self).state.selected_list(),
            ) && *final(self) == *old(self)),
    {
        match self.state.format_selected_for_clipboard() {
            Some(t) => Some(t),
            None => {
                self.state.set_status(owned("No driver selected"), StatusKind::Error);
                None
            },
        }
    }

    /// Query the status of the service named in the Driver Manager: the name
    /// to query, or `None` with a log line when the name is empty.
    pub fn handle_dm_query_status(&mut self) -> (r: Option<String>)
        ensures
            ({
                let dm = old(self).state.driver_manager;
                if dm.service_name@.len() == 0 {
                    r is None && logged(
                        *old(self),
                        *final(self),
                        "Service name is required"@,
                        StatusKind::Error,
                        dm.service_status,
                    )
                } else {
                    *final(self) == *old(self) && r == Some(dm.service_name)
                }
            }),
    {
        if self.state.driver_manager.service_name.as_str().is_empty() {
            self.dm_log("Service name is required", StatusKind::Error);
            return None;
        }
        Some(self.state.driver_manager.service_name.clone())
    }

    /// Logs the status of service `name` and keeps it, or logs the failure
    /// and forgets any status.
    pub fn complete_dm_query_status(&mut self, name: &str, outcome: Result<String, String>)
        ensures
            outcome matches Ok(status) ==> logged(
                *old(self),
                *final(self),
                "'"@ + name@ + "': "@ + status@,
                StatusKind::Info,
                Some(status),
            ),
            outcome matches Err(e) ==> logged(
                *old(self),
                *final(self),
                "Query '"@ + name@ + "' failed: "@ + e@,
                StatusKind::Error,
                None,
            ),
    {
        match outcome {
            Ok(status) => {
                let text = text4("'", name, "': ", status.as_str());
                self.dm_log(text.as_str(), StatusKind::Info);
                self.state.driver_manager.service_status = Some(status);
            },
            Err(e) => {
                let text = text4("Query '", name, "' failed: ", e.as_str());
                self.dm_log(text.as_str(), StatusKind::Error);
                self.state.driver_manager.service_status = None;
            },
        }
    }

    /// Check the signature of the first selected driver: the file to check, or
    /// an error in the status bar when no driver is selected.
    pub fn handle_verify_signature(&mut self) -> (r: Option<SignatureRequest>)
        ensures
            match old(self).state.first_selected() {
                None => r is None && shows_status(
                    *final(self),
                    "No driver selected"@,
                    StatusKind::Error,
                ) && only_status_changed(*old(self), *final(self)),
                Some(d) => r matches Some(q) && q.driver_name
                    == d.name && q.driver_path == d.file_path && *final(self) == *old(self),
            },
    {
        match self.state.selected() {
            Some(d) => Some(
                SignatureRequest { driver_name: d.name.clone(), driver_path: d.file_path.clone() },
            ),
            None => {
                self.state.set_status(owned("No driver selected"), StatusKind::Error);
                None
            },
        }
    }

    /// Reports a signature check in the status bar: signed or unsigned and the
    /// signer ("N/A" when unknown), or the failure.
    pub fn complete_verify_signature(
        &mut self,
        name: &str,
        outcome: Result<(bool, Option<String>), String>,
    )
        ensures
            outcome matches Ok((signed, signer)) ==> shows_status(
                *final(self),
                name@ + ": "@ + (if signed {
                    "Signed"@
                } else {
                    "Unsigned"@
                }) + " (Signer: "@ + (match signer {
                    Some(s) => s@,
                    None => "N/A"@,
                }) + ")"@,
                if signed {
                    StatusKind::Success
                } else {
                    StatusKind::Info
                },
            ),
            outcome matches Err(e) ==> shows_status(
                *final(self),
                "Signature check failed for '"@ + name@ + "': "@ + e@,
                StatusKind::Error,
            ),
            only_status_changed(*old(self), *final(self)),
    {
        match outcome {
            Ok((is_signed, signer)) => {
                let status_text = if is_signed {
                    "Signed"
                } else {
                    "Unsigned"
                };
                let signer_text = match &signer {
                    Some(s) => s.as_str(),
                    None => "N/A",
                };
                let mut text = text5(name, ": ", status_text, " (Signer: ", signer_text);
                text.append(")");
                let kind = if is_signed {
                    StatusKind::Success
                } else {
                    StatusKind::Info
                };
                self.state.set_status(text, kind);
            },
            Err(e) => {
                let text = text4("Signature check failed for '", name, "': ", e.as_str());
                self.state.set_status(text, StatusKind::Error);
            },
        }
    }
}

} // verus!

verus! {

impl DriverExplorerApp {
    /// A click or arrow key on row `index`: with Shift the rows from the
    /// anchor are selected, with Ctrl the row is toggled, otherwise the row is
    /// selected alone; the table then scrolls to the cursor. A Shift range that
    /// would start in an empty table changes nothing, and `false` says so.
    #[verifier::rlimit(60)]
    pub fn select_from_input(&mut self, index: usize, ctrl: bool, shift: bool) -> (applied: bool)
        ensures
            applied == !(shift && old(self).state.range_reaches_empty_table(index)),
            !applied ==> *final(self) == *old(self),
            applied ==> final(self).state.scroll_to_cursor,
            applied && shift ==> {
                &&& final(self).state.selected_names@ == old(self).state.listing().names_between(
                    old(self).state.range_start(index),
                    old(self).state.range_end(index) + 1,
                )
                &&& *final(self) == (DriverExplorerApp {
                    state: AppState {
                        selected_names: final(self).state.selected_names,
                        cursor_pos: Some(index),
                        scroll_to_cursor: true,
                        ..old(self).state
                    },
                    ..*old(self)
                })
            },
            !shift && ctrl && index < old(self).state.listing().rows().len() ==> {
                let n = old(self).state.listing().row(index as int).name@;
                &&& final(self).state.selected_names@ == toggled(old(self).state.selected_names@, n)
                &&& *final(self) == (DriverExplorerApp {
                    state: AppState {
                        selected_names: final(self).state.selected_names,
                        anchor_index: Some(index),
                        cursor_pos: Some(index),
                        scroll_to_cursor: true,
                        ..old(self).state
                    },
                    ..*old(self)
                })
            },
            !shift && !ctrl && index < old(self).state.listing().rows().len() ==> {
                &&& final(self).state.selected_names@ == Set::<Seq<char>>::empty().insert(
                    old(self).state.listing().row(index as int).name@,
                )
                &&& *final(self) == (DriverExplorerApp {
                    state: AppState {
                        selected_names: final(self).state.selected_names,
                        anchor_index: Some(index),
                        cursor_pos: Some(index),
                        scroll_to_cursor: true,
                        ..old(self).state
                    },
                    ..*old(self)
                })
            },
            !shift && index >= old(self).state.listing().rows().len() ==> *final(self) == (
            DriverExplorerApp {
                state: AppState { scroll_to_cursor: true, ..old(self).state },
                ..*old(self)
            }),
    {
        if shift {
            if !self.state.range_select_allowed(index) {
                return false;
            }
            self.state.range_select_driver(index);
        } else if ctrl {
            self.state.toggle_select_driver(index);
        } else {
            self.state.select_driver(index);
        }
        self.state.scroll_to_cursor = true;
        true
    }

    /// The drivers to export: the selected ones (in list order) or all of
    /// them. Exporting the selection when nothing is selected is refused with
    /// an error in the status bar.
    pub fn export_selection(&mut self, selected_only: bool) -> (r: Option<Vec<DriverInfo>>)
        ensures
            selected_only && old(self).state.selected_list().len() == 0 ==> r is None && shows_status(
                *final(self),
                "No drivers selected"@,
                StatusKind::Error,
            ) && only_status_changed(*old(self), *final(self)),
            selected_only && old(self).state.selected_list().len() > 0 ==> (r matches Some(v) && v@
                == old(self).state.selected_list() && *final(self) == *old(self)),
            !selected_only ==> (r matches Some(v) && v@ == old(self).state.drivers@ && *final(self)
                == *old(self)),
    {
        if selected_only {
            let sel = self.state.selected_drivers_cloned();
            if sel.len() == 0 {
                self.state.set_status(owned("No drivers selected"), StatusKind::Error);
                return None;
            }
            Some(sel)
        } else {
            let mut all: Vec<DriverInfo> = Vec::new();
            let mut i: usize = 0;
            while i < self.state.drivers.len()
                invariant
                    0 <= i <= self.state.drivers@.len(),
                    all@ == self.state.drivers@.take(i as int),
                decreases self.state.drivers@.len() - i,
            {
                all.push(self.state.drivers[i].duplicate());
                proof {
                    assert(all@ =~= self.state.drivers@.take(i + 1));
                }
                i = i + 1;
            }
            proof {
                assert(all@ =~= self.state.drivers@);
            }
            Some(all)
        }
    }

    /// Puts a driver file picked in the browser into the Driver Manager: its
    /// path, and as service name the file stem (or "driver" when there is
    /// none); any queried status is forgotten.
    pub fn apply_browsed_driver(&mut self, path_display: String, stem: Option<String>)
        ensures
            final(self).state.driver_manager.driver_path == path_display,
            final(self).state.driver_manager.service_name@ == (match stem {
                Some(s) => s@,
                None => "driver"@,
            }),
            *final(self) == (DriverExplorerApp {
                state: AppState {
                    driver_manager: DriverManagerState {
                        driver_path: path_display,
                        service_name: final(self).state.driver_manager.service_name,
                        service_status: None,
                        ..old(self).state.driver_manager
                    },
                    ..old(self).state
                },
                ..*old(self)
            }),
    {
        let name = match stem {
            Some(s) => s,
            None => owned("driver"),
        };
        self.state.driver_manager.driver_path = path_display;
        self.state.driver_manager.service_name = name;
        self.state.driver_manager.service_status = None;
    }
}

/// The web search for a driver's name.
pub open spec fn search_url_text(name: Seq<char>) -> Seq<char> {
    "https://www.google.com/search?q="@ + name
}

/// The address that searches the web for a driver's name.
pub fn search_url(name: &str) -> (r: String)
    ensures
        r@ == search_url_text(name@),
{
    text2("https://www.google.com/search?q=", name)
}

/// The file name offered when exporting: `driverexplorer`, `_selected` when
/// only the selection is exported, then the format's extension.
pub open spec fn export_name_text(ext: Seq<char>, selected_only: bool) -> Seq<char> {
    "driverexplorer"@ + (if selected_only {
        "_selected"@
    } else {
        ""@
    }) + "."@ + ext
}

/// The file name offered in the export dialog.
pub fn export_file_name(ext: &str, selected_only: bool) -> (r: String)
    ensures
        r@ == export_name_text(ext@, selected_only),
{
    let suffix = if selected_only {
        "_selected"
    } else {
        ""
    };
    text4("driverexplorer", suffix, ".", ext)
}

} // verus!
