use std::sync::mpsc::Receiver;
use std::time::Instant;
use vstd::prelude::*;

use crate::driver::DriverInfo;
use crate::format::{clipboard_text, driver_line, line_cells, line_fields};
use crate::listing::{
    driver_is_microsoft, driver_matches_search, key_before, key_comes_before, key_of, microsoft_codes,
    microsoft_mark, sort_key, Listing,
};
use crate::names::NameSet;
use crate::runtime::{now, try_receive};
use crate::text::{fold_key, folded_codes, join_texts, texts};

verus! {

/// Where the background enumeration of drivers stands.
#[derive(Clone, PartialEq, Eq)]
pub enum LoadingState {
    Idle,
    Loading,
    Loaded,
    Error(String),
}

/// The column the driver list is sorted by.
#[derive(Clone, Copy, PartialEq, Eq, Debug, Structural)]
pub enum SortColumn {
    Name,
    Address,
    EndAddress,
    Size,
    LoadCount,
    Index,
    Type,
    Description,
    Version,
    Company,
    ProductName,
    ModifiedDate,
    CreatedDate,
    Path,
    FileAttributes,
    ServiceName,
    Status,
}

/// The direction of the sort.
#[derive(Clone, Copy, PartialEq, Eq, Debug, Structural)]
pub enum SortOrder {
    Ascending,
    Descending,
}

/// How a status or log message is to be shown.
#[derive(Clone, Copy, PartialEq, Eq, Debug, Structural)]
pub enum StatusKind {
    Info,
    Success,
    Error,
}

/// One line of the Driver Manager's operation log.
#[derive(Clone, Debug)]
pub struct LogEntry {
    pub text: String,
    pub kind: StatusKind,
    pub timestamp: Instant,
}

/// The fields and log of the Driver Manager window.
#[derive(Clone, Debug)]
pub struct DriverManagerState {
    pub driver_path: String,
    pub service_name: String,
    /// Index into the start types (Boot, System, Automatic, Demand, Disabled).
    pub start_type: usize,
    /// Index into the driver types (Kernel Driver, File System Driver).
    pub driver_type: usize,
    pub log: Vec<LogEntry>,
    pub service_status: Option<String>,
}

impl Default for DriverManagerState {
    /// Empty fields, start type Demand, driver type Kernel Driver, no log.
    fn default() -> (r: Self)
        ensures
            r.driver_path@.len() == 0,
            r.service_name@.len() == 0,
            r.start_type == 3,
            r.driver_type == 0,
            r.log@.len() == 0,
            r.service_status is None,
    {
        DriverManagerState {
            driver_path: String::new(),
            service_name: String::new(),
            start_type: 3,
            driver_type: 0,
            log: Vec::new(),
            service_status: None,
        }
    }
}

/// The message in the status bar.
#[derive(Clone, Debug)]
pub struct StatusMessage {
    pub text: String,
    pub kind: StatusKind,
    pub timestamp: Instant,
}

/// What the user asked for in one frame.
#[derive(Clone, Debug)]
pub enum GuiAction {
    Refresh,
    LoadDriver,
    UnloadDriver,
    ElevateToAdmin,
    StartDriver(String),
    StopDriver(String),
    RegisterDriver(String),
    UnregisterDriver(String),
    /// Selection: (index, ctrl held, shift held).
    SelectDriver(usize, bool, bool),
    SaveSelectedItems,
    FileProperties,
    GoogleSearch,
    Exit,
    FocusFind,
    CopySelectedItems,
    SelectAll,
    DeselectAll,
    ExportJsonAll,
    ExportJsonSelected,
    ExportCsvAll,
    ExportCsvSelected,
    ExportTextAll,
    ExportTextSelected,
    ExportHtmlAll,
    ExportHtmlSelected,
    SaveSnapshot,
    CompareSnapshot,
    VerifySignature,
    ShowAbout,
    OpenDriverManager,
    DmBrowseDriver,
    DmRegister,
    DmStart,
    DmStop,
    DmUnregister,
    DmQuickLoad,
    DmQuickUnload,
    DmQueryStatus,
}

/// Everything the window shows and the user has chosen.
pub struct AppState {
    pub drivers: Vec<DriverInfo>,
    pub selected_names: NameSet,
    /// Anchor index for shift-click range selection (set on non-shift click).
    pub anchor_index: Option<usize>,
    /// Current cursor position (moves with every selection action).
    pub cursor_pos: Option<usize>,
    pub search_filter: String,
    pub loading_state: LoadingState,
    pub show_microsoft: bool,
    pub show_non_microsoft: bool,
    pub mark_non_microsoft: bool,
    pub show_grid_lines: bool,
    pub auto_refresh: bool,
    pub read_signatures: bool,
    pub dark_mode: bool,
    pub show_about: bool,
    pub focus_search: bool,
    pub receiver: Option<Receiver<Vec<DriverInfo>>>,
    pub sort_column: SortColumn,
    pub sort_order: SortOrder,
    pub status_message: Option<StatusMessage>,
    pub auto_refresh_interval: Option<Instant>,
    /// Which menu to open via an Alt+letter mnemonic.
    pub pending_menu: Option<char>,
    /// Scroll the table to the cursor on the next frame.
    pub scroll_to_cursor: bool,
    /// Show the Driver Manager window.
    pub show_driver_manager: bool,
    pub driver_manager: DriverManagerState,
    /// Cell value under the most recent right-click (for "Copy Cell").
    pub right_click_cell: Option<String>,
}

impl AppState {
    /// The state at start-up: no drivers, nothing selected, sorted by name
    /// ascending, both vendor groups shown, dark mode, an empty Driver Manager.
    pub open spec fn is_initial(&self) -> bool {
        &&& self.drivers@.len() == 0
        &&& self.selected_names@ == Set::<Seq<char>>::empty()
        &&& self.anchor_index is None
        &&& self.cursor_pos is None
        &&& self.search_filter@.len() == 0
        &&& self.loading_state is Idle
        &&& self.show_microsoft
        &&& self.show_non_microsoft
        &&& self.mark_non_microsoft
        &&& self.show_grid_lines
        &&& !self.auto_refresh
        &&& self.read_signatures
        &&& self.dark_mode
        &&& !self.show_about
        &&& !self.focus_search
        &&& self.receiver is None
        &&& self.sort_column == SortColumn::Name
        &&& self.sort_order == SortOrder::Ascending
        &&& self.status_message is None
        &&& self.auto_refresh_interval is None
        &&& self.pending_menu is None
        &&& !self.scroll_to_cursor
        &&& !self.show_driver_manager
        &&& self.driver_manager.driver_path@.len() == 0
        &&& self.driver_manager.service_name@.len() == 0
        &&& self.driver_manager.start_type == 3
        &&& self.driver_manager.driver_type == 0
        &&& self.driver_manager.log@.len() == 0
        &&& self.driver_manager.service_status is None
        &&& self.right_click_cell is None
    }

    /// The state at start-up.
    pub fn new() -> (r: Self)
        ensures
            r.is_initial(),
    {
        AppState {
            drivers: Vec::new(),
            selected_names: NameSet::new(),
            anchor_index: None,
            cursor_pos: None,
            search_filter: String::new(),
            loading_state: LoadingState::Idle,
            show_microsoft: true,
            show_non_microsoft: true,
            mark_non_microsoft: true,
            show_grid_lines: true,
            auto_refresh: false,
            read_signatures: true,
            dark_mode: true,
            show_about: false,
            focus_search: false,
            receiver: None,
            sort_column: SortColumn::Name,
            sort_order: SortOrder::Ascending,
            status_message: None,
            auto_refresh_interval: None,
            pending_menu: None,
            scroll_to_cursor: false,
            show_driver_manager: false,
            driver_manager: DriverManagerState::default(),
            right_click_cell: None,
        }
    }
}

} // verus!

verus! {

/// The sort after a click on the header of `clicked`: the same column flips
/// direction, another column sorts ascending.
pub open spec fn sort_after_click(column: SortColumn, order: SortOrder, clicked: SortColumn) -> (
    SortColumn,
    SortOrder,
) {
    if column == clicked {
        (
            column,
            match order {
                SortOrder::Ascending => SortOrder::Descending,
                SortOrder::Descending => SortOrder::Ascending,
            },
        )
    } else {
        (clicked, SortOrder::Ascending)
    }
}

/// `names` with `n` taken out if present, else put in.
pub open spec fn toggled(names: Set<Seq<char>>, n: Seq<char>) -> Set<Seq<char>> {
    if names.contains(n) {
        names.remove(n)
    } else {
        names.insert(n)
    }
}

impl AppState {
    /// What decides the rows of the driver table.
    pub open spec fn listing(&self) -> Listing {
        Listing {
            drivers: self.drivers@,
            search: self.search_filter@,
            show_microsoft: self.show_microsoft,
            show_non_microsoft: self.show_non_microsoft,
            sort_column: self.sort_column,
            sort_order: self.sort_order,
        }
    }

    /// The positions of the shown drivers, in table order.
    fn filtered_indices(&self) -> (r: Vec<usize>)
        ensures
            self.listing().is_rows(r@),
            r@ == self.listing().rows(),
    {
        let mark = microsoft_mark();
        let search_empty = self.search_filter.as_str().is_empty();
        let folded_search = folded_codes(self.search_filter.as_str());
        let mut order: Vec<usize> = Vec::new();
        let mut keys: Vec<Vec<u64>> = Vec::new();
        let n = self.drivers.len();
        let mut i: usize = 0;
        while i < n
            invariant
                n == self.drivers@.len(),
                0 <= i <= n,
                mark@ == microsoft_codes(),
                search_empty == (self.search_filter@.len() == 0),
                folded_search@ == fold_key(self.search_filter@),
                order@.len() == keys@.len(),
                forall|k: int|
                    0 <= k < order@.len() ==> (#[trigger] order@[k] as int) < i && keys@[k]@
                        == sort_key(self.sort_column, self.drivers@[order@[k] as int])
                        && self.listing().listed(self.drivers@[order@[k] as int]),
                forall|j: int|
                    0 <= j < i && self.listing().listed(#[trigger] self.drivers@[j]) ==> order@.contains(
                        j as usize,
                    ),
                forall|a: int, b: int|
                    0 <= a < b < order@.len() ==> self.listing().precedes(
                        #[trigger] order@[a] as int,
                        #[trigger] order@[b] as int,
                    ),
            decreases n - i,
        {
            let d = &self.drivers[i];
            let in_search = driver_matches_search(
                d,
                search_empty,
                &folded_search,
                Ghost(self.search_filter@),
            );
            let vendor_shown = if driver_is_microsoft(d, &mark) {
                self.show_microsoft
            } else {
                self.show_non_microsoft
            };
            let ghost old_order = order@;
            if in_search && vendor_shown {
                let k = key_of(self.sort_column, d);
                let mut q: usize = 0;
                loop
                    invariant
                        0 <= q <= keys@.len(),
                        forall|p: int|
                            0 <= p < q ==> !key_before(self.sort_order, k@, #[trigger] keys@[p]@),
                    ensures
                        0 <= q <= keys@.len(),
                        forall|p: int|
                            0 <= p < q ==> !key_before(self.sort_order, k@, #[trigger] keys@[p]@),
                        q < keys@.len() ==> key_before(self.sort_order, k@, keys@[q as int]@),
                    decreases keys@.len() - q,
                {
                    if q == keys.len() {
                        break;
                    }
                    if key_comes_before(self.sort_order, &k, &keys[q]) {
                        break;
                    }
                    q = q + 1;
                }
                let ghost key_views = keys@.map_values(|v: Vec<u64>| v@);
                proof {
                    assert forall|p: int| 0 <= p < q implies !key_before(
                        self.sort_order,
                        sort_key(self.sort_column, self.drivers@[i as int]),
                        #[trigger] key_views[p],
                    ) by {
                        assert(key_views[p] == keys@[p]@);
                    }
                    self.listing().lemma_insert_keeps_order(order@, key_views, q as int, i);
                }
                order.insert(q, i);
                keys.insert(q, k);
                proof {
                    assert forall|k2: int| 0 <= k2 < order@.len() implies (#[trigger] order@[k2] as int)
                        < i + 1 && keys@[k2]@ == sort_key(
                        self.sort_column,
                        self.drivers@[order@[k2] as int],
                    ) && self.listing().listed(self.drivers@[order@[k2] as int]) by {
                        if k2 < q {
                            assert(order@[k2] == old_order[k2]);
                        } else if k2 > q {
                            assert(order@[k2] == old_order[k2 - 1]);
                        }
                    }
                    assert forall|j: int|
                        0 <= j < i + 1 && self.listing().listed(#[trigger] self.drivers@[j]) implies order@.contains(
                        j as usize,
                    ) by {
                        if j < i {
                            let p = choose|p: int| 0 <= p < old_order.len() && old_order[p] == j as usize;
                            if p < q {
                                assert(order@[p] == j as usize);
                            } else {
                                assert(order@[p + 1] == j as usize);
                            }
                        } else {
                            assert(order@[q as int] == i);
                        }
                    }
                }
            } else {
                proof {
                    assert(!self.listing().listed(self.drivers@[i as int]));
                }
            }
            i = i + 1;
        }
        proof {
            self.listing().lemma_rows_unique(order@);
        }
        order
    }
}

} // verus!

verus! {

impl AppState {
    /// The drivers that pass the search text and vendor checkboxes, sorted by
    /// the sort column in the sort order; the sort is stable.
    pub fn filtered_drivers(&self) -> (r: Vec<&DriverInfo>)
        ensures
            r@.len() == self.listing().rows().len(),
            forall|k: int| 0 <= k < r@.len() ==> *r@[k] == self.listing().row(k),
    {
        let rows = self.filtered_indices();
        let mut r: Vec<&DriverInfo> = Vec::new();
        let mut k: usize = 0;
        while k < rows.len()
            invariant
                rows@ == self.listing().rows(),
                self.listing().is_rows(rows@),
                0 <= k <= rows@.len(),
                r@.len() == k,
                forall|j: int| 0 <= j < k ==> *r@[j] == self.listing().row(j),
            decreases rows.len() - k,
        {
            assert((rows@[k as int] as int) < self.drivers@.len());
            r.push(&self.drivers[rows[k]]);
            k = k + 1;
        }
        r
    }

    /// Sets the status bar message, stamped with the reading `at`.
    pub fn set_status_at(&mut self, text: String, kind: StatusKind, at: Instant)
        ensures
            *final(self) == (AppState {
                status_message: Some(StatusMessage { text, kind, timestamp: at }),
                ..*old(self)
            }),
    {
        self.status_message = Some(StatusMessage { text, kind, timestamp: at });
    }

    /// Sets the status bar message, stamped with the current time (read from
    /// the clock, as `set_status_at` with that reading).
    pub fn set_status(&mut self, text: String, kind: StatusKind)
        ensures
            final(self).status_message matches Some(m) && m.text == text && m.kind == kind,
            *final(self) == (AppState { status_message: final(self).status_message, ..*old(self) }),
    {
        self.set_status_at(text, kind, now());
    }

    /// Clears the status message once it has been shown for 8 seconds or more;
    /// `elapsed_secs` is how long ago it was set.
    pub fn expire_status(&mut self, elapsed_secs: u64)
        ensures
            final(self).status_message == (if old(self).status_message is Some && elapsed_secs
                >= 8 {
                None
            } else {
                old(self).status_message
            }),
            *final(self) == (AppState { status_message: final(self).status_message, ..*old(self) }),
    {
        if self.status_message.is_some() && elapsed_secs >= 8 {
            self.status_message = None;
        }
    }

    /// Clears the status message after 8 seconds. How long it has been shown
    /// is read from the clock, so the message is either kept or cleared.
    pub fn tick_status(&mut self)
        ensures
            final(self).status_message is None || final(self).status_message == old(
                self,
            ).status_message,
            *final(self) == (AppState { status_message: final(self).status_message, ..*old(self) }),
    {
        let elapsed = match &self.status_message {
            Some(msg) => msg.timestamp.elapsed().as_secs(),
            None => 0,
        };
        self.expire_status(elapsed);
    }

    /// Clicking the header of the sort column flips the direction; clicking
    /// another column sorts by it ascending.
    pub fn toggle_sort(&mut self, column: SortColumn)
        ensures
            (final(self).sort_column, final(self).sort_order) == sort_after_click(
                old(self).sort_column,
                old(self).sort_order,
                column,
            ),
            *final(self) == (AppState {
                sort_column: final(self).sort_column,
                sort_order: final(self).sort_order,
                ..*old(self)
            }),
    {
        if self.sort_column == column {
            self.sort_order = match self.sort_order {
                SortOrder::Ascending => SortOrder::Descending,
                SortOrder::Descending => SortOrder::Ascending,
            };
        } else {
            self.sort_column = column;
            self.sort_order = SortOrder::Ascending;
        }
    }

    /// The cursor row for keyboard navigation (row 0 when there is none).
    pub fn cursor_index(&self) -> (r: usize)
        ensures
            r == match self.cursor_pos {
                Some(c) => c,
                None => 0,
            },
    {
        match self.cursor_pos {
            Some(c) => c,
            None => 0,
        }
    }

    /// Whether the driver called `name` is selected.
    pub fn is_selected(&self, name: &str) -> (r: bool)
        ensures
            r == self.selected_names@.contains(name@),
    {
        self.selected_names.contains(name)
    }

    /// The number of selected names.
    pub fn selection_count(&self) -> (r: usize)
        ensures
            r == self.selected_names@.len(),
    {
        self.selected_names.len()
    }

    /// Clears the driver list and the selection and reloads: the new list
    /// will arrive on `rx`.
    pub fn set_receiver(&mut self, rx: Receiver<Vec<DriverInfo>>)
        ensures
            final(self).drivers@.len() == 0,
            final(self).selected_names@ == Set::<Seq<char>>::empty(),
            *final(self) == (AppState {
                drivers: final(self).drivers,
                selected_names: final(self).selected_names,
                receiver: Some(rx),
                loading_state: LoadingState::Loading,
                ..*old(self)
            }),
    {
        self.drivers = Vec::new();
        self.selected_names.clear();
        self.receiver = Some(rx);
        self.loading_state = LoadingState::Loading;
    }
}

} // verus!

verus! {

impl AppState {
    /// The selected drivers in the order of the driver list.
    pub open spec fn selected_list(&self) -> Seq<DriverInfo> {
        self.drivers@.filter(|d: DriverInfo| self.selected_names@.contains(d.name@))
    }

    /// The names of rows `lo` up to (not including) `hi` of the table.
    fn collect_names(&self, rows: &Vec<usize>, lo: usize, hi: usize) -> (s: NameSet)
        requires
            rows@ == self.listing().rows(),
            self.listing().is_rows(rows@),
            lo <= hi <= rows@.len(),
        ensures
            s@ == self.listing().names_between(lo as int, hi as int),
    {
        let ghost lst = self.listing();
        let mut s = NameSet::new();
        let mut k: usize = lo;
        proof {
            assert(s@ =~= lst.names_between(lo as int, lo as int));
        }
        while k < hi
            invariant
                rows@ == lst.rows(),
                lst == self.listing(),
                lst.is_rows(rows@),
                lo <= k <= hi <= rows@.len(),
                s@ == lst.names_between(lo as int, k as int),
            decreases hi - k,
        {
            assert((rows@[k as int] as int) < self.drivers@.len());
            let name = self.drivers[rows[k]].name.clone();
            s.insert(name);
            proof {
                assert(lst.row(k as int).name@ == name@);
                assert(s@ =~= lst.names_between(lo as int, k + 1));
            }
            k = k + 1;
        }
        s
    }

    /// Drops from the selection every name the table no longer shows.
    pub fn validate_selection(&mut self)
        ensures
            final(self).selected_names@ == old(self).selected_names@.intersect(
                old(self).listing().row_names(),
            ),
            *final(self) == (AppState { selected_names: final(self).selected_names, ..*old(self) }),
    {
        let rows = self.filtered_indices();
        let shown = self.collect_names(&rows, 0, rows.len());
        self.selected_names.retain_within(&shown);
    }

    /// Selects row `index` alone, and puts the anchor and the cursor on it;
    /// a row past the end changes nothing.
    pub fn select_driver(&mut self, index: usize)
        ensures
            if index < old(self).listing().rows().len() {
                &&& final(self).selected_names@ == Set::<Seq<char>>::empty().insert(
                    old(self).listing().row(index as int).name@,
                )
                &&& *final(self) == (AppState {
                    selected_names: final(self).selected_names,
                    anchor_index: Some(index),
                    cursor_pos: Some(index),
                    ..*old(self)
                })
            } else {
                *final(self) == *old(self)
            },
    {
        let rows = self.filtered_indices();
        if index < rows.len() {
            assert((rows@[index as int] as int) < self.drivers@.len());
            let name = self.drivers[rows[index]].name.clone();
            self.selected_names.clear();
            self.selected_names.insert(name);
            self.anchor_index = Some(index);
            self.cursor_pos = Some(index);
        }
    }

    /// Adds row `index` to the selection or takes it out (Ctrl+click), and puts
    /// the anchor and the cursor on it; a row past the end changes nothing.
    pub fn toggle_select_driver(&mut self, index: usize)
        ensures
            if index < old(self).listing().rows().len() {
                let n = old(self).listing().row(index as int).name@;
                &&& final(self).selected_names@ == toggled(old(self).selected_names@, n)
                &&& *final(self) == (AppState {
                    selected_names: final(self).selected_names,
                    anchor_index: Some(index),
                    cursor_pos: Some(index),
                    ..*old(self)
                })
            } else {
                *final(self) == *old(self)
            },
    {
        let rows = self.filtered_indices();
        if index < rows.len() {
            assert((rows@[index as int] as int) < self.drivers@.len());
            let name = self.drivers[rows[index]].name.clone();
            if self.selected_names.contains(name.as_str()) {
                self.selected_names.remove(name.as_str());
            } else {
                self.selected_names.insert(name);
            }
            self.anchor_index = Some(index);
            self.cursor_pos = Some(index);
        }
    }

    /// The first row of a shift-click range: the smaller of the anchor (row 0
    /// when there is none) and `index`.
    pub open spec fn range_start(&self, index: usize) -> int {
        let a = match self.anchor_index {
            Some(a) => a as int,
            None => 0,
        };
        if a < index {
            a
        } else {
            index as int
        }
    }

    /// The last row of a shift-click range: the larger of the anchor and
    /// `index`, but at most the last row (row 0 when the table is empty).
    pub open spec fn range_end(&self, index: usize) -> int {
        let a = match self.anchor_index {
            Some(a) => a as int,
            None => 0,
        };
        let hi = if a < index {
            index as int
        } else {
            a
        };
        let len = self.listing().rows().len();
        let last = if len == 0 {
            0
        } else {
            len - 1
        };
        if hi < last {
            hi
        } else {
            last
        }
    }

    /// A shift-click range reaches into an empty table: the first row would be
    /// row 0, and there is none.
    pub open spec fn range_reaches_empty_table(&self, index: usize) -> bool {
        self.listing().rows().len() == 0 && self.range_start(index) == 0
    }

    fn range_names(&self, index: usize) -> (s: NameSet)
        requires
            !self.range_reaches_empty_table(index),
        ensures
            s@ == self.listing().names_between(self.range_start(index), self.range_end(index) + 1),
    {
        let rows = self.filtered_indices();
        let anchor = match self.anchor_index {
            Some(a) => a,
            None => 0,
        };
        let start = if anchor < index {
            anchor
        } else {
            index
        };
        let hi = if anchor < index {
            index
        } else {
            anchor
        };
        let last = if rows.len() == 0 {
            0
        } else {
            rows.len() - 1
        };
        let end = if hi < last {
            hi
        } else {
            last
        };
        assert(start == self.range_start(index));
        assert(end == self.range_end(index));
        if start <= end {
            self.collect_names(&rows, start, end + 1)
        } else {
            let empty = NameSet::new();
            proof {
                assert(empty@ =~= self.listing().names_between(start as int, end + 1));
            }
            empty
        }
    }

    /// Selects exactly the rows from the anchor to `index` (Shift+click or
    /// Shift+arrow), moves the cursor to `index` and keeps the anchor.
    pub fn range_select_driver(&mut self, index: usize)
        requires
            !old(self).range_reaches_empty_table(index),
        ensures
            final(self).selected_names@ == old(self).listing().names_between(
                old(self).range_start(index),
                old(self).range_end(index) + 1,
            ),
            *final(self) == (AppState {
                selected_names: final(self).selected_names,
                cursor_pos: Some(index),
                ..*old(self)
            }),
    {
        let names = self.range_names(index);
        self.selected_names = names;
        self.cursor_pos = Some(index);
    }

    /// Row `k` is the first selected row of the table.
    pub open spec fn is_first_selected_row(&self, k: int) -> bool {
        &&& 0 <= k < self.listing().rows().len()
        &&& self.selected_names@.contains(self.listing().row(k).name@)
        &&& forall|j: int|
            0 <= j < k ==> !self.selected_names@.contains(#[trigger] self.listing().row(j).name@)
    }

    /// The first selected driver in table order, if any.
    pub open spec fn first_selected(&self) -> Option<DriverInfo> {
        if exists|k: int| self.is_first_selected_row(k) {
            Some(self.listing().row(choose|k: int| self.is_first_selected_row(k)))
        } else {
            None
        }
    }

    /// The first selected driver in table order (for the detail panel and the
    /// actions on "the selected driver").
    pub fn selected(&self) -> (r: Option<&DriverInfo>)
        ensures
            match r {
                None => self.first_selected() is None,
                Some(d) => self.first_selected() == Some(*d),
            },
    {
        let rows = self.filtered_indices();
        let mut k: usize = 0;
        while k < rows.len()
            invariant
                rows@ == self.listing().rows(),
                self.listing().is_rows(rows@),
                0 <= k <= rows@.len(),
                forall|j: int|
                    0 <= j < k ==> !self.selected_names@.contains(
                        #[trigger] self.listing().row(j).name@,
                    ),
            decreases rows.len() - k,
        {
            assert((rows@[k as int] as int) < self.drivers@.len());
            let d = &self.drivers[rows[k]];
            if self.selected_names.contains(d.name.as_str()) {
                proof {
                    assert(*d == self.listing().row(k as int));
                    assert(self.is_first_selected_row(k as int));
                    let c = choose|c: int| self.is_first_selected_row(c);
                    if c < k {
                        assert(!self.selected_names@.contains(self.listing().row(c).name@));
                    }
                    if k < c {
                        assert(!self.selected_names@.contains(self.listing().row(k as int).name@));
                    }
                }
                return Some(d);
            }
            k = k + 1;
        }
        proof {
            assert forall|c: int| !self.is_first_selected_row(c) by {
                if 0 <= c < rows@.len() {
                    assert(!self.selected_names@.contains(self.listing().row(c).name@));
                }
            }
        }
        None
    }

    /// The selected drivers, in the order of the driver list.
    pub fn selected_drivers(&self) -> (r: Vec<&DriverInfo>)
        ensures
            r@.len() == self.selected_list().len(),
            forall|k: int| 0 <= k < r@.len() ==> *r@[k] == self.selected_list()[k],
    {
        let ghost pred = |d: DriverInfo| self.selected_names@.contains(d.name@);
        let mut r: Vec<&DriverInfo> = Vec::new();
        let mut i: usize = 0;
        while i < self.drivers.len()
            invariant
                0 <= i <= self.drivers@.len(),
                pred == (|d: DriverInfo| self.selected_names@.contains(d.name@)),
                r@.len() == self.drivers@.take(i as int).filter(pred).len(),
                forall|k: int|
                    0 <= k < r@.len() ==> *r@[k] == self.drivers@.take(i as int).filter(pred)[k],
            decreases self.drivers@.len() - i,
        {
            let d = &self.drivers[i];
            proof {
                reveal_with_fuel(Seq::<_>::filter, 1);
                assert(self.drivers@.take(i + 1).drop_last() =~= self.drivers@.take(i as int));
            }
            if self.selected_names.contains(d.name.as_str()) {
                r.push(d);
            }
            i = i + 1;
        }
        proof {
            assert(self.drivers@.take(i as int) =~= self.drivers@);
        }
        r
    }

    /// Copies of the selected drivers, in the order of the driver list.
    pub fn selected_drivers_cloned(&self) -> (r: Vec<DriverInfo>)
        ensures
            r@ == self.selected_list(),
    {
        let ghost pred = |d: DriverInfo| self.selected_names@.contains(d.name@);
        let mut r: Vec<DriverInfo> = Vec::new();
        let mut i: usize = 0;
        while i < self.drivers.len()
            invariant
                0 <= i <= self.drivers@.len(),
                pred == (|d: DriverInfo| self.selected_names@.contains(d.name@)),
                r@ == self.drivers@.take(i as int).filter(pred),
            decreases self.drivers@.len() - i,
        {
            let d = &self.drivers[i];
            proof {
                reveal_with_fuel(Seq::<_>::filter, 1);
                assert(self.drivers@.take(i + 1).drop_last() =~= self.drivers@.take(i as int));
            }
            if self.selected_names.contains(d.name.as_str()) {
                r.push(d.duplicate());
            }
            i = i + 1;
        }
        proof {
            assert(self.drivers@.take(i as int) =~= self.drivers@);
        }
        r
    }

    /// Adds every name the table shows to the selection (Select All).
    pub fn select_all_shown(&mut self)
        ensures
            final(self).selected_names@ == old(self).selected_names@.union(
                old(self).listing().row_names(),
            ),
            *final(self) == (AppState { selected_names: final(self).selected_names, ..*old(self) }),
    {
        let rows = self.filtered_indices();
        let mut k: usize = 0;
        let ghost lst = self.listing();
        let ghost start = self.selected_names@;
        let ghost before = *self;
        proof {
            assert(start.union(lst.names_between(0, 0)) =~= start);
        }
        while k < rows.len()
            invariant
                *self == (AppState { selected_names: self.selected_names, ..before }),
                rows@ == lst.rows(),
                lst == self.listing(),
                lst.is_rows(rows@),
                0 <= k <= rows@.len(),
                self.selected_names@ == start.union(lst.names_between(0, k as int)),
            decreases rows.len() - k,
        {
            assert((rows@[k as int] as int) < self.drivers@.len());
            let name = self.drivers[rows[k]].name.clone();
            self.selected_names.insert(name);
            proof {
                assert(lst.row(k as int).name@ == name@);
                assert(self.selected_names@ =~= start.union(lst.names_between(0, k + 1)));
            }
            k = k + 1;
        }
    }

    /// Empties the selection (Deselect All).
    pub fn clear_selection(&mut self)
        ensures
            final(self).selected_names@ == Set::<Seq<char>>::empty(),
            *final(self) == (AppState { selected_names: final(self).selected_names, ..*old(self) }),
    {
        self.selected_names.clear();
    }

    /// Takes a newly enumerated driver list: the selection, anchor and cursor
    /// are reset, loading is over and the channel is dropped.
    pub fn receive_drivers(&mut self, drivers: Vec<DriverInfo>)
        ensures
            final(self).selected_names@ == Set::<Seq<char>>::empty(),
            *final(self) == (AppState {
                drivers,
                selected_names: final(self).selected_names,
                anchor_index: None,
                cursor_pos: None,
                loading_state: LoadingState::Loaded,
                receiver: None,
                ..*old(self)
            }),
    {
        self.drivers = drivers;
        self.selected_names.clear();
        self.anchor_index = None;
        self.cursor_pos = None;
        self.loading_state = LoadingState::Loaded;
        self.receiver = None;
    }

    /// Takes the driver list from the background enumeration if it has
    /// arrived. Whether it has is up to the other thread, so the state is
    /// either unchanged or has taken some list as `receive_drivers` does.
    pub fn check_receiver(&mut self)
        ensures
            *final(self) == *old(self) || {
                &&& old(self).receiver is Some
                &&& final(self).selected_names@ == Set::<Seq<char>>::empty()
                &&& *final(self) == (AppState {
                    drivers: final(self).drivers,
                    selected_names: final(self).selected_names,
                    anchor_index: None,
                    cursor_pos: None,
                    loading_state: LoadingState::Loaded,
                    receiver: None,
                    ..*old(self)
                })
            },
    {
        let got = match &self.receiver {
            Some(rx) => try_receive(rx),
            None => None,
        };
        if let Some(drivers) = got {
            self.receive_drivers(drivers);
        }
    }
}

} // verus!

verus! {

impl AppState {
    /// A driver as one tab-separated line (the columns of the table, addresses
    /// as sixteen hex digits).
    pub fn format_driver_line(driver: &DriverInfo) -> (r: String)
        ensures
            r@ == driver_line(*driver),
    {
        let cells = line_cells(driver);
        proof {
            reveal_strlit("\t");
            assert("\t"@ =~= seq!['\t']);
            assert(texts(cells@) =~= line_fields(*driver));
        }
        join_texts(&cells, "\t")
    }

    /// The selected drivers as tab-separated lines, one per driver in the
    /// order of the driver list, joined by newlines; `None` when no driver is
    /// selected.
    pub fn format_selected_for_clipboard(&self) -> (r: Option<String>)
        ensures
            self.selected_list().len() == 0 ==> r is None,
            self.selected_list().len() > 0 ==> (r matches Some(s) && s@ == clipboard_text(
                self.selected_list(),
            )),
    {
        let selected = self.selected_drivers();
        if selected.len() == 0 {
            return None;
        }
        let mut lines: Vec<String> = Vec::new();
        let mut k: usize = 0;
        while k < selected.len()
            invariant
                0 <= k <= selected@.len(),
                selected@.len() == self.selected_list().len(),
                forall|j: int| 0 <= j < selected@.len() ==> *selected@[j] == self.selected_list()[j],
                lines@.len() == k,
                forall|j: int| 0 <= j < k ==> #[trigger] lines@[j]@ == driver_line(self.selected_list()[j]),
            decreases selected.len() - k,
        {
            lines.push(AppState::format_driver_line(selected[k]));
            k = k + 1;
        }
        proof {
            reveal_strlit("\n");
            assert("\n"@ =~= seq!['\n']);
            assert(texts(lines@) =~= self.selected_list().map_values(|d: DriverInfo| driver_line(d)));
        }
        Some(join_texts(&lines, "\n"))
    }
}

} // verus!

verus! {

impl AppState {
    /// Whether a shift-click on row `index` may select a range: not when the
    /// range would start at row 0 of an empty table.
    pub fn range_select_allowed(&self, index: usize) -> (r: bool)
        ensures
            r == !self.range_reaches_empty_table(index),
    {
        let rows = self.filtered_indices();
        let anchor = match self.anchor_index {
            Some(a) => a,
            None => 0,
        };
        let start = if anchor < index {
            anchor
        } else {
            index
        };
        !(rows.len() == 0 && start == 0)
    }

    /// Whether an automatic refresh is due, `elapsed_secs` after the last one:
    /// automatic refresh is on, its timer runs, 5 seconds have passed and no
    /// enumeration is under way.
    pub fn refresh_due_after(&self, elapsed_secs: u64) -> (r: bool)
        ensures
            r == (self.auto_refresh && self.auto_refresh_interval is Some && elapsed_secs >= 5
                && !(self.loading_state is Loading)),
    {
        if !self.auto_refresh {
            return false;
        }
        match &self.auto_refresh_interval {
            Some(_) => elapsed_secs >= 5 && !matches!(self.loading_state, LoadingState::Loading),
            None => false,
        }
    }

    /// Whether an automatic refresh is due now. The time since the last one
    /// is read from the clock; a refresh is never due when automatic refresh
    /// is off, its timer does not run, or an enumeration is under way.
    pub fn auto_refresh_due(&self) -> (r: bool)
        ensures
            r ==> self.auto_refresh && self.auto_refresh_interval is Some && !(
            self.loading_state is Loading),
    {
        let elapsed = match &self.auto_refresh_interval {
            Some(t) => t.elapsed().as_secs(),
            None => 0,
        };
        self.refresh_due_after(elapsed)
    }

    /// Restarts the automatic refresh timer from now.
    pub fn restart_refresh_timer(&mut self)
        ensures
            final(self).auto_refresh_interval is Some,
            *final(self) == (AppState {
                auto_refresh_interval: final(self).auto_refresh_interval,
                ..*old(self)
            }),
    {
        self.auto_refresh_interval = Some(now());
    }

    /// Turns automatic refresh on (its timer starting now) or off (no timer).
    pub fn set_auto_refresh(&mut self, on: bool)
        ensures
            final(self).auto_refresh == on,
            final(self).auto_refresh_interval is Some == on,
            *final(self) == (AppState {
                auto_refresh: on,
                auto_refresh_interval: final(self).auto_refresh_interval,
                ..*old(self)
            }),
    {
        self.auto_refresh = on;
        if on {
            self.auto_refresh_interval = Some(now());
        } else {
            self.auto_refresh_interval = None;
        }
    }
}

/// The start types offered by the Driver Manager, in the order of the
/// service manager's values (0 to 4).
pub open spec fn start_type_names() -> Seq<Seq<char>> {
    seq!["Boot"@, "System"@, "Automatic"@, "Demand"@, "Disabled"@]
}

/// The driver types offered by the Driver Manager.
pub open spec fn driver_type_names() -> Seq<Seq<char>> {
    seq!["Kernel Driver"@, "File System Driver"@]
}

/// The labels of the start types, indexed by `DriverManagerState::start_type`.
pub fn start_types() -> (r: Vec<&'static str>)
    ensures
        r@.len() == start_type_names().len(),
        forall|k: int| 0 <= k < r@.len() ==> #[trigger] r@[k]@ == start_type_names()[k],
{
    let r: Vec<&'static str> = vec!["Boot", "System", "Automatic", "Demand", "Disabled"];
    proof {
        assert(r@.len() == 5);
    }
    r
}

/// The labels of the driver types, indexed by `DriverManagerState::driver_type`.
pub fn driver_types() -> (r: Vec<&'static str>)
    ensures
        r@.len() == driver_type_names().len(),
        forall|k: int| 0 <= k < r@.len() ==> #[trigger] r@[k]@ == driver_type_names()[k],
{
    let r: Vec<&'static str> = vec!["Kernel Driver", "File System Driver"];
    r
}

} // verus!
