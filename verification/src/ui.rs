use vstd::prelude::*;

use crate::driver::{opt_text, text_or_empty, DriverInfo};
use crate::format::{size_cell, size_text};
use crate::state::{AppState, GuiAction, LoadingState, SortColumn, SortOrder, StatusKind};
use crate::text::{decimal, decimal_text, hex_padded, hex_text, lowercase, lowercased, owned, push_char, text2, text3};
use vstd::string::StringSliceAdditionalSpecFns;
use vstd::utf8::{decode_utf8, encode_scalar, encode_utf8, is_char_boundary};

verus! {

/// The arrow after the header of the sort column: up when ascending, down
/// when descending; nothing for other columns.
pub open spec fn indicator_text(state: &AppState, column: SortColumn) -> Seq<char> {
    if state.sort_column == column {
        match state.sort_order {
            SortOrder::Ascending => " \u{2191}"@,
            SortOrder::Descending => " \u{2193}"@,
        }
    } else {
        ""@
    }
}

/// The arrow shown after a column header.
pub fn sort_indicator(state: &AppState, column: SortColumn) -> (r: &'static str)
    ensures
        r@ == indicator_text(state, column),
{
    if state.sort_column == column {
        match state.sort_order {
            SortOrder::Ascending => " \u{2191}",
            SortOrder::Descending => " \u{2193}",
        }
    } else {
        ""
    }
}

/// An address as two groups of eight upper-case hex digits joined by a
/// backquote (`FFFFF802`D5400000`); empty for address 0.
pub open spec fn address_text(addr: u64) -> Seq<char> {
    if addr == 0 {
        Seq::empty()
    } else {
        hex_padded((addr / 0x1_0000_0000) as nat, 8) + seq!['`'] + hex_padded(
            (addr % 0x1_0000_0000) as nat,
            8,
        )
    }
}

/// Formats an address for the table and the detail panel.
pub fn format_address(addr: u64) -> (r: String)
    ensures
        r@ == address_text(addr),
{
    if addr == 0 {
        return String::new();
    }
    let high = addr / 0x1_0000_0000;
    let low = addr % 0x1_0000_0000;
    let mut r = hex_text(high, 8);
    proof {
        reveal_strlit("`");
        assert("`"@ =~= seq!['`']);
    }
    r.append("`");
    let l = hex_text(low, 8);
    r.append(l.as_str());
    r
}

/// The titles of the table's columns, in order.
pub open spec fn column_titles() -> Seq<Seq<char>> {
    seq![
        "Driver Name"@,
        "Address"@,
        "End Address"@,
        "Size"@,
        "Load Count"@,
        "Index"@,
        "File Type"@,
        "Description"@,
        "Version"@,
        "Company"@,
        "Product Name"@,
        "Modified Date"@,
        "Created Date"@,
        "Filename"@,
        "File Attributes"@,
        "Service Name"@,
    ]
}

/// The sort key of each column, in order.
pub open spec fn column_keys() -> Seq<SortColumn> {
    seq![
        SortColumn::Name,
        SortColumn::Address,
        SortColumn::EndAddress,
        SortColumn::Size,
        SortColumn::LoadCount,
        SortColumn::Index,
        SortColumn::Type,
        SortColumn::Description,
        SortColumn::Version,
        SortColumn::Company,
        SortColumn::ProductName,
        SortColumn::ModifiedDate,
        SortColumn::CreatedDate,
        SortColumn::Path,
        SortColumn::FileAttributes,
        SortColumn::ServiceName,
    ]
}

/// The table's columns: each title with the key a click on it sorts by.
pub fn table_columns() -> (r: Vec<(&'static str, SortColumn)>)
    ensures
        r@.len() == 16,
        forall|k: int|
            0 <= k < 16 ==> (#[trigger] r@[k]).0@ == column_titles()[k] && r@[k].1
                == column_keys()[k],
{
    let r: Vec<(&'static str, SortColumn)> = vec![
        ("Driver Name", SortColumn::Name),
        ("Address", SortColumn::Address),
        ("End Address", SortColumn::EndAddress),
        ("Size", SortColumn::Size),
        ("Load Count", SortColumn::LoadCount),
        ("Index", SortColumn::Index),
        ("File Type", SortColumn::Type),
        ("Description", SortColumn::Description),
        ("Version", SortColumn::Version),
        ("Company", SortColumn::Company),
        ("Product Name", SortColumn::ProductName),
        ("Modified Date", SortColumn::ModifiedDate),
        ("Created Date", SortColumn::CreatedDate),
        ("Filename", SortColumn::Path),
        ("File Attributes", SortColumn::FileAttributes),
        ("Service Name", SortColumn::ServiceName),
    ];
    r
}

/// The cells of a driver's table row, in column order.
pub open spec fn cell_texts(d: DriverInfo) -> Seq<Seq<char>> {
    seq![
        d.name@,
        address_text(d.load_address),
        address_text(d.end_address),
        size_text(d.size),
        decimal(d.load_count as nat),
        decimal(d.index as nat),
        opt_text(d.file_type),
        opt_text(d.file_description),
        opt_text(d.file_version),
        opt_text(d.company_name),
        opt_text(d.product_name),
        opt_text(d.modified_date),
        opt_text(d.created_date),
        d.file_path@,
        opt_text(d.file_attributes),
        opt_text(d.service_name),
    ]
}

/// The cells of a driver's table row.
pub fn table_cells(d: &DriverInfo) -> (r: Vec<String>)
    ensures
        r@.len() == 16,
        forall|k: int| 0 <= k < 16 ==> #[trigger] r@[k]@ == cell_texts(*d)[k],
{
    let mut r: Vec<String> = Vec::new();
    r.push(d.name.clone());
    r.push(format_address(d.load_address));
    r.push(format_address(d.end_address));
    r.push(size_cell(d.size));
    r.push(decimal_text(d.load_count as u64));
    r.push(decimal_text(d.index as u64));
    r.push(owned(text_or_empty(&d.file_type)));
    r.push(owned(text_or_empty(&d.file_description)));
    r.push(owned(text_or_empty(&d.file_version)));
    r.push(owned(text_or_empty(&d.company_name)));
    r.push(owned(text_or_empty(&d.product_name)));
    r.push(owned(text_or_empty(&d.modified_date)));
    r.push(owned(text_or_empty(&d.created_date)));
    r.push(d.file_path.clone());
    r.push(owned(text_or_empty(&d.file_attributes)));
    r.push(owned(text_or_empty(&d.service_name)));
    r
}

} // verus!

verus! {

/// A navigation key of the driver table.
#[derive(Clone, Copy, PartialEq, Eq, Debug, Structural)]
pub enum NavKey {
    Down,
    Up,
    PageDown,
    PageUp,
    Home,
    End,
}

/// The row a navigation key moves the cursor to, from row `cursor` of a table
/// with `count` rows, `page_size` rows to a page.
pub open spec fn nav_target(key: NavKey, cursor: int, count: int, page_size: int) -> int {
    match key {
        NavKey::Down => if cursor + 1 < count - 1 {
            cursor + 1
        } else {
            count - 1
        },
        NavKey::Up => if cursor >= 1 {
            cursor - 1
        } else {
            0
        },
        NavKey::PageDown => if cursor + page_size < count - 1 {
            cursor + page_size
        } else {
            count - 1
        },
        NavKey::PageUp => if cursor >= page_size {
            cursor - page_size
        } else {
            0
        },
        NavKey::Home => 0,
        NavKey::End => count - 1,
    }
}

/// Where a navigation key moves the cursor: down and page down stop at the
/// last row, up and page up at the first.
pub fn navigation_target(key: NavKey, cursor: usize, count: usize, page_size: usize) -> (r: usize)
    requires
        count > 0,
        key == NavKey::Down ==> cursor < usize::MAX,
        key == NavKey::PageDown ==> cursor + page_size <= usize::MAX,
    ensures
        r == nav_target(key, cursor as int, count as int, page_size as int),
{
    match key {
        NavKey::Down => {
            let next = cursor + 1;
            if next < count - 1 {
                next
            } else {
                count - 1
            }
        },
        NavKey::Up => if cursor >= 1 {
            cursor - 1
        } else {
            0
        },
        NavKey::PageDown => {
            let next = cursor + page_size;
            if next < count - 1 {
                next
            } else {
                count - 1
            }
        },
        NavKey::PageUp => if cursor >= page_size {
            cursor - page_size
        } else {
            0
        },
        NavKey::Home => 0,
        NavKey::End => count - 1,
    }
}

/// The background of a table row.
#[derive(Clone, Copy, PartialEq, Eq, Debug, Structural)]
pub enum RowShade {
    Selected,
    NonMicrosoftEven,
    NonMicrosoftOdd,
    Even,
    Odd,
}

/// The background of row `idx`: selected rows stand out; with marking on,
/// non-Microsoft drivers get a warm tint; rows alternate even and odd.
pub fn row_shade(is_selected: bool, mark_non_microsoft: bool, is_microsoft: bool, idx: usize) -> (r: RowShade)
    ensures
        r == (if is_selected {
            RowShade::Selected
        } else if mark_non_microsoft && !is_microsoft {
            if idx % 2 == 0 {
                RowShade::NonMicrosoftEven
            } else {
                RowShade::NonMicrosoftOdd
            }
        } else if idx % 2 == 0 {
            RowShade::Even
        } else {
            RowShade::Odd
        }),
{
    if is_selected {
        RowShade::Selected
    } else if mark_non_microsoft && !is_microsoft {
        if idx % 2 == 0 {
            RowShade::NonMicrosoftEven
        } else {
            RowShade::NonMicrosoftOdd
        }
    } else if idx % 2 == 0 {
        RowShade::Even
    } else {
        RowShade::Odd
    }
}

/// The text color of a table cell.
#[derive(Clone, Copy, PartialEq, Eq, Debug, Structural)]
pub enum CellTone {
    /// The name of a marked non-Microsoft driver.
    NonMicrosoftName,
    /// Any other driver name.
    Name,
    /// Addresses and the file name.
    Address,
    Plain,
}

/// The text color of column `col` of a row.
pub fn cell_tone(col: usize, mark_non_microsoft: bool, is_microsoft: bool) -> (r: CellTone)
    ensures
        r == (if col == 0 {
            if mark_non_microsoft && !is_microsoft {
                CellTone::NonMicrosoftName
            } else {
                CellTone::Name
            }
        } else if col == 1 || col == 2 || col == 13 {
            CellTone::Address
        } else {
            CellTone::Plain
        }),
{
    if col == 0 {
        if mark_non_microsoft && !is_microsoft {
            CellTone::NonMicrosoftName
        } else {
            CellTone::Name
        }
    } else if col == 1 || col == 2 || col == 13 {
        CellTone::Address
    } else {
        CellTone::Plain
    }
}

/// Whether a driver counts as Microsoft's (its lower-cased company name
/// contains "microsoft").
pub fn is_microsoft_driver(d: &DriverInfo) -> (r: bool)
    ensures
        r == crate::listing::is_microsoft(*d),
{
    let mark = crate::listing::microsoft_mark();
    crate::listing::driver_is_microsoft(d, &mark)
}

/// How long ago a log line was written: seconds under a minute, else whole
/// minutes.
pub open spec fn age_text(secs: u64) -> Seq<char> {
    if secs < 60 {
        decimal(secs as nat) + "s ago"@
    } else {
        decimal((secs / 60) as nat) + "m ago"@
    }
}

/// The age shown beside a Driver Manager log line.
pub fn elapsed_label(secs: u64) -> (r: String)
    ensures
        r@ == age_text(secs),
{
    let mut r = if secs < 60 {
        decimal_text(secs)
    } else {
        decimal_text(secs / 60)
    };
    if secs < 60 {
        r.append("s ago");
    } else {
        r.append("m ago");
    }
    r
}

/// The status bar when no message is shown: the number of selected items
/// when there are several, else the file of the selected driver.
pub open spec fn idle_status(state: &AppState) -> Option<Seq<char>> {
    if state.selected_names@.len() > 1 {
        Some(decimal(state.selected_names@.len()) + " items selected"@)
    } else {
        match state.first_selected() {
            Some(d) => Some(d.file_path@),
            None => None,
        }
    }
}

/// The status bar text when no message is shown.
pub fn idle_status_text(state: &AppState) -> (r: Option<String>)
    ensures
        match r {
            Some(s) => idle_status(state) == Some(s@),
            None => idle_status(state) is None,
        },
{
    let count = state.selection_count();
    if count > 1 {
        let mut s = decimal_text(count as u64);
        s.append(" items selected");
        return Some(s);
    }
    match state.selected() {
        Some(d) => Some(d.file_path.clone()),
        None => None,
    }
}

/// The loading note of the toolbar.
pub open spec fn loading_note(state: &AppState) -> Option<Seq<char>> {
    match state.loading_state {
        LoadingState::Idle => None,
        LoadingState::Loading => Some("Loading..."@),
        LoadingState::Loaded => Some(decimal(state.drivers@.len()) + " drivers"@),
        LoadingState::Error(e) => Some("Error: "@ + e@),
    }
}

/// The toolbar's note on loading: under way, the number of drivers loaded,
/// or the error.
pub fn loading_label(state: &AppState) -> (r: Option<String>)
    ensures
        match r {
            Some(s) => loading_note(state) == Some(s@),
            None => loading_note(state) is None,
        },
{
    match &state.loading_state {
        LoadingState::Idle => None,
        LoadingState::Loading => Some(owned("Loading...")),
        LoadingState::Loaded => {
            let mut s = decimal_text(state.drivers.len() as u64);
            s.append(" drivers");
            Some(s)
        },
        LoadingState::Error(e) => Some(text2("Error: ", e.as_str())),
    }
}

/// The count beside the search box: shown drivers over all drivers.
pub fn filter_count_label(state: &AppState) -> (r: String)
    ensures
        r@ == decimal(state.listing().rows().len()) + "/"@ + decimal(state.drivers@.len()),
{
    let shown = state.filtered_drivers().len();
    let mut s = decimal_text(shown as u64);
    s.append("/");
    s.append(decimal_text(state.drivers.len() as u64).as_str());
    s
}

/// How the Driver Manager shows a queried service status.
#[derive(Clone, Copy, PartialEq, Eq, Debug, Structural)]
pub enum ServiceTone {
    Running,
    Stopped,
    Other,
}

/// The tone of a queried service status: "Running", "Stopped" or other.
pub fn service_tone(status: &str) -> (r: ServiceTone)
    ensures
        r == (if status@ == "Running"@ {
            ServiceTone::Running
        } else if status@ == "Stopped"@ {
            ServiceTone::Stopped
        } else {
            ServiceTone::Other
        }),
{
    if crate::text::same_text(status, "Running") {
        ServiceTone::Running
    } else if crate::text::same_text(status, "Stopped") {
        ServiceTone::Stopped
    } else {
        ServiceTone::Other
    }
}

} // verus!

verus! {

/// How a row of the detail panel is colored.
#[derive(Clone, Copy, PartialEq, Eq, Debug, Structural)]
pub enum DetailTone {
    Plain,
    Running,
    Stopped,
    Signed,
    Unsigned,
}

/// A label and its value in the detail panel.
pub struct DetailRow {
    pub label: String,
    pub value: String,
    pub tone: DetailTone,
}

/// The spec view of a detail row.
pub open spec fn row_view(r: DetailRow) -> (Seq<char>, Seq<char>, DetailTone) {
    (r.label@, r.value@, r.tone)
}

/// The row for an optional field: one plain row when present, none otherwise.
pub open spec fn opt_row(label: Seq<char>, o: Option<String>) -> Seq<(Seq<char>, Seq<char>, DetailTone)> {
    match o {
        Some(s) => seq![(label, s@, DetailTone::Plain)],
        None => Seq::empty(),
    }
}

/// The detail panel of a driver, section by section (separators between).
pub open spec fn detail_spec(d: DriverInfo) -> Seq<Seq<(Seq<char>, Seq<char>, DetailTone)>> {
    seq![
        seq![("Address:"@, address_text(d.load_address), DetailTone::Plain)] + (if d.end_address
            > 0 {
            seq![("End Address:"@, address_text(d.end_address), DetailTone::Plain)]
        } else {
            Seq::empty()
        }) + (if d.size > 0 {
            seq![
                (
                    "Size:"@,
                    "0x"@ + hex_padded(d.size as nat, 8) + " ("@ + decimal((d.size / 1024) as nat)
                        + " KB)"@,
                    DetailTone::Plain,
                ),
            ]
        } else {
            Seq::empty()
        }) + seq![
            ("Load Count:"@, decimal(d.load_count as nat), DetailTone::Plain),
            ("Index:"@, decimal(d.index as nat), DetailTone::Plain),
        ],
        opt_row("File Type:"@, d.file_type) + seq![
            ("Driver Type:"@, d.driver_type@, DetailTone::Plain),
            (
                "Status:"@,
                d.status@,
                if d.status@ == "Running"@ {
                    DetailTone::Running
                } else {
                    DetailTone::Stopped
                },
            ),
        ],
        opt_row("Description:"@, d.file_description) + opt_row("Version:"@, d.file_version)
            + opt_row("Company:"@, d.company_name) + opt_row("Product Name:"@, d.product_name),
        seq![("Filename:"@, d.file_path@, DetailTone::Plain)] + opt_row(
            "Modified Date:"@,
            d.modified_date,
        ) + opt_row("Created Date:"@, d.created_date) + opt_row(
            "File Attributes:"@,
            d.file_attributes,
        ),
        opt_row("Service Name:"@, d.service_name) + opt_row(
            "Service Display:"@,
            d.service_display_name,
        ) + (match d.is_signed {
            Some(true) => seq![("Signed:"@, "Yes"@, DetailTone::Signed)],
            Some(false) => seq![("Signed:"@, "No"@, DetailTone::Unsigned)],
            None => Seq::empty(),
        }) + opt_row("Signer:"@, d.signer),
    ]
}

/// The views of some detail rows.
pub open spec fn rows_view(v: Seq<DetailRow>) -> Seq<(Seq<char>, Seq<char>, DetailTone)> {
    v.map_values(|r: DetailRow| row_view(r))
}

fn push_row(rows: &mut Vec<DetailRow>, label: &str, value: String, tone: DetailTone)
    ensures
        rows_view(final(rows)@) == rows_view(old(rows)@).push((label@, value@, tone)),
{
    rows.push(DetailRow { label: owned(label), value, tone });
    proof {
        assert(rows_view(rows@) =~= rows_view(old(rows)@).push((label@, value@, tone)));
    }
}

fn push_opt_row(rows: &mut Vec<DetailRow>, label: &str, o: &Option<String>)
    ensures
        rows_view(final(rows)@) == rows_view(old(rows)@) + opt_row(label@, *o),
{
    match o {
        Some(s) => {
            push_row(rows, label, s.clone(), DetailTone::Plain);
            proof {
                assert(rows_view(rows@) =~= rows_view(old(rows)@) + opt_row(label@, *o));
            }
        },
        None => {
            proof {
                assert(rows_view(rows@) =~= rows_view(old(rows)@) + opt_row(label@, *o));
            }
        },
    }
}

/// The rows of the detail panel for a driver, in five sections.
pub fn detail_sections(d: &DriverInfo) -> (r: Vec<Vec<DetailRow>>)
    ensures
        r@.len() == 5,
        forall|k: int| 0 <= k < 5 ==> rows_view(#[trigger] r@[k]@) == detail_spec(*d)[k],
{
    let spec_all = Ghost(detail_spec(*d));
    let mut a: Vec<DetailRow> = Vec::new();
    push_row(&mut a, "Address:", format_address(d.load_address), DetailTone::Plain);
    if d.end_address > 0 {
        push_row(&mut a, "End Address:", format_address(d.end_address), DetailTone::Plain);
    }
    if d.size > 0 {
        let mut size = owned("0x");
        size.append(hex_text(d.size, 8).as_str());
        size.append(" (");
        size.append(decimal_text(d.size / 1024).as_str());
        size.append(" KB)");
        push_row(&mut a, "Size:", size, DetailTone::Plain);
    }
    push_row(&mut a, "Load Count:", decimal_text(d.load_count as u64), DetailTone::Plain);
    push_row(&mut a, "Index:", decimal_text(d.index as u64), DetailTone::Plain);
    proof {
        assert(rows_view(a@) =~= spec_all@[0]);
    }
    let mut b: Vec<DetailRow> = Vec::new();
    push_opt_row(&mut b, "File Type:", &d.file_type);
    push_row(&mut b, "Driver Type:", d.driver_type.clone(), DetailTone::Plain);
    let tone = if crate::text::same_text(d.status.as_str(), "Running") {
        DetailTone::Running
    } else {
        DetailTone::Stopped
    };
    push_row(&mut b, "Status:", d.status.clone(), tone);
    proof {
        assert(rows_view(b@) =~= spec_all@[1]);
    }
    let mut c: Vec<DetailRow> = Vec::new();
    push_opt_row(&mut c, "Description:", &d.file_description);
    push_opt_row(&mut c, "Version:", &d.file_version);
    push_opt_row(&mut c, "Company:", &d.company_name);
    push_opt_row(&mut c, "Product Name:", &d.product_name);
    proof {
        assert(rows_view(c@) =~= spec_all@[2]);
    }
    let mut e: Vec<DetailRow> = Vec::new();
    push_row(&mut e, "Filename:", d.file_path.clone(), DetailTone::Plain);
    push_opt_row(&mut e, "Modified Date:", &d.modified_date);
    push_opt_row(&mut e, "Created Date:", &d.created_date);
    push_opt_row(&mut e, "File Attributes:", &d.file_attributes);
    proof {
        assert(rows_view(e@) =~= spec_all@[3]);
    }
    let mut f: Vec<DetailRow> = Vec::new();
    push_opt_row(&mut f, "Service Name:", &d.service_name);
    push_opt_row(&mut f, "Service Display:", &d.service_display_name);
    let ghost before_signed = rows_view(f@);
    match d.is_signed {
        Some(true) => push_row(&mut f, "Signed:", owned("Yes"), DetailTone::Signed),
        Some(false) => push_row(&mut f, "Signed:", owned("No"), DetailTone::Unsigned),
        None => {},
    }
    proof {
        assert(rows_view(f@) =~= before_signed + match d.is_signed {
            Some(true) => seq![("Signed:"@, "Yes"@, DetailTone::Signed)],
            Some(false) => seq![("Signed:"@, "No"@, DetailTone::Unsigned)],
            None => Seq::empty(),
        });
    }
    push_opt_row(&mut f, "Signer:", &d.signer);
    proof {
        assert(rows_view(f@) =~= spec_all@[4]);
    }
    let mut r: Vec<Vec<DetailRow>> = Vec::new();
    r.push(a);
    r.push(b);
    r.push(c);
    r.push(e);
    r.push(f);
    r
}

} // verus!

verus! {

/// The label of the context-menu item that copies a cell: the cell in
/// quotes; a cell longer than 40 bytes is cut after its first 37 bytes and
/// marked with "...".
pub open spec fn copy_label_text(cell: Seq<char>) -> Seq<char> {
    let bytes = encode_utf8(cell);
    if bytes.len() > 40 {
        "Copy \""@ + decode_utf8(bytes.subrange(0, 37)) + "...\""@
    } else {
        "Copy \""@ + cell + "\""@
    }
}

/// The label of the "Copy cell" item for the cell under a right click. A cell
/// longer than 40 bytes must have a character boundary after byte 37.
pub fn copy_cell_label(cell: &str) -> (r: String)
    requires
        encode_utf8(cell@).len() <= usize::MAX,
        encode_utf8(cell@).len() > 40 ==> is_char_boundary(encode_utf8(cell@), 37),
    ensures
        r@ == copy_label_text(cell@),
{
    if cell.len() > 40 {
        let (head, _rest) = cell.split_at(37);
        proof {
            vstd::utf8::encode_utf8_decode_utf8(head@);
            assert(head.spec_bytes() == encode_utf8(head@));
            assert(encode_utf8(head@) =~= encode_utf8(cell@).subrange(0, 37));
        }
        let mut r = owned("Copy \"");
        r.append(head);
        r.append("...\"");
        r
    } else {
        text3("Copy \"", cell, "\"")
    }
}

/// `char::to_ascii_lowercase`: upper-case ASCII letters become lower case.
pub open spec fn ascii_lower(c: char) -> char {
    if 'A' <= c && c <= 'Z' {
        ((c as u32) + 32) as char
    } else {
        c
    }
}

fn to_ascii_lower(c: char) -> (r: char)
    ensures
        r == ascii_lower(c),
{
    if 'A' <= c && c <= 'Z' {
        let b: u8 = c as u8;
        let l: u8 = b + 32;
        l as char
    } else {
        c
    }
}

/// `k` is the first position of `c` in `s`.
pub open spec fn is_first_index(s: Seq<char>, c: char, k: int) -> bool {
    &&& 0 <= k < s.len()
    &&& s[k] == c
    &&& forall|j: int| 0 <= j < k ==> s[j] != c
}

/// The byte offset at which the mnemonic is underlined: the first occurrence
/// of the lower-cased mnemonic in the lower-cased label, counted in bytes of
/// the lower-cased label; it must fall on a character boundary inside the
/// label itself.
pub open spec fn mnemonic_offset_fits(text: Seq<char>, k: int) -> bool {
    let pos = encode_utf8(lowercased(text).take(k)).len();
    &&& pos < encode_utf8(text).len()
    &&& is_char_boundary(encode_utf8(text), pos as int)
}

/// Encoding one more character appends its encoding.
proof fn lemma_encode_push(s: Seq<char>, c: char)
    ensures
        encode_utf8(s.push(c)) == encode_utf8(s) + encode_scalar(c as u32),
    decreases s.len(),
{
    if s.len() == 0 {
        assert(s.push(c).drop_first() =~= Seq::<char>::empty());
        assert(s.push(c)[0] == c);
        assert(encode_utf8(Seq::<char>::empty()) =~= Seq::<u8>::empty());
        assert(encode_utf8(s) =~= Seq::<u8>::empty());
        assert(encode_utf8(s.push(c)) =~= encode_scalar(c as u32));
    } else {
        assert(s.push(c).drop_first() =~= s.drop_first().push(c));
        lemma_encode_push(s.drop_first(), c);
        assert(encode_utf8(s.push(c)) =~= encode_utf8(s) + encode_scalar(c as u32));
    }
}

/// The number of bytes of the UTF-8 encoding of `c` (`char::len_utf8`).
fn utf8_width(c: char) -> (w: usize)
    ensures
        w == encode_scalar(c as u32).len(),
        1 <= w <= 4,
{
    proof {
        vstd::utf8::char_is_scalar(c);
    }
    let v: u32 = c as u32;
    if v < 0x80 {
        1
    } else if v < 0x800 {
        2
    } else if v < 0x10000 {
        3
    } else {
        4
    }
}

/// A menu label split around its mnemonic character, for underlining: the
/// text before, the character, and the text after. `None` when the label has
/// no such character (it is then shown plain), or when the offset found in
/// the lower-cased label does not fall on a character of the label.
pub fn mnemonic_parts(text: &str, mnemonic: char) -> (r: Option<(String, char, String)>)
    requires
        encode_utf8(text@).len() <= usize::MAX,
    ensures
        match r {
            None => !(exists|k: int|
                is_first_index(lowercased(text@), ascii_lower(mnemonic), k)
                    && mnemonic_offset_fits(text@, k)),
            Some((before, mid, after)) => exists|k: int|
                is_first_index(lowercased(text@), ascii_lower(mnemonic), k)
                    && mnemonic_offset_fits(text@, k)
                    && encode_utf8(before@).len() == encode_utf8(lowercased(text@).take(k)).len()
                    && before@ + seq![mid] + after@ == text@,
        },
{
    let lowered = lowercase(text);
    let target = to_ascii_lower(mnemonic);
    let text_len = text.len();
    let ghost l = lowered@;
    let mut found = false;
    let mut over = false;
    let mut count: usize = 0;
    let ghost mut k: int = 0;
    for ch in it: lowered.chars()
        invariant
            it.seq() == l,
            l == lowercased(text@),
            text_len == encode_utf8(text@).len(),
            !found ==> k == it.index(),
            !found ==> forall|j: int| 0 <= j < it.index() ==> l[j] != target,
            found ==> is_first_index(l, target, k),
            0 <= k <= l.len(),
            !over ==> count == encode_utf8(l.take(k)).len() && count <= text_len,
            over ==> encode_utf8(l.take(k)).len() > text_len,
    {
        if !found {
            if ch == target {
                found = true;
            } else {
                let ghost i = it.index() as int;
                proof {
                    assert(l.take(i + 1) =~= l.take(i).push(ch));
                    lemma_encode_push(l.take(i), ch);
                    k = i + 1;
                }
                if !over {
                    let w = utf8_width(ch);
                    if w > text_len - count {
                        over = true;
                    } else {
                        count = count + w;
                    }
                }
            }
        }
    }
    proof {
        if !found {
            assert forall|k2: int| !is_first_index(l, target, k2) by {
                if 0 <= k2 < l.len() {
                    assert(l[k2] != target);
                }
            }
        } else {
            assert forall|k2: int| is_first_index(l, target, k2) implies k2 == k by {
                if k2 < k {
                    assert(l[k2] != target);
                }
                if k < k2 {
                    assert(l[k] != target);
                }
            }
        }
    }
    if !found || over {
        return None;
    }
    if count < text_len && text.is_char_boundary(count) {
        let (before, rest) = text.split_at(count);
        let ghost bytes = encode_utf8(text@);
        proof {
            vstd::utf8::encode_utf8_decode_utf8(text@);
            vstd::utf8::encode_utf8_decode_utf8(before@);
            vstd::utf8::encode_utf8_decode_utf8(rest@);
            vstd::utf8::encode_utf8_valid_utf8(text@);
            vstd::utf8::decode_utf8_split(bytes, count as int);
            assert(before.spec_bytes() == encode_utf8(before@));
            assert(rest.spec_bytes() == encode_utf8(rest@));
            assert(before@ + rest@ == text@);
            if rest@.len() == 0 {
                assert(encode_utf8(rest@) =~= Seq::<u8>::empty());
            }
        }
        let mid = rest.get_char(0);
        let n = rest.unicode_len();
        let after = rest.substring_char(1, n);
        proof {
            assert(rest@ =~= seq![mid] + after@);
            assert(before@ + seq![mid] + after@ =~= text@);
            assert(encode_utf8(before@).len() == count);
            assert(mnemonic_offset_fits(text@, k));
            assert(is_first_index(lowercased(text@), ascii_lower(mnemonic), k));
        }
        Some((owned(before), mid, owned(after)))
    } else {
        proof {
            assert(!mnemonic_offset_fits(text@, k));
            assert forall|k2: int|
                is_first_index(lowercased(text@), ascii_lower(mnemonic), k2) implies !mnemonic_offset_fits(text@, k2) by {
                assert(k2 == k);
            }
        }
        None
    }
}

} // verus!

verus! {

/// The keys pressed in one frame that have shortcuts, and the modifiers held.
#[derive(Clone, Copy, Debug)]
pub struct ShortcutKeys {
    pub ctrl: bool,
    pub alt: bool,
    pub f5: bool,
    pub f8: bool,
    pub f: bool,
    pub c: bool,
    pub s: bool,
    pub a: bool,
    pub d: bool,
    pub enter: bool,
}

/// `action` when `pressed`, else nothing.
pub open spec fn when(pressed: bool, action: GuiAction) -> Seq<GuiAction> {
    if pressed {
        seq![action]
    } else {
        Seq::empty()
    }
}

/// The actions of the keyboard shortcuts, in this order: F5 refresh, F8
/// properties, Ctrl+F find, Ctrl+C copy, Ctrl+S save, Ctrl+A select all,
/// Ctrl+D deselect all, Alt+Enter properties.
pub open spec fn shortcut_spec(k: ShortcutKeys) -> Seq<GuiAction> {
    when(k.f5, GuiAction::Refresh) + when(k.f8, GuiAction::FileProperties) + when(
        k.ctrl && k.f,
        GuiAction::FocusFind,
    ) + when(k.ctrl && k.c, GuiAction::CopySelectedItems) + when(
        k.ctrl && k.s,
        GuiAction::SaveSelectedItems,
    ) + when(k.ctrl && k.a, GuiAction::SelectAll) + when(k.ctrl && k.d, GuiAction::DeselectAll)
        + when(k.alt && k.enter, GuiAction::FileProperties)
}

fn push_when(out: &mut Vec<GuiAction>, pressed: bool, action: GuiAction)
    ensures
        final(out)@ == old(out)@ + when(pressed, action),
{
    if pressed {
        out.push(action);
    }
    proof {
        assert(out@ =~= old(out)@ + when(pressed, action));
    }
}

/// The actions that the keyboard shortcuts of one frame ask for.
pub fn shortcut_actions(k: &ShortcutKeys) -> (r: Vec<GuiAction>)
    ensures
        r@ == shortcut_spec(*k),
{
    let mut r: Vec<GuiAction> = Vec::new();
    push_when(&mut r, k.f5, GuiAction::Refresh);
    push_when(&mut r, k.f8, GuiAction::FileProperties);
    push_when(&mut r, k.ctrl && k.f, GuiAction::FocusFind);
    push_when(&mut r, k.ctrl && k.c, GuiAction::CopySelectedItems);
    push_when(&mut r, k.ctrl && k.s, GuiAction::SaveSelectedItems);
    push_when(&mut r, k.ctrl && k.a, GuiAction::SelectAll);
    push_when(&mut r, k.ctrl && k.d, GuiAction::DeselectAll);
    push_when(&mut r, k.alt && k.enter, GuiAction::FileProperties);
    proof {
        assert(r@ =~= shortcut_spec(*k));
    }
    r
}

/// The menu letters pressed in one frame (File, Edit, View, eXport, Tools,
/// Help) and whether Alt is held.
#[derive(Clone, Copy, Debug)]
pub struct MenuKeys {
    pub alt: bool,
    pub f: bool,
    pub e: bool,
    pub v: bool,
    pub x: bool,
    pub t: bool,
    pub h: bool,
}

/// The menu waiting to be opened after a frame: with Alt held, the last menu
/// letter pressed (in the order f, e, v, x, t, h); otherwise, or when no
/// letter was pressed, the one that was waiting.
pub open spec fn menu_after(pending: Option<char>, k: MenuKeys) -> Option<char> {
    if !k.alt {
        pending
    } else if k.h {
        Some('h')
    } else if k.t {
        Some('t')
    } else if k.x {
        Some('x')
    } else if k.v {
        Some('v')
    } else if k.e {
        Some('e')
    } else if k.f {
        Some('f')
    } else {
        pending
    }
}

/// Which menu to open by its Alt+letter mnemonic, after the keys of a frame.
pub fn pending_menu_after(pending: Option<char>, k: &MenuKeys) -> (r: Option<char>)
    ensures
        r == menu_after(pending, *k),
{
    let mut r = pending;
    if k.alt {
        if k.f {
            r = Some('f');
        }
        if k.e {
            r = Some('e');
        }
        if k.v {
            r = Some('v');
        }
        if k.x {
            r = Some('x');
        }
        if k.t {
            r = Some('t');
        }
        if k.h {
            r = Some('h');
        }
    }
    r
}

} // verus!
