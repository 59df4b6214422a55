use vstd::prelude::*;

use crate::driver::{opt_text, text_or_empty, DriverInfo};
use crate::text::{decimal, decimal_text, hex_padded, hex_text, join, owned};

verus! {

/// The size column: `0x` and at least eight upper-case hex digits; empty for
/// size 0 (`format!("0x{:08X}", size)`).
pub open spec fn size_text(size: u64) -> Seq<char> {
    if size > 0 {
        seq!['0', 'x'] + hex_padded(size as nat, 8)
    } else {
        Seq::empty()
    }
}

/// Computes `size_text(size)`.
pub fn size_cell(size: u64) -> (r: String)
    ensures
        r@ == size_text(size),
{
    if size > 0 {
        proof {
            reveal_strlit("0x");
        }
        let mut r = owned("0x");
        let hex = hex_text(size, 8);
        r.append(hex.as_str());
        r
    } else {
        String::new()
    }
}

/// The tab-separated fields of a driver's clipboard line, in column order;
/// addresses are sixteen upper-case hex digits.
pub open spec fn line_fields(d: DriverInfo) -> Seq<Seq<char>> {
    seq![
        d.name@,
        hex_padded(d.load_address as nat, 16),
        hex_padded(d.end_address as nat, 16),
        size_text(d.size),
        decimal(d.load_count as nat),
        decimal(d.index as nat),
        opt_text(d.file_type),
        opt_text(d.file_description),
        opt_text(d.file_version),
        opt_text(d.company_name),
        opt_text(d.product_name),
        opt_text(d.modified_date),
        opt_text(d.created_date),
        d.file_path@,
        opt_text(d.file_attributes),
        opt_text(d.service_name),
    ]
}

/// A driver as one tab-separated line.
pub open spec fn driver_line(d: DriverInfo) -> Seq<char> {
    join(line_fields(d), seq!['\t'])
}

/// Drivers as tab-separated lines, one per driver, joined by newlines.
pub open spec fn clipboard_text(list: Seq<DriverInfo>) -> Seq<char> {
    join(list.map_values(|d: DriverInfo| driver_line(d)), seq!['\n'])
}

/// The fields of `line_fields(*d)`, computed.
pub fn line_cells(d: &DriverInfo) -> (r: Vec<String>)
    ensures
        r@.len() == 16,
        forall|k: int| 0 <= k < 16 ==> #[trigger] r@[k]@ == line_fields(*d)[k],
{
    let mut r: Vec<String> = Vec::new();
    r.push(d.name.clone());
    r.push(hex_text(d.load_address, 16));
    r.push(hex_text(d.end_address, 16));
    r.push(size_cell(d.size));
    r.push(decimal_text(d.load_count as u64));
    r.push(decimal_text(d.index as u64));
    r.push(owned(text_or_empty(&d.file_type)));
    r.push(owned(text_or_empty(&d.file_description)));
    r.push(owned(text_or_empty(&d.file_version)));
    r.push(owned(text_or_empty(&d.company_name)));
    r.push(owned(text_or_empty(&d.product_name)));
    r.push(owned(text_or_empty(&d.modified_date)));
    r.push(owned(text_or_empty(&d.created_date)));
    r.push(d.file_path.clone());
    r.push(owned(text_or_empty(&d.file_attributes)));
    r.push(owned(text_or_empty(&d.service_name)));
    r
}

} // verus!
