use vstd::prelude::*;

use crate::driver::{opt_text, DriverInfo};
use crate::format::{clipboard_text, driver_line, line_fields};
use crate::listing::{key_before, sort_key, Listing};
use crate::snapshot::{name_set, report_html, strictly_ascending, REPORT_HEAD};
use crate::state::{sort_after_click, toggled, SortColumn, SortOrder};
use crate::text::{
    codes, contains_seq, decimal, digit_char, digits, fold_key, hex_padded, lemma_lex_irreflexive,
    lemma_lex_trichotomy, lex_lt, texts,
};
use crate::ui::{address_text, cell_texts, column_keys, detail_spec, DetailTone};

verus! {

/// Clicking the header of the sort column twice restores the sort.
pub proof fn lemma_sort_click_twice(column: SortColumn, order: SortOrder)
    ensures
        ({
            let (c1, o1) = sort_after_click(column, order, column);
            sort_after_click(c1, o1, column)
        }) == (column, order),
{
}

/// Ctrl-clicking the same row twice restores the selection.
pub proof fn lemma_toggle_twice(names: Set<Seq<char>>, n: Seq<char>)
    ensures
        toggled(toggled(names, n), n) == names,
{
    if names.contains(n) {
        assert(names.remove(n).insert(n) =~= names);
    } else {
        assert(names.insert(n).remove(n) =~= names);
    }
}

/// After the selection is checked against the table, every selected name is
/// shown, and checking again changes nothing.
pub proof fn lemma_validate_idempotent(selected: Set<Seq<char>>, shown: Set<Seq<char>>)
    ensures
        selected.intersect(shown).subset_of(shown),
        selected.intersect(shown).intersect(shown) == selected.intersect(shown),
{
    assert(selected.intersect(shown).intersect(shown) =~= selected.intersect(shown));
}

/// A range of rows only holds names the table shows.
pub proof fn lemma_range_within_table(l: Listing, lo: int, hi: int)
    ensures
        l.names_between(lo, hi).subset_of(l.row_names()),
{
}

/// With no search text and both vendor groups shown, the table lists every
/// driver, each once.
pub proof fn lemma_empty_search_lists_all(l: Listing)
    requires
        l.drivers.len() <= usize::MAX,
        l.search.len() == 0,
        l.show_microsoft,
        l.show_non_microsoft,
    ensures
        l.rows().len() == l.drivers.len(),
        forall|i: int| 0 <= i < l.drivers.len() ==> #[trigger] l.rows().contains(i as usize),
{
    l.lemma_rows_exist();
    let r = l.rows();
    assert forall|i: int| 0 <= i < l.drivers.len() implies #[trigger] r.contains(i as usize) by {
        assert(l.listed(l.drivers[i]));
    }
    let ints = r.map_values(|x: usize| x as int);
    assert forall|a: int, b: int| 0 <= a < r.len() && 0 <= b < r.len() && a != b implies ints[a]
        != ints[b] by {
        crate::listing::lemma_ordered_before_total(
            l.sort_order,
            l.key(r[a] as int),
            r[a] as int,
            l.key(r[b] as int),
            r[b] as int,
        );
        if a < b {
            assert(l.precedes(r[a] as int, r[b] as int));
        } else {
            assert(l.precedes(r[b] as int, r[a] as int));
        }
    }
    assert(ints.no_duplicates());
    ints.unique_seq_to_set();
    assert(ints.to_set() =~= vstd::set_lib::set_int_range(0, l.drivers.len() as int)) by {
        assert forall|x: int| ints.to_set().contains(x) <==> 0 <= x < l.drivers.len() by {
            if ints.to_set().contains(x) {
                let k = choose|k: int| 0 <= k < ints.len() && ints[k] == x;
                assert(ints[k] == r[k] as int);
            }
            if 0 <= x < l.drivers.len() {
                assert(r.contains(x as usize));
                let k = choose|k: int| 0 <= k < r.len() && r[k] == x as usize;
                assert(ints[k] == x);
            }
        }
    }
    vstd::set_lib::lemma_int_range(0, l.drivers.len() as int);
}

/// When no two shown drivers have the same key, sorting descending lists the
/// rows of the ascending sort in reverse.
pub proof fn lemma_descending_reverses_ascending(l: Listing)
    requires
        l.drivers.len() <= usize::MAX,
        l.sort_order == SortOrder::Descending,
        forall|i: int, j: int|
            0 <= i < l.drivers.len() && 0 <= j < l.drivers.len() && i != j && l.listed(
                #[trigger] l.drivers[i],
            ) && l.listed(#[trigger] l.drivers[j]) ==> l.key(i) != l.key(j),
    ensures
        l.rows() == (Listing { sort_order: SortOrder::Ascending, ..l }).rows().reverse(),
{
    let asc = Listing { sort_order: SortOrder::Ascending, ..l };
    asc.lemma_rows_exist();
    let ra = asc.rows();
    let rd = ra.reverse();
    assert forall|k: int| 0 <= k < rd.len() implies (#[trigger] rd[k] as int) < l.drivers.len()
        && l.listed(l.drivers[rd[k] as int]) by {
        assert(rd[k] == ra[ra.len() - 1 - k]);
    }
    assert forall|i: int| 0 <= i < l.drivers.len() && l.listed(#[trigger] l.drivers[i]) implies rd.contains(
        i as usize,
    ) by {
        assert(asc.listed(asc.drivers[i]));
        let k = choose|k: int| 0 <= k < ra.len() && ra[k] == i as usize;
        assert(rd[ra.len() - 1 - k] == i as usize);
    }
    assert forall|a: int, b: int| 0 <= a < b < rd.len() implies l.precedes(
        #[trigger] rd[a] as int,
        #[trigger] rd[b] as int,
    ) by {
        let x = rd[a] as int;
        let y = rd[b] as int;
        assert(x == ra[ra.len() - 1 - a] as int);
        assert(y == ra[ra.len() - 1 - b] as int);
        assert(asc.precedes(y, x));
        assert(l.listed(l.drivers[x]) && l.listed(l.drivers[y]));
        assert(x != y) by {
            crate::listing::lemma_ordered_before_total(SortOrder::Ascending, l.key(y), y, l.key(x), x);
        }
        assert(l.key(x) != l.key(y));
        lemma_lex_trichotomy(l.key(x), l.key(y));
    }
    l.lemma_rows_unique(rd);
}

/// The hex digits of a number below `16^w` fit in `w` places.
proof fn lemma_digits_fit(v: nat, w: nat)
    requires
        w >= 1,
        v < vstd::arithmetic::power::pow(16, w),
    ensures
        digits(v, 16).len() <= w,
    decreases w,
{
    vstd::arithmetic::power::lemma_pow_positive(16, w);
    if v >= 16 {
        assert(w >= 2) by {
            if w == 1 {
                vstd::arithmetic::power::lemma_pow1(16);
            }
        }
        vstd::arithmetic::power::lemma_pow_adds(16, 1, (w - 1) as nat);
        vstd::arithmetic::power::lemma_pow1(16);
        assert(v / 16 < vstd::arithmetic::power::pow(16, (w - 1) as nat)) by (nonlinear_arith)
            requires
                v < 16 * vstd::arithmetic::power::pow(16, (w - 1) as nat),
        ;
        lemma_digits_fit(v / 16, (w - 1) as nat);
    }
}

/// A number below `16^w`, zero-padded to `w` hex digits, takes exactly `w`
/// characters.
pub proof fn lemma_hex_width(v: nat, w: nat)
    requires
        w >= 1,
        v < vstd::arithmetic::power::pow(16, w),
    ensures
        hex_padded(v, w).len() == w,
{
    lemma_digits_fit(v, w);
}

/// `c` is an upper-case hexadecimal digit.
pub open spec fn is_hex_digit(c: char) -> bool {
    ('0' <= c && c <= '9') || ('A' <= c && c <= 'F')
}

/// The value of a hexadecimal digit.
pub open spec fn hex_digit_value(c: char) -> int {
    if c <= '9' {
        c as int - 48
    } else {
        c as int - 55
    }
}

/// The number that a string of hexadecimal digits stands for.
pub open spec fn hex_value(s: Seq<char>) -> int
    decreases s.len(),
{
    if s.len() == 0 {
        0
    } else {
        hex_value(s.drop_last()) * 16 + hex_digit_value(s.last())
    }
}

proof fn lemma_digit_char_hex(d: int)
    requires
        0 <= d < 16,
    ensures
        is_hex_digit(digit_char(d)),
        hex_digit_value(digit_char(d)) == d,
{
    if d < 10 {
        assert((48 + d) as char as int == 48 + d);
    } else {
        assert((55 + d) as char as int == 55 + d);
    }
}

/// The hex digits of `v` are hex digits and read back to `v`.
proof fn lemma_digits_read_back(v: nat)
    ensures
        forall|i: int| 0 <= i < digits(v, 16).len() ==> is_hex_digit(#[trigger] digits(v, 16)[i]),
        hex_value(digits(v, 16)) == v,
    decreases v,
{
    if v < 16 {
        lemma_digit_char_hex(v as int);
        let s = digits(v, 16);
        assert(s == seq![digit_char(v as int)]);
        assert(s.drop_last() =~= Seq::<char>::empty());
        assert(hex_value(s.drop_last()) == 0);
        assert(s.last() == digit_char(v as int));
    } else {
        vstd::arithmetic::div_mod::lemma_div_decreases(v as int, 16);
        lemma_digits_read_back(v / 16);
        lemma_digit_char_hex((v % 16) as int);
        let s = digits(v, 16);
        assert(s == digits(v / 16, 16).push(digit_char((v % 16) as int)));
        assert(s.drop_last() =~= digits(v / 16, 16));
        assert(s.last() == digit_char((v % 16) as int));
        assert(hex_value(s) == hex_value(digits(v / 16, 16)) * 16 + (v % 16) as int);
        assert(v == (v / 16) * 16 + v % 16) by (nonlinear_arith);
        assert forall|i: int| 0 <= i < s.len() implies is_hex_digit(#[trigger] s[i]) by {
            if i < s.len() - 1 {
                assert(s[i] == digits(v / 16, 16)[i]);
            }
        }
    }
}

/// Leading zeros do not change the value, and are hex digits.
proof fn lemma_zeros_read_back(n: nat, s: Seq<char>)
    ensures
        hex_value(Seq::new(n, |i: int| '0') + s) == hex_value(s),
    decreases s.len(), n,
{
    let z = Seq::new(n, |i: int| '0');
    if s.len() == 0 {
        assert(z + s =~= z);
        if n > 0 {
            assert(z.drop_last() =~= Seq::new((n - 1) as nat, |i: int| '0'));
            lemma_zeros_read_back((n - 1) as nat, s);
            assert(Seq::new((n - 1) as nat, |i: int| '0') + s =~= Seq::new((n - 1) as nat, |i: int| '0'));
        }
    } else {
        assert((z + s).drop_last() =~= z + s.drop_last());
        lemma_zeros_read_back(n, s.drop_last());
    }
}

/// Reading two digit strings in a row: the first is worth `16^|b|` times more.
proof fn lemma_hex_value_concat(a: Seq<char>, b: Seq<char>)
    ensures
        hex_value(a + b) == hex_value(a) * vstd::arithmetic::power::pow(16, b.len()) + hex_value(b),
    decreases b.len(),
{
    if b.len() == 0 {
        assert(a + b =~= a);
        vstd::arithmetic::power::lemma_pow0(16);
        assert(hex_value(b) == 0);
    } else {
        assert((a + b).drop_last() =~= a + b.drop_last());
        lemma_hex_value_concat(a, b.drop_last());
        vstd::arithmetic::power::lemma_pow_adds(16, (b.len() - 1) as nat, 1);
        vstd::arithmetic::power::lemma_pow1(16);
        let p = vstd::arithmetic::power::pow(16, (b.len() - 1) as nat);
        let x = hex_value(a);
        let y = hex_value(b.drop_last());
        let d = hex_digit_value(b.last());
        assert((a + b).last() == b.last());
        assert(hex_value(a + b) == (x * p + y) * 16 + d);
        assert(hex_value(b) == y * 16 + d);
        assert((x * p + y) * 16 + d == x * (p * 16) + (y * 16 + d)) by (nonlinear_arith);
        assert(vstd::arithmetic::power::pow(16, b.len()) == p * 16);
    }
}

/// `v` zero-padded to eight hex digits reads back to `v`, all hex digits.
proof fn lemma_hex8_read_back(v: nat)
    requires
        v < 0x1_0000_0000,
    ensures
        hex_padded(v, 8).len() == 8,
        forall|i: int| 0 <= i < 8 ==> is_hex_digit(#[trigger] hex_padded(v, 8)[i]),
        hex_value(hex_padded(v, 8)) == v,
{
    assert(vstd::arithmetic::power::pow(16, 8) == 0x1_0000_0000) by {
        reveal_with_fuel(vstd::arithmetic::power::pow, 9);
    }
    lemma_hex_width(v, 8);
    lemma_digits_read_back(v);
    let d = digits(v, 16);
    if d.len() < 8 {
        let n = (8 - d.len()) as nat;
        lemma_zeros_read_back(n, d);
        assert forall|i: int| 0 <= i < 8 implies is_hex_digit(#[trigger] hex_padded(v, 8)[i]) by {
            if i >= n {
                assert(hex_padded(v, 8)[i] == d[i - n]);
            }
        }
    }
}

/// A non-zero address is shown as eight hex digits, a backquote and eight
/// more hex digits, and the sixteen digits read back to the address.
pub proof fn lemma_address_round_trip(addr: u64)
    requires
        addr != 0,
    ensures
        address_text(addr).len() == 17,
        address_text(addr)[8] == '`',
        forall|i: int| 0 <= i < 17 && i != 8 ==> is_hex_digit(#[trigger] address_text(addr)[i]),
        hex_value(address_text(addr).take(8) + address_text(addr).skip(9)) == addr,
{
    let hi = (addr / 0x1_0000_0000) as nat;
    let lo = (addr % 0x1_0000_0000) as nat;
    lemma_hex8_read_back(hi);
    lemma_hex8_read_back(lo);
    let h = hex_padded(hi, 8);
    let l = hex_padded(lo, 8);
    let t = address_text(addr);
    assert(t == h + seq!['`'] + l);
    assert(t.take(8) =~= h);
    assert(t.skip(9) =~= l);
    assert forall|i: int| 0 <= i < 17 && i != 8 implies is_hex_digit(#[trigger] t[i]) by {
        if i < 8 {
            assert(t[i] == h[i]);
        } else {
            assert(t[i] == l[i - 9]);
        }
    }
    lemma_hex_value_concat(h, l);
    assert(vstd::arithmetic::power::pow(16, 8) == 0x1_0000_0000) by {
        reveal_with_fuel(vstd::arithmetic::power::pow, 9);
    }
    assert(addr == hi * 0x1_0000_0000 + lo);
}

/// In a comparison, the current names are the added ones and the unchanged
/// ones, and the baseline names are the removed ones and the unchanged ones.
pub proof fn lemma_comparison_counts(
    baseline: Seq<DriverInfo>,
    current: Seq<DriverInfo>,
    added: Seq<Seq<char>>,
    removed: Seq<Seq<char>>,
    unchanged: nat,
)
    requires
        strictly_ascending(added),
        added.to_set() == name_set(current).difference(name_set(baseline)),
        strictly_ascending(removed),
        removed.to_set() == name_set(baseline).difference(name_set(current)),
        unchanged == name_set(baseline).intersect(name_set(current)).len(),
    ensures
        name_set(current).len() == added.len() + unchanged,
        name_set(baseline).len() == removed.len() + unchanged,
        added.to_set().disjoint(removed.to_set()),
{
    lemma_name_set_finite(baseline);
    lemma_name_set_finite(current);
    crate::snapshot::lemma_ascending_distinct(added);
    crate::snapshot::lemma_ascending_distinct(removed);
    let b = name_set(baseline);
    let c = name_set(current);
    vstd::set_lib::lemma_set_difference_len(c, b);
    vstd::set_lib::lemma_set_difference_len(b, c);
    assert(c.intersect(b) =~= b.intersect(c));
}

/// Comparing a driver list with a snapshot of itself finds nothing added or
/// removed, and every distinct name unchanged.
pub proof fn lemma_compare_with_itself(
    drivers: Seq<DriverInfo>,
    added: Seq<Seq<char>>,
    removed: Seq<Seq<char>>,
    unchanged: nat,
)
    requires
        added.to_set() == name_set(drivers).difference(name_set(drivers)),
        removed.to_set() == name_set(drivers).difference(name_set(drivers)),
        unchanged == name_set(drivers).intersect(name_set(drivers)).len(),
    ensures
        added.len() == 0,
        removed.len() == 0,
        unchanged == name_set(drivers).len(),
{
    if added.len() > 0 {
        assert(added.to_set().contains(added[0]));
    }
    if removed.len() > 0 {
        assert(removed.to_set().contains(removed[0]));
    }
    assert(name_set(drivers).intersect(name_set(drivers)) =~= name_set(drivers));
}

/// The names of a list of drivers form a finite set.
proof fn lemma_name_set_finite(ds: Seq<DriverInfo>)
    ensures
        name_set(ds).finite(),
{
    let names = ds.map_values(|d: DriverInfo| d.name@);
    assert(name_set(ds) =~= names.to_set()) by {
        assert forall|n: Seq<char>| name_set(ds).contains(n) <==> names.to_set().contains(n) by {
            if name_set(ds).contains(n) {
                let i = choose|i: int| 0 <= i < ds.len() && #[trigger] ds[i].name@ == n;
                assert(names[i] == n);
            }
            if names.to_set().contains(n) {
                let i = choose|i: int| 0 <= i < names.len() && names[i] == n;
                assert(ds[i].name@ == n);
            }
        }
    }
    vstd::seq_lib::seq_to_set_is_finite(names);
}

/// Sorted by the Filename column, the table follows the lower-cased file
/// paths: ascending, a driver whose folded path is smaller is shown first;
/// descending, one whose folded path is larger is.
pub proof fn lemma_path_sort_follows_file_path(l: Listing)
    requires
        l.drivers.len() <= usize::MAX,
        l.sort_column == SortColumn::Path,
    ensures
        forall|a: int, b: int|
            #![trigger l.row(a), l.row(b)]
            0 <= a < l.rows().len() && 0 <= b < l.rows().len() && (if l.sort_order
                == SortOrder::Ascending {
                lex_lt(fold_key(l.row(a).file_path@), fold_key(l.row(b).file_path@))
            } else {
                lex_lt(fold_key(l.row(b).file_path@), fold_key(l.row(a).file_path@))
            }) ==> a < b,
{
    l.lemma_rows_exist();
    let r = l.rows();
    assert forall|a: int, b: int|
        #![trigger l.row(a), l.row(b)]
        0 <= a < l.rows().len() && 0 <= b < l.rows().len() && (if l.sort_order
            == SortOrder::Ascending {
            lex_lt(fold_key(l.row(a).file_path@), fold_key(l.row(b).file_path@))
        } else {
            lex_lt(fold_key(l.row(b).file_path@), fold_key(l.row(a).file_path@))
        }) implies a < b by {
        let ka = fold_key(l.row(a).file_path@);
        let kb = fold_key(l.row(b).file_path@);
        assert(sort_key(l.sort_column, l.drivers[r[a] as int]) == ka);
        assert(sort_key(l.sort_column, l.drivers[r[b] as int]) == kb);
        lemma_lex_trichotomy(ka, kb);
        lemma_lex_irreflexive(ka);
        if b < a {
            assert(l.precedes(r[b] as int, r[a] as int));
        }
    }
}

/// A non-empty search lists exactly the drivers whose lower-cased name or
/// lower-cased file path contains the lower-cased search text (and whose
/// vendor group is shown): no other field of a driver is searched.
pub proof fn lemma_search_on_name_or_path(l: Listing)
    requires
        l.drivers.len() <= usize::MAX,
        l.search.len() > 0,
    ensures
        forall|k: int|
            0 <= k < l.rows().len() ==> contains_seq(fold_key(#[trigger] l.row(k).name@), fold_key(l.search))
                || contains_seq(fold_key(l.row(k).file_path@), fold_key(l.search)),
        forall|i: int|
            0 <= i < l.drivers.len() && (contains_seq(
                fold_key(#[trigger] l.drivers[i].name@),
                fold_key(l.search),
            ) || contains_seq(fold_key(l.drivers[i].file_path@), fold_key(l.search))) && (if vendor_is_microsoft(
                l.drivers[i],
            ) {
                l.show_microsoft
            } else {
                l.show_non_microsoft
            }) ==> l.rows().contains(i as usize),
{
    l.lemma_rows_exist();
}

/// The company name of `d`, lower-cased, contains "microsoft".
pub open spec fn vendor_is_microsoft(d: DriverInfo) -> bool {
    d.company_name matches Some(c) && contains_seq(
        fold_key(c@),
        codes(seq!['m', 'i', 'c', 'r', 'o', 's', 'o', 'f', 't']),
    )
}

/// The table shows a driver whose lower-cased company name contains
/// "microsoft" only while Microsoft drivers are shown, and any other driver
/// only while non-Microsoft drivers are shown.
pub proof fn lemma_vendor_checkboxes(l: Listing)
    requires
        l.drivers.len() <= usize::MAX,
    ensures
        forall|k: int|
            0 <= k < l.rows().len() ==> (if vendor_is_microsoft(#[trigger] l.row(k)) {
                l.show_microsoft
            } else {
                l.show_non_microsoft
            }),
{
    l.lemma_rows_exist();
}

/// Rows whose keys (the column's key for every driver being `f`) come
/// strictly before others in the sort order are shown first.
proof fn lemma_rows_ordered_by(l: Listing, f: spec_fn(DriverInfo) -> Seq<u64>)
    requires
        l.drivers.len() <= usize::MAX,
        forall|d: DriverInfo| #[trigger] sort_key(l.sort_column, d) == f(d),
    ensures
        forall|a: int, b: int|
            #![trigger l.row(a), l.row(b)]
            0 <= a < l.rows().len() && 0 <= b < l.rows().len() && key_before(
                l.sort_order,
                f(l.row(a)),
                f(l.row(b)),
            ) ==> a < b,
{
    l.lemma_rows_exist();
    let r = l.rows();
    assert forall|a: int, b: int|
        #![trigger l.row(a), l.row(b)]
        0 <= a < l.rows().len() && 0 <= b < l.rows().len() && key_before(
            l.sort_order,
            f(l.row(a)),
            f(l.row(b)),
        ) implies a < b by {
        let ka = f(l.row(a));
        let kb = f(l.row(b));
        assert(sort_key(l.sort_column, l.drivers[r[a] as int]) == ka);
        assert(sort_key(l.sort_column, l.drivers[r[b] as int]) == kb);
        lemma_lex_trichotomy(ka, kb);
        lemma_lex_irreflexive(ka);
        if b < a {
            assert(l.precedes(r[b] as int, r[a] as int));
        }
    }
}

/// Sorted by a text column of the table (any but the address, size, load
/// count and index columns), the rows follow the text the column shows,
/// compared case-insensitively: ascending, a row whose lower-cased cell is
/// smaller comes first; descending, one whose lower-cased cell is larger.
pub proof fn lemma_text_sort_follows_shown_text(l: Listing, k: int)
    requires
        l.drivers.len() <= usize::MAX,
        k == 0 || 6 <= k < 16,
        l.sort_column == column_keys()[k],
    ensures
        forall|a: int, b: int|
            #![trigger l.row(a), l.row(b)]
            0 <= a < l.rows().len() && 0 <= b < l.rows().len() && key_before(
                l.sort_order,
                fold_key(cell_texts(l.row(a))[k]),
                fold_key(cell_texts(l.row(b))[k]),
            ) ==> a < b,
{
    let f = |d: DriverInfo| fold_key(cell_texts(d)[k]);
    assert forall|d: DriverInfo| #[trigger] sort_key(l.sort_column, d) == f(d) by {}
    lemma_rows_ordered_by(l, f);
}

/// One-element keys compare as their numbers.
proof fn lemma_lex_single(x: u64, y: u64)
    ensures
        lex_lt(seq![x], seq![y]) == (x < y),
{
    if x == y {
        lemma_lex_irreflexive(seq![x]);
    }
}

/// Sorted by the address, end address, size, load count or index column, the
/// rows follow the number: ascending, a smaller number comes first;
/// descending, a larger one.
pub proof fn lemma_number_sort_follows_value(l: Listing, value: spec_fn(DriverInfo) -> u64)
    requires
        l.drivers.len() <= usize::MAX,
        l.sort_column == SortColumn::Address ==> value == (|d: DriverInfo| d.load_address),
        l.sort_column == SortColumn::EndAddress ==> value == (|d: DriverInfo| d.end_address),
        l.sort_column == SortColumn::Size ==> value == (|d: DriverInfo| d.size),
        l.sort_column == SortColumn::LoadCount ==> value == (|d: DriverInfo| d.load_count as u64),
        l.sort_column == SortColumn::Index ==> value == (|d: DriverInfo| d.index as u64),
        l.sort_column == SortColumn::Address || l.sort_column == SortColumn::EndAddress
            || l.sort_column == SortColumn::Size || l.sort_column == SortColumn::LoadCount
            || l.sort_column == SortColumn::Index,
    ensures
        forall|a: int, b: int|
            #![trigger l.row(a), l.row(b)]
            0 <= a < l.rows().len() && 0 <= b < l.rows().len() && (if l.sort_order
                == SortOrder::Ascending {
                value(l.row(a)) < value(l.row(b))
            } else {
                value(l.row(a)) > value(l.row(b))
            }) ==> a < b,
{
    let f = |d: DriverInfo| seq![value(d)];
    assert forall|d: DriverInfo| #[trigger] sort_key(l.sort_column, d) == f(d) by {
        assert(sort_key(l.sort_column, d) =~= f(d));
    }
    lemma_rows_ordered_by(l, f);
    assert forall|a: int, b: int|
        #![trigger l.row(a), l.row(b)]
        0 <= a < l.rows().len() && 0 <= b < l.rows().len() && (if l.sort_order
            == SortOrder::Ascending {
            value(l.row(a)) < value(l.row(b))
        } else {
            value(l.row(a)) > value(l.row(b))
        }) implies a < b by {
        lemma_lex_single(value(l.row(a)), value(l.row(b)));
        lemma_lex_single(value(l.row(b)), value(l.row(a)));
        assert(key_before(l.sort_order, f(l.row(a)), f(l.row(b))));
    }
}

/// A driver's clipboard line has the table's columns in the table's order:
/// each field is the text of the same column of its table row (the addresses
/// in full sixteen digits instead of the table's split form).
pub proof fn lemma_clipboard_fields_follow_columns(d: DriverInfo)
    ensures
        line_fields(d).len() == cell_texts(d).len(),
        forall|k: int|
            0 <= k < 16 && k != 1 && k != 2 ==> #[trigger] line_fields(d)[k] == cell_texts(d)[k],
        line_fields(d)[1] == hex_padded(d.load_address as nat, 16),
        line_fields(d)[2] == hex_padded(d.end_address as nat, 16),
        line_fields(d)[11] == opt_text(d.modified_date),
        line_fields(d)[12] == opt_text(d.created_date),
{
}

/// The comparison report gives the baseline's label and driver count, then the
/// current driver count, then the number of added names, right after its
/// fixed head.
pub proof fn lemma_report_counts(
    label: Seq<char>,
    baseline_count: nat,
    current_count: nat,
    added: Seq<Seq<char>>,
    removed: Seq<Seq<char>>,
    unchanged: nat,
)
    ensures
        ({
            let head = REPORT_HEAD@ + "<p>Baseline: "@ + label + " ("@ + decimal(baseline_count)
                + " drivers)</p><p>Current: Live system ("@ + decimal(current_count)
                + " drivers)</p>"@ + "<h2 class=\"added\">Added ("@ + decimal(added.len())
                + "):</h2><ul>"@;
            head.is_prefix_of(
                report_html(label, baseline_count, current_count, added, removed, unchanged),
            )
        }),
{
    reveal_strlit(" drivers)</p><p>Current: Live system (");
    reveal_strlit(" drivers)</p>");
    reveal_strlit("<p>Current: Live system (");
    let head = REPORT_HEAD@ + "<p>Baseline: "@ + label + " ("@ + decimal(baseline_count)
        + " drivers)</p><p>Current: Live system ("@ + decimal(current_count) + " drivers)</p>"@
        + "<h2 class=\"added\">Added ("@ + decimal(added.len()) + "):</h2><ul>"@;
    let first = REPORT_HEAD@ + "<p>Baseline: "@ + label + " ("@ + decimal(baseline_count)
        + " drivers)</p>"@ + "<p>Current: Live system ("@ + decimal(current_count)
        + " drivers)</p>"@ + "<h2 class=\"added\">Added ("@ + decimal(added.len())
        + "):</h2><ul>"@;
    assert(" drivers)</p><p>Current: Live system ("@ =~= " drivers)</p>"@
        + "<p>Current: Live system ("@);
    assert(head =~= first);
    let rep = report_html(label, baseline_count, current_count, added, removed, unchanged);
    let rest = rep.skip(first.len() as int);
    assert(rep =~= first + rest);
    assert(rep.take(head.len() as int) =~= head);
}

/// The detail panel of a signed driver says "Yes" in the Signed tone, that of
/// an unsigned driver "No" in the Unsigned tone, and neither says the other.
pub proof fn lemma_signature_row(d: DriverInfo)
    ensures
        d.is_signed == Some(true) ==> detail_spec(d)[4].contains(("Signed:"@, "Yes"@, DetailTone::Signed))
            && !detail_spec(d)[4].contains(("Signed:"@, "No"@, DetailTone::Unsigned)),
        d.is_signed == Some(false) ==> detail_spec(d)[4].contains(("Signed:"@, "No"@, DetailTone::Unsigned))
            && !detail_spec(d)[4].contains(("Signed:"@, "Yes"@, DetailTone::Signed)),
        d.is_signed is None ==> forall|k: int|
            0 <= k < detail_spec(d)[4].len() ==> (#[trigger] detail_spec(d)[4][k]).2 == DetailTone::Plain,
{
    let last = detail_spec(d)[4];
    let sig = match d.is_signed {
        Some(true) => seq![("Signed:"@, "Yes"@, DetailTone::Signed)],
        Some(false) => seq![("Signed:"@, "No"@, DetailTone::Unsigned)],
        None => Seq::<(Seq<char>, Seq<char>, DetailTone)>::empty(),
    };
    let before = crate::ui::opt_row("Service Name:"@, d.service_name) + crate::ui::opt_row(
        "Service Display:"@,
        d.service_display_name,
    );
    let after = crate::ui::opt_row("Signer:"@, d.signer);
    assert(last == before + sig + after);
    assert(forall|k: int| 0 <= k < before.len() ==> (#[trigger] before[k]).2 == DetailTone::Plain);
    assert(forall|k: int| 0 <= k < after.len() ==> (#[trigger] after[k]).2 == DetailTone::Plain);
    assert forall|k: int| 0 <= k < last.len() && (#[trigger] last[k]).2 != DetailTone::Plain implies last[k] == sig[k - before.len()] && before.len() <= k < before.len() + sig.len() by {
        if k < before.len() {
            assert(last[k] == before[k]);
        } else if k >= before.len() + sig.len() {
            assert(last[k] == after[k - before.len() - sig.len()]);
        }
    }
    if sig.len() == 1 {
        assert(last[before.len() as int] == sig[0]);
    }
}

/// The clipboard text of one driver is its line; each further driver adds a
/// newline and its own line at the end, so the lines follow the list.
pub proof fn lemma_clipboard_lines(list: Seq<DriverInfo>, d: DriverInfo)
    ensures
        clipboard_text(seq![d]) == driver_line(d),
        list.len() > 0 ==> clipboard_text(list.push(d)) == clipboard_text(list) + seq!['\n']
            + driver_line(d),
{
    let one = seq![d].map_values(|x: DriverInfo| driver_line(x));
    assert(one =~= seq![driver_line(d)]);
    if list.len() > 0 {
        let lines = list.push(d).map_values(|x: DriverInfo| driver_line(x));
        assert(lines.drop_last() =~= list.map_values(|x: DriverInfo| driver_line(x)));
        assert(lines.last() == driver_line(d));
    }
}

/// The Status row of the detail panel shows the driver's status, in the
/// Running tone exactly when the status reads "Running".
pub proof fn lemma_status_row(d: DriverInfo)
    ensures
        detail_spec(d)[1].contains(
            (
                "Status:"@,
                d.status@,
                if d.status@ == "Running"@ {
                    DetailTone::Running
                } else {
                    DetailTone::Stopped
                },
            ),
        ),
        !detail_spec(d)[1].contains(
            (
                "Status:"@,
                d.status@,
                if d.status@ == "Running"@ {
                    DetailTone::Stopped
                } else {
                    DetailTone::Running
                },
            ),
        ),
{
    let sec = detail_spec(d)[1];
    let head = crate::ui::opt_row("File Type:"@, d.file_type);
    assert(sec[head.len() as int + 1] == (
        "Status:"@,
        d.status@,
        if d.status@ == "Running"@ {
            DetailTone::Running
        } else {
            DetailTone::Stopped
        },
    ));
    assert forall|k: int| 0 <= k < sec.len() && k != head.len() + 1 implies (#[trigger] sec[k]).2
        == DetailTone::Plain by {
        if k < head.len() {
            assert(sec[k] == head[k]);
        }
    }
}

} // verus!
