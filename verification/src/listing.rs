use vstd::prelude::*;

use crate::driver::{opt_text, text_or_empty, DriverInfo};
use crate::state::{SortColumn, SortOrder};
use crate::text::{
    codes, code_points, compare_codes, contains_codes, contains_seq, fold_key, folded_codes,
    lemma_lex_irreflexive, lemma_lex_transitive, lemma_lex_trichotomy, lex_lt,
};

verus! {

/// The code points of "microsoft", the vendor mark searched for in company names.
pub open spec fn microsoft_codes() -> Seq<u64> {
    codes(seq!['m', 'i', 'c', 'r', 'o', 's', 'o', 'f', 't'])
}

/// A driver counts as Microsoft's when its lower-cased company name
/// contains "microsoft".
pub open spec fn is_microsoft(d: DriverInfo) -> bool {
    match d.company_name {
        Some(c) => contains_seq(fold_key(c@), microsoft_codes()),
        None => false,
    }
}

/// The search text matches a driver when it is empty, or its lower-cased form
/// occurs in the lower-cased name or the lower-cased file path.
pub open spec fn matches_search(d: DriverInfo, search: Seq<char>) -> bool {
    ||| search.len() == 0
    ||| contains_seq(fold_key(d.name@), fold_key(search))
    ||| contains_seq(fold_key(d.file_path@), fold_key(search))
}

/// The key a driver is sorted by in `column`: numbers compare as numbers,
/// text compares case-insensitively (an absent field as empty text).
pub open spec fn sort_key(column: SortColumn, d: DriverInfo) -> Seq<u64> {
    match column {
        SortColumn::Name => fold_key(d.name@),
        SortColumn::Address => seq![d.load_address],
        SortColumn::EndAddress => seq![d.end_address],
        SortColumn::Size => seq![d.size],
        SortColumn::LoadCount => seq![d.load_count as u64],
        SortColumn::Index => seq![d.index as u64],
        SortColumn::Type => fold_key(opt_text(d.file_type)),
        SortColumn::Description => fold_key(opt_text(d.file_description)),
        SortColumn::Version => fold_key(opt_text(d.file_version)),
        SortColumn::Company => fold_key(opt_text(d.company_name)),
        SortColumn::ProductName => fold_key(opt_text(d.product_name)),
        SortColumn::ModifiedDate => fold_key(opt_text(d.modified_date)),
        SortColumn::CreatedDate => fold_key(opt_text(d.created_date)),
        SortColumn::Path => fold_key(d.file_path@),
        SortColumn::FileAttributes => fold_key(opt_text(d.file_attributes)),
        SortColumn::ServiceName => fold_key(opt_text(d.service_name)),
        SortColumn::Status => fold_key(d.status@),
    }
}

/// Key `ka` strictly comes before key `kb` in `order`.
pub open spec fn key_before(order: SortOrder, ka: Seq<u64>, kb: Seq<u64>) -> bool {
    match order {
        SortOrder::Ascending => lex_lt(ka, kb),
        SortOrder::Descending => lex_lt(kb, ka),
    }
}

/// The entry with key `ka` at position `ia` of the driver list comes before
/// the one with key `kb` at `ib`: by key in `order`, and equal keys keep the
/// order of the driver list (the sort is stable).
pub open spec fn ordered_before(order: SortOrder, ka: Seq<u64>, ia: int, kb: Seq<u64>, ib: int) -> bool {
    key_before(order, ka, kb) || (ka == kb && ia < ib)
}

/// `ordered_before` is a strict total order on distinct positions.
pub proof fn lemma_ordered_before_total(order: SortOrder, ka: Seq<u64>, ia: int, kb: Seq<u64>, ib: int)
    ensures
        !ordered_before(order, ka, ia, ka, ia),
        !(ordered_before(order, ka, ia, kb, ib) && ordered_before(order, kb, ib, ka, ia)),
        ia != ib ==> ordered_before(order, ka, ia, kb, ib) || ordered_before(order, kb, ib, ka, ia),
{
    lemma_lex_irreflexive(ka);
    lemma_lex_trichotomy(ka, kb);
}

/// `ordered_before` is transitive.
pub proof fn lemma_ordered_before_transitive(
    order: SortOrder,
    ka: Seq<u64>,
    ia: int,
    kb: Seq<u64>,
    ib: int,
    kc: Seq<u64>,
    ic: int,
)
    requires
        ordered_before(order, ka, ia, kb, ib),
        ordered_before(order, kb, ib, kc, ic),
    ensures
        ordered_before(order, ka, ia, kc, ic),
{
    match order {
        SortOrder::Ascending => {
            if lex_lt(ka, kb) && lex_lt(kb, kc) {
                lemma_lex_transitive(ka, kb, kc);
            }
        },
        SortOrder::Descending => {
            if lex_lt(kb, ka) && lex_lt(kc, kb) {
                lemma_lex_transitive(kc, kb, ka);
            }
        },
    }
}

/// Two sequences that hold the same positions, each strictly increasing in a
/// strict order, are equal.
pub proof fn lemma_sorted_unique(a: Seq<usize>, b: Seq<usize>, lt: spec_fn(int, int) -> bool)
    requires
        forall|x: int, y: int| #[trigger] lt(x, y) ==> !lt(y, x),
        forall|i: int, j: int| 0 <= i < j < a.len() ==> lt(a[i] as int, a[j] as int),
        forall|i: int, j: int| 0 <= i < j < b.len() ==> lt(b[i] as int, b[j] as int),
        forall|x: usize| a.contains(x) <==> b.contains(x),
    ensures
        a == b,
    decreases a.len(),
{
    if a.len() == 0 {
        if b.len() > 0 {
            assert(b.contains(b[0]));
        }
        assert(a =~= b);
    } else {
        assert(a.contains(a[0]));
        let k = choose|k: int| 0 <= k < b.len() && b[k] == a[0];
        if k > 0 {
            assert(b.contains(b[0]));
            let m = choose|m: int| 0 <= m < a.len() && a[m] == b[0];
            assert(lt(b[0] as int, b[k] as int));
            if m == 0 {
                assert(lt(b[0] as int, b[0] as int));
            } else {
                assert(lt(a[0] as int, a[m] as int));
            }
        }
        assert(b[0] == a[0]);
        let a1 = a.drop_first();
        let b1 = b.drop_first();
        assert forall|x: usize| a1.contains(x) <==> b1.contains(x) by {
            if a1.contains(x) {
                let i = choose|i: int| 0 <= i < a1.len() && a1[i] == x;
                assert(a.contains(x));
                let j = choose|j: int| 0 <= j < b.len() && b[j] == x;
                if j == 0 {
                    assert(lt(a[0] as int, a[i + 1] as int));
                    assert(lt(a[0] as int, a[0] as int));
                }
                assert(b1[j - 1] == x);
            }
            if b1.contains(x) {
                let i = choose|i: int| 0 <= i < b1.len() && b1[i] == x;
                assert(b.contains(x));
                let j = choose|j: int| 0 <= j < a.len() && a[j] == x;
                if j == 0 {
                    assert(lt(b[0] as int, b[i + 1] as int));
                    assert(lt(b[0] as int, b[0] as int));
                }
                assert(a1[j - 1] == x);
            }
        }
        lemma_sorted_unique(a1, b1, lt);
        assert(a =~= seq![a[0]] + a1);
        assert(b =~= seq![b[0]] + b1);
    }
}


/// What decides the rows of the driver table: the drivers, the search text,
/// the vendor checkboxes and the sort.
pub struct Listing {
    pub drivers: Seq<DriverInfo>,
    pub search: Seq<char>,
    pub show_microsoft: bool,
    pub show_non_microsoft: bool,
    pub sort_column: SortColumn,
    pub sort_order: SortOrder,
}

impl Listing {
    /// The driver passes the search text and the vendor checkboxes.
    pub open spec fn listed(&self, d: DriverInfo) -> bool {
        &&& matches_search(d, self.search)
        &&& if is_microsoft(d) {
            self.show_microsoft
        } else {
            self.show_non_microsoft
        }
    }

    /// Driver `i` is shown before driver `j` under the current sort.
    pub open spec fn precedes(&self, i: int, j: int) -> bool {
        ordered_before(
            self.sort_order,
            sort_key(self.sort_column, self.drivers[i]),
            i,
            sort_key(self.sort_column, self.drivers[j]),
            j,
        )
    }

    /// `r` lists, by position in `drivers`, exactly the drivers that pass the
    /// filters, in sort order (equal keys in the order of `drivers`).
    pub open spec fn is_rows(&self, r: Seq<usize>) -> bool {
        &&& forall|k: int|
            0 <= k < r.len() ==> (#[trigger] r[k] as int) < self.drivers.len() && self.listed(
                self.drivers[r[k] as int],
            )
        &&& forall|i: int|
            0 <= i < self.drivers.len() && self.listed(#[trigger] self.drivers[i]) ==> r.contains(
                i as usize,
            )
        &&& forall|a: int, b: int|
            0 <= a < b < r.len() ==> self.precedes(#[trigger] r[a] as int, #[trigger] r[b] as int)
    }

    /// The rows of the driver table, as positions in `drivers`.
    pub open spec fn rows(&self) -> Seq<usize> {
        choose|r: Seq<usize>| self.is_rows(r)
    }

    /// The driver shown in row `k` of the table.
    pub open spec fn row(&self, k: int) -> DriverInfo {
        self.drivers[self.rows()[k] as int]
    }

    /// The names shown in rows `lo` up to (not including) `hi`.
    pub open spec fn names_between(&self, lo: int, hi: int) -> Set<Seq<char>> {
        Set::new(
            |n: Seq<char>|
                exists|k: int| lo <= k < hi && 0 <= k < self.rows().len() && #[trigger] self.row(k).name@ == n,
        )
    }

    /// The names shown in the table.
    pub open spec fn row_names(&self) -> Set<Seq<char>> {
        self.names_between(0, self.rows().len() as int)
    }

    /// There is one table order: any sequence meeting `is_rows` is it.
    pub proof fn lemma_rows_unique(&self, r: Seq<usize>)
        requires
            self.is_rows(r),
        ensures
            self.rows() == r,
    {
        let c = self.rows();
        assert(self.is_rows(c));
        let lt = |x: int, y: int| self.precedes(x, y);
        assert forall|x: int, y: int| #[trigger] lt(x, y) implies !lt(y, x) by {
            lemma_ordered_before_total(
                self.sort_order,
                sort_key(self.sort_column, self.drivers[x]),
                x,
                sort_key(self.sort_column, self.drivers[y]),
                y,
            );
        }
        assert forall|x: usize| c.contains(x) <==> r.contains(x) by {
            if c.contains(x) {
                let k = choose|k: int| 0 <= k < c.len() && c[k] == x;
                assert(self.listed(self.drivers[c[k] as int]));
            }
            if r.contains(x) {
                let k = choose|k: int| 0 <= k < r.len() && r[k] == x;
                assert(self.listed(self.drivers[r[k] as int]));
            }
        }
        lemma_sorted_unique(c, r, lt);
    }

    pub proof fn lemma_insert_keeps_order(&self, order: Seq<usize>, keys: Seq<Seq<u64>>, q: int, i: usize)
        requires
            order.len() == keys.len(),
            0 <= q <= order.len(),
            (i as int) < self.drivers.len(),
            forall|k: int|
                0 <= k < order.len() ==> (#[trigger] order[k] as int) < i && keys[k] == sort_key(
                    self.sort_column,
                    self.drivers[order[k] as int],
                ),
            forall|a: int, b: int|
                0 <= a < b < order.len() ==> self.precedes(
                    #[trigger] order[a] as int,
                    #[trigger] order[b] as int,
                ),
            forall|p: int|
                0 <= p < q ==> !key_before(
                    self.sort_order,
                    sort_key(self.sort_column, self.drivers[i as int]),
                    #[trigger] keys[p],
                ),
            q < order.len() ==> key_before(
                self.sort_order,
                sort_key(self.sort_column, self.drivers[i as int]),
                keys[q],
            ),
        ensures
            forall|a: int, b: int|
                0 <= a < b < order.insert(q, i).len() ==> self.precedes(
                    #[trigger] order.insert(q, i)[a] as int,
                    #[trigger] order.insert(q, i)[b] as int,
                ),
    {
        let o2 = order.insert(q, i);
        let ki = sort_key(self.sort_column, self.drivers[i as int]);
        assert forall|a: int, b: int| 0 <= a < b < o2.len() implies self.precedes(
            #[trigger] o2[a] as int,
            #[trigger] o2[b] as int,
        ) by {
            if b < q {
                assert(o2[a] == order[a] && o2[b] == order[b]);
            } else if a > q {
                assert(o2[a] == order[a - 1] && o2[b] == order[b - 1]);
                assert(self.precedes(order[a - 1] as int, order[b - 1] as int));
            } else if b == q {
                assert(o2[a] == order[a] && o2[b] == i);
                let ka = keys[a];
                lemma_lex_trichotomy(ka, ki);
                assert(!key_before(self.sort_order, ki, keys[a]));
                assert(order[a] < i);
            } else if a == q {
                assert(o2[a] == i && o2[b] == order[b - 1]);
                let kq = keys[q];
                let kb = keys[b - 1];
                if b - 1 > q {
                    assert(self.precedes(order[q] as int, order[b - 1] as int));
                }
                if kq != kb {
                    lemma_ordered_before_transitive(
                        self.sort_order,
                        ki,
                        i as int,
                        kq,
                        order[q] as int,
                        kb,
                        order[b - 1] as int,
                    );
                }
            } else {
                assert(a < q && q < b);
                assert(o2[a] == order[a] && o2[b] == order[b - 1]);
                assert(self.precedes(order[a] as int, order[b - 1] as int));
            }
        }
    }

}

impl Listing {
    /// The sort key of driver `i`.
    pub open spec fn key(&self, i: int) -> Seq<u64> {
        sort_key(self.sort_column, self.drivers[i])
    }

    /// `r` is the table order of the drivers at positions below `n`.
    pub open spec fn is_rows_below(&self, r: Seq<usize>, n: int) -> bool {
        &&& forall|k: int|
            0 <= k < r.len() ==> (#[trigger] r[k] as int) < n && self.listed(self.drivers[r[k] as int])
        &&& forall|i: int| 0 <= i < n && self.listed(#[trigger] self.drivers[i]) ==> r.contains(i as usize)
        &&& forall|a: int, b: int|
            0 <= a < b < r.len() ==> self.precedes(#[trigger] r[a] as int, #[trigger] r[b] as int)
    }

    /// The first position from `q` on where driver `i` goes before the entry
    /// already there (or the end).
    pub open spec fn slot(&self, r: Seq<usize>, i: int, q: int) -> int
        decreases r.len() - q,
    {
        if q >= r.len() || q < 0 || key_before(self.sort_order, self.key(i), self.key(r[q] as int)) {
            q
        } else {
            self.slot(r, i, q + 1)
        }
    }

    /// The table order of the drivers below `n`, built by inserting one driver
    /// after another.
    pub open spec fn rows_below(&self, n: nat) -> Seq<usize>
        decreases n,
    {
        if n == 0 {
            Seq::empty()
        } else {
            let r = self.rows_below((n - 1) as nat);
            if self.listed(self.drivers[n - 1]) {
                r.insert(self.slot(r, n - 1, 0), (n - 1) as usize)
            } else {
                r
            }
        }
    }

    proof fn lemma_slot(&self, r: Seq<usize>, i: int, q: int)
        requires
            0 <= q <= r.len(),
            forall|p: int| 0 <= p < q ==> !key_before(self.sort_order, self.key(i), self.key(#[trigger] r[p] as int)),
        ensures
            q <= self.slot(r, i, q) <= r.len(),
            forall|p: int|
                0 <= p < self.slot(r, i, q) ==> !key_before(
                    self.sort_order,
                    self.key(i),
                    self.key(#[trigger] r[p] as int),
                ),
            self.slot(r, i, q) < r.len() ==> key_before(
                self.sort_order,
                self.key(i),
                self.key(r[self.slot(r, i, q)] as int),
            ),
        decreases r.len() - q,
    {
        if q < r.len() && !key_before(self.sort_order, self.key(i), self.key(r[q] as int)) {
            self.lemma_slot(r, i, q + 1);
        }
    }

    proof fn lemma_rows_below(&self, n: nat)
        requires
            n <= self.drivers.len(),
            self.drivers.len() <= usize::MAX,
        ensures
            self.is_rows_below(self.rows_below(n), n as int),
        decreases n,
    {
        if n > 0 {
            let r = self.rows_below((n - 1) as nat);
            self.lemma_rows_below((n - 1) as nat);
            let i = (n - 1) as usize;
            if self.listed(self.drivers[n - 1]) {
                self.lemma_slot(r, n - 1, 0);
                let q = self.slot(r, n - 1, 0);
                let keys = r.map_values(|x: usize| self.key(x as int));
                assert forall|p: int| 0 <= p < q implies !key_before(
                    self.sort_order,
                    sort_key(self.sort_column, self.drivers[i as int]),
                    #[trigger] keys[p],
                ) by {
                    assert(keys[p] == self.key(r[p] as int));
                }
                if q < r.len() {
                    assert(keys[q] == self.key(r[q] as int));
                }
                self.lemma_insert_keeps_order(r, keys, q, i);
                let r2 = r.insert(q, i);
                assert forall|k: int| 0 <= k < r2.len() implies (#[trigger] r2[k] as int) < n
                    && self.listed(self.drivers[r2[k] as int]) by {
                    if k < q {
                        assert(r2[k] == r[k]);
                    } else if k > q {
                        assert(r2[k] == r[k - 1]);
                    }
                }
                assert forall|j: int| 0 <= j < n && self.listed(#[trigger] self.drivers[j]) implies r2.contains(
                    j as usize,
                ) by {
                    if j < n - 1 {
                        let p = choose|p: int| 0 <= p < r.len() && r[p] == j as usize;
                        if p < q {
                            assert(r2[p] == j as usize);
                        } else {
                            assert(r2[p + 1] == j as usize);
                        }
                    } else {
                        assert(r2[q] == i);
                    }
                }
            } else {
                assert forall|j: int| 0 <= j < n && self.listed(#[trigger] self.drivers[j]) implies r.contains(
                    j as usize,
                ) by {
                    if j == n - 1 {
                    }
                }
            }
        }
    }

    /// The table order exists (and so `rows` is it), for any list a `Vec` can
    /// hold.
    pub proof fn lemma_rows_exist(&self)
        requires
            self.drivers.len() <= usize::MAX,
        ensures
            self.is_rows(self.rows()),
    {
        self.lemma_rows_below(self.drivers.len());
        let r = self.rows_below(self.drivers.len());
        assert(self.is_rows(r));
    }
}

/// Computes `sort_key(column, *d)`.
pub fn key_of(column: SortColumn, d: &DriverInfo) -> (k: Vec<u64>)
    ensures
        k@ == sort_key(column, *d),
{
    match column {
        SortColumn::Name => folded_codes(d.name.as_str()),
        SortColumn::Address => vec![d.load_address],
        SortColumn::EndAddress => vec![d.end_address],
        SortColumn::Size => vec![d.size],
        SortColumn::LoadCount => vec![d.load_count as u64],
        SortColumn::Index => vec![d.index as u64],
        SortColumn::Type => folded_codes(text_or_empty(&d.file_type)),
        SortColumn::Description => folded_codes(text_or_empty(&d.file_description)),
        SortColumn::Version => folded_codes(text_or_empty(&d.file_version)),
        SortColumn::Company => folded_codes(text_or_empty(&d.company_name)),
        SortColumn::ProductName => folded_codes(text_or_empty(&d.product_name)),
        SortColumn::ModifiedDate => folded_codes(text_or_empty(&d.modified_date)),
        SortColumn::CreatedDate => folded_codes(text_or_empty(&d.created_date)),
        SortColumn::Path => folded_codes(d.file_path.as_str()),
        SortColumn::FileAttributes => folded_codes(text_or_empty(&d.file_attributes)),
        SortColumn::ServiceName => folded_codes(text_or_empty(&d.service_name)),
        SortColumn::Status => folded_codes(d.status.as_str()),
    }
}

/// Whether key `ka` strictly comes before key `kb` in `order`.
pub fn key_comes_before(order: SortOrder, ka: &Vec<u64>, kb: &Vec<u64>) -> (r: bool)
    ensures
        r == key_before(order, ka@, kb@),
{
    let c = compare_codes(ka, kb);
    match order {
        SortOrder::Ascending => c < 0,
        SortOrder::Descending => c > 0,
    }
}

/// The code points of "microsoft".
pub fn microsoft_mark() -> (r: Vec<u64>)
    ensures
        r@ == microsoft_codes(),
{
    proof {
        reveal_strlit("microsoft");
    }
    let r = code_points("microsoft");
    assert(r@ =~= microsoft_codes());
    r
}

/// Computes `is_microsoft(*d)`; `mark` holds the code points of "microsoft".
pub fn driver_is_microsoft(d: &DriverInfo, mark: &Vec<u64>) -> (r: bool)
    requires
        mark@ == microsoft_codes(),
    ensures
        r == is_microsoft(*d),
{
    match &d.company_name {
        Some(c) => {
            let folded = folded_codes(c.as_str());
            contains_codes(&folded, mark)
        },
        None => false,
    }
}

/// Computes `matches_search(*d, search)`, given whether the search text is
/// empty and its folded code points.
pub(crate) fn driver_matches_search(
    d: &DriverInfo,
    search_empty: bool,
    folded_search: &Vec<u64>,
    Ghost(search): Ghost<Seq<char>>,
) -> (r: bool)
    requires
        search_empty == (search.len() == 0),
        folded_search@ == fold_key(search),
    ensures
        r == matches_search(*d, search),
{
    if search_empty {
        return true;
    }
    let name = folded_codes(d.name.as_str());
    if contains_codes(&name, folded_search) {
        return true;
    }
    let path = folded_codes(d.file_path.as_str());
    contains_codes(&path, folded_search)
}

} // verus!
