use vstd::prelude::*;

use crate::driver::DriverInfo;
use crate::names::NameSet;
use crate::text::{
    code_points, codes, compare_codes, lemma_codes_injective, decimal, decimal_text, lemma_lex_irreflexive,
    lemma_lex_transitive, lemma_lex_trichotomy, lex_lt, texts,
};

verus! {

/// The names of some drivers.
pub open spec fn name_set(ds: Seq<DriverInfo>) -> Set<Seq<char>> {
    Set::new(|n: Seq<char>| exists|i: int| 0 <= i < ds.len() && #[trigger] ds[i].name@ == n)
}

/// Each name comes strictly before the next in the order of `String`
/// (byte order of UTF-8, which is the order of code points).
pub open spec fn strictly_ascending(names: Seq<Seq<char>>) -> bool {
    forall|i: int, j: int|
        0 <= i < j < names.len() ==> lex_lt(codes(#[trigger] names[i]), codes(#[trigger] names[j]))
}

/// How a baseline snapshot and the current driver list differ, by name.
pub struct SnapshotComparison {
    /// Names listed now and not in the baseline, in ascending order.
    pub added: Vec<String>,
    /// Names in the baseline and not listed now, in ascending order.
    pub removed: Vec<String>,
    /// The number of names in both.
    pub unchanged: usize,
}

/// The distinct names of `ds`, ascending.
fn sorted_names(ds: &Vec<DriverInfo>) -> (r: Vec<String>)
    ensures
        strictly_ascending(texts(r@)),
        texts(r@).to_set() == name_set(ds@),
{
    let mut names: Vec<String> = Vec::new();
    let mut keys: Vec<Vec<u64>> = Vec::new();
    let mut i: usize = 0;
    while i < ds.len()
        invariant
            0 <= i <= ds@.len(),
            names@.len() == keys@.len(),
            forall|k: int| 0 <= k < keys@.len() ==> #[trigger] keys@[k]@ == codes(names@[k]@),
            strictly_ascending(texts(names@)),
            texts(names@).to_set() == name_set(ds@.take(i as int)),
        decreases ds@.len() - i,
    {
        let name = &ds[i].name;
        let key = code_points(name.as_str());
        let mut p: usize = 0;
        loop
            invariant
                0 <= p <= keys@.len(),
                names@.len() == keys@.len(),
                forall|k: int| 0 <= k < keys@.len() ==> #[trigger] keys@[k]@ == codes(names@[k]@),
                forall|k: int| 0 <= k < p ==> lex_lt(#[trigger] keys@[k]@, key@),
            ensures
                0 <= p <= keys@.len(),
                forall|k: int| 0 <= k < p ==> lex_lt(#[trigger] keys@[k]@, key@),
                p < keys@.len() ==> !lex_lt(keys@[p as int]@, key@),
            decreases keys@.len() - p,
        {
            if p == keys.len() {
                break;
            }
            if compare_codes(&keys[p], &key) >= 0 {
                break;
            }
            p = p + 1;
        }
        let ghost before = texts(names@);
        let ghost seen = name_set(ds@.take(i as int));
        proof {
            assert(name_set(ds@.take(i + 1)) =~= seen.insert(name@)) by {
                assert forall|n: Seq<char>| name_set(ds@.take(i + 1)).contains(n) <==> seen.insert(
                    n,
                ).contains(n) && (n == name@ || seen.contains(n)) by {
                    if name_set(ds@.take(i + 1)).contains(n) {
                        let j = choose|j: int| 0 <= j < i + 1 && #[trigger] ds@.take(i + 1)[j].name@ == n;
                        if j < i {
                            assert(ds@.take(i as int)[j].name@ == n);
                        }
                    }
                    if seen.contains(n) {
                        let j = choose|j: int| 0 <= j < i && #[trigger] ds@.take(i as int)[j].name@ == n;
                        assert(ds@.take(i + 1)[j].name@ == n);
                    }
                    if n == name@ {
                        assert(ds@.take(i + 1)[i as int].name@ == n);
                    }
                }
            }
        }
        let same = p < keys.len() && compare_codes(&keys[p], &key) == 0;
        if same {
            proof {
                assert(keys@[p as int]@ == key@);
                assert(codes(before[p as int]) == codes(name@));
                lemma_codes_injective(before[p as int], name@);
                assert(before.to_set().contains(name@));
                assert(seen.insert(name@) =~= seen);
            }
        } else {
            names.insert(p, name.clone());
            keys.insert(p, key);
            proof {
                let after = texts(names@);
                assert(after =~= before.insert(p as int, name@));
                if p < before.len() {
                    lemma_lex_trichotomy(codes(before[p as int]), key@);
                }
                assert forall|a: int, b: int| 0 <= a < b < after.len() implies lex_lt(
                    codes(#[trigger] after[a]),
                    codes(#[trigger] after[b]),
                ) by {
                    if b < p {
                    } else if a > p {
                        assert(after[a] == before[a - 1] && after[b] == before[b - 1]);
                    } else if b == p {
                        assert(keys@[a]@ == codes(before[a]));
                    } else if a == p {
                        if b - 1 > p {
                            lemma_lex_transitive(key@, codes(before[p as int]), codes(before[b - 1]));
                        }
                    } else {
                        assert(after[a] == before[a] && after[b] == before[b - 1]);
                    }
                }
                assert forall|n: Seq<char>| after.to_set().contains(n) <==> seen.insert(name@).contains(n) by {
                    if after.to_set().contains(n) {
                        let j = choose|j: int| 0 <= j < after.len() && after[j] == n;
                        if j < p {
                            assert(before[j] == n);
                            assert(before.to_set().contains(n));
                        } else if j > p {
                            assert(before[j - 1] == n);
                            assert(before.to_set().contains(n));
                        }
                    }
                    if seen.insert(name@).contains(n) {
                        if n == name@ {
                            assert(after[p as int] == n);
                        } else {
                            assert(before.to_set().contains(n));
                            let j = choose|j: int| 0 <= j < before.len() && before[j] == n;
                            if j < p {
                                assert(after[j] == n);
                            } else {
                                assert(after[j + 1] == n);
                            }
                        }
                    }
                }
                assert(after.to_set() =~= seen.insert(name@));
            }
        }
        i = i + 1;
    }
    proof {
        assert(ds@.take(i as int) =~= ds@);
    }
    names
}

} // verus!

verus! {

/// A strictly ascending list holds each name once.
pub proof fn lemma_ascending_distinct(names: Seq<Seq<char>>)
    requires
        strictly_ascending(names),
    ensures
        names.no_duplicates(),
        names.to_set().len() == names.len(),
{
    assert forall|i: int, j: int| 0 <= i < names.len() && 0 <= j < names.len() && i != j implies names[i]
        != names[j] by {
        if i < j {
            assert(lex_lt(codes(names[i]), codes(names[j])));
        } else {
            assert(lex_lt(codes(names[j]), codes(names[i])));
        }
        lemma_lex_irreflexive(codes(names[i]));
    }
    names.unique_seq_to_set();
}

/// The names of `list`, as a set.
fn set_of(list: &Vec<String>) -> (s: NameSet)
    ensures
        s@ == texts(list@).to_set(),
{
    let mut s = NameSet::new();
    let mut k: usize = 0;
    let ghost all = texts(list@);
    while k < list.len()
        invariant
            all == texts(list@),
            0 <= k <= list@.len(),
            s@ == all.take(k as int).to_set(),
        decreases list@.len() - k,
    {
        s.insert(list[k].clone());
        proof {
            assert(all.take(k + 1) =~= all.take(k as int).push(all[k as int]));
            all.take(k as int).lemma_push_to_set_commute(all[k as int]);
        }
        k = k + 1;
    }
    proof {
        assert(all.take(k as int) =~= all);
    }
    s
}

/// The names of the ascending `list` that `set` holds (`present`) or does
/// not hold (`!present`), still ascending.
fn keep_by(list: &Vec<String>, set: &NameSet, present: bool) -> (r: Vec<String>)
    requires
        strictly_ascending(texts(list@)),
    ensures
        strictly_ascending(texts(r@)),
        texts(r@).to_set() == (if present {
            texts(list@).to_set().intersect(set@)
        } else {
            texts(list@).to_set().difference(set@)
        }),
{
    let ghost all = texts(list@);
    let ghost keep = |n: Seq<char>| set@.contains(n) == present;
    let mut r: Vec<String> = Vec::new();
    let mut k: usize = 0;
    while k < list.len()
        invariant
            all == texts(list@),
            strictly_ascending(all),
            keep == (|n: Seq<char>| set@.contains(n) == present),
            0 <= k <= list@.len(),
            strictly_ascending(texts(r@)),
            r@.len() > 0 ==> exists|j: int| 0 <= j < k && #[trigger] all[j] == texts(r@).last(),
            texts(r@).to_set() == all.take(k as int).to_set().filter(keep),
        decreases list@.len() - k,
    {
        let ghost before = texts(r@);
        if set.contains(list[k].as_str()) == present {
            r.push(list[k].clone());
            proof {
                let after = texts(r@);
                assert(after =~= before.push(all[k as int]));
                before.lemma_push_to_set_commute(all[k as int]);
                assert forall|a: int, b: int| 0 <= a < b < after.len() implies lex_lt(
                    codes(#[trigger] after[a]),
                    codes(#[trigger] after[b]),
                ) by {
                    if b == after.len() - 1 {
                        let j = choose|j: int| 0 <= j < k && #[trigger] all[j] == before.last();
                        assert(lex_lt(codes(all[j]), codes(all[k as int])));
                        if a < before.len() - 1 {
                            lemma_lex_transitive(codes(before[a]), codes(before.last()), codes(all[k as int]));
                        }
                    }
                }
                assert(after.last() == all[k as int]);
            }
        }
        proof {
            let after = texts(r@);
            assert(all.take(k + 1) =~= all.take(k as int).push(all[k as int]));
            all.take(k as int).lemma_push_to_set_commute(all[k as int]);
            assert(after.to_set() =~= all.take(k + 1).to_set().filter(keep));
            if after.len() > 0 && after.len() == before.len() {
                let j = choose|j: int| 0 <= j < k && #[trigger] all[j] == before.last();
                assert(all[j] == after.last());
            }
        }
        k = k + 1;
    }
    proof {
        assert(all.take(k as int) =~= all);
        if present {
            assert(all.to_set().filter(keep) =~= all.to_set().intersect(set@));
        } else {
            assert(all.to_set().filter(keep) =~= all.to_set().difference(set@));
        }
    }
    r
}

/// Compares a baseline snapshot with the current driver list by name: the
/// names added and removed, each ascending, and how many are in both.
pub fn compare_snapshot(baseline: &Vec<DriverInfo>, current: &Vec<DriverInfo>) -> (r: SnapshotComparison)
    ensures
        strictly_ascending(texts(r.added@)),
        texts(r.added@).to_set() == name_set(current@).difference(name_set(baseline@)),
        strictly_ascending(texts(r.removed@)),
        texts(r.removed@).to_set() == name_set(baseline@).difference(name_set(current@)),
        r.unchanged == name_set(baseline@).intersect(name_set(current@)).len(),
{
    let base = sorted_names(baseline);
    let cur = sorted_names(current);
    let base_set = set_of(&base);
    let cur_set = set_of(&cur);
    let added = keep_by(&cur, &base_set, false);
    let removed = keep_by(&base, &cur_set, false);
    let common = keep_by(&cur, &base_set, true);
    proof {
        lemma_ascending_distinct(texts(common@));
        assert(texts(common@).len() == common@.len());
        assert(texts(common@).to_set() =~= name_set(baseline@).intersect(name_set(current@)));
    }
    SnapshotComparison { added, removed, unchanged: common.len() }
}

} // verus!

verus! {

/// The start of the comparison report: document head, style sheet and title.
pub const REPORT_HEAD: &'static str = "<!DOCTYPE html><html><head><title>Snapshot Comparison</title><style>body{font-family:sans-serif;padding:20px;background:#f5f5f5}.container{max-width:900px;margin:0 auto;background:white;padding:30px;border-radius:8px;box-shadow:0 2px 10px rgba(0,0,0,0.1)}h1{color:#333}h2{color:#555;margin-top:20px}.added{color:#28a745}.removed{color:#dc3545}.unchanged{color:#6c757d}ul{list-style:none;padding:0}li{padding:4px 8px;border-bottom:1px solid #eee}</style></head><body><div class=\"container\"><h1>Snapshot Comparison</h1>";

/// One `<li>` per name, each name after `marker`.
pub open spec fn list_items(marker: Seq<char>, names: Seq<Seq<char>>) -> Seq<char>
    decreases names.len(),
{
    if names.len() == 0 {
        Seq::empty()
    } else {
        list_items(marker, names.drop_last()) + "<li>"@ + marker + names.last() + "</li>"@
    }
}

/// The HTML report of a snapshot comparison.
pub open spec fn report_html(
    label: Seq<char>,
    baseline_count: nat,
    current_count: nat,
    added: Seq<Seq<char>>,
    removed: Seq<Seq<char>>,
    unchanged: nat,
) -> Seq<char> {
    REPORT_HEAD@ + "<p>Baseline: "@ + label + " ("@ + decimal(baseline_count) + " drivers)</p>"@
        + "<p>Current: Live system ("@ + decimal(current_count) + " drivers)</p>"@
        + "<h2 class=\"added\">Added ("@ + decimal(added.len()) + "):</h2><ul>"@ + list_items(
        "+ "@,
        added,
    ) + "</ul>"@ + "<h2 class=\"removed\">Removed ("@ + decimal(removed.len()) + "):</h2><ul>"@
        + list_items("- "@, removed) + "</ul>"@ + "<p class=\"unchanged\">Unchanged: "@ + decimal(
        unchanged,
    ) + "</p>"@ + "</div></body></html>"@
}

/// The status line after a comparison.
pub open spec fn summary_text(added: nat, removed: nat, unchanged: nat) -> Seq<char> {
    "Compared: +"@ + decimal(added) + " added, -"@ + decimal(removed) + " removed, "@ + decimal(
        unchanged,
    ) + " unchanged"@
}

fn push_items(out: &mut String, marker: &str, names: &Vec<String>)
    ensures
        final(out)@ == old(out)@ + list_items(marker@, texts(names@)),
{
    let ghost start = out@;
    let ghost all = texts(names@);
    let mut k: usize = 0;
    proof {
        assert(all.take(0) =~= Seq::<Seq<char>>::empty());
        assert(out@ =~= start + list_items(marker@, all.take(0)));
    }
    while k < names.len()
        invariant
            all == texts(names@),
            0 <= k <= names@.len(),
            out@ == start + list_items(marker@, all.take(k as int)),
        decreases names@.len() - k,
    {
        out.append("<li>");
        out.append(marker);
        out.append(names[k].as_str());
        out.append("</li>");
        proof {
            assert(all.take(k + 1).drop_last() =~= all.take(k as int));
            assert(all.take(k + 1).last() == all[k as int]);
            assert(out@ =~= start + list_items(marker@, all.take(k + 1)));
        }
        k = k + 1;
    }
    proof {
        assert(all.take(k as int) =~= all);
    }
}

/// The HTML page that shows a comparison: the baseline (`baseline_label`,
/// with its driver count), the current count, the added and removed names
/// and how many are unchanged.
pub fn comparison_report(
    baseline_label: &str,
    baseline_count: usize,
    current_count: usize,
    c: &SnapshotComparison,
) -> (r: String)
    ensures
        r@ == report_html(
            baseline_label@,
            baseline_count as nat,
            current_count as nat,
            texts(c.added@),
            texts(c.removed@),
            c.unchanged as nat,
        ),
{
    let mut html = String::new();
    html.append(REPORT_HEAD);
    html.append("<p>Baseline: ");
    html.append(baseline_label);
    html.append(" (");
    html.append(decimal_text(baseline_count as u64).as_str());
    html.append(" drivers)</p>");
    html.append("<p>Current: Live system (");
    html.append(decimal_text(current_count as u64).as_str());
    html.append(" drivers)</p>");
    html.append("<h2 class=\"added\">Added (");
    html.append(decimal_text(c.added.len() as u64).as_str());
    html.append("):</h2><ul>");
    push_items(&mut html, "+ ", &c.added);
    html.append("</ul>");
    html.append("<h2 class=\"removed\">Removed (");
    html.append(decimal_text(c.removed.len() as u64).as_str());
    html.append("):</h2><ul>");
    push_items(&mut html, "- ", &c.removed);
    html.append("</ul>");
    html.append("<p class=\"unchanged\">Unchanged: ");
    html.append(decimal_text(c.unchanged as u64).as_str());
    html.append("</p>");
    html.append("</div></body></html>");
    proof {
        assert(html@ =~= report_html(
            baseline_label@,
            baseline_count as nat,
            current_count as nat,
            texts(c.added@),
            texts(c.removed@),
            c.unchanged as nat,
        ));
    }
    html
}

/// The status line after a comparison: how many names were added, removed
/// and unchanged.
pub fn comparison_summary(c: &SnapshotComparison) -> (r: String)
    ensures
        r@ == summary_text(c.added@.len(), c.removed@.len(), c.unchanged as nat),
{
    let mut s = String::new();
    s.append("Compared: +");
    s.append(decimal_text(c.added.len() as u64).as_str());
    s.append(" added, -");
    s.append(decimal_text(c.removed.len() as u64).as_str());
    s.append(" removed, ");
    s.append(decimal_text(c.unchanged as u64).as_str());
    s.append(" unchanged");
    proof {
        assert(s@ =~= summary_text(c.added@.len(), c.removed@.len(), c.unchanged as nat));
    }
    s
}

} // verus!
