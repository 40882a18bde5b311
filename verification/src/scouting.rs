//! Rows built from the free-form scouting report: entries sorted by category,
//! their contents written one after the other.

use vstd::prelude::*;
use vstd::string::*;

use crate::text::{
    comma_count, concat_all, lemma_comma_count_add, lemma_concat_all_take, lemma_no_comma_left,
    lemma_separator_commas, law_without_commas, lemma_text_lt_asymmetric, lemma_text_lt_irreflexive,
    lemma_text_lt_total, lemma_text_lt_transitive, remove_commas, text_less, text_lt,
    without_commas,
};

verus! {

broadcast use vstd::seq_lib::group_seq_properties, vstd::multiset::group_multiset_axioms;

/// One answer of a scouting report: the key it was sent under, the category by
/// which answers are ordered, and the content as JSON text.
pub struct ScoutEntry {
    pub key: String,
    pub category: String,
    pub content: String,
}

/// A scouting report, its answers in the order in which they were read.
pub struct Data {
    pub data: Vec<ScoutEntry>,
}

/// Puts `x` into `sorted` behind every entry whose category is not after its own.
pub open spec fn insert_by_category(sorted: Seq<ScoutEntry>, x: ScoutEntry) -> Seq<ScoutEntry>
    decreases sorted.len(),
{
    if sorted.len() == 0 {
        seq![x]
    } else if text_lt(x.category@, sorted.last().category@) {
        insert_by_category(sorted.drop_last(), x).push(sorted.last())
    } else {
        sorted.push(x)
    }
}

/// The entries ordered by category; entries of one category keep their order.
pub open spec fn sorted_by_category(entries: Seq<ScoutEntry>) -> Seq<ScoutEntry>
    decreases entries.len(),
{
    if entries.len() == 0 {
        entries
    } else {
        insert_by_category(sorted_by_category(entries.drop_last()), entries.last())
    }
}

/// No entry has a category that comes before that of an entry in front of it.
pub open spec fn is_sorted_by_category(s: Seq<ScoutEntry>) -> bool {
    forall|i: int, j: int| 0 <= i < j < s.len() ==> !text_lt(s[j].category@, s[i].category@)
}

/// Holds of the entries of category `c`.
pub open spec fn in_category(c: Seq<char>) -> spec_fn(ScoutEntry) -> bool {
    |e: ScoutEntry| e.category@ == c
}

/// The cell that an entry adds to the row: its content without commas, then ", ".
pub open spec fn entry_cell(e: ScoutEntry) -> Seq<char> {
    without_commas(e.content@) + ", "@
}

/// The CSV row of a scouting report.
pub open spec fn scouting_row(entries: Seq<ScoutEntry>) -> Seq<char> {
    concat_all(sorted_by_category(entries).map_values(|e: ScoutEntry| entry_cell(e)))
}

proof fn lemma_insert_contents(s: Seq<ScoutEntry>, x: ScoutEntry)
    ensures
        insert_by_category(s, x).len() == s.len() + 1,
        insert_by_category(s, x).to_multiset() =~= s.to_multiset().insert(x),
        forall|e: ScoutEntry| #[trigger]
            insert_by_category(s, x).contains(e) <==> (s.contains(e) || e == x),
    decreases s.len(),
{
    let r = insert_by_category(s, x);
    if s.len() == 0 {
        assert(r =~= s.push(x));
    } else if text_lt(x.category@, s.last().category@) {
        let d = s.drop_last();
        lemma_insert_contents(d, x);
        assert(s =~= d.push(s.last()));
        assert forall|e: ScoutEntry| #[trigger] r.contains(e) <==> (s.contains(e) || e == x) by {
            if r.contains(e) {
                let k = choose|k: int| 0 <= k < r.len() && r[k] == e;
                if k < r.len() - 1 {
                    assert(insert_by_category(d, x).contains(e));
                    if e != x {
                        let m = choose|m: int| 0 <= m < d.len() && d[m] == e;
                        assert(s[m] == e);
                    }
                }
            }
            if s.contains(e) && e != x {
                let m = choose|m: int| 0 <= m < s.len() && s[m] == e;
                if m < s.len() - 1 {
                    assert(d[m] == e);
                    assert(insert_by_category(d, x).contains(e));
                    let k = choose|k: int|
                        0 <= k < insert_by_category(d, x).len() && insert_by_category(d, x)[k]
                            == e;
                    assert(r[k] == e);
                } else {
                    assert(r[r.len() - 1] == e);
                }
            }
            if e == x {
                assert(insert_by_category(d, x).contains(x));
                let k = choose|k: int|
                    0 <= k < insert_by_category(d, x).len() && insert_by_category(d, x)[k] == x;
                assert(r[k] == x);
            }
        }
    } else {
        assert forall|e: ScoutEntry| #[trigger] r.contains(e) <==> (s.contains(e) || e == x) by {
            if r.contains(e) {
                let k = choose|k: int| 0 <= k < r.len() && r[k] == e;
                if k < s.len() {
                    assert(s[k] == e);
                }
            }
            if s.contains(e) {
                let m = choose|m: int| 0 <= m < s.len() && s[m] == e;
                assert(r[m] == e);
            }
            if e == x {
                assert(r[r.len() - 1] == x);
            }
        }
    }
}

proof fn lemma_insert_sorted(s: Seq<ScoutEntry>, x: ScoutEntry)
    requires
        is_sorted_by_category(s),
    ensures
        is_sorted_by_category(insert_by_category(s, x)),
    decreases s.len(),
{
    let r = insert_by_category(s, x);
    if s.len() == 0 {
    } else if text_lt(x.category@, s.last().category@) {
        let d = s.drop_last();
        let last = s.last();
        lemma_insert_sorted(d, x);
        lemma_insert_contents(d, x);
        let r0 = insert_by_category(d, x);
        assert forall|i: int, j: int| 0 <= i < j < r.len() implies !text_lt(
            r[j].category@,
            r[i].category@,
        ) by {
            if j == r.len() - 1 {
                assert(r0.contains(r[i]));
                if r[i] == x {
                    lemma_text_lt_asymmetric(x.category@, last.category@, 0);
                } else {
                    let m = choose|m: int| 0 <= m < d.len() && d[m] == r[i];
                    assert(s[m] == r[i]);
                    assert(s[s.len() - 1] == last);
                }
            } else {
                assert(r[i] == r0[i] && r[j] == r0[j]);
            }
        }
    } else {
        let last = s.last();
        assert forall|i: int, j: int| 0 <= i < j < r.len() implies !text_lt(
            r[j].category@,
            r[i].category@,
        ) by {
            if j == r.len() - 1 && i < s.len() - 1 {
                assert(!text_lt(last.category@, s[i].category@));
                lemma_text_lt_total(x.category@, last.category@, 0);
                lemma_text_lt_transitive(last.category@, x.category@, s[i].category@, 0);
            }
        }
    }
}

proof fn lemma_insert_filter(s: Seq<ScoutEntry>, x: ScoutEntry, c: Seq<char>)
    ensures
        insert_by_category(s, x).filter(in_category(c)) == if x.category@ == c {
            s.filter(in_category(c)).push(x)
        } else {
            s.filter(in_category(c))
        },
    decreases s.len(),
{
    let p = in_category(c);
    if s.len() == 0 {
        Seq::<ScoutEntry>::empty().lemma_filter_push(x, p);
        assert(seq![x] =~= Seq::<ScoutEntry>::empty().push(x));
        assert(s =~= Seq::<ScoutEntry>::empty());
    } else if text_lt(x.category@, s.last().category@) {
        let d = s.drop_last();
        let last = s.last();
        lemma_insert_filter(d, x, c);
        insert_by_category(d, x).lemma_filter_push(last, p);
        d.lemma_filter_push(last, p);
        assert(s =~= d.push(last));
        if x.category@ == c && last.category@ == c {
            lemma_text_lt_irreflexive(c, 0);
        }
    } else {
        s.lemma_filter_push(x, p);
    }
}

/// The entries come out ordered by category.
pub proof fn law_sorted_by_category(entries: Seq<ScoutEntry>)
    ensures
        is_sorted_by_category(sorted_by_category(entries)),
    decreases entries.len(),
{
    if entries.len() > 0 {
        law_sorted_by_category(entries.drop_last());
        lemma_insert_sorted(sorted_by_category(entries.drop_last()), entries.last());
    }
}

/// Sorting keeps every entry, as often as it occurs, and adds none.
pub proof fn law_sort_is_permutation(entries: Seq<ScoutEntry>)
    ensures
        sorted_by_category(entries).to_multiset() == entries.to_multiset(),
        sorted_by_category(entries).len() == entries.len(),
    decreases entries.len(),
{
    if entries.len() > 0 {
        let d = entries.drop_last();
        law_sort_is_permutation(d);
        lemma_insert_contents(sorted_by_category(d), entries.last());
        assert(entries =~= d.push(entries.last()));
    }
}

/// Entries of one category keep the order in which they came: the sort is stable.
pub proof fn law_sort_is_stable(entries: Seq<ScoutEntry>, c: Seq<char>)
    ensures
        sorted_by_category(entries).filter(in_category(c)) == entries.filter(in_category(c)),
    decreases entries.len(),
{
    if entries.len() > 0 {
        let d = entries.drop_last();
        law_sort_is_stable(d, c);
        lemma_insert_filter(sorted_by_category(d), entries.last(), c);
        d.lemma_filter_push(entries.last(), in_category(c));
        assert(entries =~= d.push(entries.last()));
    }
}

proof fn lemma_cell_commas(e: ScoutEntry)
    ensures
        comma_count(entry_cell(e)) == 1,
{
    lemma_separator_commas();
    lemma_no_comma_left(e.content@);
    lemma_comma_count_add(without_commas(e.content@), ", "@);
}

proof fn lemma_row_commas(cells: Seq<Seq<char>>)
    requires
        forall|i: int| 0 <= i < cells.len() ==> comma_count(#[trigger] cells[i]) == 1,
    ensures
        comma_count(concat_all(cells)) == cells.len(),
    decreases cells.len(),
{
    if cells.len() == 0 {
        reveal(Seq::filter);
    } else {
        let d = cells.drop_last();
        lemma_row_commas(d);
        assert(comma_count(cells[cells.len() - 1]) == 1);
        lemma_comma_count_add(concat_all(d), cells.last());
    }
}

/// The row holds exactly one comma per answer: one CSV cell for each.
pub proof fn law_one_comma_per_entry(entries: Seq<ScoutEntry>)
    ensures
        comma_count(scouting_row(entries)) == entries.len(),
{
    let sorted = sorted_by_category(entries);
    law_sort_is_permutation(entries);
    let cells = sorted.map_values(|e: ScoutEntry| entry_cell(e));
    assert forall|i: int| 0 <= i < cells.len() implies comma_count(#[trigger] cells[i]) == 1 by {
        lemma_cell_commas(sorted[i]);
    }
    lemma_row_commas(cells);
}

/// Any two entries of `s` with one category are the same entry.
pub open spec fn categories_identify_entries(s: Seq<ScoutEntry>) -> bool {
    forall|x: ScoutEntry, y: ScoutEntry|
        s.contains(x) && s.contains(y) && x.category@ == y.category@ ==> x == y
}

/// No two answers of a report share a category.
pub open spec fn has_distinct_categories(entries: Seq<ScoutEntry>) -> bool {
    forall|i: int, j: int|
        0 <= i < j < entries.len() ==> entries[i].category@ != entries[j].category@
}

proof fn lemma_sorted_unique(s1: Seq<ScoutEntry>, s2: Seq<ScoutEntry>)
    requires
        is_sorted_by_category(s1),
        is_sorted_by_category(s2),
        s1.to_multiset() == s2.to_multiset(),
        categories_identify_entries(s1),
    ensures
        s1 == s2,
    decreases s1.len(),
{
    s1.to_multiset_ensures();
    s2.to_multiset_ensures();
    if s1.len() == 0 {
        assert(s2.len() == 0);
        assert(s1 =~= s2);
    } else {
        let n = s1.len();
        let a = s1.last();
        let b = s2.last();
        assert(s2[s2.len() - 1] == b);
        assert(s1[n - 1] == a);
        assert(s2.contains(b));
        assert(s1.to_multiset().count(b) > 0);
        assert(s1.contains(b));
        assert(s1.contains(a));
        assert(s2.to_multiset().count(a) > 0);
        assert(s2.contains(a));
        if a != b {
            assert(a.category@ != b.category@);
            let k = choose|k: int| 0 <= k < s1.len() && s1[k] == b;
            let m = choose|m: int| 0 <= m < s2.len() && s2[m] == a;
            assert(k < n - 1);
            assert(m < s2.len() - 1);
            assert(!text_lt(a.category@, b.category@));
            assert(!text_lt(b.category@, a.category@));
            lemma_text_lt_total(a.category@, b.category@, 0);
        }
        let d1 = s1.drop_last();
        let d2 = s2.drop_last();
        assert(s1 =~= d1.push(a));
        assert(s2 =~= d2.push(a));
        d1.to_multiset_ensures();
        d2.to_multiset_ensures();
        assert(s1.to_multiset() =~= d1.to_multiset().insert(a));
        assert(s2.to_multiset() =~= d2.to_multiset().insert(a));
        assert forall|x: ScoutEntry| d1.to_multiset().count(x) == d2.to_multiset().count(x) by {
            vstd::multiset::lemma_insert_increases_count_by_1(d1.to_multiset(), a);
            vstd::multiset::lemma_insert_increases_count_by_1(d2.to_multiset(), a);
            vstd::multiset::lemma_insert_other_elements_unchanged(d1.to_multiset(), a, x);
            vstd::multiset::lemma_insert_other_elements_unchanged(d2.to_multiset(), a, x);
            assert(s1.to_multiset().count(x) == s2.to_multiset().count(x));
        }
        assert(d1.to_multiset() =~= d2.to_multiset());
        assert forall|x: ScoutEntry| d1.contains(x) implies s1.contains(x) by {
            let k = choose|k: int| 0 <= k < d1.len() && d1[k] == x;
            assert(s1[k] == x);
        }
        lemma_sorted_unique(d1, d2);
    }
}

/// When no two answers share a category, the row does not depend on the order in
/// which the answers came: any reordering of them gives the same row.
pub proof fn law_row_ignores_answer_order(e1: Seq<ScoutEntry>, e2: Seq<ScoutEntry>)
    requires
        e1.to_multiset() == e2.to_multiset(),
        has_distinct_categories(e1),
    ensures
        sorted_by_category(e1) == sorted_by_category(e2),
        scouting_row(e1) == scouting_row(e2),
{
    let s1 = sorted_by_category(e1);
    let s2 = sorted_by_category(e2);
    law_sorted_by_category(e1);
    law_sorted_by_category(e2);
    law_sort_is_permutation(e1);
    law_sort_is_permutation(e2);
    e1.to_multiset_ensures();
    s1.to_multiset_ensures();
    assert forall|x: ScoutEntry, y: ScoutEntry|
        s1.contains(x) && s1.contains(y) && x.category@ == y.category@ implies x == y by {
        assert(s1.to_multiset().count(x) > 0 && s1.to_multiset().count(y) > 0);
        assert(e1.contains(x) && e1.contains(y));
        let i = choose|i: int| 0 <= i < e1.len() && e1[i] == x;
        let j = choose|j: int| 0 <= j < e1.len() && e1[j] == y;
        if i < j {
            assert(e1[i].category@ != e1[j].category@);
        } else if j < i {
            assert(e1[j].category@ != e1[i].category@);
        }
    }
    lemma_sorted_unique(s1, s2);
}

/// The length that the answers take in a row: each content less its commas, plus
/// two for the ", " after it.
pub open spec fn answers_length(s: Seq<ScoutEntry>) -> int
    decreases s.len(),
{
    if s.len() == 0 {
        0
    } else {
        answers_length(s.drop_last()) + s.last().content@.len() - comma_count(s.last().content@)
            + 2
    }
}

proof fn lemma_insert_answers_length(s: Seq<ScoutEntry>, x: ScoutEntry)
    ensures
        answers_length(insert_by_category(s, x)) == answers_length(s) + x.content@.len()
            - comma_count(x.content@) + 2,
    decreases s.len(),
{
    if s.len() > 0 && text_lt(x.category@, s.last().category@) {
        lemma_insert_answers_length(s.drop_last(), x);
        assert(insert_by_category(s.drop_last(), x).push(s.last()).drop_last()
            =~= insert_by_category(s.drop_last(), x));
    } else if s.len() == 0 {
        assert(seq![x].drop_last() =~= Seq::<ScoutEntry>::empty());
    } else {
        assert(s.push(x).drop_last() =~= s);
    }
}

proof fn lemma_sorted_answers_length(entries: Seq<ScoutEntry>)
    ensures
        answers_length(sorted_by_category(entries)) == answers_length(entries),
    decreases entries.len(),
{
    if entries.len() > 0 {
        lemma_sorted_answers_length(entries.drop_last());
        lemma_insert_answers_length(sorted_by_category(entries.drop_last()), entries.last());
    }
}

proof fn lemma_cells_length(s: Seq<ScoutEntry>)
    ensures
        concat_all(s.map_values(|e: ScoutEntry| without_commas(e.content@) + ", "@)).len()
            == answers_length(s),
    decreases s.len(),
{
    if s.len() > 0 {
        let d = s.drop_last();
        lemma_cells_length(d);
        assert(s.map_values(|e: ScoutEntry| without_commas(e.content@) + ", "@).drop_last()
            =~= d.map_values(|e: ScoutEntry| without_commas(e.content@) + ", "@));
        law_without_commas(s.last().content@);
        reveal_strlit(", ");
    }
}

/// The row is the answers' whole contents in category order, each without its
/// commas and followed by ", "; so its length is the sum, over the answers, of the
/// content's length less its commas, plus two.
pub proof fn law_row_holds_whole_contents(entries: Seq<ScoutEntry>)
    ensures
        scouting_row(entries) == concat_all(
            sorted_by_category(entries).map_values(
                |e: ScoutEntry| without_commas(e.content@) + ", "@,
            ),
        ),
        scouting_row(entries).len() == answers_length(entries),
{
    let sorted = sorted_by_category(entries);
    assert(sorted.map_values(|e: ScoutEntry| entry_cell(e)) =~= sorted.map_values(
        |e: ScoutEntry| without_commas(e.content@) + ", "@,
    ));
    lemma_cells_length(sorted);
    lemma_sorted_answers_length(entries);
}

/// A copy of an entry.
pub fn copy_entry(e: &ScoutEntry) -> (r: ScoutEntry)
    ensures
        r == *e,
{
    ScoutEntry { key: e.key.clone(), category: e.category.clone(), content: e.content.clone() }
}

proof fn lemma_insert_at(s: Seq<ScoutEntry>, x: ScoutEntry, pos: int)
    requires
        0 <= pos <= s.len(),
        forall|k: int| pos <= k < s.len() ==> text_lt(x.category@, #[trigger] s[k].category@),
        pos == 0 || !text_lt(x.category@, s[pos - 1].category@),
    ensures
        insert_by_category(s, x) == s.insert(pos, x),
    decreases s.len(),
{
    if s.len() == 0 {
        assert(s.insert(pos, x) =~= seq![x]);
    } else if pos == s.len() {
        assert(s.insert(pos, x) =~= s.push(x));
    } else {
        assert(text_lt(x.category@, s[s.len() - 1].category@));
        lemma_insert_at(s.drop_last(), x, pos);
        assert(s.insert(pos, x) =~= s.drop_last().insert(pos, x).push(s.last()));
    }
}

/// The entries ordered by category, entries of one category in their order.
pub fn sort_by_category(entries: &Vec<ScoutEntry>) -> (r: Vec<ScoutEntry>)
    ensures
        r@ == sorted_by_category(entries@),
{
    let mut out: Vec<ScoutEntry> = Vec::new();
    let n = entries.len();
    let mut i: usize = 0;
    while i < n
        invariant
            n == entries@.len(),
            i <= n,
            out@ == sorted_by_category(entries@.take(i as int)),
        decreases n - i,
    {
        let x = copy_entry(&entries[i]);
        let mut pos = out.len();
        while pos > 0
            invariant
                pos <= out@.len(),
                forall|k: int|
                    pos <= k < out@.len() ==> text_lt(x.category@, #[trigger] out@[k].category@),
            ensures
                pos == 0 || !text_lt(x.category@, out@[pos - 1].category@),
            decreases pos,
        {
            if text_less(x.category.as_str(), out[pos - 1].category.as_str()) {
                pos = pos - 1;
            } else {
                break;
            }
        }
        proof {
            lemma_insert_at(out@, x, pos as int);
            assert(entries@.take(i + 1).drop_last() =~= entries@.take(i as int));
        }
        out.insert(pos, x);
        i = i + 1;
    }
    assert(entries@.take(n as int) =~= entries@);
    out
}

/// The CSV row of a scouting report: its answers ordered by category, each
/// answer's content without commas and followed by ", ".
pub fn scouting_post(data: &Data) -> (row: String)
    ensures
        row@ == scouting_row(data.data@),
{
    let sorted = sort_by_category(&data.data);
    let ghost cells = sorted@.map_values(|e: ScoutEntry| entry_cell(e));
    let mut row = String::new();
    let n = sorted.len();
    let mut i: usize = 0;
    while i < n
        invariant
            n == sorted@.len(),
            i <= n,
            cells == sorted@.map_values(|e: ScoutEntry| entry_cell(e)),
            row@ == concat_all(cells.take(i as int)),
        decreases n - i,
    {
        let cell = remove_commas(sorted[i].content.as_str());
        row.append(cell.as_str());
        row.append(", ");
        proof {
            lemma_concat_all_take(cells, i as int);
        }
        i = i + 1;
    }
    assert(cells.take(n as int) =~= cells);
    row
}

} // verus!
