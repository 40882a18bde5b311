//! Text helpers: character-wise equality, the order of strings, comma removal,
//! upper case, and the concatenation of row pieces.

use vstd::prelude::*;
use vstd::string::*;

verus! {

/// Strict lexicographic order of two texts, compared from position `i` on.
pub open spec fn text_lt_from(a: Seq<char>, b: Seq<char>, i: nat) -> bool
    decreases a.len() - i,
{
    if i >= a.len() {
        i < b.len()
    } else if i >= b.len() {
        false
    } else if a[i as int] != b[i as int] {
        a[i as int] < b[i as int]
    } else {
        text_lt_from(a, b, i + 1)
    }
}

/// Strict lexicographic order of texts by code point. UTF-8 keeps the order of
/// code points, so this is the order in which `str` compares its bytes.
pub open spec fn text_lt(a: Seq<char>, b: Seq<char>) -> bool {
    text_lt_from(a, b, 0)
}

/// A text with every ',' taken out.
pub open spec fn without_commas(s: Seq<char>) -> Seq<char> {
    s.filter(|c: char| c != ',')
}

/// The number of ',' characters in a text.
pub open spec fn comma_count(s: Seq<char>) -> nat {
    s.filter(|c: char| c == ',').len()
}

/// The texts of a list of strings.
pub open spec fn texts(v: Seq<String>) -> Seq<Seq<char>> {
    v.map_values(|s: String| s@)
}

/// The pieces of a row written one after the other.
pub open spec fn concat_all(parts: Seq<Seq<char>>) -> Seq<char>
    decreases parts.len(),
{
    if parts.len() == 0 {
        Seq::empty()
    } else {
        concat_all(parts.drop_last()) + parts.last()
    }
}

/// Cells written one after the other with ", " between each two of them (and
/// none after the last): a CSV row.
pub open spec fn joined(cells: Seq<Seq<char>>) -> Seq<char>
    decreases cells.len(),
{
    if cells.len() == 0 {
        Seq::empty()
    } else if cells.len() == 1 {
        cells[0]
    } else {
        joined(cells.drop_last()) + ", "@ + cells.last()
    }
}

/// What `str::to_uppercase` returns for a text (the Unicode upper-case mapping).
pub uninterp spec fn uppercase(text: Seq<char>) -> Seq<char>;

/// `str::to_uppercase`: the upper-case equivalent of the text, as the Unicode
/// `Uppercase` property defines it. The mapping itself is not stated here; its
/// result is named `uppercase`.
#[verifier::external_body]
pub(crate) fn to_upper(s: &str) -> (r: String)
    ensures
        r@ == uppercase(s@),
{
    s.to_uppercase()
}

/// Whether two texts hold the same characters.
pub fn text_eq(a: &str, b: &str) -> (r: bool)
    ensures
        r == (a@ == b@),
{
    let alen = a.unicode_len();
    let blen = b.unicode_len();
    if alen != blen {
        return false;
    }
    let mut i: usize = 0;
    while i < alen
        invariant
            alen == a@.len(),
            blen == b@.len(),
            alen == blen,
            i <= alen,
            forall|k: int| 0 <= k < i ==> a@[k] == b@[k],
        decreases alen - i,
    {
        if a.get_char(i) != b.get_char(i) {
            return false;
        }
        i = i + 1;
    }
    assert(a@ =~= b@);
    true
}

/// Whether `a` comes strictly before `b`.
pub fn text_less(a: &str, b: &str) -> (r: bool)
    ensures
        r == text_lt(a@, b@),
{
    let alen = a.unicode_len();
    let blen = b.unicode_len();
    let mut i: usize = 0;
    while i < alen && i < blen
        invariant
            alen == a@.len(),
            blen == b@.len(),
            i <= alen,
            i <= blen,
            text_lt(a@, b@) == text_lt_from(a@, b@, i as nat),
        decreases alen - i,
    {
        let ca = a.get_char(i);
        let cb = b.get_char(i);
        if ca != cb {
            return ca < cb;
        }
        i = i + 1;
    }
    i == alen && i < blen
}

/// The text with every ',' taken out, as `s.replace(",", "")` gives it.
pub fn remove_commas(s: &str) -> (r: String)
    ensures
        r@ == without_commas(s@),
{
    let len = s.unicode_len();
    let mut r = String::new();
    let mut i: usize = 0;
    while i < len
        invariant
            len == s@.len(),
            i <= len,
            r@ == without_commas(s@.take(i as int)),
        decreases len - i,
    {
        let c = s.get_char(i);
        proof {
            assert(s@.take(i + 1) =~= s@.take(i as int).push(c));
            s@.take(i as int).lemma_filter_push(c, |c: char| c != ',');
        }
        if c != ',' {
            let one = s.substring_char(i, i + 1);
            assert(one@ =~= seq![c]);
            r.append(one);
        }
        i = i + 1;
    }
    assert(s@.take(len as int) =~= s@);
    r
}

/// No text comes strictly before itself.
pub proof fn lemma_text_lt_irreflexive(a: Seq<char>, i: nat)
    ensures
        !text_lt_from(a, a, i),
    decreases a.len() - i,
{
    if i < a.len() {
        lemma_text_lt_irreflexive(a, i + 1);
    }
}

/// Of two texts, at most one comes strictly before the other.
pub proof fn lemma_text_lt_asymmetric(a: Seq<char>, b: Seq<char>, i: nat)
    ensures
        text_lt_from(a, b, i) ==> !text_lt_from(b, a, i),
    decreases a.len() - i,
{
    if i < a.len() && i < b.len() && a[i as int] == b[i as int] {
        lemma_text_lt_asymmetric(a, b, i + 1);
    }
}

/// The strict order of texts is transitive.
pub proof fn lemma_text_lt_transitive(a: Seq<char>, b: Seq<char>, c: Seq<char>, i: nat)
    ensures
        text_lt_from(a, b, i) && text_lt_from(b, c, i) ==> text_lt_from(a, c, i),
    decreases a.len() - i,
{
    if i < a.len() && i < b.len() && i < c.len() && a[i as int] == b[i as int] && b[i as int]
        == c[i as int] {
        lemma_text_lt_transitive(a, b, c, i + 1);
    }
}

/// Two texts that agree before position `i` are equal, or one comes before the other.
pub proof fn lemma_text_lt_total(a: Seq<char>, b: Seq<char>, i: nat)
    requires
        i <= a.len(),
        i <= b.len(),
        forall|k: int| 0 <= k < i ==> a[k] == b[k],
    ensures
        text_lt_from(a, b, i) || text_lt_from(b, a, i) || a == b,
    decreases a.len() - i,
{
    if i >= a.len() || i >= b.len() {
        if i == a.len() && i == b.len() {
            assert(a =~= b);
        }
    } else if a[i as int] == b[i as int] {
        lemma_text_lt_total(a, b, i + 1);
    }
}

proof fn lemma_text_lt_skip_common(s: Seq<char>, u: Seq<char>, i: nat, n: nat)
    requires
        i <= n,
        n <= s.len(),
        n <= u.len(),
        forall|k: int| i <= k < n ==> s[k] == u[k],
    ensures
        text_lt_from(s, u, i) == text_lt_from(s, u, n),
    decreases n - i,
{
    if i < n {
        lemma_text_lt_skip_common(s, u, i + 1, n);
    }
}

/// Texts are ordered by their first difference: after any common beginning `p`,
/// the text with the smaller character there comes first, whatever follows.
pub proof fn law_text_lt_first_difference(p: Seq<char>, x: char, a: Seq<char>, y: char, b: Seq<char>)
    requires
        x < y,
    ensures
        text_lt(p.push(x) + a, p.push(y) + b),
        !text_lt(p.push(y) + b, p.push(x) + a),
{
    let s = p.push(x) + a;
    let u = p.push(y) + b;
    assert(forall|k: int| 0 <= k < p.len() ==> s[k] == p[k] && u[k] == p[k]);
    assert(s[p.len() as int] == x && u[p.len() as int] == y);
    lemma_text_lt_skip_common(s, u, 0, p.len());
    lemma_text_lt_skip_common(u, s, 0, p.len());
}

/// A text comes before every longer text that begins with it.
pub proof fn law_text_lt_proper_prefix(p: Seq<char>, x: char, a: Seq<char>)
    ensures
        text_lt(p, p.push(x) + a),
        !text_lt(p.push(x) + a, p),
{
    let u = p.push(x) + a;
    assert(forall|k: int| 0 <= k < p.len() ==> u[k] == p[k]);
    lemma_text_lt_skip_common(p, u, 0, p.len());
    lemma_text_lt_skip_common(u, p, 0, p.len());
}

/// The text with every comma taken out holds no comma, is as long as the text less
/// its commas, and leaves a text without commas as it is.
pub proof fn law_without_commas(t: Seq<char>)
    ensures
        comma_count(without_commas(t)) == 0,
        without_commas(t).len() + comma_count(t) == t.len(),
        comma_count(t) == 0 ==> without_commas(t) == t,
    decreases t.len(),
{
    lemma_no_comma_left(t);
    if t.len() == 0 {
        reveal(Seq::filter);
    } else {
        let d = t.drop_last();
        let c = t.last();
        law_without_commas(d);
        assert(t =~= d.push(c));
        d.lemma_filter_push(c, |c: char| c != ',');
        d.lemma_filter_push(c, |c: char| c == ',');
        if comma_count(t) == 0 {
            assert(comma_count(d) == 0);
            assert(c != ',');
        }
    }
}

/// Taking commas out works piece by piece: on two texts written one after the
/// other it is the same as on each in turn, and it keeps every character but ','.
pub proof fn law_without_commas_pieces(a: Seq<char>, b: Seq<char>, c: char)
    ensures
        without_commas(a + b) == without_commas(a) + without_commas(b),
        without_commas(seq![c]) == if c == ',' {
            Seq::<char>::empty()
        } else {
            seq![c]
        },
{
    Seq::filter_distributes_over_add(a, b, |c: char| c != ',');
    assert(seq![c] =~= Seq::<char>::empty().push(c));
    Seq::<char>::empty().lemma_filter_push(c, |c: char| c != ',');
    reveal(Seq::filter);
}

/// A text without commas holds no comma.
pub proof fn lemma_no_comma_left(t: Seq<char>)
    ensures
        comma_count(without_commas(t)) == 0,
    decreases t.len(),
{
    if t.len() > 0 {
        let d = t.drop_last();
        lemma_no_comma_left(d);
        assert(t =~= d.push(t.last()));
        d.lemma_filter_push(t.last(), |c: char| c != ',');
        without_commas(d).lemma_filter_push(t.last(), |c: char| c == ',');
    } else {
        reveal(Seq::filter);
    }
}

/// Commas of two texts written one after the other add up.
pub proof fn lemma_comma_count_add(a: Seq<char>, b: Seq<char>)
    ensures
        comma_count(a + b) == comma_count(a) + comma_count(b),
{
    Seq::filter_distributes_over_add(a, b, |c: char| c == ',');
}

/// The separator ", " holds one comma.
pub proof fn lemma_separator_commas()
    ensures
        comma_count(", "@) == 1,
{
    reveal_strlit(", ");
    assert(", "@ =~= Seq::<char>::empty().push(',').push(' '));
    reveal(Seq::filter);
    Seq::<char>::empty().lemma_filter_push(',', |c: char| c == ',');
    Seq::<char>::empty().push(',').lemma_filter_push(' ', |c: char| c == ',');
}

/// Adding one more piece to a row.
pub proof fn lemma_concat_all_take(parts: Seq<Seq<char>>, i: int)
    requires
        0 <= i < parts.len(),
    ensures
        concat_all(parts.take(i + 1)) == concat_all(parts.take(i)) + parts[i],
{
    assert(parts.take(i + 1).drop_last() =~= parts.take(i));
}

} // verus!
