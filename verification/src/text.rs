//! Text building blocks: decimal numbers, the order in which names are
//! listed, and joining lines.

use vstd::prelude::*;
use vstd::relations::*;
use vstd::string::*;

verus! {

/// The characters of `s`, one per element.
pub fn chars_of(s: &str) -> (out: Vec<char>)
    ensures
        out@ == s@,
{
    let n = s.unicode_len();
    let mut out: Vec<char> = Vec::new();
    let mut i: usize = 0;
    while i < n
        invariant
            n == s@.len(),
            i <= n,
            out@ == s@.take(i as int),
        decreases n - i,
    {
        out.push(s.get_char(i));
        i = i + 1;
        assert(out@ =~= s@.take(i as int));
    }
    assert(out@ =~= s@);
    out
}

/// Whether `a` and `b` hold the same characters.
pub fn same_text(a: &str, b: &str) -> (same: bool)
    ensures
        same == (a@ == b@),
{
    let ca = chars_of(a);
    let cb = chars_of(b);
    if ca.len() != cb.len() {
        return false;
    }
    let mut i: usize = 0;
    while i < ca.len()
        invariant
            ca@ == a@,
            cb@ == b@,
            ca@.len() == cb@.len(),
            i <= ca@.len(),
            a@.take(i as int) == b@.take(i as int),
        decreases ca@.len() - i,
    {
        if ca[i] != cb[i] {
            return false;
        }
        i = i + 1;
        assert(a@.take(i as int) =~= a@.take(i - 1).push(a@[i - 1]));
        assert(b@.take(i as int) =~= b@.take(i - 1).push(b@[i - 1]));
    }
    assert(a@ =~= a@.take(i as int));
    assert(b@ =~= b@.take(i as int));
    true
}

/// Lexicographic order on texts, character by character by code point; a
/// text comes before every longer text that starts with it. Since UTF-8
/// preserves code-point order byte by byte, this is also the order of
/// `String`'s `Ord`.
pub open spec fn text_le(a: Seq<char>, b: Seq<char>) -> bool
    decreases a.len(),
{
    if a.len() == 0 {
        true
    } else if b.len() == 0 {
        false
    } else if a[0] != b[0] {
        (a[0] as int) < (b[0] as int)
    } else {
        text_le(a.drop_first(), b.drop_first())
    }
}

proof fn lemma_text_le_reflexive(a: Seq<char>)
    ensures
        text_le(a, a),
    decreases a.len(),
{
    if a.len() > 0 {
        lemma_text_le_reflexive(a.drop_first());
    }
}

proof fn lemma_text_le_antisymmetric(a: Seq<char>, b: Seq<char>)
    requires
        text_le(a, b),
        text_le(b, a),
    ensures
        a == b,
    decreases a.len(),
{
    if a.len() == 0 {
        assert(b.len() == 0);
        assert(a =~= b);
    } else {
        assert(b.len() > 0);
        assert(a[0] == b[0]);
        lemma_text_le_antisymmetric(a.drop_first(), b.drop_first());
        assert(a =~= seq![a[0]] + a.drop_first());
        assert(b =~= seq![b[0]] + b.drop_first());
    }
}

proof fn lemma_text_le_transitive(a: Seq<char>, b: Seq<char>, c: Seq<char>)
    requires
        text_le(a, b),
        text_le(b, c),
    ensures
        text_le(a, c),
    decreases a.len(),
{
    if a.len() > 0 && b.len() > 0 && c.len() > 0 && a[0] == b[0] && b[0] == c[0] {
        lemma_text_le_transitive(a.drop_first(), b.drop_first(), c.drop_first());
    }
}

proof fn lemma_text_le_total(a: Seq<char>, b: Seq<char>)
    ensures
        text_le(a, b) || text_le(b, a),
    decreases a.len(),
{
    if a.len() > 0 && b.len() > 0 {
        if a[0] == b[0] {
            lemma_text_le_total(a.drop_first(), b.drop_first());
        } else {
            assert(a[0] as int != b[0] as int);
        }
    }
}

/// `text_le` is a total order: reflexive, antisymmetric, transitive, and
/// any two texts are comparable.
pub proof fn lemma_text_le_total_ordering()
    ensures
        total_ordering(|a: Seq<char>, b: Seq<char>| text_le(a, b)),
{
    let r = |a: Seq<char>, b: Seq<char>| text_le(a, b);
    assert forall|a: Seq<char>| #[trigger] r(a, a) by {
        lemma_text_le_reflexive(a);
    }
    assert forall|a: Seq<char>, b: Seq<char>| #[trigger] r(a, b) && #[trigger] r(b, a) implies a
        == b by {
        lemma_text_le_antisymmetric(a, b);
    }
    assert forall|a: Seq<char>, b: Seq<char>, c: Seq<char>| #[trigger] r(a, b) && #[trigger] r(
        b,
        c,
    ) implies r(a, c) by {
        lemma_text_le_transitive(a, b, c);
    }
    assert forall|a: Seq<char>, b: Seq<char>| #[trigger] r(a, b) || #[trigger] r(b, a) by {
        lemma_text_le_total(a, b);
    }
}

proof fn lemma_text_le_skip(a: Seq<char>, b: Seq<char>, i: int)
    requires
        0 <= i <= a.len(),
        i <= b.len(),
        a.take(i) == b.take(i),
    ensures
        text_le(a, b) == text_le(a.skip(i), b.skip(i)),
    decreases i,
{
    if i > 0 {
        assert(a[0] == a.take(i)[0]);
        assert(b[0] == b.take(i)[0]);
        assert(a.drop_first().take(i - 1) =~= a.take(i).drop_first());
        assert(b.drop_first().take(i - 1) =~= b.take(i).drop_first());
        lemma_text_le_skip(a.drop_first(), b.drop_first(), i - 1);
        assert(a.drop_first().skip(i - 1) =~= a.skip(i));
        assert(b.drop_first().skip(i - 1) =~= b.skip(i));
    } else {
        assert(a.skip(0) =~= a);
        assert(b.skip(0) =~= b);
    }
}

/// Whether `a` comes no later than `b` in the order of [`text_le`].
pub fn text_at_most(a: &str, b: &str) -> (le: bool)
    ensures
        le == text_le(a@, b@),
{
    let ca = chars_of(a);
    let cb = chars_of(b);
    let mut i: usize = 0;
    while i < ca.len() && i < cb.len() && ca[i] == cb[i]
        invariant
            ca@ == a@,
            cb@ == b@,
            i <= ca@.len(),
            i <= cb@.len(),
            a@.take(i as int) == b@.take(i as int),
        decreases ca@.len() - i,
    {
        i = i + 1;
        assert(a@.take(i as int) =~= a@.take(i - 1).push(a@[i - 1]));
        assert(b@.take(i as int) =~= b@.take(i - 1).push(b@[i - 1]));
    }
    proof {
        lemma_text_le_skip(a@, b@, i as int);
    }
    if i == ca.len() {
        true
    } else if i == cb.len() {
        false
    } else {
        ca[i] < cb[i]
    }
}


/// The texts held by a sequence of strings.
pub open spec fn texts(v: Seq<String>) -> Seq<Seq<char>> {
    v.map_values(|s: String| s@)
}

/// The order in which names are listed: [`text_le`].
pub open spec fn listing_order() -> spec_fn(Seq<char>, Seq<char>) -> bool {
    |a: Seq<char>, b: Seq<char>| text_le(a, b)
}

proof fn lemma_insert_multiset<A>(s: Seq<A>, k: int, a: A)
    requires
        0 <= k <= s.len(),
    ensures
        s.insert(k, a).to_multiset() == s.to_multiset().insert(a),
{
    broadcast use vstd::seq_lib::group_to_multiset_ensures;
    broadcast use vstd::multiset::group_multiset_axioms;

    let l = s.take(k);
    let r = s.skip(k);
    assert(s.insert(k, a) =~= l.push(a) + r);
    assert(s =~= l + r);
    vstd::seq_lib::lemma_multiset_commutative(l.push(a), r);
    vstd::seq_lib::lemma_multiset_commutative(l, r);
    assert(l.push(a).to_multiset() =~= l.to_multiset().insert(a));
    assert(s.insert(k, a).to_multiset() =~= s.to_multiset().insert(a));
}

/// Sorts `names` into the order of [`text_le`], the order of `String`'s
/// `Ord`: the result holds the same texts, each as often, in that order.
pub fn sort_texts(names: &Vec<String>) -> (sorted: Vec<String>)
    ensures
        texts(sorted@) == texts(names@).sort_by(listing_order()),
{
    let mut sorted: Vec<String> = Vec::new();
    let mut i: usize = 0;
    proof {
        lemma_text_le_total_ordering();
        assert(texts(names@.take(0)) =~= Seq::<Seq<char>>::empty());
        assert(texts(sorted@) =~= Seq::<Seq<char>>::empty());
    }
    while i < names.len()
        invariant
            i <= names@.len(),
            total_ordering(listing_order()),
            sorted_by(texts(sorted@), listing_order()),
            texts(sorted@).to_multiset() == texts(names@.take(i as int)).to_multiset(),
        decreases names@.len() - i,
    {
        let x = names[i].clone();
        let mut k: usize = 0;
        while k < sorted.len() && text_at_most(sorted[k].as_str(), x.as_str())
            invariant
                k <= sorted@.len(),
                forall|j: int| 0 <= j < k ==> text_le(#[trigger] sorted@[j]@, x@),
            decreases sorted@.len() - k,
        {
            k = k + 1;
        }
        let ghost before = texts(sorted@);
        sorted.insert(k, x);
        proof {
            let after = texts(sorted@);
            assert(after =~= before.insert(k as int, x@));
            let r = listing_order();
            if k < before.len() {
                assert(!text_le(before[k as int], x@));
                lemma_text_le_total(before[k as int], x@);
            }
            assert forall|a: int, b: int| 0 <= a < b < after.len() implies #[trigger] r(
                after[a],
                after[b],
            ) by {
                if b < k {
                    assert(r(before[a], before[b]));
                } else if a < k && b == k {
                    assert(before[a] == sorted@[a]@);
                } else if a < k {
                    assert(r(before[a], before[b - 1]));
                } else if a == k {
                    if b - 1 > k {
                        assert(r(before[k as int], before[b - 1]));
                        lemma_text_le_transitive(x@, before[k as int], before[b - 1]);
                    }
                } else {
                    assert(r(before[a - 1], before[b - 1]));
                }
            }
            lemma_insert_multiset(before, k as int, x@);
            assert(texts(names@.take(i + 1)) =~= texts(names@.take(i as int)).push(x@));
            broadcast use vstd::seq_lib::group_to_multiset_ensures;
        }
        i = i + 1;
    }
    proof {
        assert(names@.take(i as int) =~= names@);
        let all = texts(names@);
        all.lemma_sort_by_ensures(listing_order());
        vstd::seq_lib::lemma_sorted_unique(texts(sorted@), all.sort_by(listing_order()), listing_order());
    }
    sorted
}

/// `lines` joined with `sep` between consecutive lines.
pub open spec fn joined(lines: Seq<Seq<char>>, sep: Seq<char>) -> Seq<char>
    decreases lines.len(),
{
    if lines.len() == 0 {
        Seq::empty()
    } else if lines.len() == 1 {
        lines[0]
    } else {
        joined(lines.drop_last(), sep) + sep + lines.last()
    }
}

/// The texts of `lines` joined with `sep` between consecutive lines.
pub fn join_texts(lines: &Vec<String>, sep: &str) -> (out: String)
    ensures
        out@ == joined(texts(lines@), sep@),
{
    let mut out = String::new();
    let mut i: usize = 0;
    while i < lines.len()
        invariant
            i <= lines@.len(),
            out@ == joined(texts(lines@.take(i as int)), sep@),
        decreases lines@.len() - i,
    {
        let ghost prev = texts(lines@.take(i as int));
        if i > 0 {
            out.append(sep);
        }
        out.append(lines[i].as_str());
        i = i + 1;
        proof {
            let cur = texts(lines@.take(i as int));
            assert(cur.drop_last() =~= prev);
            if i == 1 {
                assert(prev =~= Seq::<Seq<char>>::empty());
            }
        }
    }
    assert(lines@.take(i as int) =~= lines@);
    out
}

/// The decimal digit for `d`, which is below 10.
pub open spec fn digit_char(d: nat) -> char {
    ((d + 48) as u8) as char
}

/// The decimal numeral for `n`: no leading zeros, "0" for zero.
pub open spec fn decimal(n: nat) -> Seq<char>
    decreases n,
{
    if n < 10 {
        seq![digit_char(n)]
    } else {
        decimal(n / 10).push(digit_char(n % 10))
    }
}

fn digit_text(d: u64) -> (t: &'static str)
    requires
        d < 10,
    ensures
        t@ == seq![digit_char(d as nat)],
{
    proof {
        reveal_strlit("0");
        reveal_strlit("1");
        reveal_strlit("2");
        reveal_strlit("3");
        reveal_strlit("4");
        reveal_strlit("5");
        reveal_strlit("6");
        reveal_strlit("7");
        reveal_strlit("8");
        reveal_strlit("9");
    }
    let t = if d == 0 {
        "0"
    } else if d == 1 {
        "1"
    } else if d == 2 {
        "2"
    } else if d == 3 {
        "3"
    } else if d == 4 {
        "4"
    } else if d == 5 {
        "5"
    } else if d == 6 {
        "6"
    } else if d == 7 {
        "7"
    } else if d == 8 {
        "8"
    } else {
        "9"
    };
    assert(t@ =~= seq![digit_char(d as nat)]);
    t
}

/// The decimal numeral for `n`, as `format!("{}", n)` writes it.
pub fn decimal_text(n: u64) -> (out: String)
    ensures
        out@ == decimal(n as nat),
    decreases n,
{
    if n < 10 {
        String::from_str(digit_text(n))
    } else {
        let mut out = decimal_text(n / 10);
        out.append(digit_text(n % 10));
        out
    }
}


/// The number that the decimal numeral `s` stands for.
pub open spec fn decimal_value(s: Seq<char>) -> nat
    decreases s.len(),
{
    if s.len() == 0 {
        0
    } else {
        decimal_value(s.drop_last()) * 10 + ((s.last() as int - 48) as nat)
    }
}

/// A decimal numeral reads back as the number it was written for, so
/// different numbers are written differently.
pub proof fn lemma_decimal_roundtrip(n: nat)
    ensures
        decimal_value(decimal(n)) == n,
        decimal(n).len() > 0,
    decreases n,
{
    let d = n % 10;
    assert(digit_char(d) as int == d + 48);
    if n >= 10 {
        lemma_decimal_roundtrip(n / 10);
        assert(decimal(n).drop_last() =~= decimal(n / 10));
        assert(decimal(n).last() == digit_char(d));
        assert(decimal_value(decimal(n)) == decimal_value(decimal(n / 10)) * 10 + d);
        assert(n == (n / 10) * 10 + d);
    } else {
        assert(decimal(n).drop_last() =~= Seq::<char>::empty());
        assert(decimal_value(decimal(n)) == decimal_value(Seq::<char>::empty()) * 10 + d);
    }
}

/// The listing order compares texts at their first difference: a text comes
/// before every text it is a prefix of, and otherwise the first character in
/// which two texts differ decides, by code point.
pub proof fn law_text_order(a: Seq<char>, b: Seq<char>, i: int)
    requires
        0 <= i <= a.len(),
        i <= b.len(),
        a.take(i) == b.take(i),
    ensures
        i == a.len() ==> text_le(a, b),
        i < a.len() && i == b.len() ==> !text_le(a, b),
        i < a.len() && i < b.len() && a[i] != b[i] ==> (text_le(a, b) <==> (a[i] as int) < (
        b[i] as int)),
{
    lemma_text_le_skip(a, b, i);
    if i < a.len() {
        assert(a.skip(i)[0] == a[i]);
    }
    if i < b.len() {
        assert(b.skip(i)[0] == b[i]);
    }
}

/// Joining puts the separator between consecutive lines and nowhere else: no
/// lines give nothing, one line gives that line, and one more line adds the
/// separator and that line at the end.
pub proof fn law_joined(lines: Seq<Seq<char>>, line: Seq<char>, sep: Seq<char>)
    ensures
        joined(Seq::empty(), sep) == Seq::<char>::empty(),
        joined(seq![line], sep) == line,
        lines.len() > 0 ==> joined(lines.push(line), sep) == joined(lines, sep) + sep + line,
{
    assert(lines.push(line).drop_last() =~= lines);
}

} // verus!
