//! Rows of named entries in ascending order of their names, each name once.

use vstd::prelude::*;

use crate::text::same_text;

verus! {

/// Whether `a` comes before `b` in the order of texts: the first character in
/// which they differ decides, and a text comes before those that go on from it.
pub open spec fn text_before(a: Seq<char>, b: Seq<char>) -> bool
    decreases a.len(),
{
    if b.len() == 0 {
        false
    } else if a.len() == 0 {
        true
    } else if a[0] != b[0] {
        (a[0] as int) < (b[0] as int)
    } else {
        text_before(a.skip(1), b.skip(1))
    }
}

/// Whether names ascend, so that none occurs twice.
pub open spec fn ascending(names: Seq<Seq<char>>) -> bool {
    forall|i: int, j: int|
        0 <= i < j < names.len() ==> text_before(#[trigger] names[i], #[trigger] names[j])
}

/// The names of a row of entries.
pub open spec fn names_of<V>(rows: Seq<(String, V)>) -> Seq<Seq<char>> {
    rows.map_values(|row: (String, V)| row.0@)
}

/// The first entry of the name `name`.
pub open spec fn row_of<V>(rows: Seq<(String, V)>, name: Seq<char>) -> Option<V>
    decreases rows.len(),
{
    if rows.len() == 0 {
        None
    } else if rows[0].0@ == name {
        Some(rows[0].1)
    } else {
        row_of(rows.skip(1), name)
    }
}

/// No text comes before itself.
pub proof fn lemma_not_before_itself(a: Seq<char>)
    ensures
        !text_before(a, a),
    decreases a.len(),
{
    if a.len() > 0 {
        lemma_not_before_itself(a.skip(1));
    }
}

/// Of two texts that differ one comes before the other.
pub proof fn lemma_one_comes_first(a: Seq<char>, b: Seq<char>)
    requires
        a != b,
    ensures
        text_before(a, b) || text_before(b, a),
    decreases a.len(),
{
    if a.len() == 0 || b.len() == 0 {
        if a.len() == b.len() {
            assert(a =~= b);
        }
    } else if a[0] == b[0] {
        if a.skip(1) == b.skip(1) {
            assert(a =~= seq![a[0]] + a.skip(1));
            assert(b =~= seq![b[0]] + b.skip(1));
        }
        lemma_one_comes_first(a.skip(1), b.skip(1));
    }
}

/// The order of texts carries over.
pub proof fn lemma_before_carries_over(a: Seq<char>, b: Seq<char>, c: Seq<char>)
    requires
        text_before(a, b),
        text_before(b, c),
    ensures
        text_before(a, c),
    decreases a.len(),
{
    if a.len() > 0 && a[0] == b[0] && b[0] == c[0] {
        lemma_before_carries_over(a.skip(1), b.skip(1), c.skip(1));
    }
}

/// Whether `a` comes before `b`.
pub fn comes_before(a: &str, b: &str) -> (r: bool)
    ensures
        r == text_before(a@, b@),
{
    let n: usize = a.unicode_len();
    let m: usize = b.unicode_len();
    let mut i: usize = 0;
    assert(a@.skip(0) =~= a@);
    assert(b@.skip(0) =~= b@);
    while i < n && i < m
        invariant
            i <= n,
            i <= m,
            n == a@.len(),
            m == b@.len(),
            text_before(a@, b@) == text_before(a@.skip(i as int), b@.skip(i as int)),
        decreases n - i,
    {
        let x = a.get_char(i);
        let y = b.get_char(i);
        assert(a@.skip(i as int)[0] == x);
        assert(b@.skip(i as int)[0] == y);
        if x != y {
            return (x as u32) < (y as u32);
        }
        assert(a@.skip(i as int).skip(1) =~= a@.skip(i + 1));
        assert(b@.skip(i as int).skip(1) =~= b@.skip(i + 1));
        i = i + 1;
    }
    i < m
}

/// Puts an entry into its place. An entry of the same name makes way for it.
pub fn put_row<V>(rows: &mut Vec<(String, V)>, name: String, value: V)
    requires
        ascending(names_of(old(rows)@)),
    ensures
        ascending(names_of(final(rows)@)),
        row_of(final(rows)@, name@) == Some(value),
        forall|other: Seq<char>|
            other != name@ ==> #[trigger] row_of(final(rows)@, other) == row_of(old(rows)@, other),
{
    let ghost before = rows@;
    let mut n: usize = 0;
    while n < rows.len() && comes_before(rows[n].0.as_str(), name.as_str())
        invariant
            n <= rows@.len(),
            rows@ == before,
            forall|i: int| 0 <= i < n ==> text_before(#[trigger] names_of(before)[i], name@),
        decreases rows@.len() - n,
    {
        assert(names_of(before)[n as int] == rows@[n as int].0@);
        n = n + 1;
    }
    let same = n < rows.len() && same_text(rows[n].0.as_str(), name.as_str());
    proof {
        let names = names_of(before);
        if n < before.len() {
            assert(names[n as int] == before[n as int].0@);
            if !same {
                lemma_one_comes_first(before[n as int].0@, name@);
            }
        }
        assert forall|j: int| n <= j < names.len() && !(same && j == n) implies text_before(
            name@,
            #[trigger] names[j],
        ) by {
            if j > n {
                assert(text_before(names[n as int], names[j]));
                if !same {
                    lemma_before_carries_over(name@, names[n as int], names[j]);
                }
            }
        }
        lemma_row_in_place(before, n as int, (name, value), same);
    }
    let ghost put = with_row(before, n as int, (name, value), same);
    if same {
        rows.set(n, (name, value));
    } else {
        rows.insert(n, (name, value));
    }
    assert(rows@ =~= put);
}

/// The rows with `row` in place `n`, instead of the one there if that has the
/// same name.
spec fn with_row<V>(rows: Seq<(String, V)>, n: int, row: (String, V), same: bool) -> Seq<
    (String, V),
> {
    if same {
        rows.update(n, row)
    } else {
        rows.insert(n, row)
    }
}

proof fn lemma_row_in_place<V>(rows: Seq<(String, V)>, n: int, row: (String, V), same: bool)
    requires
        0 <= n <= rows.len(),
        ascending(names_of(rows)),
        same ==> n < rows.len() && rows[n].0@ == row.0@,
        forall|i: int| 0 <= i < n ==> text_before(#[trigger] names_of(rows)[i], row.0@),
        forall|j: int|
            n <= j < rows.len() && !(same && j == n) ==> text_before(
                row.0@,
                #[trigger] names_of(rows)[j],
            ),
    ensures
        ascending(names_of(with_row(rows, n, row, same))),
        row_of(with_row(rows, n, row, same), row.0@) == Some(row.1),
        forall|other: Seq<char>|
            other != row.0@ ==> #[trigger] row_of(with_row(rows, n, row, same), other) == row_of(
                rows,
                other,
            ),
    decreases n,
{
    let put = with_row(rows, n, row, same);
    let names = names_of(rows);
    let new_names = names_of(put);
    assert forall|i: int, j: int| 0 <= i < j < new_names.len() implies text_before(
        #[trigger] new_names[i],
        #[trigger] new_names[j],
    ) by {
        let step: int = if same {
            0
        } else {
            1
        };
        if i < n {
            assert(new_names[i] == names[i]);
        } else if i > n {
            assert(new_names[i] == names[i - step]);
        }
        if j < n {
            assert(new_names[j] == names[j]);
        } else if j > n {
            assert(new_names[j] == names[j - step]);
        }
    }
    if n == 0 {
        if same {
            assert(put.skip(1) =~= rows.skip(1));
        } else {
            assert(put.skip(1) =~= rows);
        }
    } else {
        let rest = rows.skip(1);
        assert(names[0] == rows[0].0@);
        lemma_not_before_itself(row.0@);
        assert forall|i: int| 0 <= i < n - 1 implies text_before(
            #[trigger] names_of(rest)[i],
            row.0@,
        ) by {
            assert(names_of(rest)[i] == names[i + 1]);
        }
        assert forall|j: int|
            n - 1 <= j < rest.len() && !(same && j == n - 1) implies text_before(
            row.0@,
            #[trigger] names_of(rest)[j],
        ) by {
            assert(names_of(rest)[j] == names[j + 1]);
        }
        assert(ascending(names_of(rest))) by {
            assert forall|i: int, j: int| 0 <= i < j < rest.len() implies text_before(
                #[trigger] names_of(rest)[i],
                #[trigger] names_of(rest)[j],
            ) by {
                assert(names_of(rest)[i] == names[i + 1]);
                assert(names_of(rest)[j] == names[j + 1]);
            }
        }
        lemma_row_in_place(rest, n - 1, row, same);
        assert(put.skip(1) =~= with_row(rest, n - 1, row, same));
        assert(put[0] == rows[0]);
        assert forall|other: Seq<char>| other != row.0@ implies #[trigger] row_of(put, other)
            == row_of(rows, other) by {
            assert(row_of(with_row(rest, n - 1, row, same), other) == row_of(rest, other));
        }
    }
}

/// In rows whose names ascend an entry is found wherever it stands.
pub proof fn law_rows_are_found<V>(rows: Seq<(String, V)>, i: int)
    requires
        ascending(names_of(rows)),
        0 <= i < rows.len(),
    ensures
        row_of(rows, rows[i].0@) == Some(rows[i].1),
    decreases i,
{
    if i > 0 {
        assert(names_of(rows)[0] == rows[0].0@);
        assert(names_of(rows)[i] == rows[i].0@);
        lemma_not_before_itself(rows[i].0@);
        let rest = rows.skip(1);
        assert(ascending(names_of(rest))) by {
            assert forall|a: int, b: int| 0 <= a < b < rest.len() implies text_before(
                #[trigger] names_of(rest)[a],
                #[trigger] names_of(rest)[b],
            ) by {
                assert(names_of(rest)[a] == names_of(rows)[a + 1]);
                assert(names_of(rest)[b] == names_of(rows)[b + 1]);
            }
        }
        law_rows_are_found(rest, i - 1);
    }
}

/// Two rows of a filtered sequence come from two places of the sequence.
pub proof fn lemma_two_filtered<A>(s: Seq<A>, f: spec_fn(A) -> bool) -> (at: (int, int))
    requires
        s.filter(f).len() > 1,
    ensures
        0 <= at.0 < at.1 < s.len(),
        f(s[at.0]),
        f(s[at.1]),
    decreases s.len(),
{
    reveal(Seq::filter);
    let rest = s.drop_last();
    if f(s.last()) {
        if rest.filter(f).len() > 1 {
            let at = lemma_two_filtered(rest, f);
            at
        } else {
            assert(rest.filter(f).contains(rest.filter(f)[0]));
            rest.lemma_filter_contains_rev(f, rest.filter(f)[0]);
            let k = choose|k: int| 0 <= k < rest.len() && rest[k] == rest.filter(f)[0];
            rest.lemma_filter_pred(f, 0);
            (k, s.len() - 1)
        }
    } else {
        let at = lemma_two_filtered(rest, f);
        at
    }
}

} // verus!
