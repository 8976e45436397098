//! The order of names, and rows put in it.

use vstd::prelude::*;

verus! {

/// A row with a name.
pub trait Named {
    spec fn row_name(&self) -> Seq<char>;

    fn name_text(&self) -> (r: &str)
        ensures
            r@ == self.row_name(),
    ;
}

/// Whether name `a` stands at or before name `b`: letter by letter, by the
/// code points of the letters, a name before every longer name that begins
/// with it.
pub open spec fn name_le(a: Seq<char>, b: Seq<char>) -> bool
    decreases a.len(),
{
    if a.len() == 0 {
        true
    } else if b.len() == 0 {
        false
    } else if a[0] != b[0] {
        (a[0] as int) < (b[0] as int)
    } else {
        name_le(a.drop_first(), b.drop_first())
    }
}

/// Of two names, one stands at or before the other.
pub proof fn lemma_name_le_total(a: Seq<char>, b: Seq<char>)
    ensures
        name_le(a, b) || name_le(b, a),
    decreases a.len(),
{
    if a.len() > 0 && b.len() > 0 {
        if a[0] == b[0] {
            lemma_name_le_total(a.drop_first(), b.drop_first());
        } else {
            assert(a[0] as int != b[0] as int);
        }
    }
}

/// A name at or before a second that is at or before a third is at or before
/// the third.
pub proof fn lemma_name_le_transitive(a: Seq<char>, b: Seq<char>, c: Seq<char>)
    requires
        name_le(a, b),
        name_le(b, c),
    ensures
        name_le(a, c),
    decreases a.len(),
{
    if a.len() > 0 && b.len() > 0 && c.len() > 0 && a[0] == b[0] && b[0] == c[0] {
        lemma_name_le_transitive(a.drop_first(), b.drop_first(), c.drop_first());
    }
}

/// Whether name `a` stands at or before name `b`.
pub fn names_in_order(a: &str, b: &str) -> (r: bool)
    ensures
        r == name_le(a@, b@),
{
    let n = a.unicode_len();
    let m = b.unicode_len();
    let mut i: usize = 0;
    assert(a@.skip(0) =~= a@ && b@.skip(0) =~= b@);
    while i < n && i < m
        invariant
            i <= n,
            i <= m,
            n == a@.len(),
            m == b@.len(),
            name_le(a@, b@) == name_le(a@.skip(i as int), b@.skip(i as int)),
        decreases n - i,
    {
        let x = a.get_char(i);
        let y = b.get_char(i);
        if x != y {
            return (x as u32) < (y as u32);
        }
        assert(a@.skip(i as int).drop_first() =~= a@.skip(i + 1));
        assert(b@.skip(i as int).drop_first() =~= b@.skip(i + 1));
        i += 1;
    }
    i == n
}

/// Whether the rows of `s` ascend by name.
pub open spec fn ascends_by_name<T: Named>(s: Seq<T>) -> bool {
    forall|i: int, j: int|
        0 <= i < j < s.len() ==> name_le((#[trigger] s[i]).row_name(), (#[trigger] s[j]).row_name())
}

/// Putting an element into a sequence adds it to what the sequence holds.
pub proof fn lemma_insert_to_multiset<T>(s: Seq<T>, k: int, x: T)
    requires
        0 <= k <= s.len(),
    ensures
        s.insert(k, x).to_multiset() == s.to_multiset().insert(x),
{
    broadcast use vstd::seq_lib::group_to_multiset_ensures;

    let t = s.insert(k, x);
    assert(t.remove(k) =~= s);
    assert(t[k] == x);
    assert(t.contains(x));
    assert(t.to_multiset() =~= s.to_multiset().insert(x));
}

/// The first place of `sorted` whose row stands after `row` by name, or the
/// end where there is none.
fn place_by_name<T: Named>(sorted: &Vec<T>, row: &T) -> (k: usize)
    ensures
        k <= sorted@.len(),
        forall|j: int| 0 <= j < k ==> name_le((#[trigger] sorted@[j]).row_name(), row.row_name()),
        k < sorted@.len() ==> !name_le(sorted@[k as int].row_name(), row.row_name()),
{
    let mut k: usize = 0;
    while k < sorted.len()
        invariant
            k <= sorted@.len(),
            forall|j: int| 0 <= j < k ==> name_le((#[trigger] sorted@[j]).row_name(), row.row_name()),
        decreases sorted.len() - k,
    {
        if !names_in_order(sorted[k].name_text(), row.name_text()) {
            return k;
        }
        k += 1;
    }
    k
}

/// The rows of `rows`, each once, ascending by name. Which of two rows of one
/// name comes first is left open.
pub fn sort_by_name<T: Named>(rows: Vec<T>) -> (sorted: Vec<T>)
    ensures
        sorted@.to_multiset() == rows@.to_multiset(),
        ascends_by_name(sorted@),
{
    broadcast use vstd::seq_lib::group_to_multiset_ensures;

    let mut rest = rows;
    let mut sorted: Vec<T> = Vec::new();
    assert(sorted@.to_multiset().add(rest@.to_multiset()) =~= rows@.to_multiset());
    while rest.len() > 0
        invariant
            ascends_by_name(sorted@),
            sorted@.to_multiset().add(rest@.to_multiset()) == rows@.to_multiset(),
        decreases rest.len(),
    {
        let ghost before = rest@;
        let ghost placed = sorted@;
        let row = rest.pop().unwrap();
        let k = place_by_name(&sorted, &row);
        proof {
            assert(before =~= rest@.push(row));
            vstd::seq_lib::to_multiset_build(rest@, row);
            assert(before.to_multiset() =~= rest@.to_multiset().insert(row));
            lemma_insert_to_multiset(placed, k as int, row);
            assert(placed.insert(k as int, row).to_multiset().add(rest@.to_multiset()) =~= placed.to_multiset().add(
                before.to_multiset(),
            ));
            assert forall|i: int, j: int| 0 <= i < j < placed.insert(k as int, row).len() implies name_le(
                (#[trigger] placed.insert(k as int, row)[i]).row_name(),
                (#[trigger] placed.insert(k as int, row)[j]).row_name(),
            ) by {
                if i == k {
                    lemma_name_le_total(placed[k as int].row_name(), row.row_name());
                    if j - 1 > k {
                        lemma_name_le_transitive(
                            row.row_name(),
                            placed[k as int].row_name(),
                            placed[j - 1].row_name(),
                        );
                    }
                } else if j == k {
                } else {
                    let a = if i < k { i } else { i - 1 };
                    let b = if j < k { j } else { j - 1 };
                    assert(name_le(placed[a].row_name(), placed[b].row_name()));
                }
            }
        }
        sorted.insert(k, row);
        assert(sorted@.to_multiset().add(rest@.to_multiset()) =~= rows@.to_multiset());
    }
    assert(rest@ =~= Seq::<T>::empty());
    assert(sorted@.to_multiset() =~= rows@.to_multiset());
    sorted
}

} // verus!
