//! Lexicographic order on character sequences (as `String`'s `Ord`
//! compares them) and a stable sort of indices by such keys.
use vstd::prelude::*;

verus! {

/// `a` comes strictly before `b`: at the first difference `a` has the
/// smaller character, or `a` is a proper prefix of `b`.
pub open spec fn lex_lt(a: Seq<char>, b: Seq<char>) -> bool
    decreases a.len(),
{
    if a.len() == 0 {
        b.len() > 0
    } else if b.len() == 0 {
        false
    } else if (a[0] as int) < (b[0] as int) {
        true
    } else if a[0] == b[0] {
        lex_lt(a.drop_first(), b.drop_first())
    } else {
        false
    }
}

/// Nothing comes before itself.
pub proof fn lemma_lex_irreflexive(a: Seq<char>)
    ensures
        !lex_lt(a, a),
    decreases a.len(),
{
    if a.len() > 0 {
        lemma_lex_irreflexive(a.drop_first());
    }
}

/// Of two sequences, one comes first or they are equal.
pub proof fn lemma_lex_total(a: Seq<char>, b: Seq<char>)
    ensures
        lex_lt(a, b) || a == b || lex_lt(b, a),
    decreases a.len(),
{
    if a.len() == 0 {
        if b.len() == 0 {
            assert(a =~= b);
        }
    } else if b.len() > 0 {
        if a[0] == b[0] {
            lemma_lex_total(a.drop_first(), b.drop_first());
            if a.drop_first() == b.drop_first() {
                assert(a =~= seq![a[0]] + a.drop_first());
                assert(b =~= seq![b[0]] + b.drop_first());
            }
        } else {
            assert((a[0] as int) != (b[0] as int));
        }
    }
}

/// The order is transitive.
pub proof fn lemma_lex_transitive(a: Seq<char>, b: Seq<char>, c: Seq<char>)
    requires
        lex_lt(a, b),
        lex_lt(b, c),
    ensures
        lex_lt(a, c),
    decreases a.len(),
{
    if a.len() > 0 && b.len() > 0 && c.len() > 0 {
        if a[0] == b[0] && b[0] == c[0] {
            lemma_lex_transitive(a.drop_first(), b.drop_first(), c.drop_first());
        }
    }
}

/// Compares two sequences.
pub fn lex_less(a: &[char], b: &[char]) -> (r: bool)
    ensures
        r == lex_lt(a@, b@),
{
    let mut i: usize = 0;
    assert(a@.subrange(0, a.len() as int) =~= a@);
    assert(b@.subrange(0, b.len() as int) =~= b@);
    while i < a.len() && i < b.len() && a[i] == b[i]
        invariant
            i <= a.len(),
            i <= b.len(),
            lex_lt(a@, b@) == lex_lt(a@.subrange(i as int, a.len() as int), b@.subrange(i as int, b.len() as int)),
        decreases a.len() - i,
    {
        let ghost sa = a@.subrange(i as int, a.len() as int);
        let ghost sb = b@.subrange(i as int, b.len() as int);
        assert(sa.drop_first() =~= a@.subrange(i + 1, a.len() as int));
        assert(sb.drop_first() =~= b@.subrange(i + 1, b.len() as int));
        i = i + 1;
    }
    let ghost sa = a@.subrange(i as int, a.len() as int);
    let ghost sb = b@.subrange(i as int, b.len() as int);
    if i == a.len() {
        i < b.len()
    } else if i == b.len() {
        false
    } else {
        assert(sa[0] == a@[i as int] && sb[0] == b@[i as int]);
        a[i] < b[i]
    }
}

/// `r` lists each index below `n` exactly once.
pub open spec fn is_permutation(r: Seq<usize>, n: nat) -> bool {
    &&& r.len() == n
    &&& forall|i: int| 0 <= i < r.len() ==> (#[trigger] r[i] as int) < n
    &&& forall|i: int, j: int| 0 <= i < j < r.len() ==> r[i] != r[j]
}

/// The keys read through `r` never decrease.
pub open spec fn sorted_by(keys: Seq<Seq<char>>, r: Seq<usize>) -> bool {
    forall|i: int, j: int| 0 <= i < j < r.len() ==> !lex_lt(#[trigger] keys[r[j] as int], #[trigger] keys[r[i] as int])
}

/// Indices with equal keys keep their order.
pub open spec fn stable_by(keys: Seq<Seq<char>>, r: Seq<usize>) -> bool {
    forall|i: int, j: int| 0 <= i < j < r.len() && keys[r[i] as int] == keys[r[j] as int] ==> #[trigger] r[i] < #[trigger] r[j]
}

/// The order of the indices of `keys` that sorts them, equal keys in their
/// input order (as the standard library's stable sort leaves them).
pub fn stable_sort_indices(keys: &[Vec<char>]) -> (r: Vec<usize>)
    ensures
        is_permutation(r@, keys.len() as nat),
        sorted_by(crate::text::views(keys@), r@),
        stable_by(crate::text::views(keys@), r@),
{
    let ghost kv = crate::text::views(keys@);
    let mut r: Vec<usize> = Vec::new();
    let mut k: usize = 0;
    while k < keys.len()
        invariant
            k <= keys.len(),
            kv == crate::text::views(keys@),
            is_permutation(r@, k as nat),
            sorted_by(kv, r@),
            stable_by(kv, r@),
        decreases keys.len() - k,
    {
        // first position whose key is greater than key k
        let mut p: usize = 0;
        while p < r.len() && !lex_less(&keys[k], &keys[r[p]])
            invariant
                k < keys.len(),
                kv == crate::text::views(keys@),
                p <= r.len(),
                is_permutation(r@, k as nat),
                forall|j: int| 0 <= j < p ==> !lex_lt(kv[k as int], #[trigger] kv[r@[j] as int]),
            decreases r.len() - p,
        {
            p = p + 1;
        }
        let ghost old_r = r@;
        proof {
            if p < old_r.len() {
                assert(lex_lt(kv[k as int], kv[old_r[p as int] as int]));
            }
        }
        r.insert(p, k);
        proof {
            assert(r@ == old_r.insert(p as int, k));
            assert forall|i: int| 0 <= i < r@.len() implies (#[trigger] r@[i] as int) < k + 1 by {
                if i < p {
                    assert(r@[i] == old_r[i]);
                } else if i > p {
                    assert(r@[i] == old_r[i - 1]);
                }
            }
            assert forall|i: int, j: int| 0 <= i < j < r@.len() implies r@[i] != r@[j] by {
                if i < p && j < p {
                    assert(r@[i] == old_r[i] && r@[j] == old_r[j]);
                } else if i < p && j == p {
                    assert(r@[i] == old_r[i]);
                } else if i < p && j > p {
                    assert(r@[i] == old_r[i] && r@[j] == old_r[j - 1]);
                } else if i == p {
                    assert(r@[j] == old_r[j - 1]);
                } else {
                    assert(r@[i] == old_r[i - 1] && r@[j] == old_r[j - 1]);
                }
            }
            assert forall|i: int, j: int| 0 <= i < j < r@.len() implies
                !lex_lt(#[trigger] kv[r@[j] as int], #[trigger] kv[r@[i] as int]) by {
                if i < p && j < p {
                    assert(r@[i] == old_r[i] && r@[j] == old_r[j]);
                } else if i < p && j == p {
                    assert(r@[i] == old_r[i]);
                    assert(!lex_lt(kv[k as int], kv[old_r[i] as int]));
                } else if i < p && j > p {
                    assert(r@[i] == old_r[i] && r@[j] == old_r[j - 1]);
                } else if i == p {
                    assert(r@[j] == old_r[j - 1]);
                    let a = kv[k as int];
                    let b = kv[old_r[p as int] as int];
                    let c = kv[old_r[j - 1] as int];
                    if lex_lt(c, a) {
                        if j - 1 > p {
                            lemma_lex_total(b, c);
                            if lex_lt(b, c) {
                                lemma_lex_transitive(a, b, c);
                                lemma_lex_transitive(c, a, c);
                                lemma_lex_irreflexive(c);
                            } else if b == c {
                                lemma_lex_transitive(c, a, b);
                                lemma_lex_irreflexive(c);
                            }
                        } else {
                            lemma_lex_transitive(c, a, b);
                            lemma_lex_irreflexive(c);
                        }
                    }
                } else {
                    assert(r@[i] == old_r[i - 1] && r@[j] == old_r[j - 1]);
                }
            }
            assert forall|i: int, j: int| 0 <= i < j < r@.len() && kv[r@[i] as int] == kv[r@[j] as int]
                implies #[trigger] r@[i] < #[trigger] r@[j] by {
                if i < p && j < p {
                    assert(r@[i] == old_r[i] && r@[j] == old_r[j]);
                } else if i < p && j == p {
                    assert(r@[i] == old_r[i]);
                } else if i < p && j > p {
                    assert(r@[i] == old_r[i] && r@[j] == old_r[j - 1]);
                } else if i == p {
                    assert(r@[j] == old_r[j - 1]);
                    let a = kv[k as int];
                    let b = kv[old_r[p as int] as int];
                    let c = kv[old_r[j - 1] as int];
                    // a comes strictly before b, and b is not after c, so a != c
                    if j - 1 > p {
                        lemma_lex_total(b, c);
                        if lex_lt(b, c) {
                            lemma_lex_transitive(a, b, c);
                        }
                    }
                    lemma_lex_irreflexive(a);
                } else {
                    assert(r@[i] == old_r[i - 1] && r@[j] == old_r[j - 1]);
                }
            }
        }
        k = k + 1;
    }
    r
}

/// The order in which `names` are listed when sorted by their lowercase
/// form, names with equal lowercase forms keeping their order.
pub fn order_by_lowercase(names: &[String]) -> (r: Vec<usize>)
    ensures
        is_permutation(r@, names.len() as nat),
        sorted_by(names@.map_values(|n: String| crate::text::unicode_lowercase(n@)), r@),
        stable_by(names@.map_values(|n: String| crate::text::unicode_lowercase(n@)), r@),
{
    let ghost lower = names@.map_values(|n: String| crate::text::unicode_lowercase(n@));
    let mut keys: Vec<Vec<char>> = Vec::new();
    let mut i: usize = 0;
    while i < names.len()
        invariant
            i <= names.len(),
            lower == names@.map_values(|n: String| crate::text::unicode_lowercase(n@)),
            crate::text::views(keys@) == lower.take(i as int),
        decreases names.len() - i,
    {
        let l = crate::text::str_to_lowercase(names[i].as_str());
        let ghost before = keys@;
        keys.push(crate::text::chars_of(l.as_str()));
        assert(crate::text::views(keys@) =~= crate::text::views(before).push(lower[i as int]));
        assert(lower.take(i + 1) =~= lower.take(i as int).push(lower[i as int]));
        i = i + 1;
    }
    assert(lower.take(names.len() as int) =~= lower);
    stable_sort_indices(&keys)
}

} // verus!
