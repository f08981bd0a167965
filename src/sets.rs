use vstd::prelude::*;

verus! {

/// Adding an id with set semantics: appended once, kept where it already is.
pub open spec fn added(s: Seq<u64>, x: u64) -> Seq<u64> {
    if s.contains(x) {
        s
    } else {
        s.push(x)
    }
}

/// Pulling an id: every occurrence leaves, the rest keep their order.
pub open spec fn pulled(s: Seq<u64>, x: u64) -> Seq<u64>
    decreases s.len(),
{
    if s.len() == 0 {
        s
    } else if s.last() == x {
        pulled(s.drop_last(), x)
    } else {
        pulled(s.drop_last(), x).push(s.last())
    }
}

proof fn lemma_contains_last(s: Seq<u64>, y: u64)
    requires
        s.len() > 0,
    ensures
        s.contains(y) <==> (s.drop_last().contains(y) || s.last() == y),
{
    if s.contains(y) {
        let k = choose|k: int| 0 <= k < s.len() && s[k] == y;
        if k < s.len() - 1 {
            assert(s.drop_last()[k] == y);
        }
    }
    if s.drop_last().contains(y) {
        let k = choose|k: int| 0 <= k < s.drop_last().len() && s.drop_last()[k] == y;
        assert(s[k] == y);
    }
    if s.last() == y {
        assert(s[s.len() - 1] == y);
    }
}

/// After a pull the id is gone and every other id is kept.
pub proof fn lemma_pulled_contains(s: Seq<u64>, x: u64, y: u64)
    ensures
        pulled(s, x).contains(y) <==> (s.contains(y) && y != x),
    decreases s.len(),
{
    if s.len() > 0 {
        lemma_pulled_contains(s.drop_last(), x, y);
        lemma_contains_last(s, y);
        if s.last() != x {
            lemma_contains_last(pulled(s, x), y);
            assert(pulled(s, x).drop_last() == pulled(s.drop_last(), x));
        }
    }
}

/// After an add the id is there and every other id is kept.
pub proof fn lemma_added_contains(s: Seq<u64>, x: u64, y: u64)
    ensures
        added(s, x).contains(y) <==> (s.contains(y) || y == x),
{
    if !s.contains(x) {
        assert(s.push(x).drop_last() == s);
        lemma_contains_last(s.push(x), y);
    }
}

/// Pulling keeps a sequence free of duplicates.
pub proof fn lemma_pulled_no_duplicates(s: Seq<u64>, x: u64)
    requires
        s.no_duplicates(),
    ensures
        pulled(s, x).no_duplicates(),
    decreases s.len(),
{
    if s.len() > 0 {
        let d = s.drop_last();
        assert(d.no_duplicates()) by {
            assert forall|i: int, j: int| 0 <= i < d.len() && 0 <= j < d.len() && i != j implies d[i] != d[j] by {
                assert(d[i] == s[i] && d[j] == s[j]);
            }
        }
        lemma_pulled_no_duplicates(d, x);
        if s.last() != x {
            let p = pulled(d, x);
            assert(!d.contains(s.last())) by {
                if d.contains(s.last()) {
                    let k = choose|k: int| 0 <= k < d.len() && d[k] == s.last();
                    assert(s[k] == s[s.len() - 1]);
                }
            }
            lemma_pulled_contains(d, x, s.last());
            assert forall|i: int, j: int| 0 <= i < p.push(s.last()).len() && 0 <= j < p.push(s.last()).len() && i
                != j implies p.push(s.last())[i] != p.push(s.last())[j] by {
                if i < p.len() && j < p.len() {
                } else if i < p.len() {
                    assert(p.contains(p[i]));
                } else if j < p.len() {
                    assert(p.contains(p[j]));
                }
            }
        }
    }
}

/// Pulling an id that is not there changes nothing.
pub proof fn lemma_pulled_missing(s: Seq<u64>, x: u64)
    requires
        !s.contains(x),
    ensures
        pulled(s, x) == s,
    decreases s.len(),
{
    if s.len() > 0 {
        assert(!s.drop_last().contains(x)) by {
            if s.drop_last().contains(x) {
                let k = choose|k: int| 0 <= k < s.drop_last().len() && s.drop_last()[k] == x;
                assert(s[k] == x);
            }
        }
        lemma_pulled_missing(s.drop_last(), x);
        assert(s.last() != x);
        assert(s.drop_last().push(s.last()) == s);
    }
}

/// Adding an id and then pulling it restores a sequence that lacked it.
pub proof fn lemma_pull_undoes_add(s: Seq<u64>, x: u64)
    requires
        !s.contains(x),
    ensures
        pulled(added(s, x), x) == s,
{
    lemma_pulled_missing(s, x);
    assert(s.push(x).drop_last() == s);
}

/// Adding an id twice is adding it once.
pub proof fn lemma_add_idempotent(s: Seq<u64>, x: u64)
    ensures
        added(added(s, x), x) == added(s, x),
{
    if !s.contains(x) {
        assert(s.push(x)[s.len() as int] == x);
    }
}

/// Adds `x` to the id list `v` unless it is already there.
pub fn add_to_set(v: &mut Vec<u64>, x: u64)
    ensures
        final(v)@ == added(old(v)@, x),
{
    let mut i: usize = 0;
    let mut found = false;
    while i < v.len()
        invariant
            0 <= i <= v@.len(),
            found <==> exists|k: int| 0 <= k < i && v@[k] == x,
        decreases v@.len() - i,
    {
        if v[i] == x {
            found = true;
        }
        i = i + 1;
    }
    if !found {
        v.push(x);
    }
}

/// Whether the id list `v` holds `x`.
pub fn contains_id(v: &Vec<u64>, x: u64) -> (r: bool)
    ensures
        r == v@.contains(x),
{
    let mut i: usize = 0;
    while i < v.len()
        invariant
            0 <= i <= v@.len(),
            forall|k: int| 0 <= k < i ==> v@[k] != x,
        decreases v@.len() - i,
    {
        if v[i] == x {
            return true;
        }
        i = i + 1;
    }
    false
}

/// Removes every occurrence of `x` from the id list `v`.
pub fn pull_from_set(v: &mut Vec<u64>, x: u64)
    ensures
        final(v)@ == pulled(old(v)@, x),
{
    let mut kept: Vec<u64> = Vec::new();
    let mut i: usize = 0;
    while i < v.len()
        invariant
            0 <= i <= v@.len(),
            kept@ == pulled(v@.subrange(0, i as int), x),
        decreases v@.len() - i,
    {
        assert(v@.subrange(0, i as int + 1).drop_last() == v@.subrange(0, i as int));
        if v[i] != x {
            kept.push(v[i]);
        }
        i = i + 1;
    }
    assert(v@.subrange(0, v@.len() as int) == v@);
    *v = kept;
}

} // verus!
