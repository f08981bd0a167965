use vstd::prelude::*;

verus! {

/// What `str::to_lowercase` makes of a string: the characters' lowercase
/// mappings, one after another.
pub uninterp spec fn lower_of(s: Seq<char>) -> Seq<char>;

/// Relies on `str::to_lowercase`: the result depends on the characters alone.
#[verifier::external_body]
fn lowercase(s: &str) -> (r: String)
    ensures
        r@ == lower_of(s@),
{
    s.to_lowercase()
}

/// `q` occurs in `t` as a contiguous run of characters.
pub open spec fn is_substring(q: Seq<char>, t: Seq<char>) -> bool {
    exists|k: int| 0 <= k && k + q.len() <= t.len() && #[trigger] t.subrange(k, k + q.len()) == q
}

/// The characters of `s`, one per element.
fn chars_of(s: &str) -> (r: Vec<char>)
    ensures
        r@ == s@,
{
    let n = s.unicode_len();
    let mut out: Vec<char> = Vec::new();
    let mut i: usize = 0;
    while i < n
        invariant
            n == s@.len(),
            0 <= i <= n,
            out@ == s@.subrange(0, i as int),
        decreases n - i,
    {
        out.push(s.get_char(i));
        assert(out@ == s@.subrange(0, i as int + 1));
        i = i + 1;
    }
    assert(s@.subrange(0, n as int) == s@);
    out
}

/// Whether `q[..]` equals `t[k..k + q.len()]`.
fn window_equals(q: &Vec<char>, t: &Vec<char>, k: usize) -> (r: bool)
    requires
        k + q@.len() <= t@.len(),
    ensures
        r == (t@.subrange(k as int, k + q@.len()) == q@),
{
    let n = t.len();
    let mut j: usize = 0;
    while j < q.len()
        invariant
            n == t@.len(),
            k + q@.len() <= t@.len(),
            0 <= j <= q@.len(),
            forall|m: int| 0 <= m < j ==> t@[k + m] == q@[m],
        decreases q@.len() - j,
    {
        if t[k + j] != q[j] {
            assert(t@.subrange(k as int, k + q@.len())[j as int] != q@[j as int]);
            return false;
        }
        j = j + 1;
    }
    assert(t@.subrange(k as int, k + q@.len()) =~= q@);
    true
}

/// Substring test on already case-folded strings: whether `query` occurs in
/// `name`.
pub fn matches_folded(query: &str, name: &str) -> (r: bool)
    ensures
        r == is_substring(query@, name@),
{
    let q = chars_of(query);
    let t = chars_of(name);
    if q.len() > t.len() {
        return false;
    }
    let last = t.len() - q.len();
    let mut k: usize = 0;
    loop
        invariant
            last == t@.len() - q@.len(),
            q@ == query@,
            t@ == name@,
            0 <= k <= last,
            forall|m: int| 0 <= m < k ==> #[trigger] t@.subrange(m, m + q@.len()) != q@,
        decreases last - k,
    {
        if window_equals(&q, &t, k) {
            return true;
        }
        if k == last {
            return false;
        }
        k = k + 1;
    }
}

/// Case-insensitive substring match: whether `query` occurs in `name` once
/// both are lowercased.
pub fn matches_ignoring_case(query: &str, name: &str) -> (r: bool)
    ensures
        r == is_substring(lower_of(query@), lower_of(name@)),
{
    let q = lowercase(query);
    let t = lowercase(name);
    matches_folded(q.as_str(), t.as_str())
}

} // verus!
