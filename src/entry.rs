use vstd::prelude::*;
use vstd::multiset::Multiset;
use vstd::utf8::encode_utf8;

verus! {

/// One item of a projected directory: a container when `size` is `None`,
/// otherwise a leaf holding `size` bytes.
#[derive(Clone, Debug, PartialEq, Eq)]
pub struct DirEntry {
    pub name: String,
    pub size: Option<u64>,
}

impl DirEntry {
    /// A container entry.
    pub fn directory(name: String) -> (r: DirEntry)
        ensures
            r.name == name,
            r.size is None,
    {
        DirEntry { name, size: None }
    }

    /// A leaf entry of `size` bytes.
    pub fn file(name: String, size: u64) -> (r: DirEntry)
        ensures
            r.name == name,
            r.size == Some(size),
    {
        DirEntry { name, size: Some(size) }
    }

    pub fn is_directory(&self) -> (r: bool)
        ensures
            r == self.size is None,
    {
        self.size.is_none()
    }

    /// The size reported for the entry: zero for a container.
    pub fn file_size(&self) -> (r: u64)
        ensures
            r == reported_size(self.size),
    {
        match self.size {
            Some(n) => n,
            None => 0,
        }
    }
}

pub open spec fn reported_size(size: Option<u64>) -> u64 {
    match size {
        Some(n) => n,
        None => 0,
    }
}

/// The UTF-8 bytes of a name, which is what names are ordered by.
pub open spec fn name_bytes(name: Seq<char>) -> Seq<u8> {
    encode_utf8(name)
}

/// Strict lexicographic order on byte strings (a proper prefix comes first).
pub open spec fn bytes_lt(a: Seq<u8>, b: Seq<u8>) -> bool
    decreases a.len(),
{
    if b.len() == 0 {
        false
    } else if a.len() == 0 {
        true
    } else if a[0] != b[0] {
        a[0] < b[0]
    } else {
        bytes_lt(a.drop_first(), b.drop_first())
    }
}

/// Order on sizes: a container (`None`) before any leaf, leaves by size.
pub open spec fn size_lt(a: Option<u64>, b: Option<u64>) -> bool {
    match (a, b) {
        (None, Some(_)) => true,
        (Some(x), Some(y)) => x < y,
        _ => false,
    }
}

/// The order of a listing: by name bytes, then by size.
pub open spec fn entry_lt(a: DirEntry, b: DirEntry) -> bool {
    let (x, y) = (name_bytes(a.name@), name_bytes(b.name@));
    bytes_lt(x, y) || (x == y && size_lt(a.size, b.size))
}

/// No entry comes strictly after a later one.
pub open spec fn sorted(s: Seq<DirEntry>) -> bool {
    forall|i: int, j: int| 0 <= i < j < s.len() ==> !entry_lt(#[trigger] s[j], #[trigger] s[i])
}

pub proof fn lemma_bytes_lt_irreflexive(a: Seq<u8>)
    ensures
        !bytes_lt(a, a),
    decreases a.len(),
{
    if a.len() > 0 {
        lemma_bytes_lt_irreflexive(a.drop_first());
    }
}

pub proof fn lemma_bytes_lt_transitive(a: Seq<u8>, b: Seq<u8>, c: Seq<u8>)
    requires
        bytes_lt(a, b),
        bytes_lt(b, c),
    ensures
        bytes_lt(a, c),
    decreases a.len(),
{
    if a.len() > 0 && a[0] == b[0] && b[0] == c[0] {
        lemma_bytes_lt_transitive(a.drop_first(), b.drop_first(), c.drop_first());
    }
}

pub proof fn lemma_entry_lt_irreflexive(a: DirEntry)
    ensures
        !entry_lt(a, a),
{
    lemma_bytes_lt_irreflexive(name_bytes(a.name@));
}

pub proof fn lemma_entry_lt_transitive(a: DirEntry, b: DirEntry, c: DirEntry)
    requires
        entry_lt(a, b),
        entry_lt(b, c),
    ensures
        entry_lt(a, c),
{
    let (x, y, z) = (name_bytes(a.name@), name_bytes(b.name@), name_bytes(c.name@));
    if bytes_lt(x, y) && bytes_lt(y, z) {
        lemma_bytes_lt_transitive(x, y, z);
    }
}

/// Compares two names by their UTF-8 bytes.
fn name_lt(a: &String, b: &String) -> (r: bool)
    ensures
        r == bytes_lt(name_bytes(a@), name_bytes(b@)),
{
    let x = a.as_str().as_bytes();
    let y = b.as_str().as_bytes();
    let ghost (xs, ys) = (name_bytes(a@), name_bytes(b@));
    let mut i: usize = 0;
    assert(xs.subrange(0, xs.len() as int) =~= xs);
    assert(ys.subrange(0, ys.len() as int) =~= ys);
    while i < x.len() && i < y.len()
        invariant
            x@ == xs,
            y@ == ys,
            xs == name_bytes(a@),
            ys == name_bytes(b@),
            i <= xs.len(),
            i <= ys.len(),
            bytes_lt(xs, ys) == bytes_lt(xs.subrange(i as int, xs.len() as int), ys.subrange(i as int, ys.len() as int)),
        decreases xs.len() - i,
    {
        let (xi, yi) = (x[i], y[i]);
        if xi != yi {
            let ghost (sx, sy) = (xs.subrange(i as int, xs.len() as int), ys.subrange(i as int, ys.len() as int));
            assert(sx[0] == xi && sy[0] == yi);
            assert(bytes_lt(sx, sy) == (xi < yi));
            return xi < yi;
        }
        assert(xs.subrange(i as int, xs.len() as int).drop_first() =~= xs.subrange(i + 1, xs.len() as int));
        assert(ys.subrange(i as int, ys.len() as int).drop_first() =~= ys.subrange(i + 1, ys.len() as int));
        i = i + 1;
    }
    i < y.len()
}

/// Whether `a` comes strictly before `b` in a listing.
pub fn entry_less(a: &DirEntry, b: &DirEntry) -> (r: bool)
    ensures
        r == entry_lt(*a, *b),
{
    if name_lt(&a.name, &b.name) {
        return true;
    }
    if name_lt(&b.name, &a.name) {
        return false;
    }
    proof {
        lemma_bytes_lt_total(name_bytes(a.name@), name_bytes(b.name@));
    }
    match (a.size, b.size) {
        (None, Some(_)) => true,
        (Some(x), Some(y)) => x < y,
        _ => false,
    }
}

/// In a sorted listing, whatever comes after an entry that `x` precedes is
/// preceded by `x` too.
proof fn lemma_entry_lt_monotone(x: DirEntry, a: DirEntry, b: DirEntry)
    requires
        entry_lt(x, a),
        !entry_lt(b, a),
    ensures
        entry_lt(x, b),
{
    if entry_lt(a, b) {
        lemma_entry_lt_transitive(x, a, b);
    } else {
        let (na, nb) = (name_bytes(a.name@), name_bytes(b.name@));
        if !bytes_lt(na, nb) && !bytes_lt(nb, na) {
            lemma_bytes_lt_total(na, nb);
        }
    }
}

proof fn lemma_bytes_lt_total(a: Seq<u8>, b: Seq<u8>)
    requires
        !bytes_lt(a, b),
        !bytes_lt(b, a),
    ensures
        a == b,
    decreases a.len(),
{
    if a.len() > 0 && b.len() > 0 {
        lemma_bytes_lt_total(a.drop_first(), b.drop_first());
        assert(a =~= seq![a[0]] + a.drop_first());
        assert(b =~= seq![b[0]] + b.drop_first());
    } else {
        assert(a =~= b);
    }
}

/// Sorts a listing into its order, keeping every entry.
pub fn sort_entries(v: Vec<DirEntry>) -> (r: Vec<DirEntry>)
    ensures
        sorted(r@),
        r@.to_multiset() == v@.to_multiset(),
{
    let mut src = v;
    let mut out: Vec<DirEntry> = Vec::new();
    let ghost orig = src@;
    proof {
        broadcast use vstd::seq_lib::group_to_multiset_ensures;
        assert(out@.to_multiset() =~= Multiset::empty());
        assert(out@.to_multiset().add(src@.to_multiset()) =~= orig.to_multiset());
    }
    while src.len() > 0
        invariant
            sorted(out@),
            out@.to_multiset().add(src@.to_multiset()) == orig.to_multiset(),
        decreases src.len(),
    {
        let ghost src_before = src@;
        let x = src.pop().unwrap();
        proof {
            broadcast use vstd::seq_lib::group_to_multiset_ensures;
            assert(src_before =~= src@.push(x));
        }
        let ghost before = out@;
        let mut lo: usize = 0;
        let mut hi: usize = out.len();
        while lo < hi
            invariant
                out@ == before,
                sorted(before),
                lo <= hi <= before.len(),
                forall|k: int| 0 <= k < lo ==> !entry_lt(x, #[trigger] before[k]),
                forall|k: int| hi <= k < before.len() ==> entry_lt(x, #[trigger] before[k]),
            decreases hi - lo,
        {
            let mid = lo + (hi - lo) / 2;
            if entry_less(&x, &out[mid]) {
                proof {
                    assert forall|k: int| mid <= k < before.len() implies entry_lt(x, #[trigger] before[k]) by {
                        if k > mid {
                            lemma_entry_lt_monotone(x, before[mid as int], before[k]);
                        }
                    }
                }
                hi = mid;
            } else {
                proof {
                    assert forall|k: int| 0 <= k <= mid implies !entry_lt(x, #[trigger] before[k]) by {
                        if k < mid && entry_lt(x, before[k]) {
                            lemma_entry_lt_monotone(x, before[k], before[mid as int]);
                        }
                    }
                }
                lo = mid + 1;
            }
        }
        let p = lo;
        out.insert(p, x);
        proof {
            lemma_insert_sorted(before, x, p as int);
            lemma_insert_multiset(before, x, p as int);
            broadcast use vstd::seq_lib::group_to_multiset_ensures;
            assert(out@.to_multiset().add(src@.to_multiset()) =~= before.to_multiset().add(
                src_before.to_multiset(),
            ));
        }
    }
    out
}

proof fn lemma_insert_sorted(s: Seq<DirEntry>, x: DirEntry, p: int)
    requires
        sorted(s),
        0 <= p <= s.len(),
        forall|k: int| 0 <= k < p ==> !entry_lt(x, #[trigger] s[k]),
        p < s.len() ==> entry_lt(x, s[p]),
    ensures
        sorted(s.insert(p, x)),
{
    let t = s.insert(p, x);
    assert forall|i: int, j: int| 0 <= i < j < t.len() implies !entry_lt(#[trigger] t[j], #[trigger] t[i]) by {
        if j == p {
            assert(t[i] == s[i]);
        } else if i == p {
            assert(t[j] == s[j - 1]);
            if entry_lt(s[j - 1], x) {
                if j - 1 == p {
                    lemma_entry_lt_transitive(x, s[p], x);
                    lemma_entry_lt_irreflexive(x);
                } else {
                    lemma_entry_lt_transitive(s[j - 1], x, s[p]);
                }
            }
        } else {
            let si = if i < p { i } else { i - 1 };
            let sj = if j < p { j } else { j - 1 };
            assert(t[i] == s[si]);
            assert(t[j] == s[sj]);
        }
    }
}

proof fn lemma_insert_multiset(s: Seq<DirEntry>, x: DirEntry, p: int)
    requires
        0 <= p <= s.len(),
    ensures
        s.insert(p, x).to_multiset() == s.to_multiset().insert(x),
{
    broadcast use vstd::seq_lib::group_to_multiset_ensures;
    let t = s.insert(p, x);
    assert(t.remove(p) =~= s);
    assert(t.to_multiset().count(x) > 0) by {
        assert(t.contains(x)) by { assert(t[p] == x); }
    }
    assert(t.to_multiset() =~= t.remove(p).to_multiset().insert(x));
}

} // verus!
