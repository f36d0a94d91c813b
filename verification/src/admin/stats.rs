//! Plugin statistics, listed by name.

use vstd::prelude::*;

use crate::component::PluginMeta;

verus! {

/// What the dashboard shows of a plugin.
pub struct PluginStats {
    pub id: String,
    pub name: String,
    pub version: String,
    pub description: Option<String>,
    pub endpoint: String,
}

impl PluginStats {
    /// The statistics of a plugin, taken from its manifest.
    pub fn from(value: PluginMeta) -> (stats: PluginStats)
        ensures
            stats.id == value.id,
            stats.name == value.name,
            stats.version == value.version,
            stats.description == value.description,
            stats.endpoint == value.endpoint,
    {
        PluginStats {
            id: value.id,
            name: value.name,
            version: value.version,
            description: value.description,
            endpoint: value.endpoint,
        }
    }
}

/// Lexicographic order on byte strings, as `str` compares: the first
/// differing byte decides, and a proper prefix comes first.
pub open spec fn bytes_le(a: Seq<u8>, b: Seq<u8>) -> bool
    decreases a.len(),
{
    if a.len() == 0 {
        true
    } else if b.len() == 0 {
        false
    } else if a[0] != b[0] {
        a[0] < b[0]
    } else {
        bytes_le(a.drop_first(), b.drop_first())
    }
}

/// The key by which plugins are listed: the UTF-8 bytes of their name.
pub open spec fn name_key(p: PluginStats) -> Seq<u8> {
    vstd::utf8::encode_utf8(p.name@)
}

/// `x` inserted into `t` after every element whose name is not greater.
pub open spec fn insert_by_name(t: Seq<PluginStats>, x: PluginStats) -> Seq<PluginStats>
    decreases t.len(),
{
    if t.len() == 0 {
        seq![x]
    } else if bytes_le(name_key(t.last()), name_key(x)) {
        t.push(x)
    } else {
        insert_by_name(t.drop_last(), x).push(t.last())
    }
}

/// The plugins of `s` ordered by name; plugins with equal names keep their
/// order (a stable sort).
pub open spec fn sorted_by_name(s: Seq<PluginStats>) -> Seq<PluginStats>
    decreases s.len(),
{
    if s.len() == 0 {
        Seq::empty()
    } else {
        insert_by_name(sorted_by_name(s.drop_last()), s.last())
    }
}

/// Whether `s` is ordered by name.
pub open spec fn is_sorted_by_name(s: Seq<PluginStats>) -> bool {
    forall|i: int, j: int| 0 <= i < j < s.len() ==> bytes_le(name_key(s[i]), name_key(s[j]))
}

proof fn lemma_bytes_le_total(a: Seq<u8>, b: Seq<u8>)
    ensures
        bytes_le(a, b) || bytes_le(b, a),
    decreases a.len(),
{
    if a.len() > 0 && b.len() > 0 && a[0] == b[0] {
        lemma_bytes_le_total(a.drop_first(), b.drop_first());
    }
}

proof fn lemma_bytes_le_trans(a: Seq<u8>, b: Seq<u8>, c: Seq<u8>)
    requires
        bytes_le(a, b),
        bytes_le(b, c),
    ensures
        bytes_le(a, c),
    decreases a.len(),
{
    if a.len() > 0 && b.len() > 0 && c.len() > 0 && a[0] == b[0] && b[0] == c[0] {
        lemma_bytes_le_trans(a.drop_first(), b.drop_first(), c.drop_first());
    }
}

/// Byte-wise comparison of two strings: whether `a` is not greater than `b`.
fn str_le(a: &str, b: &str) -> (r: bool)
    ensures
        r == bytes_le(vstd::utf8::encode_utf8(a@), vstd::utf8::encode_utf8(b@)),
{
    let x = a.as_bytes();
    let y = b.as_bytes();
    let mut i: usize = 0;
    assert(x@.skip(0) =~= x@);
    assert(y@.skip(0) =~= y@);
    while i < x.len() && i < y.len()
        invariant
            x@ == vstd::utf8::encode_utf8(a@),
            y@ == vstd::utf8::encode_utf8(b@),
            i <= x@.len(),
            i <= y@.len(),
            x@.take(i as int) == y@.take(i as int),
            bytes_le(x@, y@) == bytes_le(x@.skip(i as int), y@.skip(i as int)),
        decreases x@.len() - i,
    {
        let ghost xs = x@.skip(i as int);
        let ghost ys = y@.skip(i as int);
        if x[i] != y[i] {
            assert(xs[0] == x@[i as int] && ys[0] == y@[i as int]);
            assert(xs.len() > 0 && ys.len() > 0);
            assert(bytes_le(xs, ys) == (xs[0] < ys[0]));
            return x[i] < y[i];
        }
        proof {
            assert(xs.drop_first() =~= x@.skip(i + 1));
            assert(ys.drop_first() =~= y@.skip(i + 1));
            assert(x@.take(i + 1) =~= x@.take(i as int).push(x@[i as int]));
            assert(y@.take(i + 1) =~= y@.take(i as int).push(y@[i as int]));
        }
        i = i + 1;
    }
    proof {
        assert(x@.skip(i as int).len() == 0 || y@.skip(i as int).len() == 0);
    }
    i == x.len()
}

/// Lists plugins by name, keeping the order of plugins whose names are
/// equal.
pub fn sort_by_name(plugins: Vec<PluginStats>) -> (sorted: Vec<PluginStats>)
    ensures
        sorted@ == sorted_by_name(plugins@),
{
    let ghost input = plugins@;
    let mut sorted: Vec<PluginStats> = Vec::new();
    assert(input.take(0) =~= Seq::<PluginStats>::empty());
    for x in it: plugins
        invariant
            it.seq() == input,
            sorted@ == sorted_by_name(input.take(it.index() as int)),
    {
        let ghost k = it.index() as int;
        let ghost t = sorted@;
        assert(input.take(k + 1).drop_last() =~= input.take(k));
        assert(input.take(k + 1).last() == x);
        let mut j = sorted.len();
        assert(t.take(j as int) =~= t);
        assert(t.skip(j as int) =~= Seq::<PluginStats>::empty());
        while j > 0 && !str_le(sorted[j - 1].name.as_str(), x.name.as_str())
            invariant
                sorted@ == t,
                j <= t.len(),
                insert_by_name(t, x) == insert_by_name(t.take(j as int), x) + t.skip(j as int),
            decreases j,
        {
            proof {
                let tj = t.take(j as int);
                assert(tj.last() == t[j - 1]);
                assert(tj.drop_last() =~= t.take(j - 1));
                assert(insert_by_name(tj, x) == insert_by_name(t.take(j - 1), x).push(t[j - 1]));
                assert(insert_by_name(t.take(j - 1), x).push(t[j - 1]) + t.skip(j as int)
                    =~= insert_by_name(t.take(j - 1), x) + t.skip(j - 1));
            }
            j = j - 1;
        }
        proof {
            let tj = t.take(j as int);
            if j > 0 {
                assert(tj.last() == t[j - 1]);
                assert(insert_by_name(tj, x) == tj.push(x));
            } else {
                assert(tj.len() == 0);
                assert(insert_by_name(tj, x) == tj.push(x));
            }
            assert(t.insert(j as int, x) =~= tj.push(x) + t.skip(j as int));
        }
        sorted.insert(j, x);
    }
    proof {
        assert(input.take(input.len() as int) =~= input);
    }
    sorted
}

proof fn lemma_insert_multiset(t: Seq<PluginStats>, x: PluginStats)
    ensures
        insert_by_name(t, x).to_multiset() =~= t.to_multiset().insert(x),
    decreases t.len(),
{
    broadcast use vstd::seq_lib::group_to_multiset_ensures;

    if t.len() > 0 && !bytes_le(name_key(t.last()), name_key(x)) {
        lemma_insert_multiset(t.drop_last(), x);
        assert(t.drop_last().push(t.last()) =~= t);
    }
}

proof fn lemma_insert_sorted(t: Seq<PluginStats>, x: PluginStats)
    requires
        is_sorted_by_name(t),
    ensures
        is_sorted_by_name(insert_by_name(t, x)),
    decreases t.len(),
{
    broadcast use vstd::seq_lib::group_to_multiset_ensures;

    if t.len() == 0 {
    } else if bytes_le(name_key(t.last()), name_key(x)) {
        let r = t.push(x);
        assert forall|i: int, j: int| 0 <= i < j < r.len() implies bytes_le(
            name_key(r[i]),
            name_key(r[j]),
        ) by {
            if j == t.len() && i < t.len() - 1 {
                lemma_bytes_le_trans(name_key(t[i]), name_key(t.last()), name_key(x));
            }
        }
    } else {
        let d = t.drop_last();
        lemma_insert_sorted(d, x);
        lemma_insert_multiset(d, x);
        lemma_bytes_le_total(name_key(t.last()), name_key(x));
        let u = insert_by_name(d, x);
        let r = u.push(t.last());
        assert forall|i: int, j: int| 0 <= i < j < r.len() implies bytes_le(
            name_key(r[i]),
            name_key(r[j]),
        ) by {
            if j == u.len() {
                let e = u[i];
                assert(u.contains(e));
                assert(u.to_multiset().count(e) > 0);
                if e != x {
                    assert(d.to_multiset().count(e) > 0);
                    assert(d.contains(e));
                    let k = choose|k: int| 0 <= k < d.len() && d[k] == e;
                    assert(t[k] == e);
                }
            }
        }
    }
}

/// Listing plugins by name gives them in order of their names.
pub proof fn law_sorted_by_name_is_ordered(s: Seq<PluginStats>)
    ensures
        is_sorted_by_name(sorted_by_name(s)),
    decreases s.len(),
{
    if s.len() > 0 {
        law_sorted_by_name_is_ordered(s.drop_last());
        lemma_insert_sorted(sorted_by_name(s.drop_last()), s.last());
    }
}

/// Listing plugins by name neither loses nor adds a plugin.
pub proof fn law_sorted_by_name_is_permutation(s: Seq<PluginStats>)
    ensures
        sorted_by_name(s).to_multiset() =~= s.to_multiset(),
    decreases s.len(),
{
    broadcast use vstd::seq_lib::group_to_multiset_ensures;

    if s.len() > 0 {
        law_sorted_by_name_is_permutation(s.drop_last());
        lemma_insert_multiset(sorted_by_name(s.drop_last()), s.last());
        assert(s.drop_last().push(s.last()) =~= s);
    }
}

proof fn lemma_bytes_le_refl(a: Seq<u8>)
    ensures
        bytes_le(a, a),
    decreases a.len(),
{
    if a.len() > 0 {
        lemma_bytes_le_refl(a.drop_first());
    }
}

/// Whether a plugin's name has the key `k`.
pub open spec fn has_name_key(k: Seq<u8>) -> spec_fn(PluginStats) -> bool {
    |p: PluginStats| name_key(p) == k
}

/// The plugins of `s` whose name has the key `k`, in order.
pub open spec fn with_name_key(s: Seq<PluginStats>, k: Seq<u8>) -> Seq<PluginStats> {
    s.filter(has_name_key(k))
}

proof fn lemma_insert_stable(t: Seq<PluginStats>, x: PluginStats, k: Seq<u8>)
    ensures
        with_name_key(insert_by_name(t, x), k) == if name_key(x) == k {
            with_name_key(t, k).push(x)
        } else {
            with_name_key(t, k)
        },
    decreases t.len(),
{
    let pred = has_name_key(k);
    if t.len() == 0 {
        Seq::<PluginStats>::empty().lemma_filter_push(x, pred);
        assert(Seq::<PluginStats>::empty().push(x) =~= seq![x]);
    } else if bytes_le(name_key(t.last()), name_key(x)) {
        t.lemma_filter_push(x, pred);
    } else {
        let d = t.drop_last();
        lemma_insert_stable(d, x, k);
        let u = insert_by_name(d, x);
        u.lemma_filter_push(t.last(), pred);
        d.lemma_filter_push(t.last(), pred);
        assert(d.push(t.last()) =~= t);
        if name_key(t.last()) == name_key(x) {
            lemma_bytes_le_refl(name_key(x));
        }
        if name_key(x) == k {
            assert(!pred(t.last()));
        }
    }
}

/// Listing plugins by name keeps plugins with equal names in the order in
/// which they came.
pub proof fn law_sorted_by_name_is_stable(s: Seq<PluginStats>, k: Seq<u8>)
    ensures
        with_name_key(sorted_by_name(s), k) == with_name_key(s, k),
    decreases s.len(),
{
    if s.len() > 0 {
        let d = s.drop_last();
        law_sorted_by_name_is_stable(d, k);
        lemma_insert_stable(sorted_by_name(d), s.last(), k);
        d.lemma_filter_push(s.last(), has_name_key(k));
        assert(d.push(s.last()) =~= s);
    }
}

} // verus!
