//! The mathematical model of vertex deduplication: scan the index list in
//! order, keep the first occurrence of every referenced vertex value, and
//! renumber the indices to point into the kept list.

use vstd::prelude::*;

use crate::vertex::Vertex;

verus! {

/// Index of the first occurrence of `v` in `s`, or -1 when `v` is absent.
pub open spec fn find_vertex(s: Seq<Vertex>, v: Vertex) -> int
    decreases s.len(),
{
    if s.len() == 0 {
        -1
    } else if s[0] == v {
        0
    } else {
        let r = find_vertex(s.drop_first(), v);
        if r == -1 {
            -1
        } else {
            r + 1
        }
    }
}

/// Every index points below the vertex count.
pub open spec fn indices_valid(vs: Seq<Vertex>, idx: Seq<u16>) -> bool {
    forall|k: int| 0 <= k < idx.len() ==> (idx[k] as int) < vs.len()
}

/// The vertices kept after processing the first `n` indices: each referenced
/// value, at its first appearance, in reference order.
pub open spec fn dedup_verts(vs: Seq<Vertex>, idx: Seq<u16>, n: int) -> Seq<Vertex>
    decreases n,
{
    if n <= 0 {
        Seq::empty()
    } else {
        let prev = dedup_verts(vs, idx, n - 1);
        let v = vs[idx[n - 1] as int];
        if find_vertex(prev, v) >= 0 {
            prev
        } else {
            prev.push(v)
        }
    }
}

/// The renumbered index list after processing the first `n` indices.
pub open spec fn dedup_indices(vs: Seq<Vertex>, idx: Seq<u16>, n: int) -> Seq<u16>
    decreases n,
{
    if n <= 0 {
        Seq::empty()
    } else {
        let prev = dedup_verts(vs, idx, n - 1);
        let previ = dedup_indices(vs, idx, n - 1);
        let v = vs[idx[n - 1] as int];
        let f = find_vertex(prev, v);
        if f >= 0 {
            previ.push(f as u16)
        } else {
            previ.push(prev.len() as u16)
        }
    }
}

pub proof fn lemma_find_props(s: Seq<Vertex>, v: Vertex)
    ensures
        find_vertex(s, v) == -1 ==> forall|i: int| 0 <= i < s.len() ==> s[i] != v,
        find_vertex(s, v) != -1 ==> 0 <= find_vertex(s, v) < s.len() && s[find_vertex(s, v)] == v
            && (forall|i: int| 0 <= i < find_vertex(s, v) ==> s[i] != v),
    decreases s.len(),
{
    if s.len() == 0 {
    } else if s[0] == v {
    } else {
        lemma_find_props(s.drop_first(), v);
        let r = find_vertex(s.drop_first(), v);
        if r == -1 {
            assert forall|i: int| 0 <= i < s.len() implies s[i] != v by {
                if i > 0 {
                    assert(s.drop_first()[i - 1] == s[i]);
                }
            }
        } else {
            assert(s.drop_first()[r] == s[r + 1]);
            assert forall|i: int| 0 <= i < r + 1 implies s[i] != v by {
                if i > 0 {
                    assert(s.drop_first()[i - 1] == s[i]);
                }
            }
        }
    }
}

/// The first-occurrence index is determined by an exhibit: a position whose
/// value matches while everything before it differs.
pub proof fn lemma_find_at(s: Seq<Vertex>, v: Vertex, p: int)
    requires
        0 <= p < s.len(),
        s[p] == v,
        forall|i: int| 0 <= i < p ==> s[i] != v,
    ensures
        find_vertex(s, v) == p,
    decreases s.len(),
{
    if p == 0 {
    } else {
        assert(s[0] != v);
        assert(s.drop_first()[p - 1] == s[p]);
        assert forall|i: int| 0 <= i < p - 1 implies s.drop_first()[i] != v by {
            assert(s.drop_first()[i] == s[i + 1]);
        }
        lemma_find_at(s.drop_first(), v, p - 1);
    }
}

/// In a duplicate-free sequence, any prefix containing position `j` finds
/// the value at `j` exactly there.
pub proof fn lemma_find_in_prefix(s: Seq<Vertex>, j: int, m: int)
    requires
        0 <= j < m <= s.len(),
        forall|a: int, b: int| 0 <= a < b < s.len() ==> s[a] != s[b],
    ensures
        find_vertex(s.take(m), s[j]) == j,
{
    assert(s.take(m)[j] == s[j]);
    assert forall|i: int| 0 <= i < j implies s.take(m)[i] != s[j] by {
        assert(s.take(m)[i] == s[i]);
    }
    lemma_find_at(s.take(m), s[j], j);
}

/// The value occurs somewhere in `vs`.
pub open spec fn appears_in(v: Vertex, vs: Seq<Vertex>) -> bool {
    exists|p: int| 0 <= p < vs.len() && vs[p] == v
}

/// The set of first-occurrence positions in `vs` of the first `n` kept
/// vertices.
spec fn occ_set(kept: Seq<Vertex>, vs: Seq<Vertex>, n: int) -> Set<int>
    decreases n,
{
    if n <= 0 {
        Set::empty()
    } else {
        occ_set(kept, vs, n - 1).insert(find_vertex(vs, kept[n - 1]))
    }
}

proof fn lemma_occ_set_props(kept: Seq<Vertex>, vs: Seq<Vertex>, n: int)
    requires
        0 <= n <= kept.len(),
        forall|a: int, b: int| 0 <= a < b < kept.len() ==> kept[a] != kept[b],
        forall|j: int| 0 <= j < kept.len() ==> appears_in(#[trigger] kept[j], vs),
    ensures
        occ_set(kept, vs, n).finite(),
        occ_set(kept, vs, n).len() == n,
        forall|x: int|
            occ_set(kept, vs, n).contains(x) <==> exists|i: int|
                0 <= i < n && x == find_vertex(vs, #[trigger] kept[i]),
        forall|x: int| occ_set(kept, vs, n).contains(x) ==> 0 <= x < vs.len() && exists|i: int|
            0 <= i < n && vs[x] == #[trigger] kept[i] && (forall|y: int|
                0 <= y < x ==> vs[y] != kept[i]),
    decreases n,
{
    broadcast use vstd::set::group_set_axioms;

    if n <= 0 {
    } else {
        lemma_occ_set_props(kept, vs, n - 1);
        let prev = occ_set(kept, vs, n - 1);
        let v = kept[n - 1];
        let f = find_vertex(vs, v);
        lemma_find_props(vs, v);
        assert(appears_in(kept[n - 1], vs));
        let p0 = choose|p: int| 0 <= p < vs.len() && vs[p] == kept[n - 1];
        if f == -1 {
            assert(vs[p0] != v);
            assert(false);
        }
        assert(0 <= f < vs.len() && vs[f] == v);
        if prev.contains(f) {
            let i0 = choose|i: int| 0 <= i < n - 1 && f == find_vertex(vs, #[trigger] kept[i]);
            lemma_find_props(vs, kept[i0]);
            assert(vs[f] == kept[i0]);
            assert(kept[i0] != kept[n - 1]);
            assert(false);
        }
        assert(occ_set(kept, vs, n) == prev.insert(f));
        assert(occ_set(kept, vs, n).len() == n);
        assert forall|x: int|
            occ_set(kept, vs, n).contains(x) implies 0 <= x < vs.len() && exists|i: int|
            0 <= i < n && vs[x] == #[trigger] kept[i] && (forall|y: int|
                0 <= y < x ==> vs[y] != kept[i]) by {
            if x == f && !prev.contains(x) {
                assert(vs[f] == kept[n - 1]);
                assert(forall|y: int| 0 <= y < f ==> vs[y] != kept[n - 1]);
            }
        }
    }
}

/// Pigeonhole: a duplicate-free sequence whose values all occur in `vs`
/// cannot be longer than `vs`.
pub proof fn lemma_distinct_bound(kept: Seq<Vertex>, vs: Seq<Vertex>)
    requires
        forall|a: int, b: int| 0 <= a < b < kept.len() ==> kept[a] != kept[b],
        forall|j: int| 0 <= j < kept.len() ==> appears_in(#[trigger] kept[j], vs),
    ensures
        kept.len() <= vs.len(),
{
    broadcast use vstd::set::group_set_axioms;

    lemma_occ_set_props(kept, vs, kept.len() as int);
    let s = occ_set(kept, vs, kept.len() as int);
    let range = vstd::set_lib::set_int_range(0, vs.len() as int);
    vstd::set_lib::lemma_int_range(0, vs.len() as int);
    assert forall|x: int| s.contains(x) implies range.contains(x) by {}
    vstd::set_lib::lemma_len_subset(s, range);
}

/// Pigeonhole, strictly: if `vs` itself holds a duplicate pair, a
/// duplicate-free sequence of its values is strictly shorter than `vs`.
pub proof fn lemma_distinct_bound_strict(kept: Seq<Vertex>, vs: Seq<Vertex>, p: int, q: int)
    requires
        forall|a: int, b: int| 0 <= a < b < kept.len() ==> kept[a] != kept[b],
        forall|j: int| 0 <= j < kept.len() ==> appears_in(#[trigger] kept[j], vs),
        0 <= p < q < vs.len(),
        vs[p] == vs[q],
    ensures
        kept.len() < vs.len(),
{
    broadcast use vstd::set::group_set_axioms;

    lemma_occ_set_props(kept, vs, kept.len() as int);
    let s = occ_set(kept, vs, kept.len() as int);
    let range = vstd::set_lib::set_int_range(0, vs.len() as int).remove(q);
    vstd::set_lib::lemma_int_range(0, vs.len() as int);
    assert(vstd::set_lib::set_int_range(0, vs.len() as int).contains(q));
    assert(range.len() == vs.len() - 1);
    assert forall|x: int| s.contains(x) implies range.contains(x) by {
        if x == q {
            let i0 = choose|i: int|
                0 <= i < kept.len() && vs[x] == #[trigger] kept[i] && (forall|y: int|
                    0 <= y < x ==> vs[y] != kept[i]);
            assert(vs[p] != kept[i0]);
            assert(vs[p] == vs[q]);
            assert(vs[q] == kept[i0]);
            assert(false);
        }
    }
    vstd::set_lib::lemma_len_subset(s, range);
}

/// One of the first `n` input indices references this vertex value.
pub open spec fn referenced(v: Vertex, vs: Seq<Vertex>, idx: Seq<u16>, n: int) -> bool {
    exists|k: int| 0 <= k < n && vs[#[trigger] idx[k] as int] == v
}

/// Structural facts of the deduplication model, by induction on the number
/// of processed indices: the output index list keeps its length, the kept
/// vertices are duplicate-free referenced values no more numerous than the
/// input vertices, and every output index points at the kept copy of the
/// vertex its input index referenced.
pub proof fn lemma_dedup_props(vs: Seq<Vertex>, idx: Seq<u16>, n: int)
    requires
        0 <= n <= idx.len(),
        vs.len() <= 65536,
        forall|k: int| 0 <= k < n ==> (#[trigger] idx[k] as int) < vs.len(),
    ensures
        dedup_indices(vs, idx, n).len() == n,
        dedup_verts(vs, idx, n).len() <= vs.len(),
        forall|a: int, b: int|
            0 <= a < b < dedup_verts(vs, idx, n).len() ==> dedup_verts(vs, idx, n)[a]
                != dedup_verts(vs, idx, n)[b],
        forall|j: int|
            0 <= j < dedup_verts(vs, idx, n).len() ==> referenced(
                #[trigger] dedup_verts(vs, idx, n)[j],
                vs,
                idx,
                n,
            ),
        forall|k: int|
            0 <= k < n ==> (#[trigger] dedup_indices(vs, idx, n)[k] as int) < dedup_verts(
                vs,
                idx,
                n,
            ).len() && dedup_verts(vs, idx, n)[dedup_indices(vs, idx, n)[k] as int] == vs[idx[k] as int],
    decreases n,
{
    if n <= 0 {
    } else {
        lemma_dedup_props(vs, idx, n - 1);
        let prev = dedup_verts(vs, idx, n - 1);
        let previ = dedup_indices(vs, idx, n - 1);
        let dd = dedup_verts(vs, idx, n);
        let di = dedup_indices(vs, idx, n);
        let v = vs[idx[n - 1] as int];
        lemma_find_props(prev, v);
        let f = find_vertex(prev, v);
        assert forall|j: int| 0 <= j < prev.len() implies appears_in(#[trigger] prev[j], vs) by {
            assert(referenced(prev[j], vs, idx, n - 1));
            let k0 = choose|k: int| 0 <= k < n - 1 && vs[#[trigger] idx[k] as int] == prev[j];
            assert(vs[idx[k0] as int] == prev[j]);
        }
        if f >= 0 {
            assert(dd == prev);
            assert(di == previ.push(f as u16));
            assert(di[n - 1] == f as u16);
            assert forall|j: int| 0 <= j < dd.len() implies referenced(
                #[trigger] dd[j],
                vs,
                idx,
                n,
            ) by {
                assert(referenced(prev[j], vs, idx, n - 1));
                let k0 = choose|k: int| 0 <= k < n - 1 && vs[#[trigger] idx[k] as int] == prev[j];
                assert(vs[idx[k0] as int] == dd[j]);
            }
            assert forall|k: int|
                0 <= k < n implies (#[trigger] di[k] as int) < dd.len() && dd[di[k] as int]
                == vs[idx[k] as int] by {
                if k < n - 1 {
                    assert(di[k] == previ[k]);
                }
            }
        } else {
            assert(dd == prev.push(v));
            assert(di == previ.push(prev.len() as u16));
            assert(forall|i: int| 0 <= i < prev.len() ==> prev[i] != v);
            assert forall|a: int, b: int| 0 <= a < b < dd.len() implies dd[a] != dd[b] by {
                if b < prev.len() {
                    assert(dd[a] == prev[a] && dd[b] == prev[b]);
                } else {
                    assert(dd[b] == v && dd[a] == prev[a]);
                }
            }
            assert forall|j: int| 0 <= j < dd.len() implies referenced(
                #[trigger] dd[j],
                vs,
                idx,
                n,
            ) by {
                if j < prev.len() {
                    assert(dd[j] == prev[j]);
                    assert(referenced(prev[j], vs, idx, n - 1));
                    let k0 = choose|k: int|
                        0 <= k < n - 1 && vs[#[trigger] idx[k] as int] == prev[j];
                    assert(vs[idx[k0] as int] == dd[j]);
                } else {
                    assert(dd[j] == v);
                    assert(vs[idx[n - 1] as int] == dd[j]);
                }
            }
            assert forall|j: int| 0 <= j < dd.len() implies appears_in(#[trigger] dd[j], vs) by {
                assert(referenced(dd[j], vs, idx, n));
                let k0 = choose|k: int| 0 <= k < n && vs[#[trigger] idx[k] as int] == dd[j];
                assert(vs[idx[k0] as int] == dd[j]);
            }
            lemma_distinct_bound(dd, vs);
            assert(prev.len() <= 65535);
            assert forall|k: int|
                0 <= k < n implies (#[trigger] di[k] as int) < dd.len() && dd[di[k] as int]
                == vs[idx[k] as int] by {
                if k < n - 1 {
                    assert(di[k] == previ[k]);
                    assert((previ[k] as int) < prev.len());
                    assert(dd[previ[k] as int] == prev[previ[k] as int]);
                } else {
                    assert(di[n - 1] == prev.len() as u16);
                    assert(dd[prev.len() as int] == v);
                }
            }
        }
    }
}

/// One past the largest renumbered index seen among the first `k` output
/// indices; because new vertices are numbered densely, this equals the
/// number of vertices kept so far.
pub open spec fn seen(di: Seq<u16>, k: int) -> int
    decreases k,
{
    if k <= 0 {
        0
    } else {
        let prev = seen(di, k - 1);
        let c = di[k - 1] as int + 1;
        if c > prev {
            c
        } else {
            prev
        }
    }
}

proof fn lemma_seen_prefix(d1: Seq<u16>, d2: Seq<u16>, k: int)
    requires
        0 <= k <= d1.len(),
        k <= d2.len(),
        forall|i: int| 0 <= i < k ==> d1[i] == d2[i],
    ensures
        seen(d1, k) == seen(d2, k),
    decreases k,
{
    if k > 0 {
        lemma_seen_prefix(d1, d2, k - 1);
    }
}

/// Deduplicating a shorter prefix of the index list yields a prefix of the
/// full result, for both the kept vertices and the renumbered indices.
pub proof fn lemma_dedup_prefix(vs: Seq<Vertex>, idx: Seq<u16>, m: int, n: int)
    requires
        0 <= m <= n <= idx.len(),
    ensures
        dedup_indices(vs, idx, m) == dedup_indices(vs, idx, n).take(m),
        dedup_verts(vs, idx, m) == dedup_verts(vs, idx, n).take(
            dedup_verts(vs, idx, m).len() as int,
        ),
        dedup_verts(vs, idx, m).len() <= dedup_verts(vs, idx, n).len(),
    decreases n - m,
{
    if m == n {
        assert(dedup_indices(vs, idx, n).take(n) =~= dedup_indices(vs, idx, n)) by {
            lemma_dedup_len(vs, idx, n);
        }
        assert(dedup_verts(vs, idx, n).take(dedup_verts(vs, idx, n).len() as int) =~= dedup_verts(
            vs,
            idx,
            n,
        ));
    } else {
        lemma_dedup_prefix(vs, idx, m, n - 1);
        lemma_dedup_len(vs, idx, n - 1);
        lemma_dedup_len(vs, idx, n);
        let ddp = dedup_verts(vs, idx, n - 1);
        let dip = dedup_indices(vs, idx, n - 1);
        let dd = dedup_verts(vs, idx, n);
        let di = dedup_indices(vs, idx, n);
        assert(dip == di.take(n - 1)) by {
            assert(di == dip.push(di[n - 1]));
            assert(dip =~= di.take(n - 1));
        }
        assert(dedup_indices(vs, idx, m) =~= di.take(m)) by {
            assert(dedup_indices(vs, idx, m) == dip.take(m));
        }
        assert(ddp == dd.take(ddp.len() as int)) by {
            if dd == ddp {
                assert(ddp =~= dd.take(ddp.len() as int));
            } else {
                assert(dd == ddp.push(dd[dd.len() - 1]));
                assert(ddp =~= dd.take(ddp.len() as int));
            }
        }
        let lm = dedup_verts(vs, idx, m).len() as int;
        assert(dedup_verts(vs, idx, m) =~= dd.take(lm)) by {
            assert(dedup_verts(vs, idx, m) == ddp.take(lm));
        }
    }
}

proof fn lemma_dedup_len(vs: Seq<Vertex>, idx: Seq<u16>, n: int)
    requires
        0 <= n <= idx.len(),
    ensures
        dedup_indices(vs, idx, n).len() == n,
        dedup_verts(vs, idx, n).len() <= n,
    decreases n,
{
    if n > 0 {
        lemma_dedup_len(vs, idx, n - 1);
    }
}

/// The dense-numbering invariant: the vertex count kept after `k` steps is
/// exactly one past the largest renumbered index produced so far.
proof fn lemma_dedup_seen(vs: Seq<Vertex>, idx: Seq<u16>, n: int)
    requires
        0 <= n <= idx.len(),
        vs.len() <= 65536,
        forall|k: int| 0 <= k < n ==> (#[trigger] idx[k] as int) < vs.len(),
    ensures
        seen(dedup_indices(vs, idx, n), n) == dedup_verts(vs, idx, n).len(),
    decreases n,
{
    if n > 0 {
        lemma_dedup_seen(vs, idx, n - 1);
        lemma_dedup_len(vs, idx, n - 1);
        lemma_dedup_props(vs, idx, n - 1);
        let ddp = dedup_verts(vs, idx, n - 1);
        let dip = dedup_indices(vs, idx, n - 1);
        let di = dedup_indices(vs, idx, n);
        let v = vs[idx[n - 1] as int];
        lemma_find_props(ddp, v);
        lemma_seen_prefix(di, dip, n - 1);
        let f = find_vertex(ddp, v);
        if f >= 0 {
            assert(di[n - 1] == f as u16);
            assert(f < ddp.len());
        } else {
            assert(ddp.len() <= 65535) by {
                lemma_dedup_props(vs, idx, n);
            }
            assert(di[n - 1] == ddp.len() as u16);
        }
    }
}

proof fn lemma_dedup_idem_step(vs: Seq<Vertex>, idx: Seq<u16>, k: int)
    requires
        indices_valid(vs, idx),
        vs.len() <= 65536,
        0 <= k <= idx.len(),
    ensures
        dedup_verts(
            dedup_verts(vs, idx, idx.len() as int),
            dedup_indices(vs, idx, idx.len() as int),
            k,
        ) == dedup_verts(vs, idx, idx.len() as int).take(
            seen(dedup_indices(vs, idx, idx.len() as int), k),
        ),
        dedup_indices(
            dedup_verts(vs, idx, idx.len() as int),
            dedup_indices(vs, idx, idx.len() as int),
            k,
        ) == dedup_indices(vs, idx, idx.len() as int).take(k),
    decreases k,
{
    let nn = idx.len() as int;
    let dd = dedup_verts(vs, idx, nn);
    let di = dedup_indices(vs, idx, nn);
    lemma_dedup_props(vs, idx, nn);
    lemma_dedup_len(vs, idx, nn);
    if k <= 0 {
        assert(dd.take(0) =~= Seq::<Vertex>::empty());
        assert(di.take(0) =~= Seq::<u16>::empty());
    } else {
        lemma_dedup_idem_step(vs, idx, k - 1);
        lemma_dedup_prefix(vs, idx, k - 1, nn);
        lemma_dedup_prefix(vs, idx, k, nn);
        lemma_dedup_seen(vs, idx, k - 1);
        lemma_dedup_seen(vs, idx, k);
        lemma_seen_prefix(di, dedup_indices(vs, idx, k - 1), k - 1);
        lemma_seen_prefix(di, dedup_indices(vs, idx, k), k);
        let sk = seen(di, k - 1);
        assert(sk == dedup_verts(vs, idx, k - 1).len());
        assert(seen(di, k) == dedup_verts(vs, idx, k).len());
        // the first pass at step k, to learn whether di[k-1] was fresh
        let ddp = dedup_verts(vs, idx, k - 1);
        let v = vs[idx[k - 1] as int];
        lemma_find_props(ddp, v);
        let f = find_vertex(ddp, v);
        assert(dedup_indices(vs, idx, k)[k - 1] == di[k - 1]) by {
            lemma_dedup_prefix(vs, idx, k, nn);
            assert(dedup_indices(vs, idx, k) == di.take(k));
        }
        // the second pass at step k processes dd[di[k-1]]
        let kept = dd.take(sk);
        let w = dd[di[k - 1] as int];
        if f >= 0 {
            assert(di[k - 1] as int == f);
            assert(seen(di, k) == sk);
            lemma_find_in_prefix(dd, f as int, sk);
            assert(ddp == dd.take(sk));
            assert(find_vertex(kept, w) == f);
            assert(dedup_verts(dd, di, k) == kept);
            assert(dedup_indices(dd, di, k) == di.take(k - 1).push(f as u16));
            assert(di.take(k - 1).push(di[k - 1]) =~= di.take(k));
        } else {
            assert(di[k - 1] as int == sk);
            assert(seen(di, k) == sk + 1);
            assert(dedup_verts(vs, idx, k) == ddp.push(v));
            assert(w == dd[sk]);
            if find_vertex(kept, w) >= 0 {
                lemma_find_props(kept, w);
                let g = find_vertex(kept, w);
                assert(kept[g] == dd[sk]);
                assert(kept[g] == dd[g]);
                assert(false);
            }
            assert(dedup_verts(dd, di, k) == kept.push(w));
            assert(kept.push(w) =~= dd.take(sk + 1)) by {
                assert(dedup_verts(vs, idx, k) == dd.take(sk + 1));
            }
            assert(kept.len() == sk);
            assert(dedup_indices(dd, di, k) == di.take(k - 1).push(sk as u16));
            assert(sk as u16 == di[k - 1]);
            assert(di.take(k - 1).push(di[k - 1]) =~= di.take(k));
        }
    }
}

/// Deduplication is idempotent: running the pass again over its own output
/// changes nothing, neither the kept vertices nor the renumbered indices.
pub proof fn lemma_dedup_idempotent(vs: Seq<Vertex>, idx: Seq<u16>)
    requires
        indices_valid(vs, idx),
        vs.len() <= 65536,
    ensures
        dedup_verts(
            dedup_verts(vs, idx, idx.len() as int),
            dedup_indices(vs, idx, idx.len() as int),
            dedup_indices(vs, idx, idx.len() as int).len() as int,
        ) == dedup_verts(vs, idx, idx.len() as int),
        dedup_indices(
            dedup_verts(vs, idx, idx.len() as int),
            dedup_indices(vs, idx, idx.len() as int),
            dedup_indices(vs, idx, idx.len() as int).len() as int,
        ) == dedup_indices(vs, idx, idx.len() as int),
{
    let nn = idx.len() as int;
    let dd = dedup_verts(vs, idx, nn);
    let di = dedup_indices(vs, idx, nn);
    lemma_dedup_len(vs, idx, nn);
    lemma_dedup_idem_step(vs, idx, nn);
    lemma_dedup_seen(vs, idx, nn);
    assert(dd.take(seen(di, nn)) =~= dd);
    assert(di.take(nn) =~= di);
}

} // verus!
