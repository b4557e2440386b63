use vstd::prelude::*;

use crate::decl::{parse_outcome, Declaration, GenError, RawModel};
use crate::generate_outcome;
use crate::sample::{weight_total, weights_of};
use crate::resolve::{
    suffix_type, IntType, has_positive, is_redundant, redundant_of, resolve_outcome, resolved_weight, table_of, type_scan,
};

verus! {

/// A declaration that parses, whose weight suffixes agree and that has a
/// positive weight generates a sampler, written from its table in declared
/// order, and that table has a positive weight to draw.
pub proof fn lemma_positive_weight_generates(decl: Declaration, rand_path: Seq<char>)
    requires
        parse_outcome(decl) is Ok,
        type_scan(parse_outcome(decl)->Ok_0) is Ok,
        has_positive(table_of(parse_outcome(decl)->Ok_0)),
    ensures
        generate_outcome(decl, Some(rand_path)) is Ok,
        generate_outcome(decl, Some(rand_path))->Ok_0.1.1 == table_of(parse_outcome(decl)->Ok_0),
        has_positive(generate_outcome(decl, Some(rand_path))->Ok_0.1.1),
{
}

/// A declaration that parses and whose weights are all `0` fails with
/// `AllWeightsZero`.
pub proof fn lemma_all_zero_weights_fail(decl: Declaration, rand_path: Seq<char>)
    requires
        parse_outcome(decl) is Ok,
        forall|i: int|
            0 <= i < parse_outcome(decl)->Ok_0.len() ==> resolved_weight(
                #[trigger] parse_outcome(decl)->Ok_0[i],
            ) == 0,
    ensures
        generate_outcome(decl, Some(rand_path)) == Err::<
            (Seq<char>, (crate::resolve::IntType, Seq<(Seq<char>, u128)>, Seq<usize>)),
            _,
        >(GenError::AllWeightsZero),
{
    let raw = parse_outcome(decl)->Ok_0;
    let t = table_of(raw);
    assert forall|i: int| 0 <= i < t.len() implies !(#[trigger] t[i].1 > 0) by {
        assert(resolved_weight(raw[i]) == 0);
    }
}

/// Whether a parsed variant leaves the weight type open: no literal, or one
/// without a suffix.
pub open spec fn leaves_type_open(m: RawModel) -> bool {
    match m.1 {
        None => true,
        Some(lit) => lit.1.len() == 0,
    }
}

proof fn lemma_type_scan_agree(a: Seq<RawModel>, b: Seq<RawModel>)
    requires
        a.len() == b.len(),
        forall|i: int|
            0 <= i < a.len() ==> a[i] == b[i] || (leaves_type_open(a[i]) && leaves_type_open(
                b[i],
            )),
    ensures
        type_scan(a) == type_scan(b),
    decreases a.len(),
{
    if a.len() > 0 {
        let n = a.len() - 1;
        assert(a[n] == b[n] || (leaves_type_open(a[n]) && leaves_type_open(b[n])));
        lemma_type_scan_agree(a.drop_last(), b.drop_last());
    }
}

proof fn lemma_redundant_positions(s: Seq<RawModel>)
    requires
        s.len() <= usize::MAX,
    ensures
        forall|j: int|
            0 <= j < s.len() ==> (redundant_of(s).contains(j as usize) <==> is_redundant(
                #[trigger] s[j],
            )),
        forall|x: usize| #[trigger] redundant_of(s).contains(x) ==> x < s.len(),
    decreases s.len(),
{
    if s.len() > 0 {
        let p = s.drop_last();
        lemma_redundant_positions(p);
        let n = (s.len() - 1) as usize;
        assert forall|j: int| 0 <= j < s.len() implies (redundant_of(s).contains(j as usize)
            <==> is_redundant(#[trigger] s[j])) by {
            if j < n {
                assert(s[j] == p[j]);
                if is_redundant(s.last()) {
                    if redundant_of(p).contains(j as usize) {
                        let k = choose|k: int| 0 <= k < redundant_of(p).len() && redundant_of(p)[k] == j as usize;
                        assert(redundant_of(s)[k] == j as usize);
                    }
                    if redundant_of(s).contains(j as usize) {
                        let k = choose|k: int| 0 <= k < redundant_of(s).len() && redundant_of(s)[k] == j as usize;
                        if k < redundant_of(p).len() {
                            assert(redundant_of(p)[k] == j as usize);
                        }
                    }
                }
            } else {
                if is_redundant(s.last()) {
                    assert(redundant_of(s)[redundant_of(p).len() as int] == n);
                } else {
                    assert(!redundant_of(p).contains(n));
                }
            }
        }
        assert forall|x: usize| #[trigger] redundant_of(s).contains(x) implies x < s.len() by {
            if is_redundant(s.last()) {
                let k = choose|k: int| 0 <= k < redundant_of(s).len() && redundant_of(s)[k] == x;
                if k < redundant_of(p).len() {
                    assert(redundant_of(p)[k] == x);
                    assert(redundant_of(p).contains(x));
                } else {
                    assert(redundant_of(s)[k] == n);
                }
            } else {
                assert(redundant_of(s) == redundant_of(p));
                assert(redundant_of(p).contains(x));
            }
        }
    }
}

/// Omitting a variant's weight attribute resolves exactly as writing
/// `weight(1)` does (same weight type, same table, same success or failure),
/// except that the written `1` is reported as redundant and the omission is not.
pub proof fn lemma_omitted_weight_is_one(raw: Seq<RawModel>, k: int, attr: usize)
    requires
        raw.len() <= usize::MAX,
        0 <= k < raw.len(),
        raw[k].1 is None,
    ensures
        ({
            let written = raw.update(k, (raw[k].0, Some((1u128, Seq::<char>::empty(), attr))));
            &&& type_scan(written) == type_scan(raw)
            &&& table_of(written) == table_of(raw)
            &&& (resolve_outcome(written) is Ok <==> resolve_outcome(raw) is Ok)
            &&& (resolve_outcome(raw) is Ok ==> resolve_outcome(written)->Ok_0.0 == resolve_outcome(
                raw,
            )->Ok_0.0 && resolve_outcome(written)->Ok_0.1 == resolve_outcome(raw)->Ok_0.1)
            &&& redundant_of(written).contains(k as usize)
            &&& !redundant_of(raw).contains(k as usize)
            &&& forall|j: int|
                0 <= j < raw.len() && j != k ==> (redundant_of(written).contains(j as usize)
                    <==> #[trigger] redundant_of(raw).contains(j as usize))
        }),
{
    let written = raw.update(k, (raw[k].0, Some((1u128, Seq::<char>::empty(), attr))));
    lemma_type_scan_agree(written, raw);
    assert(table_of(written) =~= table_of(raw));
    lemma_redundant_positions(written);
    lemma_redundant_positions(raw);
    assert(is_redundant(written[k]));
    assert forall|j: int| 0 <= j < raw.len() && j != k implies (redundant_of(written).contains(
        j as usize,
    ) <==> #[trigger] redundant_of(raw).contains(j as usize)) by {
        assert(written[j] == raw[j]);
    }
}

proof fn lemma_total_remove(w: Seq<u128>, k: int)
    requires
        0 <= k < w.len(),
    ensures
        weight_total(w) == weight_total(w.remove(k)) + w[k] as int,
    decreases w.len(),
{
    if k == w.len() - 1 {
        assert(w.remove(k) =~= w.drop_last());
    } else {
        assert(w.remove(k).drop_last() =~= w.drop_last().remove(k));
        assert(w.remove(k).last() == w.last());
        lemma_total_remove(w.drop_last(), k);
    }
}

proof fn lemma_total_positive(w: Seq<u128>)
    ensures
        weight_total(w) >= 0,
        weight_total(w) > 0 <==> exists|i: int| 0 <= i < w.len() && #[trigger] w[i] > 0,
    decreases w.len(),
{
    if w.len() > 0 {
        let p = w.drop_last();
        lemma_total_positive(p);
        if weight_total(p) > 0 {
            let i = choose|i: int| 0 <= i < p.len() && #[trigger] p[i] > 0;
            assert(w[i] > 0);
        }
        if exists|i: int| 0 <= i < w.len() && #[trigger] w[i] > 0 {
            let i = choose|i: int| 0 <= i < w.len() && #[trigger] w[i] > 0;
            if i < p.len() {
                assert(p[i] > 0);
            }
        }
    }
}

proof fn lemma_total_permuted(a: Seq<u128>, b: Seq<u128>, perm: Seq<int>)
    requires
        a.len() == b.len(),
        perm.len() == b.len(),
        forall|i: int| 0 <= i < b.len() ==> 0 <= #[trigger] perm[i] < a.len(),
        forall|i: int, j: int|
            0 <= i < b.len() && 0 <= j < b.len() && #[trigger] perm[i] == #[trigger] perm[j]
                ==> i == j,
        forall|i: int| 0 <= i < b.len() ==> #[trigger] b[i] == a[perm[i]],
    ensures
        weight_total(a) == weight_total(b),
    decreases b.len(),
{
    if b.len() > 0 {
        let n = b.len() - 1;
        let k = perm[n];
        let a1 = a.remove(k);
        let b1 = b.drop_last();
        let p1 = Seq::new(n as nat, |i: int| if perm[i] < k { perm[i] } else { perm[i] - 1 });
        assert forall|i: int| 0 <= i < b1.len() implies 0 <= #[trigger] p1[i] < a1.len() by {
            assert(perm[i] != k);
        }
        assert forall|i: int, j: int|
            0 <= i < b1.len() && 0 <= j < b1.len() && #[trigger] p1[i] == #[trigger] p1[j]
                implies i == j by {
            assert(perm[i] != k);
            assert(perm[j] != k);
        }
        assert forall|i: int| 0 <= i < b1.len() implies #[trigger] b1[i] == a1[p1[i]] by {
            assert(perm[i] != k);
            assert(b[i] == a[perm[i]]);
        }
        lemma_total_permuted(a1, b1, p1);
        lemma_total_remove(a, k);
        assert(b[n] == a[k]);
    }
}

/// Reordering the variants reorders their table the same way: each position
/// of the reordered table holds the name and weight of the variant moved there.
/// The weight total is the same, so is each variant's share of it, and so is
/// whether any weight is positive.
pub proof fn lemma_reorder_moves_rows(raw: Seq<RawModel>, perm: Seq<int>, moved: Seq<RawModel>)
    requires
        perm.len() == raw.len(),
        moved.len() == raw.len(),
        forall|i: int| 0 <= i < raw.len() ==> 0 <= #[trigger] perm[i] < raw.len(),
        forall|i: int, j: int|
            0 <= i < raw.len() && 0 <= j < raw.len() && #[trigger] perm[i] == #[trigger] perm[j]
                ==> i == j,
        forall|i: int| 0 <= i < raw.len() ==> #[trigger] moved[i] == raw[perm[i]],
    ensures
        forall|i: int|
            0 <= i < raw.len() ==> #[trigger] table_of(moved)[i] == table_of(raw)[perm[i]],
        weight_total(weights_of(table_of(moved))) == weight_total(weights_of(table_of(raw))),
        has_positive(table_of(moved)) <==> has_positive(table_of(raw)),
{
    let a = weights_of(table_of(raw));
    let b = weights_of(table_of(moved));
    assert forall|i: int| 0 <= i < raw.len() implies #[trigger] table_of(moved)[i] == table_of(
        raw,
    )[perm[i]] by {
        assert(moved[i] == raw[perm[i]]);
    }
    assert forall|i: int| 0 <= i < b.len() implies #[trigger] b[i] == a[perm[i]] by {
        assert(table_of(moved)[i] == table_of(raw)[perm[i]]);
    }
    lemma_total_permuted(a, b, perm);
    lemma_total_positive(a);
    lemma_total_positive(b);
    if has_positive(table_of(raw)) {
        let i = choose|i: int| 0 <= i < table_of(raw).len() && #[trigger] table_of(raw)[i].1 > 0;
        assert(a[i] > 0);
    }
    if exists|i: int| 0 <= i < a.len() && #[trigger] a[i] > 0 {
        let i = choose|i: int| 0 <= i < a.len() && #[trigger] a[i] > 0;
        assert(table_of(raw)[i].1 > 0);
    }
    if has_positive(table_of(moved)) {
        let i = choose|i: int| 0 <= i < table_of(moved).len() && #[trigger] table_of(moved)[i].1 > 0;
        assert(b[i] > 0);
    }
    if exists|i: int| 0 <= i < b.len() && #[trigger] b[i] > 0 {
        let i = choose|i: int| 0 <= i < b.len() && #[trigger] b[i] > 0;
        assert(table_of(moved)[i].1 > 0);
    }
}

/// The type that a suffixed literal names (`None` for an unknown suffix).
pub open spec fn lit_type(m: RawModel) -> Option<IntType> {
    suffix_type(m.1->Some_0.1)
}

/// Every suffix names an integer type, and all name the same one.
pub open spec fn suffixes_agree(s: Seq<RawModel>) -> bool {
    &&& forall|i: int| 0 <= i < s.len() && !leaves_type_open(#[trigger] s[i]) ==> lit_type(s[i]) is Some
    &&& forall|i: int, j: int|
        0 <= i < s.len() && 0 <= j < s.len() && !leaves_type_open(#[trigger] s[i])
            && !leaves_type_open(#[trigger] s[j]) ==> lit_type(s[i]) == lit_type(s[j])
}

/// The suffix check passes exactly when the suffixes agree; the type it fixes
/// is the one every suffix names, and it fixes none exactly when no literal has
/// a suffix.
pub proof fn lemma_type_scan_agreement(s: Seq<RawModel>)
    ensures
        type_scan(s) is Ok <==> suffixes_agree(s),
        type_scan(s) matches Ok(Some(t)) ==> (forall|i: int|
            0 <= i < s.len() && !leaves_type_open(#[trigger] s[i]) ==> lit_type(s[i]) == Some(t)),
        type_scan(s) matches Ok(Some(t)) ==> (exists|i: int|
            0 <= i < s.len() && !leaves_type_open(#[trigger] s[i])),
        type_scan(s) matches Ok(None) ==> (forall|i: int|
            0 <= i < s.len() ==> leaves_type_open(#[trigger] s[i])),
    decreases s.len(),
{
    if s.len() > 0 {
        let p = s.drop_last();
        let n = s.len() - 1;
        lemma_type_scan_agreement(p);
        assert forall|i: int| 0 <= i < p.len() implies #[trigger] p[i] == s[i] by {}
        if suffixes_agree(s) {
            assert forall|i: int| 0 <= i < p.len() && !leaves_type_open(#[trigger] p[i]) implies lit_type(p[i]) is Some by {
                assert(p[i] == s[i]);
            }
            assert forall|i: int, j: int|
                0 <= i < p.len() && 0 <= j < p.len() && !leaves_type_open(#[trigger] p[i])
                    && !leaves_type_open(#[trigger] p[j]) implies lit_type(p[i]) == lit_type(p[j]) by {
                assert(p[i] == s[i] && p[j] == s[j]);
            }
        }
        if leaves_type_open(s[n]) {
            if suffixes_agree(p) {
                assert forall|i: int| 0 <= i < s.len() && !leaves_type_open(#[trigger] s[i]) implies lit_type(s[i]) is Some by {
                    assert(s[i] == p[i]);
                }
                assert forall|i: int, j: int|
                    0 <= i < s.len() && 0 <= j < s.len() && !leaves_type_open(#[trigger] s[i])
                        && !leaves_type_open(#[trigger] s[j]) implies lit_type(s[i]) == lit_type(s[j]) by {
                    assert(s[i] == p[i] && s[j] == p[j]);
                }
            }
            if type_scan(p) matches Ok(Some(t)) {
                let i = choose|i: int| 0 <= i < p.len() && !leaves_type_open(#[trigger] p[i]);
                assert(s[i] == p[i]);
            }
            if type_scan(p) == Ok::<Option<IntType>, GenError>(None) {
                assert forall|i: int| 0 <= i < s.len() implies leaves_type_open(#[trigger] s[i]) by {
                    if i < n {
                        assert(s[i] == p[i]);
                    }
                }
            }
        } else if type_scan(p) is Ok {
            if lit_type(s[n]) is None {
                assert(!suffixes_agree(s));
            } else {
                let u = lit_type(s[n])->Some_0;
                match type_scan(p) {
                    Ok(None) => {
                        assert forall|i: int| 0 <= i < s.len() && !leaves_type_open(#[trigger] s[i]) implies lit_type(s[i]) == Some(u) by {
                            if i < n {
                                assert(s[i] == p[i]);
                            }
                        }
                    },
                    Ok(Some(t0)) => {
                        if t0 == u {
                            assert forall|i: int| 0 <= i < s.len() && !leaves_type_open(#[trigger] s[i]) implies lit_type(s[i]) == Some(u) by {
                                if i < n {
                                    assert(s[i] == p[i]);
                                }
                            }
                        } else {
                            let i = choose|i: int| 0 <= i < p.len() && !leaves_type_open(#[trigger] p[i]);
                            assert(s[i] == p[i]);
                            assert(!leaves_type_open(s[i]) && !leaves_type_open(s[n]));
                            assert(!suffixes_agree(s));
                        }
                    },
                    Err(_) => {},
                }
            }
        }
    }
}

/// Some position is sent to `k`.
pub open spec fn reached(perm: Seq<int>, k: int) -> bool {
    exists|i: int| 0 <= i < perm.len() && perm[i] == k
}

/// Reordering the variants neither makes nor breaks the suffix check, nor the
/// presence of a positive weight: the reordered declaration resolves exactly
/// when the original does, and to the same weight type.
pub proof fn lemma_reorder_keeps_validity(raw: Seq<RawModel>, perm: Seq<int>, moved: Seq<RawModel>)
    requires
        perm.len() == raw.len(),
        moved.len() == raw.len(),
        forall|i: int| 0 <= i < raw.len() ==> 0 <= #[trigger] perm[i] < raw.len(),
        forall|i: int, j: int|
            0 <= i < raw.len() && 0 <= j < raw.len() && #[trigger] perm[i] == #[trigger] perm[j]
                ==> i == j,
        forall|k: int| 0 <= k < raw.len() ==> #[trigger] reached(perm, k),
        forall|i: int| 0 <= i < raw.len() ==> #[trigger] moved[i] == raw[perm[i]],
    ensures
        type_scan(moved) is Ok <==> type_scan(raw) is Ok,
        resolve_outcome(moved) is Ok <==> resolve_outcome(raw) is Ok,
        resolve_outcome(raw) is Ok ==> resolve_outcome(moved)->Ok_0.0 == resolve_outcome(raw)->Ok_0.0,
{
    lemma_reorder_moves_rows(raw, perm, moved);
    lemma_type_scan_agreement(raw);
    lemma_type_scan_agreement(moved);
    if suffixes_agree(raw) {
        assert forall|i: int| 0 <= i < moved.len() && !leaves_type_open(#[trigger] moved[i]) implies lit_type(moved[i]) is Some by {
            assert(moved[i] == raw[perm[i]]);
        }
        assert forall|i: int, j: int|
            0 <= i < moved.len() && 0 <= j < moved.len() && !leaves_type_open(#[trigger] moved[i])
                && !leaves_type_open(#[trigger] moved[j]) implies lit_type(moved[i]) == lit_type(moved[j]) by {
            assert(moved[i] == raw[perm[i]] && moved[j] == raw[perm[j]]);
        }
    }
    if suffixes_agree(moved) {
        assert forall|k: int| 0 <= k < raw.len() && !leaves_type_open(#[trigger] raw[k]) implies lit_type(raw[k]) is Some by {
            assert(reached(perm, k));
            let i = choose|i: int| 0 <= i < raw.len() && #[trigger] perm[i] == k;
            assert(moved[i] == raw[k]);
        }
        assert forall|k: int, l: int|
            0 <= k < raw.len() && 0 <= l < raw.len() && !leaves_type_open(#[trigger] raw[k])
                && !leaves_type_open(#[trigger] raw[l]) implies lit_type(raw[k]) == lit_type(raw[l]) by {
            assert(reached(perm, k) && reached(perm, l));
            let i = choose|i: int| 0 <= i < raw.len() && #[trigger] perm[i] == k;
            let j = choose|j: int| 0 <= j < raw.len() && #[trigger] perm[j] == l;
            assert(moved[i] == raw[k] && moved[j] == raw[l]);
        }
    }
    if type_scan(raw) is Ok && type_scan(moved) is Ok {
        match type_scan(raw) {
            Ok(Some(t)) => {
                let k = choose|k: int| 0 <= k < raw.len() && !leaves_type_open(#[trigger] raw[k]);
                assert(reached(perm, k));
                let i = choose|i: int| 0 <= i < raw.len() && #[trigger] perm[i] == k;
                assert(moved[i] == raw[k]);
                assert(!leaves_type_open(moved[i]));
            },
            Ok(None) => {
                if type_scan(moved) matches Ok(Some(t)) {
                    let i = choose|i: int| 0 <= i < moved.len() && !leaves_type_open(#[trigger] moved[i]);
                    assert(moved[i] == raw[perm[i]]);
                    assert(leaves_type_open(raw[perm[i]]));
                }
            },
            Err(_) => {},
        }
    }
}

} // verus!
