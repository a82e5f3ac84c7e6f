//! "Either this or that" on kind information: the merge used where two
//! branches of a program meet.

use vstd::prelude::*;
use crate::info::{
    copy_field_entries, copy_index_entries, field_entries_model, find_field, find_index,
    index_entries_model, lemma_field_entries_model, lemma_index_entries_model,
    lemma_lookup_found, lookup, shift, Field, FieldKey, Index, InfoModel, KindInfo, KnownKinds,
    ShapeModel,
};

verus! {

broadcast use vstd::std_specs::vec::group_vec_axioms;

/// Largest explicit position among the entries, or -1 where there is none.
pub open spec fn max_position(s: Seq<(Index, InfoModel)>) -> int
    decreases s.len(),
{
    if s.len() == 0 {
        -1
    } else {
        let m = max_position(s.drop_last());
        match s.last().0 {
            Index::Index(i) => if i > m {
                i as int
            } else {
                m
            },
            Index::Any => m,
        }
    }
}

pub open spec fn shifted(s: Seq<(Index, InfoModel)>, off: int) -> Seq<(Index, InfoModel)> {
    s.map_values(|e: (Index, InfoModel)| (shift(e.0, off), e.1))
}

/// The first `n` entries of `l`, less its wildcard entries where `drop_any`.
pub open spec fn kept_left(
    l: Seq<(Index, InfoModel)>,
    drop_any: bool,
    n: nat,
) -> Seq<(Index, InfoModel)>
    decreases n,
{
    if n == 0 || n > l.len() {
        Seq::empty()
    } else if drop_any && l[n - 1].0 is Any {
        kept_left(l, drop_any, (n - 1) as nat)
    } else {
        kept_left(l, drop_any, (n - 1) as nat).push(l[n - 1])
    }
}

/// Two array shapes merged: the positions of `r` move past the last explicit
/// position of `l`, so that positions of the two never alias. At the wildcard
/// the entry of `r` replaces that of `l`.
pub open spec fn merge_arrays(
    l: Seq<(Index, InfoModel)>,
    r: Seq<(Index, InfoModel)>,
) -> Seq<(Index, InfoModel)> {
    shifted(r, max_position(l) + 1) + kept_left(l, lookup(r, Index::Any) is Some, l.len())
}

/// The merged value of the `i`-th entry of `l`: merged with the entry of `r`
/// under the same field, if there is one.
pub open spec fn merged_item(
    l: Seq<(FieldKey, InfoModel)>,
    r: Seq<(FieldKey, InfoModel)>,
    i: int,
) -> InfoModel
    decreases l, 0nat,
{
    if 0 <= i < l.len() {
        match lookup(r, l[i].0) {
            Some(v) => merge_model(l[i].1, v),
            None => l[i].1,
        }
    } else {
        InfoModel::Unknown
    }
}

/// The first `n` entries of `l`, each merged with the entry of `r` under the
/// same field.
pub open spec fn left_part(
    l: Seq<(FieldKey, InfoModel)>,
    r: Seq<(FieldKey, InfoModel)>,
    n: nat,
) -> Seq<(FieldKey, InfoModel)>
    decreases l, n,
{
    if n == 0 || n > l.len() {
        Seq::empty()
    } else {
        left_part(l, r, (n - 1) as nat).push((l[n - 1].0, merged_item(l, r, n - 1)))
    }
}

/// The entries among the first `n` of `r` whose field `l` does not have.
pub open spec fn right_part(
    l: Seq<(FieldKey, InfoModel)>,
    r: Seq<(FieldKey, InfoModel)>,
    n: nat,
) -> Seq<(FieldKey, InfoModel)>
    decreases n,
{
    if n == 0 || n > r.len() {
        Seq::empty()
    } else if lookup(l, r[n - 1].0) is None {
        right_part(l, r, (n - 1) as nat).push(r[n - 1])
    } else {
        right_part(l, r, (n - 1) as nat)
    }
}

/// Two object shapes merged field by field: a field on both sides holds the
/// merge of the two; a field on one side is copied through.
pub open spec fn merge_objects(
    l: Seq<(FieldKey, InfoModel)>,
    r: Seq<(FieldKey, InfoModel)>,
) -> Seq<(FieldKey, InfoModel)>
    decreases l, l.len() + 1,
{
    left_part(l, r, l.len()) + right_part(l, r, r.len())
}

/// "Either `a` or `b`".
///
/// Where one side is `Unknown` and the other is `Known`, the known side is the
/// result. This departs on purpose from a lattice join, where the top element
/// would absorb the other: partial structural knowledge is kept rather than
/// thrown away.
pub open spec fn merge_model(a: InfoModel, b: InfoModel) -> InfoModel
    decreases a, 1nat,
{
    match (a, b) {
        (InfoModel::Known(x), InfoModel::Known(y)) => InfoModel::Known(
            ShapeModel {
                scalars: x.scalars.spec_union(y.scalars),
                array: match (x.array, y.array) {
                    (Some(l), Some(r)) => Some(merge_arrays(l, r)),
                    (Some(l), None) => Some(l),
                    (None, r) => r,
                },
                object: match (x.object, y.object) {
                    (Some(l), Some(r)) => Some(merge_objects(l, r)),
                    (Some(l), None) => Some(l),
                    (None, r) => r,
                },
            },
        ),
        (InfoModel::Known(_), InfoModel::Unknown) => a,
        (InfoModel::Unknown, InfoModel::Known(_)) => b,
        (InfoModel::Unknown, InfoModel::Unknown) => InfoModel::Unknown,
    }
}

/// Every entry of `l` whose field `r` also has can be merged with it.
pub open spec fn fields_can_merge(
    l: Seq<(FieldKey, InfoModel)>,
    r: Seq<(FieldKey, InfoModel)>,
) -> bool
    decreases l, 0nat,
{
    forall|i: int|
        0 <= i < l.len() ==> match lookup(r, #[trigger] l[i].0) {
            Some(v) => can_merge(l[i].1, v),
            None => true,
        }
}

/// The positions of a merge fit in a `usize`, at every depth where arrays
/// are merged.
pub open spec fn can_merge(a: InfoModel, b: InfoModel) -> bool
    decreases a, 1nat,
{
    match (a, b) {
        (InfoModel::Known(x), InfoModel::Known(y)) => {
            &&& match (x.array, y.array) {
                (Some(l), Some(r)) => max_position(l) + 1 + max_position(r) <= usize::MAX,
                _ => true,
            }
            &&& match (x.object, y.object) {
                (Some(l), Some(r)) => fields_can_merge(l, r),
                _ => true,
            }
        },
        _ => true,
    }
}

/// Every explicit position lies at or below the largest one.
pub proof fn lemma_max_position(s: Seq<(Index, InfoModel)>)
    ensures
        forall|j: int|
            0 <= j < s.len() && #[trigger] s[j].0 is Index ==> s[j].0->Index_0 <= max_position(s),
        max_position(s) >= -1,
        max_position(s) <= usize::MAX,
    decreases s.len(),
{
    if s.len() > 0 {
        lemma_max_position(s.drop_last());
        assert forall|j: int|
            0 <= j < s.len() && #[trigger] s[j].0 is Index implies s[j].0->Index_0 <= max_position(
            s,
        ) by {
            if j < s.len() - 1 {
                assert(s.drop_last()[j] == s[j]);
            }
        }
    }
}

pub proof fn lemma_left_part(l: Seq<(FieldKey, InfoModel)>, r: Seq<(FieldKey, InfoModel)>, n: nat)
    requires
        n <= l.len(),
    ensures
        left_part(l, r, n).len() == n,
        forall|j: int|
            0 <= j < n ==> #[trigger] left_part(l, r, n)[j] == (l[j].0, merged_item(l, r, j)),
    decreases n,
{
    if n > 0 {
        lemma_left_part(l, r, (n - 1) as nat);
    }
}

/// Largest explicit position among the entries, if any.
fn max_explicit(v: &Vec<(Index, KindInfo)>) -> (r: Option<usize>)
    ensures
        match r {
            Some(m) => max_position(index_entries_model(v@, v@.len())) == m as int,
            None => max_position(index_entries_model(v@, v@.len())) == -1,
        },
{
    let mut best: Option<usize> = None;
    let mut i: usize = 0;
    while i < v.len()
        invariant
            i <= v.len(),
            match best {
                Some(m) => max_position(index_entries_model(v@, i as nat)) == m as int,
                None => max_position(index_entries_model(v@, i as nat)) == -1,
            },
        decreases v.len() - i,
    {
        let ghost prev = index_entries_model(v@, i as nat);
        proof {
            assert(index_entries_model(v@, (i + 1) as nat) == prev.push(
                (v@[i as int].0, v@[i as int].1.model()),
            ));
            assert(prev.push((v@[i as int].0, v@[i as int].1.model())).drop_last() =~= prev);
        }
        match v[i].0.to_inner() {
            Some(n) => {
                match best {
                    Some(m) => {
                        if n > m {
                            best = Some(n);
                        }
                    },
                    None => {
                        best = Some(n);
                    },
                }
            },
            None => {},
        }
        i += 1;
    }
    best
}

/// Two array shapes merged as `merge_arrays` says.
fn merge_array_entries(l: &Vec<(Index, KindInfo)>, r: &Vec<(Index, KindInfo)>) -> (out: Vec<
    (Index, KindInfo),
>)
    requires
        max_position(index_entries_model(l@, l@.len())) + 1 + max_position(
            index_entries_model(r@, r@.len()),
        ) <= usize::MAX,
    ensures
        index_entries_model(out@, out@.len()) == merge_arrays(
            index_entries_model(l@, l@.len()),
            index_entries_model(r@, r@.len()),
        ),
{
    let ghost lm = index_entries_model(l@, l@.len());
    let ghost rm = index_entries_model(r@, r@.len());
    let ghost off = max_position(lm) + 1;
    proof {
        lemma_index_entries_model(l@, l@.len());
        lemma_index_entries_model(r@, r@.len());
        lemma_max_position(rm);
        lemma_max_position(lm);
    }
    let top = max_explicit(l);
    let mut out: Vec<(Index, KindInfo)> = Vec::new();
    let mut j: usize = 0;
    while j < r.len()
        invariant
            j <= r.len(),
            out@.len() == j,
            rm.len() == r@.len(),
            forall|m: int| 0 <= m < r@.len() ==> #[trigger] rm[m] == (r@[m].0, r@[m].1.model()),
            forall|m: int|
                0 <= m < rm.len() && #[trigger] rm[m].0 is Index ==> rm[m].0->Index_0
                    <= max_position(rm),
            off + max_position(rm) <= usize::MAX,
            match top {
                Some(t) => off == t + 1,
                None => off == 0,
            },
            forall|m: int|
                0 <= m < j ==> #[trigger] out@[m].0 == shift(r@[m].0, off) && out@[m].1.model()
                    == r@[m].1.model(),
        decreases r.len() - j,
    {
        let k = match r[j].0 {
            Index::Index(n) => {
                assert(rm[j as int].0 == Index::Index(n));
                let off_now: usize = match top {
                    Some(t) => t + 1,
                    None => 0,
                };
                r[j].0.shift(off_now)
            },
            Index::Any => Index::Any,
        };
        let e = r[j].1.copy();
        out.push((k, e));
        j += 1;
    }
    let drop_any = match find_index(r, Index::Any) {
        Some(k) => {
            proof {
                lemma_lookup_found(rm, Index::Any, k as int);
            }
            true
        },
        None => false,
    };
    let ghost kept: Seq<(Index, InfoModel)> = Seq::empty();
    let mut i: usize = 0;
    while i < l.len()
        invariant
            i <= l.len(),
            lm == index_entries_model(l@, l@.len()),
            lm.len() == l@.len(),
            forall|m: int| 0 <= m < l@.len() ==> #[trigger] lm[m] == (l@[m].0, l@[m].1.model()),
            kept == kept_left(lm, drop_any, i as nat),
            out@.len() == r@.len() + kept.len(),
            forall|m: int|
                0 <= m < r@.len() ==> #[trigger] out@[m].0 == shift(r@[m].0, off) && out@[m].1.model()
                    == r@[m].1.model(),
            forall|m: int|
                0 <= m < kept.len() ==> #[trigger] out@[r@.len() + m].0 == kept[m].0 && out@[r@.len()
                    + m].1.model() == kept[m].1,
        decreases l.len() - i,
    {
        let skip = drop_any && match l[i].0 {
            Index::Any => true,
            Index::Index(_) => false,
        };
        if !skip {
            let e = l[i].1.copy();
            let ghost before = out@;
            out.push((l[i].0, e));
            proof {
                assert forall|m: int| 0 <= m < before.len() implies #[trigger] out@[m]
                    == before[m] by {}
                assert forall|m: int| 0 <= m < r@.len() implies #[trigger] out@[m].0 == shift(
                    r@[m].0,
                    off,
                ) && out@[m].1.model() == r@[m].1.model() by {
                    assert(out@[m] == before[m]);
                }
                kept = kept.push(lm[i as int]);
            }
        }
        i += 1;
    }
    proof {
        lemma_index_entries_model(out@, out@.len());
        let want = merge_arrays(lm, rm);
        assert forall|m: int| 0 <= m < out@.len() implies index_entries_model(out@, out@.len())[m]
            == want[m] by {
            if m >= r@.len() {
                assert(out@[r@.len() + (m - r@.len())] == out@[m]);
            }
        }
        assert(index_entries_model(out@, out@.len()) =~= want);
    }
    out
}

/// Two object shapes merged field by field, as `merge_model` says.
fn merge_field_entries(l: &Vec<(Field, KindInfo)>, r: &Vec<(Field, KindInfo)>) -> (out: Vec<
    (Field, KindInfo),
>)
    requires
        fields_can_merge(field_entries_model(l@, l@.len()), field_entries_model(r@, r@.len())),
    ensures
        field_entries_model(out@, out@.len()) == merge_objects(
            field_entries_model(l@, l@.len()),
            field_entries_model(r@, r@.len()),
        ),
    decreases l, 0nat,
{
    let ghost lm = field_entries_model(l@, l@.len());
    let ghost rm = field_entries_model(r@, r@.len());
    proof {
        lemma_field_entries_model(l@, l@.len());
        lemma_field_entries_model(r@, r@.len());
    }
    let mut out: Vec<(Field, KindInfo)> = Vec::new();
    let mut i: usize = 0;
    while i < l.len()
        invariant
            i <= l.len(),
            out@.len() == i,
            lm == field_entries_model(l@, l@.len()),
            rm == field_entries_model(r@, r@.len()),
            lm.len() == l@.len(),
            rm.len() == r@.len(),
            forall|m: int| 0 <= m < l@.len() ==> #[trigger] lm[m] == (l@[m].0@, l@[m].1.model()),
            forall|m: int| 0 <= m < r@.len() ==> #[trigger] rm[m] == (r@[m].0@, r@[m].1.model()),
            fields_can_merge(lm, rm),
            forall|m: int|
                0 <= m < i ==> #[trigger] out@[m].0@ == lm[m].0 && out@[m].1.model()
                    == merged_item(lm, rm, m),
        decreases l.len() - i,
    {
        let e = match find_field(r, &l[i].0) {
            Some(j) => {
                proof {
                    lemma_lookup_found(rm, lm[i as int].0, j as int);
                    assert(decreases_to!(*l => l[i as int]));
                    assert(decreases_to!(l[i as int] => l[i as int].1));
                }
                merge_info(&l[i].1, &r[j].1)
            },
            None => l[i].1.copy(),
        };
        out.push((l[i].0.copy(), e));
        i += 1;
    }
    let ghost rp: Seq<(FieldKey, InfoModel)> = Seq::empty();
    let mut j: usize = 0;
    while j < r.len()
        invariant
            j <= r.len(),
            lm == field_entries_model(l@, l@.len()),
            rm == field_entries_model(r@, r@.len()),
            rm.len() == r@.len(),
            forall|m: int| 0 <= m < r@.len() ==> #[trigger] rm[m] == (r@[m].0@, r@[m].1.model()),
            rp == right_part(lm, rm, j as nat),
            out@.len() == l@.len() + rp.len(),
            forall|m: int|
                0 <= m < l@.len() ==> #[trigger] out@[m].0@ == lm[m].0 && out@[m].1.model()
                    == merged_item(lm, rm, m),
            forall|m: int|
                0 <= m < rp.len() ==> #[trigger] out@[l@.len() + m].0@ == rp[m].0 && out@[l@.len()
                    + m].1.model() == rp[m].1,
        decreases r.len() - j,
    {
        match find_field(l, &r[j].0) {
            Some(k) => {
                proof {
                    lemma_lookup_found(lm, rm[j as int].0, k as int);
                }
            },
            None => {
                let e = r[j].1.copy();
                let ghost before = out@;
                out.push((r[j].0.copy(), e));
                proof {
                    assert forall|m: int| 0 <= m < before.len() implies #[trigger] out@[m]
                        == before[m] by {}
                    assert forall|m: int| 0 <= m < l@.len() implies #[trigger] out@[m].0@ == lm[m].0
                        && out@[m].1.model() == merged_item(lm, rm, m) by {
                        assert(out@[m] == before[m]);
                    }
                    rp = rp.push(rm[j as int]);
                }
            },
        }
        j += 1;
    }
    proof {
        lemma_field_entries_model(out@, out@.len());
        lemma_left_part(lm, rm, l@.len());
        let want = left_part(lm, rm, l@.len()) + right_part(lm, rm, r@.len());
        assert forall|m: int| 0 <= m < out@.len() implies field_entries_model(out@, out@.len())[m]
            == want[m] by {
            if m >= l@.len() {
                assert(out@[l@.len() + (m - l@.len())] == out@[m]);
            }
        }
        assert(field_entries_model(out@, out@.len()) =~= want);
    }
    out
}

/// "Either `a` or `b`": the kind information of an expression that yields
/// what `a` describes or what `b` describes.
pub fn merge_info(a: &KindInfo, b: &KindInfo) -> (r: KindInfo)
    requires
        can_merge(a.model(), b.model()),
    ensures
        r.model() == merge_model(a.model(), b.model()),
    decreases a, 1nat,
{
    match (a, b) {
        (KindInfo::Known(x), KindInfo::Known(y)) => {
            let scalars = x.scalars.union(y.scalars);
            let array = match (&x.array, &y.array) {
                (Some(l), Some(r)) => Some(merge_array_entries(l, r)),
                (Some(l), None) => Some(copy_index_entries(l)),
                (None, Some(r)) => Some(copy_index_entries(r)),
                (None, None) => None,
            };
            let object = match (&x.object, &y.object) {
                (Some(l), Some(r)) => {
                    proof {
                        assert(decreases_to!(*a => a->Known_0));
                        assert(decreases_to!(a->Known_0 => a->Known_0.object));
                        assert(decreases_to!(x.object => x.object->0));
                        lemma_field_entries_model(l@, l@.len());
                        lemma_field_entries_model(r@, r@.len());
                    }
                    Some(merge_field_entries(l, r))
                },
                (Some(l), None) => Some(copy_field_entries(l)),
                (None, Some(r)) => Some(copy_field_entries(r)),
                (None, None) => None,
            };
            let r = KindInfo::Known(KnownKinds { scalars, array, object });
            proof {
                let am = a.model()->Known_0;
                let bm = b.model()->Known_0;
                let rm = r.model()->Known_0;
                assert(rm.scalars == am.scalars.spec_union(bm.scalars));
            }
            r
        },
        (KindInfo::Known(_), KindInfo::Unknown) => a.copy(),
        (KindInfo::Unknown, KindInfo::Known(_)) => b.copy(),
        (KindInfo::Unknown, KindInfo::Unknown) => KindInfo::Unknown,
    }
}

impl KindInfo {
    /// "Either `self` or `rhs`", as `merge_model` says.
    pub fn merge(self, rhs: KindInfo) -> (r: KindInfo)
        requires
            can_merge(self.model(), rhs.model()),
        ensures
            r.model() == merge_model(self.model(), rhs.model()),
    {
        merge_info(&self, &rhs)
    }
}

/// Whether every entry of `l` can be merged with the entry of `r` under the
/// same field.
fn fields_mergeable(l: &Vec<(Field, KindInfo)>, r: &Vec<(Field, KindInfo)>) -> (ok: bool)
    ensures
        ok == fields_can_merge(
            field_entries_model(l@, l@.len()),
            field_entries_model(r@, r@.len()),
        ),
    decreases l, 0nat,
{
    let ghost lm = field_entries_model(l@, l@.len());
    let ghost rm = field_entries_model(r@, r@.len());
    proof {
        lemma_field_entries_model(l@, l@.len());
        lemma_field_entries_model(r@, r@.len());
    }
    let mut i: usize = 0;
    while i < l.len()
        invariant
            i <= l.len(),
            lm == field_entries_model(l@, l@.len()),
            rm == field_entries_model(r@, r@.len()),
            lm.len() == l@.len(),
            rm.len() == r@.len(),
            forall|m: int| 0 <= m < l@.len() ==> #[trigger] lm[m] == (l@[m].0@, l@[m].1.model()),
            forall|m: int| 0 <= m < r@.len() ==> #[trigger] rm[m] == (r@[m].0@, r@[m].1.model()),
            forall|m: int|
                0 <= m < i ==> match lookup(rm, #[trigger] lm[m].0) {
                    Some(v) => can_merge(lm[m].1, v),
                    None => true,
                },
        decreases l.len() - i,
    {
        match find_field(r, &l[i].0) {
            Some(j) => {
                proof {
                    lemma_lookup_found(rm, lm[i as int].0, j as int);
                    assert(decreases_to!(*l => l[i as int]));
                    assert(decreases_to!(l[i as int] => l[i as int].1));
                }
                if !mergeable(&l[i].1, &r[j].1) {
                    return false;
                }
            },
            None => {},
        }
        i += 1;
    }
    true
}

/// Whether `a` and `b` can be merged: the positions of merged arrays fit in
/// a `usize`, at every depth.
pub fn mergeable(a: &KindInfo, b: &KindInfo) -> (ok: bool)
    ensures
        ok == can_merge(a.model(), b.model()),
    decreases a, 1nat,
{
    match (a, b) {
        (KindInfo::Known(x), KindInfo::Known(y)) => {
            let arrays_fit = match (&x.array, &y.array) {
                (Some(l), Some(r)) => match (max_explicit(l), max_explicit(r)) {
                    (Some(p), Some(q)) => p < usize::MAX && q <= usize::MAX - p - 1,
                    _ => {
                        proof {
                            lemma_max_position(index_entries_model(l@, l@.len()));
                            lemma_max_position(index_entries_model(r@, r@.len()));
                        }
                        true
                    },
                },
                _ => true,
            };
            if !arrays_fit {
                return false;
            }
            match (&x.object, &y.object) {
                (Some(l), Some(r)) => {
                    proof {
                        assert(decreases_to!(*a => a->Known_0));
                        assert(decreases_to!(a->Known_0 => a->Known_0.object));
                        assert(decreases_to!(x.object => x.object->0));
                    }
                    fields_mergeable(l, r)
                },
                _ => true,
            }
        },
        _ => true,
    }
}

} // verus!
