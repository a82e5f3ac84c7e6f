//! What holds of merging, projecting and building kind information, over
//! the abstract model.

use vstd::prelude::*;
use crate::info::{
    first_at, info_contains, kind_of, lemma_lookup_found, lookup, FieldKey, Index, InfoModel,
    TypeKind,
};
use crate::merge::{
    can_merge, fields_can_merge, kept_left, lemma_left_part, max_position, merge_arrays,
    merge_model, merge_objects, merged_item, right_part, shifted,
};
use crate::project::at_path_model;
use crate::kind::Kind;
use crate::path::SegmentModel;
use crate::type_def::{is_exactly, merge_def, with_array, TypeDefModel};

verus! {

/// Kind information on which merging with itself changes nothing: every array
/// that a merge would combine lists only the wildcard position, and every
/// object lists each field once.
pub open spec fn self_merge_ready(a: InfoModel) -> bool
    decreases a,
{
    match a {
        InfoModel::Unknown => true,
        InfoModel::Known(sh) => {
            &&& match sh.array {
                Some(l) => forall|j: int| 0 <= j < l.len() ==> (#[trigger] l[j]).0 is Any,
                None => true,
            }
            &&& match sh.object {
                Some(o) => {
                    &&& forall|i: int, j: int|
                        0 <= i < j < o.len() ==> (#[trigger] o[i]).0 != (#[trigger] o[j]).0
                    &&& forall|j: int| 0 <= j < o.len() ==> self_merge_ready((#[trigger] o[j]).1)
                },
                None => true,
            }
        },
    }
}

proof fn lemma_wildcards_only(l: Seq<(Index, InfoModel)>, n: nat)
    requires
        n <= l.len(),
        forall|j: int| 0 <= j < l.len() ==> (#[trigger] l[j]).0 is Any,
    ensures
        kept_left(l, true, n) == Seq::<(Index, InfoModel)>::empty(),
        max_position(l.take(n as int)) == -1,
    decreases n,
{
    if n > 0 {
        lemma_wildcards_only(l, (n - 1) as nat);
        assert(l.take(n as int).drop_last() =~= l.take(n - 1));
    }
}

proof fn lemma_right_part_self(o: Seq<(FieldKey, InfoModel)>, n: nat)
    requires
        n <= o.len(),
    ensures
        right_part(o, o, n) == Seq::<(FieldKey, InfoModel)>::empty(),
    decreases n,
{
    if n > 0 {
        lemma_right_part_self(o, (n - 1) as nat);
        let k = o[n - 1].0;
        assert(exists|j: int| first_at(o, k, j)) by {
            lemma_first_exists(o, k, n - 1);
        }
    }
}

/// Where some entry has key `k`, a first one does.
proof fn lemma_first_exists(o: Seq<(FieldKey, InfoModel)>, k: FieldKey, j: int)
    requires
        0 <= j < o.len(),
        o[j].0 == k,
    ensures
        exists|i: int| first_at(o, k, i),
    decreases j,
{
    if exists|m: int| 0 <= m < j && o[m].0 == k {
        let m = choose|m: int| 0 <= m < j && o[m].0 == k;
        lemma_first_exists(o, k, m);
    } else {
        assert(first_at(o, k, j));
    }
}

/// Merging kind information with an identical copy of itself gives it back,
/// and the merge is in range.
pub proof fn law_merge_self(a: InfoModel)
    requires
        self_merge_ready(a),
    ensures
        merge_model(a, a) == a,
        can_merge(a, a),
    decreases a,
{
    if let InfoModel::Known(sh) = a {
        let m = merge_model(a, a)->Known_0;
        assert(m.scalars == sh.scalars);
        if let Some(l) = sh.array {
            lemma_wildcards_only(l, l.len());
            assert(l.take(l.len() as int) =~= l);
            if l.len() > 0 {
                lemma_lookup_found(l, Index::Any, 0);
            }
            assert(shifted(l, 0) =~= l);
            assert(merge_arrays(l, l) =~= l);
        }
        if let Some(o) = sh.object {
            lemma_right_part_self(o, o.len());
            lemma_left_part(o, o, o.len());
            assert forall|j: int| 0 <= j < o.len() implies #[trigger] merged_item(o, o, j) == o[j].1
                && can_merge(o[j].1, o[j].1) by {
                assert(first_at(o, o[j].0, j));
                lemma_lookup_found(o, o[j].0, j);
                assert(decreases_to!(a => a->Known_0));
                assert(decreases_to!(a->Known_0 => a->Known_0.object));
                assert(decreases_to!(sh.object => sh.object->0));
                assert(decreases_to!(o => o[j]));
                law_merge_self(o[j].1);
            }
            assert(merge_objects(o, o) =~= o);
            assert forall|i: int| 0 <= i < o.len() implies match lookup(o, #[trigger] o[i].0) {
                Some(v) => can_merge(o[i].1, v),
                None => true,
            } by {
                assert(first_at(o, o[i].0, i));
                lemma_lookup_found(o, o[i].0, i);
                assert(can_merge(o[i].1, o[i].1));
            }
            assert(fields_can_merge(o, o));
        }
        assert(m == sh);
    }
}

/// Merging a type definition with an identical copy of itself gives it back.
pub proof fn law_merge_def_self(t: TypeDefModel)
    requires
        self_merge_ready(t.kind),
    ensures
        merge_def(t, t) == t,
        can_merge(t.kind, t.kind),
{
    law_merge_self(t.kind);
}

/// `Unknown` may hold a value of any kind, and stands for all categories.
pub proof fn law_unknown_is_open(kind: Kind)
    ensures
        info_contains(InfoModel::Unknown, kind),
        kind_of(InfoModel::Unknown) == Kind::spec_all(),
{
}

/// Known information wins over `Unknown`, on either side of a merge.
pub proof fn law_known_wins(k: InfoModel)
    requires
        k is Known,
    ensures
        merge_model(InfoModel::Unknown, k) == k,
        merge_model(k, InfoModel::Unknown) == k,
        can_merge(InfoModel::Unknown, k),
        can_merge(k, InfoModel::Unknown),
{
}

/// Merging the infallible `Unknown` type definition with a known one, on
/// either side, gives the known one unchanged.
pub proof fn law_known_def_wins(t: TypeDefModel)
    requires
        t.kind is Known,
    ensures
        merge_def(TypeDefModel { fallible: false, kind: InfoModel::Unknown }, t) == t,
        merge_def(t, TypeDefModel { fallible: false, kind: InfoModel::Unknown }) == t,
{
}

/// A second array shape replaces the first: a known set holds one array
/// shape at most, and where nothing else was known, it holds only that.
pub proof fn law_single_array(
    k: InfoModel,
    e1: Seq<(Index, InfoModel)>,
    e2: Seq<(Index, InfoModel)>,
)
    ensures
        with_array(with_array(k, e1), e2) == with_array(k, e2),
        with_array(with_array(k, e1), e2)->Known_0.array == Some(e2),
        k is Unknown ==> is_exactly(with_array(with_array(k, e1), e2), TypeKind::Array),
{
}

/// A field segment into kind information without an object shape projects to
/// `Unknown`, whatever follows it.
pub proof fn law_field_of_non_object(k: InfoModel, p: Seq<SegmentModel>)
    requires
        p.len() > 0,
        p[0] is Field || p[0] is Coalesce,
        match k {
            InfoModel::Known(sh) => sh.object is None,
            InfoModel::Unknown => true,
        },
    ensures
        at_path_model(k, p) == InfoModel::Unknown,
{
    if let InfoModel::Known(sh) = k {
        assert(at_path_model(InfoModel::Unknown, p.drop_first()) == InfoModel::Unknown);
    }
}

} // verus!
