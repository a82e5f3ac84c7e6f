//! Kind information narrowed along a path of fields and positions.

use vstd::prelude::*;
use crate::info::{
    field_entries_model, find_field, find_index, index_entries_model, lemma_field_entries_model,
    lemma_index_entries_model, lemma_lookup_found, lookup, Field, FieldKey, Index, InfoModel,
    KindInfo, ShapeModel,
};
use crate::path::{Path, Segment, SegmentModel};

verus! {

/// The value of the first of the candidate fields `fs` that `o` lists.
pub open spec fn coalesce_lookup(
    o: Seq<(FieldKey, InfoModel)>,
    fs: Seq<Seq<char>>,
) -> Option<InfoModel>
    decreases fs.len(),
{
    if fs.len() == 0 {
        None
    } else {
        match lookup(o, FieldKey::Name(fs[0])) {
            Some(v) => Some(v),
            None => coalesce_lookup(o, fs.drop_first()),
        }
    }
}

/// What was found; else the wildcard entry; else `Unknown`.
pub open spec fn or_wildcard<K>(
    found: Option<InfoModel>,
    s: Seq<(K, InfoModel)>,
    any: K,
) -> InfoModel {
    match found {
        Some(v) => v,
        None => match lookup(s, any) {
            Some(v) => v,
            None => InfoModel::Unknown,
        },
    }
}

/// One segment of a path followed into a known shape.
pub open spec fn step_model(sh: ShapeModel, seg: SegmentModel) -> InfoModel {
    match seg {
        SegmentModel::Field(f) => match sh.object {
            None => InfoModel::Unknown,
            Some(o) => or_wildcard(lookup(o, FieldKey::Name(f)), o, FieldKey::Any),
        },
        SegmentModel::Coalesce(fs) => match sh.object {
            None => InfoModel::Unknown,
            Some(o) => or_wildcard(coalesce_lookup(o, fs), o, FieldKey::Any),
        },
        SegmentModel::Index(i) => match sh.array {
            None => InfoModel::Unknown,
            Some(a) => or_wildcard(lookup(a, Index::Index(i)), a, Index::Any),
        },
    }
}

/// The kind information of what lies at path `p`: `Unknown` as soon as
/// nothing is known; the information itself once the path is used up.
pub open spec fn at_path_model(k: InfoModel, p: Seq<SegmentModel>) -> InfoModel
    decreases p.len(),
{
    match k {
        InfoModel::Unknown => InfoModel::Unknown,
        InfoModel::Known(sh) => if p.len() == 0 {
            k
        } else {
            at_path_model(step_model(sh, p[0]), p.drop_first())
        },
    }
}

/// The entry under `k`, else the one under the wildcard, else `Unknown`.
fn field_or_wildcard(o: &Vec<(Field, KindInfo)>, k: &Field) -> (r: KindInfo)
    ensures
        r.model() == or_wildcard(
            lookup(field_entries_model(o@, o@.len()), k@),
            field_entries_model(o@, o@.len()),
            FieldKey::Any,
        ),
{
    proof {
        lemma_field_entries_model(o@, o@.len());
    }
    let om = Ghost(field_entries_model(o@, o@.len()));
    match find_field(o, k) {
        Some(j) => {
            proof {
                lemma_lookup_found(om@, k@, j as int);
            }
            o[j].1.copy()
        },
        None => wildcard_field(o),
    }
}

/// The entry under the wildcard field, else `Unknown`.
fn wildcard_field(o: &Vec<(Field, KindInfo)>) -> (r: KindInfo)
    ensures
        r.model() == or_wildcard(
            None,
            field_entries_model(o@, o@.len()),
            FieldKey::Any,
        ),
{
    proof {
        lemma_field_entries_model(o@, o@.len());
    }
    let om = Ghost(field_entries_model(o@, o@.len()));
    match find_field(o, &Field::Any) {
        Some(j) => {
            proof {
                lemma_lookup_found(om@, FieldKey::Any, j as int);
            }
            o[j].1.copy()
        },
        None => KindInfo::Unknown,
    }
}

/// The first candidate field present, else the wildcard, else `Unknown`.
fn coalesce_or_wildcard(o: &Vec<(Field, KindInfo)>, fs: &Vec<String>) -> (r: KindInfo)
    ensures
        r.model() == or_wildcard(
            coalesce_lookup(field_entries_model(o@, o@.len()), fs@.map_values(|f: String| f@)),
            field_entries_model(o@, o@.len()),
            FieldKey::Any,
        ),
{
    proof {
        lemma_field_entries_model(o@, o@.len());
    }
    let ghost om = field_entries_model(o@, o@.len());
    let ghost fsm = fs@.map_values(|f: String| f@);
    assert(fsm.skip(0) =~= fsm);
    let mut i: usize = 0;
    while i < fs.len()
        invariant
            i <= fs.len(),
            om == field_entries_model(o@, o@.len()),
            om.len() == o@.len(),
            forall|m: int| 0 <= m < o@.len() ==> #[trigger] om[m] == (o@[m].0@, o@[m].1.model()),
            fsm == fs@.map_values(|f: String| f@),
            fsm.len() == fs@.len(),
            coalesce_lookup(om, fsm) == coalesce_lookup(om, fsm.skip(i as int)),
        decreases fs.len() - i,
    {
        let key = Field::Field(fs[i].clone());
        proof {
            assert(fsm.skip(i as int)[0] == fsm[i as int]);
            assert(fsm[i as int] == fs@[i as int]@);
            assert(fsm.skip(i as int).drop_first() =~= fsm.skip(i + 1));
        }
        match find_field(o, &key) {
            Some(j) => {
                proof {
                    lemma_lookup_found(om, key@, j as int);
                    assert(coalesce_lookup(om, fsm.skip(i as int)) == Some(om[j as int].1));
                }
                return o[j].1.copy();
            },
            None => {},
        }
        i += 1;
    }
    proof {
        assert(fsm.skip(i as int).len() == 0);
    }
    wildcard_field(o)
}

impl KindInfo {
    /// The array shape, if any.
    fn array(&self) -> (r: Option<&Vec<(Index, KindInfo)>>)
        ensures
            match self {
                KindInfo::Known(k) => r == match k.array {
                    Some(v) => Some(&v),
                    None => None::<&Vec<(Index, KindInfo)>>,
                },
                KindInfo::Unknown => r is None,
            },
    {
        match self {
            KindInfo::Unknown => None,
            KindInfo::Known(k) => match &k.array {
                Some(v) => Some(v),
                None => None,
            },
        }
    }

    /// The object shape, if any.
    fn object(&self) -> (r: Option<&Vec<(Field, KindInfo)>>)
        ensures
            match self {
                KindInfo::Known(k) => r == match k.object {
                    Some(v) => Some(&v),
                    None => None::<&Vec<(Field, KindInfo)>>,
                },
                KindInfo::Unknown => r is None,
            },
    {
        match self {
            KindInfo::Unknown => None,
            KindInfo::Known(k) => match &k.object {
                Some(v) => Some(v),
                None => None,
            },
        }
    }

    /// One segment followed into a known shape.
    fn step(&self, seg: &Segment) -> (r: KindInfo)
        requires
            self is Known,
        ensures
            r.model() == step_model(self.model()->Known_0, seg@),
    {
        match seg {
            Segment::Field(f) => match self.object() {
                None => KindInfo::Unknown,
                Some(o) => field_or_wildcard(o, &Field::Field(f.clone())),
            },
            Segment::Coalesce(fs) => match self.object() {
                None => KindInfo::Unknown,
                Some(o) => coalesce_or_wildcard(o, fs),
            },
            Segment::Index(i) => match self.array() {
                None => KindInfo::Unknown,
                Some(a) => {
                    proof {
                        lemma_index_entries_model(a@, a@.len());
                    }
                    let am = Ghost(index_entries_model(a@, a@.len()));
                    match find_index(a, Index::Index(*i)) {
                        Some(j) => {
                            proof {
                                lemma_lookup_found(am@, Index::Index(*i), j as int);
                            }
                            a[j].1.copy()
                        },
                        None => match find_index(a, Index::Any) {
                            Some(j) => {
                                proof {
                                    lemma_lookup_found(am@, Index::Any, j as int);
                                }
                                a[j].1.copy()
                            },
                            None => KindInfo::Unknown,
                        },
                    }
                },
            },
        }
    }

    /// The kind information of what lies at `path`.
    pub fn at_path(&self, path: &Path) -> (r: KindInfo)
        ensures
            r.model() == at_path_model(self.model(), path@),
    {
        let ghost p = path@;
        assert(p.skip(0) =~= p);
        let mut cur = self.copy();
        let mut i: usize = 0;
        while i < path.segments.len()
            invariant
                i <= path.segments.len(),
                p == path@,
                p.len() == path.segments@.len(),
                at_path_model(self.model(), p) == at_path_model(cur.model(), p.skip(i as int)),
            decreases path.segments.len() - i,
        {
            if cur.is_unknown() {
                return KindInfo::Unknown;
            }
            proof {
                assert(p.skip(i as int)[0] == path.segments@[i as int]@);
                assert(p.skip(i as int).drop_first() =~= p.skip(i + 1));
            }
            cur = cur.step(&path.segments[i]);
            i += 1;
        }
        proof {
            assert(p.skip(i as int).len() == 0);
        }
        cur
    }
}

} // verus!
