//! The static type of an expression, with its builder and query methods.

use vstd::prelude::*;
use crate::info::{
    field_entries_model, from_kind_model, index_entries_model, kind_of, lemma_field_entries_model,
    lemma_index_entries_model, shape_has, Field, FieldKey, Index, InfoModel, KindInfo, KnownKinds,
    ShapeModel, TypeKind,
};
use crate::merge::{can_merge, merge_info, merge_model, mergeable};
use crate::project::at_path_model;
use crate::kind::Kind;
use crate::path::Path;

verus! {

/// The static type of an expression: what it may yield, and whether it may
/// fail.
#[derive(Debug, PartialEq, Eq)]
pub struct TypeDef {
    /// Whether the expression can raise an error.
    pub fallible: bool,
    /// What is known of the values the expression yields.
    pub kind: KindInfo,
}

/// The abstract value of a [`TypeDef`].
pub struct TypeDefModel {
    pub fallible: bool,
    pub kind: InfoModel,
}

impl View for TypeDef {
    type V = TypeDefModel;

    open spec fn view(&self) -> TypeDefModel {
        TypeDefModel { fallible: self.fallible, kind: self.kind.model() }
    }
}

/// "Either `a` or `b`": fallible where either is, and the kind information
/// merged.
pub open spec fn merge_def(a: TypeDefModel, b: TypeDefModel) -> TypeDefModel {
    TypeDefModel { fallible: a.fallible || b.fallible, kind: merge_model(a.kind, b.kind) }
}

/// `k` with the scalar categories of `kind` added.
pub open spec fn with_scalars(k: InfoModel, kind: Kind) -> InfoModel {
    match k {
        InfoModel::Unknown => InfoModel::Known(
            ShapeModel { scalars: kind.spec_scalars(), array: None, object: None },
        ),
        InfoModel::Known(sh) => InfoModel::Known(
            ShapeModel { scalars: sh.scalars.spec_union(kind.spec_scalars()), ..sh },
        ),
    }
}

/// `k` with its array shape, if any, replaced by `e`.
pub open spec fn with_array(k: InfoModel, e: Seq<(Index, InfoModel)>) -> InfoModel {
    match k {
        InfoModel::Unknown => InfoModel::Known(
            ShapeModel { scalars: Kind::spec_empty(), array: Some(e), object: None },
        ),
        InfoModel::Known(sh) => InfoModel::Known(ShapeModel { array: Some(e), ..sh }),
    }
}

/// `k` with its object shape, if any, replaced by `e`.
pub open spec fn with_object(k: InfoModel, e: Seq<(FieldKey, InfoModel)>) -> InfoModel {
    match k {
        InfoModel::Unknown => InfoModel::Known(
            ShapeModel { scalars: Kind::spec_empty(), array: None, object: Some(e) },
        ),
        InfoModel::Known(sh) => InfoModel::Known(ShapeModel { object: Some(e), ..sh }),
    }
}

/// `k` without its array shape.
pub open spec fn without_array(k: InfoModel) -> InfoModel {
    match k {
        InfoModel::Unknown => InfoModel::Unknown,
        InfoModel::Known(sh) => InfoModel::Known(ShapeModel { array: None, ..sh }),
    }
}

/// `k` without its object shape.
pub open spec fn without_object(k: InfoModel) -> InfoModel {
    match k {
        InfoModel::Unknown => InfoModel::Unknown,
        InfoModel::Known(sh) => InfoModel::Known(ShapeModel { object: None, ..sh }),
    }
}

pub open spec fn count(b: bool) -> int {
    if b {
        1
    } else {
        0
    }
}

/// How many categories a known shape holds.
pub open spec fn shape_size(sh: ShapeModel) -> int {
    count(sh.scalars.bytes) + count(sh.scalars.integer) + count(sh.scalars.float) + count(
        sh.scalars.boolean,
    ) + count(sh.scalars.timestamp) + count(sh.scalars.regex) + count(sh.scalars.null) + count(
        sh.array is Some,
    ) + count(sh.object is Some)
}

/// `k` is known to hold category `t` and nothing else.
pub open spec fn is_exactly(k: InfoModel, t: TypeKind) -> bool {
    match k {
        InfoModel::Unknown => false,
        InfoModel::Known(sh) => shape_size(sh) == 1 && shape_has(sh, t),
    }
}

/// The array shape of a position-keyed sequence of type definitions.
pub open spec fn mapped_array(map: Seq<(Index, TypeDef)>) -> Seq<(Index, InfoModel)> {
    map.map_values(|e: (Index, TypeDef)| (e.0, e.1.kind.model()))
}

/// The array shape of a sequence of type definitions, one position each.
pub open spec fn positional(inner: Seq<TypeDef>) -> Seq<(Index, InfoModel)> {
    Seq::new(inner.len(), |i: int| (Index::Index(i as usize), inner[i].kind.model()))
}

/// The object shape of a field-keyed sequence of type definitions.
pub open spec fn mapped_object(map: Seq<(Field, TypeDef)>) -> Seq<(FieldKey, InfoModel)> {
    map.map_values(|e: (Field, TypeDef)| (e.0@, e.1.kind.model()))
}

impl TypeDef {
    /// Infallible, and nothing known of what it yields.
    pub fn new() -> (r: TypeDef)
        ensures
            r@ == (TypeDefModel { fallible: false, kind: InfoModel::Unknown }),
    {
        TypeDef { fallible: false, kind: KindInfo::Unknown }
    }

    /// Infallible, yielding values of the categories of `kind`.
    pub fn from_kind(kind: Kind) -> (r: TypeDef)
        ensures
            r@ == (TypeDefModel { fallible: false, kind: from_kind_model(kind) }),
    {
        TypeDef { fallible: false, kind: KindInfo::from_kind(kind) }
    }

    /// A copy with the same abstract value.
    pub fn copy(&self) -> (r: TypeDef)
        ensures
            r@ == self@,
    {
        TypeDef { fallible: self.fallible, kind: self.kind.copy() }
    }

    /// What lies at `path`, as fallible as `self`.
    pub fn at_path(&self, path: &Path) -> (r: TypeDef)
        ensures
            r@ == (TypeDefModel {
                fallible: self.fallible,
                kind: at_path_model(self.kind.model(), path@),
            }),
    {
        TypeDef { fallible: self.fallible, kind: self.kind.at_path(path) }
    }

    /// The flat categories; all of them where nothing is known.
    pub fn kind(&self) -> (r: Kind)
        ensures
            r == kind_of(self.kind.model()),
    {
        self.kind.kind()
    }

    pub fn fallible(self) -> (r: TypeDef)
        ensures
            r@ == (TypeDefModel { fallible: true, ..self@ }),
    {
        TypeDef { fallible: true, ..self }
    }

    pub fn infallible(self) -> (r: TypeDef)
        ensures
            r@ == (TypeDefModel { fallible: false, ..self@ }),
    {
        TypeDef { fallible: false, ..self }
    }

    pub fn with_fallibility(self, fallible: bool) -> (r: TypeDef)
        ensures
            r@ == (TypeDefModel { fallible, ..self@ }),
    {
        TypeDef { fallible, ..self }
    }

    /// Forgets all that is known of what the expression yields.
    pub fn unknown(self) -> (r: TypeDef)
        ensures
            r@ == (TypeDefModel { kind: InfoModel::Unknown, ..self@ }),
    {
        TypeDef { kind: KindInfo::Unknown, ..self }
    }

    /// Only the single scalar category `kind`.
    pub fn scalar(self, kind: Kind) -> (r: TypeDef)
        requires
            kind.spec_is_single_scalar(),
        ensures
            r@ == (TypeDefModel { kind: with_scalars(InfoModel::Unknown, kind), ..self@ }),
    {
        self.unknown().add_scalar(kind)
    }

    /// The single scalar category `kind` added to what is there.
    pub fn add_scalar(self, kind: Kind) -> (r: TypeDef)
        requires
            kind.spec_is_single_scalar(),
        ensures
            r@ == (TypeDefModel { kind: with_scalars(self.kind.model(), kind), ..self@ }),
    {
        let extra = KindInfo::from_kind(kind);
        let kind = merge_info(&self.kind, &extra);
        TypeDef { kind, ..self }
    }

    pub fn bytes(self) -> (r: TypeDef)
        ensures
            r@ == (TypeDefModel {
                kind: with_scalars(InfoModel::Unknown, Kind { bytes: true, ..Kind::spec_empty() }),
                ..self@
            }),
    {
        self.scalar(Kind::bytes())
    }

    pub fn add_bytes(self) -> (r: TypeDef)
        ensures
            r@ == (TypeDefModel {
                kind: with_scalars(self.kind.model(), Kind { bytes: true, ..Kind::spec_empty() }),
                ..self@
            }),
    {
        self.add_scalar(Kind::bytes())
    }

    pub fn integer(self) -> (r: TypeDef)
        ensures
            r@ == (TypeDefModel {
                kind: with_scalars(InfoModel::Unknown, Kind { integer: true, ..Kind::spec_empty() }),
                ..self@
            }),
    {
        self.scalar(Kind::integer())
    }

    pub fn add_integer(self) -> (r: TypeDef)
        ensures
            r@ == (TypeDefModel {
                kind: with_scalars(self.kind.model(), Kind { integer: true, ..Kind::spec_empty() }),
                ..self@
            }),
    {
        self.add_scalar(Kind::integer())
    }

    pub fn float(self) -> (r: TypeDef)
        ensures
            r@ == (TypeDefModel {
                kind: with_scalars(InfoModel::Unknown, Kind { float: true, ..Kind::spec_empty() }),
                ..self@
            }),
    {
        self.scalar(Kind::float())
    }

    pub fn add_float(self) -> (r: TypeDef)
        ensures
            r@ == (TypeDefModel {
                kind: with_scalars(self.kind.model(), Kind { float: true, ..Kind::spec_empty() }),
                ..self@
            }),
    {
        self.add_scalar(Kind::float())
    }

    pub fn boolean(self) -> (r: TypeDef)
        ensures
            r@ == (TypeDefModel {
                kind: with_scalars(InfoModel::Unknown, Kind { boolean: true, ..Kind::spec_empty() }),
                ..self@
            }),
    {
        self.scalar(Kind::boolean())
    }

    pub fn add_boolean(self) -> (r: TypeDef)
        ensures
            r@ == (TypeDefModel {
                kind: with_scalars(self.kind.model(), Kind { boolean: true, ..Kind::spec_empty() }),
                ..self@
            }),
    {
        self.add_scalar(Kind::boolean())
    }

    pub fn timestamp(self) -> (r: TypeDef)
        ensures
            r@ == (TypeDefModel {
                kind: with_scalars(
                    InfoModel::Unknown,
                    Kind { timestamp: true, ..Kind::spec_empty() },
                ),
                ..self@
            }),
    {
        self.scalar(Kind::timestamp())
    }

    pub fn add_timestamp(self) -> (r: TypeDef)
        ensures
            r@ == (TypeDefModel {
                kind: with_scalars(
                    self.kind.model(),
                    Kind { timestamp: true, ..Kind::spec_empty() },
                ),
                ..self@
            }),
    {
        self.add_scalar(Kind::timestamp())
    }

    pub fn regex(self) -> (r: TypeDef)
        ensures
            r@ == (TypeDefModel {
                kind: with_scalars(InfoModel::Unknown, Kind { regex: true, ..Kind::spec_empty() }),
                ..self@
            }),
    {
        self.scalar(Kind::regex())
    }

    pub fn add_regex(self) -> (r: TypeDef)
        ensures
            r@ == (TypeDefModel {
                kind: with_scalars(self.kind.model(), Kind { regex: true, ..Kind::spec_empty() }),
                ..self@
            }),
    {
        self.add_scalar(Kind::regex())
    }

    pub fn null(self) -> (r: TypeDef)
        ensures
            r@ == (TypeDefModel {
                kind: with_scalars(InfoModel::Unknown, Kind { null: true, ..Kind::spec_empty() }),
                ..self@
            }),
    {
        self.scalar(Kind::null())
    }

    pub fn add_null(self) -> (r: TypeDef)
        ensures
            r@ == (TypeDefModel {
                kind: with_scalars(self.kind.model(), Kind { null: true, ..Kind::spec_empty() }),
                ..self@
            }),
    {
        self.add_scalar(Kind::null())
    }
}

impl TypeDef {
    /// Only the array shape of `inner`: position `i` holds what `inner[i]`
    /// describes.
    pub fn array(self, inner: Vec<TypeDef>) -> (r: TypeDef)
        ensures
            r@ == (TypeDefModel {
                kind: with_array(InfoModel::Unknown, positional(inner@)),
                ..self@
            }),
    {
        self.unknown().add_array(inner)
    }

    /// The array shape of `inner` in place of any array shape there was.
    pub fn add_array(self, inner: Vec<TypeDef>) -> (r: TypeDef)
        ensures
            r@ == (TypeDefModel {
                kind: with_array(self.kind.model(), positional(inner@)),
                ..self@
            }),
    {
        let mut map: Vec<(Index, TypeDef)> = Vec::new();
        let mut i: usize = 0;
        while i < inner.len()
            invariant
                i <= inner.len(),
                map@.len() == i,
                forall|m: int|
                    0 <= m < i ==> #[trigger] map@[m].0 == Index::Index(m as usize)
                        && map@[m].1.kind.model() == inner@[m].kind.model(),
            decreases inner.len() - i,
        {
            map.push((Index::Index(i), inner[i].copy()));
            i += 1;
        }
        proof {
            assert(mapped_array(map@) =~= positional(inner@));
        }
        self.add_array_mapped(map)
    }

    /// Only the array shape that `map` gives, position by position.
    pub fn array_mapped(self, map: Vec<(Index, TypeDef)>) -> (r: TypeDef)
        ensures
            r@ == (TypeDefModel {
                kind: with_array(InfoModel::Unknown, mapped_array(map@)),
                ..self@
            }),
    {
        self.unknown().add_array_mapped(map)
    }

    /// The array shape that `map` gives in place of any array shape there
    /// was: a known set never holds two array shapes.
    pub fn add_array_mapped(self, map: Vec<(Index, TypeDef)>) -> (r: TypeDef)
        ensures
            r@ == (TypeDefModel {
                kind: with_array(self.kind.model(), mapped_array(map@)),
                ..self@
            }),
    {
        let base = self.remove_array();
        let mut entries: Vec<(Index, KindInfo)> = Vec::new();
        let mut i: usize = 0;
        while i < map.len()
            invariant
                i <= map.len(),
                entries@.len() == i,
                forall|m: int|
                    0 <= m < i ==> #[trigger] entries@[m].0 == map@[m].0
                        && entries@[m].1.model() == map@[m].1.kind.model(),
            decreases map.len() - i,
        {
            entries.push((map[i].0, map[i].1.kind.copy()));
            i += 1;
        }
        proof {
            lemma_index_entries_model(entries@, entries@.len());
            assert(index_entries_model(entries@, entries@.len()) =~= mapped_array(map@));
        }
        let c = KindInfo::Known(
            KnownKinds { scalars: Kind::empty(), array: Some(entries), object: None },
        );
        base.add_container(c)
    }

    /// Only the object shape that `inner` gives, field by field.
    pub fn object(self, inner: Vec<(Field, TypeDef)>) -> (r: TypeDef)
        ensures
            r@ == (TypeDefModel {
                kind: with_object(InfoModel::Unknown, mapped_object(inner@)),
                ..self@
            }),
    {
        self.unknown().add_object(inner)
    }

    /// The object shape that `inner` gives in place of any object shape there
    /// was: a known set never holds two object shapes.
    pub fn add_object(self, inner: Vec<(Field, TypeDef)>) -> (r: TypeDef)
        ensures
            r@ == (TypeDefModel {
                kind: with_object(self.kind.model(), mapped_object(inner@)),
                ..self@
            }),
    {
        let base = self.remove_object();
        let mut entries: Vec<(Field, KindInfo)> = Vec::new();
        let mut i: usize = 0;
        while i < inner.len()
            invariant
                i <= inner.len(),
                entries@.len() == i,
                forall|m: int|
                    0 <= m < i ==> #[trigger] entries@[m].0@ == inner@[m].0@
                        && entries@[m].1.model() == inner@[m].1.kind.model(),
            decreases inner.len() - i,
        {
            entries.push((inner[i].0.copy(), inner[i].1.kind.copy()));
            i += 1;
        }
        proof {
            lemma_field_entries_model(entries@, entries@.len());
            assert(field_entries_model(entries@, entries@.len()) =~= mapped_object(inner@));
        }
        let c = KindInfo::Known(
            KnownKinds { scalars: Kind::empty(), array: None, object: Some(entries) },
        );
        base.add_container(c)
    }

    /// A container shape merged into what is there; `self` has no container
    /// of the shape that `c` adds.
    fn add_container(self, c: KindInfo) -> (r: TypeDef)
        requires
            c.model() matches InfoModel::Known(sh) && sh.scalars == Kind::spec_empty()
                && match self.kind.model() {
                InfoModel::Known(own) => (own.array is None || sh.array is None) && (
                own.object is None || sh.object is None),
                InfoModel::Unknown => true,
            },
        ensures
            r@ == (TypeDefModel { kind: merge_model(self.kind.model(), c.model()), ..self@ }),
    {
        let kind = merge_info(&self.kind, &c);
        TypeDef { kind, ..self }
    }

    fn remove_array(self) -> (r: TypeDef)
        ensures
            r@ == (TypeDefModel { kind: without_array(self.kind.model()), ..self@ }),
    {
        match self.kind {
            KindInfo::Known(k) => TypeDef {
                fallible: self.fallible,
                kind: KindInfo::Known(KnownKinds { array: None, ..k }),
            },
            KindInfo::Unknown => TypeDef { fallible: self.fallible, kind: KindInfo::Unknown },
        }
    }

    fn remove_object(self) -> (r: TypeDef)
        ensures
            r@ == (TypeDefModel { kind: without_object(self.kind.model()), ..self@ }),
    {
        match self.kind {
            KindInfo::Known(k) => TypeDef {
                fallible: self.fallible,
                kind: KindInfo::Known(KnownKinds { object: None, ..k }),
            },
            KindInfo::Unknown => TypeDef { fallible: self.fallible, kind: KindInfo::Unknown },
        }
    }
}

impl TypeDef {
    pub fn is_unknown(&self) -> (r: bool)
        ensures
            r == (self.kind.model() is Unknown),
    {
        self.kind.is_unknown()
    }

    /// Known to yield bytes and nothing else.
    pub fn is_bytes(&self) -> (r: bool)
        ensures
            r == is_exactly(self.kind.model(), TypeKind::Bytes),
    {
        self.is(TypeKind::Bytes)
    }

    /// Known to yield integers and nothing else.
    pub fn is_integer(&self) -> (r: bool)
        ensures
            r == is_exactly(self.kind.model(), TypeKind::Integer),
    {
        self.is(TypeKind::Integer)
    }

    /// Known to yield floats and nothing else.
    pub fn is_float(&self) -> (r: bool)
        ensures
            r == is_exactly(self.kind.model(), TypeKind::Float),
    {
        self.is(TypeKind::Float)
    }

    /// Known to yield booleans and nothing else.
    pub fn is_boolean(&self) -> (r: bool)
        ensures
            r == is_exactly(self.kind.model(), TypeKind::Boolean),
    {
        self.is(TypeKind::Boolean)
    }

    /// Known to yield timestamps and nothing else.
    pub fn is_timestamp(&self) -> (r: bool)
        ensures
            r == is_exactly(self.kind.model(), TypeKind::Timestamp),
    {
        self.is(TypeKind::Timestamp)
    }

    /// Known to yield regular expressions and nothing else.
    pub fn is_regex(&self) -> (r: bool)
        ensures
            r == is_exactly(self.kind.model(), TypeKind::Regex),
    {
        self.is(TypeKind::Regex)
    }

    /// Known to yield null and nothing else.
    pub fn is_null(&self) -> (r: bool)
        ensures
            r == is_exactly(self.kind.model(), TypeKind::Null),
    {
        self.is(TypeKind::Null)
    }

    /// Known to yield arrays and nothing else.
    pub fn is_array(&self) -> (r: bool)
        ensures
            r == is_exactly(self.kind.model(), TypeKind::Array),
    {
        self.is(TypeKind::Array)
    }

    /// Known to yield objects and nothing else.
    pub fn is_object(&self) -> (r: bool)
        ensures
            r == is_exactly(self.kind.model(), TypeKind::Object),
    {
        self.is(TypeKind::Object)
    }

    /// Known to hold category `t` and nothing else.
    fn is(&self, t: TypeKind) -> (r: bool)
        ensures
            r == is_exactly(self.kind.model(), t),
    {
        match &self.kind {
            KindInfo::Unknown => false,
            KindInfo::Known(k) => {
                let n: u8 = one_if(k.scalars.bytes) + one_if(k.scalars.integer) + one_if(
                    k.scalars.float,
                ) + one_if(k.scalars.boolean) + one_if(k.scalars.timestamp) + one_if(
                    k.scalars.regex,
                ) + one_if(k.scalars.null) + one_if(k.array.is_some()) + one_if(
                    k.object.is_some(),
                );
                let has = match t {
                    TypeKind::Bytes => k.scalars.bytes,
                    TypeKind::Integer => k.scalars.integer,
                    TypeKind::Float => k.scalars.float,
                    TypeKind::Boolean => k.scalars.boolean,
                    TypeKind::Timestamp => k.scalars.timestamp,
                    TypeKind::Regex => k.scalars.regex,
                    TypeKind::Null => k.scalars.null,
                    TypeKind::Array => k.array.is_some(),
                    TypeKind::Object => k.object.is_some(),
                };
                n == 1 && has
            },
        }
    }

    /// Some category of `kind` may be yielded.
    pub fn has_kind(&self, kind: Kind) -> (r: bool)
        ensures
            r == kind_of(self.kind.model()).spec_intersects(kind),
    {
        self.kind().intersects(kind)
    }

    pub fn is_fallible(&self) -> (r: bool)
        ensures
            r == self.fallible,
    {
        self.fallible
    }

    pub fn is_infallible(&self) -> (r: bool)
        ensures
            r == !self.fallible,
    {
        !self.is_fallible()
    }

    /// Fallible where something outside `kind` may be yielded.
    pub fn fallible_unless(self, kind: Kind) -> (r: TypeDef)
        ensures
            r@ == (TypeDefModel {
                fallible: self.fallible || !kind.spec_contains(kind_of(self.kind.model())),
                ..self@
            }),
    {
        let own = self.kind();
        if !kind.contains(own) {
            TypeDef { fallible: true, ..self }
        } else {
            self
        }
    }

    /// Whether `self` and `other` can be merged: the positions of merged
    /// arrays fit in a `usize`, at every depth.
    pub fn mergeable(&self, other: &TypeDef) -> (ok: bool)
        ensures
            ok == can_merge(self.kind.model(), other.kind.model()),
    {
        mergeable(&self.kind, &other.kind)
    }

    /// "Either `self` or `other`": fallible where either is, and the kind
    /// information merged. Callers that cannot show the positions fit test
    /// [`TypeDef::mergeable`] first.
    pub fn merge(self, other: TypeDef) -> (r: TypeDef)
        requires
            can_merge(self.kind.model(), other.kind.model()),
        ensures
            r@ == merge_def(self@, other@),
    {
        TypeDef { fallible: self.fallible || other.fallible, kind: self.kind.merge(other.kind) }
    }
}

fn one_if(b: bool) -> (r: u8)
    ensures
        r == count(b),
{
    if b {
        1
    } else {
        0
    }
}

impl Default for TypeDef {
    fn default() -> (r: TypeDef)
        ensures
            r@ == (TypeDefModel { fallible: false, kind: InfoModel::Unknown }),
    {
        TypeDef::new()
    }
}

} // verus!
