//! Structured kind information: what is known of the values an expression
//! yields, and its abstract model.

use vstd::prelude::*;
use crate::kind::Kind;

verus! {

broadcast use vstd::std_specs::vec::group_vec_axioms;

/// A position inside an array type: a wildcard for every position not listed,
/// or one zero-based position.
#[derive(Clone, Copy, Debug, PartialEq, Eq, Structural)]
pub enum Index {
    Any,
    Index(usize),
}

/// A field inside an object type: a wildcard for every field not listed, or
/// one field name.
#[derive(Clone, Debug, PartialEq, Eq)]
pub enum Field {
    Any,
    Field(String),
}

/// The abstract value of a [`Field`].
pub enum FieldKey {
    Any,
    Name(Seq<char>),
}

impl View for Field {
    type V = FieldKey;

    open spec fn view(&self) -> FieldKey {
        match self {
            Field::Any => FieldKey::Any,
            Field::Field(s) => FieldKey::Name(s@),
        }
    }
}

/// Moves an explicit position up by `off`; the wildcard stays where it is.
pub open spec fn shift(i: Index, off: int) -> Index {
    match i {
        Index::Index(n) => Index::Index((n + off) as usize),
        Index::Any => Index::Any,
    }
}

impl Index {
    /// The explicit position, if any.
    pub fn to_inner(self) -> (r: Option<usize>)
        ensures
            r == match self {
                Index::Any => None,
                Index::Index(i) => Some(i),
            },
    {
        match self {
            Index::Any => None,
            Index::Index(i) => Some(i),
        }
    }

    /// Moves an explicit position up by `count`; the wildcard stays.
    pub fn shift(self, count: usize) -> (r: Index)
        requires
            self matches Index::Index(i) ==> i + count <= usize::MAX,
        ensures
            r == shift(self, count as int),
    {
        match self {
            Index::Index(i) => Index::Index(i + count),
            v => v,
        }
    }
}

impl From<usize> for Index {
    fn from(i: usize) -> (r: Index) {
        Index::Index(i)
    }
}

impl vstd::std_specs::convert::FromSpecImpl<usize> for Index {
    open spec fn obeys_from_spec() -> bool {
        true
    }

    open spec fn from_spec(i: usize) -> Index {
        Index::Index(i)
    }
}

impl From<()> for Index {
    fn from(u: ()) -> (r: Index) {
        Index::Any
    }
}

impl vstd::std_specs::convert::FromSpecImpl<()> for Index {
    open spec fn obeys_from_spec() -> bool {
        true
    }

    open spec fn from_spec(u: ()) -> Index {
        Index::Any
    }
}

impl From<String> for Field {
    fn from(k: String) -> (r: Field) {
        Field::Field(k)
    }
}

impl vstd::std_specs::convert::FromSpecImpl<String> for Field {
    open spec fn obeys_from_spec() -> bool {
        true
    }

    open spec fn from_spec(k: String) -> Field {
        Field::Field(k)
    }
}

impl From<()> for Field {
    fn from(u: ()) -> (r: Field) {
        Field::Any
    }
}

impl vstd::std_specs::convert::FromSpecImpl<()> for Field {
    open spec fn obeys_from_spec() -> bool {
        true
    }

    open spec fn from_spec(u: ()) -> Field {
        Field::Any
    }
}

/// One category of values, as a [`KindInfo`] tells them apart.
#[derive(Clone, Copy, Debug, PartialEq, Eq, Structural)]
pub enum TypeKind {
    Bytes,
    Integer,
    Float,
    Boolean,
    Timestamp,
    Regex,
    Null,
    Array,
    Object,
}

/// The closed-world part of a [`KindInfo`]: the scalar categories, plus at
/// most one array shape and at most one object shape.
///
/// A container shape maps positions (or fields) to nested kind information.
/// Where a key is listed twice, the first entry is the one that counts. The
/// container categories of `scalars` are not read: `array` and `object` say
/// whether there is a container.
#[derive(Debug, PartialEq, Eq)]
pub struct KnownKinds {
    pub scalars: Kind,
    pub array: Option<Vec<(Index, KindInfo)>>,
    pub object: Option<Vec<(Field, KindInfo)>>,
}

/// What is known of the values an expression yields: nothing (`Unknown`), or
/// a set of categories with the shape of each container.
#[derive(Debug, PartialEq, Eq)]
pub enum KindInfo {
    Unknown,
    Known(KnownKinds),
}

/// The abstract value of a [`KindInfo`].
pub enum InfoModel {
    Unknown,
    Known(ShapeModel),
}

/// The abstract value of a [`KnownKinds`]; `scalars` never holds the
/// container categories.
pub struct ShapeModel {
    pub scalars: Kind,
    pub array: Option<Seq<(Index, InfoModel)>>,
    pub object: Option<Seq<(FieldKey, InfoModel)>>,
}

impl KindInfo {
    pub open spec fn model(self) -> InfoModel
        decreases self, 0nat,
    {
        match self {
            KindInfo::Unknown => InfoModel::Unknown,
            KindInfo::Known(k) => InfoModel::Known(
                ShapeModel {
                    scalars: k.scalars.spec_scalars(),
                    array: match k.array {
                        Some(v) => Some(index_entries_model(v@, v@.len())),
                        None => None,
                    },
                    object: match k.object {
                        Some(v) => Some(field_entries_model(v@, v@.len())),
                        None => None,
                    },
                },
            ),
        }
    }
}

/// The abstract value of the first `n` entries of an array shape.
pub open spec fn index_entries_model(s: Seq<(Index, KindInfo)>, n: nat) -> Seq<(Index, InfoModel)>
    decreases s, n,
{
    if n == 0 || n > s.len() {
        Seq::empty()
    } else {
        index_entries_model(s, (n - 1) as nat).push((s[n - 1].0, s[n - 1].1.model()))
    }
}

/// The abstract value of the first `n` entries of an object shape.
pub open spec fn field_entries_model(
    s: Seq<(Field, KindInfo)>,
    n: nat,
) -> Seq<(FieldKey, InfoModel)>
    decreases s, n,
{
    if n == 0 || n > s.len() {
        Seq::empty()
    } else {
        field_entries_model(s, (n - 1) as nat).push((s[n - 1].0@, s[n - 1].1.model()))
    }
}

pub proof fn lemma_index_entries_model(s: Seq<(Index, KindInfo)>, n: nat)
    requires
        n <= s.len(),
    ensures
        index_entries_model(s, n).len() == n,
        forall|j: int|
            0 <= j < n ==> #[trigger] index_entries_model(s, n)[j] == (s[j].0, s[j].1.model()),
    decreases n,
{
    if n > 0 {
        lemma_index_entries_model(s, (n - 1) as nat);
    }
}

pub proof fn lemma_field_entries_model(s: Seq<(Field, KindInfo)>, n: nat)
    requires
        n <= s.len(),
    ensures
        field_entries_model(s, n).len() == n,
        forall|j: int|
            0 <= j < n ==> #[trigger] field_entries_model(s, n)[j] == (s[j].0@, s[j].1.model()),
    decreases n,
{
    if n > 0 {
        lemma_field_entries_model(s, (n - 1) as nat);
    }
}

/// `j` is the first entry of `s` under key `k`.
pub open spec fn first_at<K>(s: Seq<(K, InfoModel)>, k: K, j: int) -> bool {
    &&& 0 <= j < s.len()
    &&& s[j].0 == k
    &&& forall|m: int| 0 <= m < j ==> s[m].0 != k
}

/// The value of the first entry of `s` under key `k`.
pub open spec fn lookup<K>(s: Seq<(K, InfoModel)>, k: K) -> Option<InfoModel> {
    if exists|j: int| first_at(s, k, j) {
        Some(s[choose|j: int| first_at(s, k, j)].1)
    } else {
        None
    }
}

pub proof fn lemma_lookup_found<K>(s: Seq<(K, InfoModel)>, k: K, j: int)
    requires
        first_at(s, k, j),
    ensures
        lookup(s, k) == Some(s[j].1),
{
    let c = choose|j: int| first_at(s, k, j);
    assert(first_at(s, k, c));
    if c < j {
        assert(s[c].0 != k);
    } else if j < c {
        assert(s[j].0 != k);
    }
}

pub proof fn lemma_lookup_absent<K>(s: Seq<(K, InfoModel)>, k: K)
    requires
        forall|j: int| 0 <= j < s.len() ==> s[j].0 != k,
    ensures
        lookup(s, k) == None::<InfoModel>,
{
}

/// Whether two fields are the same key.
pub fn field_eq(a: &Field, b: &Field) -> (r: bool)
    ensures
        r == (a@ == b@),
{
    match (a, b) {
        (Field::Any, Field::Any) => true,
        (Field::Field(x), Field::Field(y)) => x.eq(y),
        _ => false,
    }
}

/// Position of the first entry under key `k`, if any.
pub(crate) fn find_index(v: &Vec<(Index, KindInfo)>, k: Index) -> (r: Option<usize>)
    ensures
        match r {
            Some(j) => first_at(index_entries_model(v@, v@.len()), k, j as int),
            None => lookup(index_entries_model(v@, v@.len()), k) == None::<InfoModel>,
        },
{
    proof {
        lemma_index_entries_model(v@, v@.len());
    }
    let ghost m = index_entries_model(v@, v@.len());
    let mut i: usize = 0;
    while i < v.len()
        invariant
            i <= v.len(),
            m == index_entries_model(v@, v@.len()),
            m.len() == v@.len(),
            forall|j: int| 0 <= j < v@.len() ==> #[trigger] m[j] == (v@[j].0, v@[j].1.model()),
            forall|j: int| 0 <= j < i ==> m[j].0 != k,
        decreases v.len() - i,
    {
        if v[i].0 == k {
            return Some(i);
        }
        i += 1;
    }
    proof {
        lemma_lookup_absent(m, k);
    }
    None
}

/// Position of the first entry under key `k`, if any.
pub(crate) fn find_field(v: &Vec<(Field, KindInfo)>, k: &Field) -> (r: Option<usize>)
    ensures
        match r {
            Some(j) => first_at(field_entries_model(v@, v@.len()), k@, j as int),
            None => lookup(field_entries_model(v@, v@.len()), k@) == None::<InfoModel>,
        },
{
    proof {
        lemma_field_entries_model(v@, v@.len());
    }
    let ghost m = field_entries_model(v@, v@.len());
    let mut i: usize = 0;
    while i < v.len()
        invariant
            i <= v.len(),
            m == field_entries_model(v@, v@.len()),
            m.len() == v@.len(),
            forall|j: int| 0 <= j < v@.len() ==> #[trigger] m[j] == (v@[j].0@, v@[j].1.model()),
            forall|j: int| 0 <= j < i ==> m[j].0 != k@,
        decreases v.len() - i,
    {
        if field_eq(&v[i].0, k) {
            return Some(i);
        }
        i += 1;
    }
    proof {
        lemma_lookup_absent(m, k@);
    }
    None
}

impl Field {
    /// A copy with the same key.
    pub fn copy(&self) -> (r: Field)
        ensures
            r@ == self@,
    {
        match self {
            Field::Any => Field::Any,
            Field::Field(s) => Field::Field(s.clone()),
        }
    }
}

/// Entries with the same keys and models give the same model.
pub proof fn lemma_index_models_eq(a: Seq<(Index, KindInfo)>, b: Seq<(Index, KindInfo)>)
    requires
        a.len() == b.len(),
        forall|j: int| 0 <= j < a.len() ==> a[j].0 == b[j].0 && a[j].1.model() == b[j].1.model(),
    ensures
        index_entries_model(a, a.len()) == index_entries_model(b, b.len()),
{
    lemma_index_entries_model(a, a.len());
    lemma_index_entries_model(b, b.len());
    assert(index_entries_model(a, a.len()) =~= index_entries_model(b, b.len()));
}

/// Entries with the same keys and models give the same model.
pub proof fn lemma_field_models_eq(a: Seq<(Field, KindInfo)>, b: Seq<(Field, KindInfo)>)
    requires
        a.len() == b.len(),
        forall|j: int| 0 <= j < a.len() ==> a[j].0@ == b[j].0@ && a[j].1.model() == b[j].1.model(),
    ensures
        field_entries_model(a, a.len()) == field_entries_model(b, b.len()),
{
    lemma_field_entries_model(a, a.len());
    lemma_field_entries_model(b, b.len());
    assert(field_entries_model(a, a.len()) =~= field_entries_model(b, b.len()));
}

pub(crate) fn copy_index_entries(v: &Vec<(Index, KindInfo)>) -> (out: Vec<(Index, KindInfo)>)
    ensures
        out@.len() == v@.len(),
        forall|j: int|
            0 <= j < v@.len() ==> #[trigger] out@[j].0 == v@[j].0 && out@[j].1.model()
                == v@[j].1.model(),
        index_entries_model(out@, out@.len()) == index_entries_model(v@, v@.len()),
    decreases v, 0nat,
{
    let mut out: Vec<(Index, KindInfo)> = Vec::new();
    let mut i: usize = 0;
    while i < v.len()
        invariant
            i <= v.len(),
            out@.len() == i,
            forall|j: int|
                0 <= j < i ==> #[trigger] out@[j].0 == v@[j].0 && out@[j].1.model()
                    == v@[j].1.model(),
        decreases v.len() - i,
    {
        proof {
            assert(decreases_to!(*v => v[i as int]));
            assert(decreases_to!(v[i as int] => v[i as int].1));
        }
        let e = v[i].1.copy();
        out.push((v[i].0, e));
        i += 1;
    }
    proof {
        lemma_index_models_eq(out@, v@);
    }
    out
}

pub(crate) fn copy_field_entries(v: &Vec<(Field, KindInfo)>) -> (out: Vec<(Field, KindInfo)>)
    ensures
        out@.len() == v@.len(),
        forall|j: int|
            0 <= j < v@.len() ==> #[trigger] out@[j].0@ == v@[j].0@ && out@[j].1.model()
                == v@[j].1.model(),
        field_entries_model(out@, out@.len()) == field_entries_model(v@, v@.len()),
    decreases v, 0nat,
{
    let mut out: Vec<(Field, KindInfo)> = Vec::new();
    let mut i: usize = 0;
    while i < v.len()
        invariant
            i <= v.len(),
            out@.len() == i,
            forall|j: int|
                0 <= j < i ==> #[trigger] out@[j].0@ == v@[j].0@ && out@[j].1.model()
                    == v@[j].1.model(),
        decreases v.len() - i,
    {
        proof {
            assert(decreases_to!(*v => v[i as int]));
            assert(decreases_to!(v[i as int] => v[i as int].1));
        }
        let e = v[i].1.copy();
        out.push((v[i].0.copy(), e));
        i += 1;
    }
    proof {
        lemma_field_models_eq(out@, v@);
    }
    out
}

impl KindInfo {
    /// A copy with the same abstract value.
    pub fn copy(&self) -> (r: KindInfo)
        ensures
            r.model() == self.model(),
        decreases self, 1nat,
    {
        match self {
            KindInfo::Unknown => KindInfo::Unknown,
            KindInfo::Known(k) => {
                let array = match &k.array {
                    None => None,
                    Some(v) => {
                        proof {
                            assert(decreases_to!(*self => self->Known_0));
                            assert(decreases_to!(self->Known_0 => self->Known_0.array));
                            assert(decreases_to!(k.array => k.array->0));
                        }
                        Some(copy_index_entries(v))
                    },
                };
                let object = match &k.object {
                    None => None,
                    Some(v) => {
                        proof {
                            assert(decreases_to!(*self => self->Known_0));
                            assert(decreases_to!(self->Known_0 => self->Known_0.object));
                            assert(decreases_to!(k.object => k.object->0));
                        }
                        Some(copy_field_entries(v))
                    },
                };
                KindInfo::Known(KnownKinds { scalars: k.scalars, array, object })
            },
        }
    }
}

impl TypeKind {
    /// The category of [`Kind`] this one stands for.
    pub open spec fn spec_to_kind(self) -> Kind {
        match self {
            TypeKind::Bytes => Kind { bytes: true, ..Kind::spec_empty() },
            TypeKind::Integer => Kind { integer: true, ..Kind::spec_empty() },
            TypeKind::Float => Kind { float: true, ..Kind::spec_empty() },
            TypeKind::Boolean => Kind { boolean: true, ..Kind::spec_empty() },
            TypeKind::Timestamp => Kind { timestamp: true, ..Kind::spec_empty() },
            TypeKind::Regex => Kind { regex: true, ..Kind::spec_empty() },
            TypeKind::Null => Kind { null: true, ..Kind::spec_empty() },
            TypeKind::Array => Kind { array: true, ..Kind::spec_empty() },
            TypeKind::Object => Kind { object: true, ..Kind::spec_empty() },
        }
    }

    /// Whether `kind` holds this category.
    pub fn is_kind(&self, kind: Kind) -> (r: bool)
        ensures
            r == kind.spec_contains(self.spec_to_kind()),
    {
        kind.contains(self.to_kind())
    }

    /// The category of [`Kind`] this one stands for.
    pub fn to_kind(&self) -> (r: Kind)
        ensures
            r == self.spec_to_kind(),
    {
        match self {
            TypeKind::Bytes => Kind::bytes(),
            TypeKind::Integer => Kind::integer(),
            TypeKind::Float => Kind::float(),
            TypeKind::Boolean => Kind::boolean(),
            TypeKind::Timestamp => Kind::timestamp(),
            TypeKind::Regex => Kind::regex(),
            TypeKind::Null => Kind::null(),
            TypeKind::Array => Kind::array(),
            TypeKind::Object => Kind::object(),
        }
    }
}

/// Whether a known shape holds category `t`.
pub open spec fn shape_has(sh: ShapeModel, t: TypeKind) -> bool {
    match t {
        TypeKind::Bytes => sh.scalars.bytes,
        TypeKind::Integer => sh.scalars.integer,
        TypeKind::Float => sh.scalars.float,
        TypeKind::Boolean => sh.scalars.boolean,
        TypeKind::Timestamp => sh.scalars.timestamp,
        TypeKind::Regex => sh.scalars.regex,
        TypeKind::Null => sh.scalars.null,
        TypeKind::Array => sh.array is Some,
        TypeKind::Object => sh.object is Some,
    }
}

/// The flat categories of a known shape.
pub open spec fn categories(sh: ShapeModel) -> Kind {
    Kind { array: sh.array is Some, object: sh.object is Some, ..sh.scalars }
}

/// The flat categories of kind information; `Unknown` stands for all of them.
pub open spec fn kind_of(k: InfoModel) -> Kind {
    match k {
        InfoModel::Unknown => Kind::spec_all(),
        InfoModel::Known(sh) => categories(sh),
    }
}

/// Whether a value of some category of `kind` may be described by `k`.
pub open spec fn info_contains(k: InfoModel, kind: Kind) -> bool {
    match k {
        InfoModel::Unknown => true,
        InfoModel::Known(sh) => categories(sh).spec_intersects(kind),
    }
}

/// The kind information of a flat [`Kind`]: `Unknown` for no category or for
/// all of them; else its scalars, and containers of unknown contents.
pub open spec fn from_kind_model(kind: Kind) -> InfoModel {
    if kind == Kind::spec_empty() || kind == Kind::spec_all() {
        InfoModel::Unknown
    } else {
        InfoModel::Known(
            ShapeModel {
                scalars: kind.spec_scalars(),
                array: if kind.array {
                    Some(seq![(Index::Any, InfoModel::Unknown)])
                } else {
                    None
                },
                object: if kind.object {
                    Some(seq![(FieldKey::Any, InfoModel::Unknown)])
                } else {
                    None
                },
            },
        )
    }
}

impl KindInfo {
    /// The kind information of a flat [`Kind`].
    pub fn from_kind(kind: Kind) -> (r: KindInfo)
        ensures
            r.model() == from_kind_model(kind),
    {
        if kind.is_empty() || kind.is_all() {
            return KindInfo::Unknown;
        }
        let array = if kind.array {
            let mut v: Vec<(Index, KindInfo)> = Vec::new();
            v.push((Index::Any, KindInfo::Unknown));
            proof {
                assert(v@.len() == 1 && v@[0].1.model() == InfoModel::Unknown);
                assert(index_entries_model(v@, 1) == index_entries_model(v@, 0).push(
                    (Index::Any, InfoModel::Unknown),
                ));
                assert(index_entries_model(v@, 1) =~= seq![(Index::Any, InfoModel::Unknown)]);
            }
            Some(v)
        } else {
            None
        };
        let object = if kind.object {
            let mut v: Vec<(Field, KindInfo)> = Vec::new();
            v.push((Field::Any, KindInfo::Unknown));
            proof {
                assert(v@.len() == 1 && v@[0].1.model() == InfoModel::Unknown);
                assert(v@[0].0@ == FieldKey::Any);
                assert(field_entries_model(v@, 1) == field_entries_model(v@, 0).push(
                    (FieldKey::Any, InfoModel::Unknown),
                ));
                assert(field_entries_model(v@, 1) =~= seq![(FieldKey::Any, InfoModel::Unknown)]);
            }
            Some(v)
        } else {
            None
        };
        KindInfo::Known(
            KnownKinds {
                scalars: Kind { array: false, object: false, ..kind },
                array,
                object,
            },
        )
    }

    pub fn is_unknown(&self) -> (r: bool)
        ensures
            r == (self.model() is Unknown),
    {
        match self {
            KindInfo::Unknown => true,
            KindInfo::Known(_) => false,
        }
    }

    /// Whether a value of some category of `kind` may be described by `self`;
    /// always so for `Unknown`.
    pub fn contains(&self, kind: Kind) -> (r: bool)
        ensures
            r == info_contains(self.model(), kind),
    {
        match self {
            KindInfo::Unknown => true,
            KindInfo::Known(k) => {
                (k.scalars.bytes && TypeKind::Bytes.is_kind(kind)) || (k.scalars.integer
                    && TypeKind::Integer.is_kind(kind)) || (k.scalars.float
                    && TypeKind::Float.is_kind(kind)) || (k.scalars.boolean
                    && TypeKind::Boolean.is_kind(kind)) || (k.scalars.timestamp
                    && TypeKind::Timestamp.is_kind(kind)) || (k.scalars.regex
                    && TypeKind::Regex.is_kind(kind)) || (k.scalars.null
                    && TypeKind::Null.is_kind(kind)) || (k.array.is_some()
                    && TypeKind::Array.is_kind(kind)) || (k.object.is_some()
                    && TypeKind::Object.is_kind(kind))
            },
        }
    }

    /// The flat categories of `self`; all of them for `Unknown`.
    pub fn kind(&self) -> (r: Kind)
        ensures
            r == kind_of(self.model()),
    {
        match self {
            KindInfo::Unknown => Kind::all(),
            KindInfo::Known(k) => Kind {
                array: k.array.is_some(),
                object: k.object.is_some(),
                ..k.scalars
            },
        }
    }
}

} // verus!
