use vrl_type_def::{Field, Index, Kind, KindInfo, Path, Segment, TypeDef, TypeKind};

fn field(name: &str) -> Field {
    Field::Field(name.to_string())
}

fn path(segments: Vec<Segment>) -> Path {
    Path::new(segments)
}

fn field_path(names: &[&str]) -> Path {
    path(names.iter().map(|n| Segment::Field(n.to_string())).collect())
}

#[test]
fn merge_with_identical_copy_is_unchanged() {
    let inner = TypeDef::new().object(vec![(field("x"), TypeDef::new().null())]);
    let t = TypeDef::new()
        .integer()
        .add_bytes()
        .add_object(vec![(field("a"), TypeDef::new().integer()), (field("b"), inner)])
        .add_array_mapped(vec![(Index::Any, TypeDef::new().boolean())])
        .fallible();
    let merged = t.copy().merge(t.copy());
    assert_eq!(merged, t);
}

#[test]
fn merge_scalar_with_identical_copy_is_unchanged() {
    let t = TypeDef::new().timestamp().add_regex();
    assert_eq!(t.copy().merge(t.copy()), t);
    let u = TypeDef::new();
    assert_eq!(u.copy().merge(u.copy()), u);
}

#[test]
fn unknown_contains_every_kind() {
    for kind in [
        Kind::empty(),
        Kind::all(),
        Kind::bytes(),
        Kind::integer(),
        Kind::float(),
        Kind::boolean(),
        Kind::timestamp(),
        Kind::regex(),
        Kind::null(),
        Kind::array(),
        Kind::object(),
    ] {
        assert!(KindInfo::Unknown.contains(kind));
    }
    let t = TypeDef::default();
    assert!(t.is_unknown());
    assert_eq!(t.kind(), Kind::all());
    assert!(t.is_infallible());
}

#[test]
fn known_wins_over_unknown_on_both_sides() {
    let known = TypeDef::new()
        .bytes()
        .add_object(vec![(field("a"), TypeDef::new().integer())]);
    assert_eq!(TypeDef::new().merge(known.copy()), known);
    assert_eq!(known.copy().merge(TypeDef::new()), known);
    assert!(TypeDef::new().merge(TypeDef::new()).is_unknown());
}

#[test]
fn array_merge_reindexes_rhs_positions() {
    let lhs = TypeDef::new().array(vec![TypeDef::new().integer()]);
    let rhs = TypeDef::new().array(vec![TypeDef::new().bytes()]);
    let merged = lhs.merge(rhs);
    assert!(merged.is_array());
    assert!(merged.at_path(&path(vec![Segment::Index(0)])).is_integer());
    assert!(merged.at_path(&path(vec![Segment::Index(1)])).is_bytes());
    assert!(merged.at_path(&path(vec![Segment::Index(2)])).is_unknown());
}

#[test]
fn array_merge_wildcard_of_rhs_replaces_lhs() {
    let lhs = TypeDef::new().array_mapped(vec![
        (Index::Index(3), TypeDef::new().null()),
        (Index::Any, TypeDef::new().integer()),
    ]);
    let rhs = TypeDef::new().array_mapped(vec![
        (Index::Index(0), TypeDef::new().float()),
        (Index::Any, TypeDef::new().bytes()),
    ]);
    let merged = lhs.merge(rhs);
    assert!(merged.at_path(&path(vec![Segment::Index(3)])).is_null());
    assert!(merged.at_path(&path(vec![Segment::Index(4)])).is_float());
    assert!(merged.at_path(&path(vec![Segment::Index(0)])).is_bytes());
    assert!(merged.at_path(&path(vec![Segment::Index(9)])).is_bytes());
}

#[test]
fn object_merge_unions_at_shared_key() {
    let lhs = TypeDef::new().object(vec![(field("a"), TypeDef::new().integer())]);
    let rhs = TypeDef::new().object(vec![
        (field("a"), TypeDef::new().bytes()),
        (field("b"), TypeDef::new().boolean()),
    ]);
    let merged = lhs.merge(rhs);
    assert!(merged.is_object());
    let a = merged.at_path(&field_path(&["a"]));
    assert!(a.has_kind(Kind::integer()));
    assert!(a.has_kind(Kind::bytes()));
    assert!(!a.has_kind(Kind::boolean()));
    assert!(!a.is_integer());
    assert!(!a.is_bytes());
    assert_eq!(a.kind(), Kind::integer().union(Kind::bytes()));
    assert!(merged.at_path(&field_path(&["b"])).is_boolean());
    assert!(merged.at_path(&field_path(&["c"])).is_unknown());
}

#[test]
fn path_projection_is_exact() {
    let t = TypeDef::new().object(vec![(
        field("a"),
        TypeDef::new().object(vec![(field("b"), TypeDef::new().integer())]),
    )]);
    let ab = t.at_path(&field_path(&["a", "b"]));
    assert!(ab.is_integer());
    assert_eq!(ab.kind(), Kind::integer());
    assert!(t.at_path(&field_path(&["a", "c"])).is_unknown());
    let scalar = TypeDef::new().integer();
    assert!(scalar.at_path(&field_path(&["a"])).is_unknown());
    assert!(scalar.at_path(&path(vec![Segment::Coalesce(vec!["a".to_string()])])).is_unknown());
}

#[test]
fn path_projection_keeps_fallibility_and_stops_at_unknown() {
    let t = TypeDef::new()
        .object(vec![(field("a"), TypeDef::new())])
        .fallible();
    let r = t.at_path(&field_path(&["a", "b", "c"]));
    assert!(r.is_unknown());
    assert!(r.is_fallible());
    let whole = t.at_path(&path(vec![]));
    assert!(whole.is_object());
}

#[test]
fn path_projection_falls_back_to_wildcard() {
    let t = TypeDef::new().object(vec![
        (Field::Any, TypeDef::new().float()),
        (field("a"), TypeDef::new().bytes()),
    ]);
    assert!(t.at_path(&field_path(&["a"])).is_bytes());
    assert!(t.at_path(&field_path(&["zzz"])).is_float());
    let arr = TypeDef::new().array_mapped(vec![(Index::Any, TypeDef::new().regex())]);
    assert!(arr.at_path(&path(vec![Segment::Index(7)])).is_regex());
    assert!(arr.at_path(&field_path(&["a"])).is_unknown());
    assert!(t.at_path(&path(vec![Segment::Index(0)])).is_unknown());
}

#[test]
fn coalesce_takes_first_present_candidate() {
    let t = TypeDef::new().object(vec![
        (field("b"), TypeDef::new().boolean()),
        (field("c"), TypeDef::new().timestamp()),
    ]);
    let seg = Segment::Coalesce(vec!["a".to_string(), "c".to_string(), "b".to_string()]);
    assert!(t.at_path(&path(vec![seg])).is_timestamp());
    let none = Segment::Coalesce(vec!["x".to_string(), "y".to_string()]);
    assert!(t.at_path(&path(vec![none])).is_unknown());
    let wild = TypeDef::new().object(vec![(Field::Any, TypeDef::new().null())]);
    let seg = Segment::Coalesce(vec!["x".to_string()]);
    assert!(wild.at_path(&path(vec![seg])).is_null());
}

#[test]
fn second_add_array_replaces_first() {
    let t = TypeDef::new()
        .add_array(vec![TypeDef::new().integer(), TypeDef::new().bytes()])
        .add_array(vec![TypeDef::new().boolean()]);
    assert!(t.is_array());
    match &t.kind {
        KindInfo::Known(k) => {
            let entries = k.array.as_ref().expect("one array shape");
            assert_eq!(entries.len(), 1);
            assert_eq!(entries[0].0, Index::Index(0));
        }
        KindInfo::Unknown => panic!("known array expected"),
    }
    assert!(t.at_path(&path(vec![Segment::Index(0)])).is_boolean());
    assert!(t.at_path(&path(vec![Segment::Index(1)])).is_unknown());
}

#[test]
fn second_add_object_replaces_first() {
    let t = TypeDef::new()
        .integer()
        .add_object(vec![(field("a"), TypeDef::new().bytes())])
        .add_object(vec![(field("b"), TypeDef::new().null())]);
    assert!(!t.is_object());
    assert!(t.has_kind(Kind::integer()));
    assert!(t.at_path(&field_path(&["a"])).is_unknown());
    assert!(t.at_path(&field_path(&["b"])).is_null());
}

#[test]
fn exact_shape_predicates_need_a_single_kind() {
    let t = TypeDef::new()
        .scalar(Kind::integer())
        .merge(TypeDef::new().scalar(Kind::bytes()));
    assert!(!t.is_integer());
    assert!(!t.is_bytes());
    assert!(t.has_kind(Kind::integer()));
    assert!(t.has_kind(Kind::bytes()));
    assert!(!t.has_kind(Kind::float()));
    assert!(TypeDef::new().integer().is_integer());
    assert!(TypeDef::new().float().is_float());
    assert!(TypeDef::new().boolean().is_boolean());
    assert!(TypeDef::new().timestamp().is_timestamp());
    assert!(TypeDef::new().regex().is_regex());
    assert!(TypeDef::new().null().is_null());
    assert!(TypeDef::new().bytes().is_bytes());
    assert!(TypeDef::new().object(vec![]).is_object());
    assert!(TypeDef::new().array(vec![]).is_array());
    assert!(!TypeDef::new().is_bytes());
    assert!(!TypeDef::new().integer().add_array(vec![]).is_array());
}

#[test]
fn fallible_unless_propagates() {
    let t = TypeDef::new().bytes().fallible_unless(Kind::bytes());
    assert!(t.is_infallible());
    let u = TypeDef::new().bytes().fallible_unless(Kind::integer());
    assert!(u.is_fallible());
    let w = TypeDef::new()
        .bytes()
        .add_integer()
        .fallible_unless(Kind::bytes().union(Kind::integer()));
    assert!(w.is_infallible());
    assert!(TypeDef::new().fallible_unless(Kind::bytes()).is_fallible());
    assert!(TypeDef::new().fallible_unless(Kind::all()).is_infallible());
}

#[test]
fn fallibility_setters_and_merge() {
    let t = TypeDef::new().fallible();
    assert!(t.is_fallible());
    let t = t.infallible();
    assert!(t.is_infallible());
    let t = t.with_fallibility(true);
    assert!(t.fallible);
    let m = TypeDef::new().integer().merge(TypeDef::new().bytes().fallible());
    assert!(m.is_fallible());
    let n = TypeDef::new().integer().merge(TypeDef::new().bytes());
    assert!(n.is_infallible());
}

#[test]
fn kind_info_from_flat_kind() {
    assert!(KindInfo::from_kind(Kind::empty()).is_unknown());
    assert!(KindInfo::from_kind(Kind::all()).is_unknown());
    let t = TypeDef::from_kind(Kind::array().union(Kind::bytes()));
    assert!(!t.is_unknown());
    assert_eq!(t.kind(), Kind::array().union(Kind::bytes()));
    assert!(t.at_path(&path(vec![Segment::Index(5)])).is_unknown());
    let o = TypeDef::from_kind(Kind::object());
    assert!(o.is_object());
    assert!(o.at_path(&field_path(&["q"])).is_unknown());
}

#[test]
fn kind_info_contains_and_kind() {
    let k = TypeDef::new().integer().add_array(vec![]).kind;
    assert!(k.contains(Kind::integer()));
    assert!(k.contains(Kind::array()));
    assert!(k.contains(Kind::all()));
    assert!(!k.contains(Kind::bytes()));
    assert!(!k.contains(Kind::empty()));
    assert_eq!(k.kind(), Kind::integer().union(Kind::array()));
    assert!(!k.is_unknown());
}

#[test]
fn kind_info_at_path_and_merge() {
    let k = TypeDef::new()
        .object(vec![(field("a"), TypeDef::new().regex())])
        .kind;
    assert!(KindInfo::Unknown.at_path(&field_path(&["a"])).is_unknown());
    let at = k.at_path(&field_path(&["a"]));
    assert_eq!(at.kind(), Kind::regex());
    let merged = k.merge(TypeDef::new().null().kind);
    assert_eq!(merged.kind(), Kind::object().union(Kind::null()));
}

#[test]
fn type_kind_maps_to_kind() {
    assert_eq!(TypeKind::Bytes.to_kind(), Kind::bytes());
    assert_eq!(TypeKind::Object.to_kind(), Kind::object());
    assert!(TypeKind::Array.is_kind(Kind::array().union(Kind::null())));
    assert!(!TypeKind::Null.is_kind(Kind::integer()));
}

#[test]
fn kind_set_operations() {
    let bi = Kind::bytes().union(Kind::integer());
    assert!(bi.contains(Kind::bytes()));
    assert!(!bi.contains(Kind::float()));
    assert!(bi.intersects(Kind::integer()));
    assert!(!bi.intersects(Kind::null()));
    assert!(Kind::empty().is_empty());
    assert!(Kind::all().is_all());
    assert!(Kind::bytes().is_single_scalar());
    assert!(!bi.is_single_scalar());
    assert!(!Kind::array().is_single_scalar());
}

#[test]
fn unknown_resets_and_add_scalar_appends() {
    let t = TypeDef::new().integer().unknown();
    assert!(t.is_unknown());
    let t = TypeDef::new().integer().add_scalar(Kind::float());
    assert_eq!(t.kind(), Kind::integer().union(Kind::float()));
    let t = t.scalar(Kind::null());
    assert!(t.is_null());
    let t = TypeDef::new()
        .add_bytes()
        .add_float()
        .add_boolean()
        .add_timestamp()
        .add_regex()
        .add_null()
        .add_integer();
    let scalars = Kind { array: false, object: false, ..Kind::all() };
    assert_eq!(t.kind(), scalars);
    assert!(!t.has_kind(Kind::array().union(Kind::object())));
}

#[test]
fn mergeable_rejects_positions_past_usize() {
    let high = TypeDef::new().array_mapped(vec![(Index::Index(usize::MAX), TypeDef::new().integer())]);
    let low = TypeDef::new().array_mapped(vec![(Index::Index(0), TypeDef::new().bytes())]);
    assert!(!high.mergeable(&low));
    assert!(!low.mergeable(&high));
    assert!(low.mergeable(&low));
    let wild = TypeDef::new().array_mapped(vec![(Index::Any, TypeDef::new().bytes())]);
    assert!(high.mergeable(&wild));
    let merged = high.merge(wild);
    assert!(merged.at_path(&path(vec![Segment::Index(usize::MAX)])).is_integer());
    assert!(merged.at_path(&path(vec![Segment::Index(1)])).is_bytes());
    let nested_high = TypeDef::new().object(vec![(
        field("a"),
        TypeDef::new().array_mapped(vec![(Index::Index(usize::MAX), TypeDef::new().null())]),
    )]);
    let nested_low = TypeDef::new().object(vec![(
        field("a"),
        TypeDef::new().array_mapped(vec![(Index::Index(0), TypeDef::new().null())]),
    )]);
    assert!(!nested_high.mergeable(&nested_low));
    assert!(TypeDef::new().mergeable(&nested_low));
}

#[test]
fn index_and_field_conversions() {
    assert_eq!(Index::from(4usize), Index::Index(4));
    assert_eq!(Index::from(()), Index::Any);
    assert_eq!(Field::from("a".to_string()), field("a"));
    assert_eq!(Field::from(()), Field::Any);
    assert_eq!(Index::Index(2).to_inner(), Some(2));
    assert_eq!(Index::Any.to_inner(), None);
    assert_eq!(Index::Index(2).shift(3), Index::Index(5));
    assert_eq!(Index::Any.shift(3), Index::Any);
}

#[test]
fn array_of_anything() {
    let t = TypeDef::new().array_mapped(vec![(Index::from(()), TypeDef::from_kind(Kind::all()))]);
    assert!(t.is_array());
    assert_eq!(t.kind(), Kind::array());
    assert!(t.at_path(&path(vec![Segment::Index(12)])).is_unknown());
    assert!(t.at_path(&field_path(&["a"])).is_unknown());
}
