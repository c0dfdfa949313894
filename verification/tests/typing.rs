use petitc::typing::{BasisType, PartialBasisType, PartialType, Type};

fn pt(basis: PartialBasisType, n: usize) -> PartialType {
    PartialType { basis, indirection_count: n }
}

#[test]
fn type_names() {
    assert_eq!(PartialBasisType::Error.name(), "{unknown}");
    assert_eq!(PartialBasisType::Int.name(), "int");
    assert_eq!(PartialBasisType::Bool.name(), "bool");
    assert_eq!(PartialBasisType::Void.name(), "void");
    assert_eq!(pt(PartialBasisType::Int, 2).name(), "int**");
    assert_eq!(pt(PartialBasisType::Void, 1).name(), "void*");
}

#[test]
fn compatible_types() {
    let int = PartialType::int_type();
    let boolean = PartialType::bool_type();
    let void = PartialType::void_type();
    let err = PartialType::error_type();
    assert!(int.is_eq(&int));
    assert!(int.is_eq(&boolean));
    assert!(boolean.is_eq(&int));
    assert!(!int.is_eq(&void));
    assert!(void.is_eq(&void));
    assert!(err.is_eq(&void));
    assert!(void.is_eq(&err));
    // a void pointer goes with every pointer
    assert!(pt(PartialBasisType::Void, 1).is_eq(&pt(PartialBasisType::Int, 3)));
    assert!(pt(PartialBasisType::Int, 3).is_eq(&pt(PartialBasisType::Void, 1)));
    assert!(!pt(PartialBasisType::Int, 1).is_eq(&pt(PartialBasisType::Bool, 1)));
    assert!(!pt(PartialBasisType::Int, 1).is_eq(&int));
    assert!(!int.is_eq(&pt(PartialBasisType::Int, 1)));
    // an unknown type on the right goes with everything
    assert!(pt(PartialBasisType::Int, 2).is_eq(&err));
    // an unknown pointer on the left does not go with an int
    assert!(!pt(PartialBasisType::Error, 1).is_eq(&int));
}

#[test]
fn pointers_and_back() {
    let t = pt(PartialBasisType::Bool, 2);
    let p = t.ptr();
    assert_eq!(p.indirection_count, 3);
    assert_eq!(p.deref_ptr(), Some(t));
    assert_eq!(PartialType::int_type().deref_ptr(), None);
    assert!(p.is_ptr());
    assert!(!PartialType::int_type().is_ptr());
    assert!(PartialType::void_type().is_void());
    assert!(!pt(PartialBasisType::Void, 1).is_void());
}

#[test]
fn full_and_partial_types() {
    let t = Type { basis: BasisType::Int, indirection_count: 1 };
    let p = t.from_basic();
    assert_eq!(p, pt(PartialBasisType::Int, 1));
    assert_eq!(p.to_basic(), Some(t));
    assert_eq!(PartialType::error_type().to_basic(), None);
    assert_eq!(PartialBasisType::Bool.to_basic(), Some(BasisType::Bool));
    assert_eq!(PartialBasisType::Error.to_basic(), None);
    assert!(Type::int_type().is_eq(&Type::bool_type()));
    assert!(!Type::int_type().is_eq(&Type::void_type()));
}

#[test]
fn compatibility_is_symmetric_but_for_pointers_to_unknown_types() {
    let all = [
        PartialType::int_type(),
        PartialType::bool_type(),
        PartialType::void_type(),
        PartialType::error_type(),
        pt(PartialBasisType::Void, 1),
        pt(PartialBasisType::Int, 2),
    ];
    for a in all {
        assert!(a.is_eq(&a));
        for b in all {
            assert_eq!(a.is_eq(&b), b.is_eq(&a));
        }
    }
    let unknown_ptr = pt(PartialBasisType::Error, 1);
    let int_ptr_ptr = pt(PartialBasisType::Int, 2);
    assert!(!unknown_ptr.is_eq(&int_ptr_ptr));
    assert!(int_ptr_ptr.is_eq(&unknown_ptr));
}
