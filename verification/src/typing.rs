use vstd::prelude::*;

verus! {

/// The basic types of the language.
#[derive(Debug, Clone, Copy, PartialEq, Eq, Structural)]
pub enum BasisType {
    Void,
    Int,
    Bool,
}

/// A fully known type: a basic type behind a number of pointer indirections.
#[derive(Debug, Clone, Copy, PartialEq, Eq, Structural)]
pub struct Type {
    pub basis: BasisType,
    pub indirection_count: usize,
}

/// The basic types seen while checking: the basic types, and `Error` for a
/// type that could not be determined because of an earlier error.
#[derive(Debug, Clone, Copy, PartialEq, Eq, Structural)]
pub enum PartialBasisType {
    Void,
    Int,
    Bool,
    Error,
}

/// A type seen while checking, possibly unknown (basis `Error`).
#[derive(Debug, Clone, Copy, PartialEq, Eq, Structural)]
pub struct PartialType {
    pub basis: PartialBasisType,
    pub indirection_count: usize,
}

/// Whether two types are compatible, given by their bases and indirection counts.
///
/// Equal types are compatible; a `void*` is compatible with every pointer; `int`
/// and `bool` are compatible with each other; an unknown type on the right is
/// compatible with everything, and an unknown non-pointer type on the left too.
pub open spec fn compatible(left: PartialType, right: PartialType) -> bool {
    if left == right {
        true
    } else if left.indirection_count > 0 {
        (right.indirection_count > 0 && ((left.indirection_count == 1 && left.basis
            == PartialBasisType::Void) || (right.indirection_count == 1 && right.basis
            == PartialBasisType::Void))) || right.basis == PartialBasisType::Error
    } else if right.indirection_count > 0 {
        left.basis == PartialBasisType::Error
    } else {
        match (left.basis, right.basis) {
            (PartialBasisType::Error, _) => true,
            (_, PartialBasisType::Error) => true,
            (PartialBasisType::Int, PartialBasisType::Int) => true,
            (PartialBasisType::Bool, PartialBasisType::Int) => true,
            (PartialBasisType::Int, PartialBasisType::Bool) => true,
            (PartialBasisType::Bool, PartialBasisType::Bool) => true,
            (PartialBasisType::Void, PartialBasisType::Void) => true,
            _ => false,
        }
    }
}

/// The name of a basic type, as shown in messages.
pub open spec fn basis_name(b: PartialBasisType) -> Seq<char> {
    match b {
        PartialBasisType::Error => "{unknown}"@,
        PartialBasisType::Int => "int"@,
        PartialBasisType::Bool => "bool"@,
        PartialBasisType::Void => "void"@,
    }
}

/// `n` stars.
pub open spec fn stars(n: nat) -> Seq<char>
    decreases n,
{
    if n == 0 {
        Seq::empty()
    } else {
        stars((n - 1) as nat).push('*')
    }
}

/// How a type is written in messages: its basis followed by one star per indirection.
pub open spec fn type_text(t: PartialType) -> Seq<char> {
    basis_name(t.basis) + stars(t.indirection_count as nat)
}

impl BasisType {
    /// The same basic type, seen as a partial one.
    pub open spec fn spec_to_partial(self) -> PartialBasisType {
        match self {
            BasisType::Void => PartialBasisType::Void,
            BasisType::Int => PartialBasisType::Int,
            BasisType::Bool => PartialBasisType::Bool,
        }
    }
}

impl Type {
    #[verifier::allow_in_spec]
    pub fn void_type() -> Type
        returns
            (Type { basis: BasisType::Void, indirection_count: 0 }),
    {
        Type { basis: BasisType::Void, indirection_count: 0 }
    }

    #[verifier::allow_in_spec]
    pub fn int_type() -> Type
        returns
            (Type { basis: BasisType::Int, indirection_count: 0 }),
    {
        Type { basis: BasisType::Int, indirection_count: 0 }
    }

    #[verifier::allow_in_spec]
    pub fn bool_type() -> Type
        returns
            (Type { basis: BasisType::Bool, indirection_count: 0 }),
    {
        Type { basis: BasisType::Bool, indirection_count: 0 }
    }

    #[verifier::allow_in_spec]
    pub fn is_ptr(&self) -> bool
        returns
            self.indirection_count > 0,
    {
        self.indirection_count > 0
    }

    /// The same type, seen as a partial one.
    pub open spec fn spec_from_basic(&self) -> PartialType {
        PartialType { basis: self.basis.spec_to_partial(), indirection_count: self.indirection_count }
    }

    #[verifier::when_used_as_spec(spec_from_basic)]
    pub fn from_basic(&self) -> (t: PartialType)
        ensures
            t == self.spec_from_basic(),
    {
        let basis = match self.basis {
            BasisType::Void => PartialBasisType::Void,
            BasisType::Int => PartialBasisType::Int,
            BasisType::Bool => PartialBasisType::Bool,
        };
        PartialType { basis, indirection_count: self.indirection_count }
    }

    /// Compatibility of fully known types, as for their partial counterparts.
    pub open spec fn spec_is_eq(&self, other: &Type) -> bool {
        compatible(self.spec_from_basic(), other.spec_from_basic())
    }

    #[verifier::when_used_as_spec(spec_is_eq)]
    pub fn is_eq(&self, other: &Type) -> (b: bool)
        ensures
            b == self.spec_is_eq(other),
    {
        PartialBasisType::is_eq(&self.from_basic(), &other.from_basic())
    }
}

impl PartialBasisType {
    pub open spec fn spec_to_basic(self) -> Option<BasisType> {
        match self {
            PartialBasisType::Bool => Some(BasisType::Bool),
            PartialBasisType::Int => Some(BasisType::Int),
            PartialBasisType::Void => Some(BasisType::Void),
            PartialBasisType::Error => None,
        }
    }

    /// The basic type, unless it is unknown.
    #[verifier::when_used_as_spec(spec_to_basic)]
    pub fn to_basic(self) -> (b: Option<BasisType>)
        ensures
            b == self.spec_to_basic(),
    {
        match self {
            Self::Bool => Some(BasisType::Bool),
            Self::Int => Some(BasisType::Int),
            Self::Void => Some(BasisType::Void),
            _ => None,
        }
    }

    /// Whether `left` and `right` are compatible (see [`compatible`]).
    pub fn is_eq(left: &PartialType, right: &PartialType) -> (b: bool)
        ensures
            b == compatible(*left, *right),
    {
        *left == *right || if left.is_ptr() {
            (right.is_ptr() && ((left.indirection_count == 1 && left.basis == Self::Void) || (
            right.indirection_count == 1 && right.basis == Self::Void))) || right.basis
                == Self::Error
        } else if right.is_ptr() {
            left.basis == Self::Error
        } else {
            match (left.basis, right.basis) {
                (Self::Error, _) | (_, Self::Error) | (Self::Int, Self::Int) | (
                    Self::Bool,
                    Self::Int,
                )
                | (Self::Int, Self::Bool) | (Self::Bool, Self::Bool) | (Self::Void, Self::Void) => {
                    true
                },
                _ => false,
            }
        }
    }

    /// The name of the basic type, as shown in messages.
    pub fn name(&self) -> (s: &'static str)
        ensures
            s@ == basis_name(*self),
    {
        match self {
            Self::Error => {
                proof {
                    reveal_strlit("{unknown}");
                }
                "{unknown}"
            },
            Self::Int => {
                proof {
                    reveal_strlit("int");
                }
                "int"
            },
            Self::Bool => {
                proof {
                    reveal_strlit("bool");
                }
                "bool"
            },
            Self::Void => {
                proof {
                    reveal_strlit("void");
                }
                "void"
            },
        }
    }
}

impl PartialType {
    #[verifier::allow_in_spec]
    pub fn void_type() -> PartialType
        returns
            (PartialType { basis: PartialBasisType::Void, indirection_count: 0 }),
    {
        PartialType { basis: PartialBasisType::Void, indirection_count: 0 }
    }

    #[verifier::allow_in_spec]
    pub fn int_type() -> PartialType
        returns
            (PartialType { basis: PartialBasisType::Int, indirection_count: 0 }),
    {
        PartialType { basis: PartialBasisType::Int, indirection_count: 0 }
    }

    #[verifier::allow_in_spec]
    pub fn bool_type() -> PartialType
        returns
            (PartialType { basis: PartialBasisType::Bool, indirection_count: 0 }),
    {
        PartialType { basis: PartialBasisType::Bool, indirection_count: 0 }
    }

    /// The unknown type.
    #[verifier::allow_in_spec]
    pub fn error_type() -> PartialType
        returns
            (PartialType { basis: PartialBasisType::Error, indirection_count: 0 }),
    {
        PartialType { basis: PartialBasisType::Error, indirection_count: 0 }
    }

    #[verifier::allow_in_spec]
    pub fn is_ptr(&self) -> bool
        returns
            self.indirection_count > 0,
    {
        self.indirection_count > 0
    }

    #[verifier::allow_in_spec]
    pub fn is_void(&self) -> bool
        returns
            *self == PartialType::void_type(),
    {
        *self == PartialType::void_type()
    }

    pub open spec fn spec_ptr(&self) -> PartialType {
        PartialType { basis: self.basis, indirection_count: (self.indirection_count + 1) as usize }
    }

    /// A pointer to this type.
    #[verifier::when_used_as_spec(spec_ptr)]
    pub fn ptr(&self) -> (t: PartialType)
        requires
            self.indirection_count < usize::MAX,
        ensures
            t == self.spec_ptr(),
            t.indirection_count == self.indirection_count + 1,
    {
        PartialType { basis: self.basis, indirection_count: self.indirection_count + 1 }
    }

    pub open spec fn spec_deref_ptr(&self) -> Option<PartialType> {
        if self.indirection_count > 0 {
            Some(
                PartialType {
                    basis: self.basis,
                    indirection_count: (self.indirection_count - 1) as usize,
                },
            )
        } else {
            None
        }
    }

    /// The type pointed to, if this is a pointer type.
    #[verifier::when_used_as_spec(spec_deref_ptr)]
    pub fn deref_ptr(&self) -> (t: Option<PartialType>)
        ensures
            t == self.spec_deref_ptr(),
    {
        if self.indirection_count > 0 {
            Some(PartialType { basis: self.basis, indirection_count: self.indirection_count - 1 })
        } else {
            None
        }
    }

    pub open spec fn spec_is_eq(&self, other: &PartialType) -> bool {
        compatible(*self, *other)
    }

    #[verifier::when_used_as_spec(spec_is_eq)]
    pub fn is_eq(&self, other: &PartialType) -> (b: bool)
        ensures
            b == compatible(*self, *other),
    {
        PartialBasisType::is_eq(self, other)
    }

    pub open spec fn spec_to_basic(&self) -> Option<Type> {
        match self.basis.spec_to_basic() {
            Some(basis) => Some(Type { basis, indirection_count: self.indirection_count }),
            None => None,
        }
    }

    /// The fully known type, unless the basis is unknown.
    #[verifier::when_used_as_spec(spec_to_basic)]
    pub fn to_basic(&self) -> (t: Option<Type>)
        ensures
            t == self.spec_to_basic(),
    {
        match self.basis.to_basic() {
            Some(basis) => Some(Type { basis, indirection_count: self.indirection_count }),
            None => None,
        }
    }

    /// How the type is written in messages.
    pub fn name(&self) -> (s: String)
        ensures
            s@ == type_text(*self),
    {
        let mut s = String::from_str(self.basis.name());
        let mut i: usize = 0;
        while i < self.indirection_count
            invariant
                i <= self.indirection_count,
                s@ == basis_name(self.basis) + stars(i as nat),
            decreases self.indirection_count - i,
        {
            proof {
                reveal_strlit("*");
            }
            s.append("*");
            i = i + 1;
        }
        s
    }
}

/// A pointer can be dereferenced back to the type it points to.
pub proof fn lemma_deref_ptr(t: PartialType)
    requires
        t.indirection_count < usize::MAX,
    ensures
        t.spec_ptr().spec_deref_ptr() == Some(t),
{
}

/// Seeing a fully known type as a partial type and back gives the same type.
pub proof fn lemma_basic_roundtrip(t: Type)
    ensures
        t.spec_from_basic().spec_to_basic() == Some(t),
{
}

/// A partial type is fully known exactly when its basis is not `Error`, and then
/// it is the partial view of the type it converts to.
pub proof fn lemma_to_basic_from_basic(t: PartialType)
    ensures
        t.spec_to_basic() is Some <==> t.basis != PartialBasisType::Error,
        t.spec_to_basic() matches Some(full) ==> full.spec_from_basic() == t,
{
}

/// Every type is compatible with itself.
pub proof fn lemma_compatible_reflexive(t: PartialType)
    ensures
        compatible(t, t),
{
}

/// Compatibility is symmetric, except where one side is a pointer to an unknown type.
pub proof fn lemma_compatible_symmetric(a: PartialType, b: PartialType)
    requires
        !(a.indirection_count > 0 && a.basis == PartialBasisType::Error),
        !(b.indirection_count > 0 && b.basis == PartialBasisType::Error),
    ensures
        compatible(a, b) == compatible(b, a),
{
}

/// A type is compatible with `void` exactly when it is `void` or unknown.
pub proof fn lemma_compatible_void(t: PartialType)
    ensures
        compatible(t, PartialType::void_type()) <==> (t == PartialType::void_type() || (
        t.indirection_count == 0 && t.basis == PartialBasisType::Error)),
{
}

/// `void*` goes with every pointer, on either side.
pub proof fn lemma_void_pointer_compatible(v: PartialType, t: PartialType)
    requires
        v.basis == PartialBasisType::Void,
        v.indirection_count == 1,
        t.indirection_count > 0,
    ensures
        compatible(v, t),
        compatible(t, v),
{
}

/// Between pointers of known types other than `void*`, compatibility is
/// equality: `void**` and deeper are pointers like any other, so `void**` and
/// `int*` do not go together.
pub proof fn lemma_other_pointers_compatible(a: PartialType, b: PartialType)
    requires
        a.indirection_count > 0,
        b.indirection_count > 0,
        a.basis != PartialBasisType::Error,
        b.basis != PartialBasisType::Error,
        !(a.basis == PartialBasisType::Void && a.indirection_count == 1),
        !(b.basis == PartialBasisType::Void && b.indirection_count == 1),
    ensures
        compatible(a, b) <==> a == b,
{
}

} // verus!
