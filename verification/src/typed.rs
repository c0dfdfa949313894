use vstd::prelude::*;
use crate::ast::{BinOp, Ident};
use crate::span::{Span, WithSpan};
use crate::typing::{PartialType, Type};

verus! {

/// Names the stage of a checked program whose types may still be unknown.
#[derive(Debug)]
pub struct PartialTypeAnnotation;

/// Names the stage of a checked program whose types are all known.
pub struct TypeAnnotation;

/// An expression (or anything else) with its type and span.
#[derive(Debug)]
pub struct WithType<U, T> {
    pub inner: U,
    pub ty: T,
    pub span: Span,
}

impl<U, T> WithType<U, T> {
    pub fn new(inner: U, ty: T, span: Span) -> (r: Self)
        ensures
            r.inner == inner,
            r.ty == ty,
            r.span == span,
    {
        Self { inner, ty, span }
    }
}

impl<T> WithType<Option<T>, PartialType> {
    /// The same node with its type fully known, if it is and if the node is there.
    pub fn to_full(self) -> (r: Option<WithType<T, Type>>)
        ensures
            r is Some <==> (self.inner is Some && self.ty.spec_to_basic() is Some),
            r matches Some(x) ==> (Some(x.inner) == self.inner && Some(x.ty)
                == self.ty.spec_to_basic() && x.span == self.span),
    {
        match self.inner {
            Some(inner) => match self.ty.to_basic() {
                Some(ty) => Some(WithType { inner, ty, span: self.span }),
                None => None,
            },
            None => None,
        }
    }
}

impl WithSpan<PartialType> {
    /// The same type with the same span, if it is fully known.
    pub fn to_full(self) -> (r: Option<WithSpan<Type>>)
        ensures
            r is Some <==> self.inner.spec_to_basic() is Some,
            r matches Some(x) ==> Some(x.inner) == self.inner.spec_to_basic() && x.span
                == self.span,
    {
        match self.inner.to_basic() {
            Some(inner) => Some(WithSpan { inner, span: self.span }),
            None => None,
        }
    }
}

/// An expression whose type may be unknown; `inner` is missing where no
/// expression could be built.
pub type PartiallyTypedExpr = WithType<Option<PartialExpr>, PartialType>;

/// A checked expression whose type is known.
pub type TypedExpr = WithType<FullExpr, Type>;

/// Checked expressions, possibly with unknown types.
#[derive(Debug)]
pub enum PartialExpr {
    Int(i64),
    True,
    False,
    Null,
    Ident(WithSpan<Ident>),
    Deref(Box<PartiallyTypedExpr>),
    Assign { lhs: Box<PartiallyTypedExpr>, rhs: Box<PartiallyTypedExpr> },
    Call { name: WithSpan<Ident>, args: Vec<PartiallyTypedExpr> },
    PrefixIncr(Box<PartiallyTypedExpr>),
    PrefixDecr(Box<PartiallyTypedExpr>),
    PostfixIncr(Box<PartiallyTypedExpr>),
    PostfixDecr(Box<PartiallyTypedExpr>),
    Addr(Box<PartiallyTypedExpr>),
    Not(Box<PartiallyTypedExpr>),
    Neg(Box<PartiallyTypedExpr>),
    Pos(Box<PartiallyTypedExpr>),
    Op { op: BinOp, lhs: Box<PartiallyTypedExpr>, rhs: Box<PartiallyTypedExpr> },
    SizeOf(WithSpan<PartialType>),
}

/// Checked expressions, with known types.
#[derive(Debug)]
pub enum FullExpr {
    Int(i64),
    True,
    False,
    Null,
    Ident(WithSpan<Ident>),
    Deref(Box<TypedExpr>),
    Assign { lhs: Box<TypedExpr>, rhs: Box<TypedExpr> },
    Call { name: WithSpan<Ident>, args: Vec<TypedExpr> },
    PrefixIncr(Box<TypedExpr>),
    PrefixDecr(Box<TypedExpr>),
    PostfixIncr(Box<TypedExpr>),
    PostfixDecr(Box<TypedExpr>),
    Addr(Box<TypedExpr>),
    Not(Box<TypedExpr>),
    Neg(Box<TypedExpr>),
    Pos(Box<TypedExpr>),
    Op { op: BinOp, lhs: Box<TypedExpr>, rhs: Box<TypedExpr> },
    SizeOf(WithSpan<Type>),
}

/// The expression is there and its type, and those of all its parts, are known.
pub open spec fn pte_full(e: PartiallyTypedExpr) -> bool
    decreases e,
{
    e.ty.spec_to_basic() is Some && match e.inner {
        Some(x) => pexpr_full(x),
        None => false,
    }
}

/// The types of all parts of the expression are known.
pub open spec fn pexpr_full(e: PartialExpr) -> bool
    decreases e,
{
    match e {
        PartialExpr::Deref(b) => pte_full(*b),
        PartialExpr::PrefixIncr(b) => pte_full(*b),
        PartialExpr::PrefixDecr(b) => pte_full(*b),
        PartialExpr::PostfixIncr(b) => pte_full(*b),
        PartialExpr::PostfixDecr(b) => pte_full(*b),
        PartialExpr::Addr(b) => pte_full(*b),
        PartialExpr::Not(b) => pte_full(*b),
        PartialExpr::Neg(b) => pte_full(*b),
        PartialExpr::Pos(b) => pte_full(*b),
        PartialExpr::Assign { lhs, rhs } => pte_full(*lhs) && pte_full(*rhs),
        PartialExpr::Op { op, lhs, rhs } => pte_full(*lhs) && pte_full(*rhs),
        PartialExpr::Call { name, args } => ptes_full(args@),
        PartialExpr::SizeOf(t) => t.inner.spec_to_basic() is Some,
        _ => true,
    }
}

/// The expressions are there and all their types are known (see [`pte_full`]).
pub open spec fn ptes_full(s: Seq<PartiallyTypedExpr>) -> bool
    decreases s,
{
    s.len() == 0 || (ptes_full(s.drop_last()) && pte_full(s.last()))
}

/// `f` is `p` with its types known: the same node, with the same leaves, and the
/// known form of each type (see [`pexpr_as`]).
pub open spec fn pte_as(p: PartiallyTypedExpr, f: TypedExpr) -> bool
    decreases p,
{
    &&& p.ty.spec_to_basic() == Some(f.ty)
    &&& p.span == f.span
    &&& match p.inner {
        Some(x) => pexpr_as(x, f.inner),
        None => false,
    }
}

/// `f` is the expression `p` with its types known: the same constructor, the same
/// leaves, and parts related by [`pte_as`].
pub open spec fn pexpr_as(p: PartialExpr, f: FullExpr) -> bool
    decreases p,
{
    match p {
        PartialExpr::Int(a) => f == FullExpr::Int(a),
        PartialExpr::True => f is True,
        PartialExpr::False => f is False,
        PartialExpr::Null => f is Null,
        PartialExpr::Ident(a) => f == FullExpr::Ident(a),
        PartialExpr::Deref(a) => f matches FullExpr::Deref(b) && pte_as(*a, *b),
        PartialExpr::PrefixIncr(a) => f matches FullExpr::PrefixIncr(b) && pte_as(*a, *b),
        PartialExpr::PrefixDecr(a) => f matches FullExpr::PrefixDecr(b) && pte_as(*a, *b),
        PartialExpr::PostfixIncr(a) => f matches FullExpr::PostfixIncr(b) && pte_as(*a, *b),
        PartialExpr::PostfixDecr(a) => f matches FullExpr::PostfixDecr(b) && pte_as(*a, *b),
        PartialExpr::Addr(a) => f matches FullExpr::Addr(b) && pte_as(*a, *b),
        PartialExpr::Not(a) => f matches FullExpr::Not(b) && pte_as(*a, *b),
        PartialExpr::Neg(a) => f matches FullExpr::Neg(b) && pte_as(*a, *b),
        PartialExpr::Pos(a) => f matches FullExpr::Pos(b) && pte_as(*a, *b),
        PartialExpr::Assign { lhs, rhs } => f matches FullExpr::Assign { lhs: l, rhs: r }
            && pte_as(*lhs, *l) && pte_as(*rhs, *r),
        PartialExpr::Op { op, lhs, rhs } => f matches FullExpr::Op { op: o, lhs: l, rhs: r } && o
            == op && pte_as(*lhs, *l) && pte_as(*rhs, *r),
        PartialExpr::Call { name, args } => f matches FullExpr::Call { name: n, args: a } && n
            == name && ptes_as(args@, a@),
        PartialExpr::SizeOf(t) => f matches FullExpr::SizeOf(u) && t.inner.spec_to_basic() == Some(
            u.inner,
        ) && t.span == u.span,
    }
}

/// Each expression of `fs` is the one of `ps` with its types known.
pub open spec fn ptes_as(ps: Seq<PartiallyTypedExpr>, fs: Seq<TypedExpr>) -> bool
    decreases ps,
{
    ps.len() == fs.len() && (ps.len() == 0 || (ptes_as(ps.drop_last(), fs.drop_last()) && pte_as(
        ps.last(),
        fs.last(),
    )))
}

/// Both are missing, or both are there and related by [`pte_as`].
pub open spec fn opt_pte_as(p: Option<PartiallyTypedExpr>, f: Option<TypedExpr>) -> bool {
    match p {
        Some(x) => f matches Some(y) && pte_as(x, y),
        None => f is None,
    }
}

pub proof fn lemma_ptes_full(s: Seq<PartiallyTypedExpr>)
    ensures
        ptes_full(s) <==> forall|k: int| 0 <= k < s.len() ==> #[trigger] pte_full(s[k]),
    decreases s.len(),
{
    if s.len() > 0 {
        let d = s.drop_last();
        lemma_ptes_full(d);
        assert(ptes_full(s) == (ptes_full(d) && pte_full(s.last())));
        if ptes_full(s) {
            assert forall|k: int| 0 <= k < s.len() implies #[trigger] pte_full(s[k]) by {
                if k < s.len() - 1 {
                    assert(d[k] == s[k]);
                }
            }
        } else if pte_full(s.last()) {
            let k = choose|k: int| 0 <= k < d.len() && !#[trigger] pte_full(d[k]);
            assert(d[k] == s[k]);
        }
    }
}

/// The expression, with all its types known, if they are (see [`pte_full`]).
pub fn expr_to_full(e: PartiallyTypedExpr) -> (r: Option<TypedExpr>)
    ensures
        r is Some <==> pte_full(e),
        r matches Some(f) ==> pte_as(e, f),
    decreases e, 1nat,
{
    proof {
        if e.inner is Some {
            assert(decreases_to!(e => e.inner));
            assert(decreases_to!(e.inner => e.inner->0));
        }
    }
    match e.to_full() {
        Some(w) => match w.inner.to_full() {
            Some(inner) => Some(WithType { inner, ty: w.ty, span: w.span }),
            None => None,
        },
        None => None,
    }
}

fn box_to_full(e: Box<PartiallyTypedExpr>) -> (r: Option<Box<TypedExpr>>)
    ensures
        r is Some <==> pte_full(*e),
        r matches Some(f) ==> pte_as(*e, *f),
    decreases e, 2nat,
{
    match expr_to_full(*e) {
        Some(x) => Some(Box::new(x)),
        None => None,
    }
}

impl PartialExpr {
    /// The expression, with all its types known, if they are (see [`pexpr_full`]).
    pub fn to_full(self) -> (r: Option<FullExpr>)
        ensures
            r is Some <==> pexpr_full(self),
            r matches Some(f) ==> pexpr_as(self, f),
        decreases self, 0nat,
    {
        match self {
            PartialExpr::Int(i) => Some(FullExpr::Int(i)),
            PartialExpr::True => Some(FullExpr::True),
            PartialExpr::False => Some(FullExpr::False),
            PartialExpr::Null => Some(FullExpr::Null),
            PartialExpr::Ident(ident) => Some(FullExpr::Ident(ident)),
            PartialExpr::Deref(e) => match box_to_full(e) {
                Some(e) => Some(FullExpr::Deref(e)),
                None => None,
            },
            PartialExpr::Assign { lhs, rhs } => match box_to_full(lhs) {
                Some(lhs) => match box_to_full(rhs) {
                    Some(rhs) => Some(FullExpr::Assign { lhs, rhs }),
                    None => None,
                },
                None => None,
            },
            PartialExpr::Call { name, args } => match args_to_full(args) {
                Some(args) => Some(FullExpr::Call { name, args }),
                None => None,
            },
            PartialExpr::PrefixIncr(e) => match box_to_full(e) {
                Some(e) => Some(FullExpr::PrefixIncr(e)),
                None => None,
            },
            PartialExpr::PrefixDecr(e) => match box_to_full(e) {
                Some(e) => Some(FullExpr::PrefixDecr(e)),
                None => None,
            },
            PartialExpr::PostfixIncr(e) => match box_to_full(e) {
                Some(e) => Some(FullExpr::PostfixIncr(e)),
                None => None,
            },
            PartialExpr::PostfixDecr(e) => match box_to_full(e) {
                Some(e) => Some(FullExpr::PostfixDecr(e)),
                None => None,
            },
            PartialExpr::Addr(e) => match box_to_full(e) {
                Some(e) => Some(FullExpr::Addr(e)),
                None => None,
            },
            PartialExpr::Not(e) => match box_to_full(e) {
                Some(e) => Some(FullExpr::Not(e)),
                None => None,
            },
            PartialExpr::Neg(e) => match box_to_full(e) {
                Some(e) => Some(FullExpr::Neg(e)),
                None => None,
            },
            PartialExpr::Pos(e) => match box_to_full(e) {
                Some(e) => Some(FullExpr::Pos(e)),
                None => None,
            },
            PartialExpr::Op { op, lhs, rhs } => match box_to_full(lhs) {
                Some(lhs) => match box_to_full(rhs) {
                    Some(rhs) => Some(FullExpr::Op { op, lhs, rhs }),
                    None => None,
                },
                None => None,
            },
            PartialExpr::SizeOf(ty) => match ty.to_full() {
                Some(ty) => Some(FullExpr::SizeOf(ty)),
                None => None,
            },
        }
    }
}

/// The expressions, with all their types known, if they are.
#[verifier::loop_isolation(false)]
fn args_to_full(args: Vec<PartiallyTypedExpr>) -> (r: Option<Vec<TypedExpr>>)
    ensures
        r is Some <==> ptes_full(args@),
        r matches Some(v) ==> ptes_as(args@, v@),
    decreases args, 0nat,
{
    proof {
        lemma_ptes_full(args@);
    }
    let ghost args_g = args;
    let ghost orig = args@;
    let mut rest = args;
    let mut out: Vec<TypedExpr> = Vec::new();
    let mut i: usize = 0;
    while rest.len() > 0
        invariant
            i + rest@.len() == orig.len(),
            orig.len() == args_g.len(),
            args_g@ == orig,
            rest@ == orig.subrange(i as int, orig.len() as int),
            forall|k: int| 0 <= k < i ==> #[trigger] pte_full(orig[k]),
            ptes_as(orig.subrange(0, i as int), out@),
        decreases rest@.len(),
    {
        let x = rest.remove(0);
        assert(x == orig[i as int]);
        proof {
            assert(decreases_to!(args_g => args_g@));
            assert(decreases_to!(args_g@ => args_g@[i as int]));
            assert(decreases_to!(args_g => x));
        }
        match expr_to_full(x) {
            Some(y) => {
                let ghost before = out@;
                out.push(y);
                assert(out@.drop_last() =~= before);
                assert(orig.subrange(0, i + 1).drop_last() =~= orig.subrange(0, i as int));
            },
            None => {
                assert(!pte_full(orig[i as int]));
                return None;
            },
        }
        i = i + 1;
        assert(rest@ =~= orig.subrange(i as int, orig.len() as int));
    }
    assert(orig.subrange(0, i as int) =~= orig);
    Some(out)
}

} // verus!

verus! {

/// An instruction with its span, loop nesting level and the return type of the
/// function it stands in.
#[derive(Debug)]
pub struct TypedInstr<U, T> {
    pub instr: U,
    pub span: Span,
    pub loop_level: usize,
    pub expected_return_type: T,
}

impl<T> TypedInstr<T, PartialType> {
    /// The same instruction with its return type fully known, if it is.
    pub fn to_full(self) -> (r: Option<TypedInstr<T, Type>>)
        ensures
            r is Some <==> self.expected_return_type.spec_to_basic() is Some,
            r matches Some(x) ==> x.instr == self.instr && x.span == self.span && x.loop_level
                == self.loop_level && Some(x.expected_return_type)
                == self.expected_return_type.spec_to_basic(),
    {
        match self.expected_return_type.to_basic() {
            Some(expected_return_type) => Some(
                TypedInstr {
                    instr: self.instr,
                    span: self.span,
                    loop_level: self.loop_level,
                    expected_return_type,
                },
            ),
            None => None,
        }
    }
}

pub type PartiallyTypedInstr = TypedInstr<PartialInstr, PartialType>;

pub type FullyTypedInstr = TypedInstr<FullInstr, Type>;

/// Checked instructions, possibly with unknown types.
#[allow(inconsistent_fields)]
#[derive(Debug)]
pub enum PartialInstr {
    EmptyInstr,
    ExprInstr(PartiallyTypedExpr),
    If {
        cond: PartiallyTypedExpr,
        then_branch: Box<PartiallyTypedInstr>,
        else_branch: Box<Option<PartiallyTypedInstr>>,
    },
    While { cond: PartiallyTypedExpr, body: Box<PartiallyTypedInstr> },
    For {
        loop_var: Option<WithSpan<PartialVarDecl>>,
        cond: Option<PartiallyTypedExpr>,
        incr: Vec<PartiallyTypedExpr>,
        body: Box<PartiallyTypedInstr>,
    },
    Block(WithSpan<Vec<PartialDeclOrInstr>>),
    Return(Option<PartiallyTypedExpr>),
    Break,
    Continue,
}

/// Checked instructions, with known types.
#[allow(inconsistent_fields)]
#[derive(Debug)]
pub enum FullInstr {
    EmptyInstr,
    ExprInstr(TypedExpr),
    If {
        cond: TypedExpr,
        then_branch: Box<FullyTypedInstr>,
        else_branch: Box<Option<FullyTypedInstr>>,
    },
    While { cond: TypedExpr, body: Box<FullyTypedInstr> },
    For {
        loop_var: Option<WithSpan<FullVarDecl>>,
        cond: Option<TypedExpr>,
        incr: Vec<TypedExpr>,
        body: Box<FullyTypedInstr>,
    },
    Block(WithSpan<Vec<FullDeclOrInstr>>),
    Return(Option<TypedExpr>),
    Break,
    Continue,
}

#[derive(Debug)]
pub enum PartialDeclOrInstr {
    Fun(WithSpan<PartialFunDecl>),
    Var(WithSpan<PartialVarDecl>),
    Instr(PartiallyTypedInstr),
}

#[derive(Debug)]
pub enum FullDeclOrInstr {
    Fun(WithSpan<FullFunDecl>),
    Var(WithSpan<FullVarDecl>),
    Instr(FullyTypedInstr),
}

#[derive(Debug)]
pub struct PartialVarDecl {
    pub ty: WithSpan<PartialType>,
    pub name: WithSpan<Ident>,
    pub value: Option<PartiallyTypedExpr>,
}

#[derive(Debug)]
pub struct FullVarDecl {
    pub ty: WithSpan<Type>,
    pub name: WithSpan<Ident>,
    pub value: Option<TypedExpr>,
}

#[derive(Debug)]
pub struct PartialFunDecl {
    pub ty: WithSpan<PartialType>,
    pub name: WithSpan<Ident>,
    pub params: Vec<(WithSpan<PartialType>, WithSpan<Ident>)>,
    pub code: WithSpan<Vec<PartialDeclOrInstr>>,
    pub depth: usize,
}

#[derive(Debug)]
pub struct FullFunDecl {
    pub ty: WithSpan<Type>,
    pub name: WithSpan<Ident>,
    pub params: Vec<(WithSpan<Type>, WithSpan<Ident>)>,
    pub code: WithSpan<Vec<FullDeclOrInstr>>,
    pub depth: usize,
}

/// A checked program whose types may still be unknown.
#[derive(Debug)]
pub struct PartialFile {
    pub fun_decls: Vec<WithSpan<PartialFunDecl>>,
}

/// A checked program, with all its types known.
#[derive(Debug)]
pub struct TypedFile {
    pub fun_decls: Vec<WithSpan<FullFunDecl>>,
}

/// The instruction's return type, and the types of all its parts, are known.
pub open spec fn pti_full(i: PartiallyTypedInstr) -> bool
    decreases i,
{
    i.expected_return_type.spec_to_basic() is Some && pinstr_full(i.instr)
}

pub open spec fn pinstr_full(i: PartialInstr) -> bool
    decreases i,
{
    match i {
        PartialInstr::ExprInstr(e) => pte_full(e),
        PartialInstr::If { cond, then_branch, else_branch } => pte_full(cond) && pti_full(
            *then_branch,
        ) && match *else_branch {
            Some(b) => pti_full(b),
            None => true,
        },
        PartialInstr::While { cond, body } => pte_full(cond) && pti_full(*body),
        PartialInstr::For { loop_var, cond, incr, body } => {
            &&& match loop_var {
                Some(v) => pvar_full(v.inner),
                None => true,
            }
            &&& match cond {
                Some(c) => pte_full(c),
                None => true,
            }
            &&& ptes_full(incr@)
            &&& pti_full(*body)
        },
        PartialInstr::Block(b) => pitems_full(b.inner@),
        PartialInstr::Return(Some(e)) => pte_full(e),
        _ => true,
    }
}

pub open spec fn pitem_full(d: PartialDeclOrInstr) -> bool
    decreases d,
{
    match d {
        PartialDeclOrInstr::Fun(f) => pfun_full(f.inner),
        PartialDeclOrInstr::Var(v) => pvar_full(v.inner),
        PartialDeclOrInstr::Instr(i) => pti_full(i),
    }
}

pub open spec fn pitems_full(s: Seq<PartialDeclOrInstr>) -> bool
    decreases s,
{
    s.len() == 0 || (pitems_full(s.drop_last()) && pitem_full(s.last()))
}

/// The declared type is known, and the value, if any, is there with a known type.
/// (Where the value's own parts have unknown types, it is dropped rather than failing.)
pub open spec fn pvar_full(v: PartialVarDecl) -> bool {
    v.ty.inner.spec_to_basic() is Some && match v.value {
        Some(val) => val.inner is Some && val.ty.spec_to_basic() is Some,
        None => true,
    }
}

pub open spec fn pfun_full(f: PartialFunDecl) -> bool
    decreases f,
{
    &&& f.ty.inner.spec_to_basic() is Some
    &&& (forall|k: int|
        0 <= k < f.params@.len() ==> (#[trigger] f.params@[k]).0.inner.spec_to_basic() is Some)
    &&& pitems_full(f.code.inner@)
}

pub open spec fn pfuns_full(s: Seq<WithSpan<PartialFunDecl>>) -> bool
    decreases s,
{
    s.len() == 0 || (pfuns_full(s.drop_last()) && pfun_full(s.last().inner))
}

pub open spec fn pfile_full(f: PartialFile) -> bool {
    pfuns_full(f.fun_decls@)
}

/// `f` is the instruction `p` with its types known (see [`pinstr_as`]).
pub open spec fn pti_as(p: PartiallyTypedInstr, f: FullyTypedInstr) -> bool
    decreases p,
{
    &&& p.expected_return_type.spec_to_basic() == Some(f.expected_return_type)
    &&& p.span == f.span
    &&& p.loop_level == f.loop_level
    &&& pinstr_as(p.instr, f.instr)
}

/// `f` is the instruction `p` with its types known: the same constructor, and
/// parts related by [`pte_as`], [`pti_as`], [`pvar_as`] and [`pitems_as`].
pub open spec fn pinstr_as(p: PartialInstr, f: FullInstr) -> bool
    decreases p,
{
    match p {
        PartialInstr::EmptyInstr => f is EmptyInstr,
        PartialInstr::Break => f is Break,
        PartialInstr::Continue => f is Continue,
        PartialInstr::ExprInstr(e) => f matches FullInstr::ExprInstr(g) && pte_as(e, g),
        PartialInstr::Return(e) => f matches FullInstr::Return(g) && opt_pte_as(e, g),
        PartialInstr::If { cond, then_branch, else_branch } => f matches FullInstr::If {
            cond: c,
            then_branch: t,
            else_branch: e,
        } && pte_as(cond, c) && pti_as(*then_branch, *t) && (match *else_branch {
            Some(b) => *e matches Some(b2) && pti_as(b, b2),
            None => *e is None,
        }),
        PartialInstr::While { cond, body } => f matches FullInstr::While { cond: c, body: b }
            && pte_as(cond, c) && pti_as(*body, *b),
        PartialInstr::For { loop_var, cond, incr, body } => f matches FullInstr::For {
            loop_var: v,
            cond: c,
            incr: i,
            body: b,
        } && (match loop_var {
            Some(x) => v matches Some(y) && x.span == y.span && pvar_as(x.inner, y.inner),
            None => v is None,
        }) && opt_pte_as(cond, c) && ptes_as(incr@, i@) && pti_as(*body, *b),
        PartialInstr::Block(b) => f matches FullInstr::Block(g) && b.span == g.span && pitems_as(
            b.inner@,
            g.inner@,
        ),
    }
}

/// `f` is the item `p` with its types known.
pub open spec fn pitem_as(p: PartialDeclOrInstr, f: FullDeclOrInstr) -> bool
    decreases p,
{
    match p {
        PartialDeclOrInstr::Fun(x) => f matches FullDeclOrInstr::Fun(y) && x.span == y.span
            && pfun_as(x.inner, y.inner),
        PartialDeclOrInstr::Var(x) => f matches FullDeclOrInstr::Var(y) && x.span == y.span
            && pvar_as(x.inner, y.inner),
        PartialDeclOrInstr::Instr(x) => f matches FullDeclOrInstr::Instr(y) && pti_as(x, y),
    }
}

/// Each item of `fs` is the one of `ps` with its types known.
pub open spec fn pitems_as(ps: Seq<PartialDeclOrInstr>, fs: Seq<FullDeclOrInstr>) -> bool
    decreases ps,
{
    ps.len() == fs.len() && (ps.len() == 0 || (pitems_as(ps.drop_last(), fs.drop_last())
        && pitem_as(ps.last(), fs.last())))
}

/// `f` is the declaration `p` with its types known; its value is kept where all
/// the types in it are known, and dropped otherwise.
pub open spec fn pvar_as(p: PartialVarDecl, f: FullVarDecl) -> bool {
    &&& p.ty.inner.spec_to_basic() == Some(f.ty.inner)
    &&& p.ty.span == f.ty.span
    &&& p.name == f.name
    &&& match p.value {
        Some(val) => match val.inner {
            Some(x) => if pexpr_full(x) {
                f.value matches Some(w) && Some(w.ty) == val.ty.spec_to_basic() && w.span
                    == val.span && pexpr_as(x, w.inner)
            } else {
                f.value is None
            },
            None => false,
        },
        None => f.value is None,
    }
}

/// `f` has the same name, parameters and depth as `p`, with the types known, and
/// its code is that of `p` with its types known.
pub open spec fn pfun_as(p: PartialFunDecl, f: FullFunDecl) -> bool
    decreases p,
{
    &&& p.ty.inner.spec_to_basic() == Some(f.ty.inner)
    &&& p.ty.span == f.ty.span
    &&& p.name == f.name
    &&& p.params@.len() == f.params@.len()
    &&& (forall|k: int|
        0 <= k < p.params@.len() ==> #[trigger] params_as(p.params@[k], f.params@[k]))
    &&& p.code.span == f.code.span
    &&& pitems_as(p.code.inner@, f.code.inner@)
    &&& p.depth == f.depth
}

/// A parameter with its type known.
pub open spec fn params_as(
    p: (WithSpan<PartialType>, WithSpan<Ident>),
    f: (WithSpan<Type>, WithSpan<Ident>),
) -> bool {
    p.0.inner.spec_to_basic() == Some(f.0.inner) && p.0.span == f.0.span && p.1 == f.1
}

pub proof fn lemma_pitems_full(s: Seq<PartialDeclOrInstr>)
    ensures
        pitems_full(s) <==> forall|k: int| 0 <= k < s.len() ==> #[trigger] pitem_full(s[k]),
    decreases s.len(),
{
    if s.len() > 0 {
        let d = s.drop_last();
        lemma_pitems_full(d);
        if pitems_full(s) {
            assert forall|k: int| 0 <= k < s.len() implies #[trigger] pitem_full(s[k]) by {
                if k < s.len() - 1 {
                    assert(d[k] == s[k]);
                }
            }
        } else if pitem_full(s.last()) {
            let k = choose|k: int| 0 <= k < d.len() && !#[trigger] pitem_full(d[k]);
            assert(d[k] == s[k]);
        }
    }
}

pub proof fn lemma_pfuns_full(s: Seq<WithSpan<PartialFunDecl>>)
    ensures
        pfuns_full(s) <==> forall|k: int| 0 <= k < s.len() ==> #[trigger] pfun_full(s[k].inner),
    decreases s.len(),
{
    if s.len() > 0 {
        let d = s.drop_last();
        lemma_pfuns_full(d);
        if pfuns_full(s) {
            assert forall|k: int| 0 <= k < s.len() implies #[trigger] pfun_full(s[k].inner) by {
                if k < s.len() - 1 {
                    assert(d[k] == s[k]);
                }
            }
        } else if pfun_full(s.last().inner) {
            let k = choose|k: int| 0 <= k < d.len() && !#[trigger] pfun_full(d[k].inner);
            assert(d[k] == s[k]);
        }
    }
}

fn opt_expr_to_full(e: Option<PartiallyTypedExpr>) -> (r: Option<Option<TypedExpr>>)
    ensures
        r is Some <==> match e {
            Some(e) => pte_full(e),
            None => true,
        },
        r matches Some(o) ==> opt_pte_as(e, o),
{
    match e {
        Some(e) => match expr_to_full(e) {
            Some(e) => Some(Some(e)),
            None => None,
        },
        None => Some(None),
    }
}

fn instr_to_full(i: PartiallyTypedInstr) -> (r: Option<FullyTypedInstr>)
    ensures
        r is Some <==> pti_full(i),
        r matches Some(f) ==> pti_as(i, f),
    decreases i, 1nat,
{
    match i.to_full() {
        Some(t) => match t.instr.to_full() {
            Some(instr) => Some(
                TypedInstr {
                    instr,
                    span: t.span,
                    loop_level: t.loop_level,
                    expected_return_type: t.expected_return_type,
                },
            ),
            None => None,
        },
        None => None,
    }
}

fn box_instr_to_full(i: Box<PartiallyTypedInstr>) -> (r: Option<Box<FullyTypedInstr>>)
    ensures
        r is Some <==> pti_full(*i),
        r matches Some(f) ==> pti_as(*i, *f),
    decreases i, 2nat,
{
    match instr_to_full(*i) {
        Some(x) => Some(Box::new(x)),
        None => None,
    }
}

impl PartialInstr {
    /// The instruction, with all its types known, if they are (see [`pinstr_full`]).
    pub fn to_full(self) -> (r: Option<FullInstr>)
        ensures
            r is Some <==> pinstr_full(self),
            r matches Some(f) ==> pinstr_as(self, f),
        decreases self, 0nat,
    {
        match self {
            PartialInstr::EmptyInstr => Some(FullInstr::EmptyInstr),
            PartialInstr::ExprInstr(e) => match expr_to_full(e) {
                Some(e) => Some(FullInstr::ExprInstr(e)),
                None => None,
            },
            PartialInstr::If { cond, then_branch, else_branch } => {
                let cond = match expr_to_full(cond) {
                    Some(c) => c,
                    None => {
                        return None;
                    },
                };
                let then_branch = match box_instr_to_full(then_branch) {
                    Some(b) => b,
                    None => {
                        return None;
                    },
                };
                let else_branch = match *else_branch {
                    Some(branch) => match instr_to_full(branch) {
                        Some(b) => Some(b),
                        None => {
                            return None;
                        },
                    },
                    None => None,
                };
                Some(FullInstr::If { cond, then_branch, else_branch: Box::new(else_branch) })
            },
            PartialInstr::While { cond, body } => {
                let cond = match expr_to_full(cond) {
                    Some(c) => c,
                    None => {
                        return None;
                    },
                };
                match box_instr_to_full(body) {
                    Some(body) => Some(FullInstr::While { cond, body }),
                    None => None,
                }
            },
            PartialInstr::For { loop_var, cond, incr, body } => {
                let loop_var = match loop_var {
                    Some(var_decl) => match var_decl.inner.to_full() {
                        Some(v) => Some(WithSpan { inner: v, span: var_decl.span }),
                        None => {
                            return None;
                        },
                    },
                    None => None,
                };
                let cond = match opt_expr_to_full(cond) {
                    Some(c) => c,
                    None => {
                        return None;
                    },
                };
                let incr = match args_to_full(incr) {
                    Some(incr) => incr,
                    None => {
                        return None;
                    },
                };
                match box_instr_to_full(body) {
                    Some(body) => Some(FullInstr::For { loop_var, cond, incr, body }),
                    None => None,
                }
            },
            PartialInstr::Block(block) => match items_to_full(block.inner) {
                Some(items) => Some(FullInstr::Block(WithSpan { inner: items, span: block.span })),
                None => None,
            },
            PartialInstr::Return(None) => Some(FullInstr::Return(None)),
            PartialInstr::Return(Some(value)) => match expr_to_full(value) {
                Some(value) => Some(FullInstr::Return(Some(value))),
                None => None,
            },
            PartialInstr::Break => Some(FullInstr::Break),
            PartialInstr::Continue => Some(FullInstr::Continue),
        }
    }
}

impl PartialDeclOrInstr {
    /// The item, with all its types known, if they are (see [`pitem_full`]).
    pub fn to_full(self) -> (r: Option<FullDeclOrInstr>)
        ensures
            r is Some <==> pitem_full(self),
            r matches Some(f) ==> pitem_as(self, f),
        decreases self, 0nat,
    {
        match self {
            PartialDeclOrInstr::Fun(fun) => match fun.inner.to_full() {
                Some(f) => Some(FullDeclOrInstr::Fun(WithSpan { inner: f, span: fun.span })),
                None => None,
            },
            PartialDeclOrInstr::Var(var) => match var.inner.to_full() {
                Some(v) => Some(FullDeclOrInstr::Var(WithSpan { inner: v, span: var.span })),
                None => None,
            },
            PartialDeclOrInstr::Instr(instr) => match instr_to_full(instr) {
                Some(i) => Some(FullDeclOrInstr::Instr(i)),
                None => None,
            },
        }
    }
}

impl PartialVarDecl {
    /// The declaration, with its types known, if they are (see [`pvar_full`]).
    pub fn to_full(self) -> (r: Option<FullVarDecl>)
        ensures
            r is Some <==> pvar_full(self),
            r matches Some(f) ==> pvar_as(self, f),
    {
        let ty = match self.ty.to_full() {
            Some(ty) => ty,
            None => {
                return None;
            },
        };
        let value = match self.value {
            Some(val) => {
                let new_val = match val.to_full() {
                    Some(v) => v,
                    None => {
                        return None;
                    },
                };
                match new_val.inner.to_full() {
                    Some(inner) => Some(WithType { inner, ty: new_val.ty, span: new_val.span }),
                    None => None,
                }
            },
            None => None,
        };
        Some(FullVarDecl { ty, name: self.name, value })
    }
}

/// The items, with all their types known, if they are.
#[verifier::loop_isolation(false)]
fn items_to_full(items: Vec<PartialDeclOrInstr>) -> (r: Option<Vec<FullDeclOrInstr>>)
    ensures
        r is Some <==> pitems_full(items@),
        r matches Some(v) ==> pitems_as(items@, v@),
    decreases items, 0nat,
{
    proof {
        lemma_pitems_full(items@);
    }
    let ghost items_g = items;
    let ghost orig = items@;
    let mut rest = items;
    let mut out: Vec<FullDeclOrInstr> = Vec::new();
    let mut i: usize = 0;
    while rest.len() > 0
        invariant
            i + rest@.len() == orig.len(),
            orig.len() == items_g.len(),
            items_g@ == orig,
            rest@ == orig.subrange(i as int, orig.len() as int),
            forall|k: int| 0 <= k < i ==> #[trigger] pitem_full(orig[k]),
            pitems_as(orig.subrange(0, i as int), out@),
        decreases rest@.len(),
    {
        let x = rest.remove(0);
        assert(x == orig[i as int]);
        proof {
            assert(decreases_to!(items_g => items_g@));
            assert(decreases_to!(items_g@ => items_g@[i as int]));
            assert(decreases_to!(items_g => x));
        }
        match x.to_full() {
            Some(y) => {
                let ghost before = out@;
                out.push(y);
                assert(out@.drop_last() =~= before);
                assert(orig.subrange(0, i + 1).drop_last() =~= orig.subrange(0, i as int));
            },
            None => {
                assert(!pitem_full(orig[i as int]));
                return None;
            },
        }
        i = i + 1;
        assert(rest@ =~= orig.subrange(i as int, orig.len() as int));
    }
    assert(orig.subrange(0, i as int) =~= orig);
    Some(out)
}

/// The parameters, with their types known, if they are.
#[verifier::loop_isolation(false)]
fn params_to_full(params: Vec<(WithSpan<PartialType>, WithSpan<Ident>)>) -> (r: Option<
    Vec<(WithSpan<Type>, WithSpan<Ident>)>,
>)
    ensures
        r is Some <==> forall|k: int|
            0 <= k < params@.len() ==> (#[trigger] params@[k]).0.inner.spec_to_basic() is Some,
        r matches Some(v) ==> v@.len() == params@.len() && forall|k: int|
            0 <= k < params@.len() ==> #[trigger] params_as(params@[k], v@[k]),
{
    let ghost params_g = params;
    let ghost orig = params@;
    let mut rest = params;
    let mut out: Vec<(WithSpan<Type>, WithSpan<Ident>)> = Vec::new();
    let mut i: usize = 0;
    while rest.len() > 0
        invariant
            i + rest@.len() == orig.len(),
            orig.len() == params_g.len(),
            rest@ == orig.subrange(i as int, orig.len() as int),
            forall|k: int| 0 <= k < i ==> (#[trigger] orig[k]).0.inner.spec_to_basic() is Some,
            orig == params_g@,
            out@.len() == i,
            forall|k: int| 0 <= k < i ==> #[trigger] params_as(orig[k], out@[k]),
        decreases rest@.len(),
    {
        let (arg_ty, arg) = rest.remove(0);
        assert((arg_ty, arg) == orig[i as int]);
        match arg_ty.to_full() {
            Some(t) => out.push((t, arg)),
            None => {
                assert(orig[i as int].0.inner.spec_to_basic() is None);
                return None;
            },
        }
        i = i + 1;
        assert(rest@ =~= orig.subrange(i as int, orig.len() as int));
    }
    Some(out)
}

impl PartialFunDecl {
    /// The declaration, with all its types known, if they are (see [`pfun_full`]).
    pub fn to_full(self) -> (r: Option<FullFunDecl>)
        ensures
            r is Some <==> pfun_full(self),
            r matches Some(f) ==> pfun_as(self, f),
        decreases self, 0nat,
    {
        let ty = match self.ty.to_full() {
            Some(ty) => ty,
            None => {
                return None;
            },
        };
        let params = match params_to_full(self.params) {
            Some(p) => p,
            None => {
                return None;
            },
        };
        match items_to_full(self.code.inner) {
            Some(code) => Some(
                FullFunDecl {
                    ty,
                    name: self.name,
                    params,
                    code: WithSpan { inner: code, span: self.code.span },
                    depth: self.depth,
                },
            ),
            None => None,
        }
    }
}

impl PartialFile {
    /// The program, with all its types known, if they are (see [`pfile_full`]).
    #[verifier::loop_isolation(false)]
    pub fn to_full(self) -> (r: Option<TypedFile>)
        ensures
            r is Some <==> pfile_full(self),
            r matches Some(f) ==> f.fun_decls@.len() == self.fun_decls@.len() && forall|k: int|
                0 <= k < f.fun_decls@.len() ==> #[trigger] f.fun_decls@[k].span
                    == self.fun_decls@[k].span && pfun_as(
                    self.fun_decls@[k].inner,
                    f.fun_decls@[k].inner,
                ),
    {
        proof {
            lemma_pfuns_full(self.fun_decls@);
        }
        let ghost decls_g = self.fun_decls;
        let ghost orig = self.fun_decls@;
        let mut rest = self.fun_decls;
        let mut out: Vec<WithSpan<FullFunDecl>> = Vec::new();
        let mut i: usize = 0;
        while rest.len() > 0
            invariant
                i + rest@.len() == orig.len(),
                orig.len() == decls_g.len(),
                out@.len() == i,
                rest@ == orig.subrange(i as int, orig.len() as int),
                forall|k: int| 0 <= k < i ==> #[trigger] pfun_full(orig[k].inner),
                orig == decls_g@,
                forall|k: int|
                    0 <= k < i ==> #[trigger] out@[k].span == orig[k].span && pfun_as(
                        orig[k].inner,
                        out@[k].inner,
                    ),
            decreases rest@.len(),
        {
            let ws = rest.remove(0);
            assert(ws == orig[i as int]);
            match ws.inner.to_full() {
                Some(f) => out.push(WithSpan { inner: f, span: ws.span }),
                None => {
                    assert(!pfun_full(orig[i as int].inner));
                    return None;
                },
            }
            i = i + 1;
            assert(rest@ =~= orig.subrange(i as int, orig.len() as int));
        }
        assert(forall|k: int|
            0 <= k < out@.len() ==> #[trigger] out@[k].span == orig[k].span && pfun_as(
                orig[k].inner,
                out@[k].inner,
            ));
        Some(TypedFile { fun_decls: out })
    }
}

/// `q` is a copy of the expression `p`, where every prefix increment became a
/// postfix increment (see [`pexpr_cloned`]).
pub open spec fn pte_cloned(p: PartiallyTypedExpr, q: PartiallyTypedExpr) -> bool
    decreases p,
{
    &&& q.ty == p.ty
    &&& q.span == p.span
    &&& match p.inner {
        Some(x) => q.inner matches Some(y) && pexpr_cloned(x, y),
        None => q.inner is None,
    }
}

/// `q` is a copy of `p`, where every prefix increment, at any depth, became a
/// postfix increment of the copy of its operand; all else is kept.
pub open spec fn pexpr_cloned(p: PartialExpr, q: PartialExpr) -> bool
    decreases p,
{
    match p {
        PartialExpr::Deref(a) => q matches PartialExpr::Deref(b) && pte_cloned(*a, *b),
        PartialExpr::PrefixIncr(a) => q matches PartialExpr::PostfixIncr(b) && pte_cloned(*a, *b),
        PartialExpr::PrefixDecr(a) => q matches PartialExpr::PrefixDecr(b) && pte_cloned(*a, *b),
        PartialExpr::PostfixIncr(a) => q matches PartialExpr::PostfixIncr(b) && pte_cloned(*a, *b),
        PartialExpr::PostfixDecr(a) => q matches PartialExpr::PostfixDecr(b) && pte_cloned(*a, *b),
        PartialExpr::Addr(a) => q matches PartialExpr::Addr(b) && pte_cloned(*a, *b),
        PartialExpr::Not(a) => q matches PartialExpr::Not(b) && pte_cloned(*a, *b),
        PartialExpr::Neg(a) => q matches PartialExpr::Neg(b) && pte_cloned(*a, *b),
        PartialExpr::Pos(a) => q matches PartialExpr::Pos(b) && pte_cloned(*a, *b),
        PartialExpr::Assign { lhs, rhs } => q matches PartialExpr::Assign { lhs: l, rhs: r }
            && pte_cloned(*lhs, *l) && pte_cloned(*rhs, *r),
        PartialExpr::Op { op, lhs, rhs } => q matches PartialExpr::Op { op: o, lhs: l, rhs: r }
            && o == op && pte_cloned(*lhs, *l) && pte_cloned(*rhs, *r),
        PartialExpr::Call { name, args } => q matches PartialExpr::Call { name: n, args: a } && n
            == name && ptes_cloned(args@, a@),
        _ => q == p,
    }
}

/// Each expression of `qs` is a copy of the one of `ps` (see [`pte_cloned`]).
pub open spec fn ptes_cloned(ps: Seq<PartiallyTypedExpr>, qs: Seq<PartiallyTypedExpr>) -> bool
    decreases ps,
{
    ps.len() == qs.len() && (ps.len() == 0 || (ptes_cloned(ps.drop_last(), qs.drop_last())
        && pte_cloned(ps.last(), qs.last())))
}

/// A copy of the expression (see [`pte_cloned`]).
fn clone_pte(e: &PartiallyTypedExpr) -> (r: PartiallyTypedExpr)
    ensures
        pte_cloned(*e, r),
    decreases e, 1nat,
{
    let inner = match &e.inner {
        Some(x) => Some(clone_expr(x)),
        None => None,
    };
    WithType { inner, ty: e.ty, span: e.span.clone() }
}

/// A copy of the boxed expression (see [`pte_cloned`]).
fn clone_box(e: &Box<PartiallyTypedExpr>) -> (r: Box<PartiallyTypedExpr>)
    ensures
        pte_cloned(**e, *r),
    decreases e, 2nat,
{
    Box::new(clone_pte(&**e))
}

/// Copies of the expressions (see [`pte_cloned`]).
#[verifier::loop_isolation(false)]
fn clone_ptes(v: &Vec<PartiallyTypedExpr>) -> (r: Vec<PartiallyTypedExpr>)
    ensures
        ptes_cloned(v@, r@),
    decreases v, 0nat,
{
    let mut r: Vec<PartiallyTypedExpr> = Vec::new();
    let mut i: usize = 0;
    assert(v@.subrange(0, 0) =~= Seq::<PartiallyTypedExpr>::empty());
    while i < v.len()
        invariant
            i <= v@.len(),
            ptes_cloned(v@.subrange(0, i as int), r@),
        decreases v@.len() - i,
    {
        proof {
            assert(decreases_to!(v => v@));
            assert(decreases_to!(v@ => v@[i as int]));
        }
        let c = clone_pte(&v[i]);
        let ghost before = r@;
        r.push(c);
        assert(r@.drop_last() =~= before);
        assert(v@.subrange(0, i + 1).drop_last() =~= v@.subrange(0, i as int));
        i = i + 1;
    }
    assert(v@.subrange(0, i as int) =~= v@);
    r
}

/// A copy of the expression (see [`pexpr_cloned`]).
fn clone_expr(e: &PartialExpr) -> (r: PartialExpr)
    ensures
        pexpr_cloned(*e, r),
    decreases e, 0nat,
{
    match e {
        PartialExpr::Int(x) => PartialExpr::Int(*x),
        PartialExpr::True => PartialExpr::True,
        PartialExpr::False => PartialExpr::False,
        PartialExpr::Null => PartialExpr::Null,
        PartialExpr::Ident(id) => PartialExpr::Ident(id.copied()),
        PartialExpr::Deref(b) => PartialExpr::Deref(clone_box(b)),
        PartialExpr::Assign { lhs, rhs } => PartialExpr::Assign {
            lhs: clone_box(lhs),
            rhs: clone_box(rhs),
        },
        PartialExpr::Call { name, args } => PartialExpr::Call {
            name: name.copied(),
            args: clone_ptes(args),
        },
        PartialExpr::PrefixIncr(b) => PartialExpr::PostfixIncr(clone_box(b)),
        PartialExpr::PrefixDecr(b) => PartialExpr::PrefixDecr(clone_box(b)),
        PartialExpr::PostfixIncr(b) => PartialExpr::PostfixIncr(clone_box(b)),
        PartialExpr::PostfixDecr(b) => PartialExpr::PostfixDecr(clone_box(b)),
        PartialExpr::Addr(b) => PartialExpr::Addr(clone_box(b)),
        PartialExpr::Not(b) => PartialExpr::Not(clone_box(b)),
        PartialExpr::Neg(b) => PartialExpr::Neg(clone_box(b)),
        PartialExpr::Pos(b) => PartialExpr::Pos(clone_box(b)),
        PartialExpr::Op { op, lhs, rhs } => PartialExpr::Op {
            op: *op,
            lhs: clone_box(lhs),
            rhs: clone_box(rhs),
        },
        PartialExpr::SizeOf(t) => PartialExpr::SizeOf(t.copied()),
    }
}

impl Clone for PartialExpr {
    /// A copy of the expression, where every prefix increment, at any depth,
    /// becomes a postfix increment (see [`pexpr_cloned`]); prefix decrements and
    /// all else are copied as they are.
    fn clone(&self) -> (r: Self)
        ensures
            pexpr_cloned(*self, r),
    {
        clone_expr(self)
    }
}

/// Giving an expression its known types keeps each node what it is: the same
/// constructor, with the same operator or leaf (a negation stays a negation, a
/// prefix increment stays a prefix increment).
pub proof fn lemma_to_full_keeps_nodes(p: PartialExpr, f: FullExpr)
    requires
        pexpr_as(p, f),
    ensures
        p matches PartialExpr::Int(n) ==> f == FullExpr::Int(n),
        p is True <==> f is True,
        p is False <==> f is False,
        p is Null <==> f is Null,
        p matches PartialExpr::Ident(x) ==> f == FullExpr::Ident(x),
        p is Deref <==> f is Deref,
        p is Assign <==> f is Assign,
        p is Call <==> f is Call,
        p is PrefixIncr <==> f is PrefixIncr,
        p is PrefixDecr <==> f is PrefixDecr,
        p is PostfixIncr <==> f is PostfixIncr,
        p is PostfixDecr <==> f is PostfixDecr,
        p is Addr <==> f is Addr,
        p is Not <==> f is Not,
        p is Neg <==> f is Neg,
        p is Pos <==> f is Pos,
        p is Op <==> f is Op,
        p is SizeOf <==> f is SizeOf,
        p matches PartialExpr::Op { op, .. } ==> f matches FullExpr::Op { op: o, .. } && o == op,
        p matches PartialExpr::Call { name, .. } ==> f matches FullExpr::Call { name: n, .. } && n
            == name,
{
}

} // verus!
