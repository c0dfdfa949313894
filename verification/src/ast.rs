use vstd::prelude::*;
use crate::span::{Span, WithSpan};
use crate::typing::Type;

verus! {

/// A name, given as an index into the table of names.
pub type Ident = usize;

/// Binary operators.
#[derive(Debug, Clone, Copy, PartialEq, Eq, Structural)]
pub enum BinOp {
    Eq,
    NEq,
    Lt,
    Le,
    Gt,
    Ge,
    Add,
    Sub,
    Mul,
    Div,
    Mod,
    LAnd,
    LOr,
}

/// Expressions, as parsed.
#[derive(Debug)]
pub enum Expr {
    Int(i64),
    True,
    False,
    Null,
    Ident(WithSpan<Ident>),
    Deref(Box<WithSpan<Expr>>),
    Assign { lhs: Box<WithSpan<Expr>>, rhs: Box<WithSpan<Expr>> },
    Call { name: WithSpan<Ident>, args: Vec<WithSpan<Expr>> },
    PrefixIncr(Box<WithSpan<Expr>>),
    PrefixDecr(Box<WithSpan<Expr>>),
    PostfixIncr(Box<WithSpan<Expr>>),
    PostfixDecr(Box<WithSpan<Expr>>),
    Addr(Box<WithSpan<Expr>>),
    Not(Box<WithSpan<Expr>>),
    Neg(Box<WithSpan<Expr>>),
    Pos(Box<WithSpan<Expr>>),
    Op { op: BinOp, lhs: Box<WithSpan<Expr>>, rhs: Box<WithSpan<Expr>> },
    SizeOf(WithSpan<Type>),
}

/// The largest number of indirections that a declared type may have:
/// with it, no type built while checking can overflow its counter.
pub open spec fn type_bound() -> nat {
    (usize::MAX / 4) as nat
}

pub open spec fn max(a: nat, b: nat) -> nat {
    if a >= b {
        a
    } else {
        b
    }
}

/// The nesting depth of an expression.
pub open spec fn expr_height(e: Expr) -> nat
    decreases e,
{
    match e {
        Expr::Deref(b) => 1 + expr_height(b.inner),
        Expr::PrefixIncr(b) => 1 + expr_height(b.inner),
        Expr::PrefixDecr(b) => 1 + expr_height(b.inner),
        Expr::PostfixIncr(b) => 1 + expr_height(b.inner),
        Expr::PostfixDecr(b) => 1 + expr_height(b.inner),
        Expr::Addr(b) => 1 + expr_height(b.inner),
        Expr::Not(b) => 1 + expr_height(b.inner),
        Expr::Neg(b) => 1 + expr_height(b.inner),
        Expr::Pos(b) => 1 + expr_height(b.inner),
        Expr::Assign { lhs, rhs } => 1 + max(expr_height(lhs.inner), expr_height(rhs.inner)),
        Expr::Op { op, lhs, rhs } => 1 + max(expr_height(lhs.inner), expr_height(rhs.inner)),
        Expr::Call { name, args } => 1 + args_height(args@),
        _ => 0,
    }
}

/// The largest nesting depth among some expressions.
pub open spec fn args_height(s: Seq<WithSpan<Expr>>) -> nat
    decreases s,
{
    if s.len() == 0 {
        0
    } else {
        max(args_height(s.drop_last()), expr_height(s.last().inner))
    }
}

/// Every name in the expression is below `n`, and every type in it has at most
/// [`type_bound`] indirections.
pub open spec fn expr_wf(e: Expr, n: nat) -> bool
    decreases e,
{
    match e {
        Expr::Ident(id) => id.inner < n,
        Expr::SizeOf(t) => t.inner.indirection_count <= type_bound(),
        Expr::Deref(b) => expr_wf(b.inner, n),
        Expr::PrefixIncr(b) => expr_wf(b.inner, n),
        Expr::PrefixDecr(b) => expr_wf(b.inner, n),
        Expr::PostfixIncr(b) => expr_wf(b.inner, n),
        Expr::PostfixDecr(b) => expr_wf(b.inner, n),
        Expr::Addr(b) => expr_wf(b.inner, n),
        Expr::Not(b) => expr_wf(b.inner, n),
        Expr::Neg(b) => expr_wf(b.inner, n),
        Expr::Pos(b) => expr_wf(b.inner, n),
        Expr::Assign { lhs, rhs } => expr_wf(lhs.inner, n) && expr_wf(rhs.inner, n),
        Expr::Op { op, lhs, rhs } => expr_wf(lhs.inner, n) && expr_wf(rhs.inner, n),
        Expr::Call { name, args } => name.inner < n && exprs_wf(args@, n),
        _ => true,
    }
}

/// Every expression of the list is well formed (see [`expr_wf`]).
pub open spec fn exprs_wf(s: Seq<WithSpan<Expr>>, n: nat) -> bool
    decreases s,
{
    s.len() == 0 || (exprs_wf(s.drop_last(), n) && expr_wf(s.last().inner, n))
}

pub proof fn lemma_exprs_wf(s: Seq<WithSpan<Expr>>, n: nat)
    ensures
        exprs_wf(s, n) <==> forall|k: int| 0 <= k < s.len() ==> #[trigger] expr_wf(s[k].inner, n),
    decreases s.len(),
{
    if s.len() > 0 {
        let d = s.drop_last();
        lemma_exprs_wf(d, n);
        if exprs_wf(s, n) {
            assert forall|k: int| 0 <= k < s.len() implies #[trigger] expr_wf(s[k].inner, n) by {
                if k < s.len() - 1 {
                    assert(d[k] == s[k]);
                }
            }
        } else if expr_wf(s.last().inner, n) {
            let k = choose|k: int| 0 <= k < d.len() && !#[trigger] expr_wf(d[k].inner, n);
            assert(d[k] == s[k]);
        }
    }
}

/// No expression of the list is deeper than the deepest of the list.
pub proof fn lemma_args_height(s: Seq<WithSpan<Expr>>)
    ensures
        forall|k: int| 0 <= k < s.len() ==> #[trigger] expr_height(s[k].inner) <= args_height(s),
    decreases s.len(),
{
    if s.len() > 0 {
        let d = s.drop_last();
        lemma_args_height(d);
        assert forall|k: int| 0 <= k < s.len() implies #[trigger] expr_height(s[k].inner)
            <= args_height(s) by {
            if k < s.len() - 1 {
                assert(d[k] == s[k]);
            }
        }
    }
}

} // verus!

verus! {

impl Expr {
    /// Whether the expression denotes a place in memory (a variable or a dereference).
    #[verifier::allow_in_spec]
    pub fn is_lvalue(&self) -> bool
        returns
            (self is Ident || self is Deref),
    {
        match self {
            Expr::Ident(_) | Expr::Deref(_) => true,
            _ => false,
        }
    }
}

/// A variable declaration, with an optional initial value.
#[derive(Debug)]
pub struct VarDecl {
    pub ty: WithSpan<Type>,
    pub name: WithSpan<Ident>,
    pub value: Option<WithSpan<Expr>>,
}

/// Instructions, as parsed.
#[allow(inconsistent_fields)]
#[derive(Debug)]
pub enum Instr {
    EmptyInstr,
    ExprInstr(WithSpan<Expr>),
    If {
        cond: WithSpan<Expr>,
        then_branch: Box<WithSpan<Instr>>,
        else_branch: Box<Option<WithSpan<Instr>>>,
    },
    While { cond: WithSpan<Expr>, body: Box<WithSpan<Instr>> },
    For {
        loop_var: Option<WithSpan<VarDecl>>,
        cond: Option<WithSpan<Expr>>,
        incr: Vec<WithSpan<Expr>>,
        body: Box<WithSpan<Instr>>,
    },
    Block(WithSpan<Vec<DeclOrInstr>>),
    Return(Option<WithSpan<Expr>>),
    Break,
    Continue,
}

/// An item of a block.
#[derive(Debug)]
pub enum DeclOrInstr {
    Fun(WithSpan<FunDecl>),
    Var(WithSpan<VarDecl>),
    Instr(WithSpan<Instr>),
}

/// A function declaration; `depth` is how deeply it is nested in other functions.
#[derive(Debug)]
pub struct FunDecl {
    pub ty: WithSpan<Type>,
    pub name: WithSpan<Ident>,
    pub params: Vec<(WithSpan<Type>, WithSpan<Ident>)>,
    pub code: WithSpan<Vec<DeclOrInstr>>,
    pub depth: usize,
}

/// A whole program: its toplevel functions.
#[derive(Debug)]
pub struct File {
    pub fun_decls: Vec<WithSpan<FunDecl>>,
}

/// The type is declared with at most [`type_bound`] indirections.
pub open spec fn ty_wf(t: WithSpan<Type>) -> bool {
    t.inner.indirection_count <= type_bound()
}

/// An optional expression is well formed (see [`expr_wf`]).
pub open spec fn opt_expr_wf(e: Option<WithSpan<Expr>>, n: nat) -> bool {
    match e {
        Some(e) => expr_wf(e.inner, n),
        None => true,
    }
}

/// An expression is small enough that the types built for it cannot overflow.
pub open spec fn expr_small(e: WithSpan<Expr>) -> bool {
    expr_height(e.inner) <= type_bound()
}

pub open spec fn opt_expr_small(e: Option<WithSpan<Expr>>) -> bool {
    match e {
        Some(e) => expr_small(e),
        None => true,
    }
}

/// Every name in the declaration is below `n`, its types have at most
/// [`type_bound`] indirections and its value is small.
pub open spec fn var_decl_wf(v: VarDecl, n: nat) -> bool {
    &&& ty_wf(v.ty)
    &&& v.name.inner < n
    &&& opt_expr_wf(v.value, n)
    &&& opt_expr_small(v.value)
}

/// Every name in the instruction is below `n`, its types have at most
/// [`type_bound`] indirections and its expressions are small.
pub open spec fn instr_wf(i: Instr, n: nat) -> bool
    decreases i,
{
    match i {
        Instr::ExprInstr(e) => expr_wf(e.inner, n) && expr_small(e),
        Instr::If { cond, then_branch, else_branch } => {
            &&& expr_wf(cond.inner, n)
            &&& expr_small(cond)
            &&& instr_wf(then_branch.inner, n)
            &&& match *else_branch {
                Some(b) => instr_wf(b.inner, n),
                None => true,
            }
        },
        Instr::While { cond, body } => expr_wf(cond.inner, n) && expr_small(cond) && instr_wf(
            body.inner,
            n,
        ),
        Instr::For { loop_var, cond, incr, body } => {
            &&& match loop_var {
                Some(v) => var_decl_wf(v.inner, n),
                None => true,
            }
            &&& opt_expr_wf(cond, n)
            &&& opt_expr_small(cond)
            &&& exprs_wf(incr@, n)
            &&& (forall|k: int| 0 <= k < incr@.len() ==> #[trigger] expr_small(incr@[k]))
            &&& instr_wf(body.inner, n)
        },
        Instr::Block(b) => items_wf(b.inner@, n),
        Instr::Return(e) => opt_expr_wf(e, n) && opt_expr_small(e),
        _ => true,
    }
}

/// Well-formedness of a block item (see [`instr_wf`]).
pub open spec fn item_wf(d: DeclOrInstr, n: nat) -> bool
    decreases d,
{
    match d {
        DeclOrInstr::Fun(f) => fun_wf(f.inner, n),
        DeclOrInstr::Var(v) => var_decl_wf(v.inner, n),
        DeclOrInstr::Instr(i) => instr_wf(i.inner, n),
    }
}

/// Every item of the list is well formed (see [`instr_wf`]).
pub open spec fn items_wf(s: Seq<DeclOrInstr>, n: nat) -> bool
    decreases s,
{
    s.len() == 0 || (items_wf(s.drop_last(), n) && item_wf(s.last(), n))
}

pub proof fn lemma_items_wf(s: Seq<DeclOrInstr>, n: nat)
    ensures
        items_wf(s, n) <==> forall|k: int| 0 <= k < s.len() ==> #[trigger] item_wf(s[k], n),
    decreases s.len(),
{
    if s.len() > 0 {
        let d = s.drop_last();
        lemma_items_wf(d, n);
        if items_wf(s, n) {
            assert forall|k: int| 0 <= k < s.len() implies #[trigger] item_wf(s[k], n) by {
                if k < s.len() - 1 {
                    assert(d[k] == s[k]);
                }
            }
        } else if item_wf(s.last(), n) {
            let k = choose|k: int| 0 <= k < d.len() && !#[trigger] item_wf(d[k], n);
            assert(d[k] == s[k]);
        }
    }
}

/// Well-formedness of a function declaration (see [`instr_wf`]).
pub open spec fn fun_wf(f: FunDecl, n: nat) -> bool
    decreases f,
{
    &&& ty_wf(f.ty)
    &&& f.name.inner < n
    &&& (forall|k: int|
        0 <= k < f.params@.len() ==> #[trigger] ty_wf(f.params@[k].0) && f.params@[k].1.inner < n)
    &&& items_wf(f.code.inner@, n)
    &&& items_height(f.code.inner@) <= type_bound()
}

/// Well-formedness of a program (see [`instr_wf`]).
pub open spec fn file_wf(f: File, n: nat) -> bool {
    forall|k: int| 0 <= k < f.fun_decls@.len() ==> #[trigger] fun_wf(f.fun_decls@[k].inner, n)
}

/// How deeply loops may nest in an instruction.
pub open spec fn instr_height(i: Instr) -> nat
    decreases i,
{
    match i {
        Instr::If { cond, then_branch, else_branch } => 1 + max(
            instr_height(then_branch.inner),
            match *else_branch {
                Some(b) => instr_height(b.inner),
                None => 0,
            },
        ),
        Instr::While { cond, body } => 1 + instr_height(body.inner),
        Instr::For { loop_var, cond, incr, body } => 1 + instr_height(body.inner),
        Instr::Block(b) => 1 + items_height(b.inner@),
        _ => 0,
    }
}

/// The largest [`instr_height`] among the instructions of some block items
/// (functions start over from nesting 0).
pub open spec fn items_height(s: Seq<DeclOrInstr>) -> nat
    decreases s,
{
    if s.len() == 0 {
        0
    } else {
        max(
            items_height(s.drop_last()),
            match s.last() {
                DeclOrInstr::Instr(i) => instr_height(i.inner),
                _ => 0,
            },
        )
    }
}

} // verus!

verus! {

/// No instruction of a block is deeper than the block's items.
pub proof fn lemma_items_height(s: Seq<DeclOrInstr>)
    ensures
        forall|k: int|
            0 <= k < s.len() ==> (#[trigger] s[k] matches DeclOrInstr::Instr(i) ==> instr_height(
                i.inner,
            ) <= items_height(s)),
    decreases s.len(),
{
    if s.len() > 0 {
        let d = s.drop_last();
        lemma_items_height(d);
        assert forall|k: int| 0 <= k < s.len() implies (#[trigger] s[k] matches DeclOrInstr::Instr(
            i,
        ) ==> instr_height(i.inner) <= items_height(s)) by {
            if k < s.len() - 1 {
                assert(d[k] == s[k]);
            }
        }
    }
}

} // verus!

verus! {

/// The parameters of a well-formed function are well formed.
pub proof fn lemma_fun_param_wf(f: FunDecl, n: nat, k: int)
    requires
        fun_wf(f, n),
        0 <= k < f.params@.len(),
    ensures
        ty_wf(f.params@[k].0),
        f.params@[k].1.inner < n,
{
    assert(fun_wf(f, n));
    assert(ty_wf(f.params@[k].0) && f.params@[k].1.inner < n);
}

} // verus!

verus! {

/// A depth, counted up to one more than [`type_bound`]: deeper ones all count as that.
pub open spec fn capped(h: nat) -> nat {
    if h <= type_bound() {
        h
    } else {
        type_bound() + 1
    }
}

/// Capping a depth commutes with taking the larger of two and with going one deeper.
proof fn lemma_capped(x: nat, y: nat)
    ensures
        capped(max(x, y)) == max(capped(x), capped(y)),
        capped(1 + max(x, y)) == capped(1 + max(capped(x), capped(y))),
        capped(1 + x) == capped(1 + capped(x)),
{
}

/// Every expression of a list is small exactly when the deepest one is.
proof fn lemma_args_small(s: Seq<WithSpan<Expr>>)
    ensures
        (args_height(s) <= type_bound()) <==> forall|k: int|
            0 <= k < s.len() ==> #[trigger] expr_small(s[k]),
    decreases s.len(),
{
    lemma_args_height(s);
    if s.len() > 0 {
        let d = s.drop_last();
        lemma_args_small(d);
        if forall|k: int| 0 <= k < s.len() ==> #[trigger] expr_small(s[k]) {
            assert forall|k: int| 0 <= k < d.len() implies #[trigger] expr_small(d[k]) by {
                assert(d[k] == s[k]);
                assert(expr_small(s[k]));
            }
            assert(expr_small(s[s.len() - 1]));
        }
    }
}

/// The parameter has a well-formed type and a name below `n`.
spec fn param_wf(p: (WithSpan<Type>, WithSpan<Ident>), n: nat) -> bool {
    ty_wf(p.0) && p.1.inner < n
}

/// How deeply loops nest in an optional instruction.
spec fn else_height(b: Option<WithSpan<Instr>>) -> nat {
    match b {
        Some(b) => instr_height(b.inner),
        None => 0,
    }
}

/// One level deeper than the deeper of two capped depths, capped.
fn deeper(a: usize, b: usize) -> (r: usize)
    requires
        a <= type_bound() + 1,
        b <= type_bound() + 1,
    ensures
        r == capped(1 + max(a as nat, b as nat)),
        r <= type_bound() + 1,
{
    let m = if a >= b {
        a
    } else {
        b
    };
    if m >= usize::MAX / 4 {
        usize::MAX / 4 + 1
    } else {
        m + 1
    }
}

/// Whether the expression is well formed for `n` names (see [`expr_wf`]), and its
/// depth, capped.
pub fn check_expr(e: &Expr, n: usize) -> (r: (bool, usize))
    ensures
        r.0 == expr_wf(*e, n as nat),
        r.1 == capped(expr_height(*e)),
    decreases e,
{
    match e {
        Expr::Ident(id) => (id.inner < n, 0),
        Expr::SizeOf(t) => (t.inner.indirection_count <= usize::MAX / 4, 0),
        Expr::Deref(b) | Expr::PrefixIncr(b) | Expr::PrefixDecr(b) | Expr::PostfixIncr(b)
        | Expr::PostfixDecr(b) | Expr::Addr(b) | Expr::Not(b) | Expr::Neg(b) | Expr::Pos(b) => {
            let (ok, h) = check_expr(&b.inner, n);
            proof {
                lemma_capped(expr_height(b.inner), 0);
            }
            (ok, deeper(h, 0))
        },
        Expr::Assign { lhs, rhs } | Expr::Op { lhs, rhs, .. } => {
            let (ok1, h1) = check_expr(&lhs.inner, n);
            let (ok2, h2) = check_expr(&rhs.inner, n);
            proof {
                lemma_capped(expr_height(lhs.inner), expr_height(rhs.inner));
            }
            (ok1 && ok2, deeper(h1, h2))
        },
        Expr::Call { name, args } => {
            let (ok, h) = check_args(args, n);
            proof {
                lemma_capped(args_height(args@), 0);
            }
            (name.inner < n && ok, deeper(h, 0))
        },
        _ => (true, 0),
    }
}

/// Whether the expressions are well formed for `n` names (see [`exprs_wf`]), and
/// the depth of the deepest, capped.
#[verifier::loop_isolation(false)]
pub fn check_args(args: &Vec<WithSpan<Expr>>, n: usize) -> (r: (bool, usize))
    ensures
        r.0 == exprs_wf(args@, n as nat),
        r.1 == capped(args_height(args@)),
    decreases args,
{
    let mut ok = true;
    let mut h: usize = 0;
    let mut i: usize = 0;
    assert(args@.subrange(0, 0) =~= Seq::<WithSpan<Expr>>::empty());
    while i < args.len()
        invariant
            i <= args@.len(),
            ok == exprs_wf(args@.subrange(0, i as int), n as nat),
            h == capped(args_height(args@.subrange(0, i as int))),
        decreases args@.len() - i,
    {
        proof {
            assert(decreases_to!(args => args@));
            assert(decreases_to!(args@ => args@[i as int]));
        }
        let (o, k) = check_expr(&args[i].inner, n);
        proof {
            assert(args@.subrange(0, i + 1).drop_last() =~= args@.subrange(0, i as int));
            lemma_capped(args_height(args@.subrange(0, i as int)), expr_height(args@[i as int].inner));
        }
        ok = ok && o;
        h = if k > h {
            k
        } else {
            h
        };
        i = i + 1;
    }
    assert(args@.subrange(0, i as int) =~= args@);
    (ok, h)
}

/// Whether an optional expression is well formed and small.
fn check_opt_expr(e: &Option<WithSpan<Expr>>, n: usize) -> (b: bool)
    ensures
        b == (opt_expr_wf(*e, n as nat) && opt_expr_small(*e)),
{
    match e {
        Some(e) => {
            let (ok, h) = check_expr(&e.inner, n);
            ok && h <= usize::MAX / 4
        },
        None => true,
    }
}

/// Whether the declaration is well formed for `n` names (see [`var_decl_wf`]).
fn check_var_decl(v: &VarDecl, n: usize) -> (b: bool)
    ensures
        b == var_decl_wf(*v, n as nat),
{
    v.ty.inner.indirection_count <= usize::MAX / 4 && v.name.inner < n && check_opt_expr(
        &v.value,
        n,
    )
}

/// Whether the instruction is well formed for `n` names (see [`instr_wf`]), and
/// how deeply loops nest in it, capped.
pub fn check_instr(i: &Instr, n: usize) -> (r: (bool, usize))
    ensures
        r.0 == instr_wf(*i, n as nat),
        r.1 == capped(instr_height(*i)),
    decreases i,
{
    match i {
        Instr::ExprInstr(e) => {
            let (ok, h) = check_expr(&e.inner, n);
            (ok && h <= usize::MAX / 4, 0)
        },
        Instr::If { cond, then_branch, else_branch } => {
            let (ok, h) = check_expr(&cond.inner, n);
            let (ok1, h1) = check_instr(&then_branch.inner, n);
            let (ok2, h2) = match &**else_branch {
                Some(b) => check_instr(&b.inner, n),
                None => (true, 0),
            };
            proof {
                lemma_capped(instr_height(then_branch.inner), else_height(**else_branch));
            }
            (ok && h <= usize::MAX / 4 && ok1 && ok2, deeper(h1, h2))
        },
        Instr::While { cond, body } => {
            let (ok, h) = check_expr(&cond.inner, n);
            let (ok1, h1) = check_instr(&body.inner, n);
            proof {
                lemma_capped(instr_height(body.inner), 0);
            }
            (ok && h <= usize::MAX / 4 && ok1, deeper(h1, 0))
        },
        Instr::For { loop_var, cond, incr, body } => {
            let ok_var = match loop_var {
                Some(v) => check_var_decl(&v.inner, n),
                None => true,
            };
            let ok_cond = check_opt_expr(cond, n);
            let (ok_incr, h_incr) = check_args(incr, n);
            let (ok_body, h_body) = check_instr(&body.inner, n);
            proof {
                lemma_args_small(incr@);
                lemma_capped(instr_height(body.inner), 0);
            }
            (ok_var && ok_cond && ok_incr && h_incr <= usize::MAX / 4 && ok_body, deeper(h_body, 0))
        },
        Instr::Block(b) => {
            let (ok, h) = check_items(&b.inner, n);
            proof {
                lemma_capped(items_height(b.inner@), 0);
            }
            (ok, deeper(h, 0))
        },
        Instr::Return(e) => (check_opt_expr(e, n), 0),
        _ => (true, 0),
    }
}

/// Whether the block item is well formed for `n` names (see [`item_wf`]), and how
/// deeply loops nest in it if it is an instruction, capped.
pub fn check_item(d: &DeclOrInstr, n: usize) -> (r: (bool, usize))
    ensures
        r.0 == item_wf(*d, n as nat),
        r.1 == capped(
            match *d {
                DeclOrInstr::Instr(i) => instr_height(i.inner),
                _ => 0,
            },
        ),
    decreases d,
{
    match d {
        DeclOrInstr::Fun(f) => (check_fun(&f.inner, n), 0),
        DeclOrInstr::Var(v) => (check_var_decl(&v.inner, n), 0),
        DeclOrInstr::Instr(i) => check_instr(&i.inner, n),
    }
}

/// Whether the block items are well formed for `n` names (see [`items_wf`]), and
/// how deeply loops nest in them, capped.
#[verifier::loop_isolation(false)]
pub fn check_items(s: &Vec<DeclOrInstr>, n: usize) -> (r: (bool, usize))
    ensures
        r.0 == items_wf(s@, n as nat),
        r.1 == capped(items_height(s@)),
    decreases s,
{
    let mut ok = true;
    let mut h: usize = 0;
    let mut i: usize = 0;
    assert(s@.subrange(0, 0) =~= Seq::<DeclOrInstr>::empty());
    while i < s.len()
        invariant
            i <= s@.len(),
            ok == items_wf(s@.subrange(0, i as int), n as nat),
            h == capped(items_height(s@.subrange(0, i as int))),
        decreases s@.len() - i,
    {
        proof {
            assert(decreases_to!(s => s@));
            assert(decreases_to!(s@ => s@[i as int]));
        }
        let (o, k) = check_item(&s[i], n);
        proof {
            assert(s@.subrange(0, i + 1).drop_last() =~= s@.subrange(0, i as int));
            let last = match s@[i as int] {
                DeclOrInstr::Instr(x) => instr_height(x.inner),
                _ => 0,
            };
            lemma_capped(items_height(s@.subrange(0, i as int)), last);
        }
        ok = ok && o;
        h = if k > h {
            k
        } else {
            h
        };
        i = i + 1;
    }
    assert(s@.subrange(0, i as int) =~= s@);
    (ok, h)
}

/// Whether the function declaration is well formed for `n` names (see [`fun_wf`]).
pub fn check_fun(f: &FunDecl, n: usize) -> (b: bool)
    ensures
        b == fun_wf(*f, n as nat),
    decreases f,
{
    let mut params_ok = true;
    let mut k: usize = 0;
    while k < f.params.len()
        invariant
            k <= f.params@.len(),
            params_ok == forall|j: int| 0 <= j < k ==> #[trigger] param_wf(f.params@[j], n as nat),
        decreases f.params@.len() - k,
    {
        let ghost prev = params_ok;
        let p = &f.params[k];
        params_ok = params_ok && p.0.inner.indirection_count <= usize::MAX / 4 && p.1.inner < n;
        proof {
            if params_ok {
                assert forall|j: int| 0 <= j < k + 1 implies #[trigger] param_wf(
                    f.params@[j],
                    n as nat,
                ) by {
                    if j < k {
                        assert(prev);
                    }
                }
            } else if prev {
                assert(!param_wf(f.params@[k as int], n as nat));
            } else {
                let j = choose|j: int| 0 <= j < k && !#[trigger] param_wf(f.params@[j], n as nat);
                assert(!param_wf(f.params@[j], n as nat));
            }
        }
        k = k + 1;
    }
    assert(params_ok == forall|j: int|
        0 <= j < f.params@.len() ==> #[trigger] ty_wf(f.params@[j].0) && f.params@[j].1.inner < n)
        by {
        if !params_ok {
            let j = choose|j: int|
                0 <= j < f.params@.len() && !#[trigger] param_wf(f.params@[j], n as nat);
            assert(!(ty_wf(f.params@[j].0) && f.params@[j].1.inner < n));
        } else {
            assert forall|j: int| 0 <= j < f.params@.len() implies #[trigger] ty_wf(
                f.params@[j].0,
            ) && f.params@[j].1.inner < n by {
                assert(param_wf(f.params@[j], n as nat));
            }
        }
    }
    let (ok, h) = check_items(&f.code.inner, n);
    f.ty.inner.indirection_count <= usize::MAX / 4 && f.name.inner < n && params_ok && ok && h
        <= usize::MAX / 4
}

/// Whether the program is well formed for `n` names (see [`file_wf`]).
pub fn check_file(file: &File, n: usize) -> (b: bool)
    ensures
        b == file_wf(*file, n as nat),
{
    let mut k: usize = 0;
    while k < file.fun_decls.len()
        invariant
            k <= file.fun_decls@.len(),
            forall|j: int| 0 <= j < k ==> #[trigger] fun_wf(file.fun_decls@[j].inner, n as nat),
        decreases file.fun_decls@.len() - k,
    {
        if !check_fun(&file.fun_decls[k].inner, n) {
            return false;
        }
        k = k + 1;
    }
    true
}

} // verus!
