//! The program tree that the instrumentation walks and rewrites, and its
//! mathematical view.
use crate::span::SrcRange;
use vstd::prelude::*;

verus! {

broadcast use vstd::std_specs::vec::axiom_vec_index_decreases;

/// A type as written in the source.
#[derive(Debug, PartialEq, Eq)]
pub enum Ty {
    /// A raw pointer to the inner type.
    Ptr(Box<Ty>),
    /// Any other type, by name.
    Named(String),
}

impl Ty {
    pub open spec fn is_ptr_spec(&self) -> bool {
        self is Ptr
    }
}

/// The view of a `Ty`.
pub enum TyV {
    Ptr(Box<TyV>),
    Named(Seq<char>),
}

impl Ty {
    pub open spec fn view(&self) -> TyV
        decreases self,
    {
        match self {
            Ty::Ptr(inner) => TyV::Ptr(Box::new(inner.view())),
            Ty::Named(n) => TyV::Named(n@),
        }
    }
}

/// A function's declared signature: parameter types and return type
/// (absent for a function that returns nothing).
#[derive(Debug, PartialEq, Eq)]
pub struct FnDecl {
    pub inputs: Vec<Ty>,
    pub output: Option<Ty>,
}

/// The view of a `FnDecl`.
pub struct FnDeclV {
    pub inputs: Seq<TyV>,
    pub output: Option<TyV>,
}

pub open spec fn tys_view(v: Seq<Ty>) -> Seq<TyV> {
    Seq::new(v.len(), |i: int| v[i].view())
}

impl FnDecl {
    pub open spec fn view(&self) -> FnDeclV {
        FnDeclV {
            inputs: tys_view(self.inputs@),
            output: match &self.output {
                Some(t) => Some(t.view()),
                None => None,
            },
        }
    }

    /// A copy of this signature.
    pub fn copy(&self) -> (r: FnDecl)
        ensures
            r@ == self@,
    {
        let mut inputs: Vec<Ty> = Vec::new();
        let mut i: usize = 0;
        while i < self.inputs.len()
            invariant
                i <= self.inputs@.len(),
                inputs@.len() == i,
                forall|j: int| 0 <= j < i ==> (#[trigger] inputs@[j])@ == self.inputs@[j]@,
            decreases self.inputs@.len() - i,
        {
            inputs.push(self.inputs[i].copy());
            i += 1;
        }
        let output = match &self.output {
            Some(t) => Some(t.copy()),
            None => None,
        };
        let r = FnDecl { inputs, output };
        assert(r@.inputs =~= self@.inputs);
        r
    }
}

/// An expression with its source range (absent for synthesized code) and
/// whether the type-checking phase found its static type to be a raw
/// pointer.
#[derive(Debug, PartialEq, Eq)]
pub struct Expr {
    pub kind: ExprKind,
    pub span: Option<SrcRange>,
    pub is_unsafe_ptr: bool,
}

#[derive(Debug, PartialEq, Eq)]
pub enum ExprKind {
    /// A path of one or more segments, `a::b::c`.
    Path(Vec<String>),
    /// An integer literal of type `usize`.
    Lit(u64),
    /// A string literal.
    Str(String),
    /// A call of the callee on the arguments.
    Call(Box<Expr>, Vec<Expr>),
    /// A dereference, `*e`.
    Deref(Box<Expr>),
    /// A cast, `e as T`.
    Cast(Box<Expr>, Ty),
    /// A block of statements; its value is that of a final `Stmt::Expr`.
    Block(Vec<Stmt>),
    /// Any other expression, by an operator name, with its operands.
    Other(String, Vec<Expr>),
    /// The value of an anonymous binding made by the instrumentation; no
    /// name written in the source can refer to it.
    Temp(u64),
}

#[derive(Debug, PartialEq, Eq)]
pub enum Stmt {
    /// `let <name> = <init>;`
    Local(String, Expr),
    /// `<expr>;`
    Semi(Expr),
    /// A trailing expression, without a semicolon.
    Expr(Expr),
    /// An anonymous binding made by the instrumentation: `let <temp> = <init>;`
    LetTemp(u64, Expr),
}

/// A function declared in a foreign block, or another foreign item
/// (without a signature).
#[derive(Debug, PartialEq, Eq)]
pub struct ForeignItem {
    pub name: String,
    pub decl: Option<FnDecl>,
}

#[derive(Debug, PartialEq, Eq)]
pub enum ItemKind {
    /// A function with its signature and body.
    Fn(FnDecl, Vec<Stmt>),
    /// A block of foreign declarations.
    ForeignMod(Vec<ForeignItem>),
    /// A module and its items.
    Mod(Vec<Item>),
    /// Any other item; nothing in it is rewritten.
    Other,
}

/// A top-level or nested declaration, with the names of its attributes.
#[derive(Debug, PartialEq, Eq)]
pub struct Item {
    pub name: String,
    pub attrs: Vec<String>,
    pub kind: ItemKind,
}

/// The view of an `Expr`: its code, without source ranges or type facts.
pub enum ExprV {
    Path(Seq<Seq<char>>),
    Lit(u64),
    Str(Seq<char>),
    Call(Box<ExprV>, Seq<ExprV>),
    Deref(Box<ExprV>),
    Cast(Box<ExprV>, TyV),
    Block(Seq<StmtV>),
    Other(Seq<char>, Seq<ExprV>),
    Temp(u64),
}

pub enum StmtV {
    Local(Seq<char>, ExprV),
    Semi(ExprV),
    Expr(ExprV),
    LetTemp(u64, ExprV),
}

pub open spec fn strings_view(v: Seq<String>) -> Seq<Seq<char>> {
    v.map_values(|s: String| s@)
}

pub open spec fn exprs_view(v: Seq<Expr>) -> Seq<ExprV>
    decreases v,
{
    Seq::new(v.len(), |i: int| if 0 <= i < v.len() { v[i].view() } else { ExprV::Lit(0) })
}

pub open spec fn stmts_view(v: Seq<Stmt>) -> Seq<StmtV>
    decreases v,
{
    Seq::new(v.len(), |i: int| if 0 <= i < v.len() { v[i].view() } else { StmtV::Semi(ExprV::Lit(0)) })
}

impl Expr {
    pub open spec fn view(&self) -> ExprV
        decreases self,
    {
        match &self.kind {
            ExprKind::Path(segs) => ExprV::Path(strings_view(segs@)),
            ExprKind::Lit(n) => ExprV::Lit(*n),
            ExprKind::Str(s) => ExprV::Str(s@),
            ExprKind::Call(f, args) => ExprV::Call(Box::new(f.view()), exprs_view(args@)),
            ExprKind::Deref(e) => ExprV::Deref(Box::new(e.view())),
            ExprKind::Cast(e, t) => ExprV::Cast(Box::new(e.view()), t.view()),
            ExprKind::Block(stmts) => ExprV::Block(stmts_view(stmts@)),
            ExprKind::Other(op, args) => ExprV::Other(op@, exprs_view(args@)),
            ExprKind::Temp(n) => ExprV::Temp(*n),
        }
    }
}

/// The view of a `ForeignItem`.
pub struct ForeignItemV {
    pub name: Seq<char>,
    pub decl: Option<FnDeclV>,
}

pub enum ItemKindV {
    Fn(FnDeclV, Seq<StmtV>),
    ForeignMod(Seq<ForeignItemV>),
    Mod(Seq<ItemV>),
    Other,
}

/// The view of an `Item`.
pub struct ItemV {
    pub name: Seq<char>,
    pub attrs: Seq<Seq<char>>,
    pub kind: ItemKindV,
}

impl ForeignItem {
    pub open spec fn view(&self) -> ForeignItemV {
        ForeignItemV {
            name: self.name@,
            decl: match &self.decl {
                Some(d) => Some(d@),
                None => None,
            },
        }
    }
}

pub open spec fn foreign_items_view(v: Seq<ForeignItem>) -> Seq<ForeignItemV> {
    Seq::new(v.len(), |i: int| v[i]@)
}

pub open spec fn items_view(v: Seq<Item>) -> Seq<ItemV>
    decreases v,
{
    Seq::new(
        v.len(),
        |i: int| if 0 <= i < v.len() { v[i].view() } else { ItemV { name: Seq::empty(), attrs: Seq::empty(), kind: ItemKindV::Other } },
    )
}

impl Item {
    pub open spec fn view(&self) -> ItemV
        decreases self,
    {
        ItemV {
            name: self.name@,
            attrs: strings_view(self.attrs@),
            kind: match &self.kind {
                ItemKind::Fn(d, body) => ItemKindV::Fn(d@, stmts_view(body@)),
                ItemKind::ForeignMod(fis) => ItemKindV::ForeignMod(foreign_items_view(fis@)),
                ItemKind::Mod(items) => ItemKindV::Mod(items_view(items@)),
                ItemKind::Other => ItemKindV::Other,
            },
        }
    }
}

impl Stmt {
    pub open spec fn view(&self) -> StmtV
        decreases self,
    {
        match self {
            Stmt::Local(n, e) => StmtV::Local(n@, e.view()),
            Stmt::Semi(e) => StmtV::Semi(e.view()),
            Stmt::Expr(e) => StmtV::Expr(e.view()),
            Stmt::LetTemp(n, e) => StmtV::LetTemp(*n, e.view()),
        }
    }
}

pub fn copy_strings(v: &Vec<String>) -> (r: Vec<String>)
    ensures
        strings_view(r@) == strings_view(v@),
{
    let mut r: Vec<String> = Vec::new();
    let mut i: usize = 0;
    while i < v.len()
        invariant
            i <= v@.len(),
            r@.len() == i,
            forall|j: int| 0 <= j < i ==> (#[trigger] r@[j])@ == v@[j]@,
        decreases v@.len() - i,
    {
        r.push(v[i].clone());
        i += 1;
    }
    assert(strings_view(r@) =~= strings_view(v@));
    r
}

impl Ty {
    pub fn is_ptr(&self) -> (r: bool)
        ensures
            r == self.is_ptr_spec(),
    {
        matches!(self, Ty::Ptr(_))
    }

    /// A copy of this type.
    pub fn copy(&self) -> (r: Ty)
        ensures
            r@ == self@,
        decreases self,
    {
        match self {
            Ty::Ptr(inner) => Ty::Ptr(Box::new(inner.copy())),
            Ty::Named(n) => Ty::Named(n.clone()),
        }
    }
}

impl Expr {
    /// A copy of this expression, with the same code.
    pub fn copy(&self) -> (r: Expr)
        ensures
            r@ == self@,
        decreases self,
    {
        let kind = match &self.kind {
            ExprKind::Path(segs) => ExprKind::Path(copy_strings(segs)),
            ExprKind::Lit(n) => ExprKind::Lit(*n),
            ExprKind::Str(s) => ExprKind::Str(s.clone()),
            ExprKind::Call(f, args) => ExprKind::Call(Box::new(f.copy()), copy_exprs(args)),
            ExprKind::Deref(e) => ExprKind::Deref(Box::new(e.copy())),
            ExprKind::Cast(e, t) => ExprKind::Cast(Box::new(e.copy()), t.copy()),
            ExprKind::Block(stmts) => ExprKind::Block(copy_stmts(stmts)),
            ExprKind::Other(op, args) => ExprKind::Other(op.clone(), copy_exprs(args)),
            ExprKind::Temp(n) => ExprKind::Temp(*n),
        };
        Expr { kind, span: self.span.clone(), is_unsafe_ptr: self.is_unsafe_ptr }
    }
}

impl Stmt {
    pub fn copy(&self) -> (r: Stmt)
        ensures
            r@ == self@,
        decreases self,
    {
        match self {
            Stmt::Local(n, e) => Stmt::Local(n.clone(), e.copy()),
            Stmt::Semi(e) => Stmt::Semi(e.copy()),
            Stmt::Expr(e) => Stmt::Expr(e.copy()),
            Stmt::LetTemp(n, e) => Stmt::LetTemp(*n, e.copy()),
        }
    }
}

impl ForeignItem {
    pub fn copy(&self) -> (r: ForeignItem)
        ensures
            r@ == self@,
    {
        ForeignItem {
            name: self.name.clone(),
            decl: match &self.decl {
                Some(d) => Some(d.copy()),
                None => None,
            },
        }
    }
}

pub fn copy_exprs(v: &Vec<Expr>) -> (r: Vec<Expr>)
    ensures
        exprs_view(r@) == exprs_view(v@),
    decreases v,
{
    let mut r: Vec<Expr> = Vec::new();
    let mut i: usize = 0;
    while i < v.len()
        invariant
            i <= v@.len(),
            r@.len() == i,
            forall|j: int| 0 <= j < i ==> (#[trigger] r@[j])@ == v@[j]@,
        decreases v@.len() - i,
    {
        r.push(v[i].copy());
        i += 1;
    }
    assert(exprs_view(r@) =~= exprs_view(v@));
    r
}

pub fn copy_stmts(v: &Vec<Stmt>) -> (r: Vec<Stmt>)
    ensures
        stmts_view(r@) == stmts_view(v@),
    decreases v,
{
    let mut r: Vec<Stmt> = Vec::new();
    let mut i: usize = 0;
    while i < v.len()
        invariant
            i <= v@.len(),
            r@.len() == i,
            forall|j: int| 0 <= j < i ==> (#[trigger] r@[j])@ == v@[j]@,
        decreases v@.len() - i,
    {
        r.push(v[i].copy());
        i += 1;
    }
    assert(stmts_view(r@) =~= stmts_view(v@));
    r
}

/// Moves the statements of `src`, in order, to the end of `dst`.
pub fn append_stmts(dst: &mut Vec<Stmt>, src: Vec<Stmt>)
    ensures
        stmts_view(final(dst)@) == stmts_view(old(dst)@) + stmts_view(src@),
{
    let ghost d0 = dst@;
    let ghost orig = src@;
    let mut rest = src;
    let n = rest.len();
    let mut i: usize = 0;
    while rest.len() > 0
        invariant
            n == orig.len(),
            rest@.len() + i == orig.len(),
            rest@ == orig.subrange(i as int, orig.len() as int),
            dst@.len() == d0.len() + i,
            forall|j: int| 0 <= j < d0.len() ==> #[trigger] dst@[j] == d0[j],
            forall|j: int| 0 <= j < i ==> (#[trigger] dst@[d0.len() + j])@ == orig[j]@,
        decreases rest@.len(),
    {
        let s = rest.remove(0);
        dst.push(s);
        i += 1;
    }
    let ghost want = stmts_view(d0) + stmts_view(orig);
    assert forall|k: int| 0 <= k < dst@.len() implies stmts_view(dst@)[k] == want[k] by {
        if k >= d0.len() {
            assert(dst@[d0.len() + (k - d0.len())]@ == orig[k - d0.len()]@);
        }
    }
    assert(stmts_view(dst@) =~= want);
}

} // verus!
