//! The instrumentation pass: hooked calls and raw-pointer dereferences are
//! wrapped in blocks that report them to the trace runtime, and the span
//! table is serialized at the end.
use crate::ast::{Expr, ExprKind, ExprV, FnDecl, FnDeclV, ForeignItem, Item, ItemKind, ItemV, Stmt, StmtV, Ty, exprs_view, foreign_items_view, items_view, stmts_view};
use crate::entry::{entry_point_type, is_entry_exec};
use crate::hooks::{HookFn, HookRegistry, hook_by_name, hook_name};
use crate::rewrite::{
    arg_slot_v, arg_slots_v, bind_args_v,
    cast_if_ptr, collect_item, collect_items, config_stmt_v, deref_operand, deref_v, grows, hook_args_v, hooked_call,
    hooked_call_v, hooked_callee, is_raw_deref, min_len, register_all, rewrite, rewrite_all,
    rewrite_item, rewrite_items, rewrite_stmt, rewrite_stmts, runtime_crate, span_key, usize_ty,
    lemma_rewrite_all_err, lemma_rewrite_items_err, lemma_rewrite_stmts_err,
};
use crate::span::{SpanRecord, LocationError, SpanKey, SpanTable, SrcRange, intern_table, interned_index, lemma_interned_index_bounded};
use crate::span_file::{encode_span_records, records_view, span_table_encoding};
use vstd::prelude::*;
use vstd::string::StringExecFns;

verus! {

/// A synthesized expression.
fn synth(kind: ExprKind) -> (r: Expr)
    ensures
        r.kind == kind,
        r.span is None,
        !r.is_unsafe_ptr,
{
    Expr { kind, span: None, is_unsafe_ptr: false }
}

fn path_expr(segs: Vec<String>) -> (r: Expr)
    ensures
        r@ == ExprV::Path(crate::ast::strings_view(segs@)),
{
    synth(ExprKind::Path(segs))
}

/// Whether an argument is plain: a literal, a plain path or a temporary.
fn is_plain_expr(e: &Expr) -> (r: bool)
    ensures
        r == crate::rewrite::is_plain(e@),
{
    match &e.kind {
        ExprKind::Lit(_) | ExprKind::Str(_) | ExprKind::Path(_) | ExprKind::Temp(_) => true,
        _ => false,
    }
}

/// The value of anonymous temporary `i`.
fn temp_expr(i: u64) -> (r: Expr)
    ensures
        r@ == ExprV::Temp(i),
{
    synth(ExprKind::Temp(i))
}

/// A path into the trace runtime: `c2rust_analysis_rt::<name>`.
fn runtime_path(name: String) -> (r: Expr)
    ensures
        r@ == ExprV::Path(seq![runtime_crate(), name@]),
{
    let segs = vec![String::from_str("c2rust_analysis_rt"), name];
    assert(crate::ast::strings_view(segs@) =~= seq![runtime_crate(), name@]);
    path_expr(segs)
}

fn usize_ty_expr() -> (r: Ty)
    ensures
        r@ == usize_ty(),
{
    Ty::Named(String::from_str("usize"))
}

/// `expr as usize` where `ty` is a raw pointer type, `expr` otherwise.
pub fn add_ptr_cast(expr: Expr, ty: &Ty) -> (r: Expr)
    ensures
        r@ == cast_if_ptr(expr@, ty@),
{
    if ty.is_ptr() {
        synth(ExprKind::Cast(Box::new(expr), usize_ty_expr()))
    } else {
        expr
    }
}

/// `{ let t0 = expr; hook; t0 }`: evaluates `expr` once into anonymous
/// temporary `0`, runs `hook`, and yields the value of `expr`; it is
/// marked a raw pointer where `expr` is one.
pub fn instrument_expr(expr: Expr, hook: Expr) -> (r: Expr)
    ensures
        r@ == ExprV::Block(seq![StmtV::LetTemp(0, expr@), StmtV::Semi(hook@), StmtV::Expr(ExprV::Temp(0))]),
        r.is_unsafe_ptr == expr.is_unsafe_ptr,
{
    let is_unsafe_ptr = expr.is_unsafe_ptr;
    let ghost ev = expr@;
    let ghost hv = hook@;
    let block = vec![Stmt::LetTemp(0, expr), Stmt::Semi(hook), Stmt::Expr(temp_expr(0))];
    assert(block@[0]@ == StmtV::LetTemp(0, ev));
    assert(block@[1]@ == StmtV::Semi(hv));
    assert(block@[2]@ == StmtV::Expr(ExprV::Temp(0)));
    assert(stmts_view(block@) =~= seq![StmtV::LetTemp(0, ev), StmtV::Semi(hv), StmtV::Expr(ExprV::Temp(0))]);
    Expr { kind: ExprKind::Block(block), span: None, is_unsafe_ptr }
}

/// Why a whole instrumentation pass fails.
#[derive(Clone, Debug, PartialEq, Eq)]
pub enum PassError {
    /// No destination for the span table was given.
    MissingDestination,
    /// A span to be named crosses files or lies in no source file.
    Location(LocationError),
}

/// The state of one instrumentation pass: where the span table goes, the
/// signatures of the hooked functions, and the spans named so far.
pub struct LifetimeInstrumentation {
    span_file_path: String,
    hooked_functions: HookRegistry,
    spans: SpanTable,
}

impl LifetimeInstrumentation {
    pub closed spec fn span_file(&self) -> Seq<char> {
        self.span_file_path@
    }

    pub closed spec fn hooks(&self) -> Map<HookFn, FnDeclV> {
        self.hooked_functions@
    }

    pub closed spec fn spans(&self) -> Seq<SpanKey> {
        self.spans@
    }

    pub closed spec fn wf(&self) -> bool {
        &&& self.hooked_functions.wf()
        &&& self.spans.wf()
    }

    /// A pass that will write its span table to `span_file_path`, with no
    /// hooked function recorded and no span named yet.
    pub fn new(span_file_path: String) -> (r: LifetimeInstrumentation)
        ensures
            r.wf(),
            r.span_file() == span_file_path@,
            r.hooks() == Map::<HookFn, FnDeclV>::empty(),
            r.spans() == Seq::<SpanKey>::empty(),
    {
        LifetimeInstrumentation {
            span_file_path,
            hooked_functions: HookRegistry::new(),
            spans: SpanTable::new(),
        }
    }

    /// Records a foreign function's signature if its name is hooked.
    pub fn register_foreign_fn(&mut self, name: &str, decl: &FnDecl)
        requires
            old(self).wf(),
        ensures
            final(self).wf(),
            final(self).span_file() == old(self).span_file(),
            final(self).spans() == old(self).spans(),
            match hook_by_name(name@) {
                Some(h) => final(self).hooks() == old(self).hooks().insert(h, decl@),
                None => final(self).hooks() == old(self).hooks(),
            },
    {
        self.hooked_functions.register_foreign_fn(name, decl);
    }

    /// The hooked function that `callee` names, if it is a bare name whose
    /// declaration has been recorded.
    pub fn hooked_fn(&self, callee: &Expr) -> (r: Option<HookFn>)
        requires
            self.wf(),
        ensures
            r == hooked_callee(*callee, self.hooks()),
    {
        match &callee.kind {
            ExprKind::Path(segs) => {
                if segs.len() == 1 {
                    match HookFn::from_name(segs[0].as_str()) {
                        Some(h) => match self.hooked_functions.lookup(h) {
                            Some(_) => Some(h),
                            None => None,
                        },
                        None => None,
                    }
                } else {
                    None
                }
            },
            _ => None,
        }
    }

    /// The index of the span that `span` denotes, named now if new.
    pub fn get_source_location_idx(&mut self, span: &Option<SrcRange>) -> (r: Result<usize, LocationError>)
        requires
            old(self).wf(),
        ensures
            final(self).wf(),
            final(self).span_file() == old(self).span_file(),
            final(self).hooks() == old(self).hooks(),
            match span_key(*span) {
                Ok(k) => {
                    &&& r is Ok && r->Ok_0 == interned_index(old(self).spans(), k)
                    &&& final(self).spans() == intern_table(old(self).spans(), k)
                    &&& r->Ok_0 < final(self).spans().len()
                    &&& final(self).spans()[r->Ok_0 as int] == k
                    &&& k.1 <= k.2
                },
                Err(e) => r == Err::<usize, LocationError>(e) && final(self).spans() == old(self).spans(),
            },
    {
        proof {
            match span_key(*span) {
                Ok(k) => {
                    lemma_interned_index_bounded(self.spans(), k);
                    crate::span::lemma_interned_index_locates(self.spans(), k);
                },
                Err(_) => {},
            }
        }
        match span {
            Some(range) => self.spans.intern_range(range),
            None => Err(LocationError::NoLocation),
        }
    }

    /// The call that reports a call of `h` on `slots` at span `idx`, its
    /// result in temporary `slots.len()`:
    /// `c2rust_analysis_rt::<h>(idx, slots.., result)`.
    fn build_hook_call(&self, h: HookFn, slots: &Vec<Expr>, idx: usize) -> (r: Expr)
        requires
            self.wf(),
            self.hooks().contains_key(h),
        ensures
            r@ == ExprV::Call(
                Box::new(ExprV::Path(seq![runtime_crate(), hook_name(h)])),
                hook_args_v(idx as nat, exprs_view(slots@), self.hooks()[h]),
            ),
    {
        let callee = runtime_path(h.name());
        let decl = match self.hooked_functions.lookup(h) {
            Some(d) => d,
            None => {
                return callee;
            },
        };
        let ghost dv = decl@;
        let ghost sv = exprs_view(slots@);
        let n = slots.len();
        let mut hook_args: Vec<Expr> = vec![synth(ExprKind::Lit(idx as u64))];
        let m = if n < decl.inputs.len() {
            n
        } else {
            decl.inputs.len()
        };
        let mut i: usize = 0;
        while i < m
            invariant
                m == min_len(n as int, decl.inputs@.len() as int),
                n == slots@.len(),
                sv == exprs_view(slots@),
                i <= m,
                dv == decl@,
                hook_args@.len() == i + 1,
                hook_args@[0]@ == ExprV::Lit(idx as u64),
                forall|j: int| 0 <= j < i ==> (#[trigger] hook_args@[j + 1])@ == cast_if_ptr(sv[j], dv.inputs[j]),
            decreases m - i,
        {
            let a = add_ptr_cast(slots[i].copy(), &decl.inputs[i]);
            hook_args.push(a);
            i += 1;
        }
        let ret = match &decl.output {
            Some(t) => add_ptr_cast(temp_expr(n as u64), t),
            None => temp_expr(n as u64),
        };
        hook_args.push(ret);
        let ghost want = hook_args_v(idx as nat, sv, dv);
        assert forall|k: int| 0 <= k < hook_args@.len() implies exprs_view(hook_args@)[k] == want[k] by {
            if 1 <= k <= m {
                assert(hook_args@[(k - 1) + 1]@ == cast_if_ptr(sv[k - 1], dv.inputs[k - 1]));
            }
        }
        assert(exprs_view(hook_args@) =~= want);
        synth(ExprKind::Call(Box::new(callee), hook_args))
    }

    /// Rewrites a call of hooked function `h` whose span has index `idx`:
    /// each argument that is not plain goes, in order, into an anonymous
    /// temporary; the callee is called once, into one more temporary; the
    /// hook call follows; the block yields the call's result.
    fn instrument_call(&self, h: HookFn, call: Expr, idx: usize) -> (r: Expr)
        requires
            self.wf(),
            self.hooks().contains_key(h),
            call.kind is Call,
        ensures
            r@ == hooked_call_v(call@, h, self.hooks()[h], idx as nat),
            r.is_unsafe_ptr == call.is_unsafe_ptr,
            !(r.kind is Path),
    {
        let ghost cv = call@;
        let Expr { kind, span, is_unsafe_ptr } = call;
        match kind {
            ExprKind::Call(f, args) => {
                let ghost orig = args@;
                let ghost ov = exprs_view(args@);
                let n = args.len();
                let mut binds: Vec<Stmt> = Vec::new();
                let mut slots: Vec<Expr> = Vec::new();
                let mut rest = args;
                let mut i: usize = 0;
                assert(stmts_view(binds@) =~= bind_args_v(ov, 0));
                while rest.len() > 0
                    invariant
                        n == orig.len(),
                        ov == exprs_view(orig),
                        rest@.len() + i == orig.len(),
                        rest@ == orig.subrange(i as int, orig.len() as int),
                        slots@.len() == i,
                        forall|j: int| 0 <= j < i ==> (#[trigger] slots@[j])@ == arg_slot_v(ov, j),
                        stmts_view(binds@) == bind_args_v(ov, i as nat),
                    decreases rest@.len(),
                {
                    let a = rest.remove(0);
                    assert(a@ == ov[i as int]);
                    let ghost b0 = binds@;
                    if is_plain_expr(&a) {
                        slots.push(a);
                        assert(stmts_view(binds@) =~= bind_args_v(ov, (i + 1) as nat));
                    } else {
                        let ghost av = a@;
                        let st = Stmt::LetTemp(i as u64, a);
                        assert(st@ == StmtV::LetTemp(i as u64, av));
                        binds.push(st);
                        slots.push(temp_expr(i as u64));
                        assert(stmts_view(binds@) =~= stmts_view(b0).push(StmtV::LetTemp(i as u64, av)));
                        assert(stmts_view(binds@) =~= bind_args_v(ov, (i + 1) as nat));
                    }
                    i += 1;
                }
                assert(exprs_view(slots@) =~= arg_slots_v(ov));
                let hook = self.build_hook_call(h, &slots, idx);
                let made = Expr { kind: ExprKind::Call(f, slots), span, is_unsafe_ptr };
                let tail = vec![Stmt::LetTemp(n as u64, made), Stmt::Semi(hook), Stmt::Expr(temp_expr(n as u64))];
                let ghost want = hooked_call_v(cv, h, self.hooks()[h], idx as nat)->Block_0;
                let ghost k = bind_args_v(ov, n as nat).len();
                assert(stmts_view(tail@) =~= want.subrange(k as int, k as int + 3));
                crate::ast::append_stmts(&mut binds, tail);
                let r = Expr { kind: ExprKind::Block(binds), span: None, is_unsafe_ptr };
                assert(r@->Block_0 =~= want);
                r
            },
            other => Expr { kind: other, span, is_unsafe_ptr },
        }
    }

    /// The call that reports a dereference at span `idx` through temporary
    /// `0`: `c2rust_analysis_rt::ptr_deref(idx, t0 as usize)`.
    fn build_deref_hook_call(idx: usize) -> (r: Expr)
        ensures
            r@ == crate::rewrite::deref_hook_v(idx as nat),
    {
        let callee = runtime_path(String::from_str("ptr_deref"));
        let addr = synth(ExprKind::Cast(Box::new(temp_expr(0)), usize_ty_expr()));
        let args = vec![synth(ExprKind::Lit(idx as u64)), addr];
        assert(exprs_view(args@) =~= seq![ExprV::Lit(idx as u64), ExprV::Cast(Box::new(ExprV::Temp(0)), usize_ty())]);
        synth(ExprKind::Call(Box::new(callee), args))
    }

    /// Rewrites one expression whose operands have already been rewritten.
    /// A call of a recorded hooked function by its bare name becomes a block
    /// that evaluates the arguments and makes the call once, reports it,
    /// and yields its result. A dereference of a raw pointer becomes a
    /// dereference of a block that reports the pointer and yields it.
    /// Anything else is returned as it is. Fails when the span of an
    /// expression to rewrite cannot be named.
    pub fn instrument_node(&mut self, e: Expr) -> (r: Result<Expr, LocationError>)
        requires
            old(self).wf(),
        ensures
            final(self).wf(),
            final(self).span_file() == old(self).span_file(),
            final(self).hooks() == old(self).hooks(),
            match hooked_call(e, old(self).hooks()) {
                Some(h) => match span_key(e.span) {
                    Ok(k) => {
                        &&& r is Ok
                        &&& r->Ok_0@ == hooked_call_v(e@, h, old(self).hooks()[h], interned_index(old(self).spans(), k) as nat)
                        &&& final(self).spans() == intern_table(old(self).spans(), k)
                    },
                    Err(x) => r == Err::<Expr, LocationError>(x) && final(self).spans() == old(self).spans(),
                },
                None => if is_raw_deref(e) {
                    match span_key(e.span) {
                        Ok(k) => {
                            &&& r is Ok
                            &&& r->Ok_0@ == deref_v(deref_operand(e@), interned_index(old(self).spans(), k) as nat)
                            &&& final(self).spans() == intern_table(old(self).spans(), k)
                        },
                        Err(x) => r == Err::<Expr, LocationError>(x) && final(self).spans() == old(self).spans(),
                    }
                } else {
                    r == Ok::<Expr, LocationError>(e) && final(self).spans() == old(self).spans()
                },
            },
            r is Ok ==> r->Ok_0.is_unsafe_ptr == e.is_unsafe_ptr,
            r is Ok ==> (r->Ok_0.kind is Path <==> e.kind is Path),
    {
        let ghost e0 = e;
        let raw_deref = match &e.kind {
            ExprKind::Deref(inner) => inner.is_unsafe_ptr,
            _ => false,
        };
        let hooked = match &e.kind {
            ExprKind::Call(callee, _) => self.hooked_fn(callee),
            _ => None,
        };
        match hooked {
            Some(h) => {
                let idx = match self.get_source_location_idx(&e.span) {
                    Ok(i) => i,
                    Err(x) => {
                        return Err(x);
                    },
                };
                proof {
                    lemma_interned_index_bounded(old(self).spans(), span_key(e.span)->Ok_0);
                }
                let r = self.instrument_call(h, e, idx);
                assert(idx as nat == interned_index(old(self).spans(), span_key(e0.span)->Ok_0) as nat);
                return Ok(r);
            },
            None => {},
        }
        if raw_deref {
            let idx = match self.get_source_location_idx(&e.span) {
                Ok(i) => i,
                Err(x) => {
                    return Err(x);
                },
            };
            proof {
                lemma_interned_index_bounded(old(self).spans(), span_key(e.span)->Ok_0);
            }
            let Expr { kind, span, is_unsafe_ptr } = e;
            match kind {
                ExprKind::Deref(inner) => {
                    let block = instrument_expr(*inner, Self::build_deref_hook_call(idx));
                    let r = Expr { kind: ExprKind::Deref(Box::new(block)), span, is_unsafe_ptr };
                    assert(r@->Deref_0 == (deref_v(deref_operand(e0@), idx as nat)->Deref_0));
                    assert(idx as nat == interned_index(old(self).spans(), span_key(e0.span)->Ok_0) as nat);
                    return Ok(r);
                },
                other => Ok(Expr { kind: other, span, is_unsafe_ptr }),
            }
        } else {
            Ok(e)
        }
    }

    /// Rewrites an expression bottom-up: its operands first, left to right,
    /// then the expression itself (see `instrument_node`). Stops at the
    /// first span that cannot be named.
    pub fn fold_expr(&mut self, e: &Expr) -> (r: Result<Expr, LocationError>)
        requires
            old(self).wf(),
        ensures
            final(self).wf(),
            final(self).span_file() == old(self).span_file(),
            final(self).hooks() == old(self).hooks(),
            grows(old(self).spans(), final(self).spans()),
            match rewrite(*e, old(self).spans(), old(self).hooks()) {
                Ok((v, t)) => {
                    &&& r is Ok
                    &&& r->Ok_0@ == v
                    &&& final(self).spans() == t
                    &&& r->Ok_0.is_unsafe_ptr == e.is_unsafe_ptr
                    &&& hooked_callee(r->Ok_0, old(self).hooks()) == hooked_callee(*e, old(self).hooks())
                },
                Err(x) => r == Err::<Expr, LocationError>(x),
            },
        decreases e,
    {
        let kind = match &e.kind {
            ExprKind::Path(segs) => ExprKind::Path(crate::ast::copy_strings(segs)),
            ExprKind::Lit(n) => ExprKind::Lit(*n),
            ExprKind::Str(s) => ExprKind::Str(s.clone()),
            ExprKind::Call(f, args) => {
                let f2 = match self.fold_expr(f) {
                    Ok(x) => x,
                    Err(x) => {
                        return Err(x);
                    },
                };
                let args2 = match self.fold_exprs(args) {
                    Ok(x) => x,
                    Err(x) => {
                        return Err(x);
                    },
                };
                ExprKind::Call(Box::new(f2), args2)
            },
            ExprKind::Deref(inner) => match self.fold_expr(inner) {
                Ok(x) => ExprKind::Deref(Box::new(x)),
                Err(x) => {
                    return Err(x);
                },
            },
            ExprKind::Cast(inner, t) => match self.fold_expr(inner) {
                Ok(x) => ExprKind::Cast(Box::new(x), t.copy()),
                Err(x) => {
                    return Err(x);
                },
            },
            ExprKind::Block(stmts) => match self.fold_stmts(stmts) {
                Ok(x) => ExprKind::Block(x),
                Err(x) => {
                    return Err(x);
                },
            },
            ExprKind::Other(op, args) => match self.fold_exprs(args) {
                Ok(x) => ExprKind::Other(op.clone(), x),
                Err(x) => {
                    return Err(x);
                },
            },
            ExprKind::Temp(n) => ExprKind::Temp(*n),
        };
        let ne = Expr { kind, span: crate::span::copy_span(&e.span), is_unsafe_ptr: e.is_unsafe_ptr };
        let ghost reg = self.hooks();
        proof {
            if e.kind is Path {
                    let segs = e.kind->Path_0;
                    let segs2 = ne.kind->Path_0;
                    assert(crate::ast::strings_view(segs2@) == crate::ast::strings_view(segs@));
                    assert(segs2@.len() == crate::ast::strings_view(segs2@).len());
                    assert(segs@.len() == crate::ast::strings_view(segs@).len());
                    if segs@.len() > 0 {
                        assert(segs2@[0]@ == crate::ast::strings_view(segs2@)[0]);
                        assert(segs@[0]@ == crate::ast::strings_view(segs@)[0]);
                    }
                    assert(hooked_callee(ne, reg) == hooked_callee(*e, reg));
            }
            assert(hooked_call(ne, reg) == hooked_call(*e, reg));
            assert(is_raw_deref(ne) == is_raw_deref(*e));
        }
        let r = self.instrument_node(ne);
        r
    }

    /// Rewrites each expression of `v` in order.
    pub fn fold_exprs(&mut self, v: &Vec<Expr>) -> (r: Result<Vec<Expr>, LocationError>)
        requires
            old(self).wf(),
        ensures
            final(self).wf(),
            final(self).span_file() == old(self).span_file(),
            final(self).hooks() == old(self).hooks(),
            grows(old(self).spans(), final(self).spans()),
            r is Ok ==> r->Ok_0@.len() == v@.len(),
            match rewrite_all(v@, v@.len(), old(self).spans(), old(self).hooks()) {
                Ok((vs, t)) => r is Ok && exprs_view(r->Ok_0@) == vs && final(self).spans() == t,
                Err(x) => r == Err::<Vec<Expr>, LocationError>(x),
            },
        decreases v,
    {
        let ghost t0 = self.spans();
        let ghost reg = self.hooks();
        let mut out: Vec<Expr> = Vec::new();
        let mut i: usize = 0;
        assert(exprs_view(out@) =~= Seq::<ExprV>::empty());
        while i < v.len()
            invariant
                self.wf(),
                self.span_file() == old(self).span_file(),
                self.hooks() == reg,
                reg == old(self).hooks(),
                t0 == old(self).spans(),
                grows(old(self).spans(), self.spans()),
                i <= v@.len(),
                out@.len() == i,
                rewrite_all(v@, i as nat, t0, reg) == Ok::<(Seq<ExprV>, Seq<SpanKey>), LocationError>((exprs_view(out@), self.spans())),
            decreases v@.len() - i,
        {
            let ghost before = out@;
            match self.fold_expr(&v[i]) {
                Ok(x) => {
                    out.push(x);
                    assert(exprs_view(out@) =~= exprs_view(before).push(x@));
                },
                Err(x) => {
                    proof {
                        lemma_rewrite_all_err(v@, (i + 1) as nat, v@.len(), t0, reg);
                    }
                    return Err(x);
                },
            }
            i += 1;
        }
        Ok(out)
    }

    /// Rewrites the expressions of a statement.
    pub fn fold_stmt(&mut self, s: &Stmt) -> (r: Result<Stmt, LocationError>)
        requires
            old(self).wf(),
        ensures
            final(self).wf(),
            final(self).span_file() == old(self).span_file(),
            final(self).hooks() == old(self).hooks(),
            grows(old(self).spans(), final(self).spans()),
            match rewrite_stmt(*s, old(self).spans(), old(self).hooks()) {
                Ok((v, t)) => r is Ok && r->Ok_0@ == v && final(self).spans() == t,
                Err(x) => r == Err::<Stmt, LocationError>(x),
            },
        decreases s,
    {
        match s {
            Stmt::Local(n, e) => match self.fold_expr(e) {
                Ok(x) => Ok(Stmt::Local(n.clone(), x)),
                Err(x) => Err(x),
            },
            Stmt::Semi(e) => match self.fold_expr(e) {
                Ok(x) => Ok(Stmt::Semi(x)),
                Err(x) => Err(x),
            },
            Stmt::Expr(e) => match self.fold_expr(e) {
                Ok(x) => Ok(Stmt::Expr(x)),
                Err(x) => Err(x),
            },
            Stmt::LetTemp(n, e) => match self.fold_expr(e) {
                Ok(x) => Ok(Stmt::LetTemp(*n, x)),
                Err(x) => Err(x),
            },
        }
    }

    /// Rewrites each statement of `v` in order.
    pub fn fold_stmts(&mut self, v: &Vec<Stmt>) -> (r: Result<Vec<Stmt>, LocationError>)
        requires
            old(self).wf(),
        ensures
            final(self).wf(),
            final(self).span_file() == old(self).span_file(),
            final(self).hooks() == old(self).hooks(),
            grows(old(self).spans(), final(self).spans()),
            r is Ok ==> r->Ok_0@.len() == v@.len(),
            match rewrite_stmts(v@, v@.len(), old(self).spans(), old(self).hooks()) {
                Ok((vs, t)) => r is Ok && stmts_view(r->Ok_0@) == vs && final(self).spans() == t,
                Err(x) => r == Err::<Vec<Stmt>, LocationError>(x),
            },
        decreases v,
    {
        let ghost t0 = self.spans();
        let ghost reg = self.hooks();
        let mut out: Vec<Stmt> = Vec::new();
        let mut i: usize = 0;
        assert(stmts_view(out@) =~= Seq::<StmtV>::empty());
        while i < v.len()
            invariant
                self.wf(),
                self.span_file() == old(self).span_file(),
                self.hooks() == reg,
                reg == old(self).hooks(),
                t0 == old(self).spans(),
                grows(old(self).spans(), self.spans()),
                i <= v@.len(),
                out@.len() == i,
                rewrite_stmts(v@, i as nat, t0, reg) == Ok::<(Seq<StmtV>, Seq<SpanKey>), LocationError>((stmts_view(out@), self.spans())),
            decreases v@.len() - i,
        {
            let ghost before = out@;
            match self.fold_stmt(&v[i]) {
                Ok(x) => {
                    out.push(x);
                    assert(stmts_view(out@) =~= stmts_view(before).push(x@));
                },
                Err(x) => {
                    proof {
                        lemma_rewrite_stmts_err(v@, (i + 1) as nat, v@.len(), t0, reg);
                    }
                    return Err(x);
                },
            }
            i += 1;
        }
        Ok(out)
    }

    /// `body` with the runtime's configuration call put first.
    pub fn instrument_main_block(&self, body: Vec<Stmt>) -> (r: Vec<Stmt>)
        ensures
            stmts_view(r@) == seq![config_stmt_v(self.span_file())] + stmts_view(body@),
    {
        let callee = runtime_path(String::from_str("set_span_file"));
        let args = vec![synth(ExprKind::Str(self.span_file_path.clone()))];
        assert(exprs_view(args@) =~= seq![ExprV::Str(self.span_file())]);
        let first = Stmt::Semi(synth(ExprKind::Call(Box::new(callee), args)));
        let ghost fv = first@;
        let mut r: Vec<Stmt> = vec![first];
        assert(stmts_view(r@) =~= seq![fv]);
        crate::ast::append_stmts(&mut r, body);
        r
    }

    /// Rewrites a declaration declared at scope depth `depth`: the bodies
    /// of functions and the items of modules (one level deeper). An entry
    /// point gets the runtime's configuration call as its first statement.
    pub fn fold_item(&mut self, item: &Item, depth: usize) -> (r: Result<Item, LocationError>)
        requires
            old(self).wf(),
        ensures
            final(self).wf(),
            final(self).span_file() == old(self).span_file(),
            final(self).hooks() == old(self).hooks(),
            grows(old(self).spans(), final(self).spans()),
            r is Ok ==> r->Ok_0.name@ == item.name@,
            match rewrite_item(*item, depth as nat, old(self).span_file(), old(self).spans(), old(self).hooks()) {
                Ok((v, t)) => r is Ok && r->Ok_0@ == v && final(self).spans() == t,
                Err(x) => r == Err::<Item, LocationError>(x),
            },
        decreases item,
    {
        let kind = match &item.kind {
            ItemKind::Fn(decl, body) => {
                let body2 = match self.fold_stmts(body) {
                    Ok(x) => x,
                    Err(x) => {
                        return Err(x);
                    },
                };
                let body3 = if is_entry_exec(entry_point_type(item, depth)) {
                    self.instrument_main_block(body2)
                } else {
                    body2
                };
                ItemKind::Fn(decl.copy(), body3)
            },
            ItemKind::ForeignMod(fis) => {
                let mut out: Vec<ForeignItem> = Vec::new();
                let mut i: usize = 0;
                while i < fis.len()
                    invariant
                        i <= fis@.len(),
                        out@.len() == i,
                        forall|j: int| 0 <= j < i ==> (#[trigger] out@[j])@ == fis@[j]@,
                    decreases fis@.len() - i,
                {
                    out.push(fis[i].copy());
                    i += 1;
                }
                assert(foreign_items_view(out@) =~= foreign_items_view(fis@));
                ItemKind::ForeignMod(out)
            },
            ItemKind::Mod(items) => {
                match self.fold_items(items, depth.saturating_add(1)) {
                    Ok(x) => ItemKind::Mod(x),
                    Err(x) => {
                        return Err(x);
                    },
                }
            },
            ItemKind::Other => ItemKind::Other,
        };
        Ok(Item { name: item.name.clone(), attrs: crate::ast::copy_strings(&item.attrs), kind })
    }

    /// Rewrites each declaration of `v`, all at scope depth `depth`.
    pub fn fold_items(&mut self, v: &Vec<Item>, depth: usize) -> (r: Result<Vec<Item>, LocationError>)
        requires
            old(self).wf(),
        ensures
            final(self).wf(),
            final(self).span_file() == old(self).span_file(),
            final(self).hooks() == old(self).hooks(),
            grows(old(self).spans(), final(self).spans()),
            r is Ok ==> r->Ok_0@.len() == v@.len(),
            match rewrite_items(v@, v@.len(), depth as nat, old(self).span_file(), old(self).spans(), old(self).hooks()) {
                Ok((vs, t)) => r is Ok && items_view(r->Ok_0@) == vs && final(self).spans() == t,
                Err(x) => r == Err::<Vec<Item>, LocationError>(x),
            },
        decreases v,
    {
        let ghost t0 = self.spans();
        let ghost reg = self.hooks();
        let ghost path = self.span_file();
        let mut out: Vec<Item> = Vec::new();
        let mut i: usize = 0;
        assert(items_view(out@) =~= Seq::<ItemV>::empty());
        while i < v.len()
            invariant
                self.wf(),
                self.span_file() == path,
                path == old(self).span_file(),
                self.hooks() == reg,
                reg == old(self).hooks(),
                t0 == old(self).spans(),
                grows(old(self).spans(), self.spans()),
                i <= v@.len(),
                out@.len() == i,
                rewrite_items(v@, i as nat, depth as nat, path, t0, reg) == Ok::<(Seq<ItemV>, Seq<SpanKey>), LocationError>((items_view(out@), self.spans())),
            decreases v@.len() - i,
        {
            let ghost before = out@;
            match self.fold_item(&v[i], depth) {
                Ok(x) => {
                    out.push(x);
                    assert(items_view(out@) =~= items_view(before).push(x@));
                },
                Err(x) => {
                    proof {
                        lemma_rewrite_items_err(v@, (i + 1) as nat, v@.len(), depth as nat, path, t0, reg);
                    }
                    return Err(x);
                },
            }
            i += 1;
        }
        Ok(out)
    }
}

impl LifetimeInstrumentation {
    /// Records the hooked functions declared in a foreign block, in order.
    pub fn collect_foreign(&mut self, fis: &Vec<ForeignItem>)
        requires
            old(self).wf(),
        ensures
            final(self).wf(),
            final(self).span_file() == old(self).span_file(),
            final(self).spans() == old(self).spans(),
            final(self).hooks() == register_all(old(self).hooks(), fis@),
    {
        let mut i: usize = 0;
        while i < fis.len()
            invariant
                self.wf(),
                self.span_file() == old(self).span_file(),
                self.spans() == old(self).spans(),
                i <= fis@.len(),
                self.hooks() == register_all(old(self).hooks(), fis@.take(i as int)),
            decreases fis@.len() - i,
        {
            assert(fis@.take(i as int + 1).drop_last() =~= fis@.take(i as int));
            assert(fis@.take(i as int + 1).last() == fis@[i as int]);
            match &fis[i].decl {
                Some(d) => self.register_foreign_fn(fis[i].name.as_str(), d),
                None => {},
            }
            i += 1;
        }
        assert(fis@.take(fis@.len() as int) =~= fis@);
    }

    /// Records the hooked functions declared anywhere among `items`, so that
    /// calls that come before a declaration are recognized too.
    pub fn collect_hooks(&mut self, items: &Vec<Item>)
        requires
            old(self).wf(),
        ensures
            final(self).wf(),
            final(self).span_file() == old(self).span_file(),
            final(self).spans() == old(self).spans(),
            final(self).hooks() == collect_items(old(self).hooks(), items@, items@.len()),
        decreases items,
    {
        let mut i: usize = 0;
        while i < items.len()
            invariant
                self.wf(),
                self.span_file() == old(self).span_file(),
                self.spans() == old(self).spans(),
                i <= items@.len(),
                self.hooks() == collect_items(old(self).hooks(), items@, i as nat),
            decreases items@.len() - i,
        {
            let ghost before = self.hooks();
            proof {
                assert(collect_items(old(self).hooks(), items@, (i + 1) as nat) == collect_item(before, items@[i as int]));
            }
            match &items[i].kind {
                ItemKind::ForeignMod(fis) => self.collect_foreign(fis),
                ItemKind::Mod(inner) => self.collect_hooks(inner),
                _ => {},
            }
            assert(self.hooks() == collect_item(before, items@[i as int]));
            i += 1;
        }
    }

    /// Instruments a whole program: records the hooked declarations, then
    /// rewrites every declaration from top scope down.
    pub fn instrument_crate(&mut self, items: &Vec<Item>) -> (r: Result<Vec<Item>, LocationError>)
        requires
            old(self).wf(),
        ensures
            final(self).wf(),
            final(self).span_file() == old(self).span_file(),
            grows(old(self).spans(), final(self).spans()),
            r is Ok ==> r->Ok_0@.len() == items@.len(),
            final(self).hooks() == collect_items(old(self).hooks(), items@, items@.len()),
            match rewrite_items(items@, items@.len(), 0, old(self).span_file(), old(self).spans(), final(self).hooks()) {
                Ok((vs, t)) => r is Ok && items_view(r->Ok_0@) == vs && final(self).spans() == t,
                Err(x) => r == Err::<Vec<Item>, LocationError>(x),
            },
    {
        self.collect_hooks(items);
        self.fold_items(items, 0)
    }

    /// In a well-formed pass, the spans named so far are distinct: the
    /// index of each is its position, and the indices are `0..len`. Each
    /// starts no later than it ends.
    pub proof fn lemma_spans_distinct(&self)
        requires
            self.wf(),
        ensures
            self.spans().no_duplicates(),
            forall|i: int| 0 <= i < self.spans().len() ==> interned_index(self.spans(), #[trigger] self.spans()[i]) == i,
            forall|i: int| 0 <= i < self.spans().len() ==> (#[trigger] self.spans()[i]).1 <= self.spans()[i].2,
    {
        crate::span::lemma_indices_are_positions(self.spans());
    }

    /// Where the span table goes.
    pub fn span_file_path(&self) -> (r: &str)
        ensures
            r@ == self.span_file(),
    {
        self.span_file_path.as_str()
    }

    /// The spans named so far, in index order.
    pub fn span_records(self) -> (r: Vec<SpanRecord>)
        requires
            self.wf(),
        ensures
            records_view(r@) == self.spans(),
    {
        let ghost t = self.spans();
        let v = self.spans.export();
        assert(records_view(v@) =~= t);
        v
    }
}

/// Starts a pass that will write its span table to `span_file_path`.
/// Without a destination nothing can be instrumented: the pass does not
/// start.
pub fn initialize(span_file_path: Option<String>) -> (r: Result<LifetimeInstrumentation, PassError>)
    ensures
        span_file_path is None ==> r == Err::<LifetimeInstrumentation, PassError>(PassError::MissingDestination),
        span_file_path is Some ==> {
            &&& r is Ok
            &&& r->Ok_0.wf()
            &&& r->Ok_0.span_file() == span_file_path->Some_0@
            &&& r->Ok_0.hooks() == Map::<HookFn, FnDeclV>::empty()
            &&& r->Ok_0.spans() == Seq::<SpanKey>::empty()
        },
{
    match span_file_path {
        Some(p) => Ok(LifetimeInstrumentation::new(p)),
        None => Err(PassError::MissingDestination),
    }
}

/// Ends a pass: the bytes of its span table, the record of index `i` at
/// position `i`, to be written to the pass's destination. Serializing the
/// table always succeeds.
pub fn finalize(pass: LifetimeInstrumentation) -> (r: Vec<u8>)
    requires
        pass.wf(),
    ensures
        r@ == span_table_encoding(pass.spans()),
{
    let records = pass.span_records();
    match encode_span_records(&records) {
        Ok(bytes) => bytes,
        Err(_) => Vec::new(),
    }
}

/// The instrumentation as one step: instrument `krate` for a span table
/// at `span_file_path`, and serialize the table. Returns the rewritten
/// program and the table's bytes.
pub fn instrument_program(span_file_path: Option<String>, krate: &Vec<Item>) -> (r: Result<(Vec<Item>, Vec<u8>), PassError>)
    ensures
        span_file_path is None ==> r == Err::<(Vec<Item>, Vec<u8>), PassError>(PassError::MissingDestination),
        r is Ok ==> r->Ok_0.0@.len() == krate@.len(),
        span_file_path is Some ==> match rewrite_items(
            krate@,
            krate@.len(),
            0,
            span_file_path->Some_0@,
            Seq::<SpanKey>::empty(),
            collect_items(Map::<HookFn, FnDeclV>::empty(), krate@, krate@.len()),
        ) {
            Ok((vs, t)) => {
                &&& r is Ok
                &&& items_view(r->Ok_0.0@) == vs
                &&& r->Ok_0.1@ == span_table_encoding(t)
                &&& t.no_duplicates()
                &&& forall|i: int| 0 <= i < t.len() ==> interned_index(t, #[trigger] t[i]) == i
                &&& forall|i: int| 0 <= i < t.len() ==> (#[trigger] t[i]).1 <= t[i].2
            },
            Err(x) => r == Err::<(Vec<Item>, Vec<u8>), PassError>(PassError::Location(x)),
        },
{
    let mut pass = match initialize(span_file_path) {
        Ok(p) => p,
        Err(e) => {
            return Err(e);
        },
    };
    let items = match pass.instrument_crate(krate) {
        Ok(x) => x,
        Err(e) => {
            return Err(PassError::Location(e));
        },
    };
    proof {
        pass.lemma_spans_distinct();
    }
    let bytes = finalize(pass);
    Ok((items, bytes))
}

} // verus!
