//! The mathematical statement of the instrumentation: what each expression,
//! statement and declaration becomes, and how the span table and the hook
//! registry evolve over one pass.
use crate::ast::{Expr, ExprKind, ExprV, FnDeclV, ForeignItem, Item, ItemKind, ItemKindV, ItemV, Stmt, StmtV, TyV};
use crate::entry::{entry_point_spec, is_entry};
use crate::hooks::{HookFn, hook_by_name, hook_name};
use crate::span::{LocationError, SpanKey, SrcRange, intern_table, interned_index, resolve_range};
use vstd::prelude::*;

verus! {

/// The crate that implements the trace runtime's entry points.
pub open spec fn runtime_crate() -> Seq<char> {
    "c2rust_analysis_rt"@
}

pub open spec fn usize_ty() -> TyV {
    TyV::Named("usize"@)
}

/// `e` itself, or `e as usize` where `t` is a raw pointer type.
pub open spec fn cast_if_ptr(e: ExprV, t: TyV) -> ExprV {
    if t is Ptr {
        ExprV::Cast(Box::new(e), usize_ty())
    } else {
        e
    }
}

pub open spec fn min_len(a: int, b: int) -> int {
    if a < b {
        a
    } else {
        b
    }
}

/// Whether evaluating an argument can have no effect and always yields
/// the same value: a literal, a plain path, or an anonymous temporary.
/// Such an argument is passed as written; any other is evaluated once
/// into a temporary.
pub open spec fn is_plain(a: ExprV) -> bool {
    a is Lit || a is Str || a is Path || a is Temp
}

/// What stands for argument `i` in the real call and in the hook call:
/// the argument itself if it is plain, else anonymous temporary `i`.
pub open spec fn arg_slot_v(args: Seq<ExprV>, i: int) -> ExprV {
    if is_plain(args[i]) {
        args[i]
    } else {
        ExprV::Temp(i as u64)
    }
}

pub open spec fn arg_slots_v(args: Seq<ExprV>) -> Seq<ExprV> {
    Seq::new(args.len(), |i: int| arg_slot_v(args, i))
}

/// `let <temp i> = args[i];` for each argument among the first `n` that is
/// not plain, in order.
pub open spec fn bind_args_v(args: Seq<ExprV>, n: nat) -> Seq<StmtV>
    decreases n,
{
    if n == 0 || n > args.len() {
        Seq::empty()
    } else if is_plain(args[n - 1]) {
        bind_args_v(args, (n - 1) as nat)
    } else {
        bind_args_v(args, (n - 1) as nat).push(StmtV::LetTemp((n - 1) as u64, args[n - 1]))
    }
}

/// The arguments of the hook call, for a call on `slots` whose result is
/// in temporary `slots.len()`: the span index; each slot paired with its
/// declared parameter type, cast where that type is a pointer; the result,
/// cast where the return type is a pointer.
pub open spec fn hook_args_v(idx: nat, slots: Seq<ExprV>, decl: FnDeclV) -> Seq<ExprV> {
    seq![ExprV::Lit(idx as u64)] + Seq::new(
        min_len(slots.len() as int, decl.inputs.len() as int) as nat,
        |i: int| cast_if_ptr(slots[i], decl.inputs[i]),
    ) + seq![
        match decl.output {
            Some(t) => cast_if_ptr(ExprV::Temp(slots.len() as u64), t),
            None => ExprV::Temp(slots.len() as u64),
        },
    ]
}

/// What a call `f(a0, .., an-1)` of hooked function `h` becomes:
/// `{ let tn = f(a0, .., an-1); <h>(idx, a0, .., tn); tn }`. The real call
/// is bound once to an anonymous temporary, and the hook, which follows
/// it, gets the arguments as written and the real result. An argument
/// that is not plain (see `is_plain`) could have effects or change its
/// value if evaluated twice: it is first evaluated once, in order, into
/// anonymous temporary `i`, which then stands for it in both calls.
pub open spec fn hooked_call_v(call: ExprV, h: HookFn, decl: FnDeclV, idx: nat) -> ExprV {
    let args = call->Call_1;
    let n = args.len();
    ExprV::Block(
        bind_args_v(args, n) + seq![
            StmtV::LetTemp(n as u64, ExprV::Call(call->Call_0, arg_slots_v(args))),
            StmtV::Semi(
                ExprV::Call(
                    Box::new(ExprV::Path(seq![runtime_crate(), hook_name(h)])),
                    hook_args_v(idx, arg_slots_v(args), decl),
                ),
            ),
            StmtV::Expr(ExprV::Temp(n as u64)),
        ],
    )
}

/// The hook call that reports a dereference through temporary `0`.
pub open spec fn deref_hook_v(idx: nat) -> ExprV {
    ExprV::Call(
        Box::new(ExprV::Path(seq![runtime_crate(), "ptr_deref"@])),
        seq![ExprV::Lit(idx as u64), ExprV::Cast(Box::new(ExprV::Temp(0)), usize_ty())],
    )
}

/// What `*ptr` becomes, where `ptr` is a raw pointer:
/// `*{ let t0 = ptr; ptr_deref(idx, t0 as usize); t0 }`.
pub open spec fn deref_v(ptr: ExprV, idx: nat) -> ExprV {
    ExprV::Deref(
        Box::new(
            ExprV::Block(
                seq![StmtV::LetTemp(0, ptr), StmtV::Semi(deref_hook_v(idx)), StmtV::Expr(ExprV::Temp(0))],
            ),
        ),
    )
}

/// The hooked function that a callee names: only a bare, one-segment path
/// whose name is hooked and whose declaration has been recorded.
pub open spec fn hooked_callee(callee: Expr, reg: Map<HookFn, FnDeclV>) -> Option<HookFn> {
    match callee.kind {
        ExprKind::Path(segs) => {
            if segs@.len() == 1 {
                match hook_by_name(segs@[0]@) {
                    Some(h) => if reg.contains_key(h) {
                        Some(h)
                    } else {
                        None
                    },
                    None => None,
                }
            } else {
                None
            }
        },
        _ => None,
    }
}

/// The hooked function that `e` calls, if `e` is a call to be instrumented.
pub open spec fn hooked_call(e: Expr, reg: Map<HookFn, FnDeclV>) -> Option<HookFn> {
    match e.kind {
        ExprKind::Call(callee, _) => hooked_callee(*callee, reg),
        _ => None,
    }
}

/// Whether `e` dereferences an operand whose static type is a raw pointer.
pub open spec fn is_raw_deref(e: Expr) -> bool {
    match e.kind {
        ExprKind::Deref(inner) => inner.is_unsafe_ptr,
        _ => false,
    }
}

/// A rewritten hooked call makes the same call and has its value: each
/// argument that is not plain is evaluated once, in order, before the call;
/// the callee gets each plain argument as written and each other one
/// through its temporary; its result, bound to one more anonymous
/// temporary, is what the block yields. The hook call comes after the real
/// call and receives the span index, the same arguments (cast to an
/// address where the parameter is a pointer) and the real result. Nothing
/// in the block can capture a name written in the source.
pub proof fn lemma_hooked_call_transparent(call: ExprV, h: HookFn, decl: FnDeclV, idx: nat)
    requires
        call is Call,
    ensures
        ({
            let args = call->Call_1;
            let n = args.len() as int;
            let binds = bind_args_v(args, n as nat);
            let b = hooked_call_v(call, h, decl, idx)->Block_0;
            let k = binds.len() as int;
            let m = min_len(n, decl.inputs.len() as int);
            let hargs = b[k + 1]->Semi_0->Call_1;
            &&& binds.len() <= n
            &&& forall|i: int| 0 <= i < k ==> #[trigger] binds[i] is LetTemp
            &&& b.len() == k + 3
            &&& forall|i: int| 0 <= i < k ==> #[trigger] b[i] == binds[i]
            &&& b[k] == StmtV::LetTemp(n as u64, ExprV::Call(call->Call_0, arg_slots_v(args)))
            &&& forall|i: int| 0 <= i < n && is_plain(args[i]) ==> #[trigger] arg_slots_v(args)[i] == args[i]
            &&& b[k + 1] is Semi && b[k + 1]->Semi_0 is Call
            &&& hargs.len() == m + 2
            &&& hargs[0] == ExprV::Lit(idx as u64)
            &&& forall|i: int| 0 <= i < m ==> #[trigger] hargs[i + 1] == cast_if_ptr(arg_slots_v(args)[i], decl.inputs[i])
            &&& hargs[m + 1] == match decl.output {
                Some(t) => cast_if_ptr(ExprV::Temp(n as u64), t),
                None => ExprV::Temp(n as u64),
            }
            &&& b[k + 2] == StmtV::Expr(ExprV::Temp(n as u64))
        }),
{
    let args = call->Call_1;
    let n = args.len() as int;
    lemma_bind_args_shape(args, n as nat);
    let slots = arg_slots_v(args);
    let m = min_len(n, decl.inputs.len() as int);
    let hargs = hook_args_v(idx, slots, decl);
    assert forall|i: int| 0 <= i < m implies #[trigger] hargs[i + 1] == cast_if_ptr(slots[i], decl.inputs[i]) by {}
}

/// The bindings of the first `n` arguments are at most `n` statements,
/// each an anonymous binding.
pub proof fn lemma_bind_args_shape(args: Seq<ExprV>, n: nat)
    ensures
        bind_args_v(args, n).len() <= n,
        forall|i: int| 0 <= i < bind_args_v(args, n).len() ==> #[trigger] bind_args_v(args, n)[i] is LetTemp,
    decreases n,
{
    if n > 0 && n <= args.len() {
        lemma_bind_args_shape(args, (n - 1) as nat);
    }
}

/// A rewritten dereference reads through the same pointer: the pointer is
/// evaluated once into an anonymous temporary, the hook that reports its
/// address runs next, and the block yields the temporary, which is what
/// the dereference then reads through.
pub proof fn lemma_deref_observed_first(ptr: ExprV, idx: nat)
    ensures
        deref_v(ptr, idx) is Deref,
        ({
            let b = (*(deref_v(ptr, idx)->Deref_0))->Block_0;
            &&& b.len() == 3
            &&& b[0] == StmtV::LetTemp(0, ptr)
            &&& b[1] == StmtV::Semi(deref_hook_v(idx))
            &&& b[2] == StmtV::Expr(ExprV::Temp(0))
        }),
{
}

/// The operand of a dereference.
pub open spec fn deref_operand(v: ExprV) -> ExprV {
    match v {
        ExprV::Deref(p) => *p,
        _ => v,
    }
}

/// The span that an expression's source range denotes.
pub open spec fn span_key(sp: Option<SrcRange>) -> Result<SpanKey, LocationError> {
    match sp {
        Some(r) => resolve_range(r),
        None => Err(LocationError::NoLocation),
    }
}

/// The statement that tells the trace runtime where the span table is:
/// `c2rust_analysis_rt::set_span_file("<path>");`
pub open spec fn config_stmt_v(path: Seq<char>) -> StmtV {
    StmtV::Semi(
        ExprV::Call(
            Box::new(ExprV::Path(seq![runtime_crate(), "set_span_file"@])),
            seq![ExprV::Str(path)],
        ),
    )
}

/// The registry after recording, in order, each hooked function declared
/// among `fis`; a later declaration of a name replaces an earlier one.
pub open spec fn register_all(m: Map<HookFn, FnDeclV>, fis: Seq<ForeignItem>) -> Map<HookFn, FnDeclV>
    decreases fis.len(),
{
    if fis.len() == 0 {
        m
    } else {
        let m1 = register_all(m, fis.drop_last());
        let f = fis.last();
        match f.decl {
            Some(d) => match hook_by_name(f.name@) {
                Some(h) => m1.insert(h, d@),
                None => m1,
            },
            None => m1,
        }
    }
}

/// The registry after recording the hooked functions declared in the first
/// `n` of `items`, nested modules included, in order.
pub open spec fn collect_items(m: Map<HookFn, FnDeclV>, items: Seq<Item>, n: nat) -> Map<HookFn, FnDeclV>
    decreases items, n,
{
    if n == 0 || n > items.len() {
        m
    } else {
        collect_item(collect_items(m, items, (n - 1) as nat), items[n - 1])
    }
}

/// The registry after recording the hooked functions declared in `item`.
pub open spec fn collect_item(m: Map<HookFn, FnDeclV>, item: Item) -> Map<HookFn, FnDeclV>
    decreases item, 0nat,
{
    match item.kind {
        ItemKind::ForeignMod(fis) => register_all(m, fis@),
        ItemKind::Mod(inner) => collect_items(m, inner@, inner@.len()),
        _ => m,
    }
}

/// The depth one scope below `depth`, staying put at the largest `usize`
/// (only top scope, depth zero, is told apart).
pub open spec fn deeper(depth: nat) -> nat {
    if depth < usize::MAX {
        depth + 1
    } else {
        depth
    }
}

/// The rewrite of a declaration at scope depth `depth`, for a span table
/// bound for `path`: function bodies are rewritten, an entry point gets
/// the configuration call first, modules are rewritten one level deeper,
/// anything else is kept.
pub open spec fn rewrite_item(
    item: Item,
    depth: nat,
    path: Seq<char>,
    t: Seq<SpanKey>,
    reg: Map<HookFn, FnDeclV>,
) -> Result<(ItemV, Seq<SpanKey>), LocationError>
    decreases item, 0nat,
{
    match item.kind {
        ItemKind::Fn(decl, body) => match rewrite_stmts(body@, body@.len(), t, reg) {
            Ok((bv, t1)) => Ok((
                ItemV {
                    name: item.name@,
                    attrs: crate::ast::strings_view(item.attrs@),
                    kind: ItemKindV::Fn(decl@, if is_entry(entry_point_spec(item, depth)) {
                        seq![config_stmt_v(path)] + bv
                    } else {
                        bv
                    }),
                },
                t1,
            )),
            Err(x) => Err(x),
        },
        ItemKind::Mod(items) => match rewrite_items(items@, items@.len(), deeper(depth), path, t, reg) {
            Ok((iv, t1)) => Ok((
                ItemV { name: item.name@, attrs: crate::ast::strings_view(item.attrs@), kind: ItemKindV::Mod(iv) },
                t1,
            )),
            Err(x) => Err(x),
        },
        _ => Ok((item@, t)),
    }
}

/// The rewrite of the first `n` declarations of `items`, in order.
pub open spec fn rewrite_items(
    items: Seq<Item>,
    n: nat,
    depth: nat,
    path: Seq<char>,
    t: Seq<SpanKey>,
    reg: Map<HookFn, FnDeclV>,
) -> Result<(Seq<ItemV>, Seq<SpanKey>), LocationError>
    decreases items, n,
{
    if n == 0 || n > items.len() {
        Ok((Seq::empty(), t))
    } else {
        match rewrite_items(items, (n - 1) as nat, depth, path, t, reg) {
            Ok((vs, t1)) => match rewrite_item(items[n - 1], depth, path, t1, reg) {
                Ok((v, t2)) => Ok((vs.push(v), t2)),
                Err(x) => Err(x),
            },
            Err(x) => Err(x),
        }
    }
}

pub proof fn lemma_rewrite_items_err(
    items: Seq<Item>,
    n: nat,
    m: nat,
    depth: nat,
    path: Seq<char>,
    t: Seq<SpanKey>,
    reg: Map<HookFn, FnDeclV>,
)
    requires
        rewrite_items(items, n, depth, path, t, reg) is Err,
        n <= m <= items.len(),
    ensures
        rewrite_items(items, m, depth, path, t, reg) == rewrite_items(items, n, depth, path, t, reg),
    decreases m - n,
{
    if m > n {
        lemma_rewrite_items_err(items, n, (m - 1) as nat, depth, path, t, reg);
    }
}

/// The outcome of rewriting node `e`, whose operands have been rewritten
/// into the code `v`, with the span table at `t`.
pub open spec fn node_result(e: Expr, v: ExprV, t: Seq<SpanKey>, reg: Map<HookFn, FnDeclV>) -> Result<(ExprV, Seq<SpanKey>), LocationError> {
    match hooked_call(e, reg) {
        Some(h) => match span_key(e.span) {
            Ok(k) => Ok((hooked_call_v(v, h, reg[h], interned_index(t, k) as nat), intern_table(t, k))),
            Err(x) => Err(x),
        },
        None => if is_raw_deref(e) {
            match span_key(e.span) {
                Ok(k) => Ok((deref_v(deref_operand(v), interned_index(t, k) as nat), intern_table(t, k))),
                Err(x) => Err(x),
            }
        } else {
            Ok((v, t))
        },
    }
}

/// The bottom-up rewrite of `e` with the span table at `t`: the rewritten
/// code and the table after it, or the first span that cannot be named.
/// Operands are rewritten left to right before the expression itself.
pub open spec fn rewrite(e: Expr, t: Seq<SpanKey>, reg: Map<HookFn, FnDeclV>) -> Result<(ExprV, Seq<SpanKey>), LocationError>
    decreases e, 0nat,
{
    match e.kind {
        ExprKind::Call(f, args) => match rewrite(*f, t, reg) {
            Ok((fv, t1)) => match rewrite_all(args@, args@.len(), t1, reg) {
                Ok((avs, t2)) => node_result(e, ExprV::Call(Box::new(fv), avs), t2, reg),
                Err(x) => Err(x),
            },
            Err(x) => Err(x),
        },
        ExprKind::Deref(inner) => match rewrite(*inner, t, reg) {
            Ok((iv, t1)) => node_result(e, ExprV::Deref(Box::new(iv)), t1, reg),
            Err(x) => Err(x),
        },
        ExprKind::Cast(inner, ty) => match rewrite(*inner, t, reg) {
            Ok((iv, t1)) => Ok((ExprV::Cast(Box::new(iv), ty@), t1)),
            Err(x) => Err(x),
        },
        ExprKind::Block(stmts) => match rewrite_stmts(stmts@, stmts@.len(), t, reg) {
            Ok((svs, t1)) => Ok((ExprV::Block(svs), t1)),
            Err(x) => Err(x),
        },
        ExprKind::Other(op, args) => match rewrite_all(args@, args@.len(), t, reg) {
            Ok((avs, t1)) => Ok((ExprV::Other(op@, avs), t1)),
            Err(x) => Err(x),
        },
        _ => Ok((e@, t)),
    }
}

/// The rewrite of the first `n` expressions of `es`, in order.
pub open spec fn rewrite_all(es: Seq<Expr>, n: nat, t: Seq<SpanKey>, reg: Map<HookFn, FnDeclV>) -> Result<(Seq<ExprV>, Seq<SpanKey>), LocationError>
    decreases es, n,
{
    if n == 0 || n > es.len() {
        Ok((Seq::empty(), t))
    } else {
        match rewrite_all(es, (n - 1) as nat, t, reg) {
            Ok((vs, t1)) => match rewrite(es[n - 1], t1, reg) {
                Ok((v, t2)) => Ok((vs.push(v), t2)),
                Err(x) => Err(x),
            },
            Err(x) => Err(x),
        }
    }
}

/// The rewrite of a statement.
pub open spec fn rewrite_stmt(s: Stmt, t: Seq<SpanKey>, reg: Map<HookFn, FnDeclV>) -> Result<(StmtV, Seq<SpanKey>), LocationError>
    decreases s, 0nat,
{
    match s {
        Stmt::Local(n, e) => match rewrite(e, t, reg) {
            Ok((v, t1)) => Ok((StmtV::Local(n@, v), t1)),
            Err(x) => Err(x),
        },
        Stmt::Semi(e) => match rewrite(e, t, reg) {
            Ok((v, t1)) => Ok((StmtV::Semi(v), t1)),
            Err(x) => Err(x),
        },
        Stmt::Expr(e) => match rewrite(e, t, reg) {
            Ok((v, t1)) => Ok((StmtV::Expr(v), t1)),
            Err(x) => Err(x),
        },
        Stmt::LetTemp(n, e) => match rewrite(e, t, reg) {
            Ok((v, t1)) => Ok((StmtV::LetTemp(n, v), t1)),
            Err(x) => Err(x),
        },
    }
}

/// The rewrite of the first `n` statements of `ss`, in order.
pub open spec fn rewrite_stmts(ss: Seq<Stmt>, n: nat, t: Seq<SpanKey>, reg: Map<HookFn, FnDeclV>) -> Result<(Seq<StmtV>, Seq<SpanKey>), LocationError>
    decreases ss, n,
{
    if n == 0 || n > ss.len() {
        Ok((Seq::empty(), t))
    } else {
        match rewrite_stmts(ss, (n - 1) as nat, t, reg) {
            Ok((vs, t1)) => match rewrite_stmt(ss[n - 1], t1, reg) {
                Ok((v, t2)) => Ok((vs.push(v), t2)),
                Err(x) => Err(x),
            },
            Err(x) => Err(x),
        }
    }
}

/// Once rewriting a prefix fails, every longer prefix fails the same way.
pub proof fn lemma_rewrite_all_err(es: Seq<Expr>, n: nat, m: nat, t: Seq<SpanKey>, reg: Map<HookFn, FnDeclV>)
    requires
        rewrite_all(es, n, t, reg) is Err,
        n <= m <= es.len(),
    ensures
        rewrite_all(es, m, t, reg) == rewrite_all(es, n, t, reg),
    decreases m - n,
{
    if m > n {
        lemma_rewrite_all_err(es, n, (m - 1) as nat, t, reg);
    }
}

pub proof fn lemma_rewrite_stmts_err(ss: Seq<Stmt>, n: nat, m: nat, t: Seq<SpanKey>, reg: Map<HookFn, FnDeclV>)
    requires
        rewrite_stmts(ss, n, t, reg) is Err,
        n <= m <= ss.len(),
    ensures
        rewrite_stmts(ss, m, t, reg) == rewrite_stmts(ss, n, t, reg),
    decreases m - n,
{
    if m > n {
        lemma_rewrite_stmts_err(ss, n, (m - 1) as nat, t, reg);
    }
}

/// The table `b` holds every span of `a`, at the same index.
pub open spec fn grows(a: Seq<SpanKey>, b: Seq<SpanKey>) -> bool {
    &&& a.len() <= b.len()
    &&& forall|i: int| 0 <= i < a.len() ==> #[trigger] b[i] == a[i]
}

} // verus!
