use lifetime_instrument::ast::{Expr, ExprKind, FnDecl, ForeignItem, Item, ItemKind, Stmt, Ty};
use lifetime_instrument::hooks::{HookFn, HookRegistry};
use lifetime_instrument::entry::{entry_point_type, EntryPointType};
use lifetime_instrument::span::{FileName, Loc, LocationError, SourceFile, SpanTable, SrcRange};
use lifetime_instrument::{finalize, initialize, instrument_program, PassError};

fn file(start: u64, name: &str) -> SourceFile {
    SourceFile { start_pos: start, name: FileName::Real(name.to_string()) }
}

fn range(lo: u64, hi: u64) -> Option<SrcRange> {
    Some(SrcRange { lo: Loc { file: file(0, "main.c"), pos: lo }, hi: Loc { file: file(0, "main.c"), pos: hi } })
}

fn e(kind: ExprKind, span: Option<SrcRange>, is_unsafe_ptr: bool) -> Expr {
    Expr { kind, span, is_unsafe_ptr }
}

fn path(segs: &[&str]) -> Expr {
    e(ExprKind::Path(segs.iter().map(|s| s.to_string()).collect()), None, false)
}

fn lit(n: u64) -> Expr {
    e(ExprKind::Lit(n), None, false)
}

fn call(name: &str, args: Vec<Expr>, lo: u64, hi: u64) -> Expr {
    e(ExprKind::Call(Box::new(path(&[name])), args), range(lo, hi), false)
}

fn ptr_ty() -> Ty {
    Ty::Ptr(Box::new(Ty::Named("c_void".to_string())))
}

fn usize_ty() -> Ty {
    Ty::Named("usize".to_string())
}

fn cast_usize(x: Expr) -> Expr {
    e(ExprKind::Cast(Box::new(x), usize_ty()), None, false)
}

fn foreign_block() -> Item {
    Item {
        name: String::new(),
        attrs: vec![],
        kind: ItemKind::ForeignMod(vec![
            ForeignItem {
                name: "malloc".to_string(),
                decl: Some(FnDecl { inputs: vec![usize_ty()], output: Some(ptr_ty()) }),
            },
            ForeignItem {
                name: "free".to_string(),
                decl: Some(FnDecl { inputs: vec![ptr_ty()], output: None }),
            },
            ForeignItem {
                name: "printf".to_string(),
                decl: Some(FnDecl { inputs: vec![ptr_ty()], output: Some(Ty::Named("i32".to_string())) }),
            },
        ]),
    }
}

fn func(name: &str, attrs: &[&str], body: Vec<Stmt>) -> Item {
    Item {
        name: name.to_string(),
        attrs: attrs.iter().map(|s| s.to_string()).collect(),
        kind: ItemKind::Fn(FnDecl { inputs: vec![], output: None }, body),
    }
}

fn config_stmt(p: &str) -> Stmt {
    Stmt::Semi(e(
        ExprKind::Call(
            Box::new(path(&["c2rust_analysis_rt", "set_span_file"])),
            vec![e(ExprKind::Str(p.to_string()), None, false)],
        ),
        None,
        false,
    ))
}

fn temp(i: u64) -> Expr {
    e(ExprKind::Temp(i), None, false)
}

fn observed(value: Expr, hook: Expr, is_unsafe_ptr: bool) -> Expr {
    e(
        ExprKind::Block(vec![Stmt::LetTemp(0, value), Stmt::Semi(hook), Stmt::Expr(temp(0))]),
        None,
        is_unsafe_ptr,
    )
}

fn hook_of(block: &Expr) -> &Vec<Expr> {
    match &block.kind {
        ExprKind::Block(b) => match &b[b.len() - 2] {
            Stmt::Semi(Expr { kind: ExprKind::Call(_, args), .. }) => args,
            other => panic!("no hook: {:?}", other),
        },
        other => panic!("not instrumented: {:?}", other),
    }
}

fn body_of(item: &Item) -> &Vec<Stmt> {
    match &item.kind {
        ItemKind::Fn(_, body) => body,
        _ => panic!("not a function"),
    }
}

fn run(items: Vec<Item>) -> (Vec<Item>, Vec<u8>) {
    instrument_program(Some("spans.bin".to_string()), &items).expect("instrumentation")
}

#[test]
fn interning_same_span_returns_same_index() {
    let mut t = SpanTable::new();
    let a = t.intern("a.c".to_string(), 3, 9);
    let b = t.intern("a.c".to_string(), 3, 9);
    let c = t.intern("a.c".to_string(), 3, 9);
    assert_eq!(a, 0);
    assert_eq!(b, 0);
    assert_eq!(c, 0);
    assert_eq!(t.export(), vec![("a.c".to_string(), 3, 9)]);
}

#[test]
fn distinct_spans_get_indices_in_first_seen_order() {
    let mut t = SpanTable::new();
    assert_eq!(t.intern("a.c".to_string(), 0, 4), 0);
    assert_eq!(t.intern("b.c".to_string(), 0, 4), 1);
    assert_eq!(t.intern("a.c".to_string(), 0, 5), 2);
    assert_eq!(t.intern("b.c".to_string(), 0, 4), 1);
    assert_eq!(
        t.export(),
        vec![("a.c".to_string(), 0, 4), ("b.c".to_string(), 0, 4), ("a.c".to_string(), 0, 5)]
    );
}

#[test]
fn range_across_files_is_refused() {
    let mut t = SpanTable::new();
    let r = SrcRange { lo: Loc { file: file(0, "a.c"), pos: 2 }, hi: Loc { file: file(100, "b.c"), pos: 7 } };
    assert_eq!(t.intern_range(&r), Err(LocationError::CrossesFiles {
            lo_file: FileName::Real("a.c".to_string()),
            lo: 2,
            hi_file: FileName::Real("b.c".to_string()),
            hi: 7,
        }));
    assert!(t.export().is_empty());
}

#[test]
fn range_outside_a_real_file_is_refused() {
    let mut t = SpanTable::new();
    let f = SourceFile { start_pos: 0, name: FileName::Virtual("<macro>".to_string()) };
    let r = SrcRange { lo: Loc { file: f.clone(), pos: 1 }, hi: Loc { file: f, pos: 4 } };
    assert_eq!(t.intern_range(&r), Err(LocationError::NotASourceFile { file: FileName::Virtual("<macro>".to_string()), lo: 1, hi: 4 }));
}

#[test]
fn hook_names_are_recognized() {
    assert_eq!(HookFn::from_name("malloc"), Some(HookFn::Malloc));
    assert_eq!(HookFn::from_name("free"), Some(HookFn::Free));
    assert_eq!(HookFn::from_name("calloc"), Some(HookFn::Calloc));
    assert_eq!(HookFn::from_name("realloc"), Some(HookFn::Realloc));
    assert_eq!(HookFn::from_name("reallocarray"), Some(HookFn::Reallocarray));
    assert_eq!(HookFn::from_name("printf"), None);
    assert_eq!(HookFn::from_name("mallo"), None);
    assert_eq!(HookFn::Reallocarray.name(), "reallocarray");
}

#[test]
fn registry_keeps_last_declaration() {
    let mut reg = HookRegistry::new();
    reg.register_foreign_fn("printf", &FnDecl { inputs: vec![], output: None });
    assert!(reg.lookup(HookFn::Malloc).is_none());
    reg.register_foreign_fn("malloc", &FnDecl { inputs: vec![usize_ty()], output: None });
    reg.register_foreign_fn("malloc", &FnDecl { inputs: vec![usize_ty()], output: Some(ptr_ty()) });
    assert_eq!(reg.lookup(HookFn::Malloc), Some(&FnDecl { inputs: vec![usize_ty()], output: Some(ptr_ty()) }));
    assert!(reg.lookup(HookFn::Free).is_none());
}

#[test]
fn malloc_in_main_is_wrapped_and_configured() {
    let body = vec![Stmt::Local("p".to_string(), call("malloc", vec![lit(16)], 10, 20))];
    let (items, _) = run(vec![foreign_block(), func("main", &[], body)]);
    let out = body_of(&items[1]);
    assert_eq!(out.len(), 2);
    assert_eq!(out[0], config_stmt("spans.bin"));
    let hook = e(
        ExprKind::Call(
            Box::new(path(&["c2rust_analysis_rt", "malloc"])),
            vec![lit(0), lit(16), cast_usize(temp(1))],
        ),
        None,
        false,
    );
    let expected = e(
        ExprKind::Block(vec![
            Stmt::LetTemp(1, call("malloc", vec![lit(16)], 10, 20)),
            Stmt::Semi(hook),
            Stmt::Expr(temp(1)),
        ]),
        None,
        false,
    );
    match &out[1] {
        Stmt::Local(name, init) => {
            assert_eq!(name, "p");
            assert_eq!(init.kind, expected.kind);
        }
        other => panic!("unexpected statement {:?}", other),
    }
}

#[test]
fn two_calls_get_two_indices() {
    let body = vec![
        Stmt::Semi(call("malloc", vec![lit(1)], 10, 20)),
        Stmt::Semi(call("malloc", vec![lit(2)], 30, 40)),
    ];
    let (items, bytes) = run(vec![foreign_block(), func("f", &[], body)]);
    let out = body_of(&items[1]);
    let index_of = |s: &Stmt| match s {
        Stmt::Semi(x) => lit_value(&hook_of(x)[0].kind),
        _ => panic!("not instrumented"),
    };
    assert_eq!(index_of(&out[0]), 0);
    assert_eq!(index_of(&out[1]), 1);
    assert_eq!(bytes[0..8], 2u64.to_le_bytes());
}

fn lit_value(k: &ExprKind) -> u64 {
    match k {
        ExprKind::Lit(n) => *n,
        _ => panic!("not a literal"),
    }
}

#[test]
fn non_hooked_call_is_left_alone() {
    let printf = || call("printf", vec![e(ExprKind::Str("%d".to_string()), None, false)], 5, 15);
    let (items, _) = run(vec![foreign_block(), func("f", &[], vec![Stmt::Semi(printf())])]);
    assert_eq!(body_of(&items[1]), &vec![Stmt::Semi(printf())]);
}

#[test]
fn qualified_callee_is_left_alone() {
    let q = || e(ExprKind::Call(Box::new(path(&["libc", "malloc"])), vec![lit(8)]), range(0, 9), false);
    let (items, _) = run(vec![foreign_block(), func("f", &[], vec![Stmt::Semi(q())])]);
    assert_eq!(body_of(&items[1]), &vec![Stmt::Semi(q())]);
}

#[test]
fn raw_pointer_deref_is_reported_first() {
    let ptr = || e(ExprKind::Path(vec!["ptr".to_string()]), range(1, 4), true);
    let deref = e(ExprKind::Deref(Box::new(ptr())), range(0, 4), false);
    let (items, _) = run(vec![func("f", &[], vec![Stmt::Semi(deref)])]);
    let hook = e(
        ExprKind::Call(
            Box::new(path(&["c2rust_analysis_rt", "ptr_deref"])),
            vec![lit(0), cast_usize(temp(0))],
        ),
        None,
        false,
    );
    match &body_of(&items[0])[0] {
        Stmt::Semi(Expr { kind: ExprKind::Deref(inner), .. }) => {
            assert_eq!(inner.kind, observed(ptr(), hook, true).kind);
            assert!(inner.is_unsafe_ptr);
        }
        other => panic!("unexpected statement {:?}", other),
    }
}

#[test]
fn reference_deref_is_left_alone() {
    let d = || e(ExprKind::Deref(Box::new(e(ExprKind::Path(vec!["r".to_string()]), range(1, 2), false))), range(0, 2), false);
    let (items, _) = run(vec![func("f", &[], vec![Stmt::Semi(d())])]);
    assert_eq!(body_of(&items[0]), &vec![Stmt::Semi(d())]);
}

#[test]
fn missing_destination_stops_before_instrumenting() {
    assert!(matches!(initialize(None), Err(PassError::MissingDestination)));
    let items = vec![foreign_block(), func("main", &[], vec![Stmt::Semi(call("malloc", vec![lit(1)], 0, 9))])];
    assert_eq!(instrument_program(None, &items), Err(PassError::MissingDestination));
}

#[test]
fn call_before_declaration_is_recognized() {
    let (items, _) = run(vec![func("f", &[], vec![Stmt::Semi(call("free", vec![path(&["p"])], 3, 10))]), foreign_block()]);
    match &body_of(&items[0])[0] {
        Stmt::Semi(Expr { kind: ExprKind::Block(b), .. }) => assert_eq!(b.len(), 3),
        other => panic!("not instrumented: {:?}", other),
    }
}

#[test]
fn nested_calls_are_instrumented_inside_out() {
    let inner = call("malloc", vec![lit(4)], 20, 29);
    let outer = call("free", vec![inner], 15, 30);
    let (items, bytes) = run(vec![foreign_block(), func("f", &[], vec![Stmt::Semi(outer)])]);
    let out = match &body_of(&items[1])[0] {
        Stmt::Semi(x) => x,
        other => panic!("unexpected statement {:?}", other),
    };
    let b = match &out.kind {
        ExprKind::Block(b) => b,
        other => panic!("not instrumented: {:?}", other),
    };
    assert_eq!(b.len(), 4);
    // the malloc block is evaluated once, into free's first temporary
    match &b[0] {
        Stmt::LetTemp(0, m) => assert_eq!(lit_value(&hook_of(m)[0].kind), 0),
        other => panic!("argument not bound: {:?}", other),
    }
    match &b[1] {
        Stmt::LetTemp(1, Expr { kind: ExprKind::Call(_, args), .. }) => assert_eq!(args, &vec![temp(0)]),
        other => panic!("call not bound: {:?}", other),
    }
    let hook = hook_of(out);
    assert_eq!(hook, &vec![lit(1), cast_usize(temp(0)), temp(1)]);
    assert_eq!(b[3], Stmt::Expr(temp(1)));
    assert_eq!(bytes[0..8], 2u64.to_le_bytes());
}

#[test]
fn user_name_ret_is_not_captured() {
    let (items, _) = run(vec![foreign_block(), func("f", &[], vec![Stmt::Semi(call("free", vec![path(&["ret"])], 3, 12))])]);
    let out = match &body_of(&items[1])[0] {
        Stmt::Semi(x) => x,
        other => panic!("unexpected statement {:?}", other),
    };
    match &out.kind {
        ExprKind::Block(b) => {
            assert_eq!(b.len(), 3);
            assert_eq!(b[0], Stmt::LetTemp(1, call("free", vec![path(&["ret"])], 3, 12)));
            assert_eq!(b[2], Stmt::Expr(temp(1)));
        }
        other => panic!("not instrumented: {:?}", other),
    }
    assert_eq!(hook_of(out), &vec![lit(0), cast_usize(path(&["ret"])), temp(1)]);
}

#[test]
fn reversed_range_is_refused() {
    let mut t = SpanTable::new();
    let r = SrcRange { lo: Loc { file: file(0, "a.c"), pos: 9 }, hi: Loc { file: file(0, "a.c"), pos: 3 } };
    assert_eq!(t.intern_range(&r), Err(LocationError::Reversed { file: "a.c".to_string(), lo: 9, hi: 3 }));
    assert!(t.export().is_empty());
}

#[test]
fn location_error_aborts_the_pass() {
    let bad = e(ExprKind::Call(Box::new(path(&["malloc"])), vec![lit(1)]), None, false);
    let items = vec![foreign_block(), func("f", &[], vec![Stmt::Semi(bad)])];
    assert_eq!(
        instrument_program(Some("x".to_string()), &items),
        Err(PassError::Location(LocationError::NoLocation))
    );
}

#[test]
fn entry_points_are_classified() {
    assert_eq!(entry_point_type(&func("main", &[], vec![]), 0), EntryPointType::MainNamed);
    assert_eq!(entry_point_type(&func("main", &[], vec![]), 1), EntryPointType::OtherMain);
    assert_eq!(entry_point_type(&func("go", &["main"], vec![]), 0), EntryPointType::MainAttr);
    assert_eq!(entry_point_type(&func("go", &["main"], vec![]), 3), EntryPointType::OtherMain);
    assert_eq!(entry_point_type(&func("go", &["start"], vec![]), 1), EntryPointType::OtherMain);
    assert_eq!(entry_point_type(&func("go", &["start"], vec![]), 0), EntryPointType::Start);
    assert_eq!(entry_point_type(&func("go", &[], vec![]), 0), EntryPointType::NotEntry);
    let (items, _) = run(vec![func("helper", &[], vec![]), func("go", &["start"], vec![])]);
    assert!(body_of(&items[0]).is_empty());
    assert_eq!(body_of(&items[1]), &vec![config_stmt("spans.bin")]);
}

#[test]
fn span_table_bytes_follow_index_order() {
    let mut pass = initialize(Some("out.bin".to_string())).expect("pass");
    let items = vec![foreign_block(), func("f", &[], vec![Stmt::Semi(call("malloc", vec![lit(1)], 7, 12))])];
    pass.instrument_crate(&items).expect("instrumented");
    let bytes = finalize(pass);
    let mut want: Vec<u8> = Vec::new();
    want.extend_from_slice(&1u64.to_le_bytes());
    want.extend_from_slice(&6u64.to_le_bytes());
    want.extend_from_slice(b"main.c");
    want.extend_from_slice(&7u64.to_le_bytes());
    want.extend_from_slice(&12u64.to_le_bytes());
    assert_eq!(bytes, want);
}

#[test]
fn span_table_bytes_hold_utf8_paths() {
    let mut pass = initialize(Some("out.bin".to_string())).expect("pass");
    let f = || SourceFile { start_pos: 0, name: FileName::Real("é.c".to_string()) };
    let c = e(
        ExprKind::Call(Box::new(path(&["free"])), vec![path(&["p"])]),
        Some(SrcRange { lo: Loc { file: f(), pos: 2 }, hi: Loc { file: f(), pos: 300 } }),
        false,
    );
    pass.instrument_crate(&vec![foreign_block(), func("f", &[], vec![Stmt::Semi(c)])]).expect("instrumented");
    let bytes = finalize(pass);
    let mut want: Vec<u8> = Vec::new();
    want.extend_from_slice(&1u64.to_le_bytes());
    want.extend_from_slice(&4u64.to_le_bytes());
    want.extend_from_slice(&[0xc3, 0xa9, b'.', b'c']);
    want.extend_from_slice(&2u64.to_le_bytes());
    want.extend_from_slice(&300u64.to_le_bytes());
    assert_eq!(bytes, want);
}
