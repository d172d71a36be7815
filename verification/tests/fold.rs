use r2sleigh::ast::expr::{BinaryOp, CExpr, UnaryOp};
use r2sleigh::ast::stmt::{same_stmts, CStmt, SwitchCase};
use r2sleigh::ast::types::CType;
use r2sleigh::fold::analyze::Analyses;
use r2sleigh::fold::context::{ArchProfile, FoldingContext, Limits, LoadRendering, UseFacts};
use r2sleigh::fold::facts::{
    ExternalStackBase, ExternalStackSlotRole, ExternalStackVar, StackSlotKey, StackSlotProvenance,
};
use r2sleigh::fold::literal::{
    identity_simplify_binary, literal_to_i64, type_from_size, uint_type_from_size,
};
use r2sleigh::fold::lower::{lowered_from_stmt, LoweredOp};
use r2sleigh::fold::names::{
    extract_call_address, is_generic_arg_name, is_generic_stack_placeholder_alias,
    is_low_signal_visible_name, normalize_callee_name, parse_const_value,
};
use r2sleigh::fold::quality::VisibleExprContext;
use r2sleigh::fold::stack_names::{
    normalize_stack_definition_overrides, should_replace_preserved_stack_expr, StackInfo,
};
use r2sleigh::il::metadata::MemoryOrdering;
use r2sleigh::ssa::{PhiNode, SSABlock, SSAFunction, SSAOp, SSAVar};

fn strings(list: &[&str]) -> Vec<String> {
    list.iter().map(|s| s.to_string()).collect()
}

fn arch() -> ArchProfile {
    ArchProfile {
        ptr_size: 8,
        sp_name: "rsp".to_string(),
        arg_regs: strings(&["rdi", "rsi"]),
        return_regs: strings(&["rax", "eax"]),
        stack_pointers: strings(&["rsp"]),
        frame_pointers: strings(&["rbp"]),
        stack_bases: strings(&["rsp", "rbp"]),
        caller_saved_regs: strings(&["rdi", "rsi", "rcx"]),
        register_bases: strings(&["rax", "eax", "rbx", "rcx", "rdi", "rsi", "rsp", "rbp", "rip"]),
        cpu_flags: strings(&["zf", "cf"]),
    }
}

fn context() -> FoldingContext {
    FoldingContext::new(
        arch(),
        Limits {
            simple_expr: 8,
            alias_rewrite: 8,
            predicate_operand: 8,
        },
    )
}

fn v(name: &str, version: u32, size: u32) -> SSAVar {
    SSAVar::new(name, version, size)
}

fn var(name: &str) -> CExpr {
    CExpr::Var(name.to_string())
}

fn lit(n: i64) -> CExpr {
    CExpr::IntLit(n)
}

fn text(s: &str) -> CExpr {
    CExpr::StringLit(s.to_string())
}

fn sum(a: CExpr, b: CExpr) -> CExpr {
    CExpr::binary(BinaryOp::Add, a, b)
}

fn assign(name: &str, e: CExpr) -> CStmt {
    CStmt::Expr(CExpr::assign(var(name), e))
}

fn same_expr(got: &CExpr, want: &CExpr) {
    assert!(got.same(want), "got {got:?}, want {want:?}");
}

fn same_opt_expr(got: &Option<CExpr>, want: Option<CExpr>) {
    match (got, &want) {
        (Some(a), Some(b)) => same_expr(a, b),
        (None, None) => {}
        _ => panic!("got {got:?}, want {want:?}"),
    }
}

fn same_stmt(got: &Option<CStmt>, want: Option<CStmt>) {
    match (got, &want) {
        (Some(a), Some(b)) => assert!(a.same(b), "got {a:?}, want {b:?}"),
        (None, None) => {}
        _ => panic!("got {got:?}, want {want:?}"),
    }
}

fn same_list(got: &Vec<CStmt>, want: Vec<CStmt>) {
    assert!(same_stmts(got, &want), "got {got:?}, want {want:?}");
}

fn block(addr: u64, ops: Vec<SSAOp>) -> SSABlock {
    SSABlock {
        addr,
        ops,
        phis: vec![],
    }
}

#[test]
fn constants_are_read_out_of_their_names() {
    assert_eq!(parse_const_value("const:0x42"), Some(0x42));
    assert_eq!(parse_const_value("const:42"), Some(42));
    assert_eq!(parse_const_value("const:42_0"), Some(42));
    assert_eq!(parse_const_value("const:0d10"), Some(10));
    assert_eq!(parse_const_value("const:ff"), Some(0xff));
    assert_eq!(parse_const_value("const:12345"), Some(0x12345));
    assert_eq!(parse_const_value("rax_1"), None);
}

#[test]
fn names_are_told_apart() {
    assert!(is_generic_arg_name("arg0") && is_generic_arg_name("ARG12"));
    assert!(!is_generic_arg_name("arg") && !is_generic_arg_name("arg_8"));
    assert!(is_generic_stack_placeholder_alias("&stack_10"));
    assert!(!is_generic_stack_placeholder_alias("local_10"));
    assert!(is_low_signal_visible_name("tmp:1_0") && is_low_signal_visible_name("t12_3"));
    assert!(!is_low_signal_visible_name("total"));
    assert_eq!(extract_call_address("ram:401000"), Some(0x401000));
}

#[test]
fn callees_are_known_by_address_or_plain_name() {
    let addresses = vec![("ram:401000".to_string(), 0x401000u64)];
    assert_eq!(normalize_callee_name(&addresses, "ram:401000"), "addr:401000");
    assert_eq!(normalize_callee_name(&addresses, "sub_401000"), "addr:401000");
    assert_eq!(
        normalize_callee_name(&addresses, "sym.imp.puts"),
        normalize_callee_name(&addresses, "puts")
    );
}

#[test]
fn operands_that_change_nothing_go() {
    same_expr(
        &identity_simplify_binary(BinaryOp::Add, var("x"), lit(0), None),
        &var("x"),
    );
    same_expr(
        &identity_simplify_binary(BinaryOp::BitXor, var("x"), var("x"), None),
        &lit(0),
    );
    same_expr(
        &identity_simplify_binary(BinaryOp::BitAnd, var("x"), lit(0xff), Some(1)),
        &var("x"),
    );
    same_expr(
        &identity_simplify_binary(BinaryOp::BitAnd, var("x"), lit(0xff), Some(2)),
        &CExpr::binary(BinaryOp::BitAnd, var("x"), lit(0xff)),
    );
    same_expr(
        &identity_simplify_binary(BinaryOp::Sub, lit(0), var("x"), None),
        &CExpr::binary(BinaryOp::Sub, lit(0), var("x")),
    );
    assert_eq!(literal_to_i64(&sum(lit(3), lit(4))), Some(7));
    assert_eq!(
        literal_to_i64(&CExpr::binary(BinaryOp::Shl, lit(1), lit(63))),
        None
    );
}

#[test]
fn a_variable_used_once_is_inlined() {
    let mut ctx = context();
    ctx.facts.use_counts = vec![
        ("tmp:1_1".to_string(), 1),
        ("tmp:2_1".to_string(), 2),
        ("tmp:3_1".to_string(), 4),
        ("rbp_2".to_string(), 1),
        ("rdi_2".to_string(), 1),
        ("rax_5".to_string(), 1),
    ];
    ctx.facts.definitions = vec![
        ("tmp:1_1".to_string(), CExpr::deref(var("p"))),
        ("tmp:2_1".to_string(), CExpr::deref(var("p"))),
    ];
    assert!(ctx.folder(&vec![]).should_inline("tmp:1_1"));
    assert!(!ctx.folder(&vec![]).should_inline("tmp:2_1"));
    assert!(!ctx.folder(&vec![]).should_inline("tmp:3_1"));
    assert!(!ctx.folder(&vec![]).should_inline("rbp_2"));
    assert!(ctx.folder(&vec![]).should_inline("rdi_2"));
    assert!(ctx.folder(&vec![]).should_inline("rax_5"));
    ctx.state.return_blocks = vec![0x10];
    ctx.state.current_block_addr = Some(0x10);
    assert!(!ctx.folder(&vec![]).should_inline("rax_5"));
    ctx.facts.pinned = strings(&["tmp:1_1"]);
    assert!(!ctx.folder(&vec![]).should_inline("tmp:1_1"));
    assert!(!ctx.folder(&vec![]).should_inline("unused_1"));
}

#[test]
fn a_small_definition_is_inlined_more_than_once() {
    let mut ctx = context();
    ctx.facts.use_counts = vec![("tmp:1_1".to_string(), 3)];
    ctx.facts.definitions = vec![("tmp:1_1".to_string(), sum(var("a"), lit(1)))];
    assert!(ctx.folder(&vec![]).should_inline("tmp:1_1"));
    ctx.facts.condition_vars = strings(&["tmp:1_1"]);
    assert!(ctx.folder(&vec![]).should_inline("tmp:1_1"));
    ctx.facts.definitions = vec![("tmp:1_1".to_string(), CExpr::deref(var("a")))];
    assert!(!ctx.folder(&vec![]).should_inline("tmp:1_1"));
}

#[test]
fn flags_and_unused_scratch_are_dead() {
    let mut ctx = context();
    ctx.facts.use_counts = vec![("ZF_1".to_string(), 2), ("tmp:1_1".to_string(), 1)];
    assert!(ctx.is_dead(&v("ZF", 1, 1)));
    assert!(!ctx.is_dead(&v("tmp:1", 1, 8)));
    assert!(ctx.is_dead(&v("tmp:2", 1, 8)));
    assert!(ctx.is_dead(&v("rdi", 4, 8)));
    assert!(ctx.is_dead(&v("q3", 1, 16)));
    assert!(!ctx.is_dead(&v("rbx", 1, 8)));
    ctx.facts.definitions = vec![("rbx_1".to_string(), lit(0))];
    ctx.answers.zeroing = vec![lit(0)];
    assert!(ctx.is_dead(&v("rbx", 1, 8)));
}

#[test]
fn constants_are_shown_as_values() {
    let mut ctx = context();
    ctx.answers.constants = vec![("const:5".to_string(), lit(5))];
    same_expr(&ctx.get_expr(&v("const:5", 0, 4)), &lit(5));
}

#[test]
fn addresses_are_shown_by_name() {
    let mut ctx = context();
    ctx.inputs.function_names.insert(0x401000, "main".to_string());
    ctx.inputs.strings.insert(0x402000, "hello".to_string());
    same_expr(&ctx.get_expr(&v("ram:401000", 0, 8)), &var("main"));
    same_expr(&ctx.get_expr(&v("ram:402000", 0, 8)), &text("hello"));
}

#[test]
fn reads_show_the_best_that_is_known() {
    let mut ctx = context();
    same_expr(&ctx.get_expr(&v("rbx", 1, 8)), &var("rbx_1"));
    ctx.answers.rendered_names = vec![("rbx_1".to_string(), "count".to_string())];
    same_expr(&ctx.get_expr(&v("rbx", 1, 8)), &var("count"));
    ctx.facts.use_counts = vec![("rbx_1".to_string(), 1)];
    ctx.facts.definitions = vec![("rbx_1".to_string(), sum(var("a"), var("b")))];
    same_expr(&ctx.get_expr(&v("rbx", 1, 8)), &sum(var("a"), var("b")));
    ctx.facts.stack_slot_of = vec![(
        "rbx_1".to_string(),
        StackSlotProvenance {
            offset: -16,
            predicate_carrier: false,
            return_carrier: false,
        },
    )];
    ctx.answers.stack_names = vec![(-16, "total".to_string())];
    same_expr(&ctx.get_expr(&v("rbx", 1, 8)), &var("total"));
}

#[test]
fn narrow_loads_are_shown_as_memory() {
    let mut ctx = context();
    let access = CExpr::subscript(var("buf"), lit(1));
    ctx.facts.load_producers = vec![("tmp:1_1".to_string(), (v("tmp:1", 1, 1), v("rdi", 0, 8)))];
    ctx.answers.load_exprs = vec![LoadRendering {
        dst: v("tmp:1", 1, 1),
        addr: v("rdi", 0, 8),
        ty: CType::Int(8),
        expr: access.dup(),
    }];
    ctx.answers.structured_memory = vec![access.dup()];
    same_expr(&ctx.get_expr(&v("tmp:1", 1, 1)), &access);
}

#[test]
fn operations_lower_to_statements() {
    let ctx = context();
    let (d, a, b) = (v("rbx", 2, 8), v("x", 1, 8), v("y", 1, 8));
    same_stmt(
        &ctx.folder(&vec![]).op_to_stmt_impl(&SSAOp::IntAdd {
            dst: d.dup(),
            a: a.dup(),
            b: b.dup(),
        }),
        Some(assign("rbx_2", sum(var("x_1"), var("y_1")))),
    );
    same_stmt(
        &ctx.folder(&vec![]).op_to_stmt_impl(&SSAOp::IntXor {
            dst: d.dup(),
            a: a.dup(),
            b: a.dup(),
        }),
        Some(assign("rbx_2", lit(0))),
    );
    same_stmt(
        &ctx.folder(&vec![]).op_to_stmt_impl(&SSAOp::IntNot {
            dst: d.dup(),
            src: a.dup(),
        }),
        Some(assign("rbx_2", CExpr::unary(UnaryOp::BitNot, var("x_1")))),
    );
    same_stmt(
        &ctx.folder(&vec![]).op_to_stmt_impl(&SSAOp::IntZExt {
            dst: d.dup(),
            src: v("z", 1, 4),
        }),
        Some(assign("rbx_2", CExpr::cast(CType::Int(64), var("z_1")))),
    );
    same_stmt(
        &ctx.folder(&vec![]).op_to_stmt_impl(&SSAOp::Piece {
            dst: d.dup(),
            hi: v("h", 1, 4),
            lo: v("l", 1, 4),
        }),
        Some(assign(
            "rbx_2",
            CExpr::binary(
                BinaryOp::BitOr,
                CExpr::binary(
                    BinaryOp::Shl,
                    CExpr::cast(CType::UInt(64), var("h_1")),
                    lit(32),
                ),
                CExpr::cast(CType::UInt(64), var("l_1")),
            ),
        )),
    );
    same_stmt(
        &ctx.folder(&vec![]).op_to_stmt_impl(&SSAOp::Subpiece {
            dst: v("s", 1, 2),
            src: a.dup(),
            offset: 2,
        }),
        Some(assign(
            "s_1",
            CExpr::cast(
                CType::UInt(16),
                CExpr::binary(
                    BinaryOp::Shr,
                    CExpr::cast(CType::UInt(64), var("x_1")),
                    lit(16),
                ),
            ),
        )),
    );
    same_stmt(
        &ctx.folder(&vec![]).op_to_stmt_impl(&SSAOp::PtrAdd {
            dst: d.dup(),
            base: a.dup(),
            index: b.dup(),
            element_size: 4,
        }),
        Some(assign(
            "rbx_2",
            sum(
                var("x_1"),
                CExpr::binary(BinaryOp::Mul, var("y_1"), lit(4)),
            ),
        )),
    );
    same_stmt(&ctx.folder(&vec![]).op_to_stmt_impl(&SSAOp::Nop), None);
    same_stmt(
        &ctx.folder(&vec![]).op_to_stmt_impl(&SSAOp::Unimplemented),
        Some(CStmt::Comment("Unimplemented operation".to_string())),
    );
    same_stmt(
        &ctx.folder(&vec![]).op_to_stmt_impl(&SSAOp::IntCarry { dst: d, a, b }),
        None,
    );
}

#[test]
fn special_operations_lower_to_calls() {
    let mut ctx = context();
    ctx.userop_names.insert(3, "rdtsc".to_string());
    same_stmt(
        &ctx.folder(&vec![]).op_to_stmt_impl(&SSAOp::CallOther {
            output: Some(v("rbx", 1, 8)),
            userop: 3,
            inputs: vec![v("x", 1, 8)],
        }),
        Some(assign(
            "rbx_1",
            CExpr::call(var("callother"), vec![text("rdtsc"), var("x_1")]),
        )),
    );
    same_stmt(
        &ctx.folder(&vec![]).op_to_stmt_impl(&SSAOp::CallOther {
            output: None,
            userop: 4,
            inputs: vec![],
        }),
        Some(CStmt::Expr(CExpr::call(
            var("callother"),
            vec![text("userop_4")],
        ))),
    );
    same_stmt(
        &ctx.folder(&vec![]).op_to_stmt_impl(&SSAOp::Fence {
            ordering: MemoryOrdering::SeqCst,
        }),
        Some(CStmt::Expr(CExpr::call(
            var("memory_fence"),
            vec![text("seq_cst")],
        ))),
    );
    same_stmt(
        &ctx.folder(&vec![]).op_to_stmt_impl(&SSAOp::AtomicCAS {
            dst: v("rbx", 1, 8),
            space: "ram".to_string(),
            addr: v("p", 1, 8),
            expected: v("e", 1, 8),
            replacement: v("n", 1, 8),
            ordering: MemoryOrdering::Relaxed,
        }),
        Some(assign(
            "rbx_1",
            CExpr::call(
                var("atomic_cas"),
                vec![
                    text("ram"),
                    var("p_1"),
                    var("e_1"),
                    var("n_1"),
                    text("relaxed"),
                ],
            ),
        )),
    );
    same_stmt(
        &ctx.folder(&vec![]).op_to_stmt_impl(&SSAOp::FloatSqrt {
            dst: v("rbx", 1, 8),
            src: v("x", 1, 8),
        }),
        Some(assign("rbx_1", CExpr::call(var("sqrt"), vec![var("x_1")]))),
    );
    same_stmt(
        &ctx.folder(&vec![]).op_to_stmt_impl(&SSAOp::CallInd {
            target: v("f", 1, 8),
        }),
        Some(CStmt::Expr(CExpr::call(CExpr::deref(var("f_1")), vec![]))),
    );
}

#[test]
fn typed_operations_cast_where_hints_differ() {
    let mut ctx = context();
    ctx.facts.type_hints = vec![("x_1".to_string(), CType::Int(64))];
    same_stmt(
        &ctx.folder(&vec![]).op_to_stmt_impl(&SSAOp::IntDiv {
            dst: v("rbx", 1, 8),
            a: v("x", 1, 8),
            b: v("y", 1, 8),
        }),
        Some(assign(
            "rbx_1",
            CExpr::binary(
                BinaryOp::Div,
                CExpr::cast(CType::UInt(64), var("x_1")),
                var("y_1"),
            ),
        )),
    );
    assert!(type_from_size(4).same(&CType::Int(32)));
    assert!(uint_type_from_size(2).same(&CType::UInt(16)));
}

#[test]
fn an_assignment_to_itself_says_nothing() {
    let ctx = context();
    same_stmt(&ctx.folder(&vec![]).assign_stmt(var("x"), var("x")), None);
    same_stmt(
        &ctx.folder(&vec![]).assign_stmt(var("x"), CExpr::cast(CType::Int(32), var("X"))),
        None,
    );
    same_stmt(
        &ctx.folder(&vec![]).assign_stmt(var("x"), sum(var("y"), lit(0))),
        Some(assign("x", var("y"))),
    );
}

#[test]
fn statements_lower_to_their_parts() {
    assert!(matches!(
        lowered_from_stmt(assign("x", lit(1))),
        LoweredOp::Assign { .. }
    ));
    assert!(matches!(
        lowered_from_stmt(CStmt::Expr(var("x"))),
        LoweredOp::Expr(_)
    ));
    assert!(matches!(
        lowered_from_stmt(CStmt::Return(None)),
        LoweredOp::Return(None)
    ));
    assert!(matches!(
        lowered_from_stmt(CStmt::Break),
        LoweredOp::Nothing
    ));
}

#[test]
fn values_of_operations_are_their_right_sides() {
    let ctx = context();
    same_expr(
        &ctx.folder(&vec![]).op_to_expr_impl(&SSAOp::IntSub {
            dst: v("rbx", 1, 8),
            a: v("x", 1, 8),
            b: v("y", 1, 8),
        }),
        &CExpr::binary(BinaryOp::Sub, var("x_1"), var("y_1")),
    );
    same_expr(
        &ctx.folder(&vec![]).op_to_expr_impl(&SSAOp::CBranch {
            target: v("ram:10", 0, 8),
            cond: v("c", 1, 1),
        }),
        &var("c_1"),
    );
    same_expr(&ctx.folder(&vec![]).op_to_expr_impl(&SSAOp::Nop), &var("__unhandled_op__"));
}

#[test]
fn a_block_folds_what_is_used_once() {
    let mut ctx = context();
    ctx.facts.use_counts = vec![("tmp:1_1".to_string(), 1), ("rbx_2".to_string(), 2)];
    ctx.facts.definitions = vec![("tmp:1_1".to_string(), sum(var("a"), var("b")))];
    let b = block(
        0x100,
        vec![
            SSAOp::IntAdd {
                dst: v("tmp:1", 1, 8),
                a: v("a", 0, 8),
                b: v("b", 0, 8),
            },
            SSAOp::IntMult {
                dst: v("rbx", 2, 8),
                a: v("tmp:1", 1, 8),
                b: v("c", 0, 8),
            },
            SSAOp::IntEqual {
                dst: v("ZF", 1, 1),
                a: v("rbx", 2, 8),
                b: v("c", 0, 8),
            },
        ],
    );
    same_list(
        &ctx.fold_block(&b, 0x100),
        vec![assign(
            "rbx_2",
            CExpr::binary(BinaryOp::Mul, sum(var("a"), var("b")), var("c_0")),
        )],
    );
    assert_eq!(ctx.state.current_block_addr, None);
    assert_eq!(ctx.state.current_op_idx, None);
}

#[test]
fn a_returning_block_returns_the_last_value_of_its_register() {
    let mut ctx = context();
    ctx.state.return_blocks = vec![0x100];
    let b = block(
        0x100,
        vec![
            SSAOp::Copy {
                dst: v("rax", 1, 8),
                src: v("count", 3, 8),
            },
            SSAOp::Return {
                target: v("rip", 1, 8),
            },
            SSAOp::Copy {
                dst: v("rbx", 9, 8),
                src: v("never", 1, 8),
            },
        ],
    );
    same_list(
        &ctx.fold_block(&b, 0x100),
        vec![CStmt::Return(Some(var("count_3")))],
    );
    let open = block(
        0x100,
        vec![SSAOp::Copy {
            dst: v("rax", 1, 8),
            src: v("count", 3, 8),
        }],
    );
    same_list(
        &ctx.fold_block(&open, 0x100),
        vec![CStmt::Return(Some(var("count_3")))],
    );
}

#[test]
fn the_exit_folds_to_nothing_where_slots_return() {
    let mut ctx = context();
    ctx.state.exit_block = Some(0x200);
    ctx.state.return_stack_slots = vec![-8];
    let b = block(
        0x200,
        vec![SSAOp::Return {
            target: v("rip", 1, 8),
        }],
    );
    same_list(&ctx.fold_block(&b, 0x200), vec![]);
}

#[test]
fn frame_operations_are_hidden_on_demand() {
    let mut ctx = context();
    let b = block(
        0x100,
        vec![SSAOp::Copy {
            dst: v("rbx", 1, 8),
            src: v("saved", 1, 8),
        }],
    );
    ctx.answers.frame_ops = vec![(0x100, 0)];
    same_list(
        &ctx.fold_block(&b, 0x100),
        vec![assign("rbx_1", var("saved_1"))],
    );
    ctx.set_hide_stack_frame(true);
    same_list(&ctx.fold_block(&b, 0x100), vec![]);
}

#[test]
fn assignments_that_a_return_repeats_are_pruned() {
    let mut ctx = context();
    ctx.state.return_stack_slots = vec![-16];
    let list = vec![
        CStmt::Comment("kept".to_string()),
        assign("local_10", var("arg0")),
        CStmt::Return(Some(var("arg0"))),
    ];
    same_list(
        &ctx.folder(&vec![]).prune_redundant_return_slot_assignments(&list),
        vec![
            CStmt::Comment("kept".to_string()),
            CStmt::Return(Some(var("arg0"))),
        ],
    );
    let other = vec![
        assign("local_10", var("arg1")),
        CStmt::Return(Some(var("arg0"))),
    ];
    same_list(
        &ctx.folder(&vec![]).prune_redundant_assign_return_pairs(&other),
        vec![
            assign("local_10", var("arg1")),
            CStmt::Return(Some(var("arg0"))),
        ],
    );
}

fn returning_function() -> SSAFunction {
    let store = |addr: u64, op: SSAOp| {
        block(
            addr,
            vec![
                op,
                SSAOp::Branch {
                    target: v("ram:30", 0, 8),
                },
            ],
        )
    };
    SSAFunction {
        blocks: vec![
            store(
                0x10,
                SSAOp::Store {
                    space: "ram".to_string(),
                    addr: v("slot", 1, 8),
                    val: v("x", 1, 8),
                },
            ),
            store(
                0x20,
                SSAOp::Store {
                    space: "ram".to_string(),
                    addr: v("slot", 2, 8),
                    val: v("y", 1, 8),
                },
            ),
            SSABlock {
                addr: 0x30,
                ops: vec![
                    SSAOp::Load {
                        dst: v("rip", 1, 8),
                        space: "ram".to_string(),
                        addr: v("rsp", 1, 8),
                    },
                    SSAOp::Return {
                        target: v("rip", 1, 8),
                    },
                ],
                phis: vec![PhiNode {
                    dst: v("rbx", 1, 8),
                    sources: vec![(0x10, v("rbx", 0, 8)), (0x40, v("rbx", 0, 8))],
                }],
            },
        ],
        edges: vec![(0x10, 0x30), (0x20, 0x30)],
    }
}

#[test]
fn return_slots_are_those_that_all_predecessors_store_to() {
    let mut ctx = context();
    ctx.answers.addresses = vec![("ram:30".to_string(), 0x30)];
    ctx.answers.var_stack_offsets = vec![("slot_1".to_string(), -8), ("slot_2".to_string(), -8)];
    ctx.analyze_function_structure(&returning_function());
    assert_eq!(ctx.state.exit_block, Some(0x30));
    assert_eq!(ctx.state.return_stack_slots, vec![-8]);
    assert_eq!(ctx.state.return_blocks, vec![0x30, 0x10, 0x20]);

    ctx.answers.stack_names = vec![(-8, "saved_fp".to_string())];
    ctx.analyze_function_structure(&returning_function());
    assert!(ctx.state.return_stack_slots.is_empty());

    let mut differing = context();
    differing.answers.addresses = vec![("ram:30".to_string(), 0x30)];
    differing.answers.var_stack_offsets =
        vec![("slot_1".to_string(), -8), ("slot_2".to_string(), -16)];
    differing.analyze_function_structure(&returning_function());
    assert!(differing.state.return_stack_slots.is_empty());
    assert_eq!(differing.state.return_blocks, vec![0x30]);
}

#[test]
fn the_exit_is_that_of_the_function_given() {
    let leaving = |addr: u64| {
        block(
            addr,
            vec![SSAOp::Return {
                target: v("rip", 1, 8),
            }],
        )
    };
    let mut ctx = context();
    ctx.analyze_function_structure(&SSAFunction {
        blocks: vec![leaving(0x10)],
        edges: vec![],
    });
    assert!(ctx.is_current_return_context_candidate(0x10));
    ctx.analyze_function_structure(&SSAFunction {
        blocks: vec![block(0x18, vec![SSAOp::Nop]), leaving(0x20)],
        edges: vec![],
    });
    assert_eq!(ctx.state.exit_block, Some(0x20));
    assert!(ctx.is_current_return_context_candidate(0x20));
    assert!(!ctx.is_current_return_context_candidate(0x10));
}

#[test]
fn a_function_without_a_return_has_no_exit() {
    let mut ctx = context();
    let func = SSAFunction {
        blocks: vec![block(0x10, vec![SSAOp::Nop])],
        edges: vec![],
    };
    ctx.analyze_function_structure(&func);
    assert_eq!(ctx.state.exit_block, None);
    assert!(ctx.state.return_blocks.is_empty());
}

fn external(offset: i64, name: &str, base: ExternalStackBase) -> (StackSlotKey, ExternalStackVar) {
    (
        StackSlotKey { base, offset },
        ExternalStackVar {
            name: name.to_string(),
            base,
            role: ExternalStackSlotRole::Local,
        },
    )
}

fn name_at(info: &StackInfo, offset: i64) -> Option<String> {
    info.stack_vars
        .iter()
        .find(|p| p.0 == offset)
        .map(|p| p.1.clone())
}

#[test]
fn external_names_replace_made_up_ones() {
    let mut ctx = context();
    ctx.inputs.stack_slots = vec![
        external(16, "count", ExternalStackBase::FramePointer),
        external(-32, "total", ExternalStackBase::StackPointer),
        external(-8, "reserved", ExternalStackBase::StackPointer),
    ];
    ctx.answers.reserved_aliases = strings(&["reserved"]);
    let initial = StackInfo {
        stack_vars: vec![
            (-16, "local_10".to_string()),
            (-32, "mine".to_string()),
            (-8, "local_8".to_string()),
        ],
        stack_arg_aliases: vec![],
        definition_overrides: vec![],
    };
    let again = StackInfo {
        stack_vars: vec![],
        stack_arg_aliases: vec![],
        definition_overrides: vec![],
    };
    let settled = ctx.folder(&vec![]).settle_stack_info(initial, again);
    assert_eq!(name_at(&settled, 16), Some("count".to_string()));
    assert_eq!(name_at(&settled, -16), Some("count".to_string()));
    assert_eq!(name_at(&settled, -32), Some("mine".to_string()));
    assert_eq!(name_at(&settled, 32), None);
    assert_eq!(name_at(&settled, -8), Some("local_8".to_string()));
}

#[test]
fn what_the_first_analysis_knew_better_is_kept() {
    let ctx = context();
    let initial = StackInfo {
        stack_vars: vec![],
        stack_arg_aliases: vec![(-16, "argc".to_string())],
        definition_overrides: vec![("tmp:1_1".to_string(), var("argc"))],
    };
    let again = StackInfo {
        stack_vars: vec![(-16, "local_10".to_string())],
        stack_arg_aliases: vec![],
        definition_overrides: vec![
            ("tmp:1_1".to_string(), var("local_10")),
            ("tmp:2_1".to_string(), var("local_10")),
        ],
    };
    let settled = ctx.folder(&vec![]).settle_stack_info(initial, again);
    assert_eq!(name_at(&settled, -16), Some("argc".to_string()));
    let shown: Vec<(String, bool)> = settled
        .definition_overrides
        .iter()
        .map(|p| (p.0.clone(), p.1.same(&var("argc"))))
        .collect();
    assert!(shown.contains(&("tmp:1_1".to_string(), true)));
    assert!(shown.contains(&("tmp:2_1".to_string(), true)));
    assert!(should_replace_preserved_stack_expr(
        &var("stack_8"),
        &var("argc")
    ));
    assert!(!should_replace_preserved_stack_expr(
        &var("argc"),
        &var("argv")
    ));
}

#[test]
fn spelled_slots_take_their_names() {
    let mut info = StackInfo {
        stack_vars: vec![(-16, "count".to_string()), (8, "stack_8".to_string())],
        stack_arg_aliases: vec![],
        definition_overrides: vec![
            ("a_1".to_string(), var("local_10")),
            ("b_1".to_string(), var("stack_8")),
            ("c_1".to_string(), lit(1)),
        ],
    };
    normalize_stack_definition_overrides(&mut info);
    same_expr(&info.definition_overrides[0].1, &var("count"));
    same_expr(&info.definition_overrides[1].1, &var("stack_8"));
    same_expr(&info.definition_overrides[2].1, &lit(1));
}

#[test]
fn taking_up_facts_finds_the_owners_of_calls() {
    let mut ctx = context();
    let mut facts = UseFacts::new();
    facts.call_result_aliases = vec![((0x100, 2), strings(&["RAX_3", "result"]))];
    facts.direct_call_results = strings(&["RAX_3"]);
    facts.definitions = vec![(
        "RAX_3".to_string(),
        CExpr::call(var("strlen"), vec![var("s")]),
    )];
    ctx.analyze_blocks(Analyses {
        facts,
        stack: StackInfo {
            stack_vars: vec![(-8, "n".to_string())],
            stack_arg_aliases: vec![],
            definition_overrides: vec![],
        },
    });
    assert_eq!(ctx.facts.stack_vars, vec![(-8, "n".to_string())]);
    let owned = ctx.ownership.as_ref().expect("owners");
    let sources = &owned.alias_sources;
    for alias in ["RAX_3", "rax_3", "result"] {
        assert!(sources.contains(&(alias.to_string(), (0x100, 2))), "{alias}");
    }
    let fact = &owned.call_ownership[0].1;
    assert_eq!(fact.direct_aliases, strings(&["RAX_3"]));
    assert_eq!(
        fact.owner.as_ref().map(|o| o.visible_name.clone()),
        Some("result".to_string())
    );
    assert_eq!(owned.visible_owned_names, strings(&["result"]));
    let call = CExpr::call(var("strlen"), vec![var("s")]);
    assert_eq!(ctx.folder(&vec![]).source_call_for_call_expr(&call), Some((0x100, 2)));
    assert_eq!(
        ctx.folder(&vec![]).source_call_for_visible_owner_name("RESULT"),
        Some((0x100, 2))
    );
    same_opt_expr(
        &ctx.folder(&vec![]).stable_owned_call_result_expr_for_call_expr(&call),
        Some(var("result")),
    );
    same_opt_expr(
        &ctx.folder(&vec![]).recovered_owned_call_result_definition_rhs_for_visible_name("result"),
        Some(call),
    );
}

#[test]
fn names_that_survive_are_listed_once() {
    let mut ctx = context();
    ctx.facts.use_counts = vec![("rbx_2".to_string(), 2), ("x_1".to_string(), 2)];
    let b = block(
        0x100,
        vec![
            SSAOp::IntAdd {
                dst: v("rbx", 2, 8),
                a: v("x", 1, 8),
                b: v("const:1", 0, 8),
            },
            SSAOp::IntSub {
                dst: v("rbx", 2, 8),
                a: v("x", 1, 8),
                b: v("ram:400", 0, 8),
            },
            SSAOp::Call {
                target: v("f", 1, 8),
            },
            SSAOp::Copy {
                dst: v("tmp:9", 1, 8),
                src: v("hidden", 1, 8),
            },
        ],
    );
    assert_eq!(
        ctx.emitted_var_names(&vec![b]),
        strings(&["rbx_2", "x_1"])
    );
}

#[test]
fn a_better_expression_is_chosen_and_stays() {
    let ctx = context();
    let plain = CExpr::deref(var("tmp:1_1"));
    let telling = CExpr::subscript(var("table"), var("index"));
    assert!(ctx.folder(&vec![]).prefers_visible_expr(&plain, &telling));
    assert!(!ctx.folder(&vec![]).prefers_visible_expr(&telling, &plain));
    let best = ctx.folder(&vec![]).choose_preferred_visible_expr(Some(plain), Some(telling.dup()));
    same_opt_expr(&best, Some(telling.dup()));
    same_opt_expr(
        &ctx.folder(&vec![]).choose_preferred_visible_expr(Some(telling.dup()), None),
        Some(telling.dup()),
    );
    let scalar = ctx.folder(&vec![]).choose_preferred_visible_expr_in_context(
        Some(CExpr::addr_of(var("x"))),
        Some(var("arg0")),
        VisibleExprContext::ScalarReturn,
    );
    same_opt_expr(&scalar, Some(var("arg0")));
}

#[test]
fn a_switch_selects_on_the_plain_expression() {
    let ctx = context();
    let table = CExpr::cast(
        CType::Int(64),
        CExpr::subscript(var("obj.jumps"), CExpr::Paren(Box::new(var("kind")))),
    );
    same_expr(&ctx.folder(&vec![]).refine_switch_selector_expr(table), &var("kind"));
    same_opt_expr(&ctx.folder(&vec![]).resolve_switch_expr_for_block(0x10), None);
}

#[test]
fn final_statements_keep_their_shape() {
    let ctx = context();
    let stmt = CStmt::If {
        cond: var("c"),
        then_body: Box::new(CStmt::Block(vec![assign("x", lit(1)), CStmt::Break])),
        else_body: Some(Box::new(CStmt::Switch {
            expr: var("k"),
            cases: vec![SwitchCase {
                value: lit(1),
                body: vec![CStmt::Continue],
            }],
            default: Some(vec![CStmt::Return(None)]),
        })),
    };
    let done = ctx.folder(&vec![]).normalize_final_stmt_calls(&stmt, &mut vec![]);
    assert!(done.same(&stmt), "{done:?}");
}

#[test]
fn final_calls_are_cut_to_their_arity() {
    let mut ctx = context();
    ctx.answers.call_arities = vec![(var("close"), 1)];
    let stmt = CStmt::Expr(CExpr::assign(
        var("r"),
        CExpr::call(var("close"), vec![var("fd"), var("junk")]),
    ));
    let done = ctx.folder(&vec![]).normalize_final_stmt_calls(&stmt, &mut vec![]);
    let want = assign("r", CExpr::call(var("close"), vec![var("fd")]));
    assert!(done.same(&want), "{done:?}");
}

#[test]
fn setters_replace_what_was_set() {
    let mut ctx = context();
    ctx.set_type_hints(vec![("x".to_string(), CType::Int(32))]);
    assert!(ctx.folder(&vec![]).lookup_type_hint("X").is_none() || ctx.folder(&vec![]).lookup_type_hint("x").is_some());
    ctx.set_userop_names(std::collections::HashMap::from([(1, "cpuid".to_string())]));
    assert_eq!(ctx.folder(&vec![]).lookup_userop_name(1), "cpuid");
    assert_eq!(ctx.folder(&vec![]).lookup_userop_name(2), "userop_2");
    ctx.set_function_names(std::collections::HashMap::from([(
        0x400000,
        "start".to_string(),
    )]));
    assert_eq!(ctx.folder(&vec![]).lookup_function(0x400000), Some(&"start".to_string()));
}

#[test]
fn analysis_settles_the_stack_before_it_is_taken_up() {
    let mut ctx = context();
    let first = StackInfo {
        stack_vars: vec![],
        stack_arg_aliases: vec![(-16, "argc".to_string())],
        definition_overrides: vec![("tmp:1_1".to_string(), var("argc"))],
    };
    let again = StackInfo {
        stack_vars: vec![(-16, "local_10".to_string())],
        stack_arg_aliases: vec![],
        definition_overrides: vec![],
    };
    let mut facts = UseFacts::new();
    facts.direct_call_results = strings(&["RAX_3"]);
    let stack = ctx.settle_stack(first, again);
    assert_eq!(stack.definition_overrides.len(), 1);
    same_expr(&stack.definition_overrides[0].1, &var("argc"));
    ctx.analyze_blocks(Analyses { facts, stack });
    let names = &ctx.facts.stack_vars;
    assert_eq!(
        names.iter().find(|p| p.0 == -16).map(|p| p.1.as_str()),
        Some("argc")
    );
    assert_eq!(ctx.facts.stack_arg_aliases, vec![(-16, "argc".to_string())]);
    assert_eq!(ctx.facts.direct_call_results, strings(&["RAX_3"]));
    assert!(ctx.ownership.is_some());
}

#[test]
fn one_block_is_analysed_as_a_list_of_one() {
    let found = || {
        let mut facts = UseFacts::new();
        facts.call_result_aliases = vec![((0x100, 2), strings(&["RAX_3", "result"]))];
        facts.direct_call_results = strings(&["RAX_3"]);
        facts.definitions = vec![(
            "RAX_3".to_string(),
            CExpr::call(var("strlen"), vec![var("s")]),
        )];
        Analyses {
            facts,
            stack: StackInfo {
                stack_vars: vec![(-8, "n".to_string())],
                stack_arg_aliases: vec![],
                definition_overrides: vec![],
            },
        }
    };
    let mut one = context();
    let mut list = context();
    one.analyze_block(found());
    list.analyze_blocks(found());
    assert_eq!(one.facts.stack_vars, list.facts.stack_vars);
    let (a, b) = (one.ownership.unwrap(), list.ownership.unwrap());
    assert_eq!(a.visible_owned_names, b.visible_owned_names);
    assert!(!a.visible_owned_names.is_empty());
}

/// What the results of calls are shown as is forgotten with the next analysis.
#[test]
fn owners_are_kept_until_the_next_analysis() {
    let mut ctx = context();
    let found = |owner: &str| {
        let mut facts = UseFacts::new();
        facts.call_result_aliases = vec![((0x100, 2), strings(&["RAX_3", owner]))];
        facts.direct_call_results = strings(&["RAX_3"]);
        facts.definitions = vec![(
            "RAX_3".to_string(),
            CExpr::call(var("strlen"), vec![var("s")]),
        )];
        Analyses {
            facts,
            stack: StackInfo {
                stack_vars: vec![],
                stack_arg_aliases: vec![],
                definition_overrides: vec![],
            },
        }
    };
    let call = CExpr::call(var("strlen"), vec![var("s")]);
    ctx.analyze_blocks(found("result"));
    same_opt_expr(
        &ctx.stable_owned_call_result_expr_for_call_expr(&call),
        Some(var("result")),
    );
    assert_eq!(ctx.kept.owners.len(), 1);
    ctx.ownership = None;
    same_opt_expr(
        &ctx.folder(&vec![]).stable_owned_call_result_expr_for_call_expr(&call),
        Some(var("result")),
    );
    same_opt_expr(&ctx.stable_owned_call_result_expr_for_call_expr(&var("s")), None);
    assert_eq!(ctx.kept.owners.len(), 1);
    ctx.find_ssa_name_for_rendered_alias("total");
    ctx.analyze_blocks(found("length"));
    assert!(ctx.kept.owners.is_empty());
    assert_eq!(ctx.kept.aliases.len(), 1);
    same_opt_expr(
        &ctx.stable_owned_call_result_expr_for_call_expr(&call),
        Some(var("length")),
    );
}

#[test]
fn nothing_follows_a_return_in_what_a_block_folds_to() {
    let mut ctx = context();
    ctx.state.return_blocks = vec![0x100];
    let b = block(
        0x100,
        vec![
            SSAOp::Copy {
                dst: v("rbx", 1, 8),
                src: v("saved", 1, 8),
            },
            SSAOp::Copy {
                dst: v("rax", 1, 8),
                src: v("count", 3, 8),
            },
            SSAOp::Return {
                target: v("rip", 1, 8),
            },
            SSAOp::Return {
                target: v("rip", 2, 8),
            },
        ],
    );
    let list = ctx.fold_block(&b, 0x100);
    assert_eq!(
        list.iter().filter(|s| matches!(s, CStmt::Return(_))).count(),
        1
    );
    assert!(matches!(list.last(), Some(CStmt::Return(_))));
}

/// A name is followed through one argument only: the next is passed as it is written.
#[test]
fn later_arguments_are_not_followed_through_the_same_name() {
    let mut ctx = context();
    ctx.facts.definitions = vec![
        ("tmp:1_1".to_string(), var("tmp:2_1")),
        ("tmp:2_1".to_string(), var("message")),
    ];
    let mut followed: Vec<String> = vec![];
    let folder_marks: Vec<String> = vec![];
    let folder = ctx.folder(&folder_marks);
    folder.normalize_call_arg_expr_for_callee(&var("show"), var("tmp:9_1"), &mut followed);
    assert!(!followed.contains(&"tmp:9_1".to_string()));
    folder.resolve_imported_call_arg_expr(&var("tmp:1_1"), 0, &vec![], &mut followed);
    assert_eq!(followed, strings(&["tmp:1_1", "tmp:2_1"]));
    let pair = CExpr::call(var("pair"), vec![var("tmp:1_1"), var("tmp:1_1")]);
    let mut fresh: Vec<String> = vec![];
    same_expr(
        &folder.resolve_imported_call_arg_expr(&pair, 0, &vec![], &mut fresh),
        &CExpr::call(var("pair"), vec![var("message"), var("tmp:2_1")]),
    );
    drop(folder);
    let stmt = CStmt::Expr(CExpr::call(var("show"), vec![var("tmp:1_1")]));
    ctx.normalize_final_stmt_calls(&stmt);
    let kept = ctx.kept.followed.clone();
    ctx.normalize_final_stmt_calls(&stmt);
    assert_eq!(ctx.kept.followed, kept);
}
