use r2sleigh::ast::expr::{BinaryOp, CExpr};
use r2sleigh::ast::types::CType;
use r2sleigh::fold::casts::{cast_expr_if_needed, cast_needed, member_access_expr};
use r2sleigh::fold::context::{
    find_address, ArchProfile, FoldingContext, FunctionSemanticSummary, Limits, MemoryLocation, ObjectKind,
    OracleFacts, OracleField, PreparedFacts,
};
use r2sleigh::fold::facts::{
    BaseRef, ExternalStackBase, ExternalStackSlotRole, ExternalStackVar, NormalizedAddr,
    ScalarValue, SemanticValue, ValueProvenance, ValueRef,
};
use r2sleigh::fold::names::{parse_lowered_temp_alias, ssa_name_parts};
use r2sleigh::fold::shape::{call_arg_callee_name, expr_is_generic_entry_arg_like};
use r2sleigh::ssa::SSAVar;
use r2sleigh::text::{
    comes_before, decimal, parse_i64, parse_u64, same_lower, split_words, to_lower, trim,
};

fn strings(list: &[&str]) -> Vec<String> {
    list.iter().map(|s| s.to_string()).collect()
}

fn context() -> FoldingContext {
    FoldingContext::new(
        ArchProfile {
            ptr_size: 8,
            sp_name: "rsp".to_string(),
            arg_regs: strings(&["rdi", "rsi"]),
            return_regs: strings(&["rax"]),
            stack_pointers: strings(&["rsp"]),
            frame_pointers: strings(&["rbp"]),
            stack_bases: strings(&["rsp", "rbp"]),
            caller_saved_regs: strings(&["rdi", "rsi"]),
            register_bases: strings(&["rax", "rbx", "rdi", "rsi", "rsp", "rbp"]),
            cpu_flags: strings(&["zf"]),
        },
        Limits {
            simple_expr: 8,
            alias_rewrite: 8,
            predicate_operand: 8,
        },
    )
}

fn prepared() -> PreparedFacts {
    PreparedFacts {
        objects: vec![],
        var_objects: vec![],
        canonical_roots: None,
        memory_uses: vec![],
        memory_defs: vec![],
        switch_selectors: vec![],
        switch_vars: vec![],
        inferred_switch_vars: vec![],
        switch_blocks: vec![],
        call_sites: vec![],
        call_owners: vec![],
        call_result_sources: vec![],
    }
}

fn v(name: &str, version: u32, size: u32) -> SSAVar {
    SSAVar::new(name, version, size)
}

fn var(name: &str) -> CExpr {
    CExpr::Var(name.to_string())
}

fn lit(n: i64) -> CExpr {
    CExpr::IntLit(n)
}

fn sum(a: CExpr, b: CExpr) -> CExpr {
    CExpr::binary(BinaryOp::Add, a, b)
}

fn same_expr(got: &CExpr, want: &CExpr) {
    assert!(got.same(want), "got {got:?}, want {want:?}");
}

fn same_opt_expr(got: &Option<CExpr>, want: Option<CExpr>) {
    match (got, &want) {
        (Some(a), Some(b)) => same_expr(a, b),
        (None, None) => {}
        _ => panic!("got {got:?}, want {want:?}"),
    }
}

#[test]
fn texts_are_lowered_trimmed_and_read() {
    assert_eq!(to_lower("RAX_Ω"), "rax_Ω");
    assert!(same_lower("EAX", "eax") && !same_lower("É", "é"));
    assert_eq!(trim("\u{3000} a b \t"), "a b");
    assert_eq!(split_words(" a\u{2003}b\n c "), strings(&["a", "b", "c"]));
    assert_eq!(parse_u64("ff", 16), Some(255));
    assert_eq!(parse_u64("18446744073709551616", 10), None);
    assert_eq!(parse_i64("-10", 16), Some(-16));
    assert_eq!(decimal(1203), "1203");
    assert!(comes_before("a", "ab") && comes_before("ab", "b") && !comes_before("b", "b"));
}

#[test]
fn names_split_into_base_and_version() {
    assert_eq!(ssa_name_parts("rax_12"), ("rax".to_string(), 12));
    assert_eq!(ssa_name_parts("rax"), ("rax".to_string(), 0));
    assert_eq!(
        parse_lowered_temp_alias("t7f_2"),
        Some((true, "7f".to_string(), 2))
    );
    assert_eq!(parse_lowered_temp_alias("v3"), Some((false, String::new(), 3)));
    assert_eq!(parse_lowered_temp_alias("total"), None);
}

#[test]
fn hints_are_found_in_lower_case_of_any_script() {
    let mut ctx = context();
    ctx.facts.type_hints = vec![("δx".to_string(), CType::Int(16))];
    let found = ctx.folder(&vec![]).lookup_type_hint("ΔX");
    assert!(found.is_some_and(|ty| ty.same(&CType::Int(16))));
    assert!(ctx.folder(&vec![]).lookup_type_hint("y").is_none());
}

#[test]
fn merged_versions_are_found_in_either_case() {
    let mut ctx = context();
    ctx.facts.phi_sources = vec![("ÄX_3".to_string(), vec![v("a", 1, 8)])];
    assert_eq!(ctx.folder(&vec![]).phi_sources_for_name("äx_3").len(), 1);
    assert_eq!(ctx.folder(&vec![]).phi_sources_for_name("äx_4").len(), 0);
}

#[test]
fn casts_are_made_once_and_only_where_needed() {
    assert!(cast_needed(&CType::UInt(32), Some(&CType::Int(32))));
    assert!(!cast_needed(&CType::Int(32), Some(&CType::Int(32))));
    assert!(!cast_needed(&CType::Int(32), None));
    let once = cast_expr_if_needed(var("x"), CType::UInt(32), Some(&CType::Int(32)));
    same_expr(&once, &CExpr::cast(CType::UInt(32), var("x")));
    let twice = cast_expr_if_needed(once.dup(), CType::UInt(32), Some(&CType::Int(32)));
    same_expr(&twice, &once);
}

#[test]
fn fields_are_reached_by_dot_or_arrow() {
    let arrow = member_access_expr(var("p"), "next".to_string());
    assert!(matches!(arrow, CExpr::PtrMember { .. }));
    let dot = member_access_expr(CExpr::subscript(var("t"), lit(1)), "next".to_string());
    assert!(matches!(dot, CExpr::Member { .. }));
}

#[test]
fn callees_and_parameters_are_recognised() {
    assert_eq!(
        call_arg_callee_name(&CExpr::cast(CType::Int(64), var("puts"))),
        Some("puts".to_string())
    );
    assert!(expr_is_generic_entry_arg_like(&var("ARGV")));
    assert!(expr_is_generic_entry_arg_like(&CExpr::Paren(Box::new(var("arg3")))));
    assert!(!expr_is_generic_entry_arg_like(&var("argument")));
}

#[test]
fn constant_expressions_come_out_as_numbers() {
    let mut ctx = context();
    ctx.facts.definitions = vec![("k_1".to_string(), lit(0x1000))];
    assert_eq!(
        ctx.folder(&vec![]).evaluate_constish_call_arg_expr(&sum(CExpr::UIntLit(0x1000), lit(4)), 0),
        Some(0x1004)
    );
    assert_eq!(
        ctx.folder(&vec![]).evaluate_constish_call_arg_expr(&sum(var("k_1"), var("const:8")), 0),
        Some(0x1008)
    );
    assert_eq!(ctx.folder(&vec![]).evaluate_constish_call_arg_expr(&lit(-1), 0), None);
    assert_eq!(ctx.folder(&vec![]).evaluate_constish_call_arg_expr(&var("x"), 0), None);
}

#[test]
fn numbers_that_are_addresses_become_objects() {
    let mut ctx = context();
    ctx.inputs.strings.insert(0x402000, "usage".to_string());
    ctx.inputs.symbols.insert(0x404000, "counter".to_string());
    same_opt_expr(
        &ctx.folder(&vec![]).literalish_call_arg_expr_for_addr(0x402000),
        Some(CExpr::StringLit("usage".to_string())),
    );
    same_opt_expr(
        &ctx.folder(&vec![]).resolve_literalish_call_arg_expr(&CExpr::UIntLit(0x404000)),
        Some(var("counter")),
    );
    same_opt_expr(&ctx.folder(&vec![]).resolve_literalish_call_arg_expr(&CExpr::UIntLit(0x10)), None);
}

#[test]
fn an_address_is_read_out_of_an_expression() {
    let mut ctx = context();
    ctx.answers.semantic_bindings = strings(&["p"]);
    let addr = ctx.folder(&vec![]).normalized_addr_from_visible_expr(&sum(var("p_1"), lit(8)), 0)
        .expect("an address");
    assert!(matches!(&addr.base, BaseRef::Value(r) if r.var.same(&v("p", 1, r.var.size))));
    assert!(addr.index.is_none());
    assert_eq!((addr.scale_bytes, addr.offset_bytes), (0, 8));
    assert!(ctx.folder(&vec![]).normalized_addr_from_visible_expr(&lit(3), 0).is_none());
}

#[test]
fn a_temporary_is_shown_as_what_it_means() {
    let mut ctx = context();
    let access = CExpr::subscript(var("table"), var("i"));
    ctx.facts.meanings = vec![(
        "tmp:1_1".to_string(),
        SemanticValue::Scalar(ScalarValue::Expr(access.dup())),
    )];
    same_expr(&ctx.folder(&vec![]).semanticized(&sum(var("tmp:1_1"), lit(1))), &sum(access, lit(1)));
    same_expr(&ctx.folder(&vec![]).semanticized(&var("total")), &var("total"));
}

#[test]
fn arguments_are_expanded_to_their_definitions() {
    let mut ctx = context();
    ctx.facts.definitions = vec![
        ("tmp:1_1".to_string(), sum(var("tmp:2_1"), lit(1))),
        ("tmp:2_1".to_string(), var("count")),
    ];
    let none: Vec<String> = vec![];
    same_expr(
        &ctx.folder(&vec![]).expand_call_arg_expr(&var("tmp:1_1"), 0, &none, &mut vec![]),
        &sum(var("count"), lit(1)),
    );
    same_expr(
        &ctx.folder(&vec![]).expand_call_arg_expr(&var("const:9"), 0, &none, &mut vec![]),
        &lit(9),
    );
    same_expr(
        &ctx.folder(&vec![]).expand_call_arg_expr(&var("const:80000000"), 0, &none, &mut vec![]),
        &CExpr::UIntLit(0x8000_0000),
    );
}

#[test]
fn imported_arguments_are_followed_and_cycles_end() {
    let mut ctx = context();
    ctx.facts.definitions = vec![
        ("tmp:1_1".to_string(), var("tmp:2_1")),
        ("tmp:2_1".to_string(), var("message")),
        ("tmp:3_1".to_string(), var("tmp:4_1")),
        ("tmp:4_1".to_string(), var("tmp:3_1")),
    ];
    let mut marks: Vec<String> = vec![];
    same_expr(
        &ctx.folder(&vec![]).resolve_imported_call_arg_expr(&var("tmp:1_1"), 0, &vec![], &mut marks),
        &var("message"),
    );
    let mut marks: Vec<String> = vec![];
    let end = ctx.folder(&vec![]).resolve_imported_call_arg_expr(&var("tmp:3_1"), 0, &vec![], &mut marks);
    assert!(matches!(end, CExpr::Var(_)));
}

#[test]
fn the_best_argument_is_one_of_those_offered() {
    let ctx = context();
    let text = CExpr::StringLit("fmt".to_string());
    same_opt_expr(
        &ctx.folder(&vec![]).choose_preferred_call_arg_expr(Some(var("tmp:1_1")), Some(text.dup()), true),
        Some(text.dup()),
    );
    same_opt_expr(
        &ctx.folder(&vec![]).choose_preferred_call_arg_expr(None, Some(var("x")), true),
        Some(var("x")),
    );
    same_opt_expr(&ctx.folder(&vec![]).choose_preferred_call_arg_expr(None, None, false), None);
}

#[test]
fn the_newest_variable_stands_behind_an_alias() {
    let mut ctx = context();
    ctx.facts.var_aliases = vec![
        ("rbx_1".to_string(), "total".to_string()),
        ("rbx_10".to_string(), "Total".to_string()),
        ("rbx_3".to_string(), "other".to_string()),
    ];
    assert_eq!(
        ctx.folder(&vec![]).resolve_rendered_alias("total"),
        Some("rbx_10".to_string())
    );
    assert_eq!(ctx.folder(&vec![]).resolve_rendered_alias("unknown"), None);
    let mut names = ctx.folder(&vec![]).ssa_names_for_alias("TOTAL");
    names.sort();
    assert_eq!(names, strings(&["rbx_1", "rbx_10"]));
}

#[test]
fn copies_are_followed_to_their_root() {
    let mut ctx = context();
    ctx.facts.copy_sources = vec![
        ("a_3".to_string(), "a_2".to_string()),
        ("a_2".to_string(), "a_1".to_string()),
        ("b_1".to_string(), "b_2".to_string()),
        ("b_2".to_string(), "b_1".to_string()),
    ];
    assert_eq!(ctx.folder(&vec![]).resolve_copy_root_name_in_fold("a_3"), "a_1");
    assert_eq!(ctx.folder(&vec![]).resolve_copy_root_name_in_fold("c_1"), "c_1");
    assert_eq!(ctx.folder(&vec![]).resolve_copy_root_name_in_fold("b_1"), "b_1");
}

#[test]
fn stack_names_give_their_offsets() {
    let mut ctx = context();
    assert_eq!(ctx.folder(&vec![]).stack_offset_for_visible_storage_name("local_10"), Some(-16));
    assert_eq!(ctx.folder(&vec![]).stack_offset_for_visible_storage_name("stack_8"), Some(8));
    assert_eq!(ctx.folder(&vec![]).stack_offset_for_visible_storage_name("Saved_FP"), Some(0));
    assert_eq!(ctx.folder(&vec![]).stack_offset_for_visible_storage_name("count"), None);
    ctx.facts.stack_vars = vec![(-24, "count".to_string())];
    assert_eq!(ctx.folder(&vec![]).stack_offset_for_visible_storage_name("COUNT"), Some(-24));
    assert!(ctx.folder(&vec![]).visible_names_share_stack_slot("count", "local_18"));
    assert!(!ctx.folder(&vec![]).visible_names_share_stack_slot("count", "local_20"));
}

#[test]
fn a_scalar_meaning_is_rendered_as_it_stands() {
    let ctx = context();
    let none: Vec<String> = vec![];
    let meaning = SemanticValue::Scalar(ScalarValue::Expr(sum(var("a"), lit(1))));
    same_opt_expr(
        &ctx.folder(&vec![]).render_semantic_value(&meaning, 0, &none),
        Some(sum(var("a"), lit(1))),
    );
    same_opt_expr(&ctx.folder(&vec![]).render_semantic_value(&SemanticValue::Unknown, 0, &none), None);
}

#[test]
fn a_stack_slot_is_rendered_by_its_name() {
    let mut ctx = context();
    ctx.answers.stack_names = vec![(-16, "count".to_string())];
    let none: Vec<String> = vec![];
    let meaning = SemanticValue::Address(NormalizedAddr::slot(-16));
    same_opt_expr(
        &ctx.folder(&vec![]).render_semantic_value(&meaning, 0, &none),
        Some(CExpr::addr_of(var("count"))),
    );
    let load = SemanticValue::Load {
        addr: NormalizedAddr::slot(-16),
        size: 4,
    };
    same_opt_expr(&ctx.folder(&vec![]).render_semantic_value(&load, 0, &none), Some(var("count")));
}

#[test]
fn an_indexed_load_is_rendered_as_an_element() {
    let ctx = context();
    let none: Vec<String> = vec![];
    let addr = NormalizedAddr {
        base: BaseRef::Raw(var("table")),
        index: Some(ValueRef::from_var(v("i", 1, 8))),
        scale_bytes: 4,
        offset_bytes: 0,
    };
    let rendered = ctx.folder(&vec![]).render_access_expr_from_addr(&addr, 4, 0, &none);
    assert!(
        matches!(rendered, Some(CExpr::Subscript { .. })),
        "{rendered:?}"
    );
}

#[test]
fn fields_come_from_the_oracle() {
    let mut ctx = context();
    ctx.set_type_oracle(Some(OracleFacts {
        fields: vec![OracleField {
            var: "p_1".to_string(),
            offset: 8,
            name: "next".to_string(),
        }],
        reaching: strings(&["p_1"]),
    }));
    assert_eq!(
        ctx.folder(&vec![]).known_field_name(&v("p", 1, 8), 8),
        Some("next".to_string())
    );
    assert_eq!(ctx.folder(&vec![]).known_field_name(&v("p", 1, 8), 16), None);
}

#[test]
fn memory_locations_are_named_by_their_objects() {
    let mut ctx = context();
    ctx.inputs.symbols.insert(0x404008, "counter".to_string());
    ctx.answers.stack_names = vec![(-8, "n".to_string())];
    let mut facts = prepared();
    facts.objects = vec![
        (1, ObjectKind::Global { address: 0x404000 }),
        (2, ObjectKind::StackSlot { offset: -8 }),
    ];
    facts.memory_uses = vec![(
        (0x10, 0),
        vec![MemoryLocation {
            object: 1,
            offset: 8,
            size: 4,
        }],
    )];
    facts.memory_defs = vec![(
        (0x10, 0),
        vec![MemoryLocation {
            object: 2,
            offset: 0,
            size: 4,
        }],
    )];
    ctx.inputs.prepared = Some(facts);
    ctx.state.current_block_addr = Some(0x10);
    ctx.state.current_op_idx = Some(0);
    same_opt_expr(
        &ctx.folder(&vec![]).prepared_named_memory_expr_for_current_op(),
        Some(var("counter")),
    );
    same_opt_expr(
        &ctx.folder(&vec![]).prepared_named_memory_def_expr_for_current_op(),
        Some(var("n")),
    );
    same_opt_expr(
        &ctx.folder(&vec![]).prepared_named_expr_for_memory_location(&MemoryLocation {
            object: 2,
            offset: 4,
            size: 4,
        }),
        None,
    );
}

#[test]
fn switches_select_on_what_preparation_found() {
    let mut ctx = context();
    let mut facts = prepared();
    facts.switch_selectors = vec![(0x10, CExpr::Paren(Box::new(var("kind"))))];
    ctx.inputs.prepared = Some(facts);
    same_opt_expr(&ctx.folder(&vec![]).resolve_switch_expr_for_block(0x10), Some(var("kind")));
    same_opt_expr(&ctx.folder(&vec![]).resolve_switch_expr_for_block(0x99), Some(var("kind")));

    let mut facts = prepared();
    facts.switch_blocks = vec![0x20];
    facts.inferred_switch_vars = vec![(0x20, v("mode", 1, 4))];
    ctx.inputs.prepared = Some(facts);
    ctx.answers.origin_exprs = vec![("mode_1".to_string(), var("mode"))];
    same_opt_expr(&ctx.folder(&vec![]).resolve_switch_expr_for_block(0x77), Some(var("mode")));
}

#[test]
fn summaries_are_found_under_any_spelling() {
    let mut ctx = context();
    ctx.inputs.summaries = Some(vec![
        FunctionSemanticSummary {
            name: None,
            address: 1,
        },
        FunctionSemanticSummary {
            name: Some("sym.imp.puts".to_string()),
            address: 2,
        },
    ]);
    assert_eq!(
        ctx.folder(&vec![]).interproc_summary_for_name("puts").map(|s| s.address),
        Some(2)
    );
    assert!(ctx.folder(&vec![]).interproc_summary_for_name("gets").is_none());
}

#[test]
fn calls_are_written_out_from_their_sites() {
    let mut ctx = context();
    let mut facts = prepared();
    facts.call_sites = vec![((0x10, 3), (var("helper"), vec![var("x"), lit(2)]))];
    ctx.inputs.prepared = Some(facts);
    same_opt_expr(
        &ctx.folder(&vec![]).synthesized_call_expr_for_source_call((0x10, 3)),
        Some(CExpr::call(var("helper"), vec![var("x"), lit(2)])),
    );
    same_opt_expr(&ctx.folder(&vec![]).synthesized_call_expr_for_source_call((0x10, 4)), None);
}

#[test]
fn names_are_asked_for_through_other_names() {
    let mut ctx = context();
    ctx.facts.meanings = vec![(
        "tmp:1_1".to_string(),
        SemanticValue::Scalar(ScalarValue::Expr(lit(7))),
    )];
    ctx.facts.var_aliases = vec![("rbx_4".to_string(), "total".to_string())];
    same_expr(
        &ctx.folder(&vec![]).semanticized(&var("tmp:1_1")),
        &lit(7),
    );
    assert_eq!(
        ctx.folder(&vec![]).find_ssa_name_for_rendered_alias("total"),
        Some("rbx_4".to_string())
    );
}

#[test]
fn forwarded_values_name_their_source() {
    let mut ctx = context();
    ctx.facts.forwarded = vec![(
        "a_2".to_string(),
        ValueProvenance {
            source: "b_1".to_string(),
            source_var: Some(v("b", 1, 8)),
            stack_slot: Some(-8),
        },
    )];
    assert!(ctx.folder(&vec![]).forwarded_source_var("a_2")
        .is_some_and(|b| b.same(&v("b", 1, 8))));
    assert!(ctx.folder(&vec![]).forwarded_source_var("b_1").is_none());
    assert_eq!(ctx.folder(&vec![]).forwarded_slot("a_2"), Some(-8));
}

#[test]
fn external_slots_are_kept_under_their_base() {
    let mut ctx = context();
    ctx.set_external_stack_vars(vec![(
        -16,
        ExternalStackVar {
            name: "count".to_string(),
            base: ExternalStackBase::FramePointer,
            role: ExternalStackSlotRole::Local,
        },
    )]);
    assert_eq!(ctx.inputs.stack_slots.len(), 1);
    assert_eq!(ctx.inputs.stack_slots[0].0.offset, -16);
    ctx.set_known_function_signatures(vec![("puts".to_string(), CType::Int(32))]);
    assert_eq!(ctx.inputs.known_function_signatures.len(), 1);
}

#[test]
fn lowering_twice_changes_nothing() {
    for s in ["RAX_Ω", "", "ß", "mixedCase_9"] {
        assert_eq!(to_lower(&to_lower(s)), to_lower(s));
        assert!(same_lower(s, &to_lower(s)));
    }
}

#[test]
fn a_returned_value_is_one_of_the_candidates() {
    let mut ctx = context();
    same_opt_expr(
        &ctx.folder(&vec![]).preferred_return_candidate(Some(var("a")), Some(var("b"))),
        Some(var("a")),
    );
    ctx.answers.return_preferences = vec![(var("a"), var("b"))];
    same_opt_expr(
        &ctx.folder(&vec![]).preferred_return_candidate(Some(var("a")), Some(var("b"))),
        Some(var("b")),
    );
    same_opt_expr(
        &ctx.folder(&vec![]).preferred_return_candidate(None, Some(var("b"))),
        Some(var("b")),
    );
    same_opt_expr(&ctx.folder(&vec![]).preferred_return_candidate(None, None), None);
}

#[test]
fn a_returned_name_is_followed_to_its_definition() {
    let mut ctx = context();
    ctx.facts.definitions = vec![
        ("rax_2".to_string(), var("rax_1")),
        ("rax_1".to_string(), var("count")),
    ];
    let none: Vec<String> = vec![];
    same_opt_expr(
        &ctx.folder(&vec![]).resolve_return_expr_from_defs(&var("rax_2"), 0, &none),
        Some(var("count")),
    );
    same_opt_expr(
        &ctx.folder(&vec![]).resolve_return_expr_from_defs(&CExpr::cast(CType::Int(32), var("rax_1")), 0, &none),
        Some(CExpr::cast(CType::Int(32), var("count"))),
    );
    same_opt_expr(&ctx.folder(&vec![]).resolve_return_expr_from_defs(&lit(1), 0, &none), None);
}

#[test]
fn a_comparison_gives_its_call_back_to_the_owner() {
    let mut ctx = context();
    let mut facts = prepared();
    facts.call_sites = vec![((0x10, 3), (var("helper"), vec![var("x")]))];
    facts.call_owners = vec![((0x10, 3), var("result"))];
    ctx.inputs.prepared = Some(facts);
    ctx.facts.call_result_sources = vec![("rax_5".to_string(), (0x10, 3))];
    ctx.facts.flag_only_values = strings(&["tmp:9_1"]);
    ctx.answers.ephemeral_targets = strings(&["tmp:9_1"]);
    let rhs = CExpr::binary(BinaryOp::Sub, var("rax_5"), lit(1));
    same_opt_expr(
        &ctx.folder(&vec![]).recover_ephemeral_compare_temp_owner_assignment("tmp:9_1", &rhs),
        Some(CExpr::assign(
            var("result"),
            CExpr::call(var("helper"), vec![var("x")]),
        )),
    );
    same_opt_expr(
        &ctx.folder(&vec![]).recover_ephemeral_compare_temp_owner_assignment("kept", &rhs),
        None,
    );
}

#[test]
fn a_written_meaning_stands_at_any_depth() {
    let mut ctx = context();
    let none: Vec<String> = vec![];
    let seven = SemanticValue::Scalar(ScalarValue::Expr(lit(7)));
    for depth in [0, 9, 17, 1000, u32::MAX] {
        same_opt_expr(
            &ctx.folder(&vec![]).render_semantic_value(&seven, depth, &none),
            Some(lit(7)),
        );
    }
    ctx.answers.stack_names = vec![(-16, "count".to_string())];
    let load = SemanticValue::Load {
        addr: NormalizedAddr::slot(-16),
        size: 4,
    };
    for depth in [0, 17, 1000] {
        same_opt_expr(
            &ctx.folder(&vec![]).render_semantic_value(&load, depth, &none),
            Some(var("count")),
        );
    }
    ctx.answers.stack_names = vec![];
    ctx.facts.stable_stack_values = vec![
        (-16, SemanticValue::Load { addr: NormalizedAddr::slot(-24), size: 4 }),
        (-24, SemanticValue::Scalar(ScalarValue::Expr(lit(5)))),
    ];
    for depth in [0, 17, 1000] {
        same_opt_expr(
            &ctx.folder(&vec![]).render_semantic_value(&load, depth, &none),
            Some(lit(5)),
        );
    }
}

#[test]
fn a_name_that_leads_back_is_answered_in_writing() {
    let mut ctx = context();
    ctx.facts.definitions = vec![("x_1".to_string(), lit(3))];
    let none: Vec<String> = vec![];
    let meaning = strings(&["meaning:x_1"]);
    same_opt_expr(
        &ctx.folder(&meaning).render_semantic_value_by_name("x_1", 0, &none),
        Some(lit(3)),
    );
    same_opt_expr(
        &ctx.folder(&vec![]).render_semantic_value_by_name("x_1", 0, &none),
        None,
    );
    let raw = strings(&["raw:x_1"]);
    same_opt_expr(&ctx.folder(&raw).lookup_definition_raw("x_1"), Some(lit(3)));
    let shown = strings(&["visible:y_1"]);
    assert!(ctx.folder(&shown).best_visible_definition("y_1").is_some());
    assert!(ctx.folder(&vec![]).best_visible_definition("y_1").is_none());
    let mut marks = strings(&["x_1"]);
    same_expr(
        &ctx.folder(&vec![]).resolve_imported_call_arg_expr(&var("x_1"), 0, &none, &mut marks),
        &lit(3),
    );
    ctx.facts.var_aliases = vec![("rbx_4".to_string(), "total".to_string())];
    let alias = strings(&["alias:total"]);
    assert_eq!(
        ctx.folder(&alias).find_ssa_name_for_rendered_alias("total"),
        None
    );
}

#[test]
fn a_name_is_not_rendered_within_itself() {
    let mut ctx = context();
    ctx.facts.meanings = vec![(
        "a_1".to_string(),
        SemanticValue::Scalar(ScalarValue::Root(ValueRef::from_var(v("a", 1, 8)))),
    )];
    let none: Vec<String> = vec![];
    let under_way = strings(&["val:a_1"]);
    same_opt_expr(
        &ctx.folder(&vec![]).render_semantic_value_by_name("a_1", 0, &under_way),
        None,
    );
    assert!(ctx
        .folder(&vec![])
        .render_semantic_value_by_name("a_1", 0, &none)
        .is_some());
}

#[test]
fn names_that_lead_to_one_another_end() {
    let mut ctx = context();
    for k in 0..12 {
        let name = format!("tmp:{k}_1");
        let next = format!("tmp:{}_1", (k + 1) % 12);
        ctx.facts
            .definitions
            .push((name.clone(), sum(var(&next), lit(1))));
        ctx.facts.meanings.push((
            name.clone(),
            SemanticValue::Scalar(ScalarValue::Root(ValueRef::from_var(v(
                &format!("tmp:{}", (k + 5) % 12),
                1,
                8,
            )))),
        ));
        ctx.facts.var_aliases.push((name, format!("shown{}", k % 5)));
    }
    let none: Vec<String> = vec![];
    let mut marks: Vec<String> = vec![];
    let folder = ctx.folder(&none);
    assert!(folder.render_semantic_value_by_name("tmp:0_1", 0, &none).is_some());
    assert!(folder.find_ssa_name_for_rendered_alias("shown1").is_some());
    assert!(folder.lookup_definition("tmp:3_1").is_some());
    folder.resolve_imported_call_arg_expr(&var("tmp:4_1"), 0, &none, &mut marks);
    assert!(!marks.is_empty());
}

#[test]
fn calls_within_calls_are_settled() {
    let ctx = context();
    let mut e = var("x");
    for k in 0..12 {
        e = CExpr::call(var(&format!("f{k}")), vec![e]);
    }
    same_expr(&ctx.folder(&vec![]).normalize_final_call_expr(&e, &mut vec![]), &e);
}

#[test]
fn a_forced_argument_is_followed_to_what_it_holds() {
    let mut ctx = context();
    ctx.facts.definitions = vec![
        ("tmp:1_1".to_string(), var("tmp:2_1")),
        ("tmp:2_1".to_string(), var("message")),
    ];
    let none: Vec<String> = vec![];
    same_opt_expr(
        &ctx.folder(&vec![]).force_resolve_imported_call_arg_var("tmp:1_1", 0, &none, &mut vec![]),
        Some(var("message")),
    );
    same_opt_expr(
        &ctx.folder(&vec![]).force_resolve_imported_call_arg_var("tmp:1_1", 9, &none, &mut vec![]),
        None,
    );
    let under_way = strings(&["force-call:tmp:1_1"]);
    same_opt_expr(
        &ctx.folder(&vec![]).force_resolve_imported_call_arg_var("tmp:1_1", 0, &under_way, &mut vec![]),
        None,
    );
}

#[test]
fn a_named_access_is_rendered_by_what_the_name_means() {
    let mut ctx = context();
    ctx.answers.stack_names = vec![(-16, "count".to_string())];
    ctx.facts.meanings = vec![
        ("p_1".to_string(), SemanticValue::Address(NormalizedAddr::slot(-16))),
        (
            "q_1".to_string(),
            SemanticValue::Load {
                addr: NormalizedAddr::slot(-16),
                size: 4,
            },
        ),
        ("r_1".to_string(), SemanticValue::Scalar(ScalarValue::Expr(lit(7)))),
    ];
    let none: Vec<String> = vec![];
    for name in ["p_1", "q_1"] {
        same_opt_expr(
            &ctx.folder(&vec![]).render_memory_access_by_name(name, 4, 0, &none),
            Some(var("count")),
        );
    }
    same_opt_expr(
        &ctx.folder(&vec![]).render_memory_access_by_name("r_1", 4, 30, &none),
        Some(lit(7)),
    );
    same_opt_expr(
        &ctx.folder(&vec![]).render_memory_access_by_name("s_1", 4, 0, &none),
        None,
    );
}

#[test]
fn an_operation_is_written_over_its_operands() {
    let ctx = context();
    let (a, b) = (v("x", 1, 8), v("y", 1, 8));
    let folder_marks: Vec<String> = vec![];
    let folder = ctx.folder(&folder_marks);
    same_expr(
        &folder.binary_expr(BinaryOp::Add, &a, &b),
        &sum(folder.get_expr(&a), folder.get_expr(&b)),
    );
    same_opt_expr(
        &folder.choose_preferred_scalar_predicate_expr(None, Some(lit(3))),
        Some(lit(3)),
    );
    same_opt_expr(
        &folder.choose_preferred_scalar_predicate_expr(Some(lit(3)), None),
        Some(lit(3)),
    );
    same_opt_expr(&folder.choose_preferred_scalar_predicate_expr(None, None), None);
}

#[test]
fn a_shown_name_of_a_literal_is_that_literal() {
    let mut ctx = context();
    ctx.facts.var_aliases = vec![("rbx_4".to_string(), "total".to_string())];
    ctx.facts.definitions = vec![("rbx_4".to_string(), lit(0x402000))];
    ctx.inputs.strings.insert(0x402000, "fmt".to_string());
    same_opt_expr(
        &ctx.folder(&vec![]).resolve_literalish_rendered_alias_expr("total"),
        Some(CExpr::StringLit("fmt".to_string())),
    );
    same_opt_expr(
        &ctx.folder(&vec![]).resolve_literalish_rendered_alias_expr("other"),
        None,
    );
}

/// A value whose index is the value itself: it is not written within itself, and the
/// index counts by how its variable is read.
#[test]
fn a_value_that_leads_back_through_an_index_ends() {
    let mut ctx = context();
    let itself = NormalizedAddr {
        base: BaseRef::Raw(var("table")),
        index: Some(ValueRef::from_var(v("i", 1, 8))),
        scale_bytes: 4,
        offset_bytes: 0,
    };
    ctx.inputs.symbols.insert(0x4000, "table".to_string());
    ctx.facts.meanings = vec![(
        "i_1".to_string(),
        SemanticValue::Load {
            addr: itself.dup(),
            size: 4,
        },
    )];
    let none: Vec<String> = vec![];
    let i = ValueRef::from_var(v("i", 1, 8));
    assert!(ctx.folder(&vec![]).render_value_ref(&i, 0, &none).is_some());
    assert!(ctx
        .folder(&vec![])
        .render_semantic_value_by_name("i_1", 0, &none)
        .is_some());
    let under_way = strings(&["value:i_1"]);
    same_opt_expr(&ctx.folder(&under_way).render_value_ref(&i, 0, &none), None);
    same_expr(
        &ctx.folder(&under_way).settled_value_expr(&i),
        &ctx.folder(&under_way).get_expr(&v("i", 1, 8)),
    );
}

#[test]
fn addresses_are_found_by_what_stands_there() {
    let mut ctx = context();
    ctx.inputs.symbols.insert(0x5000, "table".to_string());
    ctx.inputs.symbols.insert(0x4000, "table".to_string());
    ctx.inputs.function_names.insert(0x3000, "table".to_string());
    ctx.inputs.function_names.insert(0x6000, "main".to_string());
    ctx.inputs.strings.insert(0x7000, "usage".to_string());
    let at = |base: CExpr, offset: i64| NormalizedAddr {
        base: BaseRef::Raw(base),
        index: None,
        scale_bytes: 0,
        offset_bytes: offset,
    };
    let none: Vec<String> = vec![];
    let folder = ctx.folder(&none);
    let absolute = |base: CExpr, offset: i64| folder.absolute_addr_for_normalized_addr(&at(base, offset));
    assert_eq!(absolute(var("table"), 8), Some(0x4008));
    assert_eq!(absolute(var("main"), -1), Some(0x5fff));
    assert_eq!(absolute(CExpr::StringLit("usage".to_string()), 0), Some(0x7000));
    assert_eq!(absolute(CExpr::StringLit("other".to_string()), 0), None);
    assert_eq!(absolute(lit(0x10), 2), Some(0x12));
    assert_eq!(find_address(&ctx.inputs.symbols, "table"), Some(0x4000));
    assert_eq!(find_address(&ctx.inputs.symbols, "tables"), None);
}

#[test]
fn what_is_kept_is_given_again() {
    let mut ctx = context();
    ctx.facts.var_aliases = vec![("rbx_4".to_string(), "total".to_string())];
    assert_eq!(
        ctx.find_ssa_name_for_rendered_alias("total"),
        Some("rbx_4".to_string())
    );
    assert_eq!(ctx.find_ssa_name_for_rendered_alias("other"), None);
    ctx.facts.var_aliases = vec![
        ("rcx_9".to_string(), "total".to_string()),
        ("rdx_9".to_string(), "other".to_string()),
    ];
    assert_eq!(
        ctx.find_ssa_name_for_rendered_alias("total"),
        Some("rbx_4".to_string())
    );
    assert_eq!(
        ctx.folder(&vec![]).find_ssa_name_for_rendered_alias("other"),
        None
    );
    assert_eq!(ctx.kept.aliases.len(), 2);

    ctx.facts.forwarded = vec![(
        "a_2".to_string(),
        ValueProvenance {
            source: "b_1".to_string(),
            source_var: Some(v("b", 1, 8)),
            stack_slot: None,
        },
    )];
    assert!(ctx.forwarded_source_var("a_2").is_some());
    ctx.facts.forwarded = vec![];
    assert!(ctx.forwarded_source_var("a_2").is_some_and(|b| b.same(&v("b", 1, 8))));

    ctx.facts.var_aliases = vec![("rdi_0".to_string(), "arg1".to_string())];
    let first = ctx.preferred_entry_arg_ssa_name("arg1");
    assert_eq!(first, Some("rdi_0".to_string()));
    ctx.facts.var_aliases = vec![];
    assert_eq!(ctx.preferred_entry_arg_ssa_name("arg1"), first);
}

#[test]
fn a_name_is_followed_for_an_argument_once() {
    let mut ctx = context();
    ctx.facts.definitions = vec![
        ("tmp:1_1".to_string(), var("tmp:2_1")),
        ("tmp:2_1".to_string(), var("message")),
    ];
    same_expr(&ctx.resolve_imported_call_arg_expr(&var("tmp:1_1")), &var("message"));
    assert!(ctx.kept.followed.contains(&"tmp:1_1".to_string()));
    same_expr(&ctx.resolve_imported_call_arg_expr(&var("tmp:1_1")), &var("tmp:2_1"));
    let none: Vec<String> = vec![];
    same_expr(
        &ctx.folder(&vec![]).resolve_imported_call_arg_expr(
            &var("tmp:1_1"),
            0,
            &none,
            &mut strings(&["tmp:1_1"]),
        ),
        &var("tmp:2_1"),
    );
}
