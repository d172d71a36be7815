//! The folding context: what lowering knows when it folds a function.
//!
//! The context holds plain tables. Some list what analysis found (definitions,
//! uses, stack slots, type hints); others list the answers of the passes that
//! work beside folding (how a stack expression is rewritten, which expression
//! a return resolves to). Folding reads them and decides.

use crate::ast::expr::{view_opt, CExpr, Expr};
use crate::ast::stmt::CStmt;
use crate::ast::types::{view_opt as view_opt_type, CType, Type};
use crate::fold::facts::{
    view_meaning, view_origin, ExternalStackVar, Meaning, Origin, SemanticValue, StackSlotKey, StackSlotProvenance,
    ValueProvenance, VisibleBinding,
};
use crate::fold::kept::Kept;
use crate::fold::levels::{Folder, Reading};
use crate::fold::names::{normalize_callee_name, callee_key};
use crate::fold::tables::{
    entry, find, find_named_expr, find_named_name, find_offset_name, named_expr, named_name,
    offset_name, rewrite, rewritten, view_opt_text, Site,
};
use crate::ssa::{SSAFunction, SSAVar, Var};
use crate::text::{copy_of, digits, in_list, listed, lower, push_digits, same, to_lower, unicode_lower};
use std::collections::HashMap;
use vstd::prelude::*;
use vstd::std_specs::iter::IteratorSpec;

verus! {

/// The registers of an architecture, by role. Names are in lower case.
pub struct ArchProfile {
    /// Bytes in a pointer.
    pub ptr_size: u32,
    pub sp_name: String,
    /// Argument registers, in order.
    pub arg_regs: Vec<String>,
    pub return_regs: Vec<String>,
    pub stack_pointers: Vec<String>,
    pub frame_pointers: Vec<String>,
    /// Registers that stack addresses are counted from.
    pub stack_bases: Vec<String>,
    pub caller_saved_regs: Vec<String>,
    /// Every name that stands for a register.
    pub register_bases: Vec<String>,
    pub cpu_flags: Vec<String>,
}

impl ArchProfile {
    pub fn is_return_register_name(&self, name: &str) -> (r: bool)
        ensures
            r == listed(self.return_regs@, name@),
    {
        in_list(&self.return_regs, name)
    }

    pub fn is_stack_pointer_name(&self, name: &str) -> (r: bool)
        ensures
            r == listed(self.stack_pointers@, name@),
    {
        in_list(&self.stack_pointers, name)
    }

    pub fn is_frame_pointer_name(&self, name: &str) -> (r: bool)
        ensures
            r == listed(self.frame_pointers@, name@),
    {
        in_list(&self.frame_pointers, name)
    }

    pub fn is_stack_base_name(&self, name: &str) -> (r: bool)
        ensures
            r == listed(self.stack_bases@, name@),
    {
        in_list(&self.stack_bases, name)
    }

    pub fn is_caller_saved_name(&self, name: &str) -> (r: bool)
        ensures
            r == listed(self.caller_saved_regs@, name@),
    {
        in_list(&self.caller_saved_regs, name)
    }

    pub fn is_register_like_base_name(&self, name: &str) -> (r: bool)
        ensures
            r == listed(self.register_bases@, name@),
    {
        in_list(&self.register_bases, name)
    }

    pub fn is_cpu_flag(&self, name: &str) -> (r: bool)
        ensures
            r == listed(self.cpu_flags@, name@),
    {
        in_list(&self.cpu_flags, name)
    }
}

/// How deep the recursive rules follow definitions.
#[derive(Clone, Copy)]
pub struct Limits {
    pub simple_expr: u16,
    pub alias_rewrite: u16,
    pub predicate_operand: u16,
}

/// How deep rendering follows the meaning of values.
pub const MAX_SEMANTIC_RENDER_DEPTH: u32 = 8;

/// A field of a structure or union.
pub struct FieldLayout {
    pub offset: u64,
    pub name: String,
}

/// What a memory object is.
#[derive(Debug, Clone, Copy, PartialEq, Eq, Structural)]
pub enum ObjectKind {
    Global { address: u64 },
    StackSlot { offset: i64 },
    FrameObject { offset: i64 },
    Heap,
    Unknown,
}

/// A place in a memory object.
#[derive(Debug, Clone, Copy, PartialEq, Eq, Structural)]
pub struct MemoryLocation {
    pub object: u32,
    pub offset: i64,
    pub size: u32,
}

/// What preparation of the function found.
pub struct PreparedFacts {
    pub objects: Vec<(u32, ObjectKind)>,
    /// The object that a variable points to.
    pub var_objects: Vec<(String, u32)>,
    /// The canonical variable of a value, where roots are known at all.
    pub canonical_roots: Option<Vec<(String, SSAVar)>>,
    /// The places that an operation reads and writes.
    pub memory_uses: Vec<(Site, Vec<MemoryLocation>)>,
    pub memory_defs: Vec<(Site, Vec<MemoryLocation>)>,
    /// Selector expressions of switches, by block.
    pub switch_selectors: Vec<(u64, CExpr)>,
    /// Selector variables of switches, by block.
    pub switch_vars: Vec<(u64, Option<SSAVar>)>,
    /// Selector variables inferred from the block's own operations.
    pub inferred_switch_vars: Vec<(u64, SSAVar)>,
    /// Blocks that end in a switch.
    pub switch_blocks: Vec<u64>,
    /// Calls whose target is known, with the arguments found for them.
    pub call_sites: Vec<(Site, (CExpr, Vec<CExpr>))>,
    pub call_owners: Vec<(Site, CExpr)>,
    pub call_result_sources: Vec<(String, Site)>,
}

/// What is known of another function.
pub struct FunctionSemanticSummary {
    pub name: Option<String>,
    pub address: u64,
}

/// What callers pass in about the program.
pub struct FoldInputs {
    pub function_names: HashMap<u64, String>,
    pub strings: HashMap<u64, String>,
    pub symbols: HashMap<u64, String>,
    /// Known signatures: callee key and return type.
    pub known_function_signatures: Vec<(String, CType)>,
    /// Register and the parameter name it stands for.
    pub param_register_aliases: Vec<(String, String)>,
    pub stack_slots: Vec<(StackSlotKey, ExternalStackVar)>,
    pub visible_bindings: Vec<VisibleBinding>,
    /// Field layouts, by lower-case type name.
    pub structs: Vec<(String, Vec<FieldLayout>)>,
    pub unions: Vec<(String, Vec<FieldLayout>)>,
    pub function_return_type: Option<CType>,
    pub type_oracle: Option<OracleFacts>,
    pub prepared: Option<PreparedFacts>,
    /// What is known of the functions of the program, where it is known at all.
    pub summaries: Option<Vec<FunctionSemanticSummary>>,
    /// The function being folded, where preparation kept it.
    pub function: Option<SSAFunction>,
}

/// What analysis found about uses, definitions and storage. Keys are the
/// display names of variables.
pub struct UseFacts {
    pub use_counts: Vec<(String, usize)>,
    pub definitions: Vec<(String, CExpr)>,
    pub formatted_defs: Vec<(String, CExpr)>,
    pub copy_sources: Vec<(String, String)>,
    pub var_aliases: Vec<(String, String)>,
    pub type_hints: Vec<(String, CType)>,
    pub meanings: Vec<(String, SemanticValue)>,
    pub forwarded: Vec<(String, ValueProvenance)>,
    pub stack_slot_of: Vec<(String, StackSlotProvenance)>,
    pub phi_sources: Vec<(String, Vec<SSAVar>)>,
    pub condition_vars: Vec<String>,
    pub pinned: Vec<String>,
    pub consumed_by_call: Vec<String>,
    pub flag_only_values: Vec<String>,
    pub direct_call_results: Vec<String>,
    pub inlined_call_results: Vec<Site>,
    pub calls_with_args: Vec<Site>,
    pub call_result_exprs: Vec<(Site, CExpr)>,
    pub call_result_aliases: Vec<(Site, Vec<String>)>,
    pub call_result_sources: Vec<(String, Site)>,
    /// The meaning of stack slots whose contents never change.
    pub stable_stack_values: Vec<(i64, SemanticValue)>,
    pub stack_vars: Vec<(i64, String)>,
    pub stack_arg_aliases: Vec<(i64, String)>,
    /// The values that have a number, and what is known under it.
    pub value_ids: Vec<(String, u32)>,
    pub value_definitions: Vec<(u32, CExpr)>,
    pub value_meanings: Vec<(u32, SemanticValue)>,
    pub value_origins: Vec<(u32, ValueProvenance)>,
    /// Meanings of switch selectors by block, each with what is shown where it
    /// cannot be rendered.
    pub switch_selector_roots: Vec<(u64, (SemanticValue, CExpr))>,
    /// Variables that a load produces: the variable and the address.
    pub load_producers: Vec<(String, (SSAVar, SSAVar))>,
    pub named_values: Vec<String>,
    /// Names of which something can be rendered.
    pub renderable_names: Vec<String>,
    /// Addresses that are a field of a base: the base variable and the offset.
    pub ptr_members: Vec<(String, (SSAVar, i64))>,
}

/// A field that the type oracle knows of the type of a variable.
pub struct OracleField {
    pub var: String,
    pub offset: u64,
    pub name: String,
}

/// What the type oracle says.
pub struct OracleFacts {
    pub fields: Vec<OracleField>,
    /// Variables whose type is an array or a pointer.
    pub reaching: Vec<String>,
}

/// How a memory access through an address expression is written.
pub struct MemoryAccess {
    pub addr: CExpr,
    pub elem_size: u32,
    pub access: CExpr,
}

/// How a load is written.
pub struct LoadRendering {
    pub dst: SSAVar,
    pub addr: SSAVar,
    pub ty: CType,
    pub expr: CExpr,
}

/// How the target of a store is written.
pub struct StoreRendering {
    pub addr: SSAVar,
    pub size: u32,
    pub ty: CType,
    pub expr: CExpr,
}

/// What a candidate for a returned value becomes, given what it was made from.
pub struct FinalReturn {
    pub candidate: CExpr,
    pub raw: CExpr,
    pub expr: CExpr,
}

/// How the definition of a condition variable is written.
pub struct PredicateRhs {
    pub var: String,
    pub rhs: CExpr,
    pub resolved: CExpr,
}

/// The answers of the passes beside folding.
pub struct Answers {
    /// The name that a variable is shown under.
    pub rendered_names: Vec<(String, String)>,
    /// The name of a stack slot.
    pub stack_names: Vec<(i64, String)>,
    pub arg_aliases: Vec<(String, String)>,
    pub register_args: Vec<(String, String)>,
    pub semantic_bindings: Vec<String>,
    pub predicates: Vec<String>,
    pub deref_candidates: Vec<(String, CExpr)>,
    pub canonical_stack_names: Vec<(String, String)>,
    pub ephemeral_targets: Vec<String>,
    pub reserved_aliases: Vec<String>,
    /// Names that hold an address.
    pub addresses: Vec<(String, u64)>,
    pub register_families: Vec<(String, String)>,
    pub constants: Vec<(String, CExpr)>,
    /// What a variable is called where it comes from.
    pub origin_exprs: Vec<(String, CExpr)>,
    pub return_exprs: Vec<(String, CExpr)>,
    pub condition_exprs: Vec<(String, CExpr)>,
    /// How loads and the targets of stores are written.
    pub load_exprs: Vec<LoadRendering>,
    pub store_targets: Vec<StoreRendering>,
    pub call_targets: Vec<(String, CExpr)>,
    pub var_stack_offsets: Vec<(String, i64)>,
    pub arg_copies: Vec<(String, String)>,
    pub arg_stores: Vec<(String, String)>,
    pub stack_rewrites: Vec<(CExpr, CExpr)>,
    pub condition_rewrites: Vec<(CExpr, CExpr)>,
    pub return_rewrites: Vec<(CExpr, CExpr)>,
    pub return_expansions: Vec<(CExpr, CExpr)>,
    /// Pairs of candidates for a returned value of which the second is better.
    pub return_preferences: Vec<(CExpr, CExpr)>,
    /// Expressions that a return shows only for want of a better one.
    pub return_artifacts: Vec<CExpr>,
    /// The last word on returned expressions.
    pub final_returns: Vec<FinalReturn>,
    /// What the stack slots of a block merge to when it returns, by block.
    pub merged_slot_returns: Vec<(u64, Vec<(i64, CExpr)>)>,
    /// What the return register of a block merges to, by block.
    pub merged_register_returns: Vec<(u64, CExpr)>,
    pub imported_args: Vec<(CExpr, CExpr)>,
    pub predicate_operands: Vec<(CExpr, CExpr)>,
    pub predicate_rhs: Vec<PredicateRhs>,
    pub predicate_like: Vec<CExpr>,
    pub scalar_memory: Vec<CExpr>,
    pub structured_memory: Vec<CExpr>,
    pub zeroing: Vec<CExpr>,
    pub stack_bases: Vec<CExpr>,
    pub stack_offsets: Vec<(CExpr, i64)>,
    pub plain_offsets: Vec<(CExpr, i64)>,
    pub addr_aliases: Vec<(CExpr, String)>,
    /// The parameter that an expression stands for.
    pub expr_arg_aliases: Vec<(CExpr, String)>,
    pub call_arities: Vec<(CExpr, usize)>,
    pub printf_arities: Vec<(CExpr, usize)>,
    pub memory_accesses: Vec<MemoryAccess>,
    pub frame_ops: Vec<Site>,
    /// The statement of a call with its arguments, where the call is shown.
    pub call_stmts: Vec<(Site, Option<CStmt>)>,
    /// A block's statements as the passes over copies and temporaries leave them.
    pub block_rewrites: Vec<(Vec<CStmt>, Vec<CStmt>)>,
}

/// Who owns the result of a call.
pub struct CallOwner {
    pub visible_name: String,
    pub kind: CallOwnerKind,
}

/// What kind of variable owns the result of a call.
#[derive(Debug, Clone, Copy, PartialEq, Eq, Structural)]
pub enum CallOwnerKind {
    StableStackLocal,
    Parameter,
    StableLocal,
}

/// What is known about the result of one call.
pub struct CallOwnershipFact {
    pub source: Site,
    pub owner: Option<CallOwner>,
    pub aliases: Vec<String>,
    pub direct_aliases: Vec<String>,
    pub call_expr_keys: Vec<CExpr>,
}

/// Which calls the shown names come from. Where a key occurs twice, the first
/// entry counts.
pub struct SemanticOwnershipFacts {
    pub alias_sources: Vec<(String, Site)>,
    pub visible_owner_sources: Vec<(String, Site)>,
    /// Owners' names, in lower case.
    pub visible_owned_names: Vec<String>,
    /// Calls, each in its normal form.
    pub call_expr_sources: Vec<(CExpr, Site)>,
    pub call_ownership: Vec<(Site, CallOwnershipFact)>,
}

/// What folding keeps about the function it works on.
pub struct FoldState {
    pub exit_block: Option<u64>,
    pub return_blocks: Vec<u64>,
    pub return_stack_slots: Vec<i64>,
    pub current_block_addr: Option<u64>,
    pub current_op_idx: Option<usize>,
}

/// What lowering knows when it folds a function.
pub struct FoldingContext {
    pub arch: ArchProfile,
    pub limits: Limits,
    pub inputs: FoldInputs,
    pub facts: UseFacts,
    pub answers: Answers,
    /// Which calls the shown names come from, once it has been worked out.
    pub ownership: Option<SemanticOwnershipFacts>,
    pub state: FoldState,
    /// Answers that are given again.
    pub kept: Kept,
    pub hide_stack_frame: bool,
    pub userop_names: HashMap<u32, String>,
}

impl FoldInputs {
    /// Nothing passed in.
    pub open spec fn blank(&self) -> bool {
        &&& self.function_names@ == Map::<u64, String>::empty()
        &&& self.strings@ == Map::<u64, String>::empty()
        &&& self.symbols@ == Map::<u64, String>::empty()
        &&& self.known_function_signatures@.len() == 0
        &&& self.param_register_aliases@.len() == 0
        &&& self.stack_slots@.len() == 0
        &&& self.visible_bindings@.len() == 0
        &&& self.structs@.len() == 0
        &&& self.unions@.len() == 0
        &&& self.function_return_type is None
        &&& self.type_oracle is None
        &&& self.prepared is None
        &&& self.summaries is None
        &&& self.function is None
    }

    /// Nothing passed in.
    pub fn new() -> (r: Self)
        ensures
            r.blank(),
    {
        FoldInputs {
            function_names: HashMap::new(),
            strings: HashMap::new(),
            symbols: HashMap::new(),
            known_function_signatures: Vec::new(),
            param_register_aliases: Vec::new(),
            stack_slots: Vec::new(),
            visible_bindings: Vec::new(),
            structs: Vec::new(),
            unions: Vec::new(),
            function_return_type: None,
            type_oracle: None,
            prepared: None,
            summaries: None,
            function: None,
        }
    }
}

impl UseFacts {
    /// Nothing found.
    pub open spec fn blank(&self) -> bool {
        &&& self.use_counts@.len() == 0
        &&& self.definitions@.len() == 0
        &&& self.formatted_defs@.len() == 0
        &&& self.copy_sources@.len() == 0
        &&& self.var_aliases@.len() == 0
        &&& self.type_hints@.len() == 0
        &&& self.meanings@.len() == 0
        &&& self.forwarded@.len() == 0
        &&& self.stack_slot_of@.len() == 0
        &&& self.phi_sources@.len() == 0
        &&& self.condition_vars@.len() == 0
        &&& self.pinned@.len() == 0
        &&& self.consumed_by_call@.len() == 0
        &&& self.flag_only_values@.len() == 0
        &&& self.direct_call_results@.len() == 0
        &&& self.inlined_call_results@.len() == 0
        &&& self.calls_with_args@.len() == 0
        &&& self.call_result_exprs@.len() == 0
        &&& self.call_result_aliases@.len() == 0
        &&& self.call_result_sources@.len() == 0
        &&& self.stable_stack_values@.len() == 0
        &&& self.stack_vars@.len() == 0
        &&& self.stack_arg_aliases@.len() == 0
        &&& self.value_ids@.len() == 0
        &&& self.value_definitions@.len() == 0
        &&& self.value_meanings@.len() == 0
        &&& self.value_origins@.len() == 0
        &&& self.switch_selector_roots@.len() == 0
        &&& self.load_producers@.len() == 0
        &&& self.named_values@.len() == 0
        &&& self.renderable_names@.len() == 0
        &&& self.ptr_members@.len() == 0
    }

    /// Nothing found.
    pub fn new() -> (r: Self)
        ensures
            r.blank(),
    {
        UseFacts {
            use_counts: Vec::new(),
            definitions: Vec::new(),
            formatted_defs: Vec::new(),
            copy_sources: Vec::new(),
            var_aliases: Vec::new(),
            type_hints: Vec::new(),
            meanings: Vec::new(),
            forwarded: Vec::new(),
            stack_slot_of: Vec::new(),
            phi_sources: Vec::new(),
            condition_vars: Vec::new(),
            pinned: Vec::new(),
            consumed_by_call: Vec::new(),
            flag_only_values: Vec::new(),
            direct_call_results: Vec::new(),
            inlined_call_results: Vec::new(),
            calls_with_args: Vec::new(),
            call_result_exprs: Vec::new(),
            call_result_aliases: Vec::new(),
            call_result_sources: Vec::new(),
            stable_stack_values: Vec::new(),
            stack_vars: Vec::new(),
            stack_arg_aliases: Vec::new(),
            value_ids: Vec::new(),
            value_definitions: Vec::new(),
            value_meanings: Vec::new(),
            value_origins: Vec::new(),
            switch_selector_roots: Vec::new(),
            load_producers: Vec::new(),
            named_values: Vec::new(),
            renderable_names: Vec::new(),
            ptr_members: Vec::new(),
        }
    }
}

impl Answers {
    /// No answers.
    pub open spec fn blank(&self) -> bool {
        &&& self.rendered_names@.len() == 0
        &&& self.stack_names@.len() == 0
        &&& self.arg_aliases@.len() == 0
        &&& self.register_args@.len() == 0
        &&& self.semantic_bindings@.len() == 0
        &&& self.predicates@.len() == 0
        &&& self.deref_candidates@.len() == 0
        &&& self.canonical_stack_names@.len() == 0
        &&& self.ephemeral_targets@.len() == 0
        &&& self.reserved_aliases@.len() == 0
        &&& self.addresses@.len() == 0
        &&& self.register_families@.len() == 0
        &&& self.constants@.len() == 0
        &&& self.origin_exprs@.len() == 0
        &&& self.return_exprs@.len() == 0
        &&& self.condition_exprs@.len() == 0
        &&& self.load_exprs@.len() == 0
        &&& self.store_targets@.len() == 0
        &&& self.call_targets@.len() == 0
        &&& self.var_stack_offsets@.len() == 0
        &&& self.arg_copies@.len() == 0
        &&& self.arg_stores@.len() == 0
        &&& self.stack_rewrites@.len() == 0
        &&& self.condition_rewrites@.len() == 0
        &&& self.return_rewrites@.len() == 0
        &&& self.return_expansions@.len() == 0
        &&& self.return_preferences@.len() == 0
        &&& self.return_artifacts@.len() == 0
        &&& self.final_returns@.len() == 0
        &&& self.merged_slot_returns@.len() == 0
        &&& self.merged_register_returns@.len() == 0
        &&& self.imported_args@.len() == 0
        &&& self.predicate_operands@.len() == 0
        &&& self.predicate_rhs@.len() == 0
        &&& self.predicate_like@.len() == 0
        &&& self.scalar_memory@.len() == 0
        &&& self.structured_memory@.len() == 0
        &&& self.zeroing@.len() == 0
        &&& self.stack_bases@.len() == 0
        &&& self.stack_offsets@.len() == 0
        &&& self.plain_offsets@.len() == 0
        &&& self.addr_aliases@.len() == 0
        &&& self.expr_arg_aliases@.len() == 0
        &&& self.call_arities@.len() == 0
        &&& self.printf_arities@.len() == 0
        &&& self.memory_accesses@.len() == 0
        &&& self.frame_ops@.len() == 0
        &&& self.call_stmts@.len() == 0
        &&& self.block_rewrites@.len() == 0
    }

    /// No answers.
    pub fn new() -> (r: Self)
        ensures
            r.blank(),
    {
        Answers {
            rendered_names: Vec::new(),
            stack_names: Vec::new(),
            arg_aliases: Vec::new(),
            register_args: Vec::new(),
            semantic_bindings: Vec::new(),
            predicates: Vec::new(),
            deref_candidates: Vec::new(),
            canonical_stack_names: Vec::new(),
            ephemeral_targets: Vec::new(),
            reserved_aliases: Vec::new(),
            addresses: Vec::new(),
            register_families: Vec::new(),
            constants: Vec::new(),
            origin_exprs: Vec::new(),
            return_exprs: Vec::new(),
            condition_exprs: Vec::new(),
            load_exprs: Vec::new(),
            store_targets: Vec::new(),
            call_targets: Vec::new(),
            var_stack_offsets: Vec::new(),
            arg_copies: Vec::new(),
            arg_stores: Vec::new(),
            stack_rewrites: Vec::new(),
            condition_rewrites: Vec::new(),
            return_rewrites: Vec::new(),
            return_expansions: Vec::new(),
            return_preferences: Vec::new(),
            return_artifacts: Vec::new(),
            final_returns: Vec::new(),
            merged_slot_returns: Vec::new(),
            merged_register_returns: Vec::new(),
            imported_args: Vec::new(),
            predicate_operands: Vec::new(),
            predicate_rhs: Vec::new(),
            predicate_like: Vec::new(),
            scalar_memory: Vec::new(),
            structured_memory: Vec::new(),
            zeroing: Vec::new(),
            stack_bases: Vec::new(),
            stack_offsets: Vec::new(),
            plain_offsets: Vec::new(),
            addr_aliases: Vec::new(),
            expr_arg_aliases: Vec::new(),
            call_arities: Vec::new(),
            printf_arities: Vec::new(),
            memory_accesses: Vec::new(),
            frame_ops: Vec::new(),
            call_stmts: Vec::new(),
            block_rewrites: Vec::new(),
        }
    }
}

impl SemanticOwnershipFacts {
    /// No call owned.
    pub open spec fn blank(&self) -> bool {
        &&& self.alias_sources@.len() == 0
        &&& self.visible_owner_sources@.len() == 0
        &&& self.visible_owned_names@.len() == 0
        &&& self.call_expr_sources@.len() == 0
        &&& self.call_ownership@.len() == 0
    }

    /// No call owned.
    pub fn new() -> (r: Self)
        ensures
            r.blank(),
    {
        SemanticOwnershipFacts {
            alias_sources: Vec::new(),
            visible_owner_sources: Vec::new(),
            visible_owned_names: Vec::new(),
            call_expr_sources: Vec::new(),
            call_ownership: Vec::new(),
        }
    }
}

impl FoldState {
    /// Nothing folded yet.
    pub open spec fn blank(&self) -> bool {
        &&& self.exit_block is None
        &&& self.return_blocks@.len() == 0
        &&& self.return_stack_slots@.len() == 0
        &&& self.current_block_addr is None
        &&& self.current_op_idx is None
    }

    /// Nothing folded yet.
    pub fn new() -> (r: Self)
        ensures
            r.blank(),
    {
        FoldState {
            exit_block: None,
            return_blocks: Vec::new(),
            return_stack_slots: Vec::new(),
            current_block_addr: None,
            current_op_idx: None,
        }
    }
}

impl FoldingContext {
    /// A context that knows an architecture and nothing else. Stack frames are shown.
    pub fn new(arch: ArchProfile, limits: Limits) -> (r: Self)
        ensures
            r.arch == arch,
            r.limits == limits,
            !r.hide_stack_frame,
            r.inputs.blank(),
            r.facts.blank(),
            r.answers.blank(),
            r.ownership is None,
            r.state.blank(),
            r.kept.blank(),
            r.userop_names@ == Map::<u32, String>::empty(),
    {
        FoldingContext {
            arch,
            limits,
            inputs: FoldInputs::new(),
            facts: UseFacts::new(),
            answers: Answers::new(),
            ownership: None,
            state: FoldState::new(),
            kept: Kept::new(),
            hide_stack_frame: false,
            userop_names: HashMap::new(),
        }
    }
}

impl FoldingContext {
    /// The calls that names come from.
    pub open spec fn alias_sources(&self) -> Seq<(String, Site)> {
        match self.ownership {
            Some(o) => o.alias_sources@,
            None => Seq::empty(),
        }
    }

    /// The calls that owners own the results of.
    pub open spec fn owner_sources(&self) -> Seq<(String, Site)> {
        match self.ownership {
            Some(o) => o.visible_owner_sources@,
            None => Seq::empty(),
        }
    }

    /// The places of calls, each call in its normal form.
    pub open spec fn call_sources(&self) -> Seq<(CExpr, Site)> {
        match self.ownership {
            Some(o) => o.call_expr_sources@,
            None => Seq::empty(),
        }
    }

    /// What is known about the results of calls.
    pub open spec fn owned_calls(&self) -> Seq<(Site, CallOwnershipFact)> {
        match self.ownership {
            Some(o) => o.call_ownership@,
            None => Seq::empty(),
        }
    }

    /// Is a name, in lower case, that of an owner?
    pub open spec fn owns(&self, name: Seq<char>) -> bool {
        match self.ownership {
            Some(o) => listed(o.visible_owned_names@, name),
            None => false,
        }
    }
}

/// The text that a map of texts holds under an address.
pub open spec fn text_at(map: Map<u64, String>, addr: u64) -> Option<Seq<char>> {
    if map.dom().contains(addr) {
        Some(map[addr]@)
    } else {
        None
    }
}

/// Does a text stand at an address?
pub open spec fn stands_at(map: Map<u64, String>, text: Seq<char>, addr: u64) -> bool {
    map.dom().contains(addr) && map[addr]@ == text
}

/// Is an address the lowest at which a text stands?
pub open spec fn stands_first_at(map: Map<u64, String>, text: Seq<char>, addr: u64) -> bool {
    stands_at(map, text, addr) && forall|other: u64|
        #[trigger] stands_at(map, text, other) ==> addr <= other
}

/// The address at which a text stands: the lowest, where there are several.
pub open spec fn address_of(map: Map<u64, String>, text: Seq<char>) -> Option<u64> {
    if exists|addr: u64| stands_first_at(map, text, addr) {
        Some(choose|addr: u64| stands_first_at(map, text, addr))
    } else {
        None
    }
}

/// The address at which a text stands.
pub fn find_address(map: &HashMap<u64, String>, text: &str) -> (r: Option<u64>)
    ensures
        r == address_of(map@, text@),
{
    broadcast use vstd::std_specs::hash::group_hash_axioms;

    let ghost all = map.iter().remaining();
    let mut found: Option<u64> = None;
    for entry in it: map.iter()
        invariant
            all == map.iter().remaining(),
            it.seq() == all,
            match found {
                Some(addr) => stands_at(map@, text@, addr) && forall|j: int|
                    0 <= j < it.index() && (#[trigger] all[j]).1@ == text@ ==> addr <= *all[j].0,
                None => forall|j: int| 0 <= j < it.index() ==> (#[trigger] all[j]).1@ != text@,
            },
    {
        if same(entry.1, text) {
            found = match found {
                Some(addr) => if *entry.0 < addr {
                    Some(*entry.0)
                } else {
                    Some(addr)
                },
                None => Some(*entry.0),
            };
        }
    }
    assert forall|other: u64| #[trigger] stands_at(map@, text@, other) implies (found matches Some(addr)
        && addr <= other) by {
        assert(map@.contains_key(other));
        assert(all.contains((&other, &map@[other])));
        let j = choose|j: int| 0 <= j < all.len() && all[j] == (&other, &map@[other]);
        assert(all[j].1@ == text@);
    }
    proof {
        if let Some(addr) = found {
            assert(stands_first_at(map@, text@, addr));
        }
    }
    found
}

impl FoldingContext {
    /// Set whether to hide stack frame boilerplate.
    pub fn set_hide_stack_frame(&mut self, hide: bool)
        ensures
            *final(self) == (FoldingContext { hide_stack_frame: hide, ..*old(self) }),
    {
        self.hide_stack_frame = hide;
    }

    /// Set the names of functions, by address.
    pub fn set_function_names(&mut self, names: HashMap<u64, String>)
        ensures
            *final(self) == (FoldingContext {
                inputs: FoldInputs { function_names: names, ..old(self).inputs },
                ..*old(self)
            }),
    {
        self.inputs.function_names = names;
    }

    /// Set the type hints, by variable.
    pub fn set_type_hints(&mut self, hints: Vec<(String, CType)>)
        ensures
            *final(self) == (FoldingContext {
                facts: UseFacts { type_hints: hints, ..old(self).facts },
                ..*old(self)
            }),
    {
        self.facts.type_hints = hints;
    }

    /// Set what the type oracle says.
    pub fn set_type_oracle(&mut self, type_oracle: Option<OracleFacts>)
        ensures
            *final(self) == (FoldingContext {
                inputs: FoldInputs { type_oracle, ..old(self).inputs },
                ..*old(self)
            }),
    {
        self.inputs.type_oracle = type_oracle;
    }

    /// Set the names of user-defined operations, by number.
    pub fn set_userop_names(&mut self, names: HashMap<u32, String>)
        ensures
            *final(self) == (FoldingContext { userop_names: names, ..*old(self) }),
    {
        self.userop_names = names;
    }

    /// Set the external stack slots, each under its base and offset.
    pub fn set_external_stack_vars(&mut self, stack_vars: Vec<(i64, ExternalStackVar)>)
        ensures
            final(self).inputs.stack_slots@ == stack_vars@.map_values(
                |slot: (i64, ExternalStackVar)|
                    (StackSlotKey { base: slot.1.base, offset: slot.0 }, slot.1),
            ),
            *final(self) == (FoldingContext {
                inputs: FoldInputs {
                    stack_slots: final(self).inputs.stack_slots,
                    ..old(self).inputs
                },
                ..*old(self)
            }),
    {
        let ghost given = stack_vars@;
        let mut rest = stack_vars;
        let mut slots: Vec<(StackSlotKey, ExternalStackVar)> = Vec::new();
        while rest.len() > 0
            invariant
                given == given.take(slots@.len() as int) + rest@,
                slots@.len() + rest@.len() == given.len(),
                slots@ == given.take(slots@.len() as int).map_values(
                    |slot: (i64, ExternalStackVar)|
                        (StackSlotKey { base: slot.1.base, offset: slot.0 }, slot.1),
                ),
            decreases rest@.len(),
        {
            let ghost n = slots@.len() as int;
            assert(rest@[0] == given[n]);
            let (offset, slot) = rest.remove(0);
            let key = StackSlotKey { base: slot.base, offset };
            slots.push((key, slot));
            assert(given.take(n + 1) =~= given.take(n).push(given[n]));
            assert(given =~= given.take(n + 1) + rest@);
            assert(slots@ =~= given.take(n + 1).map_values(
                |slot: (i64, ExternalStackVar)|
                    (StackSlotKey { base: slot.1.base, offset: slot.0 }, slot.1),
            ));
        }
        assert(given.take(given.len() as int) =~= given);
        self.inputs.stack_slots = slots;
    }

    /// Set the known signatures, each under its callee's key.
    pub fn set_known_function_signatures(&mut self, signatures: Vec<(String, CType)>)
        ensures
            final(self).inputs.known_function_signatures@.len() == signatures@.len(),
            forall|i: int|
                0 <= i < signatures@.len() ==> (
                #[trigger] final(self).inputs.known_function_signatures@[i]).0@ == callee_key(
                    old(self).answers.addresses@,
                    signatures@[i].0@,
                ) && final(self).inputs.known_function_signatures@[i].1@ == signatures@[i].1@,
            *final(self) == (FoldingContext {
                inputs: FoldInputs {
                    known_function_signatures: final(self).inputs.known_function_signatures,
                    ..old(self).inputs
                },
                ..*old(self)
            }),
    {
        let mut known: Vec<(String, CType)> = Vec::new();
        let mut i: usize = 0;
        while i < signatures.len()
            invariant
                i <= signatures@.len(),
                known@.len() == i,
                *self == *old(self),
                forall|j: int|
                    0 <= j < i ==> (#[trigger] known@[j]).0@ == callee_key(
                        old(self).answers.addresses@,
                        signatures@[j].0@,
                    ) && known@[j].1@ == signatures@[j].1@,
            decreases signatures@.len() - i,
        {
            let key = normalize_callee_name(&self.answers.addresses, &signatures[i].0);
            known.push((key, signatures[i].1.dup()));
            i = i + 1;
        }
        self.inputs.known_function_signatures = known;
    }
}

impl Reading {
    /// The name that calls of a user-defined operation show.
    pub open spec fn userop_name(&self, userop: u32) -> Seq<char> {
        if self.ctx.userop_names@.dom().contains(userop) {
            self.ctx.userop_names@[userop]@
        } else {
            "userop_"@ + digits(userop as nat, 10)
        }
    }

    /// The name that a variable is shown under.
    pub open spec fn shown(&self, var: Var) -> Seq<char> {
        match named_name(self.ctx.answers.rendered_names@, var.display()) {
            Some(name) => name,
            None => var.display(),
        }
    }

    /// The expression that a constant stands for.
    pub open spec fn constant(&self, var: Var) -> Expr {
        match named_expr(self.ctx.answers.constants@, var.name) {
            Some(e) => e,
            None => Expr::Var(var.name),
        }
    }

    /// The type hint for a name, as written or in lower case.
    pub open spec fn hint(&self, name: Seq<char>) -> Option<Type> {
        match entry(self.ctx.facts.type_hints@, name) {
            Some(ty) => Some(ty@),
            None => match entry(self.ctx.facts.type_hints@, unicode_lower(name)) {
                Some(ty) => Some(ty@),
                None => None,
            },
        }
    }

    /// The type hint for a variable: under its display name, under the
    /// parameter name of its register, or under the name it is shown as.
    pub open spec fn var_hint(&self, var: Var) -> Option<Type> {
        match self.hint(var.display()) {
            Some(ty) => Some(ty),
            None => {
                let by_param = match named_name(
                    self.ctx.inputs.param_register_aliases@,
                    lower(var.name),
                ) {
                    Some(alias) => self.hint(alias),
                    None => None,
                };
                match by_param {
                    Some(ty) => Some(ty),
                    None => self.hint(self.shown(var)),
                }
            },
        }
    }

    /// What a name means.
    pub open spec fn meaning_of(&self, name: Seq<char>) -> Option<Meaning> {
        view_meaning(entry(self.ctx.facts.meanings@, name))
    }

    /// Where a forwarded value comes from.
    pub open spec fn origin_of(&self, name: Seq<char>) -> Option<Origin> {
        view_origin(entry(self.ctx.facts.forwarded@, name))
    }

    /// The variable that a forwarded value comes from, where it is another one.
    pub open spec fn forwarded_var(&self, name: Seq<char>) -> Option<Var> {
        match entry(self.ctx.kept.sources@, name) {
            Some(kept) => crate::ssa::view_opt_var(kept),
            None => match self.origin_of(name) {
                Some(origin) => match origin.var {
                    Some(var) => if var.display() != name {
                        Some(var)
                    } else {
                        None
                    },
                    None => None,
                },
                None => None,
            },
        }
    }

    /// The stack slot that a name lives in, directly or by the variable behind it.
    pub open spec fn slot_of(&self, name: Seq<char>) -> Option<StackSlotProvenance> {
        match entry(self.ctx.facts.stack_slot_of@, name) {
            Some(slot) => Some(slot),
            None => match self.ssa_of(name) {
                Some(ssa) => entry(self.ctx.facts.stack_slot_of@, ssa),
                None => None,
            },
        }
    }

    /// The stack offset that a variable addresses.
    pub open spec fn slot_offset(&self, var: Var) -> Option<i64> {
        match self.slot_of(var.display()) {
            Some(slot) => Some(slot.offset),
            None => entry(self.ctx.answers.var_stack_offsets@, var.display()),
        }
    }

    /// Is the block being folded one that returns?
    pub open spec fn in_return_block(&self) -> bool {
        match self.ctx.state.current_block_addr {
            Some(addr) => self.ctx.state.return_blocks@.contains(addr),
            None => false,
        }
    }
}

impl<'a> Folder<'a> {
    /// The name of the function at an address.
    pub fn lookup_function(&self, addr: u64) -> (r: Option<&String>)
        ensures
            match r {
                Some(s) => text_at(self.ctx.inputs.function_names@, addr) == Some(s@),
                None => text_at(self.ctx.inputs.function_names@, addr) is None,
            },
    {
        broadcast use vstd::std_specs::hash::group_hash_axioms;

        self.ctx.inputs.function_names.get(&addr)
    }

    /// The string literal at an address.
    pub fn lookup_string(&self, addr: u64) -> (r: Option<&String>)
        ensures
            match r {
                Some(s) => text_at(self.ctx.inputs.strings@, addr) == Some(s@),
                None => text_at(self.ctx.inputs.strings@, addr) is None,
            },
    {
        broadcast use vstd::std_specs::hash::group_hash_axioms;

        self.ctx.inputs.strings.get(&addr)
    }

    /// The symbol at an address.
    pub fn lookup_symbol(&self, addr: u64) -> (r: Option<&String>)
        ensures
            match r {
                Some(s) => text_at(self.ctx.inputs.symbols@, addr) == Some(s@),
                None => text_at(self.ctx.inputs.symbols@, addr) is None,
            },
    {
        broadcast use vstd::std_specs::hash::group_hash_axioms;

        self.ctx.inputs.symbols.get(&addr)
    }

    /// The name that calls of a user-defined operation show.
    pub fn lookup_userop_name(&self, userop: u32) -> (r: String)
        ensures
            r@ == self@.userop_name(userop),
    {
        broadcast use vstd::std_specs::hash::group_hash_axioms;

        match self.ctx.userop_names.get(&userop) {
            Some(name) => copy_of(name),
            None => {
                let mut out = copy_of("userop_");
                push_digits(&mut out, userop as u64, 10);
                out
            },
        }
    }

    /// The name that a variable is shown under.
    pub fn var_name(&self, var: &SSAVar) -> (r: String)
        ensures
            r@ == self@.shown(var@),
    {
        let display = var.display_name();
        match find_named_name(&self.ctx.answers.rendered_names, &display) {
            Some(name) => name,
            None => display,
        }
    }

    /// The expression that a constant stands for.
    pub fn const_to_expr(&self, var: &SSAVar) -> (r: CExpr)
        ensures
            r@ == self@.constant(var@),
    {
        match find_named_expr(&self.ctx.answers.constants, &var.name) {
            Some(e) => e,
            None => CExpr::var(&var.name),
        }
    }

    /// The name of a stack slot.
    pub fn resolve_stack_var(&self, offset: i64) -> (r: Option<String>)
        ensures
            view_opt_text(r) == offset_name(self.ctx.answers.stack_names@, offset),
    {
        find_offset_name(&self.ctx.answers.stack_names, offset)
    }

    /// The definition listed for a name.
    pub fn direct_definition_expr(&self, name: &str) -> (r: Option<CExpr>)
        ensures
            view_opt(r) == named_expr(self.ctx.facts.definitions@, name@),
    {
        find_named_expr(&self.ctx.facts.definitions, name)
    }

    /// The type hint for a name, as written or in lower case.
    pub fn lookup_type_hint(&self, name: &str) -> (r: Option<CType>)
        ensures
            view_opt_type(r) == self@.hint(name@),
    {
        if let Some(ty) = find(&self.ctx.facts.type_hints, name) {
            return Some(ty.dup());
        }
        let low = name.to_lowercase();
        match find(&self.ctx.facts.type_hints, &low) {
            Some(ty) => Some(ty.dup()),
            None => None,
        }
    }

    /// The type hint for a variable.
    pub fn type_hint_for_var(&self, var: &SSAVar) -> (r: Option<CType>)
        ensures
            view_opt_type(r) == self@.var_hint(var@),
    {
        let display = var.display_name();
        if let Some(ty) = self.lookup_type_hint(&display) {
            return Some(ty);
        }
        let low = to_lower(&var.name);
        if let Some(alias) = find_named_name(&self.ctx.inputs.param_register_aliases, &low) {
            if let Some(ty) = self.lookup_type_hint(&alias) {
                return Some(ty);
            }
        }
        let shown = self.var_name(var);
        self.lookup_type_hint(&shown)
    }

    /// Is a variable hinted to be a pointer?
    pub fn is_pointer_typed_var(&self, var: &SSAVar) -> (r: bool)
        ensures
            r == (self@.var_hint(var@) matches Some(Type::Pointer(_))),
    {
        match self.type_hint_for_var(var) {
            Some(ty) => ty.is_pointer(),
            None => false,
        }
    }

    /// What a name means.
    pub fn lookup_semantic_value(&self, name: &str) -> (r: Option<&SemanticValue>)
        ensures
            match r {
                Some(v) => self@.meaning_of(name@) == Some(v@),
                None => self@.meaning_of(name@) is None,
            },
    {
        find(&self.ctx.facts.meanings, name)
    }

    /// Where a forwarded value comes from.
    pub fn forwarded_value_for_name(&self, name: &str) -> (r: Option<&ValueProvenance>)
        ensures
            match r {
                Some(v) => self@.origin_of(name@) == Some(v@),
                None => self@.origin_of(name@) is None,
            },
    {
        find(&self.ctx.facts.forwarded, name)
    }

    /// The variable that a forwarded value comes from, where it is another one.
    pub fn forwarded_source_var(&self, name: &str) -> (r: Option<SSAVar>)
        ensures
            crate::ssa::view_opt_var(r) == self@.forwarded_var(name@),
    {
        if let Some(kept) = find(&self.ctx.kept.sources, name) {
            return match kept {
                Some(var) => Some(var.dup()),
                None => None,
            };
        }
        match self.forwarded_value_for_name(name) {
            Some(prov) => match &prov.source_var {
                Some(var) => if !crate::text::same(&var.display_name(), name) {
                    Some(var.dup())
                } else {
                    None
                },
                None => None,
            },
            None => None,
        }
    }

    /// The stack slot that a name lives in.
    pub fn stack_slot_provenance_for_name(&self, name: &str) -> (r: Option<StackSlotProvenance>)
        ensures
            r == self@.slot_of(name@),
        decreases self.left, 1int,
    {
        if let Some(slot) = find(&self.ctx.facts.stack_slot_of, name) {
            return Some(*slot);
        }
        match self.find_ssa_name_for_rendered_alias(name) {
            Some(ssa) => match find(&self.ctx.facts.stack_slot_of, &ssa) {
                Some(slot) => Some(*slot),
                None => None,
            },
            None => None,
        }
    }

    /// The stack slot that a variable lives in.
    pub fn stack_slot_provenance_for_var(&self, var: &SSAVar) -> (r: Option<StackSlotProvenance>)
        ensures
            r == self@.slot_of(var@.display()),
        decreases self.left, 2int,
    {
        self.stack_slot_provenance_for_name(&var.display_name())
    }

    /// The stack offset that a variable addresses.
    pub fn stack_slot_offset_for_var(&self, var: &SSAVar) -> (r: Option<i64>)
        ensures
            r == self@.slot_offset(var@),
        decreases self.left, 3int,
    {
        match self.stack_slot_provenance_for_var(var) {
            Some(slot) => Some(slot.offset),
            None => match find(&self.ctx.answers.var_stack_offsets, &var.display_name()) {
                Some(offset) => Some(*offset),
                None => None,
            },
        }
    }

    /// The parameter that a shown name stands for.
    pub fn arg_alias_for_rendered_name(&self, name: &str) -> (r: Option<String>)
        ensures
            view_opt_text(r) == named_name(self.ctx.answers.arg_aliases@, name@),
    {
        find_named_name(&self.ctx.answers.arg_aliases, name)
    }

    /// A stack expression as the stack pass rewrites it.
    pub fn rewrite_stack_expr(&self, e: &CExpr) -> (r: CExpr)
        ensures
            r@ == rewritten(self.ctx.answers.stack_rewrites@, e@),
    {
        rewrite(&self.ctx.answers.stack_rewrites, e)
    }

    /// What the return pass resolves an expression to.
    pub fn resolve_return_candidate(&self, e: &CExpr) -> (r: CExpr)
        ensures
            r@ == rewritten(self.ctx.answers.return_rewrites@, e@),
    {
        rewrite(&self.ctx.answers.return_rewrites, e)
    }

    /// Is the block being folded one that returns?
    pub fn is_current_return_block(&self) -> (r: bool)
        ensures
            r == self@.in_return_block(),
    {
        match self.ctx.state.current_block_addr {
            Some(addr) => crate::fold::tables::in_addresses(&self.ctx.state.return_blocks, addr),
            None => false,
        }
    }

    /// The address in a branch target's name.
    pub fn extract_branch_target_address(&self, target: &SSAVar) -> (r: Option<u64>)
        ensures
            r == entry(self.ctx.answers.addresses@, target.name@),
    {
        match find(&self.ctx.answers.addresses, &target.name) {
            Some(addr) => Some(*addr),
            None => None,
        }
    }
}

} // verus!
