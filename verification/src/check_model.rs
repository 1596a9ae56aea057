//! The mathematical model of type checking.
use vstd::prelude::*;
use crate::ast::{AstModel, ExprModel, NodeModel};
use crate::compile_model::find_equation;
use crate::diagnostic::{DiagnosticKind, DiagnosticModel, HintKind, HintModel, error_at};
use crate::function_type::{FunctionTypeModel, Lifting};
use crate::messages::{
    argument_array_text, argument_either_text, argument_simple_text, argument_untyped_text,
    arity_text, different_types_text, equation_defined_text, function_defined_text,
    never_defined_text, no_equation_text, not_initialized_text, output_type_text,
    output_untyped_text, pre_of_uninitialized_text, recursive_call_text, type_label,
};
use crate::ops::{BinOp, UnaryOp};
use crate::span::SpanModel;
use crate::types::{InferLen, InnerTypeModel, VarTypeModel};

verus! {

/// What is known of the type of a name while a node is checked.
pub enum LocalType {
    /// The name has this type.
    Known(VarTypeModel),
    /// An equation defines the name and was not looked at yet.
    Pending,
    /// The equation of the name is being looked at, or has no type.
    Failed,
}

/// The state of the check of one node: the types of its names, the
/// diagnostics so far, and how many equations may still be opened.
pub struct Checking {
    pub locals: Seq<(Seq<char>, LocalType)>,
    pub diags: Seq<DiagnosticModel>,
    pub budget: nat,
}

/// The program and the node that is checked.
pub struct Ctx {
    pub ast: AstModel,
    pub node: NodeModel,
}

/// The state after one step and the type that the step found, if any.
pub type Typed = (Checking, Option<VarTypeModel>);

/// The position of the first entry from `from` on for the name.
pub open spec fn find_local(locals: Seq<(Seq<char>, LocalType)>, name: Seq<char>, from: int) -> Option<
    int,
>
    decreases locals.len() - from,
{
    if from < 0 || from >= locals.len() {
        None
    } else if locals[from].0 == name {
        Some(from)
    } else {
        find_local(locals, name, from + 1)
    }
}

/// The names with `name` set to `t`: in its place where it was there, at
/// the end where it was not.
pub open spec fn locals_with(locals: Seq<(Seq<char>, LocalType)>, name: Seq<char>, t: LocalType) -> Seq<
    (Seq<char>, LocalType),
> {
    match find_local(locals, name, 0) {
        Some(i) => locals.update(i, (name, t)),
        None => locals.push((name, t)),
    }
}

impl Checking {
    /// The state with one more diagnostic.
    pub open spec fn report(self, d: DiagnosticModel) -> Checking {
        Checking { diags: self.diags.push(d), ..self }
    }

    /// The state with its budget no higher than `bound`.
    pub open spec fn capped(self, bound: nat) -> Checking {
        Checking {
            budget: if self.budget <= bound {
                self.budget
            } else {
                bound
            },
            ..self
        }
    }

    /// The state with `name` set to `t`.
    pub open spec fn set(self, name: Seq<char>, t: LocalType) -> Checking {
        Checking { locals: locals_with(self.locals, name, t), ..self }
    }
}

/// Whether two types have equal kinds, an array of unknown length being
/// equal to one of any length.
pub open spec fn same_kind(left: VarTypeModel, right: VarTypeModel) -> bool {
    left.inner.merge(right.inner) is Some
}

/// The type of a binary operation on operands of the types `lt` and `rt`,
/// and the diagnostic at the operator where they do not fit.
///
/// The arithmetic operators and `fby` merge the two types. The
/// comparisons, `or` and `and` want equal kinds and give a boolean that is
/// initialized if both operands are. `->` wants an initialized left
/// operand of the kind of the right one and gives that kind, initialized.
pub open spec fn binary_type(op: BinOp, span_op: SpanModel, lt: VarTypeModel, rt: VarTypeModel) -> Result<
    VarTypeModel,
    DiagnosticModel,
> {
    let mismatch = error_at(
        DiagnosticKind::TypeMismatch,
        span_op.to_range(),
        different_types_text(lt, rt),
    );
    match op {
        BinOp::Add | BinOp::Sub | BinOp::Mult | BinOp::Div | BinOp::Fby => match lt.merge(rt) {
            Some(t) => Ok(t),
            None => Err(mismatch),
        },
        BinOp::Eq | BinOp::Neq | BinOp::Or | BinOp::And => if same_kind(lt, rt) {
            Ok(
                VarTypeModel {
                    inner: InnerTypeModel::Bool,
                    initialized: lt.initialized && rt.initialized,
                },
            )
        } else {
            Err(mismatch)
        },
        BinOp::Arrow => if !lt.initialized {
            Err(
                error_at(
                    DiagnosticKind::InitializationViolation,
                    span_op.to_range(),
                    not_initialized_text(lt),
                ),
            )
        } else if lt.equal_without_pre(rt) {
            Ok(rt.remove_one_pre())
        } else {
            Err(mismatch)
        },
    }
}

/// The type of a unary operation on an operand of type `t`: `pre` wants
/// an initialized operand and gives its kind, not initialized; the other
/// operators keep the type.
pub open spec fn unary_type(op: UnaryOp, span_op: SpanModel, t: VarTypeModel) -> Result<
    VarTypeModel,
    DiagnosticModel,
> {
    match op {
        UnaryOp::Pre => if t.initialized {
            Ok(VarTypeModel { initialized: false, ..t })
        } else {
            Err(
                error_at(
                    DiagnosticKind::InitializationViolation,
                    span_op.to_range(),
                    pre_of_uninitialized_text(),
                ),
            )
        },
        _ => Ok(t),
    }
}

/// The diagnostic for an argument that does not fit the classification
/// of the call so far.
pub open spec fn argument_mismatch(
    before: Lifting,
    i: nat,
    name: SpanModel,
    given: VarTypeModel,
    expected: VarTypeModel,
) -> DiagnosticModel {
    error_at(
        DiagnosticKind::TypeMismatch,
        name.to_range(),
        match before {
            Lifting::Simple => argument_simple_text(i, name.fragment, given, expected),
            Lifting::Array => argument_array_text(i, name.fragment, given, expected),
            _ => argument_either_text(i, name.fragment, given, expected),
        },
    )
}

/// The output types of a lifted call: an array of unknown length of each.
pub open spec fn lifted(outputs: Seq<VarTypeModel>) -> Seq<VarTypeModel> {
    Seq::new(
        outputs.len(),
        |i: int|
            VarTypeModel {
                inner: InnerTypeModel::Array {
                    t: Box::new(outputs[i].inner),
                    len: InferLen::Unknown,
                },
                initialized: true,
            },
    )
}

/// The types of a list of entries.
pub open spec fn entry_types(entries: Seq<(Seq<char>, VarTypeModel)>) -> Seq<VarTypeModel> {
    Seq::new(entries.len(), |i: int| entries[i].1)
}

/// The type of a call that was classified: the outputs of the called
/// node as one type, each an array of unknown length where the call is
/// lifted. No type where the arguments did not fit.
pub open spec fn call_type(lifting: Lifting, signature: FunctionTypeModel) -> Option<VarTypeModel> {
    match lifting {
        Lifting::Simple => Some(VarTypeModel::tuple_from_seq(entry_types(signature.outputs))),
        Lifting::Array => Some(
            VarTypeModel::tuple_from_seq(lifted(entry_types(signature.outputs))),
        ),
        _ => None,
    }
}

/// The arguments of a call as they are checked: an empty list stands for
/// the one argument unit.
pub open spec fn call_arguments(args: Seq<ExprModel>) -> Seq<ExprModel> {
    if args.len() == 0 {
        seq![ExprModel::lit_unit()]
    } else {
        args
    }
}

/// The type of an expression and the diagnostics of its check.
///
/// A failed part gives no type and its diagnostic; what holds it gives no
/// type either and adds nothing. A name resolves to its known type; a
/// name whose equation was not looked at yet gets the type of that
/// equation, which is kept; a name of no equation is reported.
pub open spec fn type_expr(ctx: Ctx, st: Checking, e: ExprModel) -> Typed
    decreases st.budget, 1int, e, 0int,
{
    match e {
        ExprModel::Lit(v) => (st, Some(v.type_of())),
        ExprModel::Variable(name) => match find_local(st.locals, name.fragment, 0) {
            None => (
                st.report(
                    error_at(
                        DiagnosticKind::MissingEquation,
                        name.to_range(),
                        no_equation_text(name.fragment),
                    ),
                ),
                None,
            ),
            Some(i) => match st.locals[i].1 {
                LocalType::Known(t) => (st, Some(t)),
                LocalType::Failed => (st, None),
                LocalType::Pending => type_var(ctx, st, name),
            },
        },
        ExprModel::BinOp { lhs, op, span_op, rhs } => {
            let (st1, lt) = type_expr(ctx, st, *lhs);
            match lt {
                None => (st1, None),
                Some(lt) => {
                    let (st2, rt) = type_expr(ctx, st1.capped(st.budget), *rhs);
                    match rt {
                        None => (st2, None),
                        Some(rt) => match binary_type(op, span_op, lt, rt) {
                            Ok(t) => (st2, Some(t)),
                            Err(d) => (st2.report(d), None),
                        },
                    }
                },
            }
        },
        ExprModel::UnaryOp { op, span_op, rhs } => {
            let (st1, t) = type_expr(ctx, st, *rhs);
            match t {
                None => (st1, None),
                Some(t) => match unary_type(op, span_op, t) {
                    Ok(t) => (st1, Some(t)),
                    Err(d) => (st1.report(d), None),
                },
            }
        },
        ExprModel::If { cond, yes, no } => {
            let (st1, ct) = type_expr(ctx, st, *cond);
            match ct {
                None => (st1, None),
                Some(ct) => {
                    let (st2, yt) = type_expr(ctx, st1.capped(st.budget), *yes);
                    match yt {
                        None => (st2, None),
                        Some(yt) => {
                            let (st3, nt) = type_expr(ctx, st2.capped(st.budget), *no);
                            match nt {
                                None => (st3, None),
                                Some(nt) => if ct.inner == InnerTypeModel::Bool {
                                    match yt.merge(nt) {
                                        Some(t) => (
                                            st3,
                                            Some(
                                                VarTypeModel {
                                                    initialized: t.initialized && ct.initialized,
                                                    ..t
                                                },
                                            ),
                                        ),
                                        None => (st3, None),
                                    }
                                } else {
                                    (st3, None)
                                },
                            }
                        },
                    }
                },
            }
        },
        ExprModel::Array(items) => type_array(ctx, st, items, 0, None, true),
        ExprModel::Tuple(items) => type_tuple(ctx, st, items, 0, Seq::empty(), true),
        ExprModel::FCall { name, args } => if name.fragment == ctx.node.name.fragment {
            (
                st.report(
                    error_at(DiagnosticKind::Recursion, name.to_range(), recursive_call_text()),
                ),
                None,
            )
        } else {
            match ctx.ast.find_node(name.fragment, 0) {
                None => (
                    st.report(
                        error_at(
                            DiagnosticKind::UnknownCallee,
                            name.to_range(),
                            never_defined_text(name.fragment),
                        ),
                    ),
                    None,
                ),
                Some(callee) => {
                    let signature = ctx.ast.nodes[callee].signature();
                    let count = call_arguments(args).len();
                    if signature.inputs.len() != count {
                        (
                            st.report(
                                error_at(
                                    DiagnosticKind::ArityMismatch,
                                    name.to_range(),
                                    arity_text(signature.inputs.len(), name.fragment, count),
                                ),
                            ),
                            None,
                        )
                    } else if args.len() == 0 {
                        let unit = VarTypeModel { inner: InnerTypeModel::Unit, initialized: true };
                        let lifting = Lifting::Unknown.next(unit, signature.inputs[0].1);
                        if lifting == Lifting::Mismatch {
                            (
                                st.report(
                                    argument_mismatch(
                                        Lifting::Unknown,
                                        0,
                                        name,
                                        unit,
                                        signature.inputs[0].1,
                                    ),
                                ),
                                None,
                            )
                        } else {
                            (st, call_type(lifting, signature))
                        }
                    } else {
                        let (st1, lifting) = type_arguments(
                            ctx,
                            st,
                            name,
                            signature.inputs,
                            args,
                            0,
                            Lifting::Unknown,
                        );
                        (st1, call_type(lifting, signature))
                    }
                },
            }
        },
    }
}

/// The type of an array from item `k` on: every item must have the kind of
/// the first one. `first` is the type of the first item if one was typed,
/// `initialized` tells whether all the items so far are initialized.
pub open spec fn type_array(
    ctx: Ctx,
    st: Checking,
    items: Seq<ExprModel>,
    k: int,
    first: Option<VarTypeModel>,
    initialized: bool,
) -> Typed
    decreases st.budget, 1int, items, items.len() - k,
{
    if k < 0 || k >= items.len() {
        (
            st,
            Some(
                VarTypeModel {
                    inner: InnerTypeModel::Array {
                        t: Box::new(
                            match first {
                                Some(t) => t.inner,
                                None => InnerTypeModel::Unit,
                            },
                        ),
                        len: InferLen::Known(items.len() as usize),
                    },
                    initialized,
                },
            ),
        )
    } else {
        let (st1, t) = type_expr(ctx, st, items[k]);
        match t {
            None => (st1, None),
            Some(t) => match first {
                None => type_array(
                    ctx,
                    st1.capped(st.budget),
                    items,
                    k + 1,
                    Some(t),
                    initialized && t.initialized,
                ),
                Some(f) => if t.equal_without_pre(f) {
                    type_array(
                        ctx,
                        st1.capped(st.budget),
                        items,
                        k + 1,
                        first,
                        initialized && t.initialized,
                    )
                } else {
                    (st1, None)
                },
            },
        }
    }
}

/// The type of a tuple from item `k` on; `kinds` holds the kinds of the
/// items before `k`.
pub open spec fn type_tuple(
    ctx: Ctx,
    st: Checking,
    items: Seq<ExprModel>,
    k: int,
    kinds: Seq<InnerTypeModel>,
    initialized: bool,
) -> Typed
    decreases st.budget, 1int, items, items.len() - k,
{
    if k < 0 || k >= items.len() {
        (st, Some(VarTypeModel { inner: InnerTypeModel::Tuple(kinds), initialized }))
    } else {
        let (st1, t) = type_expr(ctx, st, items[k]);
        match t {
            None => (st1, None),
            Some(t) => type_tuple(
                ctx,
                st1.capped(st.budget),
                items,
                k + 1,
                kinds.push(t.inner),
                initialized && t.initialized,
            ),
        }
    }
}

/// The classification of a call from argument `k` on. An argument without
/// a type, or one that does not fit, is reported at the name of the call
/// and ends the check of the call with a mismatch.
pub open spec fn type_arguments(
    ctx: Ctx,
    st: Checking,
    name: SpanModel,
    inputs: Seq<(Seq<char>, VarTypeModel)>,
    args: Seq<ExprModel>,
    k: int,
    lifting: Lifting,
) -> (Checking, Lifting)
    decreases st.budget, 1int, args, args.len() - k,
{
    if k < 0 || k >= args.len() || k >= inputs.len() {
        (st, lifting)
    } else {
        let (st1, t) = type_expr(ctx, st, args[k]);
        match t {
            None => (
                st1.report(
                    error_at(
                        DiagnosticKind::TypeMismatch,
                        name.to_range(),
                        argument_untyped_text(k as nat, name.fragment),
                    ),
                ),
                Lifting::Mismatch,
            ),
            Some(t) => {
                let next = lifting.next(t, inputs[k].1);
                if next == Lifting::Mismatch {
                    (
                        st1.report(argument_mismatch(lifting, k as nat, name, t, inputs[k].1)),
                        Lifting::Mismatch,
                    )
                } else {
                    type_arguments(ctx, st1.capped(st.budget), name, inputs, args, k + 1, next)
                }
            },
        }
    }
}

/// The type of a name whose equation was not looked at yet: the equation
/// is opened, which takes one from the budget, and its type is kept for
/// the name. While the equation is open the name has no type.
pub open spec fn type_var(ctx: Ctx, st: Checking, name: SpanModel) -> Typed
    decreases st.budget, 0int,
{
    match find_equation(ctx.node.let_bindings, name.fragment, 0) {
        None => (
            st.report(
                error_at(
                    DiagnosticKind::MissingEquation,
                    name.to_range(),
                    no_equation_text(name.fragment),
                ),
            ),
            None,
        ),
        Some(i) => if st.budget == 0 {
            (st.set(name.fragment, LocalType::Failed), None)
        } else {
            let opened = Checking {
                budget: (st.budget - 1) as nat,
                ..st.set(name.fragment, LocalType::Failed)
            };
            let (st1, t) = type_expr(ctx, opened, ctx.node.let_bindings[i].1);
            match t {
                Some(t) => (st1.set(name.fragment, LocalType::Known(t)), Some(t)),
                None => (st1, None),
            }
        },
    }
}

/// The names of a node after the first `n` parameters were entered with
/// their declared types.
pub open spec fn enter_params(
    locals: Seq<(Seq<char>, LocalType)>,
    params: Seq<(SpanModel, VarTypeModel)>,
    n: int,
) -> Seq<(Seq<char>, LocalType)>
    decreases n,
{
    if n <= 0 || n > params.len() {
        locals
    } else {
        locals_with(
            enter_params(locals, params, n - 1),
            params[n - 1].0.fragment,
            LocalType::Known(params[n - 1].1),
        )
    }
}

/// The state after the first `n` equations were entered: the name of an
/// equation is pending, unless it is there already, which is reported.
pub open spec fn enter_equations(st: Checking, bindings: Seq<(SpanModel, ExprModel)>, n: int) -> Checking
    decreases n,
{
    if n <= 0 || n > bindings.len() {
        st
    } else {
        let before = enter_equations(st, bindings, n - 1);
        let name = bindings[n - 1].0;
        if find_local(before.locals, name.fragment, 0) is Some {
            before.report(
                error_at(
                    DiagnosticKind::DuplicateEquation,
                    name.to_range(),
                    equation_defined_text(name.fragment),
                ),
            )
        } else {
            before.set(name.fragment, LocalType::Pending)
        }
    }
}

/// The state in which the check of a node starts: the inputs with their
/// types, then the equations, then the outputs with their types.
pub open spec fn enter_node(node: NodeModel, diags: Seq<DiagnosticModel>) -> Checking {
    let with_inputs = Checking {
        locals: enter_params(Seq::empty(), node.inputs, node.inputs.len() as int),
        diags,
        budget: node.let_bindings.len(),
    };
    let with_equations = enter_equations(
        with_inputs,
        node.let_bindings,
        node.let_bindings.len() as int,
    );
    Checking {
        locals: enter_params(with_equations.locals, node.outputs, node.outputs.len() as int),
        ..with_equations
    }
}

/// The state after the first `n` outputs were checked: the equation of an
/// output must have the declared type.
pub open spec fn check_outputs(ctx: Ctx, st: Checking, n: int) -> Checking
    decreases n,
{
    if n <= 0 || n > ctx.node.outputs.len() {
        st
    } else {
        let before = check_outputs(ctx, st, n - 1);
        let (name, declared) = ctx.node.outputs[n - 1];
        let untyped = error_at(
            DiagnosticKind::TypeMismatch,
            name.to_range(),
            output_untyped_text(name.fragment, declared),
        );
        match find_equation(ctx.node.let_bindings, name.fragment, 0) {
            None => before.report(
                error_at(
                    DiagnosticKind::MissingEquation,
                    name.to_range(),
                    no_equation_text(name.fragment),
                ),
            ).report(untyped),
            Some(i) => {
                let (st1, t) = type_expr(
                    ctx,
                    Checking { budget: ctx.node.let_bindings.len(), ..before },
                    ctx.node.let_bindings[i].1,
                );
                match t {
                    None => st1.report(untyped),
                    Some(t) => if t == declared {
                        st1
                    } else {
                        st1.report(
                            error_at(
                                DiagnosticKind::TypeMismatch,
                                name.to_range(),
                                output_type_text(name.fragment, declared, t),
                            ),
                        )
                    },
                }
            },
        }
    }
}

/// The type hints of the first `n` equations: one after the name of each
/// equation whose name has a known type.
pub open spec fn type_hints(
    locals: Seq<(Seq<char>, LocalType)>,
    bindings: Seq<(SpanModel, ExprModel)>,
    n: int,
) -> Seq<HintModel>
    decreases n,
{
    if n <= 0 || n > bindings.len() {
        Seq::empty()
    } else {
        let before = type_hints(locals, bindings, n - 1);
        let name = bindings[n - 1].0;
        match find_local(locals, name.fragment, 0) {
            Some(i) => match locals[i].1 {
                LocalType::Known(t) => before.push(
                    HintModel {
                        position: name.position_end(),
                        label: type_label(t),
                        kind: HintKind::Type,
                    },
                ),
                _ => before,
            },
            None => before,
        }
    }
}

impl AstModel {
    /// The state after the check of one node that starts with the
    /// diagnostics `diags`.
    pub open spec fn node_checked(self, node: NodeModel, diags: Seq<DiagnosticModel>) -> Checking {
        check_outputs(Ctx { ast: self, node }, enter_node(node, diags), node.outputs.len() as int)
    }

    /// The diagnostics of the declarations of the first `n` nodes: those
    /// of each signature, and one for each node whose name an earlier node
    /// has.
    pub open spec fn declarations_checked(self, n: int) -> Seq<DiagnosticModel>
        decreases n,
    {
        if n <= 0 || n > self.nodes.len() {
            Seq::empty()
        } else {
            let before = self.declarations_checked(n - 1) + self.nodes[n
                - 1].signature_diagnostics();
            let name = self.nodes[n - 1].name;
            if self.find_node(name.fragment, 0) != Some(n - 1) {
                before.push(
                    error_at(
                        DiagnosticKind::DuplicateName,
                        name.to_range(),
                        function_defined_text(name.fragment),
                    ),
                )
            } else {
                before
            }
        }
    }

    /// The diagnostics and hints after the first `n` nodes were checked.
    pub open spec fn nodes_checked(self, n: int) -> (Seq<DiagnosticModel>, Seq<HintModel>)
        decreases n,
    {
        if n <= 0 || n > self.nodes.len() {
            (self.declarations_checked(self.nodes.len() as int), Seq::empty())
        } else {
            let (diags, hints) = self.nodes_checked(n - 1);
            let node = self.nodes[n - 1];
            let st = self.node_checked(node, diags);
            (
                st.diags,
                hints + type_hints(st.locals, node.let_bindings, node.let_bindings.len() as int),
            )
        }
    }

    /// The diagnostics and the type hints of the program.
    pub open spec fn checked(self) -> (Seq<DiagnosticModel>, Seq<HintModel>) {
        self.nodes_checked(self.nodes.len() as int)
    }
}

} // verus!
