//! The type checker.
use vstd::prelude::*;
use vstd::string::*;
use crate::ast::{Ast, Expr, Node, binding_views, expr_views, lemma_expr_items_view, param_views};
use crate::check_model::{
    Checking, Ctx, LocalType, Typed, binary_type, call_type, check_outputs, enter_equations,
    enter_node, enter_params, entry_types, find_local, lifted, type_arguments, type_array,
    type_expr, type_hints, type_tuple, type_var, unary_type,
};
use crate::compile_model::find_equation;
use crate::diagnostic::{
    Diagnostic, DiagnosticKind, DiagnosticModel, HintKind, HintModel, InlayHint, diagnostic_views,
    hint_views,
};
use crate::function_type::{FunctionType, Lifting};
use crate::messages::{
    argument_array, argument_either, argument_simple, argument_untyped, arity, different_types,
    equation_defined, function_defined, never_defined, no_equation, not_initialized, output_type,
    output_untyped, pre_of_uninitialized, recursive_call, type_hint_label,
};
use crate::ops::{BinOp, UnaryOp};
use crate::span::{Ident, Span};
use crate::types::{
    InferLen, InnerTypeModel, InnerVarType, VarType, VarTypeModel, inner_views, lemma_tuple_view,
    option_type_view, type_views,
};

verus! {

/// What is known of the type of a name while a node is checked.
#[derive(Debug)]
pub enum LocalState {
    Known(VarType),
    Pending,
    Failed,
}

impl View for LocalState {
    type V = LocalType;

    open spec fn view(&self) -> LocalType {
        match self {
            LocalState::Known(t) => LocalType::Known(t@),
            LocalState::Pending => LocalType::Pending,
            LocalState::Failed => LocalType::Failed,
        }
    }
}

/// The models of the names of a node.
pub open spec fn local_views(v: Seq<(String, LocalState)>) -> Seq<(Seq<char>, LocalType)> {
    Seq::new(v.len(), |i: int| (v[i].0@, v[i].1@))
}

/// The state of the type checker.
pub struct CheckerInfo {
    pub local_types: Vec<(String, LocalState)>,
    pub diagnostics: Vec<Diagnostic>,
    pub hints: Vec<InlayHint>,
    pub budget: usize,
}

impl View for CheckerInfo {
    type V = Checking;

    open spec fn view(&self) -> Checking {
        Checking {
            locals: local_views(self.local_types@),
            diags: diagnostic_views(self.diagnostics@),
            budget: self.budget as nat,
        }
    }
}

/// The state after a step together with the type that the step found.
pub open spec fn typed(info: CheckerInfo, r: Option<VarType>) -> Typed {
    (info@, option_type_view(r))
}

fn binary_type_of(op: BinOp, span_op: &Span, lt: &VarType, rt: &VarType) -> (r: Result<
    VarType,
    Diagnostic,
>)
    ensures
        match binary_type(op, span_op@, lt@, rt@) {
            Ok(t) => r matches Ok(x) && x@ == t,
            Err(d) => r matches Err(x) && x@ == d,
        },
{
    match op {
        BinOp::Add | BinOp::Sub | BinOp::Mult | BinOp::Div | BinOp::Fby => {
            match lt.copy().merge(rt.copy()) {
                Some(t) => Ok(t),
                None => Err(
                    Diagnostic::error(
                        DiagnosticKind::TypeMismatch,
                        span_op.to_range(),
                        different_types(lt, rt),
                    ),
                ),
            }
        },
        BinOp::Eq | BinOp::Neq | BinOp::Or | BinOp::And => {
            match lt.inner.merge_ref(&rt.inner) {
                Some(_) => Ok(
                    VarType {
                        inner: InnerVarType::Bool,
                        initialized: lt.initialized && rt.initialized,
                    },
                ),
                None => Err(
                    Diagnostic::error(
                        DiagnosticKind::TypeMismatch,
                        span_op.to_range(),
                        different_types(lt, rt),
                    ),
                ),
            }
        },
        BinOp::Arrow => {
            if lt.is_not_initialized() {
                Err(
                    Diagnostic::error(
                        DiagnosticKind::InitializationViolation,
                        span_op.to_range(),
                        not_initialized(lt),
                    ),
                )
            } else if lt.equal_without_pre(rt) {
                Ok(rt.copy().remove_one_pre())
            } else {
                Err(
                    Diagnostic::error(
                        DiagnosticKind::TypeMismatch,
                        span_op.to_range(),
                        different_types(lt, rt),
                    ),
                )
            }
        },
    }
}

fn unary_type_of(op: UnaryOp, span_op: &Span, t: VarType) -> (r: Result<VarType, Diagnostic>)
    ensures
        match unary_type(op, span_op@, t@) {
            Ok(t) => r matches Ok(x) && x@ == t,
            Err(d) => r matches Err(x) && x@ == d,
        },
{
    match op {
        UnaryOp::Pre => {
            if t.is_initialized() {
                let mut t = t;
                t.uninitialized();
                Ok(t)
            } else {
                Err(
                    Diagnostic::error(
                        DiagnosticKind::InitializationViolation,
                        span_op.to_range(),
                        pre_of_uninitialized(),
                    ),
                )
            }
        },
        _ => Ok(t),
    }
}

fn lift_types(outputs: Vec<VarType>) -> (r: Vec<VarType>)
    ensures
        type_views(r@) == lifted(type_views(outputs@)),
{
    let mut r: Vec<VarType> = Vec::new();
    let mut i: usize = 0;
    while i < outputs.len()
        invariant
            i <= outputs.len(),
            r.len() == i,
            forall|j: int| 0 <= j < i ==> r[j]@ == lifted(type_views(outputs@))[j],
        decreases outputs.len() - i,
    {
        r.push(
            VarType {
                inner: InnerVarType::Array {
                    t: Box::new(outputs[i].inner.copy()),
                    len: InferLen::Unknown,
                },
                initialized: true,
            },
        );
        i += 1;
    }
    assert(type_views(r@) =~= lifted(type_views(outputs@)));
    r
}

fn find_equation_of(bindings: &Vec<(Ident, Expr)>, name: &Span) -> (r: Option<usize>)
    ensures
        match r {
            Some(i) => find_equation(binding_views(bindings@), name@.fragment, 0) == Some(i as int)
                && i < bindings.len(),
            None => find_equation(binding_views(bindings@), name@.fragment, 0) is None,
        },
{
    let mut i: usize = 0;
    while i < bindings.len()
        invariant
            i <= bindings.len(),
            find_equation(binding_views(bindings@), name@.fragment, 0) == find_equation(
                binding_views(bindings@),
                name@.fragment,
                i as int,
            ),
        decreases bindings.len() - i,
    {
        if bindings[i].0.same_name(name) {
            return Some(i);
        }
        i += 1;
    }
    None
}

impl CheckerInfo {
    /// A checker that has reported nothing.
    pub fn new() -> (r: CheckerInfo)
        ensures
            r@ == (Checking { locals: Seq::empty(), diags: Seq::empty(), budget: 0 }),
            hint_views(r.hints@) == Seq::<HintModel>::empty(),
    {
        let r = CheckerInfo {
            local_types: Vec::new(),
            diagnostics: Vec::new(),
            hints: Vec::new(),
            budget: 0,
        };
        assert(r@.locals =~= Seq::empty());
        assert(r@.diags =~= Seq::empty());
        assert(hint_views(r.hints@) =~= Seq::empty());
        r
    }

    fn push_diagnostic(&mut self, diag: Diagnostic)
        ensures
            final(self)@ == old(self)@.report(diag@),
            final(self).hints == old(self).hints,
    {
        let ghost before = self@.diags;
        self.diagnostics.push(diag);
        assert(self@.diags =~= before.push(diag@));
    }

    fn push_hint(&mut self, hint: InlayHint)
        ensures
            final(self)@ == old(self)@,
            hint_views(final(self).hints@) == hint_views(old(self).hints@).push(hint@),
    {
        let ghost before = hint_views(self.hints@);
        self.hints.push(hint);
        assert(hint_views(self.hints@) =~= before.push(hint@));
    }

    fn find(&self, name: &Span) -> (r: Option<usize>)
        ensures
            match r {
                Some(i) => find_local(self@.locals, name@.fragment, 0) == Some(i as int) && i
                    < self.local_types.len(),
                None => find_local(self@.locals, name@.fragment, 0) is None,
            },
    {
        let text = name.fragment();
        let mut i: usize = 0;
        while i < self.local_types.len()
            invariant
                i <= self.local_types.len(),
                text@ == name@.fragment,
                find_local(self@.locals, name@.fragment, 0) == find_local(
                    self@.locals,
                    name@.fragment,
                    i as int,
                ),
            decreases self.local_types.len() - i,
        {
            if self.local_types[i].0 == text {
                return Some(i);
            }
            i += 1;
        }
        None
    }

    fn set(&mut self, name: &Span, t: LocalState)
        ensures
            final(self)@ == old(self)@.set(name@.fragment, t@),
            final(self).hints == old(self).hints,
    {
        let ghost before = self@.locals;
        match self.find(name) {
            Some(i) => {
                self.local_types.set(i, (name.fragment(), t));
                assert(self@.locals =~= before.update(i as int, (name@.fragment, t@)));
            },
            None => {
                self.local_types.push((name.fragment(), t));
                assert(self@.locals =~= before.push((name@.fragment, t@)));
            },
        }
    }

    fn type_binop(&mut self, ast: &Ast, node: &Node, expr: &Expr) -> (r: Option<VarType>)
        requires
            expr is BinOp,
        ensures
            typed(*final(self), r) == type_expr(Ctx { ast: ast@, node: node@ }, old(self)@, expr@),
            final(self).budget <= old(self).budget,
            final(self).hints == old(self).hints,
        decreases old(self).budget, 1int, expr, 0int,
    {
        let ghost st0 = self@;
        match expr {
            Expr::BinOp { lhs, op, span_op, rhs } => {
                let lt = match self.get_type_equation(ast, node, lhs) {
                    Some(lt) => lt,
                    None => {
                        return None;
                    },
                };
                assert(self@.capped(st0.budget) == self@);
                let rt = match self.get_type_equation(ast, node, rhs) {
                    Some(rt) => rt,
                    None => {
                        return None;
                    },
                };
                match binary_type_of(*op, span_op, &lt, &rt) {
                    Ok(t) => Some(t),
                    Err(d) => {
                        self.push_diagnostic(d);
                        None
                    },
                }
            },
            _ => None,
        }
    }

    fn type_unop(&mut self, ast: &Ast, node: &Node, expr: &Expr) -> (r: Option<VarType>)
        requires
            expr is UnaryOp,
        ensures
            typed(*final(self), r) == type_expr(Ctx { ast: ast@, node: node@ }, old(self)@, expr@),
            final(self).budget <= old(self).budget,
            final(self).hints == old(self).hints,
        decreases old(self).budget, 1int, expr, 0int,
    {
        match expr {
            Expr::UnaryOp { op, span_op, rhs } => {
                let t = match self.get_type_equation(ast, node, rhs) {
                    Some(t) => t,
                    None => {
                        return None;
                    },
                };
                match unary_type_of(*op, span_op, t) {
                    Ok(t) => Some(t),
                    Err(d) => {
                        self.push_diagnostic(d);
                        None
                    },
                }
            },
            _ => None,
        }
    }

    fn type_if(&mut self, ast: &Ast, node: &Node, expr: &Expr) -> (r: Option<VarType>)
        requires
            expr is If,
        ensures
            typed(*final(self), r) == type_expr(Ctx { ast: ast@, node: node@ }, old(self)@, expr@),
            final(self).budget <= old(self).budget,
            final(self).hints == old(self).hints,
        decreases old(self).budget, 1int, expr, 0int,
    {
        let ghost st0 = self@;
        match expr {
            Expr::If { cond, yes, no } => {
                let ct = match self.get_type_equation(ast, node, cond) {
                    Some(ct) => ct,
                    None => {
                        return None;
                    },
                };
                assert(self@.capped(st0.budget) == self@);
                let yt = match self.get_type_equation(ast, node, yes) {
                    Some(yt) => yt,
                    None => {
                        return None;
                    },
                };
                assert(self@.capped(st0.budget) == self@);
                let nt = match self.get_type_equation(ast, node, no) {
                    Some(nt) => nt,
                    None => {
                        return None;
                    },
                };
                let boolean = match &ct.inner {
                    InnerVarType::Bool => true,
                    _ => false,
                };
                if boolean {
                    match yt.merge(nt) {
                        Some(t) => Some(
                            VarType {
                                inner: t.inner,
                                initialized: t.initialized && ct.initialized,
                            },
                        ),
                        None => None,
                    }
                } else {
                    None
                }
            },
            _ => None,
        }
    }

    #[verifier::loop_isolation(false)]
    fn type_array_items(&mut self, ast: &Ast, node: &Node, items: &Vec<Expr>) -> (r: Option<VarType>)
        ensures
            typed(*final(self), r) == type_array(
                Ctx { ast: ast@, node: node@ },
                old(self)@,
                expr_views(items@),
                0,
                None,
                true,
            ),
            final(self).budget <= old(self).budget,
            final(self).hints == old(self).hints,
        decreases old(self).budget, 1int, items, items.len(),
    {
        let ghost ctx = Ctx { ast: ast@, node: node@ };
        let ghost st0 = self@;
        let ghost models = expr_views(items@);
        let mut first: Option<VarType> = None;
        let mut initialized = true;
        let mut k: usize = 0;
        while k < items.len()
            invariant
                k <= items.len(),
                self.budget <= st0.budget,
                self.hints == old(self).hints,
                type_array(ctx, st0, models, 0, None, true) == type_array(
                    ctx,
                    self@,
                    models,
                    k as int,
                    option_type_view(first),
                    initialized,
                ),
            decreases items.len() - k,
        {
            let ghost st = self@;
            let t = match self.get_type_equation(ast, node, &items[k]) {
                Some(t) => t,
                None => {
                    return None;
                },
            };
            assert(self@.capped(st.budget) == self@);
            initialized = initialized && t.initialized;
            match &first {
                None => {
                    first = Some(t);
                },
                Some(f) => {
                    if !t.equal_without_pre(f) {
                        return None;
                    }
                },
            }
            k += 1;
        }
        let ghost found = option_type_view(first);
        let inner = match first {
            Some(t) => t.inner,
            None => InnerVarType::Unit,
        };
        let r = VarType {
            inner: InnerVarType::Array { t: Box::new(inner), len: InferLen::Known(items.len()) },
            initialized,
        };
        assert(r@.inner == InnerTypeModel::Array {
            t: Box::new(inner@),
            len: InferLen::Known(items.len()),
        });
        assert(type_array(ctx, self@, models, items.len() as int, found, initialized) == (
            self@,
            Some(r@),
        ));
        Some(r)
    }

    #[verifier::loop_isolation(false)]
    fn type_tuple_items(&mut self, ast: &Ast, node: &Node, items: &Vec<Expr>) -> (r: Option<VarType>)
        ensures
            typed(*final(self), r) == type_tuple(
                Ctx { ast: ast@, node: node@ },
                old(self)@,
                expr_views(items@),
                0,
                Seq::empty(),
                true,
            ),
            final(self).budget <= old(self).budget,
            final(self).hints == old(self).hints,
        decreases old(self).budget, 1int, items, items.len(),
    {
        let ghost ctx = Ctx { ast: ast@, node: node@ };
        let ghost st0 = self@;
        let ghost models = expr_views(items@);
        let mut kinds: Vec<InnerVarType> = Vec::new();
        let mut initialized = true;
        let mut k: usize = 0;
        assert(inner_views(kinds@) =~= Seq::empty());
        while k < items.len()
            invariant
                k <= items.len(),
                self.budget <= st0.budget,
                self.hints == old(self).hints,
                type_tuple(ctx, st0, models, 0, Seq::empty(), true) == type_tuple(
                    ctx,
                    self@,
                    models,
                    k as int,
                    inner_views(kinds@),
                    initialized,
                ),
            decreases items.len() - k,
        {
            let ghost st = self@;
            let ghost before = inner_views(kinds@);
            let t = match self.get_type_equation(ast, node, &items[k]) {
                Some(t) => t,
                None => {
                    return None;
                },
            };
            assert(self@.capped(st.budget) == self@);
            initialized = initialized && t.initialized;
            kinds.push(t.inner);
            assert(inner_views(kinds@) =~= before.push(t@.inner));
            k += 1;
        }
        let r = VarType { inner: InnerVarType::Tuple(kinds), initialized };
        proof {
            lemma_tuple_view(r.inner);
        }
        Some(r)
    }

    #[verifier::loop_isolation(false)]
    fn type_call_arguments(
        &mut self,
        ast: &Ast,
        node: &Node,
        name: &Span,
        expected: &Vec<VarType>,
        inputs: Ghost<Seq<(Seq<char>, VarTypeModel)>>,
        args: &Vec<Expr>,
    ) -> (r: Lifting)
        requires
            expected.len() == inputs@.len(),
            forall|i: int| 0 <= i < expected.len() ==> expected[i]@ == inputs@[i].1,
        ensures
            (final(self)@, r) == type_arguments(
                Ctx { ast: ast@, node: node@ },
                old(self)@,
                name@,
                inputs@,
                expr_views(args@),
                0,
                Lifting::Unknown,
            ),
            final(self).budget <= old(self).budget,
            final(self).hints == old(self).hints,
        decreases old(self).budget, 1int, args, args.len(),
    {
        let ghost ctx = Ctx { ast: ast@, node: node@ };
        let ghost st0 = self@;
        let ghost models = expr_views(args@);
        let mut lifting = Lifting::Unknown;
        let mut k: usize = 0;
        while k < args.len() && k < expected.len()
            invariant
                self.budget <= st0.budget,
                self.hints == old(self).hints,
                type_arguments(ctx, st0, name@, inputs@, models, 0, Lifting::Unknown)
                    == type_arguments(ctx, self@, name@, inputs@, models, k as int, lifting),
            decreases args.len() - k,
        {
            let ghost st = self@;
            let t = match self.get_type_equation(ast, node, &args[k]) {
                Some(t) => t,
                None => {
                    let d = Diagnostic::error(
                        DiagnosticKind::TypeMismatch,
                        name.to_range(),
                        argument_untyped(k, name.text()),
                    );
                    self.push_diagnostic(d);
                    return Lifting::Mismatch;
                },
            };
            assert(self@.capped(st.budget) == self@);
            let next = lifting.advance(&t, &expected[k]);
            let failed = match next {
                Lifting::Mismatch => true,
                _ => false,
            };
            if failed {
                let message = match lifting {
                    Lifting::Simple => argument_simple(k, name.text(), &t, &expected[k]),
                    Lifting::Array => argument_array(k, name.text(), &t, &expected[k]),
                    _ => argument_either(k, name.text(), &t, &expected[k]),
                };
                let d = Diagnostic::error(DiagnosticKind::TypeMismatch, name.to_range(), message);
                self.push_diagnostic(d);
                return Lifting::Mismatch;
            }
            lifting = next;
            k += 1;
        }
        lifting
    }

    fn call_type_of(lifting: Lifting, signature: &FunctionType) -> (r: Option<VarType>)
        ensures
            option_type_view(r) == call_type(lifting, signature@),
    {
        match lifting {
            Lifting::Simple => {
                let outputs = signature.output_types();
                assert(type_views(outputs@) =~= entry_types(signature@.outputs));
                Some(VarType::tuple_from_vec(outputs))
            },
            Lifting::Array => {
                let outputs = signature.output_types();
                assert(type_views(outputs@) =~= entry_types(signature@.outputs));
                Some(VarType::tuple_from_vec(lift_types(outputs)))
            },
            _ => None,
        }
    }

    fn get_type_function(&mut self, ast: &Ast, node: &Node, expr: &Expr) -> (r: Option<VarType>)
        requires
            expr is FCall,
        ensures
            typed(*final(self), r) == type_expr(Ctx { ast: ast@, node: node@ }, old(self)@, expr@),
            final(self).budget <= old(self).budget,
            final(self).hints == old(self).hints,
        decreases old(self).budget, 1int, expr, 0int,
    {
        proof {
            lemma_expr_items_view(*expr);
        }
        match expr {
            Expr::FCall { name, args } => {
                if name.same_name(&node.name) {
                    self.push_diagnostic(
                        Diagnostic::error(
                            DiagnosticKind::Recursion,
                            name.to_range(),
                            recursive_call(),
                        ),
                    );
                    return None;
                }
                let callee = match ast.find_node(name) {
                    Some(callee) => callee,
                    None => {
                        self.push_diagnostic(
                            Diagnostic::error(
                                DiagnosticKind::UnknownCallee,
                                name.to_range(),
                                never_defined(name.text()),
                            ),
                        );
                        return None;
                    },
                };
                let (signature, _) = FunctionType::get_function_type(&ast.nodes[callee]);
                let expected = signature.input_types();
                let count = if args.len() == 0 {
                    1
                } else {
                    args.len()
                };
                if expected.len() != count {
                    self.push_diagnostic(
                        Diagnostic::error(
                            DiagnosticKind::ArityMismatch,
                            name.to_range(),
                            arity(expected.len(), name.text(), count),
                        ),
                    );
                    return None;
                }
                if args.len() == 0 {
                    let unit = VarType { inner: InnerVarType::Unit, initialized: true };
                    let lifting = Lifting::Unknown.advance(&unit, &expected[0]);
                    let failed = match lifting {
                        Lifting::Mismatch => true,
                        _ => false,
                    };
                    if failed {
                        self.push_diagnostic(
                            Diagnostic::error(
                                DiagnosticKind::TypeMismatch,
                                name.to_range(),
                                argument_either(0, name.text(), &unit, &expected[0]),
                            ),
                        );
                        return None;
                    }
                    CheckerInfo::call_type_of(lifting, &signature)
                } else {
                    let lifting = self.type_call_arguments(
                        ast,
                        node,
                        name,
                        &expected,
                        Ghost(signature@.inputs),
                        args,
                    );
                    CheckerInfo::call_type_of(lifting, &signature)
                }
            },
            _ => None,
        }
    }

    fn type_variable(&mut self, ast: &Ast, node: &Node, expr: &Expr) -> (r: Option<VarType>)
        requires
            expr is Variable,
        ensures
            typed(*final(self), r) == type_expr(Ctx { ast: ast@, node: node@ }, old(self)@, expr@),
            final(self).budget <= old(self).budget,
            final(self).hints == old(self).hints,
        decreases old(self).budget, 1int, expr, 0int,
    {
        match expr {
            Expr::Variable(name) => {
                match self.find(name) {
                    None => {
                        self.push_diagnostic(
                            Diagnostic::error(
                                DiagnosticKind::MissingEquation,
                                name.to_range(),
                                no_equation(name.text()),
                            ),
                        );
                        None
                    },
                    Some(i) => {
                        assert(self@.locals[i as int].1 == self.local_types[i as int].1@);
                        let pending = match &self.local_types[i].1 {
                            LocalState::Known(t) => {
                                return Some(t.copy());
                            },
                            LocalState::Failed => {
                                return None;
                            },
                            LocalState::Pending => true,
                        };
                        self.get_type_var(ast, node, name)
                    },
                }
            },
            _ => None,
        }
    }

    /// The type of an expression of `node`; what is wrong with it is added
    /// to the diagnostics. `None` when the expression has no type.
    pub fn get_type_equation(&mut self, ast: &Ast, node: &Node, expr: &Expr) -> (r: Option<VarType>)
        ensures
            typed(*final(self), r) == type_expr(Ctx { ast: ast@, node: node@ }, old(self)@, expr@),
            final(self).budget <= old(self).budget,
            final(self).hints == old(self).hints,
        decreases old(self).budget, 1int, expr, 1int,
    {
        proof {
            lemma_expr_items_view(*expr);
        }
        match expr {
            Expr::Lit(v) => Some(v.get_type()),
            Expr::Variable(_) => self.type_variable(ast, node, expr),
            Expr::BinOp { .. } => self.type_binop(ast, node, expr),
            Expr::UnaryOp { .. } => self.type_unop(ast, node, expr),
            Expr::If { .. } => self.type_if(ast, node, expr),
            Expr::Array(items) => self.type_array_items(ast, node, items),
            Expr::Tuple(items) => self.type_tuple_items(ast, node, items),
            Expr::FCall { .. } => self.get_type_function(ast, node, expr),
        }
    }

    /// The type of a name whose equation was not looked at yet: the type
    /// of its first equation, which is kept for the name.
    pub fn get_type_var(&mut self, ast: &Ast, node: &Node, var: &Span) -> (r: Option<VarType>)
        ensures
            typed(*final(self), r) == type_var(Ctx { ast: ast@, node: node@ }, old(self)@, var@),
            final(self).budget <= old(self).budget,
            final(self).hints == old(self).hints,
        decreases old(self).budget, 0int,
    {
        let i = match find_equation_of(&node.let_bindings, var) {
            Some(i) => i,
            None => {
                self.push_diagnostic(
                    Diagnostic::error(
                        DiagnosticKind::MissingEquation,
                        var.to_range(),
                        no_equation(var.text()),
                    ),
                );
                return None;
            },
        };
        self.set(var, LocalState::Failed);
        if self.budget == 0 {
            return None;
        }
        self.budget = self.budget - 1;
        match self.get_type_equation(ast, node, &node.let_bindings[i].1) {
            Some(t) => {
                self.set(var, LocalState::Known(t.copy()));
                Some(t)
            },
            None => None,
        }
    }

    fn enter(&mut self, params: &Vec<(Ident, VarType)>)
        ensures
            final(self)@ == (Checking {
                locals: enter_params(
                    old(self)@.locals,
                    param_views(params@),
                    params.len() as int,
                ),
                ..old(self)@
            }),
            final(self).hints == old(self).hints,
    {
        let ghost start = self@;
        let mut k: usize = 0;
        while k < params.len()
            invariant
                k <= params.len(),
                self.hints == old(self).hints,
                self@ == (Checking {
                    locals: enter_params(start.locals, param_views(params@), k as int),
                    ..start
                }),
            decreases params.len() - k,
        {
            self.set(&params[k].0, LocalState::Known(params[k].1.copy()));
            k += 1;
        }
    }

    /// Sets the types of the names of a node before its check: the inputs,
    /// then the equations, of which none may define a name twice, then the
    /// outputs.
    pub fn setup_local_types(&mut self, node: &Node)
        ensures
            final(self)@ == enter_node(node@, old(self)@.diags),
            final(self).hints == old(self).hints,
    {
        self.local_types = Vec::new();
        self.budget = node.let_bindings.len();
        assert(self@.locals =~= Seq::empty());
        self.enter(&node.inputs);
        let ghost with_inputs = self@;
        let ghost bindings = binding_views(node.let_bindings@);
        let mut k: usize = 0;
        while k < node.let_bindings.len()
            invariant
                k <= node.let_bindings.len(),
                bindings == binding_views(node.let_bindings@),
                self.hints == old(self).hints,
                self@ == enter_equations(with_inputs, bindings, k as int),
            decreases node.let_bindings.len() - k,
        {
            let name = &node.let_bindings[k].0;
            match self.find(name) {
                Some(_) => {
                    self.push_diagnostic(
                        Diagnostic::error(
                            DiagnosticKind::DuplicateEquation,
                            name.to_range(),
                            equation_defined(name.text()),
                        ),
                    );
                },
                None => {
                    self.set(name, LocalState::Pending);
                },
            }
            k += 1;
        }
        self.enter(&node.outputs);
    }

    /// Checks a node: the equation of each output must have the type that
    /// was declared for it.
    pub fn check_node(&mut self, ast: &Ast, node: &Node)
        ensures
            final(self)@ == ast@.node_checked(node@, old(self)@.diags),
            final(self).hints == old(self).hints,
    {
        self.setup_local_types(node);
        let ghost ctx = Ctx { ast: ast@, node: node@ };
        let ghost entered = self@;
        let mut k: usize = 0;
        while k < node.outputs.len()
            invariant
                k <= node.outputs.len(),
                ctx == (Ctx { ast: ast@, node: node@ }),
                self.hints == old(self).hints,
                self@ == check_outputs(ctx, entered, k as int),
            decreases node.outputs.len() - k,
        {
            let out = &node.outputs[k].0;
            let declared = &node.outputs[k].1;
            assert(ctx.node.outputs[k as int] == (out@, declared@));
            match find_equation_of(&node.let_bindings, out) {
                None => {
                    self.push_diagnostic(
                        Diagnostic::error(
                            DiagnosticKind::MissingEquation,
                            out.to_range(),
                            no_equation(out.text()),
                        ),
                    );
                    self.push_diagnostic(
                        Diagnostic::error(
                            DiagnosticKind::TypeMismatch,
                            out.to_range(),
                            output_untyped(out.text(), declared),
                        ),
                    );
                },
                Some(i) => {
                    self.budget = node.let_bindings.len();
                    match self.get_type_equation(ast, node, &node.let_bindings[i].1) {
                        None => {
                            self.push_diagnostic(
                                Diagnostic::error(
                                    DiagnosticKind::TypeMismatch,
                                    out.to_range(),
                                    output_untyped(out.text(), declared),
                                ),
                            );
                        },
                        Some(t) => {
                            if !t.same(declared) {
                                self.push_diagnostic(
                                    Diagnostic::error(
                                        DiagnosticKind::TypeMismatch,
                                        out.to_range(),
                                        output_type(out.text(), declared, &t),
                                    ),
                                );
                            }
                        },
                    }
                },
            }
            k += 1;
        }
    }

    /// Reports the declarations of the nodes: the names that a signature
    /// uses twice, and each node whose name an earlier node has.
    pub fn get_nodes_types(&mut self, ast: &Ast)
        ensures
            final(self)@.diags == old(self)@.diags + ast@.declarations_checked(
                ast@.nodes.len() as int,
            ),
            final(self)@.locals == old(self)@.locals,
            final(self).hints == old(self).hints,
    {
        let ghost start = self@.diags;
        assert(start =~= start + ast@.declarations_checked(0));
        let mut k: usize = 0;
        while k < ast.nodes.len()
            invariant
                k <= ast.nodes.len(),
                self.hints == old(self).hints,
                self@.locals == old(self)@.locals,
                self@.diags == start + ast@.declarations_checked(k as int),
            decreases ast.nodes.len() - k,
        {
            let node = &ast.nodes[k];
            let (_, diags) = FunctionType::get_function_type(node);
            let ghost before = self@.diags;
            let mut j: usize = 0;
            while j < diags.len()
                invariant
                    j <= diags.len(),
                    self.hints == old(self).hints,
                    self@.locals == old(self)@.locals,
                    self@.diags == before + diagnostic_views(diags@).subrange(0, j as int),
                decreases diags.len() - j,
            {
                self.push_diagnostic(diags[j].copy());
                assert(self@.diags =~= before + diagnostic_views(diags@).subrange(0, j + 1));
                j += 1;
            }
            assert(diagnostic_views(diags@).subrange(0, diags.len() as int) =~= diagnostic_views(
                diags@,
            ));
            let first = ast.find_node(&node.name);
            let duplicate = match first {
                Some(i) => i != k,
                None => true,
            };
            if duplicate {
                self.push_diagnostic(
                    Diagnostic::error(
                        DiagnosticKind::DuplicateName,
                        node.name.to_range(),
                        function_defined(node.name.text()),
                    ),
                );
            }
            assert(self@.diags =~= start + ast@.declarations_checked(k + 1));
            k += 1;
        }
    }

    fn hint_types(&mut self, node: &Node)
        ensures
            final(self)@ == old(self)@,
            hint_views(final(self).hints@) == hint_views(old(self).hints@) + type_hints(
                old(self)@.locals,
                binding_views(node.let_bindings@),
                node.let_bindings.len() as int,
            ),
    {
        let ghost start = hint_views(self.hints@);
        let ghost bindings = binding_views(node.let_bindings@);
        let ghost locals = self@.locals;
        assert(start =~= start + type_hints(locals, bindings, 0));
        let mut k: usize = 0;
        while k < node.let_bindings.len()
            invariant
                k <= node.let_bindings.len(),
                bindings == binding_views(node.let_bindings@),
                self@ == old(self)@,
                locals == self@.locals,
                hint_views(self.hints@) == start + type_hints(locals, bindings, k as int),
            decreases node.let_bindings.len() - k,
        {
            let name = &node.let_bindings[k].0;
            match self.find(name) {
                Some(i) => {
                    assert(self@.locals[i as int].1 == self.local_types[i as int].1@);
                    let hint = match &self.local_types[i].1 {
                        LocalState::Known(t) => Some(
                            InlayHint {
                                position: name.position_end(),
                                label: type_hint_label(t),
                                kind: HintKind::Type,
                            },
                        ),
                        _ => None,
                    };
                    match hint {
                        Some(h) => {
                            self.push_hint(h);
                        },
                        None => {},
                    }
                },
                None => {},
            }
            assert(hint_views(self.hints@) =~= start + type_hints(locals, bindings, k + 1));
            k += 1;
        }
    }

    /// Checks a program: the declarations of all its nodes, then each
    /// node, with a type hint for each equation whose type is known.
    pub fn check_ast(&mut self, ast: &Ast)
        requires
            old(self)@.diags == Seq::<DiagnosticModel>::empty(),
            hint_views(old(self).hints@) == Seq::<HintModel>::empty(),
        ensures
            final(self)@.diags == ast@.checked().0,
            hint_views(final(self).hints@) == ast@.checked().1,
    {
        self.get_nodes_types(ast);
        assert(self@.diags =~= ast@.declarations_checked(ast@.nodes.len() as int));
        let mut k: usize = 0;
        while k < ast.nodes.len()
            invariant
                k <= ast.nodes.len(),
                (self@.diags, hint_views(self.hints@)) == ast@.nodes_checked(k as int),
            decreases ast.nodes.len() - k,
        {
            self.check_node(ast, &ast.nodes[k]);
            self.hint_types(&ast.nodes[k]);
            k += 1;
        }
    }
}

impl Ast {
    /// Type-checks the program. Gives the diagnostics, which are all
    /// errors, and a type hint for each equation whose type is known. The
    /// program is not changed.
    pub fn check(&self) -> (r: (Vec<Diagnostic>, Vec<InlayHint>))
        ensures
            diagnostic_views(r.0@) == self@.checked().0,
            hint_views(r.1@) == self@.checked().1,
    {
        let mut checker = CheckerInfo::new();
        checker.check_ast(self);
        (checker.diagnostics, checker.hints)
    }
}

} // verus!
