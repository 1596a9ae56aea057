use lustre_analyzer::ast::{Ast, Expr, Node};
use lustre_analyzer::compile_model::CompileError;
use lustre_analyzer::compiled_expr::CompiledExpr;
use lustre_analyzer::compiled_node::CompiledNode;
use lustre_analyzer::diagnostic::{DiagnosticKind, HintKind, Severity};
use lustre_analyzer::expr_index::ExprIndex;
use lustre_analyzer::function_type::{FunctionCallType, FunctionType};
use lustre_analyzer::instant::Instant;
use lustre_analyzer::messages::numeral_string;
use lustre_analyzer::ops::{BinOp, UnaryOp};
use lustre_analyzer::parser::lustre_parse;
use lustre_analyzer::shallow_eq::ShallowEq;
use lustre_analyzer::span::{Position, Range, Span};
use lustre_analyzer::text::{int_to_text, nat_to_text};
use lustre_analyzer::tokens::{compile_tokens, SemanticToken, TokenType};
use lustre_analyzer::types::{InferLen, InnerVarType, VarType};
use lustre_analyzer::value::Value;

fn int_type() -> VarType {
    VarType { inner: InnerVarType::Int, initialized: true }
}

fn array_of(t: InnerVarType, len: InferLen) -> InnerVarType {
    InnerVarType::Array { t: Box::new(t), len }
}

fn ints(v: &[i64]) -> Value {
    Value::Array(v.iter().map(|i| Value::Int(*i)).collect())
}

fn parse(input: &str) -> Ast {
    lustre_parse(input).expect("the program parses")
}

fn node_named<'a>(ast: &'a Ast, name: &str) -> &'a Node {
    ast.nodes.iter().find(|n| n.name.fragment() == name).expect("the node exists")
}

fn compiled(ast: &Ast, name: &str) -> CompiledNode {
    ast.compile(&node_named(ast, name).name).expect("the node compiles")
}

fn steps(input: &str, name: &str, inputs: Vec<Vec<Value>>) -> Vec<Vec<Value>> {
    let ast = parse(input);
    let mut node = compiled(&ast, name);
    inputs.into_iter().map(|i| node.try_step(i).expect("every output has a value")).collect()
}

// the token kinds

#[test]
fn test() {
    let v = TokenType::to_vec();
    assert_eq!(v[TokenType::Type as usize].name(), "type");
    assert_eq!(v[TokenType::Parameter as usize].name(), "parameter");
    assert_eq!(v[TokenType::Variable as usize].name(), "variable");
    assert_eq!(v[TokenType::Function as usize].name(), "function");
    assert_eq!(v[TokenType::Keyword as usize].name(), "keyword");
    assert_eq!(v[TokenType::Modifier as usize].name(), "modifier");
    assert_eq!(v[TokenType::Comment as usize].name(), "comment");
    assert_eq!(v[TokenType::String as usize].name(), "string");
    assert_eq!(v[TokenType::Number as usize].name(), "number");
}

#[test]
fn token_ranks_follow_the_list() {
    for (i, t) in TokenType::to_vec().into_iter().enumerate() {
        assert_eq!(t.index() as usize, i);
    }
}

#[test]
fn tokens_are_given_from_the_token_before() {
    let token = |line, start| SemanticToken {
        delta_line: line,
        delta_start: start,
        length: 3,
        token_type: 2,
        token_modifiers_bitset: 0,
    };
    let mut tokens = vec![token(1, 4), token(1, 9), token(3, 2), token(3, 7)];
    compile_tokens(&mut tokens);
    assert_eq!(tokens, vec![token(1, 4), token(0, 5), token(2, 2), token(0, 5)]);
}

#[test]
fn semantic_tokens_of_a_node() {
    let ast = parse("node f(x: int) returns (z: int);\nlet\n  z = x;\ntel");
    let tokens = ast.semantic_tokens_full();
    // node, f, x, returns, z, let, z, x, tel
    assert_eq!(tokens.len(), 9);
    assert_eq!(tokens[0].token_type, TokenType::Keyword.index());
    assert_eq!((tokens[0].delta_line, tokens[0].delta_start, tokens[0].length), (0, 0, 4));
    assert_eq!((tokens[1].delta_line, tokens[1].delta_start, tokens[1].length), (0, 5, 1));
    assert_eq!((tokens[5].delta_line, tokens[5].delta_start, tokens[5].length), (1, 0, 3));
    assert_eq!((tokens[6].delta_line, tokens[6].delta_start), (1, 2));
    assert_eq!((tokens[7].delta_line, tokens[7].delta_start), (0, 4));
    assert_eq!((tokens[8].delta_line, tokens[8].delta_start, tokens[8].length), (1, 0, 3));
}

#[test]
fn highlights_are_the_ranges_of_the_names() {
    let ast = parse("node f(x: int) returns (z: int);\nlet\n  z = g(x);\ntel");
    let ranges = ast.document_hightlight();
    // f, x, z, z, g, x
    assert_eq!(ranges.len(), 6);
    let mut visitor = lustre_analyzer::tokens::DocumentHighlightVisitor::new();
    visitor.walk(&ast);
    visitor.visit_span(&Span::new(3, 2, "ab".to_string()));
    let gathered = visitor.hightlights();
    assert_eq!(gathered[..6], ranges[..]);
    assert_eq!(gathered[6].end, Position { line: 1, character: 4 });
    assert_eq!(
        ranges[4],
        Range {
            start: Position { line: 2, character: 6 },
            end: Position { line: 2, character: 7 }
        }
    );
}

// spans and text

#[test]
fn span_positions() {
    let s = Span::new(5, 3, "abc".to_string());
    assert_eq!(s.fragment(), "abc");
    assert_eq!(s.location_line(), 3);
    assert_eq!(s.get_column(), 5);
    assert_eq!(s.position_end(), Position { line: 2, character: 7 });
    assert_eq!(s.position_end_next_line(), Position { line: 3, character: 7 });
    assert_eq!(
        s.to_range(),
        Range {
            start: Position { line: 2, character: 4 },
            end: Position { line: 2, character: 7 }
        }
    );
    let t = s.to_semantic_token(TokenType::Variable);
    assert_eq!((t.delta_line, t.delta_start, t.length, t.token_type), (2, 4, 3, 2));
}

#[test]
fn span_of_unit_has_no_place() {
    let u = Span::unit();
    assert_eq!(u.fragment(), "()");
    assert_eq!((u.location_line(), u.get_column()), (0, 0));
    assert_eq!(u.position_end(), Position { line: 0, character: 1 });
    assert_eq!(u.to_range().start, Position { line: 0, character: 0 });
}

#[test]
fn span_equalities() {
    let a = Span::new(1, 1, "x".to_string());
    let mut b = Span::new(9, 4, "y".to_string());
    assert!(!a.same_name(&b));
    b.change_text("x".to_string());
    assert_eq!((b.get_column(), b.location_line()), (9, 4));
    assert!(a.same_name(&b));
    assert!(!a.eq_exact(&b));
    assert!(a.eq_exact(&a.clone()));
}

#[test]
fn decimal_texts() {
    assert_eq!(nat_to_text(0), "0");
    assert_eq!(nat_to_text(7), "7");
    assert_eq!(nat_to_text(1203), "1203");
    assert_eq!(nat_to_text(u64::MAX), "18446744073709551615");
    assert_eq!(int_to_text(-45), "-45");
    assert_eq!(int_to_text(i64::MIN), "-9223372036854775808");
    assert_eq!(int_to_text(i64::MAX), "9223372036854775807");
    assert_eq!(numeral_string(0), "1st");
    assert_eq!(numeral_string(1), "2nd");
    assert_eq!(numeral_string(11), "12nd");
}

// types

#[test]
fn lengths_merge() {
    assert_eq!(InferLen::Unknown.merge(InferLen::Unknown), Some(InferLen::Unknown));
    assert_eq!(InferLen::Unknown.merge(InferLen::Known(3)), Some(InferLen::Known(3)));
    assert_eq!(InferLen::Known(3).merge(InferLen::Unknown), Some(InferLen::Known(3)));
    assert_eq!(InferLen::Known(3).merge(InferLen::Known(3)), Some(InferLen::Known(3)));
    assert_eq!(InferLen::Known(3).merge(InferLen::Known(4)), None);
}

#[test]
fn kinds_merge_by_structure() {
    assert_eq!(InnerVarType::Int.merge(InnerVarType::Int), Some(InnerVarType::Int));
    assert_eq!(InnerVarType::Int.merge(InnerVarType::Bool), None);
    assert_eq!(
        array_of(InnerVarType::Int, InferLen::Unknown)
            .merge(array_of(InnerVarType::Int, InferLen::Known(5))),
        Some(array_of(InnerVarType::Int, InferLen::Known(5)))
    );
    assert_eq!(
        array_of(InnerVarType::Int, InferLen::Known(4))
            .merge(array_of(InnerVarType::Int, InferLen::Known(5))),
        None
    );
    let pair = |a, b| InnerVarType::Tuple(vec![a, b]);
    assert_eq!(
        pair(InnerVarType::Int, array_of(InnerVarType::Bool, InferLen::Unknown))
            .merge(pair(InnerVarType::Int, array_of(InnerVarType::Bool, InferLen::Known(2)))),
        Some(pair(InnerVarType::Int, array_of(InnerVarType::Bool, InferLen::Known(2))))
    );
    assert_eq!(
        pair(InnerVarType::Int, InnerVarType::Int)
            .merge(InnerVarType::Tuple(vec![InnerVarType::Int])),
        None
    );
}

#[test]
fn types_merge_their_initialization() {
    let mut pre_int = int_type();
    pre_int.uninitialized();
    assert!(pre_int.is_not_initialized());
    assert!(!pre_int.is_initialized());
    assert_eq!(int_type().merge(int_type()), Some(int_type()));
    assert_eq!(int_type().merge(pre_int.clone()), Some(pre_int.clone()));
    assert_eq!(pre_int.clone().merge(int_type()), Some(pre_int.clone()));
    assert!(VarType::merge_initialization(true, true));
    assert!(!VarType::merge_initialization(true, false));
    assert!(int_type().equal_without_pre(&pre_int));
    assert_eq!(pre_int.clone().remove_one_pre(), int_type());
    let bool_type = VarType { inner: InnerVarType::Bool, initialized: true };
    assert_eq!(int_type().merge(bool_type.clone()), None);
    assert!(!int_type().equal_without_pre(&bool_type));
}

#[test]
fn array_of_and_tuple_from_vec() {
    let ints_type = VarType { inner: array_of(InnerVarType::Int, InferLen::Known(3)), initialized: true };
    assert!(ints_type.equal_array_of(&int_type()));
    assert!(!int_type().equal_array_of(&int_type()));
    assert!(!ints_type.equal_array_of(&VarType { inner: InnerVarType::Bool, initialized: true }));
    assert_eq!(
        VarType::tuple_from_vec(vec![]),
        VarType { inner: InnerVarType::Unit, initialized: true }
    );
    let mut pre_int = int_type();
    pre_int.uninitialized();
    assert_eq!(VarType::tuple_from_vec(vec![pre_int.clone()]), pre_int);
    assert_eq!(
        VarType::tuple_from_vec(vec![pre_int, ints_type.clone()]),
        VarType {
            inner: InnerVarType::Tuple(vec![InnerVarType::Int, ints_type.inner.clone()]),
            initialized: true
        }
    );
}

#[test]
fn type_texts() {
    assert_eq!(int_type().to_text(), "int");
    let mut t = VarType { inner: array_of(InnerVarType::Bool, InferLen::Known(12)), initialized: true };
    assert_eq!(t.to_text(), "[bool]^12");
    t.uninitialized();
    assert_eq!(t.to_text(), "pre [bool]^12");
    assert_eq!(array_of(InnerVarType::Unit, InferLen::Unknown).to_text(), "[()]^Unknown Length");
    assert_eq!(
        InnerVarType::Tuple(vec![InnerVarType::Int, InnerVarType::Float, InnerVarType::String])
            .to_text(),
        "(int, float, string)"
    );
    assert_eq!(InnerVarType::Char.to_text(), "char");
}

// values

#[test]
fn values_have_types() {
    assert_eq!(Value::Int(3).get_type(), int_type());
    assert_eq!(Value::Unit.get_type().inner, InnerVarType::Unit);
    assert_eq!(Value::Float("1.5".to_string()).get_type().inner, InnerVarType::Float);
    assert_eq!(Value::Tuple(vec![]).get_type().inner, InnerVarType::Unit);
    assert_eq!(
        Value::Tuple(vec![Value::Int(1), Value::Bool(true)]).get_type().inner,
        InnerVarType::Tuple(vec![InnerVarType::Int, InnerVarType::Bool])
    );
    assert_eq!(ints(&[1, 2, 3]).get_type().inner, array_of(InnerVarType::Int, InferLen::Known(3)));
    assert_eq!(Value::Array(vec![]).get_type().inner, array_of(InnerVarType::Unit, InferLen::Known(0)));
    assert!(ints(&[1]).get_type().is_initialized());
}

#[test]
fn a_sole_value_is_no_tuple() {
    assert_eq!(Value::tuple_from_vec(vec![Value::Int(4)]), Value::Int(4));
    assert_eq!(Value::tuple_from_vec(vec![]), Value::Tuple(vec![]));
    assert_eq!(
        Value::tuple_from_vec(vec![Value::Int(4), Value::Unit]),
        Value::Tuple(vec![Value::Int(4), Value::Unit])
    );
}

#[test]
fn arrays_unwrap() {
    assert_eq!(
        Value::unwrap_array(vec![ints(&[1, 2]), ints(&[3])]),
        Some(vec![vec![Value::Int(1), Value::Int(2)], vec![Value::Int(3)]])
    );
    assert_eq!(Value::unwrap_array(vec![ints(&[1, 2]), Value::Int(3)]), None);
    assert_eq!(Value::unwrap_array(vec![]), Some(vec![]));
}

#[test]
fn value_texts() {
    assert_eq!(Value::Unit.to_text(), "()");
    assert_eq!(Value::Int(-12).to_text(), "-12");
    assert_eq!(Value::Bool(false).to_text(), "false");
    assert_eq!(Value::Char('x').to_text(), "x");
    assert_eq!(Value::String("ab".to_string()).to_text(), "ab");
    assert_eq!(Value::Float("0.25".to_string()).to_text(), "0.25");
    assert_eq!(Value::Tuple(vec![]).to_text(), "()");
    assert_eq!(Value::Tuple(vec![Value::Int(1), Value::Bool(true)]).to_text(), "(1, true)");
    assert_eq!(ints(&[]).to_text(), "[]");
    assert_eq!(ints(&[1, 2, 3]).to_text(), "[1, 2, 3]");
    assert!(ints(&[1, 2]).same(&ints(&[1, 2])));
    assert!(!ints(&[1, 2]).same(&ints(&[1, 3])));
    assert!(!ints(&[1, 2]).same(&Value::Tuple(vec![Value::Int(1), Value::Int(2)])));
    assert_eq!(ints(&[5, 6]).copy(), ints(&[5, 6]));
}

// operators

#[test]
fn arithmetic_on_integers() {
    let (a, b) = (Value::Int(7), Value::Int(2));
    assert_eq!(BinOp::Add.apply(&a, &b, None), Some(Value::Int(9)));
    assert_eq!(BinOp::Sub.apply(&a, &b, None), Some(Value::Int(5)));
    assert_eq!(BinOp::Mult.apply(&a, &b, None), Some(Value::Int(14)));
    assert_eq!(BinOp::Div.apply(&a, &b, None), Some(Value::Int(3)));
    assert_eq!(BinOp::Div.apply(&Value::Int(-7), &b, None), Some(Value::Int(-3)));
    assert_eq!(BinOp::Eq.apply(&a, &b, None), Some(Value::Bool(false)));
    assert_eq!(BinOp::Neq.apply(&a, &b, None), Some(Value::Bool(true)));
}

#[test]
fn arithmetic_that_does_not_apply() {
    assert_eq!(BinOp::Div.apply(&Value::Int(1), &Value::Int(0), None), None);
    assert_eq!(BinOp::Add.apply(&Value::Int(i64::MAX), &Value::Int(1), None), None);
    assert_eq!(BinOp::Div.apply(&Value::Int(i64::MIN), &Value::Int(-1), None), None);
    assert_eq!(BinOp::Add.apply(&Value::Int(1), &Value::Bool(true), None), None);
    assert_eq!(BinOp::Or.apply(&Value::Int(1), &Value::Int(1), None), None);
    assert_eq!(BinOp::Fby.apply(&Value::Int(1), &Value::Int(1), Some(Instant::Initial)), None);
    let float = |s: &str| Value::Float(s.to_string());
    assert_eq!(BinOp::Add.apply(&float("1.0"), &float("2.0"), None), None);
    assert_eq!(BinOp::Add.apply(&Value::Int(1), &float("2.0"), None), None);
    assert_eq!(UnaryOp::Neg.apply(&Value::Int(i64::MIN), None), None);
    assert_eq!(UnaryOp::Not.apply(&Value::Int(1), None), None);
}

#[test]
fn logic_on_booleans() {
    let (t, f) = (Value::Bool(true), Value::Bool(false));
    assert_eq!(BinOp::Or.apply(&t, &f, None), Some(Value::Bool(true)));
    assert_eq!(BinOp::And.apply(&t, &f, None), Some(Value::Bool(false)));
    assert_eq!(BinOp::Eq.apply(&t, &t, None), Some(Value::Bool(true)));
    assert_eq!(BinOp::Neq.apply(&t, &t, None), Some(Value::Bool(false)));
    assert_eq!(UnaryOp::Not.apply(&t, None), Some(Value::Bool(false)));
    assert_eq!(UnaryOp::Neg.apply(&Value::Int(3), None), Some(Value::Int(-3)));
}

#[test]
fn arrow_by_instant() {
    let (a, b) = (Value::Int(0), Value::Int(9));
    assert_eq!(BinOp::Arrow.apply(&a, &b, Some(Instant::Initial)), Some(Value::Int(0)));
    assert_eq!(BinOp::Arrow.apply(&a, &b, Some(Instant::NonInitial)), Some(Value::Int(9)));
    assert_eq!(BinOp::Arrow.apply(&a, &b, None), None);
    assert_eq!(BinOp::Arrow.apply(&a, &Value::Bool(true), Some(Instant::NonInitial)), Some(Value::Bool(true)));
}

#[test]
fn pre_by_instant() {
    let a = ints(&[1, 2]);
    assert_eq!(UnaryOp::Pre.apply(&a, Some(Instant::Initial)), None);
    assert_eq!(UnaryOp::Pre.apply(&a, Some(Instant::NonInitial)), Some(ints(&[1, 2])));
    assert_eq!(UnaryOp::Pre.apply(&a, None), None);
}

#[test]
fn operators_lift_over_tuples_and_arrays() {
    assert_eq!(BinOp::Add.apply(&ints(&[1, 2]), &ints(&[10, 20]), None), Some(ints(&[11, 22])));
    assert_eq!(BinOp::Add.apply(&ints(&[1, 2]), &ints(&[10]), None), None);
    assert_eq!(BinOp::Eq.apply(&ints(&[1, 2]), &ints(&[1, 2]), None), Some(Value::Bool(true)));
    assert_eq!(BinOp::Eq.apply(&ints(&[1, 2]), &ints(&[1, 3]), None), Some(Value::Bool(false)));
    assert_eq!(BinOp::Neq.apply(&ints(&[1, 2]), &ints(&[3, 4]), None), Some(Value::Bool(true)));
    assert_eq!(BinOp::Neq.apply(&ints(&[1, 2]), &ints(&[3, 2]), None), Some(Value::Bool(false)));
    assert_eq!(BinOp::Eq.apply(&ints(&[1, 2]), &ints(&[1]), None), None);
    let pair = |a, b| Value::Tuple(vec![Value::Int(a), Value::Bool(b)]);
    assert_eq!(BinOp::Eq.apply(&pair(1, true), &pair(1, true), None), Some(Value::Bool(true)));
    assert_eq!(BinOp::Add.apply(&pair(1, true), &pair(1, true), None), None);
    assert_eq!(UnaryOp::Neg.apply(&ints(&[1, -2]), None), Some(ints(&[-1, 2])));
    assert_eq!(
        BinOp::Mult.apply(
            &Value::Tuple(vec![ints(&[1, 2]), Value::Int(3)]),
            &Value::Tuple(vec![ints(&[3, 4]), Value::Int(5)]),
            None
        ),
        Some(Value::Tuple(vec![ints(&[3, 8]), Value::Int(15)]))
    );
}

#[test]
fn operator_precedences() {
    assert_eq!(BinOp::Arrow.precedence(), 5);
    for op in [BinOp::Eq, BinOp::Neq, BinOp::Or, BinOp::And] {
        assert_eq!(op.precedence(), 4);
    }
    assert_eq!((BinOp::Add.precedence(), BinOp::Sub.precedence()), (3, 3));
    for op in [BinOp::Mult, BinOp::Div, BinOp::Fby] {
        assert_eq!(op.precedence(), 2);
    }
    for op in [UnaryOp::Neg, UnaryOp::Pre, UnaryOp::Not] {
        assert_eq!(op.precedence(), 1);
    }
    assert_eq!((BinOp::Fby.as_str(), BinOp::Neq.as_str(), UnaryOp::Pre.as_str()), ("fby", "!=", "pre"));
}

// instants and indices

#[test]
fn instants_only_advance() {
    let mut i = Instant::Initial;
    assert!(i.is_init());
    i.step();
    assert_eq!(i, Instant::NonInitial);
    assert!(!i.is_init());
    i.step();
    assert_eq!(i, Instant::NonInitial);
}

#[test]
fn expression_indices() {
    let mut i = ExprIndex::new(7);
    assert_eq!(i.to_usize(), 7);
    i.offset_index(5);
    assert_eq!(i, ExprIndex(12));
}

// compiled nodes

#[test]
fn pushes_are_memoized() {
    let mut node = CompiledNode::new();
    assert!(node.is_empty());
    let a = node.push_expr(CompiledExpr::Lit(Value::Int(1)), "1".to_string());
    let b = node.push_expr(CompiledExpr::Lit(Value::Int(2)), "2".to_string());
    let c = node.push_expr(CompiledExpr::Lit(Value::Int(1)), "1 again".to_string());
    assert_eq!((a, b, c), (ExprIndex(0), ExprIndex(1), ExprIndex(0)));
    let i = node.push_expr(CompiledExpr::Input, "in".to_string());
    let j = node.push_expr(CompiledExpr::Input, "in".to_string());
    assert_eq!((i, j), (ExprIndex(2), ExprIndex(3)));
    let o = node.push_expr(CompiledExpr::Output, "out".to_string());
    let p = node.push_expr(CompiledExpr::Output, "out".to_string());
    assert_eq!((o, p), (ExprIndex(4), ExprIndex(5)));
    let d = node.push_expr_core(CompiledExpr::Lit(Value::Int(1)), "1".to_string());
    assert_eq!(d, ExprIndex(6));
    assert_eq!(node.len(), 7);
    assert_eq!(node.back_index(), ExprIndex(7));
    assert_eq!(node.values().len(), 7);
    node.add_info(ExprIndex(0), "one".to_string());
    assert_eq!(node.infos()[0], "one - 1");
    node.replace_expr(CompiledExpr::Variable(a), o);
    assert_eq!(node.exprs()[4], CompiledExpr::Variable(ExprIndex(0)));
    node.insert_expr(1, CompiledExpr::Lit(Value::Unit));
    assert_eq!((node.len(), node.values().len(), node.infos().len()), (8, 8, 7));
    assert_eq!(node.exprs()[1], CompiledExpr::Lit(Value::Unit));
    assert_eq!(node.exprs()[2], CompiledExpr::Lit(Value::Int(2)));
    node.insert_info(1, "unit".to_string());
    assert_eq!((node.len(), node.values().len(), node.infos().len()), (8, 9, 8));
    assert_eq!(node.infos()[1], "unit");
    assert_eq!(node.infos()[2], "2");
    node.set_values_to_none();
    assert_eq!(node.values().len(), 8);
}

#[test]
fn neighbours_follow_the_operands() {
    let i = |n| ExprIndex(n);
    assert_eq!(CompiledExpr::Input.get_neighbours(), vec![]);
    assert_eq!(CompiledExpr::Lit(Value::Unit).get_neighbours(), vec![]);
    assert_eq!(CompiledExpr::Pre { src: i(3) }.get_neighbours(), vec![i(3)]);
    assert_eq!(CompiledExpr::Variable(i(4)).get_neighbours(), vec![i(4)]);
    assert_eq!(
        CompiledExpr::BinOp { lhs: i(1), op: BinOp::Add, rhs: i(2) }.get_neighbours(),
        vec![i(1), i(2)]
    );
    assert_eq!(
        CompiledExpr::If { cond: i(5), yes: i(6), no: i(7) }.get_neighbours(),
        vec![i(5), i(6), i(7)]
    );
}

#[test]
fn one_expression_for_one_instant() {
    let i = |n| ExprIndex(n);
    let values = vec![Some(Value::Int(3)), Some(Value::Int(4)), Some(Value::Bool(true)), None];
    let add = CompiledExpr::BinOp { lhs: i(0), op: BinOp::Add, rhs: i(1) };
    assert_eq!(add.compute_one_step(&values, &Instant::Initial), Some(Value::Int(7)));
    let arrow = CompiledExpr::BinOp { lhs: i(0), op: BinOp::Arrow, rhs: i(3) };
    assert_eq!(arrow.compute_one_step(&values, &Instant::Initial), Some(Value::Int(3)));
    assert_eq!(arrow.compute_one_step(&values, &Instant::NonInitial), None);
    let arrow = CompiledExpr::BinOp { lhs: i(0), op: BinOp::Arrow, rhs: i(1) };
    assert_eq!(arrow.compute_one_step(&values, &Instant::NonInitial), Some(Value::Int(4)));
    let choice = CompiledExpr::If { cond: i(2), yes: i(0), no: i(1) };
    assert_eq!(choice.compute_one_step(&values, &Instant::Initial), Some(Value::Int(3)));
    let strict = CompiledExpr::If { cond: i(2), yes: i(0), no: i(3) };
    assert_eq!(strict.compute_one_step(&values, &Instant::Initial), None);
    assert_eq!(CompiledExpr::Pre { src: i(1) }.compute_one_step(&values, &Instant::Initial), Some(Value::Int(4)));
    assert_eq!(CompiledExpr::Variable(i(9)).compute_one_step(&values, &Instant::Initial), None);
    assert_eq!(CompiledExpr::Input.compute_one_step(&values, &Instant::Initial), None);
    assert_eq!(CompiledExpr::Output.compute_one_step(&values, &Instant::Initial), None);
}

#[test]
fn compiled_indices_are_in_range() {
    let ast = parse(
        "node f(a, b: int) returns (x, y : int);
let
    t = a * b;
    x = 1 fby (x + t);
    y = pre x -> t + t;
tel",
    );
    let node = compiled(&ast, "f");
    let len = node.len() as u32;
    for e in node.exprs() {
        for n in e.get_neighbours() {
            assert!(n.0 < len);
        }
    }
    for i in node.inputs().iter().chain(node.outputs().iter()) {
        assert!(i.0 < len);
    }
    for i in node.inputs() {
        assert_eq!(node.exprs()[i.to_usize()], CompiledExpr::Input);
    }
    assert_eq!(node.values().len(), node.len());
    assert!(node.values().iter().all(|v| v.is_none()));
    assert_eq!(node.instant(), Instant::Initial);
}

#[test]
fn scheduling_permutes_and_orders() {
    let ast = parse(
        "node f(a: int) returns (x : int);
let
    x = 1 fby x + (1 fby (1 fby x)) + a;
tel",
    );
    let mut compiler = lustre_analyzer::compiler::Compiler::new();
    compiler.compile_ast(&ast, &ast.nodes[0].name).unwrap();
    let raw = &compiler.ast;
    let scheduled = raw.schedule();
    assert_eq!(raw.len(), scheduled.len());
    let count = |node: &CompiledNode, f: fn(&CompiledExpr) -> bool| {
        node.exprs().iter().filter(|e| f(e)).count()
    };
    let is_pre: fn(&CompiledExpr) -> bool = |e| matches!(e, CompiledExpr::Pre { .. });
    let is_lit: fn(&CompiledExpr) -> bool = |e| matches!(e, CompiledExpr::Lit(_));
    let is_op: fn(&CompiledExpr) -> bool = |e| matches!(e, CompiledExpr::BinOp { .. });
    assert_eq!(count(raw, is_pre), count(&scheduled, is_pre));
    assert_eq!(count(raw, is_lit), count(&scheduled, is_lit));
    assert_eq!(count(raw, is_op), count(&scheduled, is_op));
    for (k, e) in scheduled.exprs().iter().enumerate() {
        for n in e.get_neighbours() {
            let target = &scheduled.exprs()[n.to_usize()];
            assert!(n.to_usize() < k || matches!(target, CompiledExpr::Pre { .. }));
        }
    }
}

#[test]
fn a_schedule_is_an_order_where_cycles_pass_a_pre() {
    let ast = parse(
        "node f(a: int) returns (x, y : int);
let
    t = (0 fby x) + a;
    x = t * 2;
    y = 1 -> pre (x + y);
tel
node g(a: int) returns (z : int); let z = z + a; tel",
    );
    assert!(compiled(&ast, "f").is_ordered());
    assert!(compiled(&ast, "f").keeps_delays());
    assert!(!compiled(&ast, "g").is_ordered());
    assert!(ast.check().0.is_empty());
    let nested = parse("node h(x: int) returns (z: int); let z = 0 -> pre (0 -> pre x); tel");
    assert!(compiled(&nested, "h").is_ordered());
    assert!(!compiled(&nested, "h").keeps_delays());
    let mut compiler = lustre_analyzer::compiler::Compiler::new();
    compiler.compile_ast(&ast, &ast.nodes[0].name).unwrap();
    assert!(!compiler.ast.is_ordered());
}

#[test]
fn the_walk_leaves_pre_out() {
    let mut node = CompiledNode::new();
    let lit = node.push_expr(CompiledExpr::Lit(Value::Int(0)), "0".to_string());
    let pre = node.push_expr(CompiledExpr::Pre { src: lit }, "pre".to_string());
    let sum = node.push_expr(
        CompiledExpr::BinOp { lhs: lit, op: BinOp::Add, rhs: pre },
        "+".to_string(),
    );
    let mut done = vec![false; 3];
    let mut pile = vec![];
    node.bfs(sum.to_usize(), &mut done, &mut pile, 3);
    assert_eq!(pile, vec![0, 2]);
    assert_eq!(done, vec![true, false, true]);
    node.bfs(sum.to_usize(), &mut done, &mut pile, 3);
    assert_eq!(pile, vec![0, 2]);
    node.bfs(pre.to_usize(), &mut done, &mut pile, 3);
    assert_eq!(pile, vec![0, 2, 1]);
    let mut moved = vec![];
    let mut infos = vec![];
    assert_eq!(node.move_into(&mut moved, &mut infos, 1), ExprIndex(0));
    assert_eq!(moved, vec![CompiledExpr::Pre { src: lit }]);
    assert_eq!(infos, vec!["pre".to_string()]);
}

#[test]
fn followed_by_delays_by_one_step() {
    let out = steps(
        "node f(e: int) returns (x : int); let x = 7 fby e; tel",
        "f",
        vec![vec![Value::Int(10)], vec![Value::Int(20)], vec![Value::Int(30)]],
    );
    assert_eq!(out, vec![vec![Value::Int(7)], vec![Value::Int(10)], vec![Value::Int(20)]]);
}

#[test]
fn arrow_is_its_left_side_first() {
    let out = steps(
        "node f(x: int) returns (z : int); let z = 0 -> x; tel",
        "f",
        vec![vec![Value::Int(5)], vec![Value::Int(6)], vec![Value::Int(7)]],
    );
    assert_eq!(out, vec![vec![Value::Int(0)], vec![Value::Int(6)], vec![Value::Int(7)]]);
}

#[test]
fn a_node_without_memory_is_pure() {
    let program = "node f(a, b: int) returns (s, p : int); let s = a + b; p = a * b - s; tel";
    let ast = parse(program);
    let mut node = compiled(&ast, "f");
    let input = || vec![Value::Int(3), Value::Int(4)];
    let first = node.try_step(input());
    node.try_step(vec![Value::Int(100), Value::Int(200)]);
    let again = node.try_step(input());
    assert_eq!(first, Some(vec![Value::Int(7), Value::Int(5)]));
    assert_eq!(first, again);
    assert_eq!(compiled(&ast, "f").try_step(input()), first);
}

#[test]
fn a_step_leaves_the_initial_instant() {
    let ast = parse("node f(a: int) returns (x : int); let x = a; tel");
    let mut node = compiled(&ast, "f");
    assert_eq!(node.instant(), Instant::Initial);
    assert_eq!(node.step(vec![Value::Int(1)]), vec![Value::Int(1)]);
    assert_eq!(node.instant(), Instant::NonInitial);
    node.step(vec![Value::Int(2)]);
    assert_eq!(node.instant(), Instant::NonInitial);
}

#[test]
fn a_step_without_a_value_gives_nothing() {
    let ast = parse("node f(a: int) returns (x : int); let x = pre a; tel");
    let mut node = compiled(&ast, "f");
    assert_eq!(node.try_step(vec![Value::Int(1)]), None);
    assert_eq!(node.try_step(vec![Value::Int(2)]), Some(vec![Value::Int(1)]));
    assert_eq!(node.try_step(vec![Value::Int(3)]), Some(vec![Value::Int(2)]));
    let ast = parse("node f(a: int) returns (x : int); let x = a + true; tel");
    let mut node = compiled(&ast, "f");
    assert_eq!(node.try_step(vec![Value::Int(1)]), None);
    assert_eq!(node.instant(), Instant::NonInitial);
}

#[test]
fn expressions_are_tagged_with_their_text() {
    let ast = parse("node f(a: int) returns (x : int); let x = 1 fby (x + a) * 2; tel");
    let mut compiler = lustre_analyzer::compiler::Compiler::new();
    compiler.compile_ast(&ast, &ast.nodes[0].name).unwrap();
    let tags: Vec<&str> = compiler.ast.infos().iter().map(|s| s.as_str()).collect();
    assert_eq!(
        tags,
        vec![
            "IN : a",
            "OUT : x",
            "1",
            "x + a",
            "set x + a",
            "1 fby (x + a)",
            "2",
            "1 fby (x + a) * 2"
        ]
    );
    let scheduled = compiler.schedule();
    let mut sorted: Vec<&str> = scheduled.infos().iter().map(|s| s.as_str()).collect();
    let mut expected = tags.clone();
    sorted.sort();
    expected.sort();
    assert_eq!(sorted, expected);
    for (e, tag) in scheduled.exprs().iter().zip(scheduled.infos().iter()) {
        assert_eq!(matches!(e, CompiledExpr::Pre { .. }), tag.starts_with("set "));
    }
}

#[test]
fn a_compiled_node_is_shown_as_a_table() {
    let ast = parse("node f(a: int) returns (x : int); let x = a + 10; tel");
    let mut node = compiled(&ast, "f");
    node.step(vec![Value::Int(5)]);
    assert_eq!(
        node.to_text(),
        "Instant = not init\nloop {\n\
         \t0   -   IN     >> 5 // IN : a    \n\
         \t1   -   val 10 >> 10 // 10        \n\
         \t2   -   0 + 1  >> 15 // a + 10    \n\
         \t3   -   2      >> 15 // OUT : x   \n\
         }\ninput = [0]\noutput = [3]\n"
    );
    assert_eq!(CompiledNode::new().to_text(), "Instant = init\nloop {\n\n}\ninput = []\noutput = []\n");
    assert_eq!(CompiledExpr::Pre { src: ExprIndex(4) }.to_text(), " = 4");
    assert_eq!(
        CompiledExpr::If { cond: ExprIndex(1), yes: ExprIndex(2), no: ExprIndex(3) }.to_text(),
        "if 1 then 2 else 3"
    );
    assert_eq!(
        CompiledExpr::UnaryOp { op: UnaryOp::Not, rhs: ExprIndex(7) }.to_text(),
        "not 7"
    );
    assert_eq!(CompiledExpr::Output.to_text(), "OUT");
    assert_eq!((Instant::Initial.to_text(), ExprIndex(12).to_text()), ("init".to_string(), "12".to_string()));
    assert_eq!(lustre_analyzer::ast::Tag::Test.to_text(), "test");
}

#[test]
fn calls_are_inlined() {
    let out = steps(
        "node incr(i: int) returns (o : int); let o = i + 1; tel
node twice(a: int) returns (b : int); let b = incr(incr(a)); tel",
        "twice",
        vec![vec![Value::Int(5)], vec![Value::Int(7)]],
    );
    assert_eq!(out, vec![vec![Value::Int(7)], vec![Value::Int(9)]]);
}

#[test]
fn what_does_not_compile() {
    let name = |s: &str| Span::new(1, 1, s.to_string());
    let ast = parse("node f() returns (x : int); let x = g(1); tel");
    assert_eq!(ast.compile(&name("h")).err(), Some(CompileError::UnknownNode));
    assert_eq!(ast.compile(&name("f")).err(), Some(CompileError::UnknownNode));
    let ast = parse("node f() returns (x : int); let x = y; tel");
    assert_eq!(ast.compile(&name("f")).err(), Some(CompileError::UnknownVariable));
    let ast = parse("node f() returns (x : int); let y = y + 1; x = y; tel");
    assert_eq!(ast.compile(&name("f")).err(), Some(CompileError::CyclicDefinition));
    let ast = parse("node f() returns (x : int); let x = f(); tel");
    assert_eq!(ast.compile(&name("f")).err(), Some(CompileError::RecursiveCall));
    let ast = parse(
        "node f() returns (x : int); let x = g(); tel
node g() returns (x : int); let x = f(); tel",
    );
    assert_eq!(ast.compile(&name("g")).err(), Some(CompileError::RecursiveCall));
    let ast = parse("node f() returns (x : int); let x = []; tel");
    assert_eq!(ast.compile(&name("f")).err(), Some(CompileError::NoValue));
}

// signatures

#[test]
fn a_signature_keeps_the_order() {
    let ast = parse("node f(b, a: int, c: bool) returns (z, y: int); let tel");
    let (signature, diags) = FunctionType::get_function_type(&ast.nodes[0]);
    assert!(diags.is_empty());
    assert_eq!(
        signature.input_types(),
        vec![int_type(), int_type(), VarType { inner: InnerVarType::Bool, initialized: true }]
    );
    assert_eq!(signature.output_types(), vec![int_type(), int_type()]);
}

#[test]
fn a_signature_enters_a_name_once() {
    let ast = parse("node f(a: int, a: bool, a: char) returns (z: int, z: int); let tel");
    let (signature, diags) = FunctionType::get_function_type(&ast.nodes[0]);
    assert_eq!(signature.input_types(), vec![int_type()]);
    assert_eq!(signature.output_types(), vec![int_type()]);
    assert_eq!(diags.len(), 3);
    assert_eq!(diags[0].message, "Input name already used.");
    assert_eq!(diags[1].message, "Input name already used.");
    assert_eq!(diags[2].message, "Output name already used.");
    assert!(diags.iter().all(|d| d.kind == DiagnosticKind::DuplicateName));
    assert_eq!(diags[0].range.start, Position { line: 0, character: 15 });
}

#[test]
fn calls_are_simple_or_lifted() {
    let ast = parse("node f(a: int, b: bool) returns (z: int); let tel");
    let signature = || FunctionType::get_function_type(&ast.nodes[0]).0;
    let bools = Value::Array(vec![Value::Bool(true)]);
    assert_eq!(
        signature().function_call_type(&vec![Value::Int(1), Value::Bool(true)]),
        Some(FunctionCallType::Simple)
    );
    assert_eq!(
        signature().function_call_type(&vec![ints(&[1, 2]), bools.clone()]),
        Some(FunctionCallType::Array)
    );
    assert_eq!(signature().function_call_type(&vec![Value::Int(1), bools]), None);
    assert_eq!(signature().function_call_type(&vec![ints(&[1]), Value::Bool(true)]), None);
    assert_eq!(signature().function_call_type(&vec![Value::Bool(true), Value::Int(1)]), None);
    assert_eq!(signature().function_call_type(&vec![]), None);
}

// the type checker

fn diagnostics(input: &str) -> Vec<lustre_analyzer::diagnostic::Diagnostic> {
    parse(input).check().0
}

#[test]
fn checking_twice_gives_the_same() {
    let ast = parse(
        "node f(x: int) returns (z: int, y: bool);
let
    a = x + true;
    z = a + x + 10;
    y = pre pre x;
tel",
    );
    let first = ast.check();
    let second = ast.check();
    assert!(!first.0.is_empty());
    assert_eq!(first, second);
}

#[test]
fn a_type_mismatch_is_reported_at_the_operator() {
    let diags = diagnostics("node f(x:int) returns(z:int); let z = 2 + true; tel");
    assert_eq!(diags.len(), 2);
    assert_eq!(diags[0].kind, DiagnosticKind::TypeMismatch);
    assert_eq!(diags[0].severity, Severity::Error);
    assert_eq!(
        diags[0].range,
        Range {
            start: Position { line: 0, character: 40 },
            end: Position { line: 0, character: 41 }
        }
    );
    assert_eq!(
        diags[0].message,
        "Got type 'int' on the left and 'bool' on the right\n but expected to have the same type."
    );
    assert_eq!(diags[1].kind, DiagnosticKind::TypeMismatch);
    assert_eq!(diags[1].message, "Error while checking the type of 'z', expected : 'int'.");
}

#[test]
fn each_kind_of_diagnostic() {
    let kinds = |input: &str| -> Vec<DiagnosticKind> {
        diagnostics(input).into_iter().map(|d| d.kind).collect()
    };
    assert_eq!(
        kinds("node f(x: int, x: int) returns (z: int); let z = x; tel"),
        vec![DiagnosticKind::DuplicateName]
    );
    assert_eq!(
        kinds("node f() returns (z: int); let z = 1; tel node f() returns (z: int); let z = 1; tel"),
        vec![DiagnosticKind::DuplicateName]
    );
    assert_eq!(
        kinds("node f() returns (z: int); let tel"),
        vec![DiagnosticKind::MissingEquation, DiagnosticKind::TypeMismatch]
    );
    assert_eq!(
        kinds("node f() returns (z: int); let z = a; tel"),
        vec![DiagnosticKind::MissingEquation, DiagnosticKind::TypeMismatch]
    );
    assert_eq!(
        kinds("node f() returns (z: int); let z = 1; z = 2; tel"),
        vec![DiagnosticKind::DuplicateEquation]
    );
    assert_eq!(
        kinds("node f(x: int) returns (z: int); let x = 1; z = x; tel"),
        vec![DiagnosticKind::DuplicateEquation]
    );
    assert_eq!(
        kinds("node g(a: int) returns (z: int); let z = a; tel node f() returns (z: int); let z = g(1, 2); tel"),
        vec![DiagnosticKind::ArityMismatch, DiagnosticKind::TypeMismatch]
    );
    assert_eq!(
        kinds("node f(x: bool) returns (z: int); let z = x; tel"),
        vec![DiagnosticKind::TypeMismatch]
    );
    assert_eq!(
        kinds("node f(x: int) returns (z: int); let z = 0 -> pre pre x; tel"),
        vec![DiagnosticKind::InitializationViolation, DiagnosticKind::TypeMismatch]
    );
    assert_eq!(
        kinds("node f(x: int) returns (z: int); let z = pre x -> x; tel"),
        vec![DiagnosticKind::InitializationViolation, DiagnosticKind::TypeMismatch]
    );
    assert_eq!(
        kinds("node f(x: int) returns (z: int); let z = f(x); tel"),
        vec![DiagnosticKind::Recursion, DiagnosticKind::TypeMismatch]
    );
    assert_eq!(
        kinds("node f(x: int) returns (z: int); let z = g(x); tel"),
        vec![DiagnosticKind::UnknownCallee, DiagnosticKind::TypeMismatch]
    );
}

#[test]
fn the_messages_of_the_checker() {
    let messages = |input: &str| -> Vec<String> {
        diagnostics(input).into_iter().map(|d| d.message).collect()
    };
    assert_eq!(
        messages("node f() returns (z: int); let z = a; tel")[0],
        "No equation found for 'a'"
    );
    assert_eq!(
        messages("node f() returns (z: int); let z = 1; z = 2; tel")[0],
        "Equation for 'z' already defined."
    );
    assert_eq!(
        messages("node g(a: int) returns (z: int); let z = a; tel node f() returns (z: int); let z = g(1, 2); tel")[0],
        "Expected 1 arguments for function 'g' but got 2 arguments."
    );
    assert_eq!(
        messages("node f(x: int) returns (z: int); let z = pre x -> x; tel")[0],
        "Got type 'pre int' which is not initialized at first instant."
    );
    assert_eq!(
        messages("node f(x: int) returns (z: int); let z = 0 -> pre pre x; tel")[0],
        "Using pre operator on a not initialized value. This cannot be recovered with any other operator."
    );
    assert_eq!(
        messages("node f(x: int) returns (z: int); let z = f(x); tel")[0],
        "Recursive function call are not allowed"
    );
    assert_eq!(
        messages("node f(x: int) returns (z: int); let z = g(x); tel")[0],
        "Function 'g' never defined."
    );
    assert_eq!(
        messages("node f() returns (z: int); let z = 1; tel node f() returns (z: int); let z = 1; tel")[0],
        "Function name 'f' already defined in this file."
    );
    assert_eq!(
        messages("node f(x: bool) returns (z: int); let z = x; tel")[0],
        "'z' is supposed to be of type 'int', found 'bool'."
    );
    let g = "node g(a: int, b: int) returns (z: int); let z = a + b; tel ";
    assert_eq!(
        messages(&format!("{g}node f() returns (z: int); let z = g(true, 2); tel"))[0],
        "1st arguments of function g of type 'bool' but expected 'int' or ['int']"
    );
    assert_eq!(
        messages(&format!("{g}node f() returns (z: int); let z = g(1, true); tel"))[0],
        "2nd arguments of function g of type 'bool' but expected 'int'"
    );
    assert_eq!(
        messages(&format!("{g}node f() returns (z: int); let z = g([1], 2); tel"))[0],
        "2nd arguments of function g of type 'int' but expected ['int']"
    );
    assert_eq!(
        messages(&format!("{g}node f() returns (z: int); let z = g(1, a); tel")),
        vec![
            "No equation found for 'a'",
            "2nd arguments of function g does not type check.",
            "Error while checking the type of 'z', expected : 'int'."
        ]
    );
}

#[test]
fn a_failed_part_is_reported_once() {
    let diags = diagnostics(
        "node f(x: int) returns (z: int, y: int);
let
    a = x + true;
    z = a + a;
    y = a;
tel",
    );
    let mismatches = diags.iter().filter(|d| d.message.starts_with("Got type")).count();
    assert_eq!(mismatches, 1);
    assert_eq!(diags.len(), 3);
}

#[test]
fn a_local_that_defines_itself_has_no_type() {
    let diags = diagnostics("node f() returns (z: int); let a = a + 1; z = a; tel");
    assert_eq!(diags.len(), 1);
    assert_eq!(diags[0].message, "Error while checking the type of 'z', expected : 'int'.");
}

#[test]
fn lifted_calls_have_arrays_of_unknown_length() {
    let (diags, hints) = parse(
        "node incr(i: int) returns (o: int); let o = i + 1; tel
node t() returns (z: bool);
let
    lhs = incr([1, 2, 3]);
    z = lhs == [2, 3, 4];
tel",
    )
    .check();
    assert!(diags.is_empty());
    let labels: Vec<&str> = hints.iter().map(|h| h.label.as_str()).collect();
    assert_eq!(labels, vec![": int", ": [int]^Unknown Length", ": bool"]);
    assert!(hints.iter().all(|h| h.kind == HintKind::Type));
    assert_eq!(hints[1].position, Position { line: 3, character: 7 });
}

// constant propagation

#[test]
fn values_are_shown_after_the_equations() {
    let ast = parse(
        "node f() returns (x:int);
let
    z = 12/2;
    x = (1+12)*23 + z + 23 - 6;
tel",
    );
    let (folded, hints) = ast.propagate_const();
    let shown: Vec<(&str, Position, HintKind)> =
        hints.iter().map(|h| (h.label.as_str(), h.position, h.kind)).collect();
    assert_eq!(
        shown,
        vec![
            (" >> 6", Position { line: 2, character: 13 }, HintKind::Value),
            (" >> 322", Position { line: 3, character: 31 }, HintKind::Value),
        ]
    );
    assert_eq!(folded.nodes[0].let_bindings.len(), 1);
    assert_eq!(folded.nodes[0].let_bindings[0].0.fragment(), "x");
    assert_eq!(folded.nodes[0].let_bindings[0].1.get_value(), Some(Value::Int(322)));
    assert_eq!(folded.nodes[0].name.fragment(), "f");
    assert_eq!(ast.nodes[0].let_bindings.len(), 2);
}

#[test]
fn tests_get_their_verdict() {
    let program = |expected: &str| {
        format!(
            "node incr(i:int) returns (o:int); let o = i + 1; tel
#[test] node t() returns (z: bool);
let lhs = incr([1,2,3,4,5]); rhs = {expected}; z = lhs == rhs; tel"
        )
    };
    let (folded, hints) = parse(&program("[2,3,4,5,6]")).propagate_const();
    assert!(folded.nodes[1].is_test() && folded.nodes[1].is_only_true_equations());
    let verdict = hints.last().unwrap();
    assert_eq!((verdict.label.as_str(), verdict.kind), (" ✅", HintKind::Verdict));
    assert_eq!(verdict.position, Position { line: 1, character: 7 });
    assert_eq!(folded.hint_last_node_reduced(), Some((verdict.position, " ✅".to_string())));
    assert!(folded.last_nodes_is_test());
    let (folded, hints) = parse(&program("[2,3,4,5,7]")).propagate_const();
    assert!(folded.nodes[1].is_test() && !folded.nodes[1].is_only_true_equations());
    assert_eq!(hints.last().unwrap().label, " ❌");
    assert!(parse(&program("[2,3,4,5,7]")).check().0.is_empty());
}

#[test]
fn a_tagged_node_of_two_outputs_does_not_pass() {
    let (folded, hints) =
        parse("#[test] node t() returns (a, b: bool); let a = true; b = true; tel").propagate_const();
    assert!(!folded.nodes[0].is_test());
    assert!(!folded.nodes[0].is_only_true_equations());
    assert_eq!(hints.last().unwrap().label, " ❌");
    assert_eq!(hints.last().unwrap().kind, HintKind::Verdict);
    let (_, hints) = parse("node t() returns (a: bool); let a = true; tel").propagate_const();
    assert!(hints.iter().all(|h| h.kind == HintKind::Value));
}

#[test]
fn what_does_not_fold_is_left() {
    let (folded, hints) = parse(
        "node f(a: int) returns (x: int, y: int);
let
    l = a + (2 * 3);
    x = l + 1;
    y = g(1) + (1 / 0) + time();
tel",
    )
    .propagate_const();
    assert!(hints.is_empty());
    let texts: Vec<String> = folded.nodes[0]
        .let_bindings
        .iter()
        .map(|(name, e)| format!("{} = {}", name.fragment(), e.to_text()))
        .collect();
    assert_eq!(texts, vec!["l = a + 6", "x = l + 1", "y = g(1) + 1 / 0 + time()"]);
}

#[test]
fn a_lifted_call_steps_item_by_item() {
    let program = "node acc(a, b: int) returns (s, d: int); let s = (0 fby s) + a; d = a - b; tel";
    let ast = parse(program);
    let name = ast.nodes[0].name.clone();
    let lifted = ast.eval_call(&name, vec![ints(&[1, 2, 3]), ints(&[10, 20, 30])]);
    assert_eq!(lifted, Some(Value::Tuple(vec![ints(&[1, 3, 6]), ints(&[-9, -18, -27])])));
    let mut node = ast.compile(&name).unwrap();
    for (k, (a, b)) in [(1, 10), (2, 20), (3, 30)].into_iter().enumerate() {
        let outs = node.step(vec![Value::Int(a), Value::Int(b)]);
        let Some(Value::Tuple(columns)) = &lifted else { panic!() };
        for (i, out) in outs.iter().enumerate() {
            let Value::Array(column) = &columns[i] else { panic!() };
            assert_eq!(&column[k], out);
        }
    }
    assert_eq!(
        ast.eval_call(&name, vec![Value::Int(4), Value::Int(1)]),
        Some(Value::Tuple(vec![Value::Int(4), Value::Int(3)]))
    );
    assert_eq!(ast.eval_call(&name, vec![ints(&[1, 2]), ints(&[1])]), None);
    assert_eq!(ast.eval_call(&name, vec![Value::Int(4), Value::Bool(true)]), None);
    assert_eq!(ast.eval_call(&Span::new(1, 1, "none".to_string()), vec![Value::Int(4)]), None);
}

#[test]
fn folding_keeps_the_type() {
    let ast = parse(
        "node f() returns (a: int, b: bool, c: int);
let
    a = (1 + 2) * 3 - 4 / 2;
    b = (1 + 1 == 2) and not (3 != 3);
    c = - (2 * 5);
tel",
    );
    assert!(ast.check().0.is_empty());
    let (folded, _) = ast.propagate_const();
    let values: Vec<Value> =
        folded.nodes[0].let_bindings.iter().map(|(_, e)| e.get_value().unwrap()).collect();
    assert_eq!(values, vec![Value::Int(7), Value::Bool(true), Value::Int(-10)]);
    for ((_, declared), v) in ast.nodes[0].outputs.iter().zip(values.iter()) {
        assert_eq!(&v.get_type(), declared);
    }
}

#[test]
fn constant_expressions_have_values() {
    let lit = |i| Expr::Lit(Value::Int(i));
    assert_eq!(lit(1).get_value(), Some(Value::Int(1)));
    assert_eq!(Expr::Array(vec![lit(1), lit(2)]).get_value(), Some(ints(&[1, 2])));
    assert_eq!(
        Expr::Tuple(vec![lit(1), Expr::Array(vec![])]).get_value(),
        Some(Value::Tuple(vec![Value::Int(1), ints(&[])]))
    );
    let x = Expr::Variable(Span::new(1, 1, "x".to_string()));
    assert_eq!(x.get_value(), None);
    assert_eq!(Expr::Array(vec![lit(1), x]).get_value(), None);
}

#[test]
fn equations_are_added_to_the_last_node() {
    let mut ast = parse("node f() returns (z: bool); let tel #[test] node t() returns (z: bool); let tel");
    assert!(!ast.nodes[0].is_test());
    assert!(ast.last_nodes_is_test());
    assert!(!ast.nodes[1].is_only_true_equations());
    ast.push_expr(Span::new(1, 1, "z".to_string()), Expr::Lit(Value::Bool(true)));
    assert_eq!(ast.nodes[0].let_bindings.len(), 0);
    assert!(ast.nodes[1].is_only_true_equations());
    let shell = ast.nodes[1].shell_from_node();
    assert_eq!((shell.let_bindings.len(), shell.name.fragment()), (0, "t".to_string()));
    assert!(shell.is_test());
    let mut empty = Ast::new();
    empty.push_expr(Span::new(1, 1, "z".to_string()), Expr::Lit(Value::Bool(true)));
    assert!(empty.nodes.is_empty());
    assert!(!empty.last_nodes_is_test());
    assert_eq!(empty.hint_last_node_reduced(), None);
}

// the parser

#[test]
fn a_text_that_is_no_program() {
    let diags = lustre_parse("node f() returns (z: int);\nlet\n  z = ;\ntel").err().unwrap();
    assert_eq!(diags.len(), 1);
    assert_eq!(diags[0].kind, DiagnosticKind::Syntax);
    assert_eq!(diags[0].severity, Severity::Error);
    assert_eq!(diags[0].message, "Parsing Error : at 1:1");
    let diags = lustre_parse("node f() returns (z: int); let z = 1; tel\n  nod").err().unwrap();
    assert_eq!(diags[0].message, "Parsing Error : at 3:2");
    assert_eq!(diags[0].range.start, Position { line: 1, character: 2 });
}

#[test]
fn operators_group_by_binding() {
    let parsed = |text: &str| {
        let ast = parse(&format!("node f() returns (); let z = {text}; tel"));
        ast.nodes[0].let_bindings[0].1.to_text()
    };
    assert_eq!(parsed("1 + 2 * 3"), "1 + 2 * 3");
    assert_eq!(parsed("(1 + 2) * 3"), "(1 + 2) * 3");
    assert_eq!(parsed("1 - (2 - 3)"), "1 - (2 - 3)");
    assert_eq!(parsed("(1 - 2) - 3"), "1 - 2 - 3");
    assert_eq!(parsed("a -> b == c + d fby e"), "a -> b == c + d fby e");
    assert_eq!(parsed("((a -> b) == c)"), "(a -> b) == c");
    assert_eq!(parsed("- x + pre y"), "- x + pre y");
    assert_eq!(parsed("f ( ) + g(1,[2,3],(4,5),)"), "f() + g(1, [2, 3], (4, 5))");
    let ast = parse("node f() returns (); let z = 1 + 2 * 3; tel");
    let Expr::BinOp { op, rhs, span_op, .. } = &ast.nodes[0].let_bindings[0].1 else { panic!() };
    assert_eq!(*op, BinOp::Add);
    assert_eq!((span_op.get_column(), span_op.location_line()), (32, 1));
    assert!(matches!(**rhs, Expr::BinOp { op: BinOp::Mult, .. }));
}

#[test]
fn literals_are_read() {
    let chars = lustre_analyzer::parser::chars_of("42 0.5e3 true ( ) 99999999999999999999");
    let at = |pos| lustre_analyzer::grammar::Cursor { pos, line: 1, column: pos + 1 };
    let (v, to) = lustre_analyzer::parser::literal(&chars, at(0)).unwrap();
    assert_eq!((v, to.pos), (Value::Int(42), 2));
    let (v, to) = lustre_analyzer::parser::literal(&chars, at(3)).unwrap();
    assert_eq!((v, to.pos), (Value::Float("0.5e3".to_string()), 8));
    let (v, _) = lustre_analyzer::parser::literal(&chars, at(9)).unwrap();
    assert_eq!(v, Value::Bool(true));
    let (v, to) = lustre_analyzer::parser::literal(&chars, at(14)).unwrap();
    assert_eq!((v, to.pos), (Value::Unit, 17));
    assert!(lustre_analyzer::parser::literal(&chars, at(18)).is_none());
    assert!(lustre_analyzer::parser::integer(&chars, at(18)).is_none());
    let (name, to) = lustre_analyzer::parser::identifier(&chars, at(9)).unwrap();
    assert_eq!((name.fragment(), name.get_column(), to.pos), ("true".to_string(), 10, 13));
}

#[test]
fn a_choice_is_read_in_three_parts() {
    let chars = lustre_analyzer::parser::chars_of(" if a == 1 then b + 2 else pre c  ;");
    let start = lustre_analyzer::grammar::Cursor { pos: 0, line: 1, column: 1 };
    let ((cond, yes, no), to) = lustre_analyzer::parser::ifthenelse(&chars, start).unwrap();
    assert_eq!(cond.to_text(), "a == 1");
    assert_eq!(yes.to_text(), "b + 2");
    assert_eq!(no.to_text(), "pre c");
    assert_eq!(to.pos, 34);
    let chars = lustre_analyzer::parser::chars_of("if a then b");
    assert!(lustre_analyzer::parser::ifthenelse(&chars, start).is_none());
    let chars = lustre_analyzer::parser::chars_of("a then b else c");
    assert!(lustre_analyzer::parser::ifthenelse(&chars, start).is_none());
}

// edits

#[test]
fn a_text_has_its_lines() {
    let lines = lustre_analyzer::edits::lines_of;
    assert_eq!(lines(""), Vec::<String>::new());
    assert_eq!(lines("a"), vec!["a"]);
    assert_eq!(lines("a\n"), vec!["a"]);
    assert_eq!(lines("\n"), vec![""]);
    assert_eq!(lines("a\n\nb"), vec!["a", "", "b"]);
    assert_eq!(lines("a\r\nb\r"), vec!["a", "b\r"]);
    assert_eq!(lines("\r\n\r\n"), vec!["", ""]);
    for text in ["", "a", "a\n", "\n\n", "a\r\nb\r", "x\ry\n\rz", "\r", "\r\n", "tel\n\nnode"] {
        let expected: Vec<String> = text.lines().map(|l| l.to_string()).collect();
        assert_eq!(lines(text), expected);
    }
}

#[test]
fn a_program_is_written_out_line_by_line() {
    let ast = parse("node f(a: int) returns (z: int); let z = a + 1; tel node g() returns (); let tel");
    let edits = ast.text_edit();
    let text = ast.to_text();
    assert_eq!(edits.len(), text.lines().count());
    assert!(edits.len() >= 4);
    for (k, (edit, line)) in edits.iter().zip(text.lines()).enumerate() {
        let at = Position { line: k as u32, character: 0 };
        assert_eq!(edit.range, Range { start: at, end: at });
        assert_eq!(edit.new_text, line);
    }
    assert_eq!(Ast { nodes: vec![] }.text_edit(), vec![]);
}

// comparison of programs

#[test]
fn programs_compare_by_what_they_say() {
    let same = |a: &str, b: &str| {
        let mut eq = ShallowEq::new();
        eq.walk(&parse(a), &parse(b));
        eq.is_eq()
    };
    let program = "node f(x: int) returns (z: int); let z = x + 1 * 2; tel";
    assert!(same(program, "node   f ( x : int )\nreturns(z:int);let z=x+1*2;tel"));
    assert!(!same(program, "node g(x: int) returns (z: int); let z = x + 1 * 2; tel"));
    assert!(!same(program, "node f(y: int) returns (z: int); let z = x + 1 * 2; tel"));
    assert!(!same(program, "node f(x: bool) returns (z: int); let z = x + 1 * 2; tel"));
    assert!(!same(program, "node f(x: int) returns (z: int); let z = x + 1 * 3; tel"));
    assert!(!same(program, "node f(x: int) returns (z: int); let z = x - 1 * 2; tel"));
    assert!(!same(program, "node f(x: int) returns (z: int); let y = x + 1 * 2; tel"));
    assert!(!same(program, "#[test] node f(x: int) returns (z: int); let z = x + 1 * 2; tel"));
    assert!(!same(program, "node f(x: int) returns (z: int); let z = x + 1 * 2; z = 1; tel"));
    assert!(!same(program, &format!("{program} {program}")));
    assert!(same(program, "node f(x: int) returns (z: int); let z = y + 1 * 2; tel"));
    let mut eq = ShallowEq::new();
    assert!(eq.is_eq());
    eq.and(true);
    assert!(eq.is_eq());
    eq.and(false);
    assert!(!eq.is_eq());
    eq.and(true);
    assert!(!eq.is_eq());
    eq.set(true);
    assert!(eq.is_eq());
    eq.visit_literal(&Value::Unit, &Value::Unit);
    assert!(!eq.is_eq());
}

// odd programs

#[test]
fn odd_programs_are_analyzed_without_failing() {
    let programs = [
        "",
        "   \n\t ",
        "node f() returns (); let tel",
        "node f(x: int) returns (z: int); let z = z + x; tel",
        "node f(x: int) returns (z: int); let a = b; b = a; z = a; tel",
        "node f() returns (z: int); let z = f(); tel",
        "node f() returns (z: int); let z = g(); tel node g() returns (z: int); let z = f(); tel",
        "node f(a, b: int) returns (z: int); let z = a + b; tel #[test] node t() returns (z: bool); let z = f([1, 2], [1]) == [2]; tel",
        "node f(a: int) returns (z: int); let z = a; tel #[test] node t() returns (z: bool); let z = f([]) == []; tel",
        "#[test] node t() returns (z: bool); let z = (1, 2) == (1, 2); z = true; tel",
        "node f() returns (z: int); let z = 9223372036854775807 + 1; tel",
        "node f() returns (z: int); let z = 1 / 0 + - 4; tel",
        "node f() returns (z: float); let z = 1.5 + .25e-3 * 2.; tel",
        "node f() returns (z: int); let z = [[1, 2], [3, 4]] + [[1, 1], [1, 1]]; tel",
        "node f() returns (x, y: int); let x = 1 fby y; y = 2 fby x; tel #[test] node t() returns (z: bool); let z = f([(), ()]) == ([1, 2], [2, 1]); tel",
        "node f() returns (z: int); let z = pre pre pre 1; tel",
        "node f(x: int) returns (z: int); let z = 0 -> pre (0 -> pre x); tel",
    ];
    for program in programs {
        let ast = parse(program);
        let first = ast.check();
        assert_eq!(first, ast.check());
        let (folded, hints) = ast.propagate_const();
        assert_eq!(folded.nodes.len(), ast.nodes.len());
        assert!(hints.len() <= 16);
        for node in ast.nodes.iter() {
            if let Ok(mut compiled) = ast.compile(&node.name) {
                assert_eq!(compiled.to_text().is_empty(), false);
                let inputs = vec![Value::Int(1); node.inputs.len()];
                compiled.try_step(inputs.clone());
                compiled.try_step(inputs);
                assert_eq!(compiled.instant(), Instant::NonInitial);
            }
        }
        let text = ast.to_text();
        let again = parse(&text);
        assert_eq!(again.to_text(), text);
        ast.semantic_tokens_full();
        ast.document_hightlight();
    }
    let (folded, _) = parse(programs[14]).propagate_const();
    assert!(folded.nodes[1].is_only_true_equations());
    let (folded, _) = parse(programs[9]).propagate_const();
    assert!(folded.nodes[0].is_only_true_equations());
}
