//! What an editor is told about the text of a program: its tokens, and
//! the ranges of its names.
use vstd::prelude::*;
use crate::ast::{
    Ast, AstModel, Expr, ExprModel, Node, NodeModel, binding_views, expr_views,
    lemma_expr_items_view, param_views,
};
use crate::span::{Ident, Range, Span, SpanModel, clamp_u32};
use crate::types::{VarType, VarTypeModel};

verus! {

/// The kinds of token that an editor tells apart, in the order in which
/// they are announced to it.
#[derive(Debug, Clone, Copy, PartialEq, Eq, Structural)]
pub enum TokenType {
    Type,
    Parameter,
    Variable,
    Function,
    Keyword,
    Modifier,
    Comment,
    String,
    Number,
}

impl TokenType {
    /// The rank of the kind in the list of kinds.
    pub open spec fn rank(self) -> u32 {
        match self {
            TokenType::Type => 0,
            TokenType::Parameter => 1,
            TokenType::Variable => 2,
            TokenType::Function => 3,
            TokenType::Keyword => 4,
            TokenType::Modifier => 5,
            TokenType::Comment => 6,
            TokenType::String => 7,
            TokenType::Number => 8,
        }
    }

    /// The rank of the kind in the list of kinds.
    pub fn index(self) -> (r: u32)
        ensures
            r == self.rank(),
    {
        match self {
            TokenType::Type => 0,
            TokenType::Parameter => 1,
            TokenType::Variable => 2,
            TokenType::Function => 3,
            TokenType::Keyword => 4,
            TokenType::Modifier => 5,
            TokenType::Comment => 6,
            TokenType::String => 7,
            TokenType::Number => 8,
        }
    }

    /// The name under which an editor knows the kind.
    pub fn name(self) -> (s: &'static str)
        ensures
            s@ == self.name_text(),
    {
        match self {
            TokenType::Type => "type",
            TokenType::Parameter => "parameter",
            TokenType::Variable => "variable",
            TokenType::Function => "function",
            TokenType::Keyword => "keyword",
            TokenType::Modifier => "modifier",
            TokenType::Comment => "comment",
            TokenType::String => "string",
            TokenType::Number => "number",
        }
    }

    /// The name under which an editor knows the kind.
    pub open spec fn name_text(self) -> Seq<char> {
        match self {
            TokenType::Type => "type"@,
            TokenType::Parameter => "parameter"@,
            TokenType::Variable => "variable"@,
            TokenType::Function => "function"@,
            TokenType::Keyword => "keyword"@,
            TokenType::Modifier => "modifier"@,
            TokenType::Comment => "comment"@,
            TokenType::String => "string"@,
            TokenType::Number => "number"@,
        }
    }

    /// The kinds, each at the position of its rank.
    pub fn to_vec() -> (v: Vec<TokenType>)
        ensures
            v.len() == 9,
            forall|i: int| 0 <= i < v.len() ==> (#[trigger] v[i]).rank() == i,
    {
        let mut v: Vec<TokenType> = Vec::new();
        v.push(TokenType::Type);
        v.push(TokenType::Parameter);
        v.push(TokenType::Variable);
        v.push(TokenType::Function);
        v.push(TokenType::Keyword);
        v.push(TokenType::Modifier);
        v.push(TokenType::Comment);
        v.push(TokenType::String);
        v.push(TokenType::Number);
        v
    }
}

/// A token as an editor takes it: where it starts, how long it is and of
/// which kind. In a list for an editor, the place of each token is given
/// from the token before it.
#[derive(Debug, Clone, Copy, PartialEq, Eq, Structural)]
pub struct SemanticToken {
    pub delta_line: u32,
    pub delta_start: u32,
    pub length: u32,
    pub token_type: u32,
    pub token_modifiers_bitset: u32,
}

impl SpanModel {
    /// The token of the span, at its own place: its line and column
    /// counted from zero.
    pub open spec fn token(self, token_type: TokenType) -> SemanticToken {
        SemanticToken {
            delta_line: clamp_u32(self.line - 1),
            delta_start: clamp_u32(self.column - 1),
            length: clamp_u32(self.fragment.len() as int),
            token_type: token_type.rank(),
            token_modifiers_bitset: 0,
        }
    }
}

impl Span {
    /// The token of the span, at its own place.
    pub fn to_semantic_token(&self, token_type: TokenType) -> (t: SemanticToken)
        ensures
            t == self@.token(token_type),
    {
        let length = self.text().unicode_len();
        let column = self.get_column();
        SemanticToken {
            delta_line: self.location_line().saturating_sub(1),
            delta_start: if column == 0 {
                0
            } else if column - 1 > u32::MAX as usize {
                u32::MAX
            } else {
                (column - 1) as u32
            },
            length: if length > u32::MAX as usize {
                u32::MAX
            } else {
                length as u32
            },
            token_type: token_type.index(),
            token_modifiers_bitset: 0,
        }
    }
}

/// The difference of two numbers, or zero where the second is greater.
pub open spec fn minus(a: u32, b: u32) -> u32 {
    if a >= b {
        (a - b) as u32
    } else {
        0
    }
}

/// A token with its place given from the token before it: lines down
/// from it, and columns right of it where both stand on one line.
pub open spec fn relative_to(current: SemanticToken, last: SemanticToken) -> SemanticToken {
    SemanticToken {
        delta_line: minus(current.delta_line, last.delta_line),
        delta_start: if current.delta_line == last.delta_line {
            minus(current.delta_start, last.delta_start)
        } else {
            current.delta_start
        },
        ..current
    }
}

/// The tokens, each but the first with its place given from the one before.
pub open spec fn relative(tokens: Seq<SemanticToken>) -> Seq<SemanticToken> {
    Seq::new(
        tokens.len(),
        |i: int|
            if i == 0 {
                tokens[0]
            } else {
                relative_to(tokens[i], tokens[i - 1])
            },
    )
}

/// Gives each token but the first its place from the token before it.
pub fn compile_tokens(tokens: &mut Vec<SemanticToken>)
    ensures
        final(tokens)@ == relative(old(tokens)@),
{
    let ghost start = tokens@;
    let mut i: usize = tokens.len();
    while i > 1
        invariant
            i <= tokens.len(),
            tokens.len() == start.len(),
            forall|j: int| 0 <= j < i ==> tokens[j] == start[j],
            forall|j: int| i <= j < tokens.len() && j >= 1 ==> tokens[j] == relative(start)[j],
            i == 0 ==> tokens.len() == 0,
        decreases i,
    {
        i -= 1;
        let current = tokens[i];
        let last = tokens[i - 1];
        tokens.set(
            i,
            SemanticToken {
                delta_line: current.delta_line.saturating_sub(last.delta_line),
                delta_start: if current.delta_line == last.delta_line {
                    current.delta_start.saturating_sub(last.delta_start)
                } else {
                    current.delta_start
                },
                length: current.length,
                token_type: current.token_type,
                token_modifiers_bitset: current.token_modifiers_bitset,
            },
        );
    }
    assert(tokens@ =~= relative(start));
}

/// The spans of the names of the first `n` expressions of a list, in the
/// order of the text.
pub open spec fn items_spans(items: Seq<ExprModel>, n: int) -> Seq<SpanModel>
    decreases items, n,
{
    if n <= 0 || n > items.len() {
        Seq::empty()
    } else {
        items_spans(items, n - 1) + items[n - 1].spans()
    }
}

impl ExprModel {
    /// The spans of the names in the expression, in the order of the text:
    /// the variables and the names of called nodes.
    pub open spec fn spans(self) -> Seq<SpanModel>
        decreases self, 0int,
    {
        match self {
            ExprModel::BinOp { lhs, op, span_op, rhs } => lhs.spans() + rhs.spans(),
            ExprModel::UnaryOp { op, span_op, rhs } => rhs.spans(),
            ExprModel::Lit(_) => Seq::empty(),
            ExprModel::Array(items) => items_spans(items, items.len() as int),
            ExprModel::Tuple(items) => items_spans(items, items.len() as int),
            ExprModel::FCall { name, args } => seq![name] + items_spans(args, args.len() as int),
            ExprModel::Variable(name) => seq![name],
            ExprModel::If { cond, yes, no } => cond.spans() + yes.spans() + no.spans(),
        }
    }
}

/// The names of the first `n` parameters.
pub open spec fn param_spans(params: Seq<(SpanModel, VarTypeModel)>, n: int) -> Seq<SpanModel>
    decreases n,
{
    if n <= 0 || n > params.len() {
        Seq::empty()
    } else {
        param_spans(params, n - 1).push(params[n - 1].0)
    }
}

/// The names in the first `n` equations: the name that each defines, then
/// the names in its expression.
pub open spec fn binding_spans(bindings: Seq<(SpanModel, ExprModel)>, n: int) -> Seq<SpanModel>
    decreases n,
{
    if n <= 0 || n > bindings.len() {
        Seq::empty()
    } else {
        binding_spans(bindings, n - 1).push(bindings[n - 1].0) + bindings[n - 1].1.spans()
    }
}

/// Each span as a token of one kind.
pub open spec fn as_tokens(spans: Seq<SpanModel>, token_type: TokenType) -> Seq<SemanticToken> {
    Seq::new(spans.len(), |i: int| spans[i].token(token_type))
}

impl NodeModel {
    /// The names in the node, in the order in which they are visited: its
    /// own, its inputs, its local variables, its outputs, its equations.
    pub open spec fn spans(self) -> Seq<SpanModel> {
        seq![self.name] + param_spans(self.inputs, self.inputs.len() as int) + param_spans(
            self.vars,
            self.vars.len() as int,
        ) + param_spans(self.outputs, self.outputs.len() as int) + binding_spans(
            self.let_bindings,
            self.let_bindings.len() as int,
        )
    }

    /// The tokens of the node, each at its own place: the keywords `node`,
    /// `returns`, `let` and `tel`, and between them the names as variables.
    pub open spec fn tokens(self) -> Seq<SemanticToken> {
        seq![self.span_node.token(TokenType::Keyword), self.name.token(TokenType::Variable)]
            + as_tokens(
            param_spans(self.inputs, self.inputs.len() as int),
            TokenType::Variable,
        ) + seq![self.span_returns.token(TokenType::Keyword)] + as_tokens(
            param_spans(self.outputs, self.outputs.len() as int),
            TokenType::Variable,
        ) + as_tokens(param_spans(self.vars, self.vars.len() as int), TokenType::Variable)
            + seq![self.span_let.token(TokenType::Keyword)] + as_tokens(
            binding_spans(self.let_bindings, self.let_bindings.len() as int),
            TokenType::Variable,
        ) + seq![self.span_tel.token(TokenType::Keyword)]
    }
}

impl AstModel {
    /// The names in the first `n` nodes.
    pub open spec fn spans_upto(self, n: int) -> Seq<SpanModel>
        decreases n,
    {
        if n <= 0 || n > self.nodes.len() {
            Seq::empty()
        } else {
            self.spans_upto(n - 1) + self.nodes[n - 1].spans()
        }
    }

    /// The tokens of the first `n` nodes, each at its own place.
    pub open spec fn tokens_upto(self, n: int) -> Seq<SemanticToken>
        decreases n,
    {
        if n <= 0 || n > self.nodes.len() {
            Seq::empty()
        } else {
            self.tokens_upto(n - 1) + self.nodes[n - 1].tokens()
        }
    }
}

/// The ranges of a list of spans.
pub open spec fn ranges_of(spans: Seq<SpanModel>) -> Seq<Range> {
    Seq::new(spans.len(), |i: int| spans[i].to_range())
}

/// The models of the spans that were gathered.
pub open spec fn gathered(spans: Seq<Span>) -> Seq<SpanModel> {
    Seq::new(spans.len(), |i: int| spans[i]@)
}

fn gather_items(items: &Vec<Expr>, out: &mut Vec<Span>)
    ensures
        gathered(final(out)@) == gathered(old(out)@) + items_spans(
            expr_views(items@),
            items.len() as int,
        ),
    decreases items,
{
    let ghost start = gathered(out@);
    let ghost models = expr_views(items@);
    let mut k: usize = 0;
    assert(gathered(out@) =~= start + items_spans(models, 0));
    while k < items.len()
        invariant
            k <= items.len(),
            models == expr_views(items@),
            gathered(out@) == start + items_spans(models, k as int),
        decreases items.len() - k,
    {
        proof {
            broadcast use vstd::std_specs::vec::axiom_vec_index_decreases;

        }
        gather_expr(&items[k], out);
        assert(gathered(out@) =~= start + items_spans(models, k + 1));
        k += 1;
    }
}

fn gather_expr(e: &Expr, out: &mut Vec<Span>)
    ensures
        gathered(final(out)@) == gathered(old(out)@) + e@.spans(),
    decreases e,
{
    let ghost start = gathered(out@);
    proof {
        lemma_expr_items_view(*e);
    }
    match e {
        Expr::BinOp { lhs, op: _, span_op: _, rhs } => {
            gather_expr(lhs, out);
            gather_expr(rhs, out);
            assert(gathered(out@) =~= start + e@.spans());
        },
        Expr::UnaryOp { op: _, span_op: _, rhs } => {
            gather_expr(rhs, out);
        },
        Expr::Lit(_) => {
            assert(gathered(out@) =~= start + e@.spans());
        },
        Expr::Array(items) => {
            gather_items(items, out);
        },
        Expr::Tuple(items) => {
            gather_items(items, out);
        },
        Expr::FCall { name, args } => {
            out.push(name.copy());
            assert(gathered(out@) =~= start + seq![name@]);
            gather_items(args, out);
            assert(gathered(out@) =~= start + e@.spans());
        },
        Expr::Variable(name) => {
            out.push(name.copy());
            assert(gathered(out@) =~= start + e@.spans());
        },
        Expr::If { cond, yes, no } => {
            gather_expr(cond, out);
            gather_expr(yes, out);
            gather_expr(no, out);
            assert(gathered(out@) =~= start + e@.spans());
        },
    }
}

fn gather_params(params: &Vec<(Ident, VarType)>, out: &mut Vec<Span>)
    ensures
        gathered(final(out)@) == gathered(old(out)@) + param_spans(
            param_views(params@),
            params.len() as int,
        ),
{
    let ghost start = gathered(out@);
    let ghost models = param_views(params@);
    let mut k: usize = 0;
    assert(gathered(out@) =~= start + param_spans(models, 0));
    while k < params.len()
        invariant
            k <= params.len(),
            models == param_views(params@),
            gathered(out@) == start + param_spans(models, k as int),
        decreases params.len() - k,
    {
        let ghost before = gathered(out@);
        out.push(params[k].0.copy());
        assert(gathered(out@) =~= before.push(params[k as int].0@));
        assert(models[k as int].0 == params[k as int].0@);
        assert(gathered(out@) =~= start + param_spans(models, k + 1));
        k += 1;
    }
}

fn gather_bindings(bindings: &Vec<(Ident, Expr)>, out: &mut Vec<Span>)
    ensures
        gathered(final(out)@) == gathered(old(out)@) + binding_spans(
            binding_views(bindings@),
            bindings.len() as int,
        ),
{
    let ghost start = gathered(out@);
    let ghost models = binding_views(bindings@);
    let mut k: usize = 0;
    assert(gathered(out@) =~= start + binding_spans(models, 0));
    while k < bindings.len()
        invariant
            k <= bindings.len(),
            models == binding_views(bindings@),
            gathered(out@) == start + binding_spans(models, k as int),
        decreases bindings.len() - k,
    {
        let ghost before = gathered(out@);
        out.push(bindings[k].0.copy());
        assert(gathered(out@) =~= before.push(bindings[k as int].0@));
        gather_expr(&bindings[k].1, out);
        assert(models[k as int] == (bindings[k as int].0@, bindings[k as int].1@));
        assert(gathered(out@) =~= start + binding_spans(models, k + 1));
        k += 1;
    }
}

fn push_tokens(spans: &Vec<Span>, token_type: TokenType, out: &mut Vec<SemanticToken>)
    ensures
        final(out)@ == old(out)@ + as_tokens(gathered(spans@), token_type),
{
    let ghost start = out@;
    let mut k: usize = 0;
    assert(out@ =~= start + as_tokens(gathered(spans@), token_type).subrange(0, 0));
    while k < spans.len()
        invariant
            k <= spans.len(),
            out@ == start + as_tokens(gathered(spans@), token_type).subrange(0, k as int),
        decreases spans.len() - k,
    {
        out.push(spans[k].to_semantic_token(token_type));
        assert(out@ =~= start + as_tokens(gathered(spans@), token_type).subrange(0, k + 1));
        k += 1;
    }
    assert(as_tokens(gathered(spans@), token_type).subrange(0, spans.len() as int) =~= as_tokens(
        gathered(spans@),
        token_type,
    ));
}

impl Node {
    /// The names in the node, in the order in which they are visited.
    pub fn spans(&self) -> (r: Vec<Span>)
        ensures
            gathered(r@) == self@.spans(),
    {
        let mut out: Vec<Span> = Vec::new();
        out.push(self.name.copy());
        assert(gathered(out@) =~= seq![self@.name]);
        gather_params(&self.inputs, &mut out);
        gather_params(&self.vars, &mut out);
        gather_params(&self.outputs, &mut out);
        gather_bindings(&self.let_bindings, &mut out);
        out
    }

    /// The tokens of the node, each at its own place.
    pub fn tokens(&self) -> (r: Vec<SemanticToken>)
        ensures
            r@ == self@.tokens(),
    {
        let mut out: Vec<SemanticToken> = Vec::new();
        out.push(self.span_node.to_semantic_token(TokenType::Keyword));
        out.push(self.name.to_semantic_token(TokenType::Variable));
        assert(out@ =~= seq![
            self@.span_node.token(TokenType::Keyword),
            self@.name.token(TokenType::Variable),
        ]);
        let mut names: Vec<Span> = Vec::new();
        assert(gathered(names@) =~= Seq::empty());
        gather_params(&self.inputs, &mut names);
        assert(gathered(names@) =~= param_spans(self@.inputs, self@.inputs.len() as int));
        push_tokens(&names, TokenType::Variable, &mut out);
        let ghost before_returns = out@;
        out.push(self.span_returns.to_semantic_token(TokenType::Keyword));
        assert(out@ =~= before_returns + seq![self@.span_returns.token(TokenType::Keyword)]);
        let mut names: Vec<Span> = Vec::new();
        assert(gathered(names@) =~= Seq::empty());
        gather_params(&self.outputs, &mut names);
        assert(gathered(names@) =~= param_spans(self@.outputs, self@.outputs.len() as int));
        push_tokens(&names, TokenType::Variable, &mut out);
        let mut names: Vec<Span> = Vec::new();
        assert(gathered(names@) =~= Seq::empty());
        gather_params(&self.vars, &mut names);
        assert(gathered(names@) =~= param_spans(self@.vars, self@.vars.len() as int));
        push_tokens(&names, TokenType::Variable, &mut out);
        let ghost before_let = out@;
        out.push(self.span_let.to_semantic_token(TokenType::Keyword));
        assert(out@ =~= before_let + seq![self@.span_let.token(TokenType::Keyword)]);
        let mut names: Vec<Span> = Vec::new();
        assert(gathered(names@) =~= Seq::empty());
        gather_bindings(&self.let_bindings, &mut names);
        assert(gathered(names@) =~= binding_spans(
            self@.let_bindings,
            self@.let_bindings.len() as int,
        ));
        push_tokens(&names, TokenType::Variable, &mut out);
        let ghost before_tel = out@;
        out.push(self.span_tel.to_semantic_token(TokenType::Keyword));
        assert(out@ =~= before_tel + seq![self@.span_tel.token(TokenType::Keyword)]);
        out
    }
}

/// Gathers the ranges of the names of a program for an editor to
/// highlight.
pub struct DocumentHighlightVisitor {
    pub hightlights: Vec<Range>,
}

impl DocumentHighlightVisitor {
    /// A visitor that has gathered nothing.
    pub fn new() -> (r: DocumentHighlightVisitor)
        ensures
            r.hightlights@ == Seq::<Range>::empty(),
    {
        DocumentHighlightVisitor { hightlights: Vec::new() }
    }

    /// Takes in the range of a span.
    pub fn visit_span(&mut self, x: &Span)
        ensures
            final(self).hightlights@ == old(self).hightlights@.push(x@.to_range()),
    {
        self.hightlights.push(x.to_range());
    }

    /// Takes in the range of each name of the program, in the order in
    /// which the names are visited.
    pub fn walk(&mut self, ast: &Ast)
        ensures
            final(self).hightlights@ == old(self).hightlights@ + ranges_of(
                ast@.spans_upto(ast@.nodes.len() as int),
            ),
    {
        let ghost start = self.hightlights@;
        let mut k: usize = 0;
        assert(self.hightlights@ =~= start + ranges_of(ast@.spans_upto(0)));
        while k < ast.nodes.len()
            invariant
                k <= ast.nodes.len(),
                self.hightlights@ == start + ranges_of(ast@.spans_upto(k as int)),
            decreases ast.nodes.len() - k,
        {
            let spans = ast.nodes[k].spans();
            let ghost before = self.hightlights@;
            let mut j: usize = 0;
            while j < spans.len()
                invariant
                    j <= spans.len(),
                    self.hightlights@ == before + ranges_of(gathered(spans@)).subrange(0, j as int),
                decreases spans.len() - j,
            {
                self.visit_span(&spans[j]);
                assert(self.hightlights@ =~= before + ranges_of(gathered(spans@)).subrange(
                    0,
                    j + 1,
                ));
                j += 1;
            }
            assert(self.hightlights@ =~= start + ranges_of(ast@.spans_upto(k + 1)));
            k += 1;
        }
    }

    /// What was gathered.
    pub fn hightlights(self) -> (r: Vec<Range>)
        ensures
            r@ == self.hightlights@,
    {
        self.hightlights
    }
}

impl Ast {
    /// The range of each name of the program, in the order in which the
    /// names are visited, for an editor to highlight.
    pub fn document_hightlight(&self) -> (r: Vec<Range>)
        ensures
            r@ == ranges_of(self@.spans_upto(self@.nodes.len() as int)),
    {
        let mut visitor = DocumentHighlightVisitor::new();
        visitor.walk(self);
        assert(visitor.hightlights@ =~= ranges_of(self@.spans_upto(self@.nodes.len() as int)));
        visitor.hightlights()
    }

    /// The tokens of the program for an editor: the keywords and names of
    /// each node in the order of the text, the place of each token but the
    /// first given from the token before it.
    pub fn semantic_tokens_full(&self) -> (r: Vec<SemanticToken>)
        ensures
            r@ == relative(self@.tokens_upto(self@.nodes.len() as int)),
    {
        let mut out: Vec<SemanticToken> = Vec::new();
        let mut k: usize = 0;
        assert(out@ =~= self@.tokens_upto(0));
        while k < self.nodes.len()
            invariant
                k <= self.nodes.len(),
                out@ == self@.tokens_upto(k as int),
            decreases self.nodes.len() - k,
        {
            let mut tokens = self.nodes[k].tokens();
            let ghost before = out@;
            out.append(&mut tokens);
            assert(out@ =~= self@.tokens_upto(k + 1));
            k += 1;
        }
        compile_tokens(&mut out);
        out
    }
}

} // verus!
