//! Compiled nodes: building them, scheduling them and stepping them.
use vstd::prelude::*;
use vstd::string::*;
use crate::compiled_expr::{CompiledExpr, cexpr_views};
use crate::expr_index::ExprIndex;
use crate::instant::Instant;
use crate::node_model::{
    CNodeModel, eval_upto, feed, find_from, indices_below, lemma_eval_len, lemma_feed_len,
    lemma_read_outputs_none, min_len, push_exprs, push_position, read_outputs,
};
use crate::schedule_model::{
    Walk, fresh_walk, index_upto, is_permutation, lemma_schedule_order_is_permutation,
    lemma_scheduled_well_formed, remap, remap_index, schedule_index, schedule_order, visit,
    visit_all, visit_roots,
};
use crate::value::{Value, option_value_views, value_views};

verus! {

/// A node lowered to a flat graph of expressions.
///
/// `infos` holds one human-readable tag per expression; evaluation never
/// reads it.
#[derive(Debug)]
pub struct CompiledNode {
    exprs: Vec<CompiledExpr>,
    infos: Vec<String>,
    inputs: Vec<ExprIndex>,
    outputs: Vec<ExprIndex>,
    values: Vec<Option<Value>>,
    instant: Instant,
}

impl View for CompiledNode {
    type V = CNodeModel;

    closed spec fn view(&self) -> CNodeModel {
        CNodeModel {
            exprs: cexpr_views(self.exprs@),
            infos: text_views(self.infos@),
            inputs: self.inputs@,
            outputs: self.outputs@,
            values: option_value_views(self.values@),
            instant: self.instant,
        }
    }
}

/// The texts of a list of strings.
pub open spec fn text_views(v: Seq<String>) -> Seq<Seq<char>> {
    Seq::new(v.len(), |i: int| v[i]@)
}

/// The positions of a pile as mathematical integers.
pub open spec fn positions(pile: Seq<usize>) -> Seq<int> {
    Seq::new(pile.len(), |i: int| pile[i] as int)
}

fn is_pre(e: &CompiledExpr) -> (b: bool)
    ensures
        b == (e@ is Pre),
{
    match e {
        CompiledExpr::Pre { .. } => true,
        _ => false,
    }
}

fn is_slot(e: &CompiledExpr) -> (b: bool)
    ensures
        b == (e@ is Input || e@ is Output),
{
    match e {
        CompiledExpr::Input => true,
        CompiledExpr::Output => true,
        _ => false,
    }
}

fn is_input(e: &CompiledExpr) -> (b: bool)
    ensures
        b == (e@ is Input),
{
    match e {
        CompiledExpr::Input => true,
        _ => false,
    }
}

fn remap_one(i: ExprIndex, new_index: &Vec<ExprIndex>) -> (r: ExprIndex)
    ensures
        r == remap_index(i, new_index@),
{
    let k = i.to_usize();
    if k < new_index.len() {
        new_index[k]
    } else {
        i
    }
}

fn remap_expr(e: &CompiledExpr, new_index: &Vec<ExprIndex>) -> (r: CompiledExpr)
    ensures
        r@ == remap(e@, new_index@),
{
    match e {
        CompiledExpr::Input => CompiledExpr::Input,
        CompiledExpr::Output => CompiledExpr::Output,
        CompiledExpr::Lit(v) => CompiledExpr::Lit(v.copy()),
        CompiledExpr::Pre { src } => CompiledExpr::Pre { src: remap_one(*src, new_index) },
        CompiledExpr::Variable(i) => CompiledExpr::Variable(remap_one(*i, new_index)),
        CompiledExpr::UnaryOp { op, rhs } => CompiledExpr::UnaryOp {
            op: *op,
            rhs: remap_one(*rhs, new_index),
        },
        CompiledExpr::BinOp { lhs, op, rhs } => CompiledExpr::BinOp {
            lhs: remap_one(*lhs, new_index),
            op: *op,
            rhs: remap_one(*rhs, new_index),
        },
        CompiledExpr::If { cond, yes, no } => CompiledExpr::If {
            cond: remap_one(*cond, new_index),
            yes: remap_one(*yes, new_index),
            no: remap_one(*no, new_index),
        },
    }
}

fn remap_list(list: &Vec<ExprIndex>, new_index: &Vec<ExprIndex>) -> (r: Vec<ExprIndex>)
    ensures
        r@ == Seq::new(list@.len(), |j: int| remap_index(list@[j], new_index@)),
{
    let mut r: Vec<ExprIndex> = Vec::new();
    let mut j: usize = 0;
    while j < list.len()
        invariant
            j <= list.len(),
            r.len() == j,
            forall|k: int| 0 <= k < j ==> r[k] == remap_index(list[k], new_index@),
        decreases list.len() - j,
    {
        r.push(remap_one(list[j], new_index));
        j += 1;
    }
    assert(r@ =~= Seq::new(list@.len(), |j: int| remap_index(list@[j], new_index@)));
    r
}

impl CompiledNode {
    /// The invariant of a compiled node: its model is well-formed.
    pub closed spec fn wf(&self) -> bool {
        self@.well_formed()
    }

    /// A node that holds its invariant has a well-formed model.
    pub proof fn lemma_wf(&self)
        requires
            self.wf(),
        ensures
            self@.well_formed(),
    {
    }

    /// The empty node, before its first step.
    pub fn new() -> (r: CompiledNode)
        ensures
            r@ == CNodeModel::empty(),
            r.wf(),
    {
        let r = CompiledNode {
            exprs: Vec::new(),
            infos: Vec::new(),
            inputs: Vec::new(),
            outputs: Vec::new(),
            values: Vec::new(),
            instant: Instant::Initial,
        };
        assert(r@.exprs =~= Seq::empty());
        assert(r@.values =~= Seq::empty());
        assert(r@.infos =~= Seq::empty());
        r
    }

    /// The number of expressions.
    pub fn len(&self) -> (n: usize)
        ensures
            n == self@.exprs.len(),
    {
        self.exprs.len()
    }

    /// Whether the node has no expression.
    pub fn is_empty(&self) -> (b: bool)
        ensures
            b == (self@.exprs.len() == 0),
    {
        self.exprs.len() == 0
    }

    /// The expressions, in order.
    pub fn exprs(&self) -> (r: &Vec<CompiledExpr>)
        ensures
            cexpr_views(r@) == self@.exprs,
    {
        &self.exprs
    }

    /// The tags of the expressions.
    pub fn infos(&self) -> (r: &Vec<String>)
        ensures
            text_views(r@) == self@.infos,
    {
        &self.infos
    }

    /// The indices of the input slots.
    pub fn inputs(&self) -> (r: &Vec<ExprIndex>)
        ensures
            r@ == self@.inputs,
    {
        &self.inputs
    }

    /// The indices of the expressions that feed the outputs.
    pub fn outputs(&self) -> (r: &Vec<ExprIndex>)
        ensures
            r@ == self@.outputs,
    {
        &self.outputs
    }

    /// The value slots.
    pub fn values(&self) -> (r: &Vec<Option<Value>>)
        ensures
            option_value_views(r@) == self@.values,
    {
        &self.values
    }

    /// The instant of the next step.
    pub fn instant(&self) -> (r: Instant)
        ensures
            r == self@.instant,
    {
        self.instant
    }

    /// The index that the next new expression gets.
    pub fn back_index(&self) -> (r: ExprIndex)
        requires
            self.wf(),
        ensures
            r.index() == self@.exprs.len(),
    {
        ExprIndex::new(self.exprs.len())
    }

    /// Sets the input slots.
    pub fn set_inputs(&mut self, inputs: Vec<ExprIndex>)
        requires
            old(self).wf(),
            indices_below(inputs@, old(self)@.exprs.len() as int),
        ensures
            final(self).wf(),
            final(self)@ == (CNodeModel { inputs: inputs@, ..old(self)@ }),
    {
        self.inputs = inputs;
    }

    /// Sets the expressions that feed the outputs.
    pub fn set_outputs(&mut self, outputs: Vec<ExprIndex>)
        requires
            old(self).wf(),
            indices_below(outputs@, old(self)@.exprs.len() as int),
        ensures
            final(self).wf(),
            final(self)@ == (CNodeModel { outputs: outputs@, ..old(self)@ }),
    {
        self.outputs = outputs;
    }

    /// Empties every value slot.
    pub fn set_values_to_none(&mut self)
        requires
            old(self).wf(),
        ensures
            final(self).wf(),
            final(self)@ == (CNodeModel {
                values: Seq::new(old(self)@.exprs.len(), |i: int| None),
                ..old(self)@
            }),
    {
        let mut values: Vec<Option<Value>> = Vec::new();
        let mut i: usize = 0;
        while i < self.exprs.len()
            invariant
                i <= self.exprs.len(),
                values.len() == i,
                forall|j: int| 0 <= j < i ==> values[j] is None,
            decreases self.exprs.len() - i,
        {
            values.push(None);
            i += 1;
        }
        self.values = values;
        assert(self@.values =~= Seq::new(old(self)@.exprs.len(), |i: int| None));
    }

    /// Puts `expr` before the expression at `index` and adds an empty value
    /// slot. The expressions from `index` on move one place up, and
    /// nothing else is changed: neither the indices that refer to them nor
    /// the tags.
    pub fn insert_expr(&mut self, index: usize, expr: CompiledExpr)
        requires
            index <= old(self)@.exprs.len(),
        ensures
            final(self)@ == (CNodeModel {
                exprs: old(self)@.exprs.insert(index as int, expr@),
                values: old(self)@.values.push(None),
                ..old(self)@
            }),
    {
        let ghost before = self@;
        self.exprs.insert(index, expr);
        self.values.push(None);
        assert(self@.exprs =~= before.exprs.insert(index as int, expr@));
        assert(self@.values =~= before.values.push(None));
    }

    /// Puts the tag `info` before the tag at `index` and adds an empty
    /// value slot. The tags from `index` on move one place up, and nothing
    /// else is changed.
    pub fn insert_info(&mut self, index: usize, info: String)
        requires
            index <= old(self)@.infos.len(),
        ensures
            final(self)@ == (CNodeModel {
                infos: old(self)@.infos.insert(index as int, info@),
                values: old(self)@.values.push(None),
                ..old(self)@
            }),
    {
        let ghost before = self@;
        self.infos.insert(index, info);
        self.values.push(None);
        assert(self@.infos =~= before.infos.insert(index as int, info@));
        assert(self@.values =~= before.values.push(None));
    }

    /// Puts `expr` in the place of the expression at `index`.
    pub fn replace_expr(&mut self, expr: CompiledExpr, index: ExprIndex)
        requires
            old(self).wf(),
            index.index() < old(self)@.exprs.len(),
            expr@.in_bounds(old(self)@.exprs.len() as int),
        ensures
            final(self).wf(),
            final(self)@ == (CNodeModel {
                exprs: old(self)@.exprs.update(index.index(), expr@),
                ..old(self)@
            }),
    {
        let ghost before = self@.exprs;
        self.exprs.set(index.to_usize(), expr);
        assert(self@.exprs =~= before.update(index.index(), expr@));
        assert forall|i: int| 0 <= i < self@.exprs.len() implies (#[trigger] self@.exprs[i]).in_bounds(
            self@.exprs.len() as int,
        ) by {
            if i != index.index() {
                assert(before[i].in_bounds(before.len() as int));
            }
        }
    }

    /// Puts the tag `info` before the tag of the expression at `index`.
    pub fn add_info(&mut self, index: ExprIndex, info: String)
        requires
            old(self).wf(),
            index.index() < old(self)@.exprs.len(),
        ensures
            final(self).wf(),
            final(self)@ == (CNodeModel {
                infos: old(self)@.infos.update(
                    index.index(),
                    info@ + " - "@ + old(self)@.infos[index.index()],
                ),
                ..old(self)@
            }),
    {
        let ghost before = self@.infos;
        let mut tag = info;
        tag.append(" - ");
        tag.append(self.infos[index.to_usize()].as_str());
        self.infos.set(index.to_usize(), tag);
        assert(self@.infos =~= before.update(index.index(), tag@));
    }

    /// Adds an expression and its tag at the end of two lists and gives
    /// the index of the expression.
    pub fn push_back_expr_core(
        exprs: &mut Vec<CompiledExpr>,
        infos: &mut Vec<String>,
        expr: CompiledExpr,
        info: String,
    ) -> (r: ExprIndex)
        requires
            old(exprs).len() <= u32::MAX,
        ensures
            final(exprs)@ == old(exprs)@.push(expr),
            final(infos)@ == old(infos)@.push(info),
            r.index() == old(exprs).len(),
    {
        exprs.push(expr);
        infos.push(info);
        ExprIndex::new(exprs.len() - 1)
    }

    /// Adds an expression at the end, whether or not an equal one is there.
    pub fn push_expr_core(&mut self, expr: CompiledExpr, info: String) -> (r: ExprIndex)
        requires
            old(self).wf(),
            old(self)@.exprs.len() < u32::MAX,
            expr@.in_bounds(old(self)@.exprs.len() as int + 1),
        ensures
            final(self).wf(),
            final(self)@ == old(self)@.appended(expr@, info@),
            r.index() == old(self)@.exprs.len(),
    {
        let ghost before = self@;
        let r = CompiledNode::push_back_expr_core(&mut self.exprs, &mut self.infos, expr, info);
        self.values.push(None);
        assert(self@.exprs =~= before.exprs.push(expr@));
        assert(self@.values =~= before.values.push(None));
        assert(self@.infos =~= before.infos.push(info@));
        assert forall|i: int| 0 <= i < self@.exprs.len() implies (#[trigger] self@.exprs[i]).in_bounds(
            self@.exprs.len() as int,
        ) by {
            if i < before.exprs.len() {
                assert(before.exprs[i].in_bounds(before.exprs.len() as int));
            }
        }
        r
    }

    /// Adds an expression unless an equal one is there already, and gives
    /// the index at which it stands. Input and output slots are always new.
    pub fn push_expr(&mut self, expr: CompiledExpr, info: String) -> (r: ExprIndex)
        requires
            old(self).wf(),
            old(self)@.exprs.len() < u32::MAX,
            expr@.in_bounds(old(self)@.exprs.len() as int + 1),
        ensures
            final(self).wf(),
            final(self)@ == old(self)@.pushed(expr@, info@),
            r.index() == push_position(old(self)@.exprs, expr@),
            r.index() < final(self)@.exprs.len(),
            old(self)@.exprs.len() <= final(self)@.exprs.len() <= old(self)@.exprs.len() + 1,
    {
        if !is_slot(&expr) {
            let mut i: usize = 0;
            while i < self.exprs.len()
                invariant
                    i <= self.exprs.len(),
                    *self == *old(self),
                    self.wf(),
                    self@.exprs.len() < u32::MAX,
                    !(expr@ is Input || expr@ is Output),
                    find_from(self@.exprs, expr@, 0) == find_from(self@.exprs, expr@, i as int),
                decreases self.exprs.len() - i,
            {
                if self.exprs[i].same(&expr) {
                    assert(find_from(self@.exprs, expr@, i as int) == Some(i as int));
                    assert(push_position(self@.exprs, expr@) == i);
                    assert(self@ == old(self)@.pushed(expr@, info@));
                    return ExprIndex::new(i);
                }
                i += 1;
            }
            assert(find_from(self@.exprs, expr@, 0) is None);
        }
        assert(push_position(self@.exprs, expr@) == self@.exprs.len());
        self.push_expr_core(expr, info)
    }

    /// Copies the expression at `index` and its tag to the end of two lists.
    pub fn move_into(
        &self,
        exprs: &mut Vec<CompiledExpr>,
        infos: &mut Vec<String>,
        index: usize,
    ) -> (r: ExprIndex)
        requires
            self.wf(),
            index < self@.exprs.len(),
            old(exprs).len() <= u32::MAX,
        ensures
            final(exprs).len() == old(exprs).len() + 1,
            cexpr_views(final(exprs)@) == cexpr_views(old(exprs)@).push(self@.exprs[index as int]),
            text_views(final(infos)@) == text_views(old(infos)@).push(self@.infos[index as int]),
            r.index() == old(exprs).len(),
    {
        let ghost before = cexpr_views(exprs@);
        let ghost tags = text_views(infos@);
        let r = CompiledNode::push_back_expr_core(
            exprs,
            infos,
            self.exprs[index].copy(),
            self.infos[index].clone(),
        );
        assert(cexpr_views(exprs@) =~= before.push(self@.exprs[index as int]));
        assert(text_views(infos@) =~= tags.push(self@.infos[index as int]));
        r
    }

    /// Visits the expression at `start`, depth first: unless it was entered
    /// before, the expressions it refers to are visited first, those that
    /// are `Pre` expressions left out, and then it is put on the pile.
    /// `fuel` bounds the depth of the walk.
    pub fn bfs(&self, start: usize, done: &mut Vec<bool>, pile: &mut Vec<usize>, fuel: usize)
        ensures
            (Walk { done: final(done)@, pile: positions(final(pile)@) }) == visit(
                self@.exprs,
                start as int,
                Walk { done: old(done)@, pile: positions(old(pile)@) },
                fuel as nat,
            ),
        decreases fuel,
    {
        if start >= done.len() || start >= self.exprs.len() || done[start] || fuel == 0 {
            return ;
        }
        done.set(start, true);
        let neighbours = self.exprs[start].get_neighbours();
        let ghost entered = Walk { done: done@, pile: positions(pile@) };
        let ghost exprs = self@.exprs;
        let mut k: usize = 0;
        while k < neighbours.len()
            invariant
                k <= neighbours.len(),
                exprs == self@.exprs,
                fuel > 0,
                visit_all(exprs, neighbours@, 0, entered, (fuel - 1) as nat) == visit_all(
                    exprs,
                    neighbours@,
                    k as int,
                    Walk { done: done@, pile: positions(pile@) },
                    (fuel - 1) as nat,
                ),
            decreases neighbours.len() - k,
        {
            let n = neighbours[k].to_usize();
            let cut = n < self.exprs.len() && is_pre(&self.exprs[n]);
            if !cut {
                self.bfs(n, done, pile, fuel - 1);
            }
            k += 1;
        }
        let ghost before = positions(pile@);
        pile.push(start);
        assert(positions(pile@) =~= before.push(start as int));
    }

    /// The node with its expressions put in an order in which each can be
    /// evaluated after those it reads within the instant; every index is
    /// carried over to the new order, the value slots are emptied and the
    /// instant is the initial one.
    pub fn schedule(&self) -> (r: CompiledNode)
        requires
            self.wf(),
        ensures
            r@ == self@.scheduled(),
            r.wf(),
    {
        let n = self.exprs.len();
        let ghost exprs = self@.exprs;
        let mut done: Vec<bool> = Vec::new();
        let mut i: usize = 0;
        while i < n
            invariant
                i <= n,
                done.len() == i,
                forall|j: int| 0 <= j < i ==> !done[j],
            decreases n - i,
        {
            done.push(false);
            i += 1;
        }
        assert(done@ =~= fresh_walk(n as nat).done);
        let mut pile: Vec<usize> = Vec::new();
        assert(positions(pile@) =~= fresh_walk(n as nat).pile);
        let mut root: usize = 0;
        while root < n
            invariant
                root <= n,
                n == self.exprs.len(),
                exprs == self@.exprs,
                exprs.len() == n,
                visit_roots(exprs, 0, fresh_walk(n as nat)) == visit_roots(
                    exprs,
                    root as int,
                    Walk { done: done@, pile: positions(pile@) },
                ),
            decreases n - root,
        {
            self.bfs(root, &mut done, &mut pile, n);
            root += 1;
        }
        let ghost order = schedule_order(exprs);
        assert(positions(pile@) == order);
        proof {
            lemma_schedule_order_is_permutation(exprs);
            lemma_scheduled_well_formed(self@);
        }
        assert(pile.len() == n);
        let mut new_index: Vec<ExprIndex> = Vec::new();
        let mut i: usize = 0;
        while i < n
            invariant
                i <= n,
                new_index.len() == i,
                forall|j: int| 0 <= j < i ==> new_index[j] == ExprIndex(0),
            decreases n - i,
        {
            new_index.push(ExprIndex(0));
            i += 1;
        }
        assert(new_index@ =~= index_upto(order, n as nat, 0));
        let mut k: usize = 0;
        while k < n
            invariant
                k <= n,
                n <= u32::MAX,
                pile.len() == n,
                positions(pile@) == order,
                is_permutation(order, n as int),
                new_index.len() == n,
                new_index@ == index_upto(order, n as nat, k as int),
            decreases n - k,
        {
            assert(order[k as int] == pile[k as int]);
            assert(0 <= order[k as int] < n);
            let position = ExprIndex::new(k);
            assert(position == ExprIndex(k as u32));
            new_index.set(pile[k], position);
            k += 1;
        }
        assert(new_index@ == schedule_index(exprs));
        let mut out: Vec<CompiledExpr> = Vec::new();
        let mut infos: Vec<String> = Vec::new();
        let mut values: Vec<Option<Value>> = Vec::new();
        let mut k: usize = 0;
        while k < n
            invariant
                k <= n,
                n == self.exprs.len(),
                self.wf(),
                exprs == self@.exprs,
                pile.len() == n,
                positions(pile@) == order,
                is_permutation(order, n as int),
                out.len() == k,
                infos.len() == k,
                values.len() == k,
                forall|j: int| 0 <= j < k ==> values[j] is None,
                forall|j: int| 0 <= j < k ==> out[j]@ == remap(exprs[order[j]], new_index@),
                forall|j: int| 0 <= j < k ==> infos[j]@ == self@.infos[order[j]],
            decreases n - k,
        {
            assert(order[k as int] == pile[k as int]);
            assert(0 <= order[k as int] < n);
            out.push(remap_expr(&self.exprs[pile[k]], &new_index));
            infos.push(self.infos[pile[k]].clone());
            values.push(None);
            k += 1;
        }
        let inputs = remap_list(&self.inputs, &new_index);
        let outputs = remap_list(&self.outputs, &new_index);
        let r = CompiledNode { exprs: out, infos, inputs, outputs, values, instant: Instant::Initial };
        assert(r@.exprs =~= self@.scheduled().exprs);
        assert(r@.infos =~= self@.scheduled().infos);
        assert(r@.values =~= self@.scheduled().values);
        assert(r@.inputs =~= self@.scheduled().inputs);
        assert(r@.outputs =~= self@.scheduled().outputs);
        r
    }

    fn append_indices(s: &mut String, indices: &Vec<ExprIndex>)
        ensures
            final(s)@ == old(s)@ + crate::node_model::indices_text(indices@, indices.len() as int),
    {
        let ghost start = s@;
        let mut i: usize = 0;
        assert(s@ =~= start + crate::node_model::indices_text(indices@, 0));
        while i < indices.len()
            invariant
                i <= indices.len(),
                s@ == start + crate::node_model::indices_text(indices@, i as int),
            decreases indices.len() - i,
        {
            let ghost before = crate::node_model::indices_text(indices@, i as int);
            if i != 0 {
                s.append(", ");
            }
            s.append(indices[i].to_text().as_str());
            assert(s@ =~= start + crate::node_model::indices_text(indices@, i + 1)) by {
                if i == 0 {
                    assert(before =~= Seq::<char>::empty());
                }
            }
            i += 1;
        }
    }

    fn append_line(&self, s: &mut String, i: usize, width: usize)
        requires
            self.wf(),
            i < self@.exprs.len(),
        ensures
            final(s)@ == old(s)@ + self@.line_text(i as int, width as nat),
    {
        let ghost start = s@;
        let mut line = String::from_str("\t");
        crate::text::append_padded(&mut line, crate::text::nat_to_text(i as u64).as_str(), 3);
        line.append(" -   ");
        crate::text::append_padded(&mut line, self.exprs[i].to_text().as_str(), width);
        line.append(" >> ");
        let ghost before = line@;
        match &self.values[i] {
            Some(v) => {
                line.append(v.to_text().as_str());
            },
            None => {
                line.append("None");
            },
        }
        assert(line@ == before + crate::node_model::slot_text(self@.values[i as int]));
        line.append(" // ");
        crate::text::append_padded(&mut line, self.infos[i].as_str(), 10);
        assert(line@ == self@.line_text(i as int, width as nat));
        s.append(line.as_str());
    }

    /// The node as it is shown: its instant, the table of its expressions
    /// with their values and tags, and its inputs and outputs.
    pub fn to_text(&self) -> (s: String)
        requires
            self.wf(),
        ensures
            s@ == self@.text(),
    {
        let n = self.exprs.len();
        let mut width: usize = 0;
        let mut i: usize = 0;
        while i < n
            invariant
                i <= n,
                n == self.exprs.len(),
                width == crate::node_model::widest(self@.exprs, i as int),
            decreases n - i,
        {
            let len = self.exprs[i].to_text().as_str().unicode_len();
            if len > width {
                width = len;
            }
            i += 1;
        }
        let mut s = String::from_str("Instant = ");
        s.append(self.instant.to_text().as_str());
        s.append("\nloop {\n");
        let ghost start = s@;
        let mut i: usize = 0;
        assert(s@ =~= start + self@.lines_text(0, width as nat));
        while i < n
            invariant
                i <= n,
                n == self.exprs.len(),
                self.wf(),
                s@ == start + self@.lines_text(i as int, width as nat),
            decreases n - i,
        {
            let ghost before = self@.lines_text(i as int, width as nat);
            if i != 0 {
                s.append("\n");
            }
            self.append_line(&mut s, i, width);
            assert(s@ =~= start + self@.lines_text(i + 1, width as nat)) by {
                if i == 0 {
                    assert(before =~= Seq::<char>::empty());
                }
            }
            i += 1;
        }
        s.append("\n}\ninput = [");
        CompiledNode::append_indices(&mut s, &self.inputs);
        s.append("]\noutput = [");
        CompiledNode::append_indices(&mut s, &self.outputs);
        s.append("]\n");
        s
    }

    /// Whether the expressions stand in an order of evaluation: each
    /// refers only to `Pre` expressions and to expressions before it.
    pub fn is_ordered(&self) -> (b: bool)
        ensures
            b == crate::schedule_order::ordered(self@.exprs),
    {
        let n = self.exprs.len();
        let mut a: usize = 0;
        while a < n
            invariant
                a <= n,
                n == self.exprs.len(),
                forall|i: int, k: int|
                    0 <= i < a && 0 <= k < self@.exprs[i].neighbours().len() ==> {
                        let m = (#[trigger] self@.exprs[i].neighbours()[k]).index();
                        m < i || (m < self@.exprs.len() && self@.exprs[m] is Pre)
                    },
            decreases n - a,
        {
            let neighbours = self.exprs[a].get_neighbours();
            let mut k: usize = 0;
            while k < neighbours.len()
                invariant
                    k <= neighbours.len(),
                    a < n,
                    n == self.exprs.len(),
                    neighbours@ == self@.exprs[a as int].neighbours(),
                    forall|j: int|
                        0 <= j < k ==> {
                            let m = (#[trigger] neighbours@[j]).index();
                            m < a || (m < self@.exprs.len() && self@.exprs[m] is Pre)
                        },
                decreases neighbours.len() - k,
            {
                let m = neighbours[k].to_usize();
                let fine = m < a || (m < n && is_pre(&self.exprs[m]));
                if !fine {
                    assert(!({
                        let m = self@.exprs[a as int].neighbours()[k as int].index();
                        m < a || (m < self@.exprs.len() && self@.exprs[m] is Pre)
                    }));
                    return false;
                }
                k += 1;
            }
            a += 1;
        }
        true
    }

    /// Whether the delays of the node hold in its order: each expression
    /// that reads a `Pre` stands before it.
    pub fn keeps_delays(&self) -> (b: bool)
        ensures
            b == crate::step_laws::delays_hold(self@.exprs),
    {
        let n = self.exprs.len();
        let mut a: usize = 0;
        while a < n
            invariant
                a <= n,
                n == self.exprs.len(),
                forall|i: int, k: int|
                    0 <= i < a && 0 <= k < self@.exprs[i].neighbours().len() ==> {
                        let m = (#[trigger] self@.exprs[i].neighbours()[k]).index();
                        m < self@.exprs.len() && self@.exprs[m] is Pre ==> i < m
                    },
            decreases n - a,
        {
            let neighbours = self.exprs[a].get_neighbours();
            let mut k: usize = 0;
            while k < neighbours.len()
                invariant
                    k <= neighbours.len(),
                    a < n,
                    n == self.exprs.len(),
                    neighbours@ == self@.exprs[a as int].neighbours(),
                    forall|j: int|
                        0 <= j < k ==> {
                            let m = (#[trigger] neighbours@[j]).index();
                            m < self@.exprs.len() && self@.exprs[m] is Pre ==> a < m
                        },
                decreases neighbours.len() - k,
            {
                let m = neighbours[k].to_usize();
                let late = m < n && is_pre(&self.exprs[m]) && m <= a;
                if late {
                    assert(!({
                        let m = self@.exprs[a as int].neighbours()[k as int].index();
                        m < self@.exprs.len() && self@.exprs[m] is Pre ==> a < m
                    }));
                    return false;
                }
                k += 1;
            }
            a += 1;
        }
        true
    }

    /// One instant of evaluation: the inputs are written to the input
    /// slots, every expression is evaluated in order, and the values of
    /// the outputs are handed out. `None` when an output has no value; the
    /// node has advanced all the same.
    pub fn try_step(&mut self, inputs: Vec<Value>) -> (r: Option<Vec<Value>>)
        ensures
            final(self)@ == old(self)@.after_step(value_views(inputs@)),
            final(self)@.instant == Instant::NonInitial,
            match r {
                Some(v) => old(self)@.step_outputs(value_views(inputs@)) == Some(value_views(v@)),
                None => old(self)@.step_outputs(value_views(inputs@)) is None,
            },
            old(self).wf() ==> final(self).wf(),
    {
        let ghost start = self@;
        let ghost given = value_views(inputs@);
        let count = if self.inputs.len() <= inputs.len() {
            self.inputs.len()
        } else {
            inputs.len()
        };
        let mut i: usize = 0;
        while i < count
            invariant
                i <= count,
                count == min_len(self.inputs.len() as nat, inputs.len() as nat),
                given == value_views(inputs@),
                start == old(self)@,
                self.exprs == old(self).exprs,
                self.infos == old(self).infos,
                self.inputs == old(self).inputs,
                self.outputs == old(self).outputs,
                self.instant == old(self).instant,
                self@.values == feed(start.values, start.inputs, given, i as int),
            decreases count - i,
        {
            let k = self.inputs[i].to_usize();
            if k < self.values.len() {
                let ghost before = self@.values;
                self.values.set(k, Some(inputs[i].copy()));
                assert(self@.values =~= before.update(k as int, Some(given[i as int])));
            }
            i += 1;
        }
        let ghost fed = self@.values;
        assert(fed == start.fed(given));
        let mut pos: usize = 0;
        while pos < self.exprs.len()
            invariant
                pos <= self.exprs.len(),
                start == old(self)@,
                self.exprs == old(self).exprs,
                self.infos == old(self).infos,
                self.inputs == old(self).inputs,
                self.outputs == old(self).outputs,
                self.instant == old(self).instant,
                self@.values == eval_upto(start.exprs, fed, start.instant, pos as int),
            decreases self.exprs.len() - pos,
        {
            if !is_input(&self.exprs[pos]) && pos < self.values.len() {
                let ghost before = self@.values;
                let v = self.exprs[pos].compute_one_step(&self.values, &self.instant);
                self.values.set(pos, v);
                assert(self@.values =~= before.update(
                    pos as int,
                    start.exprs[pos as int].compute(before, start.instant),
                ));
            }
            pos += 1;
        }
        self.instant.step();
        assert(self@ == start.after_step(given));
        proof {
            lemma_feed_len(
                start.values,
                start.inputs,
                given,
                min_len(start.inputs.len(), given.len()),
            );
            lemma_eval_len(start.exprs, fed, start.instant, start.exprs.len() as int);
        }
        let mut res: Vec<Value> = Vec::new();
        let mut j: usize = 0;
        while j < self.outputs.len()
            invariant
                j <= self.outputs.len(),
                old(self).wf() ==> self.wf(),
                start == old(self)@,
                given == value_views(inputs@),
                self@ == start.after_step(given),
                read_outputs(self@.values, self@.outputs, j as int) == Some(value_views(res@)),
            decreases self.outputs.len() - j,
        {
            let k = self.outputs[j].to_usize();
            let found = if k < self.values.len() {
                match &self.values[k] {
                    Some(v) => Some(v.copy()),
                    None => None,
                }
            } else {
                None
            };
            match found {
                Some(v) => {
                    let ghost before = value_views(res@);
                    res.push(v);
                    assert(value_views(res@) =~= before.push(v@));
                },
                None => {
                    proof {
                        lemma_read_outputs_none(
                            self@.values,
                            self@.outputs,
                            j + 1,
                            self.outputs.len() as int,
                        );
                    }
                    return None;
                },
            }
            j += 1;
        }
        Some(res)
    }

    /// One instant of evaluation on a node whose outputs all get a value.
    pub fn step(&mut self, inputs: Vec<Value>) -> (r: Vec<Value>)
        requires
            old(self)@.step_outputs(value_views(inputs@)) is Some,
        ensures
            final(self)@ == old(self)@.after_step(value_views(inputs@)),
            final(self)@.instant == Instant::NonInitial,
            old(self)@.step_outputs(value_views(inputs@)) == Some(value_views(r@)),
            old(self).wf() ==> final(self).wf(),
    {
        match self.try_step(inputs) {
            Some(v) => v,
            None => Vec::new(),
        }
    }
}

} // verus!
