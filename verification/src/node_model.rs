//! The mathematical model of a compiled node, and of one evaluation step.
use vstd::prelude::*;
use crate::compiled_expr::CExprModel;
use crate::expr_index::ExprIndex;
use crate::instant::Instant;
use crate::value::ValueModel;

verus! {

/// What a compiled node is, mathematically: a flat list of expressions that
/// refer to each other by index, one tag per expression that tells where
/// it comes from, the indices of the input and output slots, one value
/// slot per expression, and the instant of the next step.
pub struct CNodeModel {
    pub exprs: Seq<CExprModel>,
    pub infos: Seq<Seq<char>>,
    pub inputs: Seq<ExprIndex>,
    pub outputs: Seq<ExprIndex>,
    pub values: Seq<Option<ValueModel>>,
    pub instant: Instant,
}

/// Whether every index of the list is below `len`.
pub open spec fn indices_below(indices: Seq<ExprIndex>, len: int) -> bool {
    forall|k: int| 0 <= k < indices.len() ==> (#[trigger] indices[k]).index() < len
}

/// Whether every expression of the list refers to indices below `len` only.
pub open spec fn exprs_in_bounds(exprs: Seq<CExprModel>, len: int) -> bool {
    forall|i: int| 0 <= i < exprs.len() ==> (#[trigger] exprs[i]).in_bounds(len)
}

/// The first position at or after `from` that holds `e`, if there is one.
pub open spec fn find_from(exprs: Seq<CExprModel>, e: CExprModel, from: int) -> Option<int>
    decreases exprs.len() - from,
{
    if from < 0 || from >= exprs.len() {
        None
    } else if exprs[from] == e {
        Some(from)
    } else {
        find_from(exprs, e, from + 1)
    }
}

/// Where a memoizing push puts `e`: at the first position that already
/// holds an equal expression, unless `e` is an input or output slot or no
/// such position exists; then at the end.
pub open spec fn push_position(exprs: Seq<CExprModel>, e: CExprModel) -> int {
    if e is Input || e is Output {
        exprs.len() as int
    } else {
        match find_from(exprs, e, 0) {
            Some(i) => i,
            None => exprs.len() as int,
        }
    }
}

/// The expressions after a memoizing push of `e`.
pub open spec fn push_exprs(exprs: Seq<CExprModel>, e: CExprModel) -> Seq<CExprModel> {
    if push_position(exprs, e) == exprs.len() {
        exprs.push(e)
    } else {
        exprs
    }
}

/// The value slots after the first `n` inputs were written to the slots
/// that the input indices name. An index without a slot is passed over.
pub open spec fn feed(
    values: Seq<Option<ValueModel>>,
    indices: Seq<ExprIndex>,
    inputs: Seq<ValueModel>,
    n: int,
) -> Seq<Option<ValueModel>>
    decreases n,
{
    if n <= 0 || n > indices.len() || n > inputs.len() {
        values
    } else {
        let before = feed(values, indices, inputs, n - 1);
        if indices[n - 1].index() < before.len() {
            before.update(indices[n - 1].index(), Some(inputs[n - 1]))
        } else {
            before
        }
    }
}

/// The value slots after the first `n` expressions were evaluated in order,
/// each writing its own slot. Input slots are left as they are.
pub open spec fn eval_upto(
    exprs: Seq<CExprModel>,
    values: Seq<Option<ValueModel>>,
    instant: Instant,
    n: int,
) -> Seq<Option<ValueModel>>
    decreases n,
{
    if n <= 0 || n > exprs.len() {
        values
    } else {
        let before = eval_upto(exprs, values, instant, n - 1);
        if exprs[n - 1] is Input || n - 1 >= before.len() {
            before
        } else {
            before.update(n - 1, exprs[n - 1].compute(before, instant))
        }
    }
}

/// The values of the first `n` output slots, or `None` when one of them
/// holds nothing.
pub open spec fn read_outputs(values: Seq<Option<ValueModel>>, outputs: Seq<ExprIndex>, n: int) -> Option<
    Seq<ValueModel>,
>
    decreases n,
{
    if n <= 0 || n > outputs.len() {
        Some(Seq::empty())
    } else {
        match (
            read_outputs(values, outputs, n - 1),
            crate::compiled_expr::slot(values, outputs[n - 1]),
        ) {
            (Some(s), Some(v)) => Some(s.push(v)),
            _ => None,
        }
    }
}

/// The smaller of two lengths.
pub open spec fn min_len(a: nat, b: nat) -> int {
    if a <= b {
        a as int
    } else {
        b as int
    }
}

/// The text of the first `n` indices of a list, separated by commas.
pub open spec fn indices_text(indices: Seq<ExprIndex>, n: int) -> Seq<char>
    decreases n,
{
    if n <= 0 || n > indices.len() {
        Seq::empty()
    } else if n == 1 {
        indices[0].text()
    } else {
        indices_text(indices, n - 1) + ", "@ + indices[n - 1].text()
    }
}

/// The greatest length of the texts of the first `n` expressions.
pub open spec fn widest(exprs: Seq<CExprModel>, n: int) -> nat
    decreases n,
{
    if n <= 0 || n > exprs.len() {
        0
    } else {
        let before = widest(exprs, n - 1);
        if exprs[n - 1].text().len() > before {
            exprs[n - 1].text().len()
        } else {
            before
        }
    }
}

/// The text of a value slot.
pub open spec fn slot_text(v: Option<ValueModel>) -> Seq<char> {
    match v {
        Some(v) => v.text(),
        None => "None"@,
    }
}

impl CNodeModel {
    /// One line of the table of a node: the index, the expression, the
    /// value of its slot and its tag.
    pub open spec fn line_text(self, i: int, width: nat) -> Seq<char> {
        "\t"@ + crate::text::padded(crate::text::nat_text(i as nat), 3) + " -   "@
            + crate::text::padded(self.exprs[i].text(), width) + " >> "@ + slot_text(
            self.values[i],
        ) + " // "@ + crate::text::padded(self.infos[i], 10)
    }

    /// The first `n` lines of the table of a node, each on a line of its own.
    pub open spec fn lines_text(self, n: int, width: nat) -> Seq<char>
        decreases n,
    {
        if n <= 0 || n > self.exprs.len() {
            Seq::empty()
        } else if n == 1 {
            self.line_text(0, width)
        } else {
            self.lines_text(n - 1, width) + "\n"@ + self.line_text(n - 1, width)
        }
    }

    /// The node as it is shown: its instant, the table of its expressions
    /// with their values and tags, and its inputs and outputs.
    pub open spec fn text(self) -> Seq<char> {
        "Instant = "@ + self.instant.text() + "\nloop {\n"@ + self.lines_text(
            self.exprs.len() as int,
            widest(self.exprs, self.exprs.len() as int),
        ) + "\n}\ninput = ["@ + indices_text(self.inputs, self.inputs.len() as int)
            + "]\noutput = ["@ + indices_text(self.outputs, self.outputs.len() as int) + "]\n"@
    }

    /// The invariant of a compiled node: at most `u32::MAX` expressions,
    /// every index that an expression, the inputs or the outputs hold is
    /// that of an expression, and each expression has a value slot and a
    /// tag.
    pub open spec fn well_formed(self) -> bool {
        &&& self.exprs.len() <= u32::MAX
        &&& exprs_in_bounds(self.exprs, self.exprs.len() as int)
        &&& indices_below(self.inputs, self.exprs.len() as int)
        &&& indices_below(self.outputs, self.exprs.len() as int)
        &&& self.values.len() == self.exprs.len()
        &&& self.infos.len() == self.exprs.len()
    }

    /// The empty node, before its first step.
    pub open spec fn empty() -> CNodeModel {
        CNodeModel {
            exprs: Seq::empty(),
            infos: Seq::empty(),
            inputs: Seq::empty(),
            outputs: Seq::empty(),
            values: Seq::empty(),
            instant: Instant::Initial,
        }
    }

    /// The node after a memoizing push of `e` with the tag `info`: where
    /// the expression is new, it comes last with its tag and gets an empty
    /// value slot; where it is not, nothing changes.
    pub open spec fn pushed(self, e: CExprModel, info: Seq<char>) -> CNodeModel {
        if push_position(self.exprs, e) == self.exprs.len() {
            self.appended(e, info)
        } else {
            self
        }
    }

    /// The node with `e` added at the end, with its tag and an empty value
    /// slot.
    pub open spec fn appended(self, e: CExprModel, info: Seq<char>) -> CNodeModel {
        CNodeModel {
            exprs: self.exprs.push(e),
            infos: self.infos.push(info),
            values: self.values.push(None),
            ..self
        }
    }

    /// The slots once the inputs of a step are written.
    pub open spec fn fed(self, inputs: Seq<ValueModel>) -> Seq<Option<ValueModel>> {
        feed(self.values, self.inputs, inputs, min_len(self.inputs.len(), inputs.len()))
    }

    /// The node after one step on `inputs`: the inputs are written to the
    /// input slots, every expression is evaluated in the order of the list,
    /// and the instant is no longer the initial one.
    pub open spec fn after_step(self, inputs: Seq<ValueModel>) -> CNodeModel {
        CNodeModel {
            values: eval_upto(self.exprs, self.fed(inputs), self.instant, self.exprs.len() as int),
            instant: Instant::NonInitial,
            ..self
        }
    }

    /// What one step on `inputs` gives out: the values of the output slots
    /// after the step, or `None` when one of them holds nothing.
    pub open spec fn step_outputs(self, inputs: Seq<ValueModel>) -> Option<Seq<ValueModel>> {
        read_outputs(self.after_step(inputs).values, self.outputs, self.outputs.len() as int)
    }
}

/// Feeding inputs keeps the number of slots.
pub proof fn lemma_feed_len(
    values: Seq<Option<ValueModel>>,
    indices: Seq<ExprIndex>,
    inputs: Seq<ValueModel>,
    n: int,
)
    ensures
        feed(values, indices, inputs, n).len() == values.len(),
    decreases n,
{
    if !(n <= 0 || n > indices.len() || n > inputs.len()) {
        lemma_feed_len(values, indices, inputs, n - 1);
    }
}

/// Evaluation keeps the number of slots.
pub proof fn lemma_eval_len(
    exprs: Seq<CExprModel>,
    values: Seq<Option<ValueModel>>,
    instant: Instant,
    n: int,
)
    ensures
        eval_upto(exprs, values, instant, n).len() == values.len(),
    decreases n,
{
    if !(n <= 0 || n > exprs.len()) {
        lemma_eval_len(exprs, values, instant, n - 1);
    }
}

/// Once an output slot holds nothing, no longer prefix can be read.
pub proof fn lemma_read_outputs_none(
    values: Seq<Option<ValueModel>>,
    outputs: Seq<ExprIndex>,
    n: int,
    m: int,
)
    requires
        0 < n <= m <= outputs.len(),
        read_outputs(values, outputs, n) is None,
    ensures
        read_outputs(values, outputs, m) is None,
    decreases m - n,
{
    if n < m {
        lemma_read_outputs_none(values, outputs, n, m - 1);
    }
}

/// A search that finds a position finds the first one that holds the
/// expression; one that finds none means that no position holds it.
pub proof fn lemma_find_from(exprs: Seq<CExprModel>, e: CExprModel, from: int)
    requires
        0 <= from,
    ensures
        match find_from(exprs, e, from) {
            Some(i) => from <= i < exprs.len() && exprs[i] == e && forall|j: int|
                from <= j < i ==> exprs[j] != e,
            None => forall|j: int| from <= j < exprs.len() ==> exprs[j] != e,
        },
    decreases exprs.len() - from,
{
    if from < exprs.len() && exprs[from] != e {
        lemma_find_from(exprs, e, from + 1);
    }
}

/// Pushes are memoized: an expression that is no input or output slot and
/// that the list holds already stands, after its push, where it first
/// stood, and the list is as it was; any other expression comes last.
pub proof fn lemma_push_is_memoized(exprs: Seq<CExprModel>, e: CExprModel)
    ensures
        0 <= push_position(exprs, e) <= exprs.len(),
        push_exprs(exprs, e)[push_position(exprs, e)] == e,
        !(e is Input || e is Output) && exprs.contains(e) ==> push_exprs(exprs, e) == exprs
            && forall|j: int| 0 <= j < push_position(exprs, e) ==> exprs[j] != e,
        e is Input || e is Output || !exprs.contains(e) ==> push_exprs(exprs, e) == exprs.push(e),
{
    lemma_find_from(exprs, e, 0);
    if !(e is Input || e is Output) && find_from(exprs, e, 0) is None && exprs.contains(e) {
        let i = choose|i: int| 0 <= i < exprs.len() && exprs[i] == e;
        assert(exprs[i] != e);
    }
}

} // verus!
