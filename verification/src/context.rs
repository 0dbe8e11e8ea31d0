//! The evaluation context and the evaluator.
//!
//! A context binds names to numbers and knows the names of its functions. Evaluating an
//! expression against it walks the tree depth first, the left operand before the right, and
//! settles everything that does not take arithmetic: which number each name stands for, which
//! operations are to be carried out on which operands and in which order, and which names the
//! expression binds. The outcome is an [`Evaluation`]: a list of steps, each on numbers or on
//! the outcomes of earlier steps. Whoever holds it carries the steps out in order, and hands
//! the outcomes to [`Context::conclude`], which binds the names and gives the value.

use crate::ast::lemma_expr_views_index;
use crate::ast::BinOp;
use crate::ast::Expr;
use crate::ast::ExprView;
use crate::number::Number;
use crate::number::NumberView;
use crate::number::ZERO_BITS;
use vstd::hash_map::StringHashMap;
use vstd::hash_set::StringHashSet;
use vstd::prelude::*;

verus! {

/// What an operation is carried out on.
#[derive(Debug, Clone, PartialEq)]
pub enum Operand {
    /// A number that is known.
    Number(Number),
    /// The outcome of the step with this index.
    Step(usize),
}

/// What an [`Operand`] holds, over sequences.
pub enum OperandView {
    Number(NumberView),
    Step(int),
}

impl View for Operand {
    type V = OperandView;

    open spec fn view(&self) -> OperandView {
        match self {
            Operand::Number(n) => OperandView::Number(n@),
            Operand::Step(i) => OperandView::Step(*i as int),
        }
    }
}

/// What a step does with its two operands.
#[derive(Debug, Clone, PartialEq)]
pub enum Operation {
    /// One of the four operators, between the left and the right operand.
    Binary(BinOp),
    /// The function of this name, of the first and the second argument.
    Call(String),
}

/// What an [`Operation`] holds, over sequences.
pub enum OperationView {
    Binary(BinOp),
    Call(Seq<char>),
}

impl View for Operation {
    type V = OperationView;

    open spec fn view(&self) -> OperationView {
        match self {
            Operation::Binary(op) => OperationView::Binary(*op),
            Operation::Call(name) => OperationView::Call(name@),
        }
    }
}

/// One operation on two operands.
#[derive(Debug, Clone, PartialEq)]
pub struct Step {
    pub operation: Operation,
    pub left: Operand,
    pub right: Operand,
}

/// What a [`Step`] holds, over sequences.
pub struct StepView {
    pub operation: OperationView,
    pub left: OperandView,
    pub right: OperandView,
}

impl View for Step {
    type V = StepView;

    open spec fn view(&self) -> StepView {
        StepView { operation: self.operation@, left: self.left@, right: self.right@ }
    }
}

/// A name and what it is bound to.
#[derive(Debug, Clone, PartialEq)]
pub struct Binding {
    pub name: String,
    pub value: Operand,
}

/// What an evaluation leaves to be done: the steps in the order in which they are carried
/// out, the operand that is the value of the expression, and the names that the expression
/// binds, in the order in which it binds them.
#[derive(Debug, Clone, PartialEq)]
pub struct Evaluation {
    pub steps: Vec<Step>,
    pub result: Operand,
    pub bindings: Vec<Binding>,
}

/// Why an expression cannot be evaluated.
#[derive(Debug, Clone, Copy, PartialEq, Eq, Structural)]
pub enum EvalError {
    /// A call names a function that the context does not know.
    UnknownFunction,
    /// A call of a known function has no argument.
    MissingArgument,
}

/// The views of the steps of `steps`, in order.
pub open spec fn step_views(steps: Seq<Step>) -> Seq<StepView> {
    steps.map_values(|s: Step| s@)
}

/// The bindings of `list` as pairs of name and operand, in order.
pub open spec fn binding_views(list: Seq<Binding>) -> Seq<(Seq<char>, OperandView)> {
    list.map_values(|b: Binding| (b.name@, b.value@))
}

/// The map that a list of pairs stands for: a later pair overrides an earlier one of the same
/// name.
pub open spec fn bound<V>(entries: Seq<(Seq<char>, V)>) -> Map<Seq<char>, V>
    decreases entries.len(),
{
    if entries.len() == 0 {
        Map::empty()
    } else {
        bound(entries.drop_last()).insert(entries.last().0, entries.last().1)
    }
}

/// The operand zero, which stands for a name that is bound to nothing and for an argument
/// that a call lacks.
pub open spec fn zero_operand() -> OperandView {
    OperandView::Number(NumberView::Bits(ZERO_BITS))
}

/// What a name stands for: what it is bound to, or zero.
pub open spec fn looked_up(env: Map<Seq<char>, OperandView>, name: Seq<char>) -> OperandView {
    if env.contains_key(name) {
        env[name]
    } else {
        zero_operand()
    }
}

/// How far an evaluation has come: what each name stands for by now, the steps found so far,
/// and the bindings made so far.
pub struct Progress {
    pub env: Map<Seq<char>, OperandView>,
    pub steps: Seq<StepView>,
    pub bindings: Seq<(Seq<char>, OperandView)>,
}

impl Progress {
    /// The start of an evaluation against the variables `variables`.
    pub open spec fn start(variables: Map<Seq<char>, NumberView>) -> Progress {
        Progress {
            env: variables.map_values(|n: NumberView| OperandView::Number(n)),
            steps: Seq::empty(),
            bindings: Seq::empty(),
        }
    }

    /// The progress after one more step; the step's outcome has the index that is returned.
    pub open spec fn with_step(self, operation: OperationView, left: OperandView, right: OperandView) -> (
        OperandView,
        Progress,
    ) {
        (
            OperandView::Step(self.steps.len() as int),
            Progress { steps: self.steps.push(StepView { operation, left, right }), ..self },
        )
    }
}

/// The evaluation of `e` from the progress `p` on, by a context that knows the functions
/// `functions`: the operand that is the value of `e`, and the progress behind it.
///
/// - A number is its own value. A name has the value it stands for, zero where it stands for
///   nothing.
/// - An operator takes one step, on the value of its left and then of its right operand.
/// - A call takes one step, on the values of its first and second argument; a second argument
///   that is missing counts as zero, arguments from the third on are not evaluated. A call of
///   an unknown function fails, and so does a call without any argument.
/// - A `let` has the value of its expression, and from then on its name stands for that value.
pub open spec fn evaluated(e: ExprView, functions: Set<Seq<char>>, p: Progress) -> Result<
    (OperandView, Progress),
    EvalError,
>
    decreases e,
{
    match e {
        ExprView::Number(n) => Ok((OperandView::Number(n), p)),
        ExprView::Variable(name) => Ok((looked_up(p.env, name), p)),
        ExprView::BinaryOp(left, op, right) => match evaluated(*left, functions, p) {
            Err(e) => Err(e),
            Ok(l) => match evaluated(*right, functions, l.1) {
                Err(e) => Err(e),
                Ok(r) => Ok(r.1.with_step(OperationView::Binary(op), l.0, r.0)),
            },
        },
        ExprView::FunctionCall(name, arguments) => if !functions.contains(name) {
            Err(EvalError::UnknownFunction)
        } else if arguments.len() == 0 {
            Err(EvalError::MissingArgument)
        } else {
            match evaluated(arguments[0], functions, p) {
                Err(e) => Err(e),
                Ok(a) => if arguments.len() > 1 {
                    match evaluated(arguments[1], functions, a.1) {
                        Err(e) => Err(e),
                        Ok(b) => Ok(b.1.with_step(OperationView::Call(name), a.0, b.0)),
                    }
                } else {
                    Ok(a.1.with_step(OperationView::Call(name), a.0, zero_operand()))
                },
            }
        },
        ExprView::Let(name, value) => match evaluated(*value, functions, p) {
            Err(e) => Err(e),
            Ok(v) => Ok(
                (
                    v.0,
                    Progress {
                        env: v.1.env.insert(name, v.0),
                        bindings: v.1.bindings.push((name, v.0)),
                        ..v.1
                    },
                ),
            ),
        },
    }
}

/// An operand is in order before `count` steps: it names no step from `count` on.
pub open spec fn operand_ok(operand: OperandView, count: int) -> bool {
    operand matches OperandView::Step(i) ==> 0 <= i < count
}

/// Every step works on numbers or on the outcomes of earlier steps.
pub open spec fn steps_ok(steps: Seq<StepView>) -> bool {
    forall|j: int|
        0 <= j < steps.len() ==> operand_ok((#[trigger] steps[j]).left, j) && operand_ok(
            steps[j].right,
            j,
        )
}

/// Every binding is to a number or to the outcome of one of `count` steps.
pub open spec fn bindings_ok(bindings: Seq<(Seq<char>, OperandView)>, count: int) -> bool {
    forall|j: int| 0 <= j < bindings.len() ==> operand_ok((#[trigger] bindings[j]).1, count)
}

/// The number that an operand comes to, once the step with index `i` has had the outcome
/// `values[i]`.
pub open spec fn resolved(operand: OperandView, values: Seq<u64>) -> NumberView {
    match operand {
        OperandView::Number(n) => n,
        OperandView::Step(i) => NumberView::Bits(values[i]),
    }
}

/// The variables after the bindings `bindings` have been made, one after the other.
pub open spec fn committed(
    variables: Map<Seq<char>, NumberView>,
    bindings: Seq<(Seq<char>, OperandView)>,
    values: Seq<u64>,
) -> Map<Seq<char>, NumberView>
    decreases bindings.len(),
{
    if bindings.len() == 0 {
        variables
    } else {
        committed(variables, bindings.drop_last(), values).insert(
            bindings.last().0,
            resolved(bindings.last().1, values),
        )
    }
}

impl Operand {
    /// A copy of this operand.
    pub fn duplicate(&self) -> (r: Operand)
        ensures
            r@ == self@,
    {
        match self {
            Operand::Number(n) => Operand::Number(n.duplicate()),
            Operand::Step(i) => Operand::Step(*i),
        }
    }

    /// The operand zero.
    pub fn zero() -> (r: Operand)
        ensures
            r@ == zero_operand(),
    {
        Operand::Number(Number::zero())
    }

    /// Whether the operand is in order before `count` steps.
    pub fn within(&self, count: usize) -> (r: bool)
        ensures
            r == operand_ok(self@, count as int),
    {
        match self {
            Operand::Number(_) => true,
            Operand::Step(i) => *i < count,
        }
    }

    /// The number that this operand comes to, given the outcomes of the steps.
    pub fn resolve(&self, values: &Vec<u64>) -> (r: Number)
        requires
            operand_ok(self@, values@.len() as int),
        ensures
            r@ == resolved(self@, values@),
    {
        match self {
            Operand::Number(n) => n.duplicate(),
            Operand::Step(i) => Number::from_bits(values[*i]),
        }
    }
}

impl Evaluation {
    /// The steps over sequences.
    pub open spec fn steps_view(&self) -> Seq<StepView> {
        step_views(self.steps@)
    }

    /// The bindings over sequences.
    pub open spec fn bindings_view(&self) -> Seq<(Seq<char>, OperandView)> {
        binding_views(self.bindings@)
    }

    /// Every step works on numbers or on outcomes of earlier steps; the result and every
    /// binding is a number or the outcome of one of the steps.
    pub open spec fn wf(&self) -> bool {
        &&& steps_ok(self.steps_view())
        &&& operand_ok(self.result@, self.steps@.len() as int)
        &&& bindings_ok(self.bindings_view(), self.steps@.len() as int)
    }

    /// Whether the evaluation is well formed. An evaluation that comes from
    /// [`Context::eval_expr`] is; one that was put together by hand need not be.
    pub fn is_well_formed(&self) -> (r: bool)
        ensures
            r == self.wf(),
    {
        let count = self.steps.len();
        let mut j: usize = 0;
        while j < count
            invariant
                j <= count == self.steps@.len(),
                forall|k: int|
                    0 <= k < j ==> operand_ok((#[trigger] self.steps_view()[k]).left, k)
                        && operand_ok(self.steps_view()[k].right, k),
            decreases count - j,
        {
            let step = &self.steps[j];
            assert(self.steps_view()[j as int] == step@);
            if !step.left.within(j) || !step.right.within(j) {
                return false;
            }
            j += 1;
        }
        if !self.result.within(count) {
            return false;
        }
        let mut i: usize = 0;
        while i < self.bindings.len()
            invariant
                i <= self.bindings@.len(),
                count == self.steps@.len(),
                forall|k: int|
                    0 <= k < i ==> operand_ok((#[trigger] self.bindings_view()[k]).1, count as int),
            decreases self.bindings@.len() - i,
        {
            let binding = &self.bindings[i];
            assert(self.bindings_view()[i as int] == (binding.name@, binding.value@));
            if !binding.value.within(count) {
                return false;
            }
            i += 1;
        }
        true
    }
}

/// The last binding of `list` with the name `name`, if there is one.
fn find_binding(list: &Vec<Binding>, name: &String) -> (r: Option<usize>)
    ensures
        match r {
            Some(i) => i < list@.len() && bound(binding_views(list@)).contains_key(name@) && bound(
                binding_views(list@),
            )[name@] == list@[i as int].value@,
            None => !bound(binding_views(list@)).contains_key(name@),
        },
{
    let mut i: usize = list.len();
    let ghost entries = binding_views(list@);
    proof {
        assert(entries.subrange(0, entries.len() as int) == entries);
    }
    while i > 0
        invariant
            i <= list@.len(),
            entries == binding_views(list@),
            bound(entries).contains_key(name@) == bound(entries.subrange(0, i as int)).contains_key(
                name@,
            ),
            bound(entries).contains_key(name@) ==> bound(entries)[name@] == bound(
                entries.subrange(0, i as int),
            )[name@],
        decreases i,
    {
        i -= 1;
        proof {
            let upto = entries.subrange(0, i + 1);
            assert(upto.drop_last() == entries.subrange(0, i as int));
            assert(upto.last() == entries[i as int]);
        }
        if list[i].name == *name {
            return Some(i);
        }
    }
    proof {
        assert(entries.subrange(0, 0) == Seq::<(Seq<char>, OperandView)>::empty());
    }
    None
}

/// The store of an engine: the numbers that names are bound to, and the names of the
/// functions that can be called. The functions are fixed when the context is made.
pub struct Context {
    variables: StringHashMap<Number>,
    functions: StringHashSet,
}

impl Context {
    /// What each bound name is bound to.
    pub closed spec fn variables(&self) -> Map<Seq<char>, NumberView> {
        self.variables@.map_values(|n: Number| n@)
    }

    /// The names of the functions that can be called.
    pub closed spec fn functions(&self) -> Set<Seq<char>> {
        self.functions@
    }

    /// The names of the two functions that every context knows: the square root, of its first
    /// argument, and the greater of its two arguments.
    pub open spec fn predefined() -> Set<Seq<char>> {
        set!["sqrt"@, "max"@]
    }

    /// A context without variables that knows the predefined functions.
    pub fn new() -> (r: Context)
        ensures
            r.variables() == Map::<Seq<char>, NumberView>::empty(),
            r.functions() == Context::predefined(),
    {
        let mut functions = StringHashSet::new();
        functions.insert("sqrt".to_string());
        functions.insert("max".to_string());
        let r = Context { variables: StringHashMap::new(), functions };
        proof {
            assert(r.functions@ =~= set!["sqrt"@, "max"@]);
            assert(r.variables@.map_values(|n: Number| n@) =~= Map::<
                Seq<char>,
                NumberView,
            >::empty());
        }
        r
    }

    /// Whether the context knows a function of this name.
    pub fn has_function(&self, name: &String) -> (r: bool)
        ensures
            r == self.functions().contains(name@),
    {
        self.functions.contains(name.as_str())
    }

    /// The number that `name` is bound to, if it is bound.
    pub fn get_variable(&self, name: &String) -> (r: Option<Number>)
        ensures
            match r {
                Some(n) => self.variables().contains_key(name@) && self.variables()[name@] == n@,
                None => !self.variables().contains_key(name@),
            },
    {
        match self.variables.get(name.as_str()) {
            Some(n) => Some(n.duplicate()),
            None => None,
        }
    }

    /// Binds `name` to `value`, in place of what it was bound to before.
    pub fn set_variable(&mut self, name: String, value: Number)
        ensures
            final(self).variables() == old(self).variables().insert(name@, value@),
            final(self).functions() == old(self).functions(),
    {
        let ghost key = name@;
        let ghost bits = value@;
        self.variables.insert(name, value);
        proof {
            assert(self.variables@.map_values(|n: Number| n@) =~= old(
                self,
            ).variables@.map_values(|n: Number| n@).insert(key, bits));
        }
    }

    /// Evaluates `expr` as far as it goes without arithmetic. The context is not changed: the
    /// names that the expression binds are bound by [`Context::conclude`].
    pub fn eval_expr(&self, expr: &Expr) -> (r: Result<Evaluation, EvalError>)
        ensures
            match r {
                Ok(evaluation) => {
                    &&& evaluation.wf()
                    &&& evaluated(expr@, self.functions(), Progress::start(self.variables()))
                        matches Ok(done)
                    &&& done.0 == evaluation.result@
                    &&& done.1.steps == evaluation.steps_view()
                    &&& done.1.bindings == evaluation.bindings_view()
                },
                Err(e) => evaluated(expr@, self.functions(), Progress::start(self.variables()))
                    == Err::<(OperandView, Progress), EvalError>(e),
            },
    {
        let mut steps: Vec<Step> = Vec::new();
        let mut bindings: Vec<Binding> = Vec::new();
        proof {
            assert(step_views(steps@) == Seq::<StepView>::empty());
            assert(binding_views(bindings@) == Seq::<(Seq<char>, OperandView)>::empty());
            assert(bound(binding_views(bindings@)) == Map::<Seq<char>, OperandView>::empty());
            let start = Progress::start(self.variables());
            assert(start.env == start.env.union_prefer_right(bound(binding_views(bindings@))));
        }
        match self.walk(expr, &mut steps, &mut bindings) {
            Ok(result) => Ok(Evaluation { steps, result, bindings }),
            Err(e) => Err(e),
        }
    }

    /// The progress that stands for the steps and bindings gathered so far.
    closed spec fn progress(&self, steps: Seq<Step>, bindings: Seq<Binding>) -> Progress {
        Progress {
            env: Progress::start(self.variables()).env.union_prefer_right(
                bound(binding_views(bindings)),
            ),
            steps: step_views(steps),
            bindings: binding_views(bindings),
        }
    }

    /// What `name` stands for by now.
    fn look_up(&self, name: &String, bindings: &Vec<Binding>) -> (r: Operand)
        ensures
            r@ == looked_up(self.progress(Seq::empty(), bindings@).env, name@),
            forall|count: int|
                bindings_ok(binding_views(bindings@), count) ==> operand_ok(r@, count),
    {
        match find_binding(bindings, name) {
            Some(i) => {
                assert(binding_views(bindings@)[i as int].1 == bindings@[i as int].value@);
                bindings[i].value.duplicate()
            },
            None => match self.variables.get(name.as_str()) {
                Some(n) => Operand::Number(n.duplicate()),
                None => Operand::zero(),
            },
        }
    }

    /// Evaluates `expr` behind the steps and bindings gathered so far, and adds its own.
    fn walk(&self, expr: &Expr, steps: &mut Vec<Step>, bindings: &mut Vec<Binding>) -> (r: Result<
        Operand,
        EvalError,
    >)
        requires
            steps_ok(step_views(old(steps)@)),
            bindings_ok(binding_views(old(bindings)@), old(steps)@.len() as int),
        ensures
            match r {
                Ok(value) => {
                    &&& evaluated(
                        expr@,
                        self.functions(),
                        self.progress(old(steps)@, old(bindings)@),
                    ) == Ok::<(OperandView, Progress), EvalError>(
                        (value@, self.progress(final(steps)@, final(bindings)@)),
                    )
                    &&& steps_ok(step_views(final(steps)@))
                    &&& bindings_ok(binding_views(final(bindings)@), final(steps)@.len() as int)
                    &&& operand_ok(value@, final(steps)@.len() as int)
                    &&& old(steps)@.len() <= final(steps)@.len()
                },
                Err(e) => evaluated(
                    expr@,
                    self.functions(),
                    self.progress(old(steps)@, old(bindings)@),
                ) == Err::<(OperandView, Progress), EvalError>(e),
            },
        decreases expr,
    {
        match expr {
            Expr::Number(n) => Ok(Operand::Number(n.duplicate())),
            Expr::Variable(name) => Ok(self.look_up(name, bindings)),
            Expr::BinaryOp(left, op, right) => {
                let l = match self.walk(left, steps, bindings) {
                    Ok(value) => value,
                    Err(e) => {
                        return Err(e);
                    },
                };
                let r = match self.walk(right, steps, bindings) {
                    Ok(value) => value,
                    Err(e) => {
                        return Err(e);
                    },
                };
                Ok(self.take_step(Operation::Binary(*op), l, r, steps, Ghost(bindings@)))
            },
            Expr::FunctionCall(name, arguments) => {
                proof {
                    lemma_expr_views_index(arguments@);
                }
                if !self.has_function(name) {
                    return Err(EvalError::UnknownFunction);
                }
                if arguments.len() == 0 {
                    return Err(EvalError::MissingArgument);
                }
                let a = match self.walk(&arguments[0], steps, bindings) {
                    Ok(value) => value,
                    Err(e) => {
                        return Err(e);
                    },
                };
                let b = if arguments.len() > 1 {
                    match self.walk(&arguments[1], steps, bindings) {
                        Ok(value) => value,
                        Err(e) => {
                            return Err(e);
                        },
                    }
                } else {
                    Operand::zero()
                };
                Ok(self.take_step(Operation::Call(name.clone()), a, b, steps, Ghost(bindings@)))
            },
            Expr::Let(name, value) => {
                let v = match self.walk(value, steps, bindings) {
                    Ok(value) => value,
                    Err(e) => {
                        return Err(e);
                    },
                };
                let ghost before = binding_views(bindings@);
                let ghost base = Progress::start(self.variables()).env;
                bindings.push(Binding { name: name.clone(), value: v.duplicate() });
                proof {
                    let after = binding_views(bindings@);
                    assert(after == before.push((name@, v@)));
                    assert(after.drop_last() == before);
                    assert(base.union_prefer_right(bound(after)) == base.union_prefer_right(
                        bound(before),
                    ).insert(name@, v@));
                }
                Ok(v)
            },
        }
    }

    /// Adds one step and returns the operand that stands for its outcome.
    fn take_step(
        &self,
        operation: Operation,
        left: Operand,
        right: Operand,
        steps: &mut Vec<Step>,
        Ghost(bindings): Ghost<Seq<Binding>>,
    ) -> (r: Operand)
        requires
            steps_ok(step_views(old(steps)@)),
            operand_ok(left@, old(steps)@.len() as int),
            operand_ok(right@, old(steps)@.len() as int),
            bindings_ok(binding_views(bindings), old(steps)@.len() as int),
        ensures
            (r@, self.progress(final(steps)@, bindings)) == self.progress(
                old(steps)@,
                bindings,
            ).with_step(operation@, left@, right@),
            steps_ok(step_views(final(steps)@)),
            bindings_ok(binding_views(bindings), final(steps)@.len() as int),
            operand_ok(r@, final(steps)@.len() as int),
            final(steps)@.len() == old(steps)@.len() + 1,
    {
        let index = steps.len();
        let ghost before = step_views(steps@);
        let step = Step { operation, left, right };
        steps.push(step);
        proof {
            assert(step_views(steps@) == before.push(step@));
        }
        Operand::Step(index)
    }

    /// Binds the names that an evaluation binds, in its order, and returns the value of the
    /// expression. `values` holds the outcome of each step of the evaluation, as a bit pattern.
    pub fn conclude(&mut self, evaluation: &Evaluation, values: &Vec<u64>) -> (r: Number)
        requires
            evaluation.wf(),
            values@.len() == evaluation.steps@.len(),
        ensures
            r@ == resolved(evaluation.result@, values@),
            final(self).variables() == committed(
                old(self).variables(),
                evaluation.bindings_view(),
                values@,
            ),
            final(self).functions() == old(self).functions(),
    {
        let ghost list = evaluation.bindings_view();
        let mut i: usize = 0;
        while i < evaluation.bindings.len()
            invariant
                i <= evaluation.bindings@.len(),
                list == evaluation.bindings_view(),
                evaluation.wf(),
                values@.len() == evaluation.steps@.len(),
                self.variables() == committed(
                    old(self).variables(),
                    list.subrange(0, i as int),
                    values@,
                ),
                self.functions() == old(self).functions(),
            decreases evaluation.bindings@.len() - i,
        {
            let binding = &evaluation.bindings[i];
            proof {
                assert(list[i as int] == (binding.name@, binding.value@));
                let upto = list.subrange(0, i + 1);
                assert(upto.drop_last() == list.subrange(0, i as int));
                assert(upto.last() == list[i as int]);
            }
            let value = binding.value.resolve(values);
            self.set_variable(binding.name.clone(), value);
            i += 1;
        }
        proof {
            assert(list.subrange(0, list.len() as int) == list);
        }
        evaluation.result.resolve(values)
    }
}

/// An expression that reads no name and binds none: numbers, joined by operators and handed
/// to functions. Of a call, only the two arguments that are evaluated count.
pub open spec fn is_closed(e: ExprView) -> bool
    decreases e,
{
    match e {
        ExprView::Number(_) => true,
        ExprView::Variable(_) => false,
        ExprView::BinaryOp(left, _, right) => is_closed(*left) && is_closed(*right),
        ExprView::FunctionCall(_, arguments) => (arguments.len() > 0 ==> is_closed(arguments[0]))
            && (arguments.len() > 1 ==> is_closed(arguments[1])),
        ExprView::Let(_, _) => false,
    }
}

/// The evaluation of a closed expression goes the same way from any two states of progress
/// that hold the same steps, and leaves what the names stand for, and the bindings, alone.
proof fn lemma_closed_frame(e: ExprView, functions: Set<Seq<char>>, p: Progress, q: Progress)
    requires
        is_closed(e),
        p.steps == q.steps,
    ensures
        match evaluated(e, functions, p) {
            Ok(a) => {
                &&& evaluated(e, functions, q) matches Ok(b)
                &&& a.0 == b.0
                &&& a.1.steps == b.1.steps
                &&& a.1.env == p.env
                &&& a.1.bindings == p.bindings
                &&& b.1.env == q.env
                &&& b.1.bindings == q.bindings
            },
            Err(x) => evaluated(e, functions, q) == Err::<(OperandView, Progress), EvalError>(x),
        },
    decreases e,
{
    match e {
        ExprView::BinaryOp(left, _, right) => {
            lemma_closed_frame(*left, functions, p, q);
            if evaluated(*left, functions, p) is Ok {
                let l = evaluated(*left, functions, p)->Ok_0;
                let m = evaluated(*left, functions, q)->Ok_0;
                lemma_closed_frame(*right, functions, l.1, m.1);
            }
        },
        ExprView::FunctionCall(_, arguments) => {
            if arguments.len() > 0 {
                lemma_closed_frame(arguments[0], functions, p, q);
                if arguments.len() > 1 && evaluated(arguments[0], functions, p) is Ok {
                    let a = evaluated(arguments[0], functions, p)->Ok_0;
                    let b = evaluated(arguments[0], functions, q)->Ok_0;
                    lemma_closed_frame(arguments[1], functions, a.1, b.1);
                }
            }
        },
        _ => {},
    }
}

/// Evaluation of an expression without names is pure: two contexts with the same functions,
/// whatever their variables, are left with the same steps on the same operands and with the
/// same operand for the value, or fail alike; and no name is bound, so that the context is
/// after the evaluation what it was before.
pub proof fn law_closed_evaluation_is_pure(
    e: ExprView,
    functions: Set<Seq<char>>,
    first: Map<Seq<char>, NumberView>,
    second: Map<Seq<char>, NumberView>,
    values: Seq<u64>,
)
    requires
        is_closed(e),
    ensures
        match evaluated(e, functions, Progress::start(first)) {
            Ok(a) => {
                &&& evaluated(e, functions, Progress::start(second)) matches Ok(b)
                &&& a.0 == b.0
                &&& a.1.steps == b.1.steps
                &&& a.1.bindings == Seq::<(Seq<char>, OperandView)>::empty()
                &&& b.1.bindings == Seq::<(Seq<char>, OperandView)>::empty()
                &&& committed(first, a.1.bindings, values) == first
                &&& committed(second, b.1.bindings, values) == second
            },
            Err(x) => evaluated(e, functions, Progress::start(second)) == Err::<
                (OperandView, Progress),
                EvalError,
            >(x),
        },
{
    lemma_closed_frame(e, functions, Progress::start(first), Progress::start(second));
}

} // verus!
