//! Constraints: predicates on the fields of a parsed log line.

use crate::parser::log_line_parse_result::LogLineParseResult;
use vstd::prelude::*;

verus! {

/// A predicate on the fields of a parsed log line.
pub trait Constraint {
    /// The field maps on which `check` may be called. For every constraint
    /// of this library these are all field maps. A combinator asks of a
    /// child only what it needs in order to evaluate it, so a child that may
    /// not be evaluated on some field map is provably not evaluated there.
    spec fn checkable(&self, fields: Map<Seq<char>, Seq<char>>) -> bool;

    /// Whether a line with these fields passes.
    spec fn holds(&self, fields: Map<Seq<char>, Seq<char>>) -> bool;

    fn check<L: LogLineParseResult>(&self, log_line: &L) -> (passed: bool)
        requires
            self.checkable(log_line.fields()),
        ensures
            passed == self.holds(log_line.fields()),
    ;
}

/// A constraint that echoes a boolean value, whatever the line.
#[derive(Debug, Eq, PartialEq)]
pub struct BooleanConstraint {
    pub val: bool,
}

impl BooleanConstraint {
    pub fn new(val: bool) -> (constraint: Self)
        ensures
            constraint.val == val,
    {
        Self { val }
    }
}

impl Constraint for BooleanConstraint {
    open spec fn checkable(&self, fields: Map<Seq<char>, Seq<char>>) -> bool {
        true
    }

    open spec fn holds(&self, fields: Map<Seq<char>, Seq<char>>) -> bool {
        self.val
    }

    fn check<L: LogLineParseResult>(&self, log_line: &L) -> (passed: bool) {
        self.val
    }
}

/// The logical AND of two other constraints. The right one is evaluated only
/// where the left one holds.
pub struct ConjunctionConstraint<A: Constraint, B: Constraint> {
    pub left: Box<A>,
    pub right: Box<B>,
}

impl<A: Constraint, B: Constraint> ConjunctionConstraint<A, B> {
    pub fn new(left: Box<A>, right: Box<B>) -> (constraint: Self)
        ensures
            constraint.left == left,
            constraint.right == right,
    {
        Self { left, right }
    }
}

impl<A: Constraint, B: Constraint> Constraint for ConjunctionConstraint<A, B> {
    open spec fn checkable(&self, fields: Map<Seq<char>, Seq<char>>) -> bool {
        self.left.checkable(fields) && (self.left.holds(fields) ==> self.right.checkable(fields))
    }

    open spec fn holds(&self, fields: Map<Seq<char>, Seq<char>>) -> bool {
        self.left.holds(fields) && self.right.holds(fields)
    }

    fn check<L: LogLineParseResult>(&self, log_line: &L) -> (passed: bool) {
        self.left.check(log_line) && self.right.check(log_line)
    }
}

/// The logical OR of two other constraints. The right one is evaluated only
/// where the left one does not hold.
pub struct DisjunctionConstraint<A: Constraint, B: Constraint> {
    pub left: Box<A>,
    pub right: Box<B>,
}

impl<A: Constraint, B: Constraint> DisjunctionConstraint<A, B> {
    pub fn new(left: Box<A>, right: Box<B>) -> (constraint: Self)
        ensures
            constraint.left == left,
            constraint.right == right,
    {
        Self { left, right }
    }
}

impl<A: Constraint, B: Constraint> Constraint for DisjunctionConstraint<A, B> {
    open spec fn checkable(&self, fields: Map<Seq<char>, Seq<char>>) -> bool {
        self.left.checkable(fields) && (!self.left.holds(fields) ==> self.right.checkable(fields))
    }

    open spec fn holds(&self, fields: Map<Seq<char>, Seq<char>>) -> bool {
        self.left.holds(fields) || self.right.holds(fields)
    }

    fn check<L: LogLineParseResult>(&self, log_line: &L) -> (passed: bool) {
        self.left.check(log_line) || self.right.check(log_line)
    }
}

/// Whether `fields` holds `key` with exactly the value `value`.
pub open spec fn field_equals(
    fields: Map<Seq<char>, Seq<char>>,
    key: Seq<char>,
    value: Seq<char>,
) -> bool {
    fields.contains_key(key) && fields[key] == value
}

/// A simple equality constraint for a key-value pair.
pub struct SimpleEqualityConstraint {
    pub field_name: String,
    pub field_value: String,
}

impl SimpleEqualityConstraint {
    /// Create a new equality constraint.
    pub fn new(field_name: &str, field_value: &str) -> (constraint: Self)
        ensures
            constraint.field_name@ == field_name@,
            constraint.field_value@ == field_value@,
    {
        SimpleEqualityConstraint {
            field_name: field_name.to_owned(),
            field_value: field_value.to_owned(),
        }
    }
}

impl Constraint for SimpleEqualityConstraint {
    open spec fn checkable(&self, fields: Map<Seq<char>, Seq<char>>) -> bool {
        true
    }

    open spec fn holds(&self, fields: Map<Seq<char>, Seq<char>>) -> bool {
        field_equals(fields, self.field_name@, self.field_value@)
    }

    fn check<L: LogLineParseResult>(&self, log_line: &L) -> (passed: bool) {
        match log_line.get_field(self.field_name.as_str()) {
            Some(field) => *field == self.field_value,
            None => false,
        }
    }
}

/// What a compiled constraint states, apart from how its strings are held.
pub enum ConstraintModel {
    Equality(Seq<char>, Seq<char>),
    Conjunction(Box<ConstraintModel>, Box<ConstraintModel>),
    Disjunction(Box<ConstraintModel>, Box<ConstraintModel>),
}

/// Whether a line with these fields passes the constraint.
pub open spec fn model_holds(constraint: ConstraintModel, fields: Map<Seq<char>, Seq<char>>) -> bool
    decreases constraint,
{
    match constraint {
        ConstraintModel::Equality(key, value) => field_equals(fields, key, value),
        ConstraintModel::Conjunction(left, right) => model_holds(*left, fields) && model_holds(
            *right,
            fields,
        ),
        ConstraintModel::Disjunction(left, right) => model_holds(*left, fields) || model_holds(
            *right,
            fields,
        ),
    }
}

/// A constraint in closed form: a leaf, or the conjunction or disjunction of
/// two such constraints. A compiled query is one whose leaves are equalities.
pub enum ConstraintTree<C: Constraint> {
    Equality(C),
    Conjunction(Box<ConstraintTree<C>>, Box<ConstraintTree<C>>),
    Disjunction(Box<ConstraintTree<C>>, Box<ConstraintTree<C>>),
}

/// Whether a line with these fields passes the tree.
pub open spec fn tree_holds<C: Constraint>(
    tree: ConstraintTree<C>,
    fields: Map<Seq<char>, Seq<char>>,
) -> bool
    decreases tree,
{
    match tree {
        ConstraintTree::Equality(leaf) => leaf.holds(fields),
        ConstraintTree::Conjunction(left, right) => tree_holds(*left, fields) && tree_holds(
            *right,
            fields,
        ),
        ConstraintTree::Disjunction(left, right) => tree_holds(*left, fields) || tree_holds(
            *right,
            fields,
        ),
    }
}

/// Whether the tree may be evaluated on these fields: whether every leaf
/// that the evaluation reaches may be. The right side of a conjunction is
/// reached only where the left side holds, that of a disjunction only where
/// the left side does not.
pub open spec fn tree_checkable<C: Constraint>(
    tree: ConstraintTree<C>,
    fields: Map<Seq<char>, Seq<char>>,
) -> bool
    decreases tree,
{
    match tree {
        ConstraintTree::Equality(leaf) => leaf.checkable(fields),
        ConstraintTree::Conjunction(left, right) => tree_checkable(*left, fields) && (tree_holds(
            *left,
            fields,
        ) ==> tree_checkable(*right, fields)),
        ConstraintTree::Disjunction(left, right) => tree_checkable(*left, fields) && (!tree_holds(
            *left,
            fields,
        ) ==> tree_checkable(*right, fields)),
    }
}

/// What a tree of equalities states.
pub open spec fn tree_model(tree: ConstraintTree<SimpleEqualityConstraint>) -> ConstraintModel
    decreases tree,
{
    match tree {
        ConstraintTree::Equality(equality) => ConstraintModel::Equality(
            equality.field_name@,
            equality.field_value@,
        ),
        ConstraintTree::Conjunction(left, right) => ConstraintModel::Conjunction(
            Box::new(tree_model(*left)),
            Box::new(tree_model(*right)),
        ),
        ConstraintTree::Disjunction(left, right) => ConstraintModel::Disjunction(
            Box::new(tree_model(*left)),
            Box::new(tree_model(*right)),
        ),
    }
}

impl View for ConstraintTree<SimpleEqualityConstraint> {
    type V = ConstraintModel;

    open spec fn view(&self) -> ConstraintModel {
        tree_model(*self)
    }
}

/// A tree of equalities may be evaluated on every field map, and passes the
/// lines that pass what it states.
pub proof fn lemma_tree_of_equalities(
    tree: ConstraintTree<SimpleEqualityConstraint>,
    fields: Map<Seq<char>, Seq<char>>,
)
    ensures
        tree_checkable(tree, fields),
        tree_holds(tree, fields) == model_holds(tree@, fields),
    decreases tree,
{
    match tree {
        ConstraintTree::Equality(equality) => {},
        ConstraintTree::Conjunction(left, right) => {
            lemma_tree_of_equalities(*left, fields);
            lemma_tree_of_equalities(*right, fields);
        },
        ConstraintTree::Disjunction(left, right) => {
            lemma_tree_of_equalities(*left, fields);
            lemma_tree_of_equalities(*right, fields);
        },
    }
}

impl<C: Constraint> ConstraintTree<C> {
    /// Evaluates the constraint on the fields of a line. The right side of a
    /// conjunction is evaluated only where the left side holds, that of a
    /// disjunction only where the left side does not.
    pub fn evaluate<L: LogLineParseResult>(&self, log_line: &L) -> (passed: bool)
        requires
            tree_checkable(*self, log_line.fields()),
        ensures
            passed == tree_holds(*self, log_line.fields()),
        decreases self,
    {
        match self {
            ConstraintTree::Equality(leaf) => leaf.check(log_line),
            ConstraintTree::Conjunction(left, right) => left.evaluate(log_line) && right.evaluate(
                log_line,
            ),
            ConstraintTree::Disjunction(left, right) => left.evaluate(log_line) || right.evaluate(
                log_line,
            ),
        }
    }
}

impl<C: Constraint> Constraint for ConstraintTree<C> {
    open spec fn checkable(&self, fields: Map<Seq<char>, Seq<char>>) -> bool {
        tree_checkable(*self, fields)
    }

    open spec fn holds(&self, fields: Map<Seq<char>, Seq<char>>) -> bool {
        tree_holds(*self, fields)
    }

    fn check<L: LogLineParseResult>(&self, log_line: &L) -> (passed: bool) {
        self.evaluate(log_line)
    }
}

/// An equality on a key that the fields lack does not hold.
pub proof fn lemma_absent_key_fails(fields: Map<Seq<char>, Seq<char>>, key: Seq<char>, value: Seq<char>)
    requires
        !fields.contains_key(key),
    ensures
        !model_holds(ConstraintModel::Equality(key, value), fields),
{
}

} // verus!
