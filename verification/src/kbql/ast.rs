//! The tree that a query parses to, and its mathematical model.

use vstd::prelude::*;

verus! {

/// A number with a fraction, kept as the digits that the query spelled:
/// an optional `-`, one or more digits, `.`, and one or more digits.
#[derive(PartialEq, Eq, Debug)]
pub struct Decimal {
    text: String,
}

impl View for Decimal {
    type V = Seq<char>;

    closed spec fn view(&self) -> Seq<char> {
        self.text@
    }
}

impl Decimal {
    /// Wraps the spelling of a number.
    pub(crate) fn from_text(text: String) -> (decimal: Decimal)
        ensures
            decimal@ == text@,
    {
        Decimal { text }
    }

    /// A copy with the same spelling.
    pub fn clone(&self) -> (copy: Decimal)
        ensures
            copy@ == self@,
    {
        Decimal { text: self.text.clone() }
    }

    /// The number as the query spelled it.
    pub fn as_str(&self) -> (text: &str)
        ensures
            text@ == self@,
    {
        self.text.as_str()
    }
}

/// A constant in a query.
#[derive(PartialEq, Debug)]
pub enum Literal {
    Integer(i64),
    Float(Decimal),
    String(String),
}

/// The smallest unit of a query.
#[derive(PartialEq, Debug)]
pub enum Term {
    Literal(Literal),
    /// A dotted path of identifiers, outermost first.
    Lookup(Vec<String>),
    /// An expression in parentheses.
    Expression(Box<Expression>),
    Not(Box<Term>),
}

/// A boolean combination of terms.
#[derive(PartialEq, Debug)]
pub enum Expression {
    Term(Term),
    Is(Box<Expression>, Box<Expression>),
    IsNot(Box<Expression>, Box<Expression>),
    And(Box<Expression>, Box<Expression>),
    Or(Box<Expression>, Box<Expression>),
}

/// A parsed query: the filter, and the terms to return in source order
/// (empty where the query names none).
#[derive(PartialEq, Debug)]
pub struct Query {
    pub expression: Expression,
    pub returning: Vec<Term>,
}

/// One of the four binary operators.
#[derive(Clone, Copy, Debug, PartialEq, Eq, Structural)]
pub enum Operator {
    Is,
    IsNot,
    And,
    Or,
}

pub ghost enum LiteralView {
    Integer(int),
    Float(Seq<char>),
    String(Seq<char>),
}

pub ghost enum TermView {
    Literal(LiteralView),
    Lookup(Seq<Seq<char>>),
    Expression(Box<ExpressionView>),
    Not(Box<TermView>),
}

pub ghost enum ExpressionView {
    Term(TermView),
    Is(Box<ExpressionView>, Box<ExpressionView>),
    IsNot(Box<ExpressionView>, Box<ExpressionView>),
    And(Box<ExpressionView>, Box<ExpressionView>),
    Or(Box<ExpressionView>, Box<ExpressionView>),
}

pub ghost struct QueryView {
    pub expression: ExpressionView,
    pub returning: Seq<TermView>,
}

impl View for Literal {
    type V = LiteralView;

    open spec fn view(&self) -> LiteralView {
        match self {
            Literal::Integer(value) => LiteralView::Integer(*value as int),
            Literal::Float(decimal) => LiteralView::Float(decimal@),
            Literal::String(text) => LiteralView::String(text@),
        }
    }
}

/// The model of the strings of a path.
pub open spec fn path_view(path: Seq<String>) -> Seq<Seq<char>> {
    Seq::new(path.len(), |i: int| path[i]@)
}

/// The model of a term.
pub open spec fn term_view(term: Term) -> TermView
    decreases term,
{
    match term {
        Term::Literal(literal) => TermView::Literal(literal@),
        Term::Lookup(path) => TermView::Lookup(path_view(path@)),
        Term::Expression(inner) => TermView::Expression(Box::new(expression_view(*inner))),
        Term::Not(inner) => TermView::Not(Box::new(term_view(*inner))),
    }
}

/// The model of an expression.
pub open spec fn expression_view(expression: Expression) -> ExpressionView
    decreases expression,
{
    match expression {
        Expression::Term(term) => ExpressionView::Term(term_view(term)),
        Expression::Is(lhs, rhs) => ExpressionView::Is(
            Box::new(expression_view(*lhs)),
            Box::new(expression_view(*rhs)),
        ),
        Expression::IsNot(lhs, rhs) => ExpressionView::IsNot(
            Box::new(expression_view(*lhs)),
            Box::new(expression_view(*rhs)),
        ),
        Expression::And(lhs, rhs) => ExpressionView::And(
            Box::new(expression_view(*lhs)),
            Box::new(expression_view(*rhs)),
        ),
        Expression::Or(lhs, rhs) => ExpressionView::Or(
            Box::new(expression_view(*lhs)),
            Box::new(expression_view(*rhs)),
        ),
    }
}

/// The models of a list of terms.
pub open spec fn terms_view(terms: Seq<Term>) -> Seq<TermView> {
    Seq::new(terms.len(), |i: int| term_view(terms[i]))
}

impl View for Term {
    type V = TermView;

    open spec fn view(&self) -> TermView {
        term_view(*self)
    }
}

impl View for Expression {
    type V = ExpressionView;

    open spec fn view(&self) -> ExpressionView {
        expression_view(*self)
    }
}

impl View for Query {
    type V = QueryView;

    open spec fn view(&self) -> QueryView {
        QueryView { expression: self.expression@, returning: terms_view(self.returning@) }
    }
}

/// The expression that joins `lhs` and `rhs` by `operator`.
pub open spec fn combine(
    operator: Operator,
    lhs: ExpressionView,
    rhs: ExpressionView,
) -> ExpressionView {
    match operator {
        Operator::Is => ExpressionView::Is(Box::new(lhs), Box::new(rhs)),
        Operator::IsNot => ExpressionView::IsNot(Box::new(lhs), Box::new(rhs)),
        Operator::And => ExpressionView::And(Box::new(lhs), Box::new(rhs)),
        Operator::Or => ExpressionView::Or(Box::new(lhs), Box::new(rhs)),
    }
}

/// The left fold of a chain: `first`, joined with each operand of `rest` in
/// turn, so that every operator takes all that stands before it as its left
/// side.
pub open spec fn fold_left(
    first: ExpressionView,
    rest: Seq<(Operator, ExpressionView)>,
) -> ExpressionView
    decreases rest.len(),
{
    if rest.len() == 0 {
        first
    } else {
        combine(rest.last().0, fold_left(first, rest.drop_last()), rest.last().1)
    }
}

impl Clone for Term {
    fn clone(&self) -> (copy: Term)
        ensures
            copy@ == self@,
        decreases self,
    {
        match self {
            Term::Literal(literal) => {
                let copy = match literal {
                    Literal::Integer(value) => Literal::Integer(*value),
                    Literal::Float(decimal) => Literal::Float(decimal.clone()),
                    Literal::String(text) => Literal::String(text.clone()),
                };
                Term::Literal(copy)
            },
            Term::Lookup(path) => {
                let mut copy: Vec<String> = Vec::new();
                let mut i: usize = 0;
                while i < path.len()
                    invariant
                        i <= path.len(),
                        copy@.len() == i,
                        forall|j: int| 0 <= j < i ==> copy@[j]@ == path@[j]@,
                    decreases path.len() - i,
                {
                    copy.push(path[i].clone());
                    i += 1;
                }
                assert(path_view(copy@) =~= path_view(path@));
                Term::Lookup(copy)
            },
            Term::Expression(inner) => Term::Expression(Box::new((**inner).clone())),
            Term::Not(inner) => Term::Not(Box::new((**inner).clone())),
        }
    }
}

impl Clone for Expression {
    fn clone(&self) -> (copy: Expression)
        ensures
            copy@ == self@,
        decreases self,
    {
        match self {
            Expression::Term(term) => Expression::Term(term.clone()),
            Expression::Is(lhs, rhs) => Expression::Is(
                Box::new((**lhs).clone()),
                Box::new((**rhs).clone()),
            ),
            Expression::IsNot(lhs, rhs) => Expression::IsNot(
                Box::new((**lhs).clone()),
                Box::new((**rhs).clone()),
            ),
            Expression::And(lhs, rhs) => Expression::And(
                Box::new((**lhs).clone()),
                Box::new((**rhs).clone()),
            ),
            Expression::Or(lhs, rhs) => Expression::Or(
                Box::new((**lhs).clone()),
                Box::new((**rhs).clone()),
            ),
        }
    }
}

impl Expression {
    /// Joins two expressions by an operator.
    pub fn binary(operator: Operator, lhs: Expression, rhs: Expression) -> (joined: Expression)
        ensures
            joined@ == combine(operator, lhs@, rhs@),
    {
        match operator {
            Operator::Is => Expression::Is(Box::new(lhs), Box::new(rhs)),
            Operator::IsNot => Expression::IsNot(Box::new(lhs), Box::new(rhs)),
            Operator::And => Expression::And(Box::new(lhs), Box::new(rhs)),
            Operator::Or => Expression::Or(Box::new(lhs), Box::new(rhs)),
        }
    }
}

} // verus!
