//! Expression trees and their mathematical view.

use vstd::prelude::*;
use vstd::std_specs::cmp::PartialEqSpecImpl;
use crate::number::{Complex, ComplexValue, Fraction, Integer, Rational};

verus! {

/// How a rational number asks to be written out. It never changes what the
/// number is.
#[derive(Clone, Copy, Debug, PartialEq, Eq, Structural)]
pub enum RationalRepresentation {
    Fraction,
    Decimal,
}

impl RationalRepresentation {
    pub open spec fn spec_merge(self, other: RationalRepresentation) -> RationalRepresentation {
        if self == other {
            self
        } else {
            RationalRepresentation::Decimal
        }
    }

    /// The representation of a number made from two others: the one they
    /// share, and decimal where they differ.
    #[verifier::when_used_as_spec(spec_merge)]
    pub fn merge(self, other: RationalRepresentation) -> (merged: RationalRepresentation)
        ensures
            merged == self.spec_merge(other),
    {
        if self == other {
            self
        } else {
            RationalRepresentation::Decimal
        }
    }
}

#[derive(Clone, Copy, Debug, PartialEq, Eq, Structural)]
pub enum UnaryOperator {
    Negation,
    Not,
}

#[derive(Clone, Copy, Debug, PartialEq, Eq, Structural)]
pub enum BinaryOperator {
    Sum,
    Difference,
    Product,
    Quotient,
    Remainder,
    Power,
    Equal,
    NotEqual,
    LessThan,
    LessThanOrEqual,
    GreaterThan,
    GreaterThanOrEqual,
    And,
    Or,
}

impl BinaryOperator {
    /// `+ - * / % ^`
    pub open spec fn is_arithmetic(self) -> bool {
        self is Sum || self is Difference || self is Product || self is Quotient
            || self is Remainder || self is Power
    }

    /// `< <= > >=`
    pub open spec fn is_ordering(self) -> bool {
        self is LessThan || self is LessThanOrEqual || self is GreaterThan
            || self is GreaterThanOrEqual
    }

    /// `== !=`
    pub open spec fn is_equality(self) -> bool {
        self is Equal || self is NotEqual
    }

    /// `&& ||`
    pub open spec fn is_logical(self) -> bool {
        self is And || self is Or
    }
}

/// What a matrix is: its shape and its elements, row after row.
pub struct MatrixValue {
    pub rows: nat,
    pub columns: nat,
    pub elements: Seq<Expr>,
}

/// What an expression is: the tree, with mathematical numbers at its leaves.
pub enum Expr {
    Variable(Seq<char>),
    Function(Seq<char>, Seq<Expr>),
    Integer(int),
    Rational(Fraction, RationalRepresentation),
    Complex(ComplexValue, RationalRepresentation),
    Vector(Seq<Expr>),
    Matrix(MatrixValue),
    Boolean(bool),
    Unary(UnaryOperator, Box<Expr>),
    Binary(BinaryOperator, Box<Expr>, Box<Expr>),
}

/// The views of a list of expressions, in order.
pub open spec fn views(list: Seq<Expression>) -> Seq<Expr>
    decreases list,
{
    Seq::new(
        list.len(),
        |i: int|
            if 0 <= i < list.len() {
                list[i].model()
            } else {
                Expr::Boolean(false)
            },
    )
}

/// A rectangular matrix of expressions, stored row after row.
#[derive(Debug)]
pub struct Matrix {
    rows: usize,
    columns: usize,
    elements: Vec<Expression>,
}

impl Matrix {
    /// There are as many elements as the shape says.
    #[verifier::type_invariant]
    pub open spec fn rectangular(&self) -> bool {
        self@.rows * self@.columns == self@.elements.len()
    }

    pub closed spec fn model(&self) -> MatrixValue
        decreases self,
    {
        MatrixValue {
            rows: self.rows as nat,
            columns: self.columns as nat,
            elements: views(self.elements@),
        }
    }
}

impl View for Matrix {
    type V = MatrixValue;

    open spec fn view(&self) -> MatrixValue {
        self.model()
    }
}

/// An expression: a variable, a call, a number, a vector or matrix, a
/// boolean, or an operator over expressions.
#[derive(Debug)]
pub enum Expression {
    Variable(String),
    Function(String, Vec<Expression>),
    Integer(Integer),
    Rational(Rational, RationalRepresentation),
    Complex(Complex, RationalRepresentation),
    Vector(Vec<Expression>),
    Matrix(Matrix),
    Boolean(bool),
    Unary(UnaryOperator, Box<Expression>),
    Binary(BinaryOperator, Box<Expression>, Box<Expression>),
}

impl Expression {
    /// The mathematical tree that this expression stands for.
    pub open spec fn model(&self) -> Expr
        decreases self,
    {
        match self {
            Expression::Variable(name) => Expr::Variable(name@),
            Expression::Function(name, arguments) => Expr::Function(name@, views(arguments@)),
            Expression::Integer(n) => Expr::Integer(n@),
            Expression::Rational(q, representation) => Expr::Rational(q@, *representation),
            Expression::Complex(z, representation) => Expr::Complex(z@, *representation),
            Expression::Vector(elements) => Expr::Vector(views(elements@)),
            Expression::Matrix(m) => Expr::Matrix(m.model()),
            Expression::Boolean(b) => Expr::Boolean(*b),
            Expression::Unary(operator, a) => Expr::Unary(*operator, Box::new(a.model())),
            Expression::Binary(operator, a, b) => Expr::Binary(
                *operator,
                Box::new(a.model()),
                Box::new(b.model()),
            ),
        }
    }
}

impl View for Expression {
    type V = Expr;

    open spec fn view(&self) -> Expr {
        self.model()
    }
}

impl MatrixValue {
    /// The matrix of the same shape whose every element is the negation of
    /// the element in its place.
    pub open spec fn negation(self) -> MatrixValue {
        MatrixValue {
            rows: self.rows,
            columns: self.columns,
            elements: Seq::new(
                self.elements.len(),
                |i: int| Expr::Unary(UnaryOperator::Negation, Box::new(self.elements[i])),
            ),
        }
    }
}

/// Copies a list of expressions, element by element.
fn clone_list(list: &Vec<Expression>) -> (copy: Vec<Expression>)
    ensures
        views(copy@) == views(list@),
    decreases list,
{
    let mut copy: Vec<Expression> = Vec::new();
    let mut i: usize = 0;
    while i < list.len()
        invariant
            i <= list.len(),
            copy.len() == i,
            forall|j: int| 0 <= j < i ==> copy[j]@ == list[j]@,
        decreases list.len() - i,
    {
        copy.push(list[i].duplicate());
        i += 1;
    }
    assert(views(copy@) =~= views(list@));
    copy
}

/// Whether two lists hold the same expressions in the same order.
fn same_list(a: &Vec<Expression>, b: &Vec<Expression>) -> (same: bool)
    ensures
        same == (views(a@) == views(b@)),
    decreases a,
{
    if a.len() != b.len() {
        assert(views(a@).len() != views(b@).len());
        return false;
    }
    let mut i: usize = 0;
    while i < a.len()
        invariant
            i <= a.len(),
            a.len() == b.len(),
            forall|j: int| 0 <= j < i ==> a[j]@ == b[j]@,
        decreases a.len() - i,
    {
        if !a[i].same(&b[i]) {
            assert(views(a@)[i as int] != views(b@)[i as int]);
            return false;
        }
        i += 1;
    }
    assert(views(a@) =~= views(b@));
    true
}

impl Matrix {
    /// The matrix of `rows` rows and `columns` columns that holds `elements`
    /// row after row; nothing where their number is not `rows * columns`.
    pub fn new(rows: usize, columns: usize, elements: Vec<Expression>) -> (made: Option<Matrix>)
        ensures
            made is Some <==> rows * columns == elements.len(),
            made matches Some(m) ==> m@ == (MatrixValue {
                rows: rows as nat,
                columns: columns as nat,
                elements: views(elements@),
            }),
    {
        match rows.checked_mul(columns) {
            Some(size) => {
                if size == elements.len() {
                    Some(Matrix { rows, columns, elements })
                } else {
                    None
                }
            },
            None => None,
        }
    }

    pub fn rows(&self) -> (rows: usize)
        ensures
            rows == self@.rows,
    {
        self.rows
    }

    pub fn columns(&self) -> (columns: usize)
        ensures
            columns == self@.columns,
    {
        self.columns
    }

    /// The elements, row after row.
    pub fn elements(&self) -> (elements: &Vec<Expression>)
        ensures
            views(elements@) == self@.elements,
            elements.len() == self@.rows * self@.columns,
    {
        proof {
            use_type_invariant(self);
        }
        &self.elements
    }

    /// The matrix of the negations of the elements.
    pub fn negation(&self) -> (negated: Matrix)
        ensures
            negated@ == self@.negation(),
    {
        let mut elements: Vec<Expression> = Vec::new();
        let mut i: usize = 0;
        while i < self.elements.len()
            invariant
                i <= self.elements.len(),
                elements.len() == i,
                forall|j: int|
                    0 <= j < i ==> elements[j]@ == Expr::Unary(
                        UnaryOperator::Negation,
                        Box::new(self.elements[j]@),
                    ),
            decreases self.elements.len() - i,
        {
            let element = self.elements[i].clone();
            elements.push(Expression::Unary(UnaryOperator::Negation, Box::new(element)));
            i += 1;
        }
        proof {
            use_type_invariant(self);
        }
        let negated = Matrix { rows: self.rows, columns: self.columns, elements };
        assert(negated@.elements =~= self@.negation().elements);
        negated
    }
}

impl Expression {
    /// A copy of the whole tree.
    pub fn duplicate(&self) -> (copy: Expression)
        ensures
            copy@ == self@,
        decreases self,
    {
        match self {
            Expression::Variable(name) => Expression::Variable(name.clone()),
            Expression::Function(name, arguments) => Expression::Function(
                name.clone(),
                clone_list(arguments),
            ),
            Expression::Integer(n) => Expression::Integer(n.clone()),
            Expression::Rational(q, representation) => Expression::Rational(
                q.clone(),
                *representation,
            ),
            Expression::Complex(z, representation) => Expression::Complex(
                z.clone(),
                *representation,
            ),
            Expression::Vector(elements) => Expression::Vector(clone_list(elements)),
            Expression::Matrix(m) => {
                proof {
                    use_type_invariant(m);
                    reveal_with_fuel(Expression::model, 2);
                }
                Expression::Matrix(
                    Matrix { rows: m.rows, columns: m.columns, elements: clone_list(&m.elements) },
                )
            },
            Expression::Boolean(b) => Expression::Boolean(*b),
            Expression::Unary(operator, a) => Expression::Unary(*operator, Box::new(a.duplicate())),
            Expression::Binary(operator, a, b) => Expression::Binary(
                *operator,
                Box::new(a.duplicate()),
                Box::new(b.duplicate()),
            ),
        }
    }

    /// Whether two trees are the same: the same shape, names and booleans,
    /// and numbers of the same kind and value.
    pub fn same(&self, other: &Expression) -> (same: bool)
        ensures
            same == (self@ == other@),
        decreases self,
    {
        match self {
            Expression::Variable(name) => match other {
                Expression::Variable(other_name) => *name == *other_name,
                _ => false,
            },
            Expression::Function(name, arguments) => match other {
                Expression::Function(other_name, other_arguments) => *name == *other_name
                    && same_list(arguments, other_arguments),
                _ => false,
            },
            Expression::Integer(n) => match other {
                Expression::Integer(m) => *n == *m,
                _ => false,
            },
            Expression::Rational(q, representation) => match other {
                Expression::Rational(p, other_representation) => *q == *p && *representation
                    == *other_representation,
                _ => false,
            },
            Expression::Complex(z, representation) => match other {
                Expression::Complex(w, other_representation) => *z == *w && *representation
                    == *other_representation,
                _ => false,
            },
            Expression::Vector(elements) => match other {
                Expression::Vector(other_elements) => same_list(elements, other_elements),
                _ => false,
            },
            Expression::Matrix(m) => match other {
                Expression::Matrix(n) => {
                    proof {
                        reveal_with_fuel(Expression::model, 2);
                    }
                    m.rows == n.rows && m.columns == n.columns && same_list(
                        &m.elements,
                        &n.elements,
                    )
                },
                _ => false,
            },
            Expression::Boolean(b) => match other {
                Expression::Boolean(c) => *b == *c,
                _ => false,
            },
            Expression::Unary(operator, a) => match other {
                Expression::Unary(other_operator, c) => *operator == *other_operator && a.same(c),
                _ => false,
            },
            Expression::Binary(operator, a, b) => match other {
                Expression::Binary(other_operator, c, d) => *operator == *other_operator && a.same(
                    c,
                ) && b.same(d),
                _ => false,
            },
        }
    }
}

impl Clone for Matrix {
    fn clone(&self) -> (copy: Matrix)
        ensures
            copy@ == self@,
    {
        proof {
            use_type_invariant(self);
        }
        Matrix { rows: self.rows, columns: self.columns, elements: clone_list(&self.elements) }
    }
}

impl Clone for Expression {
    fn clone(&self) -> (copy: Expression)
        ensures
            copy@ == self@,
    {
        self.duplicate()
    }
}

impl PartialEq for Expression {
    fn eq(&self, other: &Expression) -> (same: bool) {
        self.same(other)
    }
}

impl PartialEqSpecImpl for Expression {
    open spec fn obeys_eq_spec() -> bool {
        true
    }

    open spec fn eq_spec(&self, other: &Expression) -> bool {
        self@ == other@
    }
}

} // verus!
