use vstd::prelude::*;

verus! {

/// Exact, arbitrary-precision rational numbers, carried through unchanged.
#[verifier::external_type_specification]
#[verifier::external_body]
pub struct ExRational(malachite::Rational);

/// An expression tree; every node owns its children. The parser builds sums,
/// differences, products, quotients, numerals, names and calls; `Pow`, `Neg`,
/// `Function` and `Let` are for callers that build trees themselves.
#[derive(Debug, PartialEq, Eq, Hash)]
pub enum Expression {
    Add(Box<Expression>, Box<Expression>),
    Sub(Box<Expression>, Box<Expression>),
    Mul(Box<Expression>, Box<Expression>),
    Div(Box<Expression>, Box<Expression>),
    Pow(Box<Expression>, Box<Expression>),
    Neg(Box<Expression>),
    Rational(malachite::Rational),
    Variable(String),
    Function { name: String, args: Vec<String>, body: Box<Expression>, then: Box<Expression> },
    Call { name: String, arguments: Vec<Box<Expression>> },
    Let { name: String, value: Box<Expression>, then: Box<Expression> },
}

/// The mathematical shape of an [`Expression`]: names as character sequences,
/// argument lists as sequences.
pub enum Expr {
    Add(Box<Expr>, Box<Expr>),
    Sub(Box<Expr>, Box<Expr>),
    Mul(Box<Expr>, Box<Expr>),
    Div(Box<Expr>, Box<Expr>),
    Pow(Box<Expr>, Box<Expr>),
    Neg(Box<Expr>),
    Rational(malachite::Rational),
    Variable(Seq<char>),
    Function { name: Seq<char>, args: Seq<Seq<char>>, body: Box<Expr>, then: Box<Expr> },
    Call { name: Seq<char>, arguments: Seq<Expr> },
    Let { name: Seq<char>, value: Box<Expr>, then: Box<Expr> },
}

impl View for Expression {
    type V = Expr;

    open spec fn view(&self) -> Expr
        decreases self,
    {
        match self {
            Expression::Add(l, r) => Expr::Add(Box::new((**l).view()), Box::new((**r).view())),
            Expression::Sub(l, r) => Expr::Sub(Box::new((**l).view()), Box::new((**r).view())),
            Expression::Mul(l, r) => Expr::Mul(Box::new((**l).view()), Box::new((**r).view())),
            Expression::Div(l, r) => Expr::Div(Box::new((**l).view()), Box::new((**r).view())),
            Expression::Pow(l, r) => Expr::Pow(Box::new((**l).view()), Box::new((**r).view())),
            Expression::Neg(x) => Expr::Neg(Box::new((**x).view())),
            Expression::Rational(v) => Expr::Rational(*v),
            Expression::Variable(n) => Expr::Variable(n@),
            Expression::Function { name, args, body, then } => Expr::Function {
                name: name@,
                args: args@.map_values(|a: String| a@),
                body: Box::new((**body).view()),
                then: Box::new((**then).view()),
            },
            Expression::Call { name, arguments } => Expr::Call {
                name: name@,
                arguments: Seq::new(
                    arguments.len() as nat,
                    |i: int| {
                        if 0 <= i < arguments.len() {
                            (*arguments[i]).view()
                        } else {
                            Expr::Variable(Seq::empty())
                        }
                    },
                ),
            },
            Expression::Let { name, value, then } => Expr::Let {
                name: name@,
                value: Box::new((**value).view()),
                then: Box::new((**then).view()),
            },
        }
    }
}

} // verus!
