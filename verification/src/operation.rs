//! The operators of Lox on values. What needs no floating-point arithmetic is
//! computed here; a sum, a difference, a product or a quotient of two numbers
//! is named as work for the host.
use vstd::prelude::*;
use vstd::string::StringExecFns;
use crate::number::{is_zero, less, less_equal, negate, negated, number_le, number_lt, zero};
use crate::object::{truthy, values_equal, Object, ObjectView};
use crate::token_type::TokenType;

verus! {

/// What applying an operator gives.
#[derive(Debug)]
pub enum Computed {
    /// The value of the operation.
    Value(Object),
    /// The value is that of `left operator right` on numbers, which the host
    /// computes.
    Arithmetic { operator: TokenType, left: u64, right: u64 },
    /// A number was divided by zero.
    DivideByZero { left: u64 },
    /// The operands do not fit the operator; the message says how.
    Failure(String),
}

/// The mathematical value of a [`Computed`].
pub enum ComputedView {
    Value(ObjectView),
    Arithmetic { operator: TokenType, left: u64, right: u64 },
    DivideByZero { left: u64 },
    Failure(Seq<char>),
}

impl View for Computed {
    type V = ComputedView;

    open spec fn view(&self) -> ComputedView {
        match self {
            Computed::Value(v) => ComputedView::Value(v@),
            Computed::Arithmetic { operator, left, right } => ComputedView::Arithmetic {
                operator: *operator,
                left: *left,
                right: *right,
            },
            Computed::DivideByZero { left } => ComputedView::DivideByZero { left: *left },
            Computed::Failure(m) => ComputedView::Failure(m@),
        }
    }
}

/// The message for the operand of a unary `-` that is no number.
pub open spec fn not_a_number() -> Seq<char> {
    "Operand must be a number."@
}

/// The message for operands of a comparison, of `-`, of `*` or of `/` that
/// are not both numbers.
pub open spec fn not_numbers() -> Seq<char> {
    "Operand(s) must be a number."@
}

/// The message for operands of `+` that are neither two numbers nor two
/// strings.
pub open spec fn not_addable() -> Seq<char> {
    "Operands must be two numbers or two strings."@
}

/// The message for a token that is no operator of the kind asked for.
pub open spec fn unknown_operator() -> Seq<char> {
    "Unknown operator."@
}

/// A comparison of two numbers by `operator`.
pub open spec fn compared(operator: TokenType, left: u64, right: u64) -> bool {
    match operator {
        TokenType::Greater => number_lt(right, left),
        TokenType::GreaterEqual => number_le(right, left),
        TokenType::Less => number_lt(left, right),
        _ => number_le(left, right),
    }
}

/// `left operator right`.
///
/// `==` and `!=` take any two values. The comparisons, `-`, `*` and `/` take
/// two numbers, and nothing is taken for a number that is none; `+` takes two
/// numbers or two strings. A division by zero of
/// either sign is a failure of its own.
pub open spec fn binary(operator: TokenType, left: ObjectView, right: ObjectView) -> ComputedView {
    match operator {
        TokenType::EqualEqual => ComputedView::Value(ObjectView::Bool(values_equal(left, right))),
        TokenType::BangEqual => ComputedView::Value(ObjectView::Bool(!values_equal(left, right))),
        TokenType::Greater | TokenType::GreaterEqual | TokenType::Less | TokenType::LessEqual => match (
            left,
            right,
        ) {
            (ObjectView::Number(l), ObjectView::Number(r)) => ComputedView::Value(
                ObjectView::Bool(compared(operator, l, r)),
            ),
            _ => ComputedView::Failure(not_numbers()),
        },
        TokenType::Minus | TokenType::Star => match (left, right) {
            (ObjectView::Number(l), ObjectView::Number(r)) => ComputedView::Arithmetic {
                operator,
                left: l,
                right: r,
            },
            _ => ComputedView::Failure(not_numbers()),
        },
        TokenType::Slash => match (left, right) {
            (ObjectView::Number(l), ObjectView::Number(r)) => if is_zero(r) {
                ComputedView::DivideByZero { left: l }
            } else {
                ComputedView::Arithmetic { operator, left: l, right: r }
            },
            _ => ComputedView::Failure(not_numbers()),
        },
        TokenType::Plus => match (left, right) {
            (ObjectView::Number(l), ObjectView::Number(r)) => ComputedView::Arithmetic {
                operator,
                left: l,
                right: r,
            },
            (ObjectView::String(l), ObjectView::String(r)) => ComputedView::Value(
                ObjectView::String(l + r),
            ),
            _ => ComputedView::Failure(not_addable()),
        },
        _ => ComputedView::Failure(unknown_operator()),
    }
}

/// `operator right`: `!` gives the opposite of the operand's truth, `-` the
/// negated number.
pub open spec fn unary(operator: TokenType, right: ObjectView) -> ComputedView {
    match operator {
        TokenType::Bang => ComputedView::Value(ObjectView::Bool(!truthy(right))),
        TokenType::Minus => match right {
            ObjectView::Number(n) => ComputedView::Value(ObjectView::Number(negated(n))),
            _ => ComputedView::Failure(not_a_number()),
        },
        _ => ComputedView::Failure(unknown_operator()),
    }
}

/// Does the left operand decide `left operator right`, so that the right one
/// is not evaluated? For `or` a true one does, for `and` a false one.
pub open spec fn decided_by_left(operator: TokenType, left: ObjectView) -> bool {
    if operator == TokenType::Or {
        truthy(left)
    } else {
        !truthy(left)
    }
}

/// The value of `left operator right` for `and` and `or`: one of the operands.
pub open spec fn logical(operator: TokenType, left: ObjectView, right: ObjectView) -> ObjectView {
    if decided_by_left(operator, left) {
        left
    } else {
        right
    }
}

fn number_failure() -> (r: Computed)
    ensures
        r@ == ComputedView::Failure(not_a_number()),
{
    Computed::Failure(String::from_str("Operand must be a number."))
}

fn numbers_failure() -> (r: Computed)
    ensures
        r@ == ComputedView::Failure(not_numbers()),
{
    Computed::Failure(String::from_str("Operand(s) must be a number."))
}

/// Applies a binary operator to two values.
pub fn apply_binary(operator: TokenType, left: &Object, right: &Object) -> (r: Computed)
    ensures
        r@ == binary(operator, left@, right@),
{
    match operator {
        TokenType::EqualEqual => Computed::Value(Object::Bool(*left == *right)),
        TokenType::BangEqual => Computed::Value(Object::Bool(!(*left == *right))),
        TokenType::Greater => match (left, right) {
            (Object::Number(l), Object::Number(r)) => Computed::Value(Object::Bool(less(*r, *l))),
            _ => numbers_failure(),
        },
        TokenType::GreaterEqual => match (left, right) {
            (Object::Number(l), Object::Number(r)) => Computed::Value(
                Object::Bool(less_equal(*r, *l)),
            ),
            _ => numbers_failure(),
        },
        TokenType::Less => match (left, right) {
            (Object::Number(l), Object::Number(r)) => Computed::Value(Object::Bool(less(*l, *r))),
            _ => numbers_failure(),
        },
        TokenType::LessEqual => match (left, right) {
            (Object::Number(l), Object::Number(r)) => Computed::Value(
                Object::Bool(less_equal(*l, *r)),
            ),
            _ => numbers_failure(),
        },
        TokenType::Minus | TokenType::Star => match (left, right) {
            (Object::Number(l), Object::Number(r)) => Computed::Arithmetic {
                operator,
                left: *l,
                right: *r,
            },
            _ => numbers_failure(),
        },
        TokenType::Slash => match (left, right) {
            (Object::Number(l), Object::Number(r)) => {
                if zero(*r) {
                    Computed::DivideByZero { left: *l }
                } else {
                    Computed::Arithmetic { operator, left: *l, right: *r }
                }
            },
            _ => numbers_failure(),
        },
        TokenType::Plus => match (left, right) {
            (Object::Number(l), Object::Number(r)) => Computed::Arithmetic {
                operator,
                left: *l,
                right: *r,
            },
            (Object::String(l), Object::String(r)) => {
                let mut joined = l.clone();
                joined.append(r.as_str());
                Computed::Value(Object::String(joined))
            },
            _ => Computed::Failure(String::from_str("Operands must be two numbers or two strings.")),
        },
        _ => Computed::Failure(String::from_str("Unknown operator.")),
    }
}

/// Applies a unary operator to a value.
pub fn apply_unary(operator: TokenType, right: &Object) -> (r: Computed)
    ensures
        r@ == unary(operator, right@),
{
    match operator {
        TokenType::Bang => Computed::Value(Object::Bool(!right.is_truthy())),
        TokenType::Minus => match right {
            Object::Number(n) => Computed::Value(Object::Number(negate(*n))),
            _ => number_failure(),
        },
        _ => Computed::Failure(String::from_str("Unknown operator.")),
    }
}

/// Does the left operand of `and` or `or` decide the result?
pub fn left_decides(operator: TokenType, left: &Object) -> (r: bool)
    ensures
        r == decided_by_left(operator, left@),
{
    if operator == TokenType::Or {
        left.is_truthy()
    } else {
        !left.is_truthy()
    }
}

/// De Morgan's laws: on booleans, `!(a or b)` is `!a and !b`, and `!(a and b)`
/// is `!a or !b`.
pub proof fn law_de_morgan(a: bool, b: bool)
    ensures
        unary(
            TokenType::Bang,
            logical(TokenType::Or, ObjectView::Bool(a), ObjectView::Bool(b)),
        ) == ComputedView::Value(
            logical(
                TokenType::And,
                unary(TokenType::Bang, ObjectView::Bool(a))->Value_0,
                unary(TokenType::Bang, ObjectView::Bool(b))->Value_0,
            ),
        ),
        unary(
            TokenType::Bang,
            logical(TokenType::And, ObjectView::Bool(a), ObjectView::Bool(b)),
        ) == ComputedView::Value(
            logical(
                TokenType::Or,
                unary(TokenType::Bang, ObjectView::Bool(a))->Value_0,
                unary(TokenType::Bang, ObjectView::Bool(b))->Value_0,
            ),
        ),
{
}

/// `and` and `or` give back one of their operands, whatever its kind.
pub proof fn law_logical_gives_operand(operator: TokenType, left: ObjectView, right: ObjectView)
    ensures
        logical(operator, left, right) == left || logical(operator, left, right) == right,
        operator == TokenType::Or && truthy(left) ==> logical(operator, left, right) == left,
        operator == TokenType::Or && !truthy(left) ==> logical(operator, left, right) == right,
        operator == TokenType::And && truthy(left) ==> logical(operator, left, right) == right,
        operator == TokenType::And && !truthy(left) ==> logical(operator, left, right) == left,
{
}

} // verus!
