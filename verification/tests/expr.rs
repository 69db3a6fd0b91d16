//! Expressions as text.
use rilox::expr::{
    AssignExpr, BinaryExpr, CallExpr, Expr, GetExpr, GroupingExpr, LiteralExpr, LogicalExpr,
    SetExpr, SuperExpr, ThisExpr, UnaryExpr, VariableExpr,
};
use rilox::object::Object;
use rilox::printer::Piece;
use rilox::resolvable::Resolvable;
use rilox::token::Token;
use rilox::token_type::TokenType;

fn to_string(expression: &Expr) -> String {
    let mut text = String::new();
    for piece in expression.pieces() {
        match piece {
            Piece::Text(s) => text.push_str(&s),
            Piece::Number(bits) => text.push_str(&f64::from_bits(bits).to_string()),
        }
    }
    text
}

fn number(value: f64) -> Expr {
    Expr::Literal(LiteralExpr::new(Object::Number(value.to_bits())))
}

fn token(token_type: TokenType, lexeme: &str) -> Token {
    Token::new(token_type, lexeme.to_string(), Object::Nil, 1)
}

#[test]
fn test_display() {
    let expression = Expr::Binary(BinaryExpr::new(
        Expr::Unary(UnaryExpr::new(
            Token::new(TokenType::Minus, "-".to_string(), Object::Nil, 1),
            Expr::Literal(LiteralExpr::new(Object::Number(123f64.to_bits()))),
        )),
        Token::new(TokenType::Star, "*".to_string(), Object::Nil, 1),
        Expr::Grouping(GroupingExpr::new(Expr::Literal(LiteralExpr::new(Object::Number(
            45.67f64.to_bits(),
        ))))),
    ));

    assert_eq!(to_string(&expression), "(* (- 123) (group 45.67))".to_string());
}

#[test]
fn every_kind_of_expression_has_its_text() {
    let x = || Expr::Variable(VariableExpr::new(token(TokenType::Identifier, "x")));
    assert_eq!(to_string(&x()), "nil");
    assert_eq!(to_string(&Expr::Literal(LiteralExpr::new(Object::Bool(true)))), "true");
    assert_eq!(to_string(&Expr::Literal(LiteralExpr::new(Object::Bool(false)))), "false");
    assert_eq!(to_string(&Expr::Literal(LiteralExpr::new(Object::Nil))), "nil");
    assert_eq!(to_string(&Expr::Literal(LiteralExpr::new(Object::String("s t".to_string())))), "s t");
    assert_eq!(
        to_string(&Expr::Assign(AssignExpr::new(token(TokenType::Identifier, "a"), number(1.0)))),
        "(= a 1)"
    );
    assert_eq!(
        to_string(&Expr::Logical(LogicalExpr::new(number(1.0), token(TokenType::Or, "or"), number(2.5)))),
        "(or 1 2.5)"
    );
    assert_eq!(
        to_string(&Expr::Call(CallExpr::new(x(), token(TokenType::RightParen, ")"), vec![number(1.0), number(2.0)]))),
        "(call nil 1 2)"
    );
    assert_eq!(
        to_string(&Expr::Call(CallExpr::new(x(), token(TokenType::RightParen, ")"), vec![]))),
        "(call nil)"
    );
    assert_eq!(
        to_string(&Expr::Get(GetExpr::new(x(), token(TokenType::Identifier, "f")))),
        "(. nil f)"
    );
    assert_eq!(
        to_string(&Expr::SetField(SetExpr::new(x(), token(TokenType::Identifier, "f"), number(3.0)))),
        "(=nil f 3)"
    );
    assert_eq!(
        to_string(&Expr::Super(SuperExpr::new(token(TokenType::Super, "super"), token(TokenType::Identifier, "m")))),
        "(super m)"
    );
    assert_eq!(to_string(&Expr::This(ThisExpr::new(token(TokenType::This, "this")))), "this");
}

#[test]
fn a_new_node_has_no_distance() {
    let mut variable = VariableExpr::new(token(TokenType::Identifier, "x"));
    assert_eq!(variable.get_distance(), None);
    assert_eq!(variable.name().lexeme, "x");
    variable.set_distance(3);
    assert_eq!(variable.get_distance(), Some(3));
    let mut assign = AssignExpr::new(token(TokenType::Identifier, "y"), number(1.0));
    assert_eq!(assign.get_distance(), None);
    assign.set_distance(0);
    assert_eq!(assign.get_distance(), Some(0));
    assert_eq!(assign.name().lexeme, "y");
    let mut this = ThisExpr::new(token(TokenType::This, "this"));
    this.set_distance(1);
    assert_eq!(this.get_distance(), Some(1));
    assert_eq!(this.name().lexeme, "this");
    let mut above = SuperExpr::new(token(TokenType::Super, "super"), token(TokenType::Identifier, "m"));
    above.set_distance(2);
    assert_eq!(above.get_distance(), Some(2));
    assert_eq!(above.name().lexeme, "super");
}
