//! The grammar of the expression language, from loosest to tightest:
//!
//! ```text
//! ternary   : or ('?' expr ':' expr)?
//! or        : and ('||' and)*
//! and       : equality ('&&' equality)*
//! equality  : comparison (('==' | '!=') comparison)*
//! comparison: additive (('<' | '<=' | '>' | '>=') additive)*
//! additive  : multiplicative (('+' | '-') multiplicative)*
//! multiplic.: unary (('*' | '/' | '%') unary)*
//! unary     : ('!' | '-') unary | postfix
//! postfix   : primary ('[' expr ']' | '.' ident)*
//! primary   : number | string | 'true' | 'false' | 'null'
//!           | '$' ident | ident | ident '(' args ')' | '(' expr ')' | '[' args ']'
//! ```
//!
//! The six levels of binary operators are numbered from 0 (`||`) to 5 (`*`).

use vstd::prelude::*;

use crate::automations::lexer;
use crate::automations::lexer::{lex, LexError, LexErrorModel, Sign, Token, TokenModel};
use crate::dup::Dup;
use crate::text::same;

verus! {

#[derive(Debug, Clone, Copy, PartialEq, Eq, Structural)]
pub enum UnaryOp {
    Not,
    Neg,
}

#[derive(Debug, Clone, Copy, PartialEq, Eq, Structural)]
pub enum BinaryOp {
    Add,
    Sub,
    Mul,
    Div,
    Rem,
    Eq,
    Ne,
    Lt,
    Le,
    Gt,
    Ge,
    And,
    Or,
}

/// An expression. A number is kept as it is written; a call knows the place of
/// its name among the tokens.
pub enum Expr {
    Null,
    Bool(bool),
    Number(String),
    Text(String),
    Var(String),
    Ident(String),
    Unary(UnaryOp, Box<Expr>),
    Binary(BinaryOp, Box<Expr>, Box<Expr>),
    Ternary(Box<Expr>, Box<Expr>, Box<Expr>),
    Call(String, usize, Vec<Expr>),
    Index(Box<Expr>, Box<Expr>),
    Member(Box<Expr>, String),
    Array(Vec<Expr>),
}

/// What an expression holds.
pub enum ExprModel {
    Null,
    Bool(bool),
    Number(Seq<char>),
    Text(Seq<char>),
    Var(Seq<char>),
    Ident(Seq<char>),
    Unary(UnaryOp, Box<ExprModel>),
    Binary(BinaryOp, Box<ExprModel>, Box<ExprModel>),
    Ternary(Box<ExprModel>, Box<ExprModel>, Box<ExprModel>),
    Call(Seq<char>, int, Seq<ExprModel>),
    Index(Box<ExprModel>, Box<ExprModel>),
    Member(Box<ExprModel>, Seq<char>),
    Array(Seq<ExprModel>),
}

impl Expr {
    /// What the expression holds.
    pub open spec fn model(self) -> ExprModel
        decreases self,
    {
        match self {
            Expr::Null => ExprModel::Null,
            Expr::Bool(b) => ExprModel::Bool(b),
            Expr::Number(s) => ExprModel::Number(s@),
            Expr::Text(s) => ExprModel::Text(s@),
            Expr::Var(s) => ExprModel::Var(s@),
            Expr::Ident(s) => ExprModel::Ident(s@),
            Expr::Unary(op, e) => ExprModel::Unary(op, Box::new(e.model())),
            Expr::Binary(op, l, r) => ExprModel::Binary(op, Box::new(l.model()), Box::new(r.model())),
            Expr::Ternary(c, a, b) => ExprModel::Ternary(
                Box::new(c.model()),
                Box::new(a.model()),
                Box::new(b.model()),
            ),
            Expr::Call(name, site, args) => ExprModel::Call(
                name@,
                site as int,
                Seq::new(
                    args@.len(),
                    |i: int|
                        if 0 <= i < args@.len() {
                            args@[i].model()
                        } else {
                            ExprModel::Null
                        },
                ),
            ),
            Expr::Index(b, i) => ExprModel::Index(Box::new(b.model()), Box::new(i.model())),
            Expr::Member(b, name) => ExprModel::Member(Box::new(b.model()), name@),
            Expr::Array(items) => ExprModel::Array(
                Seq::new(
                    items@.len(),
                    |i: int|
                        if 0 <= i < items@.len() {
                            items@[i].model()
                        } else {
                            ExprModel::Null
                        },
                ),
            ),
        }
    }
}

impl DeepView for Expr {
    type V = ExprModel;

    open spec fn deep_view(&self) -> ExprModel {
        self.model()
    }
}

pub proof fn call_model(name: String, site: usize, args: Vec<Expr>)
    ensures
        Expr::Call(name, site, args).model() == ExprModel::Call(name@, site as int, args.deep_view()),
{
    assert(Expr::Call(name, site, args).model()->Call_2 =~= args.deep_view());
}

pub proof fn array_model(items: Vec<Expr>)
    ensures
        Expr::Array(items).model() == ExprModel::Array(items.deep_view()),
{
    assert(Expr::Array(items).model()->Array_0 =~= items.deep_view());
}

/// Why a text is no expression.
pub enum SyntaxError {
    Lex(LexError),
    /// A whole expression, and then this token.
    Trailing(Token),
    Expected { expected: Sign, found: Token },
    /// A dot, and then this token.
    MemberName(Token),
    /// A token that starts no expression.
    UnexpectedToken(Token),
    /// An argument, and then neither a comma nor the closing sign.
    Separator { close: Sign, found: Token },
}

/// What a syntax error holds.
pub enum SyntaxErrorModel {
    Lex(LexErrorModel),
    Trailing(TokenModel),
    Expected { expected: Sign, found: TokenModel },
    MemberName(TokenModel),
    UnexpectedToken(TokenModel),
    Separator { close: Sign, found: TokenModel },
}

impl DeepView for SyntaxError {
    type V = SyntaxErrorModel;

    open spec fn deep_view(&self) -> SyntaxErrorModel {
        match self {
            SyntaxError::Lex(e) => SyntaxErrorModel::Lex(e.deep_view()),
            SyntaxError::Trailing(t) => SyntaxErrorModel::Trailing(t.deep_view()),
            SyntaxError::Expected { expected, found } => SyntaxErrorModel::Expected {
                expected: *expected,
                found: found.deep_view(),
            },
            SyntaxError::MemberName(t) => SyntaxErrorModel::MemberName(t.deep_view()),
            SyntaxError::UnexpectedToken(t) => SyntaxErrorModel::UnexpectedToken(t.deep_view()),
            SyntaxError::Separator { close, found } => SyntaxErrorModel::Separator {
                close: *close,
                found: found.deep_view(),
            },
        }
    }
}

// ---------- The grammar ----------

/// The token at place `pos`; behind the last token stands the end marker.
pub open spec fn token_at(t: Seq<TokenModel>, pos: nat) -> TokenModel {
    if pos < t.len() {
        t[pos as int]
    } else {
        TokenModel::Eof
    }
}

/// `sign` stands at place `pos`.
pub open spec fn sign_at(t: Seq<TokenModel>, pos: nat, sign: Sign) -> bool {
    pos < t.len() && t[pos as int] == TokenModel::Sign(sign)
}

/// How many tokens stand from place `pos` on.
pub open spec fn left(t: Seq<TokenModel>, pos: nat) -> nat {
    if pos < t.len() {
        (t.len() - pos) as nat
    } else {
        0
    }
}

/// A looser level calls for the tighter ones.
pub open spec fn rank(level: nat) -> int {
    if level >= 6 {
        10
    } else {
        22 - 2 * level
    }
}

/// The operator that `token` writes at a level.
pub open spec fn op_of(level: nat, token: TokenModel) -> Option<BinaryOp> {
    match token {
        TokenModel::Sign(sign) => match sign {
            Sign::OrOr => if level == 0 { Some(BinaryOp::Or) } else { None },
            Sign::AndAnd => if level == 1 { Some(BinaryOp::And) } else { None },
            Sign::EqEq => if level == 2 { Some(BinaryOp::Eq) } else { None },
            Sign::NotEq => if level == 2 { Some(BinaryOp::Ne) } else { None },
            Sign::Lt => if level == 3 { Some(BinaryOp::Lt) } else { None },
            Sign::LtEq => if level == 3 { Some(BinaryOp::Le) } else { None },
            Sign::Gt => if level == 3 { Some(BinaryOp::Gt) } else { None },
            Sign::GtEq => if level == 3 { Some(BinaryOp::Ge) } else { None },
            Sign::Plus => if level == 4 { Some(BinaryOp::Add) } else { None },
            Sign::Minus => if level == 4 { Some(BinaryOp::Sub) } else { None },
            Sign::Star => if level == 5 { Some(BinaryOp::Mul) } else { None },
            Sign::Slash => if level == 5 { Some(BinaryOp::Div) } else { None },
            Sign::Percent => if level == 5 { Some(BinaryOp::Rem) } else { None },
            _ => None,
        },
        _ => None,
    }
}

/// An expression that starts at `pos`, and by how much it is longer than one
/// token.
#[verifier::opaque]
pub open spec fn ternary(t: Seq<TokenModel>, pos: nat) -> Result<(ExprModel, nat), SyntaxErrorModel>
    decreases left(t, pos), 30int,
{
    match binary(t, pos, 0) {
        Err(e) => Err(e),
        Ok((cond, n)) => {
            let q = pos + 1 + n;
            if !sign_at(t, q, Sign::Question) {
                Ok((cond, n))
            } else {
                match ternary(t, q + 1) {
                    Err(e) => Err(e),
                    Ok((yes, m)) => {
                        let c = q + 2 + m;
                        if !sign_at(t, c, Sign::Colon) {
                            Err(SyntaxErrorModel::Expected { expected: Sign::Colon, found: token_at(t, c) })
                        } else {
                            match ternary(t, c + 1) {
                                Err(e) => Err(e),
                                Ok((no, k)) => Ok(
                                    (
                                        ExprModel::Ternary(Box::new(cond), Box::new(yes), Box::new(no)),
                                        n + m + k + 4,
                                    ),
                                ),
                            }
                        }
                    },
                }
            }
        },
    }
}

/// An operand of the level above `level - 1`, with what `level`'s operators add
/// to it. Level 6 is a unary expression.
#[verifier::opaque]
pub open spec fn binary(t: Seq<TokenModel>, pos: nat, level: nat) -> Result<(ExprModel, nat), SyntaxErrorModel>
    decreases left(t, pos), rank(level),
{
    if level >= 6 {
        unary(t, pos)
    } else {
        match binary(t, pos, level + 1) {
            Err(e) => Err(e),
            Ok((first, n)) => match binary_rest(t, pos + 1 + n, level, first) {
                Err(e) => Err(e),
                Ok((whole, m)) => Ok((whole, n + m)),
            },
        }
    }
}

/// What the operators of a level add to `so_far` from `pos` on, and how many
/// tokens that takes.
#[verifier::opaque]
pub open spec fn binary_rest(t: Seq<TokenModel>, pos: nat, level: nat, so_far: ExprModel) -> Result<(ExprModel, nat), SyntaxErrorModel>
    decreases left(t, pos), rank(level) - 1,
{
    match op_of(level, token_at(t, pos)) {
        None => Ok((so_far, 0)),
        Some(op) => match binary(t, pos + 1, level + 1) {
            Err(e) => Err(e),
            Ok((right, n)) => match binary_rest(
                t,
                pos + 2 + n,
                level,
                ExprModel::Binary(op, Box::new(so_far), Box::new(right)),
            ) {
                Err(e) => Err(e),
                Ok((whole, m)) => Ok((whole, n + m + 2)),
            },
        },
    }
}

/// A unary expression that starts at `pos`.
#[verifier::opaque]
pub open spec fn unary(t: Seq<TokenModel>, pos: nat) -> Result<(ExprModel, nat), SyntaxErrorModel>
    decreases left(t, pos), 8int,
{
    if sign_at(t, pos, Sign::Bang) {
        match unary(t, pos + 1) {
            Err(e) => Err(e),
            Ok((e, n)) => Ok((ExprModel::Unary(UnaryOp::Not, Box::new(e)), n + 1)),
        }
    } else if sign_at(t, pos, Sign::Minus) {
        match unary(t, pos + 1) {
            Err(e) => Err(e),
            Ok((e, n)) => Ok((ExprModel::Unary(UnaryOp::Neg, Box::new(e)), n + 1)),
        }
    } else {
        match primary(t, pos) {
            Err(e) => Err(e),
            Ok((first, n)) => match postfix_rest(t, pos + 1 + n, first) {
                Err(e) => Err(e),
                Ok((whole, m)) => Ok((whole, n + m)),
            },
        }
    }
}

/// What indexing and member access add to `so_far` from `pos` on.
#[verifier::opaque]
pub open spec fn postfix_rest(t: Seq<TokenModel>, pos: nat, so_far: ExprModel) -> Result<(ExprModel, nat), SyntaxErrorModel>
    decreases left(t, pos), 6int,
{
    if sign_at(t, pos, Sign::LBracket) {
        match ternary(t, pos + 1) {
            Err(e) => Err(e),
            Ok((index, n)) => {
                let c = pos + 2 + n;
                if !sign_at(t, c, Sign::RBracket) {
                    Err(SyntaxErrorModel::Expected { expected: Sign::RBracket, found: token_at(t, c) })
                } else {
                    match postfix_rest(t, c + 1, ExprModel::Index(Box::new(so_far), Box::new(index))) {
                        Err(e) => Err(e),
                        Ok((whole, m)) => Ok((whole, n + m + 3)),
                    }
                }
            },
        }
    } else if sign_at(t, pos, Sign::Dot) {
        match token_at(t, pos + 1) {
            TokenModel::Ident(name) => match postfix_rest(t, pos + 2, ExprModel::Member(Box::new(so_far), name)) {
                Err(e) => Err(e),
                Ok((whole, m)) => Ok((whole, m + 2)),
            },
            other => Err(SyntaxErrorModel::MemberName(other)),
        }
    } else {
        Ok((so_far, 0))
    }
}

/// A primary expression that starts at `pos`.
#[verifier::opaque]
pub open spec fn primary(t: Seq<TokenModel>, pos: nat) -> Result<(ExprModel, nat), SyntaxErrorModel>
    decreases left(t, pos), 7int,
{
    match token_at(t, pos) {
        TokenModel::Number(s) => Ok((ExprModel::Number(s), 0)),
        TokenModel::Str(s) => Ok((ExprModel::Text(s), 0)),
        TokenModel::Var(s) => Ok((ExprModel::Var(s), 0)),
        TokenModel::Ident(name) => if name == "true"@ {
            Ok((ExprModel::Bool(true), 0))
        } else if name == "false"@ {
            Ok((ExprModel::Bool(false), 0))
        } else if name == "null"@ {
            Ok((ExprModel::Null, 0))
        } else if sign_at(t, pos + 1, Sign::LParen) {
            match args(t, pos + 2, Sign::RParen) {
                Err(e) => Err(e),
                Ok((values, n)) => Ok((ExprModel::Call(name, pos as int, values), n + 2)),
            }
        } else {
            Ok((ExprModel::Ident(name), 0))
        },
        TokenModel::Sign(Sign::LParen) => match ternary(t, pos + 1) {
            Err(e) => Err(e),
            Ok((inner, n)) => {
                let c = pos + 2 + n;
                if !sign_at(t, c, Sign::RParen) {
                    Err(SyntaxErrorModel::Expected { expected: Sign::RParen, found: token_at(t, c) })
                } else {
                    Ok((inner, n + 2))
                }
            },
        },
        TokenModel::Sign(Sign::LBracket) => match args(t, pos + 1, Sign::RBracket) {
            Err(e) => Err(e),
            Ok((items, n)) => Ok((ExprModel::Array(items), n + 1)),
        },
        other => Err(SyntaxErrorModel::UnexpectedToken(other)),
    }
}

/// A list of expressions up to `close`, and by how much it is longer than one
/// token.
#[verifier::opaque]
pub open spec fn args(t: Seq<TokenModel>, pos: nat, close: Sign) -> Result<(Seq<ExprModel>, nat), SyntaxErrorModel>
    decreases left(t, pos), 32int,
{
    if sign_at(t, pos, close) {
        Ok((Seq::empty(), 0))
    } else {
        args_rest(t, pos, close)
    }
}

/// At least one expression and the closing sign.
#[verifier::opaque]
pub open spec fn args_rest(t: Seq<TokenModel>, pos: nat, close: Sign) -> Result<(Seq<ExprModel>, nat), SyntaxErrorModel>
    decreases left(t, pos), 31int,
{
    match ternary(t, pos) {
        Err(e) => Err(e),
        Ok((first, n)) => {
            let c = pos + 1 + n;
            if sign_at(t, c, Sign::Comma) {
                match args_rest(t, c + 1, close) {
                    Err(e) => Err(e),
                    Ok((rest, m)) => Ok((seq![first] + rest, n + m + 2)),
                }
            } else if sign_at(t, c, close) {
                Ok((seq![first], n + 1))
            } else {
                Err(SyntaxErrorModel::Separator { close, found: token_at(t, c) })
            }
        },
    }
}

/// The expression that the tokens write.
pub open spec fn parsed(t: Seq<TokenModel>) -> Result<ExprModel, SyntaxErrorModel> {
    match ternary(t, 0) {
        Err(e) => Err(e),
        Ok((e, n)) => if token_at(t, 1 + n) == TokenModel::Eof {
            Ok(e)
        } else {
            Err(SyntaxErrorModel::Trailing(token_at(t, 1 + n)))
        },
    }
}

/// The expression that a text writes.
pub open spec fn parse_of(src: Seq<char>) -> Result<ExprModel, SyntaxErrorModel> {
    match lexer::tokens_of(src) {
        Err(e) => Err(SyntaxErrorModel::Lex(e)),
        Ok(t) => parsed(t),
    }
}

// One unfolding of each rule of the grammar.

proof fn unfold_ternary(t: Seq<TokenModel>, pos: nat)
    ensures
        ternary(t, pos) == ({
            match binary(t, pos, 0) {
                Err(e) => Err(e),
                Ok((cond, n)) => {
                    let q = pos + 1 + n;
                    if !sign_at(t, q, Sign::Question) {
                        Ok((cond, n))
                    } else {
                        match ternary(t, q + 1) {
                            Err(e) => Err(e),
                            Ok((yes, m)) => {
                                let c = q + 2 + m;
                                if !sign_at(t, c, Sign::Colon) {
                                    Err(SyntaxErrorModel::Expected { expected: Sign::Colon, found: token_at(t, c) })
                                } else {
                                    match ternary(t, c + 1) {
                                        Err(e) => Err(e),
                                        Ok((no, k)) => Ok(
                                            (
                                                ExprModel::Ternary(Box::new(cond), Box::new(yes), Box::new(no)),
                                                n + m + k + 4,
                                            ),
                                        ),
                                    }
                                }
                            },
                        }
                    }
                },
            }
        }),
{
    reveal(ternary);
    reveal(binary);
    reveal(binary_rest);
    reveal(unary);
    reveal(postfix_rest);
    reveal(primary);
    reveal(args);
    reveal(args_rest);
}

proof fn unfold_binary(t: Seq<TokenModel>, pos: nat, level: nat)
    ensures
        binary(t, pos, level) == ({
            if level >= 6 {
                unary(t, pos)
            } else {
                match binary(t, pos, level + 1) {
                    Err(e) => Err(e),
                    Ok((first, n)) => match binary_rest(t, pos + 1 + n, level, first) {
                        Err(e) => Err(e),
                        Ok((whole, m)) => Ok((whole, n + m)),
                    },
                }
            }
        }),
{
    reveal(ternary);
    reveal(binary);
    reveal(binary_rest);
    reveal(unary);
    reveal(postfix_rest);
    reveal(primary);
    reveal(args);
    reveal(args_rest);
}

proof fn unfold_binary_rest(t: Seq<TokenModel>, pos: nat, level: nat, so_far: ExprModel)
    ensures
        binary_rest(t, pos, level, so_far) == ({
            match op_of(level, token_at(t, pos)) {
                None => Ok((so_far, 0)),
                Some(op) => match binary(t, pos + 1, level + 1) {
                    Err(e) => Err(e),
                    Ok((right, n)) => match binary_rest(
                        t,
                        pos + 2 + n,
                        level,
                        ExprModel::Binary(op, Box::new(so_far), Box::new(right)),
                    ) {
                        Err(e) => Err(e),
                        Ok((whole, m)) => Ok((whole, n + m + 2)),
                    },
                },
            }
        }),
{
    reveal(ternary);
    reveal(binary);
    reveal(binary_rest);
    reveal(unary);
    reveal(postfix_rest);
    reveal(primary);
    reveal(args);
    reveal(args_rest);
}

proof fn unfold_unary(t: Seq<TokenModel>, pos: nat)
    ensures
        unary(t, pos) == ({
            if sign_at(t, pos, Sign::Bang) {
                match unary(t, pos + 1) {
                    Err(e) => Err(e),
                    Ok((e, n)) => Ok((ExprModel::Unary(UnaryOp::Not, Box::new(e)), n + 1)),
                }
            } else if sign_at(t, pos, Sign::Minus) {
                match unary(t, pos + 1) {
                    Err(e) => Err(e),
                    Ok((e, n)) => Ok((ExprModel::Unary(UnaryOp::Neg, Box::new(e)), n + 1)),
                }
            } else {
                match primary(t, pos) {
                    Err(e) => Err(e),
                    Ok((first, n)) => match postfix_rest(t, pos + 1 + n, first) {
                        Err(e) => Err(e),
                        Ok((whole, m)) => Ok((whole, n + m)),
                    },
                }
            }
        }),
{
    reveal(ternary);
    reveal(binary);
    reveal(binary_rest);
    reveal(unary);
    reveal(postfix_rest);
    reveal(primary);
    reveal(args);
    reveal(args_rest);
}

proof fn unfold_postfix_rest(t: Seq<TokenModel>, pos: nat, so_far: ExprModel)
    ensures
        postfix_rest(t, pos, so_far) == ({
            if sign_at(t, pos, Sign::LBracket) {
                match ternary(t, pos + 1) {
                    Err(e) => Err(e),
                    Ok((index, n)) => {
                        let c = pos + 2 + n;
                        if !sign_at(t, c, Sign::RBracket) {
                            Err(SyntaxErrorModel::Expected { expected: Sign::RBracket, found: token_at(t, c) })
                        } else {
                            match postfix_rest(t, c + 1, ExprModel::Index(Box::new(so_far), Box::new(index))) {
                                Err(e) => Err(e),
                                Ok((whole, m)) => Ok((whole, n + m + 3)),
                            }
                        }
                    },
                }
            } else if sign_at(t, pos, Sign::Dot) {
                match token_at(t, pos + 1) {
                    TokenModel::Ident(name) => match postfix_rest(t, pos + 2, ExprModel::Member(Box::new(so_far), name)) {
                        Err(e) => Err(e),
                        Ok((whole, m)) => Ok((whole, m + 2)),
                    },
                    other => Err(SyntaxErrorModel::MemberName(other)),
                }
            } else {
                Ok((so_far, 0))
            }
        }),
{
    reveal(ternary);
    reveal(binary);
    reveal(binary_rest);
    reveal(unary);
    reveal(postfix_rest);
    reveal(primary);
    reveal(args);
    reveal(args_rest);
}

proof fn unfold_primary(t: Seq<TokenModel>, pos: nat)
    ensures
        primary(t, pos) == ({
            match token_at(t, pos) {
                TokenModel::Number(s) => Ok((ExprModel::Number(s), 0)),
                TokenModel::Str(s) => Ok((ExprModel::Text(s), 0)),
                TokenModel::Var(s) => Ok((ExprModel::Var(s), 0)),
                TokenModel::Ident(name) => if name == "true"@ {
                    Ok((ExprModel::Bool(true), 0))
                } else if name == "false"@ {
                    Ok((ExprModel::Bool(false), 0))
                } else if name == "null"@ {
                    Ok((ExprModel::Null, 0))
                } else if sign_at(t, pos + 1, Sign::LParen) {
                    match args(t, pos + 2, Sign::RParen) {
                        Err(e) => Err(e),
                        Ok((values, n)) => Ok((ExprModel::Call(name, pos as int, values), n + 2)),
                    }
                } else {
                    Ok((ExprModel::Ident(name), 0))
                },
                TokenModel::Sign(Sign::LParen) => match ternary(t, pos + 1) {
                    Err(e) => Err(e),
                    Ok((inner, n)) => {
                        let c = pos + 2 + n;
                        if !sign_at(t, c, Sign::RParen) {
                            Err(SyntaxErrorModel::Expected { expected: Sign::RParen, found: token_at(t, c) })
                        } else {
                            Ok((inner, n + 2))
                        }
                    },
                },
                TokenModel::Sign(Sign::LBracket) => match args(t, pos + 1, Sign::RBracket) {
                    Err(e) => Err(e),
                    Ok((items, n)) => Ok((ExprModel::Array(items), n + 1)),
                },
                other => Err(SyntaxErrorModel::UnexpectedToken(other)),
            }
        }),
{
    reveal(ternary);
    reveal(binary);
    reveal(binary_rest);
    reveal(unary);
    reveal(postfix_rest);
    reveal(primary);
    reveal(args);
    reveal(args_rest);
}

proof fn unfold_args(t: Seq<TokenModel>, pos: nat, close: Sign)
    ensures
        args(t, pos, close) == ({
            if sign_at(t, pos, close) {
                Ok((Seq::empty(), 0))
            } else {
                args_rest(t, pos, close)
            }
        }),
{
    reveal(ternary);
    reveal(binary);
    reveal(binary_rest);
    reveal(unary);
    reveal(postfix_rest);
    reveal(primary);
    reveal(args);
    reveal(args_rest);
}

proof fn unfold_args_rest(t: Seq<TokenModel>, pos: nat, close: Sign)
    ensures
        args_rest(t, pos, close) == ({
            match ternary(t, pos) {
                Err(e) => Err(e),
                Ok((first, n)) => {
                    let c = pos + 1 + n;
                    if sign_at(t, c, Sign::Comma) {
                        match args_rest(t, c + 1, close) {
                            Err(e) => Err(e),
                            Ok((rest, m)) => Ok((seq![first] + rest, n + m + 2)),
                        }
                    } else if sign_at(t, c, close) {
                        Ok((seq![first], n + 1))
                    } else {
                        Err(SyntaxErrorModel::Separator { close, found: token_at(t, c) })
                    }
                },
            }
        }),
{
    reveal(ternary);
    reveal(binary);
    reveal(binary_rest);
    reveal(unary);
    reveal(postfix_rest);
    reveal(primary);
    reveal(args);
    reveal(args_rest);
}

// ---------- The parser ----------

/// The parser's answer `r`, at place `pos`, is what the grammar says.
pub open spec fn agrees(
    r: Result<(Expr, usize), SyntaxError>,
    tokens: Vec<Token>,
    pos: usize,
    grammar: Result<(ExprModel, nat), SyntaxErrorModel>,
) -> bool {
    match r {
        Ok((e, next)) => grammar matches Ok((model, n)) && e.model() == model && next == pos + 1 + n && next
            <= tokens.len(),
        Err(e) => grammar matches Err(model) && e.deep_view() == model,
    }
}

fn is_sign(tokens: &Vec<Token>, pos: usize, sign: Sign) -> (b: bool)
    ensures
        b == sign_at(tokens.deep_view(), pos as nat, sign),
        b ==> pos < tokens.len(),
{
    if pos < tokens.len() {
        match &tokens[pos] {
            Token::Sign(g) => *g == sign,
            _ => false,
        }
    } else {
        false
    }
}

fn token_copy(tokens: &Vec<Token>, pos: usize) -> (t: Token)
    ensures
        t.deep_view() == token_at(tokens.deep_view(), pos as nat),
{
    if pos < tokens.len() {
        tokens[pos].dup()
    } else {
        Token::Eof
    }
}

fn op_for(level: u8, tokens: &Vec<Token>, pos: usize) -> (r: Option<BinaryOp>)
    ensures
        r == op_of(level as nat, token_at(tokens.deep_view(), pos as nat)),
        r is Some ==> pos < tokens.len(),
{
    if pos >= tokens.len() {
        return None;
    }
    match &tokens[pos] {
        Token::Sign(sign) => match sign {
            Sign::OrOr => if level == 0 { Some(BinaryOp::Or) } else { None },
            Sign::AndAnd => if level == 1 { Some(BinaryOp::And) } else { None },
            Sign::EqEq => if level == 2 { Some(BinaryOp::Eq) } else { None },
            Sign::NotEq => if level == 2 { Some(BinaryOp::Ne) } else { None },
            Sign::Lt => if level == 3 { Some(BinaryOp::Lt) } else { None },
            Sign::LtEq => if level == 3 { Some(BinaryOp::Le) } else { None },
            Sign::Gt => if level == 3 { Some(BinaryOp::Gt) } else { None },
            Sign::GtEq => if level == 3 { Some(BinaryOp::Ge) } else { None },
            Sign::Plus => if level == 4 { Some(BinaryOp::Add) } else { None },
            Sign::Minus => if level == 4 { Some(BinaryOp::Sub) } else { None },
            Sign::Star => if level == 5 { Some(BinaryOp::Mul) } else { None },
            Sign::Slash => if level == 5 { Some(BinaryOp::Div) } else { None },
            Sign::Percent => if level == 5 { Some(BinaryOp::Rem) } else { None },
            _ => None,
        },
        _ => None,
    }
}

fn parse_ternary(tokens: &Vec<Token>, pos: usize) -> (r: Result<(Expr, usize), SyntaxError>)
    requires
        pos <= tokens.len(),
    ensures
        agrees(r, *tokens, pos, ternary(tokens.deep_view(), pos as nat)),
    decreases tokens.len() - pos, 30int,
{
    proof {
        unfold_ternary(tokens.deep_view(), pos as nat);
    }
    let (cond, q) = match parse_binary(tokens, pos, 0) {
        Ok(x) => x,
        Err(e) => {
            return Err(e);
        },
    };
    if !is_sign(tokens, q, Sign::Question) {
        return Ok((cond, q));
    }
    let (yes, c) = match parse_ternary(tokens, q + 1) {
        Ok(x) => x,
        Err(e) => {
            return Err(e);
        },
    };
    if !is_sign(tokens, c, Sign::Colon) {
        return Err(SyntaxError::Expected { expected: Sign::Colon, found: token_copy(tokens, c) });
    }
    match parse_ternary(tokens, c + 1) {
        Ok((no, next)) => Ok((Expr::Ternary(Box::new(cond), Box::new(yes), Box::new(no)), next)),
        Err(e) => Err(e),
    }
}

fn parse_binary(tokens: &Vec<Token>, pos: usize, level: u8) -> (r: Result<(Expr, usize), SyntaxError>)
    requires
        pos <= tokens.len(),
        level <= 6,
    ensures
        agrees(r, *tokens, pos, binary(tokens.deep_view(), pos as nat, level as nat)),
    decreases tokens.len() - pos, rank(level as nat),
{
    proof {
        unfold_binary(tokens.deep_view(), pos as nat, level as nat);
    }
    if level >= 6 {
        return parse_unary(tokens, pos);
    }
    let (first, start) = match parse_binary(tokens, pos, level + 1) {
        Ok(x) => x,
        Err(e) => {
            return Err(e);
        },
    };
    let ghost t = tokens.deep_view();
    let mut so_far = first;
    let mut p: usize = start;
    loop
        invariant
            pos < start <= p <= tokens.len(),
            level < 6,
            t == tokens.deep_view(),
            match binary_rest(t, p as nat, level as nat, so_far.model()) {
                Ok((whole, m)) => binary(t, pos as nat, level as nat) == Ok::<(ExprModel, nat), SyntaxErrorModel>((whole, (p + m - pos - 1) as nat)),
                Err(e) => binary(t, pos as nat, level as nat) == Err::<(ExprModel, nat), SyntaxErrorModel>(e),
            },
        decreases tokens.len() - p,
    {
        proof {
            unfold_binary_rest(t, p as nat, level as nat, so_far.model());
        }
        match op_for(level, tokens, p) {
            None => {
                return Ok((so_far, p));
            },
            Some(op) => match parse_binary(tokens, p + 1, level + 1) {
                Ok((right, next)) => {
                    so_far = Expr::Binary(op, Box::new(so_far), Box::new(right));
                    p = next;
                },
                Err(e) => {
                    return Err(e);
                },
            },
        }
    }
}

fn parse_unary(tokens: &Vec<Token>, pos: usize) -> (r: Result<(Expr, usize), SyntaxError>)
    requires
        pos <= tokens.len(),
    ensures
        agrees(r, *tokens, pos, unary(tokens.deep_view(), pos as nat)),
    decreases tokens.len() - pos, 8int,
{
    proof {
        unfold_unary(tokens.deep_view(), pos as nat);
    }
    if is_sign(tokens, pos, Sign::Bang) {
        return match parse_unary(tokens, pos + 1) {
            Ok((e, next)) => Ok((Expr::Unary(UnaryOp::Not, Box::new(e)), next)),
            Err(e) => Err(e),
        };
    }
    if is_sign(tokens, pos, Sign::Minus) {
        return match parse_unary(tokens, pos + 1) {
            Ok((e, next)) => Ok((Expr::Unary(UnaryOp::Neg, Box::new(e)), next)),
            Err(e) => Err(e),
        };
    }
    let (first, start) = match parse_primary(tokens, pos) {
        Ok(x) => x,
        Err(e) => {
            return Err(e);
        },
    };
    let ghost t = tokens.deep_view();
    let mut so_far = first;
    let mut p: usize = start;
    loop
        invariant
            pos < start <= p <= tokens.len(),
            t == tokens.deep_view(),
            match postfix_rest(t, p as nat, so_far.model()) {
                Ok((whole, m)) => unary(t, pos as nat) == Ok::<(ExprModel, nat), SyntaxErrorModel>((whole, (p + m - pos - 1) as nat)),
                Err(e) => unary(t, pos as nat) == Err::<(ExprModel, nat), SyntaxErrorModel>(e),
            },
        decreases tokens.len() - p,
    {
        proof {
            unfold_postfix_rest(t, p as nat, so_far.model());
        }
        if is_sign(tokens, p, Sign::LBracket) {
            match parse_ternary(tokens, p + 1) {
                Ok((index, c)) => {
                    if !is_sign(tokens, c, Sign::RBracket) {
                        return Err(
                            SyntaxError::Expected { expected: Sign::RBracket, found: token_copy(tokens, c) },
                        );
                    }
                    so_far = Expr::Index(Box::new(so_far), Box::new(index));
                    p = c + 1;
                },
                Err(e) => {
                    return Err(e);
                },
            }
        } else if is_sign(tokens, p, Sign::Dot) {
            match token_copy(tokens, p + 1) {
                Token::Ident(name) => {
                    so_far = Expr::Member(Box::new(so_far), name);
                    p = p + 2;
                },
                other => {
                    return Err(SyntaxError::MemberName(other));
                },
            }
        } else {
            return Ok((so_far, p));
        }
    }
}

fn parse_primary(tokens: &Vec<Token>, pos: usize) -> (r: Result<(Expr, usize), SyntaxError>)
    requires
        pos <= tokens.len(),
    ensures
        agrees(r, *tokens, pos, primary(tokens.deep_view(), pos as nat)),
    decreases tokens.len() - pos, 7int,
{
    proof {
        unfold_primary(tokens.deep_view(), pos as nat);
    }
    if pos >= tokens.len() {
        return Err(SyntaxError::UnexpectedToken(Token::Eof));
    }
    match tokens[pos].dup() {
        Token::Number(s) => Ok((Expr::Number(s), pos + 1)),
        Token::Str(s) => Ok((Expr::Text(s), pos + 1)),
        Token::Var(s) => Ok((Expr::Var(s), pos + 1)),
        Token::Ident(name) => if same(name.as_str(), "true") {
            Ok((Expr::Bool(true), pos + 1))
        } else if same(name.as_str(), "false") {
            Ok((Expr::Bool(false), pos + 1))
        } else if same(name.as_str(), "null") {
            Ok((Expr::Null, pos + 1))
        } else if is_sign(tokens, pos + 1, Sign::LParen) {
            match parse_args(tokens, pos + 2, Sign::RParen) {
                Ok((values, next)) => {
                    proof {
                        call_model(name, pos, values);
                    }
                    Ok((Expr::Call(name, pos, values), next))
                },
                Err(e) => Err(e),
            }
        } else {
            Ok((Expr::Ident(name), pos + 1))
        },
        Token::Sign(Sign::LParen) => match parse_ternary(tokens, pos + 1) {
            Ok((inner, c)) => if !is_sign(tokens, c, Sign::RParen) {
                Err(SyntaxError::Expected { expected: Sign::RParen, found: token_copy(tokens, c) })
            } else {
                Ok((inner, c + 1))
            },
            Err(e) => Err(e),
        },
        Token::Sign(Sign::LBracket) => match parse_args(tokens, pos + 1, Sign::RBracket) {
            Ok((items, next)) => {
                proof {
                    array_model(items);
                }
                Ok((Expr::Array(items), next))
            },
            Err(e) => Err(e),
        },
        other => Err(SyntaxError::UnexpectedToken(other)),
    }
}

fn parse_args(tokens: &Vec<Token>, pos: usize, close: Sign) -> (r: Result<(Vec<Expr>, usize), SyntaxError>)
    requires
        pos <= tokens.len(),
    ensures
        match r {
            Ok((values, next)) => args(tokens.deep_view(), pos as nat, close) matches Ok((model, n))
                && values.deep_view() == model && next == pos + 1 + n && next <= tokens.len(),
            Err(e) => args(tokens.deep_view(), pos as nat, close) matches Err(model) && e.deep_view() == model,
        },
    decreases tokens.len() - pos, 32int,
{
    proof {
        unfold_args(tokens.deep_view(), pos as nat, close);
    }
    let mut values: Vec<Expr> = Vec::new();
    if is_sign(tokens, pos, close) {
        proof {
            assert(values.deep_view() =~= Seq::<ExprModel>::empty());
        }
        return Ok((values, pos + 1));
    }
    let ghost t = tokens.deep_view();
    let ghost whole = args(t, pos as nat, close);
    let mut p: usize = pos;
    proof {
        if let Ok((rest, m)) = args_rest(t, p as nat, close) {
            assert(values.deep_view() + rest =~= rest);
        }
    }
    loop
        invariant
            pos <= p <= tokens.len(),
            t == tokens.deep_view(),
            whole == args(t, pos as nat, close),
            match args_rest(t, p as nat, close) {
                Ok((rest, m)) => whole == Ok::<(Seq<ExprModel>, nat), SyntaxErrorModel>((values.deep_view() + rest, (p + m - pos) as nat)),
                Err(e) => whole == Err::<(Seq<ExprModel>, nat), SyntaxErrorModel>(e),
            },
        decreases tokens.len() - p,
    {
        proof {
            unfold_args_rest(t, p as nat, close);
        }
        let (value, c) = match parse_ternary(tokens, p) {
            Ok(x) => x,
            Err(e) => {
                return Err(e);
            },
        };
        let ghost had = values.deep_view();
        let ghost v = value.model();
        values.push(value);
        proof {
            assert(values.deep_view() =~= had.push(v));
        }
        if is_sign(tokens, c, Sign::Comma) {
            proof {
                if let Ok((rest, m)) = args_rest(t, (c + 1) as nat, close) {
                    assert(values.deep_view() + rest =~= had + (seq![v] + rest));
                }
            }
            p = c + 1;
        } else if is_sign(tokens, c, close) {
            proof {
                assert(values.deep_view() =~= had + seq![v]);
            }
            return Ok((values, c + 1));
        } else {
            return Err(SyntaxError::Separator { close, found: token_copy(tokens, c) });
        }
    }
}

/// The expression that `src` writes.
pub fn parse(src: &str) -> (r: Result<Expr, SyntaxError>)
    ensures
        match r {
            Ok(e) => parse_of(src@) == Ok::<ExprModel, SyntaxErrorModel>(e.model()),
            Err(e) => parse_of(src@) == Err::<ExprModel, SyntaxErrorModel>(e.deep_view()),
        },
{
    let tokens = match lex(src) {
        Ok(tokens) => tokens,
        Err(e) => {
            return Err(SyntaxError::Lex(e));
        },
    };
    match parse_ternary(&tokens, 0) {
        Ok((e, next)) => match token_copy(&tokens, next) {
            Token::Eof => Ok(e),
            other => Err(SyntaxError::Trailing(other)),
        },
        Err(e) => Err(e),
    }
}

/// Whether `src` writes an expression, without evaluating it.
pub fn validate(src: &str) -> (r: Result<(), SyntaxError>)
    ensures
        match r {
            Ok(_) => parse_of(src@) is Ok,
            Err(e) => parse_of(src@) == Err::<ExprModel, SyntaxErrorModel>(e.deep_view()),
        },
{
    match parse(src) {
        Ok(_) => Ok(()),
        Err(e) => Err(e),
    }
}

// ---------- What tokens write ----------

/// The operator that a sign writes between two operands, and how tightly it
/// binds them: `||` least, products most.
pub open spec fn binds(sign: Sign, op: BinaryOp, level: nat) -> bool {
    ||| sign == Sign::OrOr && op == BinaryOp::Or && level == 0
    ||| sign == Sign::AndAnd && op == BinaryOp::And && level == 1
    ||| sign == Sign::EqEq && op == BinaryOp::Eq && level == 2
    ||| sign == Sign::NotEq && op == BinaryOp::Ne && level == 2
    ||| sign == Sign::Lt && op == BinaryOp::Lt && level == 3
    ||| sign == Sign::LtEq && op == BinaryOp::Le && level == 3
    ||| sign == Sign::Gt && op == BinaryOp::Gt && level == 3
    ||| sign == Sign::GtEq && op == BinaryOp::Ge && level == 3
    ||| sign == Sign::Plus && op == BinaryOp::Add && level == 4
    ||| sign == Sign::Minus && op == BinaryOp::Sub && level == 4
    ||| sign == Sign::Star && op == BinaryOp::Mul && level == 5
    ||| sign == Sign::Slash && op == BinaryOp::Div && level == 5
    ||| sign == Sign::Percent && op == BinaryOp::Rem && level == 5
}

/// An expression stands at `pos` that fills one token.
spec fn stands_alone(t: Seq<TokenModel>, pos: nat, e: ExprModel) -> bool {
    match token_at(t, pos) {
        TokenModel::Number(s) => e == ExprModel::Number(s),
        TokenModel::Str(s) => e == ExprModel::Text(s),
        TokenModel::Var(s) => e == ExprModel::Var(s),
        _ => false,
    }
}

proof fn one_token_is_an_operand(t: Seq<TokenModel>, pos: nat, e: ExprModel)
    requires
        stands_alone(t, pos, e),
        !sign_at(t, pos + 1, Sign::LBracket),
        !sign_at(t, pos + 1, Sign::Dot),
    ensures
        binary(t, pos, 6) == Ok::<(ExprModel, nat), SyntaxErrorModel>((e, 0)),
{
    unfold_binary(t, pos, 6);
    unfold_unary(t, pos);
    unfold_primary(t, pos);
    unfold_postfix_rest(t, pos + 1, e);
}

proof fn operand_stays(t: Seq<TokenModel>, pos: nat, e: ExprModel, n: nat, low: nat, high: nat)
    requires
        low <= high <= 6,
        binary(t, pos, high) == Ok::<(ExprModel, nat), SyntaxErrorModel>((e, n)),
        forall|level: nat| low <= level < high ==> #[trigger] op_of(level, token_at(t, pos + 1 + n)) is None,
    ensures
        binary(t, pos, low) == Ok::<(ExprModel, nat), SyntaxErrorModel>((e, n)),
    decreases high - low,
{
    if low < high {
        operand_stays(t, pos, e, n, low + 1, high);
        unfold_binary(t, pos, low);
        unfold_binary_rest(t, pos + 1 + n, low, e);
        assert(op_of(low, token_at(t, pos + 1 + n)) is None);
    }
}

proof fn operands_join(
    t: Seq<TokenModel>,
    pos: nat,
    sign: Sign,
    op: BinaryOp,
    level: nat,
    l: ExprModel,
    n: nat,
    r: ExprModel,
    m: nat,
)
    requires
        binds(sign, op, level),
        binary(t, pos, level + 1) == Ok::<(ExprModel, nat), SyntaxErrorModel>((l, n)),
        token_at(t, pos + 1 + n) == TokenModel::Sign(sign),
        binary(t, pos + 2 + n, level + 1) == Ok::<(ExprModel, nat), SyntaxErrorModel>((r, m)),
        op_of(level, token_at(t, pos + 3 + n + m)) is None,
    ensures
        binary(t, pos, level) == Ok::<(ExprModel, nat), SyntaxErrorModel>(
            (ExprModel::Binary(op, Box::new(l), Box::new(r)), n + m + 2),
        ),
{
    unfold_binary(t, pos, level);
    unfold_binary_rest(t, pos + 1 + n, level, l);
    unfold_binary_rest(t, pos + 3 + n + m, level, ExprModel::Binary(op, Box::new(l), Box::new(r)));
}

proof fn whole_is_parsed(t: Seq<TokenModel>, e: ExprModel, n: nat)
    requires
        binary(t, 0, 0) == Ok::<(ExprModel, nat), SyntaxErrorModel>((e, n)),
        token_at(t, 1 + n) == TokenModel::Eof,
    ensures
        parsed(t) == Ok::<ExprModel, SyntaxErrorModel>(e),
{
    unfold_ternary(t, 0);
    assert(!sign_at(t, 1 + n, Sign::Question));
}

/// Two variables with a sign between them write the operation of that sign on
/// them, in that order.
pub proof fn signs_write_operations(a: Seq<char>, sign: Sign, op: BinaryOp, level: nat, b: Seq<char>)
    requires
        binds(sign, op, level),
    ensures
        parsed(seq![TokenModel::Var(a), TokenModel::Sign(sign), TokenModel::Var(b), TokenModel::Eof]) == Ok::<
            ExprModel,
            SyntaxErrorModel,
        >(ExprModel::Binary(op, Box::new(ExprModel::Var(a)), Box::new(ExprModel::Var(b)))),
{
    let t = seq![TokenModel::Var(a), TokenModel::Sign(sign), TokenModel::Var(b), TokenModel::Eof];
    one_token_is_an_operand(t, 0, ExprModel::Var(a));
    one_token_is_an_operand(t, 2, ExprModel::Var(b));
    operand_stays(t, 0, ExprModel::Var(a), 0, level + 1, 6);
    operand_stays(t, 2, ExprModel::Var(b), 0, level + 1, 6);
    operands_join(t, 0, sign, op, level, ExprModel::Var(a), 0, ExprModel::Var(b), 0);
    let whole = ExprModel::Binary(op, Box::new(ExprModel::Var(a)), Box::new(ExprModel::Var(b)));
    operand_stays(t, 0, whole, 2, 0, level);
    whole_is_parsed(t, whole, 2);
}

/// Of two operations in a row the one that binds tighter is done first, and of
/// two that bind alike the one on the left.
pub proof fn tighter_operations_come_first(
    a: Seq<char>,
    sign: Sign,
    op: BinaryOp,
    level: nat,
    b: Seq<char>,
    next_sign: Sign,
    next_op: BinaryOp,
    next_level: nat,
    c: Seq<char>,
)
    requires
        binds(sign, op, level),
        binds(next_sign, next_op, next_level),
    ensures
        parsed(
            seq![
                TokenModel::Var(a),
                TokenModel::Sign(sign),
                TokenModel::Var(b),
                TokenModel::Sign(next_sign),
                TokenModel::Var(c),
                TokenModel::Eof,
            ],
        ) == Ok::<ExprModel, SyntaxErrorModel>(
            if level < next_level {
                ExprModel::Binary(
                    op,
                    Box::new(ExprModel::Var(a)),
                    Box::new(ExprModel::Binary(next_op, Box::new(ExprModel::Var(b)), Box::new(ExprModel::Var(c)))),
                )
            } else {
                ExprModel::Binary(
                    next_op,
                    Box::new(ExprModel::Binary(op, Box::new(ExprModel::Var(a)), Box::new(ExprModel::Var(b)))),
                    Box::new(ExprModel::Var(c)),
                )
            },
        ),
{
    let t = seq![
        TokenModel::Var(a),
        TokenModel::Sign(sign),
        TokenModel::Var(b),
        TokenModel::Sign(next_sign),
        TokenModel::Var(c),
        TokenModel::Eof,
    ];
    let x = ExprModel::Var(a);
    let y = ExprModel::Var(b);
    let z = ExprModel::Var(c);
    one_token_is_an_operand(t, 0, x);
    one_token_is_an_operand(t, 2, y);
    one_token_is_an_operand(t, 4, z);
    operand_stays(t, 0, x, 0, level + 1, 6);
    operand_stays(t, 4, z, 0, next_level + 1, 6);
    if level < next_level {
        let inner = ExprModel::Binary(next_op, Box::new(y), Box::new(z));
        let whole = ExprModel::Binary(op, Box::new(x), Box::new(inner));
        operand_stays(t, 2, y, 0, next_level + 1, 6);
        operands_join(t, 2, next_sign, next_op, next_level, y, 0, z, 0);
        operand_stays(t, 2, inner, 2, level + 1, next_level);
        operands_join(t, 0, sign, op, level, x, 0, inner, 2);
        operand_stays(t, 0, whole, 4, 0, level);
        whole_is_parsed(t, whole, 4);
    } else {
        let inner = ExprModel::Binary(op, Box::new(x), Box::new(y));
        let whole = ExprModel::Binary(next_op, Box::new(inner), Box::new(z));
        operand_stays(t, 2, y, 0, level + 1, 6);
        if level > next_level {
            operands_join(t, 0, sign, op, level, x, 0, y, 0);
            operand_stays(t, 0, inner, 2, next_level + 1, level);
            operands_join(t, 0, next_sign, next_op, next_level, inner, 2, z, 0);
        } else {
            unfold_binary(t, 0, level);
            unfold_binary_rest(t, 1, level, x);
            unfold_binary_rest(t, 3, level, inner);
            unfold_binary_rest(t, 5, level, whole);
        }
        operand_stays(t, 0, whole, 4, 0, next_level);
        whole_is_parsed(t, whole, 4);
    }
}

/// A literal, a variable and a bare word write themselves; `true`, `false` and
/// `null` write the values that they name.
pub proof fn single_tokens_write_themselves(s: Seq<char>)
    ensures
        parsed(seq![TokenModel::Number(s), TokenModel::Eof]) == Ok::<ExprModel, SyntaxErrorModel>(ExprModel::Number(s)),
        parsed(seq![TokenModel::Str(s), TokenModel::Eof]) == Ok::<ExprModel, SyntaxErrorModel>(ExprModel::Text(s)),
        parsed(seq![TokenModel::Var(s), TokenModel::Eof]) == Ok::<ExprModel, SyntaxErrorModel>(ExprModel::Var(s)),
        parsed(seq![TokenModel::Ident(s), TokenModel::Eof]) == Ok::<ExprModel, SyntaxErrorModel>(
            if s == "true"@ {
                ExprModel::Bool(true)
            } else if s == "false"@ {
                ExprModel::Bool(false)
            } else if s == "null"@ {
                ExprModel::Null
            } else {
                ExprModel::Ident(s)
            },
        ),
        parsed(seq![TokenModel::Eof]) is Err,
{
    reveal_strlit("true");
    reveal_strlit("false");
    reveal_strlit("null");
    assert("true"@[0] == 't' && "false"@[0] == 'f' && "null"@[0] == 'n');
    single_token_is_parsed(seq![TokenModel::Number(s), TokenModel::Eof], ExprModel::Number(s));
    single_token_is_parsed(seq![TokenModel::Str(s), TokenModel::Eof], ExprModel::Text(s));
    single_token_is_parsed(seq![TokenModel::Var(s), TokenModel::Eof], ExprModel::Var(s));
    let t = seq![TokenModel::Ident(s), TokenModel::Eof];
    let word = if s == "true"@ {
        ExprModel::Bool(true)
    } else if s == "false"@ {
        ExprModel::Bool(false)
    } else if s == "null"@ {
        ExprModel::Null
    } else {
        ExprModel::Ident(s)
    };
    unfold_binary(t, 0, 6);
    unfold_unary(t, 0);
    unfold_primary(t, 0);
    unfold_postfix_rest(t, 1, word);
    operand_stays(t, 0, word, 0, 0, 6);
    whole_is_parsed(t, word, 0);
    let none = seq![TokenModel::Eof];
    unfold_primary(none, 0);
    unfold_unary(none, 0);
    unfold_binary(none, 0, 6);
    unfold_binary(none, 0, 5);
    unfold_binary(none, 0, 4);
    unfold_binary(none, 0, 3);
    unfold_binary(none, 0, 2);
    unfold_binary(none, 0, 1);
    unfold_binary(none, 0, 0);
    unfold_ternary(none, 0);
}

proof fn single_token_is_parsed(t: Seq<TokenModel>, e: ExprModel)
    requires
        t.len() == 2,
        t[1] == TokenModel::Eof,
        stands_alone(t, 0, e),
    ensures
        parsed(t) == Ok::<ExprModel, SyntaxErrorModel>(e),
{
    one_token_is_an_operand(t, 0, e);
    operand_stays(t, 0, e, 0, 0, 6);
    whole_is_parsed(t, e, 0);
}

/// `!` before an operand writes its negation and `-` its opposite number.
pub proof fn signs_before_write_opposites(a: Seq<char>)
    ensures
        parsed(seq![TokenModel::Sign(Sign::Bang), TokenModel::Var(a), TokenModel::Eof]) == Ok::<
            ExprModel,
            SyntaxErrorModel,
        >(ExprModel::Unary(UnaryOp::Not, Box::new(ExprModel::Var(a)))),
        parsed(seq![TokenModel::Sign(Sign::Minus), TokenModel::Var(a), TokenModel::Eof]) == Ok::<
            ExprModel,
            SyntaxErrorModel,
        >(ExprModel::Unary(UnaryOp::Neg, Box::new(ExprModel::Var(a)))),
{
    let not = seq![TokenModel::Sign(Sign::Bang), TokenModel::Var(a), TokenModel::Eof];
    let neg = seq![TokenModel::Sign(Sign::Minus), TokenModel::Var(a), TokenModel::Eof];
    let inner = ExprModel::Var(a);
    one_token_is_an_operand(not, 1, inner);
    unfold_binary(not, 1, 6);
    unfold_unary(not, 0);
    unfold_binary(not, 0, 6);
    let e = ExprModel::Unary(UnaryOp::Not, Box::new(inner));
    operand_stays(not, 0, e, 1, 0, 6);
    whole_is_parsed(not, e, 1);
    one_token_is_an_operand(neg, 1, inner);
    unfold_binary(neg, 1, 6);
    unfold_unary(neg, 0);
    unfold_binary(neg, 0, 6);
    let f = ExprModel::Unary(UnaryOp::Neg, Box::new(inner));
    operand_stays(neg, 0, f, 1, 0, 6);
    whole_is_parsed(neg, f, 1);
}

proof fn single_choice(t: Seq<TokenModel>, pos: nat, e: ExprModel)
    requires
        stands_alone(t, pos, e),
        !sign_at(t, pos + 1, Sign::LBracket),
        !sign_at(t, pos + 1, Sign::Dot),
        !sign_at(t, pos + 1, Sign::Question),
        forall|level: nat| level < 6 ==> #[trigger] op_of(level, token_at(t, pos + 1)) is None,
    ensures
        ternary(t, pos) == Ok::<(ExprModel, nat), SyntaxErrorModel>((e, 0)),
{
    one_token_is_an_operand(t, pos, e);
    operand_stays(t, pos, e, 0, 0, 6);
    unfold_ternary(t, pos);
}

/// `a ? b : c` writes the choice between `b` and `c` by `a`.
pub proof fn question_marks_write_choices(a: Seq<char>, b: Seq<char>, c: Seq<char>)
    ensures
        parsed(
            seq![
                TokenModel::Var(a),
                TokenModel::Sign(Sign::Question),
                TokenModel::Var(b),
                TokenModel::Sign(Sign::Colon),
                TokenModel::Var(c),
                TokenModel::Eof,
            ],
        ) == Ok::<ExprModel, SyntaxErrorModel>(
            ExprModel::Ternary(
                Box::new(ExprModel::Var(a)),
                Box::new(ExprModel::Var(b)),
                Box::new(ExprModel::Var(c)),
            ),
        ),
{
    let t = seq![
        TokenModel::Var(a),
        TokenModel::Sign(Sign::Question),
        TokenModel::Var(b),
        TokenModel::Sign(Sign::Colon),
        TokenModel::Var(c),
        TokenModel::Eof,
    ];
    one_token_is_an_operand(t, 0, ExprModel::Var(a));
    operand_stays(t, 0, ExprModel::Var(a), 0, 0, 6);
    single_choice(t, 2, ExprModel::Var(b));
    single_choice(t, 4, ExprModel::Var(c));
    unfold_ternary(t, 0);
}

/// `a[b]` writes the part `b` of `a`, and `a.name` the part of that name.
pub proof fn brackets_and_dots_write_parts(a: Seq<char>, b: Seq<char>, name: Seq<char>)
    ensures
        parsed(
            seq![
                TokenModel::Var(a),
                TokenModel::Sign(Sign::LBracket),
                TokenModel::Var(b),
                TokenModel::Sign(Sign::RBracket),
                TokenModel::Eof,
            ],
        ) == Ok::<ExprModel, SyntaxErrorModel>(
            ExprModel::Index(Box::new(ExprModel::Var(a)), Box::new(ExprModel::Var(b))),
        ),
        parsed(
            seq![TokenModel::Var(a), TokenModel::Sign(Sign::Dot), TokenModel::Ident(name), TokenModel::Eof],
        ) == Ok::<ExprModel, SyntaxErrorModel>(ExprModel::Member(Box::new(ExprModel::Var(a)), name)),
{
    let t = seq![
        TokenModel::Var(a),
        TokenModel::Sign(Sign::LBracket),
        TokenModel::Var(b),
        TokenModel::Sign(Sign::RBracket),
        TokenModel::Eof,
    ];
    let e = ExprModel::Index(Box::new(ExprModel::Var(a)), Box::new(ExprModel::Var(b)));
    single_choice(t, 2, ExprModel::Var(b));
    unfold_postfix_rest(t, 4, e);
    unfold_postfix_rest(t, 1, ExprModel::Var(a));
    unfold_primary(t, 0);
    unfold_unary(t, 0);
    unfold_binary(t, 0, 6);
    operand_stays(t, 0, e, 3, 0, 6);
    whole_is_parsed(t, e, 3);
    let u = seq![TokenModel::Var(a), TokenModel::Sign(Sign::Dot), TokenModel::Ident(name), TokenModel::Eof];
    let f = ExprModel::Member(Box::new(ExprModel::Var(a)), name);
    unfold_postfix_rest(u, 3, f);
    unfold_postfix_rest(u, 1, ExprModel::Var(a));
    unfold_primary(u, 0);
    unfold_unary(u, 0);
    unfold_binary(u, 0, 6);
    operand_stays(u, 0, f, 2, 0, 6);
    whole_is_parsed(u, f, 2);
}

/// A word with bracketed operands behind it writes the call of that name on
/// them, in order, and bracketed operands alone the list of them.
pub proof fn brackets_write_calls_and_lists(name: Seq<char>, a: Seq<char>, b: Seq<char>)
    requires
        name != "true"@,
        name != "false"@,
        name != "null"@,
    ensures
        parsed(
            seq![
                TokenModel::Ident(name),
                TokenModel::Sign(Sign::LParen),
                TokenModel::Var(a),
                TokenModel::Sign(Sign::Comma),
                TokenModel::Var(b),
                TokenModel::Sign(Sign::RParen),
                TokenModel::Eof,
            ],
        ) == Ok::<ExprModel, SyntaxErrorModel>(
            ExprModel::Call(name, 0, seq![ExprModel::Var(a), ExprModel::Var(b)]),
        ),
        parsed(
            seq![
                TokenModel::Sign(Sign::LBracket),
                TokenModel::Var(a),
                TokenModel::Sign(Sign::Comma),
                TokenModel::Var(b),
                TokenModel::Sign(Sign::RBracket),
                TokenModel::Eof,
            ],
        ) == Ok::<ExprModel, SyntaxErrorModel>(ExprModel::Array(seq![ExprModel::Var(a), ExprModel::Var(b)])),
{
    let both = seq![ExprModel::Var(a), ExprModel::Var(b)];
    assert(seq![ExprModel::Var(a)] + seq![ExprModel::Var(b)] =~= both);
    let t = seq![
        TokenModel::Ident(name),
        TokenModel::Sign(Sign::LParen),
        TokenModel::Var(a),
        TokenModel::Sign(Sign::Comma),
        TokenModel::Var(b),
        TokenModel::Sign(Sign::RParen),
        TokenModel::Eof,
    ];
    let e = ExprModel::Call(name, 0, both);
    single_choice(t, 2, ExprModel::Var(a));
    single_choice(t, 4, ExprModel::Var(b));
    unfold_args_rest(t, 4, Sign::RParen);
    unfold_args_rest(t, 2, Sign::RParen);
    unfold_args(t, 2, Sign::RParen);
    unfold_primary(t, 0);
    unfold_postfix_rest(t, 6, e);
    unfold_unary(t, 0);
    unfold_binary(t, 0, 6);
    operand_stays(t, 0, e, 5, 0, 6);
    whole_is_parsed(t, e, 5);
    let u = seq![
        TokenModel::Sign(Sign::LBracket),
        TokenModel::Var(a),
        TokenModel::Sign(Sign::Comma),
        TokenModel::Var(b),
        TokenModel::Sign(Sign::RBracket),
        TokenModel::Eof,
    ];
    let f = ExprModel::Array(both);
    single_choice(u, 1, ExprModel::Var(a));
    single_choice(u, 3, ExprModel::Var(b));
    unfold_args_rest(u, 3, Sign::RBracket);
    unfold_args_rest(u, 1, Sign::RBracket);
    unfold_args(u, 1, Sign::RBracket);
    unfold_primary(u, 0);
    unfold_postfix_rest(u, 5, f);
    unfold_unary(u, 0);
    unfold_binary(u, 0, 6);
    operand_stays(u, 0, f, 4, 0, 6);
    whole_is_parsed(u, f, 4);
}

/// What stands in round brackets is done first, however loosely it binds.
pub proof fn brackets_come_first(
    a: Seq<char>,
    sign: Sign,
    op: BinaryOp,
    level: nat,
    b: Seq<char>,
    next_sign: Sign,
    next_op: BinaryOp,
    next_level: nat,
    c: Seq<char>,
)
    requires
        binds(sign, op, level),
        binds(next_sign, next_op, next_level),
    ensures
        parsed(
            seq![
                TokenModel::Sign(Sign::LParen),
                TokenModel::Var(a),
                TokenModel::Sign(sign),
                TokenModel::Var(b),
                TokenModel::Sign(Sign::RParen),
                TokenModel::Sign(next_sign),
                TokenModel::Var(c),
                TokenModel::Eof,
            ],
        ) == Ok::<ExprModel, SyntaxErrorModel>(
            ExprModel::Binary(
                next_op,
                Box::new(ExprModel::Binary(op, Box::new(ExprModel::Var(a)), Box::new(ExprModel::Var(b)))),
                Box::new(ExprModel::Var(c)),
            ),
        ),
{
    let t = seq![
        TokenModel::Sign(Sign::LParen),
        TokenModel::Var(a),
        TokenModel::Sign(sign),
        TokenModel::Var(b),
        TokenModel::Sign(Sign::RParen),
        TokenModel::Sign(next_sign),
        TokenModel::Var(c),
        TokenModel::Eof,
    ];
    let x = ExprModel::Var(a);
    let y = ExprModel::Var(b);
    let z = ExprModel::Var(c);
    let inner = ExprModel::Binary(op, Box::new(x), Box::new(y));
    let whole = ExprModel::Binary(next_op, Box::new(inner), Box::new(z));
    one_token_is_an_operand(t, 1, x);
    one_token_is_an_operand(t, 3, y);
    one_token_is_an_operand(t, 6, z);
    operand_stays(t, 1, x, 0, level + 1, 6);
    operand_stays(t, 3, y, 0, level + 1, 6);
    operands_join(t, 1, sign, op, level, x, 0, y, 0);
    operand_stays(t, 1, inner, 2, 0, level);
    unfold_ternary(t, 1);
    unfold_primary(t, 0);
    unfold_postfix_rest(t, 5, inner);
    unfold_unary(t, 0);
    unfold_binary(t, 0, 6);
    operand_stays(t, 0, inner, 4, next_level + 1, 6);
    operand_stays(t, 6, z, 0, next_level + 1, 6);
    operands_join(t, 0, next_sign, next_op, next_level, inner, 4, z, 0);
    operand_stays(t, 0, whole, 6, 0, next_level);
    whole_is_parsed(t, whole, 6);
}

} // verus!
