//! The evaluation of expressions.
//!
//! `$name` reads a variable; bare `input` is a dictionary of the upstream
//! block's outputs (so `input.body`, `input.status_code`). `+` concatenates when
//! either operand is text, otherwise it adds numbers.

use vstd::prelude::*;
use vstd::string::*;

use crate::automations::coerce;
use crate::automations::coerce::{compare, index_value, num, to_number, to_text, values_equal};
use crate::automations::functions::list_fns;
use crate::automations::functions::list_fns::call_list;
use crate::automations::functions::math_fns;
use crate::automations::functions::math_fns::{binary_math, call_math, unary_math, CallSite, CallSiteModel};
use crate::automations::functions::text_fns;
use crate::automations::functions::text_fns::call_text;
use crate::automations::functions::time_fns;
use crate::automations::functions::time_fns::call_time;
use crate::automations::host;
use crate::automations::host::{
    ask_bits, ask_text, Answer, AnswerModel, Ask, AskModel, BinaryMath, Oracle, Standing, UnaryMath,
};
use crate::automations::lexer;
use crate::automations::lexer::{LexError, LexErrorModel, Sign, Token, TokenModel};
use crate::automations::parser;
use crate::automations::parser::{parse, BinaryOp, Expr, ExprModel, SyntaxError, SyntaxErrorModel, UnaryOp};
use crate::dup::Dup;
use crate::table;
use crate::table::Table;
use crate::text;
use crate::text::{around, same, trim};
use crate::unicode;
use crate::unicode::quote;
use crate::value;
use crate::value::{truthy, Number, Value, ValueModel, NOT_A_NUMBER};

verus! {

/// What an expression is evaluated against.
pub struct EvalContext<'a> {
    pub variables: &'a Table<Value>,
    pub input: Value,
    /// Whether each device is on, by its name and by its nickname.
    pub devices: &'a Table<bool>,
    /// The clock that the date functions read.
    pub now_ms: u128,
    /// Where the expression stands, which tells random draws apart.
    pub scope: String,
}

/// What a context holds.
pub struct ContextModel {
    pub variables: Seq<(Seq<char>, ValueModel)>,
    pub input: ValueModel,
    pub devices: Seq<(Seq<char>, bool)>,
    pub now_ms: u128,
    pub scope: Seq<char>,
}

impl<'a> DeepView for EvalContext<'a> {
    type V = ContextModel;

    open spec fn deep_view(&self) -> ContextModel {
        ContextModel {
            variables: self.variables.deep_view(),
            input: self.input.deep_view(),
            devices: self.devices.deep_view(),
            now_ms: self.now_ms,
            scope: self.scope@,
        }
    }
}

// ---------- Messages of syntax errors ----------

/// The name of a sign in messages.
pub open spec fn sign_name(s: Sign) -> Seq<char> {
    match s {
        Sign::Plus => "Plus"@,
        Sign::Minus => "Minus"@,
        Sign::Star => "Star"@,
        Sign::Slash => "Slash"@,
        Sign::Percent => "Percent"@,
        Sign::EqEq => "EqEq"@,
        Sign::NotEq => "NotEq"@,
        Sign::Lt => "Lt"@,
        Sign::LtEq => "LtEq"@,
        Sign::Gt => "Gt"@,
        Sign::GtEq => "GtEq"@,
        Sign::AndAnd => "AndAnd"@,
        Sign::OrOr => "OrOr"@,
        Sign::Bang => "Bang"@,
        Sign::Question => "Question"@,
        Sign::Colon => "Colon"@,
        Sign::LParen => "LParen"@,
        Sign::RParen => "RParen"@,
        Sign::LBracket => "LBracket"@,
        Sign::RBracket => "RBracket"@,
        Sign::Comma => "Comma"@,
        Sign::Dot => "Dot"@,
    }
}

fn name_sign(s: Sign) -> (r: String)
    ensures
        r@ == sign_name(s),
{
    match s {
        Sign::Plus => "Plus".to_owned(),
        Sign::Minus => "Minus".to_owned(),
        Sign::Star => "Star".to_owned(),
        Sign::Slash => "Slash".to_owned(),
        Sign::Percent => "Percent".to_owned(),
        Sign::EqEq => "EqEq".to_owned(),
        Sign::NotEq => "NotEq".to_owned(),
        Sign::Lt => "Lt".to_owned(),
        Sign::LtEq => "LtEq".to_owned(),
        Sign::Gt => "Gt".to_owned(),
        Sign::GtEq => "GtEq".to_owned(),
        Sign::AndAnd => "AndAnd".to_owned(),
        Sign::OrOr => "OrOr".to_owned(),
        Sign::Bang => "Bang".to_owned(),
        Sign::Question => "Question".to_owned(),
        Sign::Colon => "Colon".to_owned(),
        Sign::LParen => "LParen".to_owned(),
        Sign::RParen => "RParen".to_owned(),
        Sign::LBracket => "LBracket".to_owned(),
        Sign::RBracket => "RBracket".to_owned(),
        Sign::Comma => "Comma".to_owned(),
        Sign::Dot => "Dot".to_owned(),
    }
}

/// The double that a written number stands for.
pub open spec fn literal_bits(written: Seq<char>, o: Oracle) -> u64 {
    coerce::or_nan(host::bits_in(o(AskModel::Parse(written))))
}

fn read_literal<H: Fn(Ask) -> Answer>(written: &String, host: &H) -> (r: u64)
    requires
        host::faithful(*host),
    ensures
        r == literal_bits(written@, host::oracle(*host)),
{
    match ask_bits(host, Ask::Parse(written.clone())) {
        Some(bits) => bits,
        None => NOT_A_NUMBER,
    }
}

/// A token in messages.
pub open spec fn token_text(t: TokenModel, o: Oracle) -> Seq<char> {
    match t {
        TokenModel::Number(s) => "Number("@ + host::text_in(o(AskModel::Debug(literal_bits(s, o)))) + ")"@,
        TokenModel::Str(s) => "Str("@ + unicode::quoted(s) + ")"@,
        TokenModel::Ident(s) => "Ident("@ + unicode::quoted(s) + ")"@,
        TokenModel::Var(s) => "Var("@ + unicode::quoted(s) + ")"@,
        TokenModel::Sign(g) => sign_name(g),
        TokenModel::Eof => "Eof"@,
    }
}

fn show_token<H: Fn(Ask) -> Answer>(t: &Token, host: &H) -> (r: String)
    requires
        host::faithful(*host),
    ensures
        r@ == token_text(t.deep_view(), host::oracle(*host)),
{
    match t {
        Token::Number(s) => {
            let bits: u64 = read_literal(s, host);
            around("Number(", ask_text(host, Ask::Debug(bits)).as_str(), ")")
        },
        Token::Str(s) => around("Str(", quote(s.as_str()).as_str(), ")"),
        Token::Ident(s) => around("Ident(", quote(s.as_str()).as_str(), ")"),
        Token::Var(s) => around("Var(", quote(s.as_str()).as_str(), ")"),
        Token::Sign(g) => name_sign(*g),
        Token::Eof => "Eof".to_owned(),
    }
}

/// The message of a lexer error.
pub open spec fn lex_text(e: LexErrorModel) -> Seq<char> {
    match e {
        LexErrorModel::LoneEquals => "'=' must be '==' for comparison"@,
        LexErrorModel::LoneAmpersand => "'&' must be '&&'"@,
        LexErrorModel::LonePipe => "'|' must be '||'"@,
        LexErrorModel::UnterminatedEscape => "unterminated escape"@,
        LexErrorModel::UnterminatedString => "unterminated string"@,
        LexErrorModel::MissingVariableName => "expected variable name after '$'"@,
        LexErrorModel::InvalidNumber(s) => "invalid number '"@ + s + "'"@,
        LexErrorModel::UnexpectedCharacter(c) => "unexpected character '"@ + seq![c] + "'"@,
    }
}

fn show_lex(e: &LexError) -> (r: String)
    ensures
        r@ == lex_text(e.deep_view()),
{
    match e {
        LexError::LoneEquals => "'=' must be '==' for comparison".to_owned(),
        LexError::LoneAmpersand => "'&' must be '&&'".to_owned(),
        LexError::LonePipe => "'|' must be '||'".to_owned(),
        LexError::UnterminatedEscape => "unterminated escape".to_owned(),
        LexError::UnterminatedString => "unterminated string".to_owned(),
        LexError::MissingVariableName => "expected variable name after '$'".to_owned(),
        LexError::InvalidNumber(s) => around("invalid number '", s.as_str(), "'"),
        LexError::UnexpectedCharacter(c) => {
            let mut one = String::new();
            one.push(*c);
            proof {
                assert(one@ =~= seq![*c]);
            }
            around("unexpected character '", one.as_str(), "'")
        },
    }
}

/// The message of a syntax error.
pub open spec fn syntax_text(e: SyntaxErrorModel, o: Oracle) -> Seq<char> {
    match e {
        SyntaxErrorModel::Lex(e) => lex_text(e),
        SyntaxErrorModel::Trailing(t) => "unexpected trailing input near "@ + token_text(t, o),
        SyntaxErrorModel::Expected { expected, found } => "expected "@ + sign_name(expected) + ", found "@ + token_text(
            found,
            o,
        ),
        SyntaxErrorModel::MemberName(t) => "expected member name, found "@ + token_text(t, o),
        SyntaxErrorModel::UnexpectedToken(t) => "unexpected token "@ + token_text(t, o),
        SyntaxErrorModel::Separator { close, found } => "expected ',' or "@ + sign_name(close) + ", found "@ + token_text(
            found,
            o,
        ),
    }
}

/// The message of a syntax error.
pub fn syntax_message<H: Fn(Ask) -> Answer>(e: &SyntaxError, host: &H) -> (r: String)
    requires
        host::faithful(*host),
    ensures
        r@ == syntax_text(e.deep_view(), host::oracle(*host)),
{
    match e {
        SyntaxError::Lex(e) => show_lex(e),
        SyntaxError::Trailing(t) => {
            let mut m = "unexpected trailing input near ".to_owned();
            m.append(show_token(t, host).as_str());
            m
        },
        SyntaxError::Expected { expected, found } => {
            let mut m = around("expected ", name_sign(*expected).as_str(), ", found ");
            m.append(show_token(found, host).as_str());
            m
        },
        SyntaxError::MemberName(t) => {
            let mut m = "expected member name, found ".to_owned();
            m.append(show_token(t, host).as_str());
            m
        },
        SyntaxError::UnexpectedToken(t) => {
            let mut m = "unexpected token ".to_owned();
            m.append(show_token(t, host).as_str());
            m
        },
        SyntaxError::Separator { close, found } => {
            let mut m = around("expected ',' or ", name_sign(*close).as_str(), ", found ");
            m.append(show_token(found, host).as_str());
            m
        },
    }
}

// ---------- Calls ----------

/// The result of calling a function that reads no device.
pub open spec fn call_of(name: Seq<char>, args: Seq<ValueModel>, at: CallSiteModel, o: Oracle) -> Result<ValueModel, Seq<char>> {
    match text_fns::text_call(name, args, o) {
        Some(r) => r,
        None => match math_fns::math_call(name, args, at, o) {
            Some(v) => Ok(v),
            None => match time_fns::time_call(name, args, at.now_ms, o) {
                Some(r) => r,
                None => match list_fns::list_call(name, args, o) {
                    Some(v) => Ok(v),
                    None => Err("unknown function '"@ + name + "'"@),
                },
            },
        },
    }
}

/// Calls a function that reads no device.
pub fn call_function<H: Fn(Ask) -> Answer>(name: &str, args: &Vec<Value>, at: &CallSite, host: &H) -> (r: Result<Value, String>)
    requires
        host::faithful(*host),
    ensures
        host::outcome(r) == call_of(name@, args.deep_view(), at.deep_view(), host::oracle(*host)),
{
    if let Some(r) = call_text(name, args, host) {
        return r;
    }
    if let Some(v) = call_math(name, args, at, host) {
        return Ok(v);
    }
    if let Some(r) = call_time(name, args, at.now_ms, host) {
        return r;
    }
    if let Some(v) = call_list(name, args, host) {
        return Ok(v);
    }
    Err(around("unknown function '", name, "'"))
}

/// The name is one of the functions that read a device.
pub open spec fn is_device_fn(name: Seq<char>) -> bool {
    name == "deviceOn"@ || name == "deviceOff"@ || name == "deviceState"@
}

/// The result of a function that reads a device, by its name or nickname. A
/// device that is not known counts as off, and its state as unknown.
pub open spec fn device_call(name: Seq<char>, args: Seq<ValueModel>, devices: Seq<(Seq<char>, bool)>, o: Oracle) -> Result<ValueModel, Seq<char>> {
    if args.len() == 0 {
        Err(name + ": expected a device name"@)
    } else {
        let on = table::lookup(devices, text::trimmed(coerce::text_for(args[0], o)));
        Ok(
            if name == "deviceOn"@ {
                ValueModel::Bool(on == Some(true))
            } else if name == "deviceOff"@ {
                ValueModel::Bool(on != Some(true))
            } else {
                ValueModel::Text(
                    match on {
                        Some(true) => "on"@,
                        Some(false) => "off"@,
                        None => "unknown"@,
                    },
                )
            },
        )
    }
}

/// Calls a function that reads a device.
pub fn eval_device_fn<H: Fn(Ask) -> Answer>(name: &str, args: &Vec<Value>, devices: &Table<bool>, host: &H) -> (r: Result<Value, String>)
    requires
        host::faithful(*host),
    ensures
        host::outcome(r) == device_call(name@, args.deep_view(), devices.deep_view(), host::oracle(*host)),
{
    if args.len() == 0 {
        let mut m = name.to_owned();
        m.append(": expected a device name");
        return Err(m);
    }
    proof {
        assert(args.deep_view()[0] == args@[0].deep_view());
    }
    let key = trim(to_text(&args[0], host).as_str());
    let on: Option<bool> = match devices.get(key.as_str()) {
        Some(b) => Some(*b),
        None => None,
    };
    if same(name, "deviceOn") {
        Ok(Value::Bool(
            match on {
                Some(b) => b,
                None => false,
            },
        ))
    } else if same(name, "deviceOff") {
        Ok(Value::Bool(
            match on {
                Some(b) => !b,
                None => true,
            },
        ))
    } else {
        Ok(
            Value::Text(
                match on {
                    Some(true) => "on".to_owned(),
                    Some(false) => "off".to_owned(),
                    None => "unknown".to_owned(),
                },
            ),
        )
    }
}

// ---------- Evaluation ----------

/// The arithmetic behind an operator.
pub open spec fn arithmetic(op: BinaryOp) -> Option<BinaryMath> {
    match op {
        BinaryOp::Add => Some(BinaryMath::Add),
        BinaryOp::Sub => Some(BinaryMath::Sub),
        BinaryOp::Mul => Some(BinaryMath::Mul),
        BinaryOp::Div => Some(BinaryMath::Div),
        BinaryOp::Rem => Some(BinaryMath::Rem),
        _ => None,
    }
}

/// The value of an operator that evaluates both of its operands.
pub open spec fn operated(op: BinaryOp, l: ValueModel, r: ValueModel, o: Oracle) -> ValueModel {
    let by = coerce::value_standing(l, r, o);
    match op {
        BinaryOp::Eq => ValueModel::Bool(coerce::equal(l, r, o)),
        BinaryOp::Ne => ValueModel::Bool(!coerce::equal(l, r, o)),
        BinaryOp::Lt => ValueModel::Bool(by == Some(Standing::Less)),
        BinaryOp::Le => ValueModel::Bool(by == Some(Standing::Less) || by == Some(Standing::Equal)),
        BinaryOp::Gt => ValueModel::Bool(by == Some(Standing::Greater)),
        BinaryOp::Ge => ValueModel::Bool(by == Some(Standing::Greater) || by == Some(Standing::Equal)),
        BinaryOp::Add if l is Text || r is Text => ValueModel::Text(coerce::text_for(l, o) + coerce::text_for(r, o)),
        _ => match arithmetic(op) {
            Some(m) => coerce::value_of(
                math_fns::binary_of(m, coerce::number_of(l, o), coerce::number_of(r, o), o),
                o,
            ),
            None => ValueModel::Null,
        },
    }
}

/// The value of an expression.
pub open spec fn value_at(e: ExprModel, ctx: ContextModel, o: Oracle) -> Result<ValueModel, Seq<char>>
    decreases e,
{
    match e {
        ExprModel::Null => Ok(ValueModel::Null),
        ExprModel::Bool(b) => Ok(ValueModel::Bool(b)),
        ExprModel::Number(s) => Ok(coerce::value_of(literal_bits(s, o), o)),
        ExprModel::Text(s) => Ok(ValueModel::Text(s)),
        ExprModel::Var(name) => Ok(
            match table::lookup(ctx.variables, name) {
                Some(v) => v,
                None => ValueModel::Null,
            },
        ),
        ExprModel::Ident(name) => if name == "input"@ {
            Ok(ctx.input)
        } else {
            Err("unknown identifier '"@ + name + "' (use $name for variables)"@)
        },
        ExprModel::Array(items) => match values_at(items, ctx, o) {
            Ok(vs) => Ok(ValueModel::List(vs)),
            Err(e) => Err(e),
        },
        ExprModel::Unary(op, inner) => match value_at(*inner, ctx, o) {
            Err(e) => Err(e),
            Ok(v) => Ok(
                match op {
                    UnaryOp::Not => ValueModel::Bool(!value::is_truthy(v)),
                    UnaryOp::Neg => coerce::value_of(
                        math_fns::unary_of(UnaryMath::Neg, coerce::number_of(v, o), o),
                        o,
                    ),
                },
            ),
        },
        ExprModel::Ternary(cond, yes, no) => match value_at(*cond, ctx, o) {
            Err(e) => Err(e),
            Ok(v) => if value::is_truthy(v) {
                value_at(*yes, ctx, o)
            } else {
                value_at(*no, ctx, o)
            },
        },
        ExprModel::Binary(op, l, r) => match value_at(*l, ctx, o) {
            Err(e) => Err(e),
            Ok(left) => if op == BinaryOp::And && !value::is_truthy(left) || op == BinaryOp::Or && value::is_truthy(left) {
                Ok(left)
            } else {
                match value_at(*r, ctx, o) {
                    Err(e) => Err(e),
                    Ok(right) => if op == BinaryOp::And || op == BinaryOp::Or {
                        Ok(right)
                    } else {
                        Ok(operated(op, left, right, o))
                    },
                }
            },
        },
        ExprModel::Index(base, idx) => match value_at(*base, ctx, o) {
            Err(e) => Err(e),
            Ok(b) => match value_at(*idx, ctx, o) {
                Err(e) => Err(e),
                Ok(i) => Ok(coerce::part(b, i, o)),
            },
        },
        ExprModel::Member(base, name) => match value_at(*base, ctx, o) {
            Err(e) => Err(e),
            Ok(b) => Ok(coerce::part(b, ValueModel::Text(name), o)),
        },
        ExprModel::Call(name, site, args) => match values_at(args, ctx, o) {
            Err(e) => Err(e),
            Ok(vs) => if is_device_fn(name) {
                device_call(name, vs, ctx.devices, o)
            } else {
                call_of(name, vs, CallSiteModel { now_ms: ctx.now_ms, scope: ctx.scope, site }, o)
            },
        },
    }
}

/// The values of expressions, from left to right; the first error wins.
pub open spec fn values_at(items: Seq<ExprModel>, ctx: ContextModel, o: Oracle) -> Result<Seq<ValueModel>, Seq<char>>
    decreases items,
{
    if items.len() == 0 {
        Ok(Seq::empty())
    } else {
        match values_at(items.drop_last(), ctx, o) {
            Err(e) => Err(e),
            Ok(vs) => match value_at(items.last(), ctx, o) {
                Err(e) => Err(e),
                Ok(v) => Ok(vs.push(v)),
            },
        }
    }
}

/// The value of a text as an expression.
pub open spec fn evaluated(src: Seq<char>, ctx: ContextModel, o: Oracle) -> Result<ValueModel, Seq<char>> {
    match parser::parse_of(src) {
        Err(e) => Err(syntax_text(e, o)),
        Ok(e) => value_at(e, ctx, o),
    }
}

fn operate<H: Fn(Ask) -> Answer>(op: BinaryOp, l: &Value, r: &Value, host: &H) -> (v: Value)
    requires
        host::faithful(*host),
        op != BinaryOp::And,
        op != BinaryOp::Or,
    ensures
        v.deep_view() == operated(op, l.deep_view(), r.deep_view(), host::oracle(*host)),
{
    match op {
        BinaryOp::Eq => Value::Bool(values_equal(l, r, host)),
        BinaryOp::Ne => Value::Bool(!values_equal(l, r, host)),
        BinaryOp::Lt => Value::Bool(
            match compare(l, r, host) {
                Some(Standing::Less) => true,
                _ => false,
            },
        ),
        BinaryOp::Le => Value::Bool(
            match compare(l, r, host) {
                Some(Standing::Less) | Some(Standing::Equal) => true,
                _ => false,
            },
        ),
        BinaryOp::Gt => Value::Bool(
            match compare(l, r, host) {
                Some(Standing::Greater) => true,
                _ => false,
            },
        ),
        BinaryOp::Ge => Value::Bool(
            match compare(l, r, host) {
                Some(Standing::Greater) | Some(Standing::Equal) => true,
                _ => false,
            },
        ),
        BinaryOp::Add => {
            let is_text = match (l, r) {
                (Value::Text(_), _) => true,
                (_, Value::Text(_)) => true,
                _ => false,
            };
            if is_text {
                let mut out = to_text(l, host);
                out.append(to_text(r, host).as_str());
                Value::Text(out)
            } else {
                num(binary_math(BinaryMath::Add, to_number(l, host), to_number(r, host), host), host)
            }
        },
        BinaryOp::Sub => num(binary_math(BinaryMath::Sub, to_number(l, host), to_number(r, host), host), host),
        BinaryOp::Mul => num(binary_math(BinaryMath::Mul, to_number(l, host), to_number(r, host), host), host),
        BinaryOp::Div => num(binary_math(BinaryMath::Div, to_number(l, host), to_number(r, host), host), host),
        _ => num(binary_math(BinaryMath::Rem, to_number(l, host), to_number(r, host), host), host),
    }
}

fn eval_all<H: Fn(Ask) -> Answer>(items: &Vec<Expr>, ctx: &EvalContext, host: &H) -> (r: Result<Vec<Value>, String>)
    requires
        host::faithful(*host),
    ensures
        match r {
            Ok(vs) => values_at(items.deep_view(), ctx.deep_view(), host::oracle(*host)) == Ok::<Seq<ValueModel>, Seq<char>>(
                vs.deep_view(),
            ),
            Err(e) => values_at(items.deep_view(), ctx.deep_view(), host::oracle(*host)) == Err::<Seq<ValueModel>, Seq<char>>(e@),
        },
    decreases items,
{
    let ghost all = items.deep_view();
    let ghost c = ctx.deep_view();
    let ghost o = host::oracle(*host);
    let mut out: Vec<Value> = Vec::new();
    let mut i: usize = 0;
    proof {
        assert(all.take(0) =~= Seq::<ExprModel>::empty());
        assert(out.deep_view() =~= Seq::<ValueModel>::empty());
    }
    while i < items.len()
        invariant
            host::faithful(*host),
            all == items.deep_view(),
            c == ctx.deep_view(),
            o == host::oracle(*host),
            i <= items@.len(),
            values_at(all.take(i as int), c, o) == Ok::<Seq<ValueModel>, Seq<char>>(out.deep_view()),
        decreases items@.len() - i,
    {
        proof {
            assert(decreases_to!(*items => items@));
            assert(decreases_to!(items@ => items@[i as int]));
            assert(all.take(i + 1).drop_last() =~= all.take(i as int));
            assert(all.take(i + 1).last() == items@[i as int].model());
        }
        match eval(&items[i], ctx, host) {
            Ok(v) => {
                let ghost had = out.deep_view();
                let ghost m = v.deep_view();
                out.push(v);
                proof {
                    assert(out.deep_view() =~= had.push(m));
                }
            },
            Err(e) => {
                proof {
                    failed_prefix(all, i + 1, c, o);
                }
                return Err(e);
            },
        }
        i = i + 1;
    }
    proof {
        assert(all.take(items@.len() as int) =~= all);
    }
    Ok(out)
}

proof fn failed_prefix(items: Seq<ExprModel>, n: int, ctx: ContextModel, o: Oracle)
    requires
        0 <= n <= items.len(),
        values_at(items.take(n), ctx, o) is Err,
    ensures
        values_at(items, ctx, o) == values_at(items.take(n), ctx, o),
    decreases items.len(),
{
    if n == items.len() {
        assert(items.take(n) =~= items);
    } else {
        assert(items.drop_last().take(n) =~= items.take(n));
        failed_prefix(items.drop_last(), n, ctx, o);
    }
}

/// Evaluates an expression.
pub fn eval<H: Fn(Ask) -> Answer>(expr: &Expr, ctx: &EvalContext, host: &H) -> (r: Result<Value, String>)
    requires
        host::faithful(*host),
    ensures
        host::outcome(r) == value_at(expr.model(), ctx.deep_view(), host::oracle(*host)),
    decreases expr,
{
    match expr {
        Expr::Null => Ok(Value::Null),
        Expr::Bool(b) => Ok(Value::Bool(*b)),
        Expr::Number(s) => Ok(num(read_literal(s, host), host)),
        Expr::Text(s) => Ok(Value::Text(s.clone())),
        Expr::Var(name) => match ctx.variables.get(name.as_str()) {
            Some(v) => Ok(v.dup()),
            None => Ok(Value::Null),
        },
        Expr::Ident(name) => if same(name.as_str(), "input") {
            Ok(ctx.input.dup())
        } else {
            Err(around("unknown identifier '", name.as_str(), "' (use $name for variables)"))
        },
        Expr::Array(items) => {
            proof {
                parser::array_model(*items);
            }
            match eval_all(items, ctx, host) {
                Ok(vs) => {
                    proof {
                        value::list_model(vs);
                    }
                    Ok(Value::List(vs))
                },
                Err(e) => Err(e),
            }
        },
        Expr::Unary(op, inner) => match eval(inner, ctx, host) {
            Err(e) => Err(e),
            Ok(v) => match op {
                UnaryOp::Not => Ok(Value::Bool(!truthy(&v))),
                UnaryOp::Neg => Ok(num(unary_math(UnaryMath::Neg, to_number(&v, host), host), host)),
            },
        },
        Expr::Ternary(cond, yes, no) => match eval(cond, ctx, host) {
            Err(e) => Err(e),
            Ok(v) => if truthy(&v) {
                eval(yes, ctx, host)
            } else {
                eval(no, ctx, host)
            },
        },
        Expr::Binary(op, l, r) => {
            let left = match eval(l, ctx, host) {
                Err(e) => {
                    return Err(e);
                },
                Ok(v) => v,
            };
            // `&&` and `||` evaluate their right side only where it decides.
            match op {
                BinaryOp::And => if !truthy(&left) {
                    Ok(left)
                } else {
                    eval(r, ctx, host)
                },
                BinaryOp::Or => if truthy(&left) {
                    Ok(left)
                } else {
                    eval(r, ctx, host)
                },
                _ => match eval(r, ctx, host) {
                    Err(e) => Err(e),
                    Ok(right) => Ok(operate(*op, &left, &right, host)),
                },
            }
        },
        Expr::Index(base, idx) => match eval(base, ctx, host) {
            Err(e) => Err(e),
            Ok(b) => match eval(idx, ctx, host) {
                Err(e) => Err(e),
                Ok(i) => Ok(index_value(&b, &i, host)),
            },
        },
        Expr::Member(base, name) => match eval(base, ctx, host) {
            Err(e) => Err(e),
            Ok(b) => Ok(index_value(&b, &Value::Text(name.clone()), host)),
        },
        Expr::Call(name, site, args) => {
            proof {
                parser::call_model(*name, *site, *args);
            }
            match eval_all(args, ctx, host) {
                Err(e) => Err(e),
                Ok(vs) => if same(name.as_str(), "deviceOn") || same(name.as_str(), "deviceOff") || same(
                    name.as_str(),
                    "deviceState",
                ) {
                    eval_device_fn(name.as_str(), &vs, ctx.devices, host)
                } else {
                    let at = CallSite { now_ms: ctx.now_ms, scope: ctx.scope.clone(), site: *site };
                    call_function(name.as_str(), &vs, &at, host)
                },
            }
        },
    }
}

/// Evaluates a text as an expression.
pub fn evaluate<H: Fn(Ask) -> Answer>(src: &str, ctx: &EvalContext, host: &H) -> (r: Result<Value, String>)
    requires
        host::faithful(*host),
    ensures
        host::outcome(r) == evaluated(src@, ctx.deep_view(), host::oracle(*host)),
{
    match parse(src) {
        Err(e) => Err(syntax_message(&e, host)),
        Ok(e) => eval(&e, ctx, host),
    }
}

// ---------- Laws ----------

/// `&&` whose left side is not true gives the left side, and `||` whose left
/// side is true gives the left side, whatever stands on the right.
pub proof fn logic_stops_early(l: ExprModel, r: ExprModel, ctx: ContextModel, o: Oracle)
    requires
        value_at(l, ctx, o) is Ok,
    ensures
        !value::is_truthy(value_at(l, ctx, o)->Ok_0) ==> value_at(
            ExprModel::Binary(BinaryOp::And, Box::new(l), Box::new(r)),
            ctx,
            o,
        ) == value_at(l, ctx, o),
        value::is_truthy(value_at(l, ctx, o)->Ok_0) ==> value_at(
            ExprModel::Binary(BinaryOp::Or, Box::new(l), Box::new(r)),
            ctx,
            o,
        ) == value_at(l, ctx, o),
{
}

/// `? :` gives one of its branches, and does not evaluate the other.
pub proof fn choices_take_one_branch(cond: ExprModel, yes: ExprModel, no: ExprModel, ctx: ContextModel, o: Oracle)
    requires
        value_at(cond, ctx, o) is Ok,
    ensures
        value_at(ExprModel::Ternary(Box::new(cond), Box::new(yes), Box::new(no)), ctx, o) == (if value::is_truthy(
            value_at(cond, ctx, o)->Ok_0,
        ) {
            value_at(yes, ctx, o)
        } else {
            value_at(no, ctx, o)
        }),
{
}

/// `+` joins texts as soon as one of its sides is a text.
pub proof fn plus_joins_texts(l: ValueModel, r: ValueModel, o: Oracle)
    requires
        l is Text || r is Text,
    ensures
        operated(BinaryOp::Add, l, r, o) == ValueModel::Text(coerce::text_for(l, o) + coerce::text_for(r, o)),
{
}

/// A variable that was never set is null, and so are the parts of null.
pub proof fn unset_variables_are_null(name: Seq<char>, ctx: ContextModel, o: Oracle)
    requires
        !table::has_key(ctx.variables, name),
    ensures
        value_at(ExprModel::Var(name), ctx, o) == Ok::<ValueModel, Seq<char>>(ValueModel::Null),
        forall|i: ValueModel| #[trigger] coerce::part(ValueModel::Null, i, o) == ValueModel::Null,
{
}

/// A device that is not known counts as off, and its state as unknown.
pub proof fn unknown_devices_are_off(arg: ValueModel, devices: Seq<(Seq<char>, bool)>, o: Oracle)
    requires
        !table::has_key(devices, text::trimmed(coerce::text_for(arg, o))),
    ensures
        device_call("deviceOn"@, seq![arg], devices, o) == Ok::<ValueModel, Seq<char>>(ValueModel::Bool(false)),
        device_call("deviceOff"@, seq![arg], devices, o) == Ok::<ValueModel, Seq<char>>(ValueModel::Bool(true)),
        device_call("deviceState"@, seq![arg], devices, o) == Ok::<ValueModel, Seq<char>>(
            ValueModel::Text("unknown"@),
        ),
{
    reveal_strlit("deviceOn");
    reveal_strlit("deviceOff");
    reveal_strlit("deviceState");
    assert("deviceOn"@.len() == 8 && "deviceOff"@.len() == 9 && "deviceState"@.len() == 11);
}

proof fn operation_is_evaluated(
    a: Seq<char>,
    written: Seq<char>,
    sign: Sign,
    op: BinaryOp,
    level: nat,
    b: Seq<char>,
    ctx: ContextModel,
    o: Oracle,
    l: ValueModel,
    r: ValueModel,
)
    requires
        lexer::is_name(a),
        lexer::is_name(b),
        lexer::writes(written, sign),
        parser::binds(sign, op, level),
        table::lookup(ctx.variables, a) == Some(l),
        table::lookup(ctx.variables, b) == Some(r),
    ensures
        op != BinaryOp::And && op != BinaryOp::Or ==> evaluated(lexer::operation(a, written, b), ctx, o) == Ok::<
            ValueModel,
            Seq<char>,
        >(operated(op, l, r, o)),
        op == BinaryOp::And ==> evaluated(lexer::operation(a, written, b), ctx, o) == Ok::<ValueModel, Seq<char>>(
            if value::is_truthy(l) {
                r
            } else {
                l
            },
        ),
        op == BinaryOp::Or ==> evaluated(lexer::operation(a, written, b), ctx, o) == Ok::<ValueModel, Seq<char>>(
            if value::is_truthy(l) {
                l
            } else {
                r
            },
        ),
{
    lexer::operations_are_read(a, written, sign, b);
    parser::signs_write_operations(a, sign, op, level, b);
    let x = ExprModel::Var(a);
    let y = ExprModel::Var(b);
    reveal_with_fuel(value_at, 2);
    assert(value_at(x, ctx, o) == Ok::<ValueModel, Seq<char>>(l));
    assert(value_at(y, ctx, o) == Ok::<ValueModel, Seq<char>>(r));
}

/// The sign that writes an operation of arithmetic.
pub open spec fn writes_math(written: Seq<char>, math: BinaryMath) -> bool {
    ||| written == seq!['+'] && math == BinaryMath::Add
    ||| written == seq!['-'] && math == BinaryMath::Sub
    ||| written == seq!['*'] && math == BinaryMath::Mul
    ||| written == seq!['/'] && math == BinaryMath::Div
    ||| written == seq!['%'] && math == BinaryMath::Rem
}

/// A text that writes a sum, a difference, a product, a quotient or a remainder
/// of two variables that hold doubles comes to that very operation on the two
/// doubles, the first on the left: `+` adds, `-` subtracts, `*` multiplies, `/`
/// divides and `%` takes the remainder.
pub proof fn arithmetic_is_what_is_written(
    a: Seq<char>,
    written: Seq<char>,
    math: BinaryMath,
    b: Seq<char>,
    ctx: ContextModel,
    o: Oracle,
    x: u64,
    y: u64,
    z: u64,
    n: Number,
)
    requires
        lexer::is_name(a),
        lexer::is_name(b),
        table::lookup(ctx.variables, a) == Some(ValueModel::Number(Number::Float(x))),
        table::lookup(ctx.variables, b) == Some(ValueModel::Number(Number::Float(y))),
        writes_math(written, math),
        o(AskModel::Binary(math, x, y)) == AnswerModel::Bits(Some(z)),
        o(AskModel::Number(z)) == AnswerModel::Number(Some(n)),
    ensures
        evaluated(lexer::operation(a, written, b), ctx, o) == Ok::<ValueModel, Seq<char>>(ValueModel::Number(n)),
{
    let l = ValueModel::Number(Number::Float(x));
    let r = ValueModel::Number(Number::Float(y));
    if math == BinaryMath::Add {
        operation_is_evaluated(a, written, Sign::Plus, BinaryOp::Add, 4, b, ctx, o, l, r);
    } else if math == BinaryMath::Sub {
        operation_is_evaluated(a, written, Sign::Minus, BinaryOp::Sub, 4, b, ctx, o, l, r);
    } else if math == BinaryMath::Mul {
        operation_is_evaluated(a, written, Sign::Star, BinaryOp::Mul, 5, b, ctx, o, l, r);
    } else if math == BinaryMath::Div {
        operation_is_evaluated(a, written, Sign::Slash, BinaryOp::Div, 5, b, ctx, o, l, r);
    } else {
        operation_is_evaluated(a, written, Sign::Percent, BinaryOp::Rem, 5, b, ctx, o, l, r);
    }
}

/// Between whole numbers that the doubles hold exactly, subtracting undoes
/// adding and dividing undoes multiplying: what `$a + $b` comes to, stored as
/// `c`, gives `$a` back as `$c - $b`, and likewise of `*` and `/`. It is asked of
/// the doubles only that the one operation undoes the other on these.
pub proof fn taking_away_undoes_adding(
    a: Seq<char>,
    b: Seq<char>,
    c: Seq<char>,
    ctx: ContextModel,
    o: Oracle,
    x: u64,
    y: u64,
    sum: u64,
    product: u64,
)
    requires
        lexer::is_name(a),
        lexer::is_name(b),
        lexer::is_name(c),
        c != b,
        table::lookup(ctx.variables, a) == Some(ValueModel::Number(Number::Float(x))),
        table::lookup(ctx.variables, b) == Some(ValueModel::Number(Number::Float(y))),
        forall|bits: u64| #[trigger] o(AskModel::Number(bits)) == AnswerModel::Number(Some(Number::Float(bits))),
        o(AskModel::Binary(BinaryMath::Add, x, y)) == AnswerModel::Bits(Some(sum)),
        o(AskModel::Binary(BinaryMath::Sub, sum, y)) == AnswerModel::Bits(Some(x)),
        o(AskModel::Binary(BinaryMath::Mul, x, y)) == AnswerModel::Bits(Some(product)),
        o(AskModel::Binary(BinaryMath::Div, product, y)) == AnswerModel::Bits(Some(x)),
    ensures
        ({
            let added = evaluated(lexer::operation(a, seq!['+'], b), ctx, o);
            let then_ctx = ContextModel { variables: table::put(ctx.variables, c, added->Ok_0), ..ctx };
            added is Ok && evaluated(lexer::operation(c, seq!['-'], b), then_ctx, o) == Ok::<ValueModel, Seq<char>>(
                ValueModel::Number(Number::Float(x)),
            )
        }),
        ({
            let multiplied = evaluated(lexer::operation(a, seq!['*'], b), ctx, o);
            let then_ctx = ContextModel { variables: table::put(ctx.variables, c, multiplied->Ok_0), ..ctx };
            multiplied is Ok && evaluated(lexer::operation(c, seq!['/'], b), then_ctx, o) == Ok::<
                ValueModel,
                Seq<char>,
            >(ValueModel::Number(Number::Float(x)))
        }),
{
    let s = ValueModel::Number(Number::Float(sum));
    let p = ValueModel::Number(Number::Float(product));
    arithmetic_is_what_is_written(a, seq!['+'], BinaryMath::Add, b, ctx, o, x, y, sum, Number::Float(sum));
    arithmetic_is_what_is_written(a, seq!['*'], BinaryMath::Mul, b, ctx, o, x, y, product, Number::Float(product));
    table::put_then_lookup(ctx.variables, c, s, b);
    table::put_then_lookup(ctx.variables, c, p, b);
    let with_sum = ContextModel { variables: table::put(ctx.variables, c, s), ..ctx };
    let with_product = ContextModel { variables: table::put(ctx.variables, c, p), ..ctx };
    arithmetic_is_what_is_written(c, seq!['-'], BinaryMath::Sub, b, with_sum, o, sum, y, x, Number::Float(x));
    arithmetic_is_what_is_written(c, seq!['/'], BinaryMath::Div, b, with_product, o, product, y, x, Number::Float(x));
}

/// A text that compares two variables that hold doubles is true where the first
/// stands to the second as the sign says.
pub proof fn comparisons_are_what_is_written(
    a: Seq<char>,
    b: Seq<char>,
    ctx: ContextModel,
    o: Oracle,
    x: u64,
    y: u64,
    standing: Standing,
)
    requires
        lexer::is_name(a),
        lexer::is_name(b),
        table::lookup(ctx.variables, a) == Some(ValueModel::Number(Number::Float(x))),
        table::lookup(ctx.variables, b) == Some(ValueModel::Number(Number::Float(y))),
        o(AskModel::Compare(x, y)) == AnswerModel::Standing(Some(standing)),
    ensures
        evaluated(lexer::operation(a, seq!['<'], b), ctx, o) == Ok::<ValueModel, Seq<char>>(
            ValueModel::Bool(standing is Less),
        ),
        evaluated(lexer::operation(a, seq!['<', '='], b), ctx, o) == Ok::<ValueModel, Seq<char>>(
            ValueModel::Bool(!(standing is Greater)),
        ),
        evaluated(lexer::operation(a, seq!['>'], b), ctx, o) == Ok::<ValueModel, Seq<char>>(
            ValueModel::Bool(standing is Greater),
        ),
        evaluated(lexer::operation(a, seq!['>', '='], b), ctx, o) == Ok::<ValueModel, Seq<char>>(
            ValueModel::Bool(!(standing is Less)),
        ),
        evaluated(lexer::operation(a, seq!['=', '='], b), ctx, o) == Ok::<ValueModel, Seq<char>>(
            ValueModel::Bool(standing is Equal),
        ),
        evaluated(lexer::operation(a, seq!['!', '='], b), ctx, o) == Ok::<ValueModel, Seq<char>>(
            ValueModel::Bool(!(standing is Equal)),
        ),
{
    let l = ValueModel::Number(Number::Float(x));
    let r = ValueModel::Number(Number::Float(y));
    operation_is_evaluated(a, seq!['<'], Sign::Lt, BinaryOp::Lt, 3, b, ctx, o, l, r);
    operation_is_evaluated(a, seq!['<', '='], Sign::LtEq, BinaryOp::Le, 3, b, ctx, o, l, r);
    operation_is_evaluated(a, seq!['>'], Sign::Gt, BinaryOp::Gt, 3, b, ctx, o, l, r);
    operation_is_evaluated(a, seq!['>', '='], Sign::GtEq, BinaryOp::Ge, 3, b, ctx, o, l, r);
    operation_is_evaluated(a, seq!['=', '='], Sign::EqEq, BinaryOp::Eq, 2, b, ctx, o, l, r);
    operation_is_evaluated(a, seq!['!', '='], Sign::NotEq, BinaryOp::Ne, 2, b, ctx, o, l, r);
}

/// Two texts are compared as texts: the first that differs of their characters
/// decides, and a text comes before one that goes on from it. Texts that are
/// the same are equal; texts that are no numbers only if they are the same.
pub proof fn texts_are_compared_as_texts(
    a: Seq<char>,
    b: Seq<char>,
    ctx: ContextModel,
    o: Oracle,
    x: Seq<char>,
    y: Seq<char>,
)
    requires
        lexer::is_name(a),
        lexer::is_name(b),
        table::lookup(ctx.variables, a) == Some(ValueModel::Text(x)),
        table::lookup(ctx.variables, b) == Some(ValueModel::Text(y)),
    ensures
        evaluated(lexer::operation(a, seq!['+'], b), ctx, o) == Ok::<ValueModel, Seq<char>>(ValueModel::Text(x + y)),
        evaluated(lexer::operation(a, seq!['<'], b), ctx, o) == Ok::<ValueModel, Seq<char>>(
            ValueModel::Bool(text::before(x, y)),
        ),
        evaluated(lexer::operation(a, seq!['>'], b), ctx, o) == Ok::<ValueModel, Seq<char>>(
            ValueModel::Bool(text::before(y, x)),
        ),
        evaluated(lexer::operation(a, seq!['<', '='], b), ctx, o) == Ok::<ValueModel, Seq<char>>(
            ValueModel::Bool(text::before(x, y) || x == y),
        ),
        evaluated(lexer::operation(a, seq!['>', '='], b), ctx, o) == Ok::<ValueModel, Seq<char>>(
            ValueModel::Bool(text::before(y, x) || x == y),
        ),
        x == y ==> evaluated(lexer::operation(a, seq!['=', '='], b), ctx, o) == Ok::<ValueModel, Seq<char>>(
            ValueModel::Bool(true),
        ),
        x != y && o(AskModel::Parse(text::trimmed(x))) == AnswerModel::Bits(None) ==> evaluated(
            lexer::operation(a, seq!['=', '='], b),
            ctx,
            o,
        ) == Ok::<ValueModel, Seq<char>>(ValueModel::Bool(false)),
        evaluated(lexer::operation(a, seq!['!', '='], b), ctx, o) != evaluated(
            lexer::operation(a, seq!['=', '='], b),
            ctx,
            o,
        ),
{
    let l = ValueModel::Text(x);
    let r = ValueModel::Text(y);
    operation_is_evaluated(a, seq!['+'], Sign::Plus, BinaryOp::Add, 4, b, ctx, o, l, r);
    operation_is_evaluated(a, seq!['<'], Sign::Lt, BinaryOp::Lt, 3, b, ctx, o, l, r);
    operation_is_evaluated(a, seq!['<', '='], Sign::LtEq, BinaryOp::Le, 3, b, ctx, o, l, r);
    operation_is_evaluated(a, seq!['>'], Sign::Gt, BinaryOp::Gt, 3, b, ctx, o, l, r);
    operation_is_evaluated(a, seq!['>', '='], Sign::GtEq, BinaryOp::Ge, 3, b, ctx, o, l, r);
    operation_is_evaluated(a, seq!['=', '='], Sign::EqEq, BinaryOp::Eq, 2, b, ctx, o, l, r);
    operation_is_evaluated(a, seq!['!', '='], Sign::NotEq, BinaryOp::Ne, 2, b, ctx, o, l, r);
    text::before_is_total(x, y);
}

/// Of two truth values `&&` is true where both are and `||` where either is.
/// Of other values each gives back one of the two: `&&` the first that counts
/// as false, else the second, `||` the first that counts as true, else the
/// second.
pub proof fn logic_is_what_is_written(
    a: Seq<char>,
    b: Seq<char>,
    ctx: ContextModel,
    o: Oracle,
    l: ValueModel,
    r: ValueModel,
    p: bool,
    q: bool,
)
    requires
        lexer::is_name(a),
        lexer::is_name(b),
        table::lookup(ctx.variables, a) == Some(l),
        table::lookup(ctx.variables, b) == Some(r),
    ensures
        l == ValueModel::Bool(p) && r == ValueModel::Bool(q) ==> evaluated(
            lexer::operation(a, seq!['&', '&'], b),
            ctx,
            o,
        ) == Ok::<ValueModel, Seq<char>>(ValueModel::Bool(p && q)),
        l == ValueModel::Bool(p) && r == ValueModel::Bool(q) ==> evaluated(
            lexer::operation(a, seq!['|', '|'], b),
            ctx,
            o,
        ) == Ok::<ValueModel, Seq<char>>(ValueModel::Bool(p || q)),
        evaluated(lexer::operation(a, seq!['&', '&'], b), ctx, o) == Ok::<ValueModel, Seq<char>>(
            if value::is_truthy(l) {
                r
            } else {
                l
            },
        ),
        evaluated(lexer::operation(a, seq!['|', '|'], b), ctx, o) == Ok::<ValueModel, Seq<char>>(
            if value::is_truthy(l) {
                l
            } else {
                r
            },
        ),
{
    operation_is_evaluated(a, seq!['&', '&'], Sign::AndAnd, BinaryOp::And, 1, b, ctx, o, l, r);
    operation_is_evaluated(a, seq!['|', '|'], Sign::OrOr, BinaryOp::Or, 0, b, ctx, o, l, r);
}

/// `!` turns a truth value round, whatever it is applied to, and twice gives
/// the truth value back; `-` asks for the opposite of the double.
pub proof fn opposites_turn_round(e: ExprModel, ctx: ContextModel, o: Oracle, b: bool, x: u64, z: u64, n: Number)
    ensures
        value_at(e, ctx, o) == Ok::<ValueModel, Seq<char>>(ValueModel::Bool(b)) ==> value_at(
            ExprModel::Unary(UnaryOp::Not, Box::new(e)),
            ctx,
            o,
        ) == Ok::<ValueModel, Seq<char>>(ValueModel::Bool(!b)),
        value_at(e, ctx, o) matches Ok(v) ==> value_at(
            ExprModel::Unary(UnaryOp::Not, Box::new(ExprModel::Unary(UnaryOp::Not, Box::new(e)))),
            ctx,
            o,
        ) == Ok::<ValueModel, Seq<char>>(ValueModel::Bool(value::is_truthy(v))),
        value_at(e, ctx, o) == Ok::<ValueModel, Seq<char>>(ValueModel::Number(Number::Float(x))) && o(
            AskModel::Unary(UnaryMath::Neg, x),
        ) == AnswerModel::Bits(Some(z)) && o(AskModel::Number(z)) == AnswerModel::Number(Some(n)) ==> value_at(
            ExprModel::Unary(UnaryOp::Neg, Box::new(e)),
            ctx,
            o,
        ) == Ok::<ValueModel, Seq<char>>(ValueModel::Number(n)),
{
    reveal_with_fuel(value_at, 3);
}

/// A written text is that text, a written number the double that it is read as,
/// a variable what it holds, and `input` the input; any other bare word is an
/// error.
pub proof fn leaves_are_what_they_name(
    s: Seq<char>,
    ctx: ContextModel,
    o: Oracle,
    v: ValueModel,
    bits: u64,
    n: Number,
)
    ensures
        value_at(ExprModel::Text(s), ctx, o) == Ok::<ValueModel, Seq<char>>(ValueModel::Text(s)),
        o(AskModel::Parse(s)) == AnswerModel::Bits(Some(bits)) && o(AskModel::Number(bits)) == AnswerModel::Number(Some(n))
            ==> value_at(ExprModel::Number(s), ctx, o) == Ok::<ValueModel, Seq<char>>(ValueModel::Number(n)),
        table::lookup(ctx.variables, s) == Some(v) ==> value_at(ExprModel::Var(s), ctx, o) == Ok::<
            ValueModel,
            Seq<char>,
        >(v),
        value_at(ExprModel::Ident("input"@), ctx, o) == Ok::<ValueModel, Seq<char>>(ctx.input),
        s != "input"@ ==> value_at(ExprModel::Ident(s), ctx, o) is Err,
        value_at(ExprModel::Null, ctx, o) == Ok::<ValueModel, Seq<char>>(ValueModel::Null),
        value_at(ExprModel::Bool(true), ctx, o) == Ok::<ValueModel, Seq<char>>(ValueModel::Bool(true)),
        value_at(ExprModel::Bool(false), ctx, o) == Ok::<ValueModel, Seq<char>>(ValueModel::Bool(false)),
{
}

/// A written list holds what its items come to, in order, and fails where one of
/// them fails.
pub proof fn lists_hold_their_items(items: Seq<ExprModel>, ctx: ContextModel, o: Oracle)
    ensures
        values_at(items, ctx, o) is Ok <==> forall|i: int|
            0 <= i < items.len() ==> value_at(#[trigger] items[i], ctx, o) is Ok,
        values_at(items, ctx, o) matches Ok(vs) ==> vs.len() == items.len() && forall|i: int|
            0 <= i < items.len() ==> value_at(#[trigger] items[i], ctx, o) == Ok::<ValueModel, Seq<char>>(vs[i]),
        values_at(items, ctx, o) matches Ok(vs) ==> value_at(ExprModel::Array(items), ctx, o) == Ok::<
            ValueModel,
            Seq<char>,
        >(ValueModel::List(vs)),
    decreases items.len(),
{
    if items.len() > 0 {
        let before = items.drop_last();
        lists_hold_their_items(before, ctx, o);
        assert(items.last() == items[items.len() - 1]);
        assert forall|i: int| 0 <= i < before.len() implies #[trigger] before[i] == items[i] by {}
        if values_at(items, ctx, o) is Ok {
            assert forall|i: int| 0 <= i < items.len() implies value_at(#[trigger] items[i], ctx, o) == Ok::<
                ValueModel,
                Seq<char>,
            >((values_at(items, ctx, o)->Ok_0)[i]) by {
                if i < before.len() {
                    assert(before[i] == items[i]);
                }
            }
        } else if values_at(before, ctx, o) is Err {
            let i = choose|i: int| 0 <= i < before.len() && value_at(#[trigger] before[i], ctx, o) is Err;
            assert(before[i] == items[i]);
        }
    }
}

/// A known device is on or off: `deviceOn` says whether it is on, `deviceOff`
/// the opposite, and `deviceState` names its state. The name may have space
/// round it.
pub proof fn known_devices_are_on_or_off(arg: ValueModel, devices: Seq<(Seq<char>, bool)>, o: Oracle, on: bool)
    requires
        table::lookup(devices, text::trimmed(coerce::text_for(arg, o))) == Some(on),
    ensures
        device_call("deviceOn"@, seq![arg], devices, o) == Ok::<ValueModel, Seq<char>>(ValueModel::Bool(on)),
        device_call("deviceOff"@, seq![arg], devices, o) == Ok::<ValueModel, Seq<char>>(ValueModel::Bool(!on)),
        on ==> device_call("deviceState"@, seq![arg], devices, o) == Ok::<ValueModel, Seq<char>>(
            ValueModel::Text("on"@),
        ),
        !on ==> device_call("deviceState"@, seq![arg], devices, o) == Ok::<ValueModel, Seq<char>>(
            ValueModel::Text("off"@),
        ),
        device_call("deviceOn"@, Seq::empty(), devices, o) is Err,
{
    reveal_strlit("deviceOn");
    reveal_strlit("deviceOff");
    reveal_strlit("deviceState");
    assert("deviceOn"@.len() == 8 && "deviceOff"@.len() == 9 && "deviceState"@.len() == 11);
}

/// A call is answered by the first of the texts, the numbers, the dates and the
/// lists that knows its name, on what its operands come to; the three device
/// functions see the devices; an unknown name is an error.
pub proof fn calls_find_their_function(
    name: Seq<char>,
    site: int,
    args: Seq<ExprModel>,
    ctx: ContextModel,
    o: Oracle,
    vs: Seq<ValueModel>,
)
    requires
        values_at(args, ctx, o) == Ok::<Seq<ValueModel>, Seq<char>>(vs),
    ensures
        ({
            let r = value_at(ExprModel::Call(name, site, args), ctx, o);
            let device = name == "deviceOn"@ || name == "deviceOff"@ || name == "deviceState"@;
            let as_text = text_fns::text_call(name, vs, o);
            let as_math = math_fns::math_call(
                name,
                vs,
                CallSiteModel { now_ms: ctx.now_ms, scope: ctx.scope, site },
                o,
            );
            let as_time = time_fns::time_call(name, vs, ctx.now_ms, o);
            let as_list = list_fns::list_call(name, vs, o);
            &&& device ==> r == device_call(name, vs, ctx.devices, o)
            &&& !device && as_text is Some ==> as_text == Some(r)
            &&& !device && as_text is None && as_math is Some ==> r == Ok::<ValueModel, Seq<char>>(as_math->0)
            &&& !device && as_text is None && as_math is None && as_time is Some ==> as_time == Some(r)
            &&& !device && as_text is None && as_math is None && as_time is None && as_list is Some ==> r == Ok::<
                ValueModel,
                Seq<char>,
            >(as_list->0)
            &&& !device && as_text is None && as_math is None && as_time is None && as_list is None ==> r is Err
        }),
{
}

} // verus!
