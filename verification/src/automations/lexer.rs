//! The tokens of the expression language.

use vstd::prelude::*;

use crate::dup::Dup;
use crate::text;
use crate::text::{chars_of, code_point, is_whitespace, text_of};
use crate::unicode;
use crate::unicode::{is_alphabetic, is_alphanumeric};

verus! {

/// A punctuation mark or an operator.
#[derive(Debug, Clone, Copy, PartialEq, Eq, Structural)]
pub enum Sign {
    Plus,
    Minus,
    Star,
    Slash,
    Percent,
    EqEq,
    NotEq,
    Lt,
    LtEq,
    Gt,
    GtEq,
    AndAnd,
    OrOr,
    Bang,
    Question,
    Colon,
    LParen,
    RParen,
    LBracket,
    RBracket,
    Comma,
    Dot,
}

/// A token. A number is kept as it is written.
pub enum Token {
    Number(String),
    Str(String),
    Ident(String),
    Var(String),
    Sign(Sign),
    Eof,
}

/// What a token holds.
pub enum TokenModel {
    Number(Seq<char>),
    Str(Seq<char>),
    Ident(Seq<char>),
    Var(Seq<char>),
    Sign(Sign),
    Eof,
}

impl DeepView for Token {
    type V = TokenModel;

    open spec fn deep_view(&self) -> TokenModel {
        match self {
            Token::Number(s) => TokenModel::Number(s@),
            Token::Str(s) => TokenModel::Str(s@),
            Token::Ident(s) => TokenModel::Ident(s@),
            Token::Var(s) => TokenModel::Var(s@),
            Token::Sign(g) => TokenModel::Sign(*g),
            Token::Eof => TokenModel::Eof,
        }
    }
}

impl Dup for Token {
    fn dup(&self) -> (r: Self) {
        match self {
            Token::Number(s) => Token::Number(s.clone()),
            Token::Str(s) => Token::Str(s.clone()),
            Token::Ident(s) => Token::Ident(s.clone()),
            Token::Var(s) => Token::Var(s.clone()),
            Token::Sign(g) => Token::Sign(*g),
            Token::Eof => Token::Eof,
        }
    }
}

/// Why a text has no tokens.
pub enum LexError {
    /// A single `=`.
    LoneEquals,
    /// A single `&`.
    LoneAmpersand,
    /// A single `|`.
    LonePipe,
    /// The text ends after a backslash.
    UnterminatedEscape,
    /// The text ends inside a string.
    UnterminatedString,
    /// No name follows a `$`.
    MissingVariableName,
    /// Digits with more than one dot.
    InvalidNumber(String),
    /// A character that starts no token.
    UnexpectedCharacter(char),
}

/// What a lexer error holds.
pub enum LexErrorModel {
    LoneEquals,
    LoneAmpersand,
    LonePipe,
    UnterminatedEscape,
    UnterminatedString,
    MissingVariableName,
    InvalidNumber(Seq<char>),
    UnexpectedCharacter(char),
}

impl DeepView for LexError {
    type V = LexErrorModel;

    open spec fn deep_view(&self) -> LexErrorModel {
        match self {
            LexError::LoneEquals => LexErrorModel::LoneEquals,
            LexError::LoneAmpersand => LexErrorModel::LoneAmpersand,
            LexError::LonePipe => LexErrorModel::LonePipe,
            LexError::UnterminatedEscape => LexErrorModel::UnterminatedEscape,
            LexError::UnterminatedString => LexErrorModel::UnterminatedString,
            LexError::MissingVariableName => LexErrorModel::MissingVariableName,
            LexError::InvalidNumber(s) => LexErrorModel::InvalidNumber(s@),
            LexError::UnexpectedCharacter(c) => LexErrorModel::UnexpectedCharacter(*c),
        }
    }
}

/// The sign that one character alone writes.
pub open spec fn single_sign(c: char) -> Option<Sign> {
    if c == '+' {
        Some(Sign::Plus)
    } else if c == '-' {
        Some(Sign::Minus)
    } else if c == '*' {
        Some(Sign::Star)
    } else if c == '/' {
        Some(Sign::Slash)
    } else if c == '%' {
        Some(Sign::Percent)
    } else if c == '(' {
        Some(Sign::LParen)
    } else if c == ')' {
        Some(Sign::RParen)
    } else if c == '[' {
        Some(Sign::LBracket)
    } else if c == ']' {
        Some(Sign::RBracket)
    } else if c == ',' {
        Some(Sign::Comma)
    } else if c == '.' {
        Some(Sign::Dot)
    } else if c == '?' {
        Some(Sign::Question)
    } else if c == ':' {
        Some(Sign::Colon)
    } else {
        None
    }
}

/// A character of a name: a letter, a digit or an underscore.
pub open spec fn is_name_char(c: char) -> bool {
    unicode::is_word_char(c) || c == '_'
}

/// Where the name that runs through place `i` ends.
pub open spec fn name_end(s: Seq<char>, i: int) -> int
    decreases s.len() - i,
{
    if 0 <= i < s.len() && is_name_char(s[i]) {
        name_end(s, i + 1)
    } else {
        i
    }
}

/// Where the digits and dots that run through place `i` end.
pub open spec fn number_end(s: Seq<char>, i: int) -> int
    decreases s.len() - i,
{
    if 0 <= i < s.len() && (text::is_digit(s[i]) || s[i] == '.') {
        number_end(s, i + 1)
    } else {
        i
    }
}

/// How often `c` stands in `s`.
pub open spec fn count(s: Seq<char>, c: char) -> nat
    decreases s.len(),
{
    if s.len() == 0 {
        0
    } else {
        count(s.drop_last(), c) + (if s.last() == c {
            1nat
        } else {
            0nat
        })
    }
}

/// What a backslash and `c` stand for in a string.
pub open spec fn escaped(c: char) -> Seq<char> {
    if c == 'n' {
        seq!['\n']
    } else if c == 't' {
        seq!['\t']
    } else if c == 'r' {
        seq!['\r']
    } else if c == '\\' || c == '"' || c == '\'' {
        seq![c]
    } else {
        seq!['\\', c]
    }
}

/// The rest of a string from place `i` on: its contents after `read`, and the
/// place behind the closing quote.
pub open spec fn string_rest(s: Seq<char>, quote: char, i: int, read: Seq<char>) -> Result<(Seq<char>, int), LexErrorModel>
    decreases s.len() - i,
{
    if i < 0 || i >= s.len() {
        Err(LexErrorModel::UnterminatedString)
    } else if s[i] == '\\' {
        if i + 1 >= s.len() {
            Err(LexErrorModel::UnterminatedEscape)
        } else {
            string_rest(s, quote, i + 2, read + escaped(s[i + 1]))
        }
    } else if s[i] == quote {
        Ok((read, i + 1))
    } else {
        string_rest(s, quote, i + 1, read.push(s[i]))
    }
}

/// `c` stands at place `i`.
pub open spec fn stands(s: Seq<char>, i: int, c: char) -> bool {
    0 <= i < s.len() && s[i] == c
}

/// The token that starts at place `i` (none for white space) and the place
/// behind it.
pub open spec fn scan(s: Seq<char>, i: int) -> Result<(Option<TokenModel>, int), LexErrorModel> {
    let c = s[i];
    let twice = stands(s, i + 1, c);
    let then_equals = stands(s, i + 1, '=');
    if text::is_white(c) {
        Ok((None, i + 1))
    } else if single_sign(c) is Some {
        Ok((Some(TokenModel::Sign(single_sign(c)->0)), i + 1))
    } else if c == '=' {
        if twice {
            Ok((Some(TokenModel::Sign(Sign::EqEq)), i + 2))
        } else {
            Err(LexErrorModel::LoneEquals)
        }
    } else if c == '!' {
        if then_equals {
            Ok((Some(TokenModel::Sign(Sign::NotEq)), i + 2))
        } else {
            Ok((Some(TokenModel::Sign(Sign::Bang)), i + 1))
        }
    } else if c == '<' {
        if then_equals {
            Ok((Some(TokenModel::Sign(Sign::LtEq)), i + 2))
        } else {
            Ok((Some(TokenModel::Sign(Sign::Lt)), i + 1))
        }
    } else if c == '>' {
        if then_equals {
            Ok((Some(TokenModel::Sign(Sign::GtEq)), i + 2))
        } else {
            Ok((Some(TokenModel::Sign(Sign::Gt)), i + 1))
        }
    } else if c == '&' {
        if twice {
            Ok((Some(TokenModel::Sign(Sign::AndAnd)), i + 2))
        } else {
            Err(LexErrorModel::LoneAmpersand)
        }
    } else if c == '|' {
        if twice {
            Ok((Some(TokenModel::Sign(Sign::OrOr)), i + 2))
        } else {
            Err(LexErrorModel::LonePipe)
        }
    } else if c == '"' || c == '\'' {
        match string_rest(s, c, i + 1, Seq::empty()) {
            Ok((contents, j)) => Ok((Some(TokenModel::Str(contents)), j)),
            Err(e) => Err(e),
        }
    } else if c == '$' {
        let j = name_end(s, i + 1);
        if j == i + 1 {
            Err(LexErrorModel::MissingVariableName)
        } else {
            Ok((Some(TokenModel::Var(s.subrange(i + 1, j))), j))
        }
    } else if text::is_digit(c) {
        let j = number_end(s, i);
        let written = s.subrange(i, j);
        if count(written, '.') <= 1 {
            Ok((Some(TokenModel::Number(written)), j))
        } else {
            Err(LexErrorModel::InvalidNumber(written))
        }
    } else if unicode::is_letter(c) || c == '_' {
        let j = name_end(s, i + 1);
        Ok((Some(TokenModel::Ident(s.subrange(i, j))), j))
    } else {
        Err(LexErrorModel::UnexpectedCharacter(c))
    }
}

pub proof fn name_end_bounds(s: Seq<char>, i: int)
    requires
        0 <= i <= s.len(),
    ensures
        i <= name_end(s, i) <= s.len(),
    decreases s.len() - i,
{
    if i < s.len() && is_name_char(s[i]) {
        name_end_bounds(s, i + 1);
    }
}

pub proof fn number_end_bounds(s: Seq<char>, i: int)
    requires
        0 <= i <= s.len(),
    ensures
        i <= number_end(s, i) <= s.len(),
    decreases s.len() - i,
{
    if i < s.len() && (text::is_digit(s[i]) || s[i] == '.') {
        number_end_bounds(s, i + 1);
    }
}

pub proof fn string_rest_bounds(s: Seq<char>, quote: char, i: int, read: Seq<char>)
    requires
        0 <= i,
    ensures
        string_rest(s, quote, i, read) matches Ok((_, j)) ==> i < j <= s.len(),
    decreases s.len() - i,
{
    if i < s.len() {
        if s[i] == '\\' {
            if i + 1 < s.len() {
                string_rest_bounds(s, quote, i + 2, read + escaped(s[i + 1]));
            }
        } else if s[i] != quote {
            string_rest_bounds(s, quote, i + 1, read.push(s[i]));
        }
    }
}

/// Every step of the lexer moves on, and stays within the text.
pub proof fn scan_moves_on(s: Seq<char>, i: int)
    requires
        0 <= i < s.len(),
    ensures
        scan(s, i) matches Ok((_, j)) ==> i < j <= s.len(),
{
    name_end_bounds(s, i + 1);
    number_end_bounds(s, i);
    number_end_bounds(s, i + 1);
    string_rest_bounds(s, s[i], i + 1, Seq::empty());
}

/// The tokens of `s` from place `i` on, with the end marker last.
pub open spec fn tokens_from(s: Seq<char>, i: int) -> Result<Seq<TokenModel>, LexErrorModel>
    decreases s.len() - i,
{
    if i < 0 || i >= s.len() {
        Ok(seq![TokenModel::Eof])
    } else {
        proof {
            scan_moves_on(s, i);
        }
        match scan(s, i) {
            Err(e) => Err(e),
            Ok((None, j)) => tokens_from(s, j),
            Ok((Some(token), j)) => match tokens_from(s, j) {
                Err(e) => Err(e),
                Ok(rest) => Ok(seq![token] + rest),
            },
        }
    }
}

/// The tokens of `s`.
pub open spec fn tokens_of(s: Seq<char>) -> Result<Seq<TokenModel>, LexErrorModel> {
    tokens_from(s, 0)
}

fn single(c: char) -> (r: Option<Sign>)
    ensures
        r == single_sign(c),
{
    match c {
        '+' => Some(Sign::Plus),
        '-' => Some(Sign::Minus),
        '*' => Some(Sign::Star),
        '/' => Some(Sign::Slash),
        '%' => Some(Sign::Percent),
        '(' => Some(Sign::LParen),
        ')' => Some(Sign::RParen),
        '[' => Some(Sign::LBracket),
        ']' => Some(Sign::RBracket),
        ',' => Some(Sign::Comma),
        '.' => Some(Sign::Dot),
        '?' => Some(Sign::Question),
        ':' => Some(Sign::Colon),
        _ => None,
    }
}

fn is_digit_char(c: char) -> (b: bool)
    ensures
        b == text::is_digit(c),
{
    let n: u32 = code_point(c);
    48 <= n && n <= 57
}

fn end_of_name(v: &Vec<char>, from: usize) -> (j: usize)
    requires
        from <= v@.len(),
    ensures
        j as int == name_end(v@, from as int),
        from <= j <= v@.len(),
{
    let mut i: usize = from;
    while i < v.len() && (is_alphanumeric(v[i]) || v[i] == '_')
        invariant
            from <= i <= v@.len(),
            name_end(v@, from as int) == name_end(v@, i as int),
        decreases v@.len() - i,
    {
        i = i + 1;
    }
    i
}

fn end_of_number(v: &Vec<char>, from: usize) -> (j: usize)
    requires
        from <= v@.len(),
    ensures
        j as int == number_end(v@, from as int),
        from <= j <= v@.len(),
{
    let mut i: usize = from;
    while i < v.len() && (is_digit_char(v[i]) || v[i] == '.')
        invariant
            from <= i <= v@.len(),
            number_end(v@, from as int) == number_end(v@, i as int),
        decreases v@.len() - i,
    {
        i = i + 1;
    }
    i
}

fn count_dots(v: &Vec<char>, from: usize, to: usize) -> (n: usize)
    requires
        from <= to <= v@.len(),
    ensures
        n == count(v@.subrange(from as int, to as int), '.'),
{
    let mut n: usize = 0;
    let mut i: usize = from;
    proof {
        assert(v@.subrange(from as int, from as int) =~= Seq::<char>::empty());
    }
    while i < to
        invariant
            from <= i <= to <= v@.len(),
            n <= i - from,
            n == count(v@.subrange(from as int, i as int), '.'),
        decreases to - i,
    {
        proof {
            assert(v@.subrange(from as int, i + 1).drop_last() =~= v@.subrange(from as int, i as int));
        }
        if v[i] == '.' {
            n = n + 1;
        }
        i = i + 1;
    }
    n
}

fn scan_string(v: &Vec<char>, quote: char, from: usize) -> (r: Result<(String, usize), LexError>)
    requires
        from <= v@.len(),
    ensures
        match r {
            Ok((contents, j)) => string_rest(v@, quote, from as int, Seq::empty()) == Ok::<(Seq<char>, int), LexErrorModel>((contents@, j as int)),
            Err(e) => string_rest(v@, quote, from as int, Seq::empty()) == Err::<(Seq<char>, int), LexErrorModel>(e.deep_view()),
        },
{
    let mut read = String::new();
    let mut i: usize = from;
    proof {
        assert(read@ =~= Seq::<char>::empty());
    }
    while i < v.len()
        invariant
            from <= i <= v@.len(),
            string_rest(v@, quote, from as int, Seq::empty()) == string_rest(v@, quote, i as int, read@),
        decreases v@.len() - i,
    {
        let c = v[i];
        if c == '\\' {
            if i + 1 >= v.len() {
                return Err(LexError::UnterminatedEscape);
            }
            let ghost had = read@;
            let other = v[i + 1];
            match other {
                'n' => {
                    read.push('\n');
                    proof {
                        assert(read@ =~= had + escaped(other));
                    }
                },
                't' => {
                    read.push('\t');
                    proof {
                        assert(read@ =~= had + escaped(other));
                    }
                },
                'r' => {
                    read.push('\r');
                    proof {
                        assert(read@ =~= had + escaped(other));
                    }
                },
                '\\' | '"' | '\'' => {
                    read.push(other);
                    proof {
                        assert(read@ =~= had + escaped(other));
                    }
                },
                _ => {
                    read.push('\\');
                    read.push(other);
                    proof {
                        assert(read@ =~= had + escaped(other));
                    }
                },
            }
            i = i + 2;
        } else if c == quote {
            return Ok((read, i + 1));
        } else {
            read.push(c);
            i = i + 1;
        }
    }
    Err(LexError::UnterminatedString)
}

fn scan_token(v: &Vec<char>, i: usize) -> (r: Result<(Option<Token>, usize), LexError>)
    requires
        i < v.len(),
    ensures
        match r {
            Ok((token, j)) => scan(v@, i as int) == Ok::<(Option<TokenModel>, int), LexErrorModel>((token.deep_view(), j as int)) && i < j <= v@.len(),
            Err(e) => scan(v@, i as int) == Err::<(Option<TokenModel>, int), LexErrorModel>(e.deep_view()),
        },
{
    proof {
        scan_moves_on(v@, i as int);
    }
    let c = v[i];
    if is_whitespace(c) {
        return Ok((None, i + 1));
    }
    if let Some(sign) = single(c) {
        return Ok((Some(Token::Sign(sign)), i + 1));
    }
    let then_equals = i + 1 < v.len() && v[i + 1] == '=';
    match c {
        '=' => if then_equals {
            Ok((Some(Token::Sign(Sign::EqEq)), i + 2))
        } else {
            Err(LexError::LoneEquals)
        },
        '!' => if then_equals {
            Ok((Some(Token::Sign(Sign::NotEq)), i + 2))
        } else {
            Ok((Some(Token::Sign(Sign::Bang)), i + 1))
        },
        '<' => if then_equals {
            Ok((Some(Token::Sign(Sign::LtEq)), i + 2))
        } else {
            Ok((Some(Token::Sign(Sign::Lt)), i + 1))
        },
        '>' => if then_equals {
            Ok((Some(Token::Sign(Sign::GtEq)), i + 2))
        } else {
            Ok((Some(Token::Sign(Sign::Gt)), i + 1))
        },
        '&' => if i + 1 < v.len() && v[i + 1] == '&' {
            Ok((Some(Token::Sign(Sign::AndAnd)), i + 2))
        } else {
            Err(LexError::LoneAmpersand)
        },
        '|' => if i + 1 < v.len() && v[i + 1] == '|' {
            Ok((Some(Token::Sign(Sign::OrOr)), i + 2))
        } else {
            Err(LexError::LonePipe)
        },
        '"' | '\'' => match scan_string(v, c, i + 1) {
            Ok((contents, j)) => Ok((Some(Token::Str(contents)), j)),
            Err(e) => Err(e),
        },
        '$' => {
            let j: usize = end_of_name(v, i + 1);
            if j == i + 1 {
                Err(LexError::MissingVariableName)
            } else {
                Ok((Some(Token::Var(text_of(v, i + 1, j))), j))
            }
        },
        _ => if is_digit_char(c) {
            let j: usize = end_of_number(v, i);
            if count_dots(v, i, j) <= 1 {
                Ok((Some(Token::Number(text_of(v, i, j))), j))
            } else {
                Err(LexError::InvalidNumber(text_of(v, i, j)))
            }
        } else if is_alphabetic(c) || c == '_' {
            let j: usize = end_of_name(v, i + 1);
            Ok((Some(Token::Ident(text_of(v, i, j))), j))
        } else {
            Err(LexError::UnexpectedCharacter(c))
        },
    }
}

/// The tokens of `src`, with the end marker last.
pub fn lex(src: &str) -> (r: Result<Vec<Token>, LexError>)
    ensures
        match r {
            Ok(tokens) => tokens_of(src@) == Ok::<Seq<TokenModel>, LexErrorModel>(tokens.deep_view()),
            Err(e) => tokens_of(src@) == Err::<Seq<TokenModel>, LexErrorModel>(e.deep_view()),
        },
{
    let v = chars_of(src);
    let mut out: Vec<Token> = Vec::new();
    let mut i: usize = 0;
    proof {
        if let Ok(rest) = tokens_from(v@, 0) {
            assert(out.deep_view() + rest =~= rest);
        }
    }
    while i < v.len()
        invariant
            i <= v@.len(),
            v@ == src@,
            match tokens_from(v@, i as int) {
                Ok(rest) => tokens_of(src@) == Ok::<Seq<TokenModel>, LexErrorModel>(out.deep_view() + rest),
                Err(e) => tokens_of(src@) == Err::<Seq<TokenModel>, LexErrorModel>(e),
            },
        decreases v@.len() - i,
    {
        match scan_token(&v, i) {
            Err(e) => {
                return Err(e);
            },
            Ok((None, j)) => {
                i = j;
            },
            Ok((Some(token), j)) => {
                let ghost had = out.deep_view();
                let ghost t = token.deep_view();
                out.push(token);
                proof {
                    assert(out.deep_view() =~= had.push(t));
                    if let Ok(rest) = tokens_from(v@, j as int) {
                        assert(out.deep_view() + rest =~= had + (seq![t] + rest));
                    }
                }
                i = j;
            },
        }
    }
    let ghost had = out.deep_view();
    out.push(Token::Eof);
    proof {
        assert(out.deep_view() =~= had + seq![TokenModel::Eof]);
    }
    Ok(out)
}

// ---------- What texts are read as ----------

/// The text that writes a sign between two operands.
pub open spec fn writes(written: Seq<char>, sign: Sign) -> bool {
    ||| written == seq!['+'] && sign == Sign::Plus
    ||| written == seq!['-'] && sign == Sign::Minus
    ||| written == seq!['*'] && sign == Sign::Star
    ||| written == seq!['/'] && sign == Sign::Slash
    ||| written == seq!['%'] && sign == Sign::Percent
    ||| written == seq!['=', '='] && sign == Sign::EqEq
    ||| written == seq!['!', '='] && sign == Sign::NotEq
    ||| written == seq!['<'] && sign == Sign::Lt
    ||| written == seq!['<', '='] && sign == Sign::LtEq
    ||| written == seq!['>'] && sign == Sign::Gt
    ||| written == seq!['>', '='] && sign == Sign::GtEq
    ||| written == seq!['&', '&'] && sign == Sign::AndAnd
    ||| written == seq!['|', '|'] && sign == Sign::OrOr
}

/// A name: a text of letters, digits and underscores that is not empty.
pub open spec fn is_name(s: Seq<char>) -> bool {
    s.len() > 0 && forall|i: int| 0 <= i < s.len() ==> is_name_char(#[trigger] s[i])
}

/// The variables `a` and `b` with a sign between them, and a space on either
/// side of it.
pub open spec fn operation(a: Seq<char>, written: Seq<char>, b: Seq<char>) -> Seq<char> {
    seq!['$'] + a + seq![' '] + written + seq![' ', '$'] + b
}

proof fn name_ends_there(s: Seq<char>, i: int, j: int)
    requires
        0 <= i <= j <= s.len(),
        forall|k: int| i <= k < j ==> is_name_char(#[trigger] s[k]),
        j < s.len() ==> !is_name_char(s[j]),
    ensures
        name_end(s, i) == j,
    decreases j - i,
{
    if i < j {
        name_ends_there(s, i + 1, j);
    }
}

proof fn variable_is_read(s: Seq<char>, i: int, name: Seq<char>)
    requires
        0 <= i,
        i + 1 + name.len() <= s.len(),
        s[i] == '$',
        is_name(name),
        s.subrange(i + 1, i + 1 + name.len()) == name,
        i + 1 + name.len() < s.len() ==> !is_name_char(s[i + 1 + name.len()]),
    ensures
        scan(s, i) == Ok::<(Option<TokenModel>, int), LexErrorModel>(
            (Some(TokenModel::Var(name)), i + 1 + name.len() as int),
        ),
{
    assert forall|k: int| i + 1 <= k < i + 1 + name.len() implies is_name_char(#[trigger] s[k]) by {
        assert(s.subrange(i + 1, i + 1 + name.len())[k - i - 1] == s[k]);
        assert(is_name_char(name[k - i - 1]));
    }
    name_ends_there(s, i + 1, i + 1 + name.len() as int);
}

/// Two variables with a sign between them are read as the first, the sign and
/// the second; `-` is read as minus, `<=` as at most, and so on.
pub proof fn operations_are_read(a: Seq<char>, written: Seq<char>, sign: Sign, b: Seq<char>)
    requires
        is_name(a),
        is_name(b),
        writes(written, sign),
    ensures
        tokens_of(operation(a, written, b)) == Ok::<Seq<TokenModel>, LexErrorModel>(
            seq![TokenModel::Var(a), TokenModel::Sign(sign), TokenModel::Var(b), TokenModel::Eof],
        ),
{
    let s = operation(a, written, b);
    let n = a.len() as int;
    let m = written.len() as int;
    assert(s.len() == n + m + 4 + b.len());
    assert(s[0] == '$');
    assert(s.subrange(1, 1 + n) =~= a);
    assert(s[1 + n] == ' ');
    assert(s.subrange(2 + n, 2 + n + m) =~= written);
    assert(s[2 + n] == written[0]);
    assert(m == 2 ==> s[3 + n] == written[1]);
    assert(s[2 + n + m] == ' ');
    assert(s[3 + n + m] == '$');
    assert(s.subrange(4 + n + m, s.len() as int) =~= b);
    variable_is_read(s, 0, a);
    variable_is_read(s, 3 + n + m, b);
    let end = tokens_from(s, s.len() as int);
    assert(end == Ok::<Seq<TokenModel>, LexErrorModel>(seq![TokenModel::Eof]));
    let last = tokens_from(s, 3 + n + m);
    assert(last == Ok::<Seq<TokenModel>, LexErrorModel>(seq![TokenModel::Var(b), TokenModel::Eof])) by {
        assert(seq![TokenModel::Var(b)] + seq![TokenModel::Eof] =~= seq![TokenModel::Var(b), TokenModel::Eof]);
    }
    assert(scan(s, 2 + n + m) == Ok::<(Option<TokenModel>, int), LexErrorModel>((None, 3 + n + m)));
    assert(tokens_from(s, 2 + n + m) == last);
    assert(scan(s, 2 + n) == Ok::<(Option<TokenModel>, int), LexErrorModel>(
        (Some(TokenModel::Sign(sign)), 2 + n + m),
    ));
    let rest = seq![TokenModel::Sign(sign), TokenModel::Var(b), TokenModel::Eof];
    assert(tokens_from(s, 2 + n) == Ok::<Seq<TokenModel>, LexErrorModel>(rest)) by {
        assert(seq![TokenModel::Sign(sign)] + seq![TokenModel::Var(b), TokenModel::Eof] =~= rest);
    }
    assert(scan(s, 1 + n) == Ok::<(Option<TokenModel>, int), LexErrorModel>((None, 2 + n)));
    assert(tokens_from(s, 1 + n) == Ok::<Seq<TokenModel>, LexErrorModel>(rest));
    assert(seq![TokenModel::Var(a)] + rest =~= seq![
        TokenModel::Var(a),
        TokenModel::Sign(sign),
        TokenModel::Var(b),
        TokenModel::Eof,
    ]);
}

/// Brackets, commas, dots and the signs of a choice are read as themselves
/// wherever they stand outside strings, and so are a lone `!` and white space.
pub proof fn marks_are_read(s: Seq<char>, i: int)
    requires
        0 <= i < s.len(),
    ensures
        s[i] == '(' ==> scan(s, i) == Ok::<(Option<TokenModel>, int), LexErrorModel>(
            (Some(TokenModel::Sign(Sign::LParen)), i + 1),
        ),
        s[i] == ')' ==> scan(s, i) == Ok::<(Option<TokenModel>, int), LexErrorModel>(
            (Some(TokenModel::Sign(Sign::RParen)), i + 1),
        ),
        s[i] == '[' ==> scan(s, i) == Ok::<(Option<TokenModel>, int), LexErrorModel>(
            (Some(TokenModel::Sign(Sign::LBracket)), i + 1),
        ),
        s[i] == ']' ==> scan(s, i) == Ok::<(Option<TokenModel>, int), LexErrorModel>(
            (Some(TokenModel::Sign(Sign::RBracket)), i + 1),
        ),
        s[i] == ',' ==> scan(s, i) == Ok::<(Option<TokenModel>, int), LexErrorModel>(
            (Some(TokenModel::Sign(Sign::Comma)), i + 1),
        ),
        s[i] == '.' ==> scan(s, i) == Ok::<(Option<TokenModel>, int), LexErrorModel>(
            (Some(TokenModel::Sign(Sign::Dot)), i + 1),
        ),
        s[i] == '?' ==> scan(s, i) == Ok::<(Option<TokenModel>, int), LexErrorModel>(
            (Some(TokenModel::Sign(Sign::Question)), i + 1),
        ),
        s[i] == ':' ==> scan(s, i) == Ok::<(Option<TokenModel>, int), LexErrorModel>(
            (Some(TokenModel::Sign(Sign::Colon)), i + 1),
        ),
        s[i] == '!' && !(i + 1 < s.len() && s[i + 1] == '=') ==> scan(s, i) == Ok::<
            (Option<TokenModel>, int),
            LexErrorModel,
        >((Some(TokenModel::Sign(Sign::Bang)), i + 1)),
        s[i] == ' ' || s[i] == '\n' || s[i] == '\t' || s[i] == '\r' ==> scan(s, i) == Ok::<
            (Option<TokenModel>, int),
            LexErrorModel,
        >((None, i + 1)),
        s[i] == '=' && !(i + 1 < s.len() && s[i + 1] == '=') ==> scan(s, i) is Err,
        s[i] == '&' && !(i + 1 < s.len() && s[i + 1] == '&') ==> scan(s, i) is Err,
        s[i] == '|' && !(i + 1 < s.len() && s[i + 1] == '|') ==> scan(s, i) is Err,
        s[i] == '#' || s[i] == ';' || s[i] == '@' || s[i] == '{' || s[i] == '}' ==> scan(s, i) is Err,
{
}

/// A name that does not begin with a digit is read as a word, all of it, and
/// behind a `$` every name is read as a variable.
pub proof fn words_are_read_whole(name: Seq<char>)
    requires
        is_name(name),
    ensures
        (unicode::is_letter(name[0]) && !text::is_white(name[0])) || name[0] == '_' ==> tokens_of(name) == Ok::<Seq<TokenModel>, LexErrorModel>(
            seq![TokenModel::Ident(name), TokenModel::Eof],
        ),
        tokens_of(seq!['$'] + name) == Ok::<Seq<TokenModel>, LexErrorModel>(
            seq![TokenModel::Var(name), TokenModel::Eof],
        ),
{
    let s = seq!['$'] + name;
    assert(s.subrange(1, 1 + name.len() as int) =~= name);
    variable_is_read(s, 0, name);
    assert(tokens_from(s, s.len() as int) == Ok::<Seq<TokenModel>, LexErrorModel>(seq![TokenModel::Eof]));
    assert(seq![TokenModel::Var(name)] + seq![TokenModel::Eof] =~= seq![TokenModel::Var(name), TokenModel::Eof]);
    if (unicode::is_letter(name[0]) && !text::is_white(name[0])) || name[0] == '_' {
        name_ends_there(name, 1, name.len() as int);
        assert(name.subrange(0, name.len() as int) =~= name);
        if unicode::is_letter(name[0]) {
            letters_start_words(name[0]);
        }
        assert(scan(name, 0) == Ok::<(Option<TokenModel>, int), LexErrorModel>(
            (Some(TokenModel::Ident(name)), name.len() as int),
        ));
        assert(tokens_from(name, name.len() as int) == Ok::<Seq<TokenModel>, LexErrorModel>(seq![TokenModel::Eof]));
        assert(seq![TokenModel::Ident(name)] + seq![TokenModel::Eof] =~= seq![TokenModel::Ident(name), TokenModel::Eof]);
    }
}

proof fn letters_start_words(c: char)
    requires
        unicode::is_letter(c),
        is_name_char(c),
    ensures
        unicode::is_ascii_char(c) ==> !text::is_white(c) && single_sign(c) is None && !text::is_digit(c),
{
}

/// A run of digits, with or without a dot in it, is read as a number, just as
/// it is written; with a second dot it is refused.
pub proof fn numbers_are_read_whole(before: Seq<char>, after: Seq<char>, last: Seq<char>)
    requires
        before.len() > 0,
        text::all_digits(before),
        text::all_digits(after),
        text::all_digits(last),
    ensures
        tokens_of(before) == Ok::<Seq<TokenModel>, LexErrorModel>(seq![TokenModel::Number(before), TokenModel::Eof]),
        tokens_of(before + seq!['.'] + after) == Ok::<Seq<TokenModel>, LexErrorModel>(
            seq![TokenModel::Number(before + seq!['.'] + after), TokenModel::Eof],
        ),
        tokens_of(before + seq!['.'] + after + seq!['.'] + last) is Err,
{
    let one = before + seq!['.'] + after;
    let two = before + seq!['.'] + after + seq!['.'] + last;
    number_ends_there(before, 0);
    number_ends_there(one, 0);
    number_ends_there(two, 0);
    digits_hold_no_dot(before);
    digits_hold_no_dot(after);
    digits_hold_no_dot(last);
    dots_add_up(before, seq!['.']);
    dots_add_up(before + seq!['.'], after);
    dots_add_up(one, seq!['.']);
    dots_add_up(one + seq!['.'], last);
    assert(count(seq!['.'], '.') == 1) by {
        reveal_with_fuel(count, 2);
        assert(seq!['.'].drop_last() =~= Seq::<char>::empty());
    }
    assert(before.subrange(0, before.len() as int) =~= before);
    assert(one.subrange(0, one.len() as int) =~= one);
    assert(two.subrange(0, two.len() as int) =~= two);
    assert(one[0] == before[0] && two[0] == before[0]);
    assert(seq![TokenModel::Number(before)] + seq![TokenModel::Eof] =~= seq![TokenModel::Number(before), TokenModel::Eof]);
    assert(seq![TokenModel::Number(one)] + seq![TokenModel::Eof] =~= seq![TokenModel::Number(one), TokenModel::Eof]);
    assert(tokens_from(before, before.len() as int) == Ok::<Seq<TokenModel>, LexErrorModel>(seq![TokenModel::Eof]));
    assert(tokens_from(one, one.len() as int) == Ok::<Seq<TokenModel>, LexErrorModel>(seq![TokenModel::Eof]));
}

proof fn number_ends_there(s: Seq<char>, i: int)
    requires
        0 <= i <= s.len(),
        forall|k: int| i <= k < s.len() ==> text::is_digit(#[trigger] s[k]) || s[k] == '.',
    ensures
        number_end(s, i) == s.len(),
    decreases s.len() - i,
{
    if i < s.len() {
        number_ends_there(s, i + 1);
    }
}

proof fn digits_hold_no_dot(s: Seq<char>)
    requires
        text::all_digits(s),
    ensures
        count(s, '.') == 0,
    decreases s.len(),
{
    if s.len() > 0 {
        assert forall|i: int| 0 <= i < s.drop_last().len() implies text::is_digit(#[trigger] s.drop_last()[i]) by {
            assert(text::is_digit(s[i]));
        }
        digits_hold_no_dot(s.drop_last());
        assert(text::is_digit(s[s.len() - 1]));
    }
}

proof fn dots_add_up(s: Seq<char>, t: Seq<char>)
    ensures
        count(s + t, '.') == count(s, '.') + count(t, '.'),
    decreases t.len(),
{
    if t.len() == 0 {
        assert(s + t =~= s);
    } else {
        assert((s + t).drop_last() =~= s + t.drop_last());
        dots_add_up(s, t.drop_last());
    }
}

/// How a character is written between quotes: line breaks, tabs, backslashes
/// and quotes with a backslash before them.
pub open spec fn written_char(c: char) -> Seq<char> {
    if c == '\n' {
        seq!['\\', 'n']
    } else if c == '\t' {
        seq!['\\', 't']
    } else if c == '\r' {
        seq!['\\', 'r']
    } else if c == '\\' || c == '"' || c == '\'' {
        seq!['\\', c]
    } else {
        seq![c]
    }
}

/// How a text is written between quotes.
pub open spec fn written(w: Seq<char>) -> Seq<char>
    decreases w.len(),
{
    if w.len() == 0 {
        Seq::empty()
    } else {
        written_char(w[0]) + written(w.skip(1))
    }
}

proof fn written_is_read(s: Seq<char>, quote: char, i: int, w: Seq<char>, read: Seq<char>)
    requires
        quote == '"' || quote == '\'',
        0 <= i,
        i + written(w).len() < s.len(),
        s.subrange(i, i + written(w).len()) == written(w),
        s[i + written(w).len()] == quote,
    ensures
        string_rest(s, quote, i, read) == Ok::<(Seq<char>, int), LexErrorModel>(
            (read + w, i + written(w).len() as int + 1),
        ),
    decreases w.len(),
{
    if w.len() == 0 {
        assert(read + w =~= read);
    } else {
        let c = written_char(w[0]);
        let k = c.len() as int;
        let rest = w.skip(1);
        assert(written(w) == c + written(rest));
        assert(s[i] == s.subrange(i, i + written(w).len())[0]);
        assert(s[i] == c[0]);
        if k == 2 {
            assert(s[i + 1] == s.subrange(i, i + written(w).len())[1]);
            assert(s[i + 1] == c[1]);
        }
        assert(s.subrange(i + k, i + k + written(rest).len()) =~= written(rest)) by {
            assert forall|j: int| 0 <= j < written(rest).len() implies s.subrange(i + k, i + k + written(rest).len())[j]
                == written(rest)[j] by {
                assert(s.subrange(i, i + written(w).len())[k + j] == (c + written(rest))[k + j]);
            }
        }
        written_is_read(s, quote, i + k, rest, read.push(w[0]));
        assert(read.push(w[0]) + rest =~= read + w);
        if k == 2 {
            assert(read + escaped(c[1]) =~= read.push(w[0]));
        }
    }
}

/// Every text can be written between quotes, of either kind, and is read back
/// as it was.
pub proof fn written_texts_are_read_back(w: Seq<char>, quote: char)
    requires
        quote == '"' || quote == '\'',
    ensures
        tokens_of(seq![quote] + written(w) + seq![quote]) == Ok::<Seq<TokenModel>, LexErrorModel>(
            seq![TokenModel::Str(w), TokenModel::Eof],
        ),
{
    let s = seq![quote] + written(w) + seq![quote];
    assert(s.subrange(1, 1 + written(w).len() as int) =~= written(w));
    written_is_read(s, quote, 1, w, Seq::empty());
    assert(Seq::<char>::empty() + w =~= w);
    assert(tokens_from(s, s.len() as int) == Ok::<Seq<TokenModel>, LexErrorModel>(seq![TokenModel::Eof]));
    assert(seq![TokenModel::Str(w)] + seq![TokenModel::Eof] =~= seq![TokenModel::Str(w), TokenModel::Eof]);
}

} // verus!
