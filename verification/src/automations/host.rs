//! What the engine asks of the program around it: arithmetic on doubles, JSON
//! text of values that hold them, the local calendar, cron fire times and
//! random draws.
//!
//! The engine takes the host as a closure from questions to answers, and is
//! proved for every host whose answer depends on the question alone.

use vstd::prelude::*;

use crate::value::{Number, Value, ValueModel};

verus! {

/// An operation on one double.
#[derive(Debug, Clone, Copy, PartialEq, Eq, Structural)]
pub enum UnaryMath {
    Neg,
    Abs,
    Round,
    Floor,
    Ceil,
    Trunc,
    Sqrt,
}

/// An operation on two doubles.
#[derive(Debug, Clone, Copy, PartialEq, Eq, Structural)]
pub enum BinaryMath {
    Add,
    Sub,
    Mul,
    Div,
    Rem,
    Pow,
    Min,
    Max,
    /// The first double rounded to as many decimal places as the second says.
    RoundTo,
}

/// How one double stands to another.
#[derive(Debug, Clone, Copy, PartialEq, Eq, Structural)]
pub enum Standing {
    Less,
    Equal,
    Greater,
}

/// A moment on the local calendar. Sunday is day zero of the week.
#[derive(Debug, Clone, Copy, PartialEq, Eq, Structural)]
pub struct LocalTime {
    pub year: i32,
    pub month: u32,
    pub day: u32,
    pub hour: u32,
    pub minute: u32,
    pub second: u32,
    pub weekday: u32,
}

impl LocalTime {
    /// The parts are in the ranges of a calendar and a clock.
    pub open spec fn wf(self) -> bool {
        &&& 0 <= self.year
        &&& 1 <= self.month <= 12
        &&& 1 <= self.day <= 31
        &&& self.hour < 24
        &&& self.minute < 60
        &&& self.second < 60
        &&& self.weekday < 7
    }
}

/// A question to the host. A double is given by its bit pattern.
pub enum Ask {
    /// The double that a text writes, if it writes one.
    Parse(String),
    /// The double nearest to a whole number from zero up.
    Unsigned(u128),
    /// The double nearest to a whole number.
    Signed(i64),
    Unary(UnaryMath, u64),
    Binary(BinaryMath, u64, u64),
    /// How the first double stands to the second; nothing if either is not a
    /// number.
    Compare(u64, u64),
    /// The whole part of a double, within the range of `u64`.
    Whole(u64),
    /// The JSON number for a double, a whole number where it is one; nothing for
    /// infinity or what is not a number.
    Number(u64),
    /// A double as text concatenation writes it.
    Show(u64),
    /// A double as error messages write it.
    Debug(u64),
    /// A value as compact JSON.
    Encode(Value),
    /// A value as indented JSON.
    Pretty(Value),
    /// The value that a JSON text writes, or what is wrong with it.
    Decode(String),
    /// The local calendar at a moment, in milliseconds since the epoch.
    Local(u64),
    /// The first moment after `after_ms` at which a cron expression fires on the
    /// local calendar, in milliseconds since the epoch.
    Fires { cron: String, after_ms: u64 },
    /// A random double from zero up to one, for the call at `site` of the
    /// expression `scope` at the moment `now_ms`.
    Random { now_ms: u128, scope: String, site: usize },
}

/// What a question holds.
pub enum AskModel {
    Parse(Seq<char>),
    Unsigned(u128),
    Signed(i64),
    Unary(UnaryMath, u64),
    Binary(BinaryMath, u64, u64),
    Compare(u64, u64),
    Whole(u64),
    Number(u64),
    Show(u64),
    Debug(u64),
    Encode(ValueModel),
    Pretty(ValueModel),
    Decode(Seq<char>),
    Local(u64),
    Fires { cron: Seq<char>, after_ms: u64 },
    Random { now_ms: u128, scope: Seq<char>, site: int },
}

impl DeepView for Ask {
    type V = AskModel;

    open spec fn deep_view(&self) -> AskModel {
        match self {
            Ask::Parse(s) => AskModel::Parse(s@),
            Ask::Unsigned(n) => AskModel::Unsigned(*n),
            Ask::Signed(n) => AskModel::Signed(*n),
            Ask::Unary(op, a) => AskModel::Unary(*op, *a),
            Ask::Binary(op, a, b) => AskModel::Binary(*op, *a, *b),
            Ask::Compare(a, b) => AskModel::Compare(*a, *b),
            Ask::Whole(a) => AskModel::Whole(*a),
            Ask::Number(a) => AskModel::Number(*a),
            Ask::Show(a) => AskModel::Show(*a),
            Ask::Debug(a) => AskModel::Debug(*a),
            Ask::Encode(v) => AskModel::Encode(v.deep_view()),
            Ask::Pretty(v) => AskModel::Pretty(v.deep_view()),
            Ask::Decode(s) => AskModel::Decode(s@),
            Ask::Local(ms) => AskModel::Local(*ms),
            Ask::Fires { cron, after_ms } => AskModel::Fires { cron: cron@, after_ms: *after_ms },
            Ask::Random { now_ms, scope, site } => AskModel::Random {
                now_ms: *now_ms,
                scope: scope@,
                site: *site as int,
            },
        }
    }
}

/// An answer of the host.
pub enum Answer {
    /// A double, or none.
    Bits(Option<u64>),
    Standing(Option<Standing>),
    Whole(u64),
    Number(Option<Number>),
    Text(String),
    Value(Result<Value, String>),
    Local(LocalTime),
    Moment(Option<i64>),
}

/// What an answer holds.
pub enum AnswerModel {
    Bits(Option<u64>),
    Standing(Option<Standing>),
    Whole(u64),
    Number(Option<Number>),
    Text(Seq<char>),
    Value(Result<ValueModel, Seq<char>>),
    Local(LocalTime),
    Moment(Option<i64>),
}

/// What the outcome of a computation holds: a value or a message.
pub open spec fn outcome(r: Result<Value, String>) -> Result<ValueModel, Seq<char>> {
    match r {
        Ok(v) => Ok(v.deep_view()),
        Err(e) => Err(e@),
    }
}

impl DeepView for Answer {
    type V = AnswerModel;

    open spec fn deep_view(&self) -> AnswerModel {
        match self {
            Answer::Bits(b) => AnswerModel::Bits(*b),
            Answer::Standing(s) => AnswerModel::Standing(*s),
            Answer::Whole(n) => AnswerModel::Whole(*n),
            Answer::Number(n) => AnswerModel::Number(*n),
            Answer::Text(s) => AnswerModel::Text(s@),
            Answer::Value(r) => AnswerModel::Value(outcome(*r)),
            Answer::Local(t) => AnswerModel::Local(*t),
            Answer::Moment(m) => AnswerModel::Moment(*m),
        }
    }
}

/// All answers of a host.
pub type Oracle = spec_fn(AskModel) -> AnswerModel;

/// The host answers every question, and equal questions with equal answers. What
/// it draws at random it may draw in any way, as long as it keeps to a draw: the
/// question names the moment and the place that the draw is for. What it says of
/// the local calendar and of cron moments rests on the machine's time zone, which
/// has to stay as it is while one host is asked.
pub open spec fn faithful<H: Fn(Ask) -> Answer>(host: H) -> bool {
    &&& forall|a: Ask| #[trigger] call_requires(host, (a,))
    &&& forall|a: Ask, b: Ask, x: Answer, y: Answer| #[trigger]
        call_ensures(host, (a,), x) && #[trigger] call_ensures(host, (b,), y) && a.deep_view() == b.deep_view()
            ==> x.deep_view() == y.deep_view()
}

/// A question and its answer.
pub open spec fn replies<H: Fn(Ask) -> Answer>(host: H, a: AskModel, exchange: (Ask, Answer)) -> bool {
    exchange.0.deep_view() == a && call_ensures(host, (exchange.0,), exchange.1)
}

/// The answers of `host`.
pub open spec fn oracle<H: Fn(Ask) -> Answer>(host: H) -> Oracle {
    |a: AskModel| (choose|exchange: (Ask, Answer)| replies(host, a, exchange)).1.deep_view()
}

/// The host's answer to a question.
pub fn ask<H: Fn(Ask) -> Answer>(host: &H, question: Ask) -> (r: Answer)
    requires
        faithful(*host),
    ensures
        r.deep_view() == oracle(*host)(question.deep_view()),
{
    let ghost q = question;
    let r = host(question);
    proof {
        assert(replies(*host, q.deep_view(), (q, r)));
        let e = choose|exchange: (Ask, Answer)| replies(*host, q.deep_view(), exchange);
        assert(replies(*host, q.deep_view(), e));
        assert(call_ensures(*host, (e.0,), e.1));
    }
    r
}

// ---------- What an answer means where one kind of answer is due ----------

/// The double in an answer; an answer of another kind is none.
pub open spec fn bits_in(a: AnswerModel) -> Option<u64> {
    match a {
        AnswerModel::Bits(b) => b,
        _ => None,
    }
}

/// The standing in an answer.
pub open spec fn standing_in(a: AnswerModel) -> Option<Standing> {
    match a {
        AnswerModel::Standing(s) => s,
        _ => None,
    }
}

/// The whole number in an answer.
pub open spec fn whole_in(a: AnswerModel) -> u64 {
    match a {
        AnswerModel::Whole(n) => n,
        _ => 0,
    }
}

/// The JSON number in an answer.
pub open spec fn number_in(a: AnswerModel) -> Option<Number> {
    match a {
        AnswerModel::Number(n) => n,
        _ => None,
    }
}

/// The text in an answer.
pub open spec fn text_in(a: AnswerModel) -> Seq<char> {
    match a {
        AnswerModel::Text(s) => s,
        _ => Seq::empty(),
    }
}

/// The value in an answer.
pub open spec fn value_in(a: AnswerModel) -> Result<ValueModel, Seq<char>> {
    match a {
        AnswerModel::Value(r) => r,
        _ => Err(Seq::empty()),
    }
}

/// The epoch's first moment in Greenwich, which stands in for a calendar that
/// was not given.
pub open spec fn epoch() -> LocalTime {
    LocalTime { year: 1970, month: 1, day: 1, hour: 0, minute: 0, second: 0, weekday: 4 }
}

/// The calendar in an answer, if its parts are in range.
pub open spec fn local_in(a: AnswerModel) -> LocalTime {
    match a {
        AnswerModel::Local(t) => if t.wf() { t } else { epoch() },
        _ => epoch(),
    }
}

/// The moment in an answer.
pub open spec fn moment_in(a: AnswerModel) -> Option<i64> {
    match a {
        AnswerModel::Moment(m) => m,
        _ => None,
    }
}

/// The host's double for `question`.
pub fn ask_bits<H: Fn(Ask) -> Answer>(host: &H, question: Ask) -> (r: Option<u64>)
    requires
        faithful(*host),
    ensures
        r == bits_in(oracle(*host)(question.deep_view())),
{
    match ask(host, question) {
        Answer::Bits(b) => b,
        _ => None,
    }
}

/// The host's standing for `question`.
pub fn ask_standing<H: Fn(Ask) -> Answer>(host: &H, question: Ask) -> (r: Option<Standing>)
    requires
        faithful(*host),
    ensures
        r == standing_in(oracle(*host)(question.deep_view())),
{
    match ask(host, question) {
        Answer::Standing(s) => s,
        _ => None,
    }
}

/// The host's whole number for `question`.
pub fn ask_whole<H: Fn(Ask) -> Answer>(host: &H, question: Ask) -> (r: u64)
    requires
        faithful(*host),
    ensures
        r == whole_in(oracle(*host)(question.deep_view())),
{
    match ask(host, question) {
        Answer::Whole(n) => n,
        _ => 0,
    }
}

/// The host's JSON number for `question`.
pub fn ask_number<H: Fn(Ask) -> Answer>(host: &H, question: Ask) -> (r: Option<Number>)
    requires
        faithful(*host),
    ensures
        r == number_in(oracle(*host)(question.deep_view())),
{
    match ask(host, question) {
        Answer::Number(n) => n,
        _ => None,
    }
}

/// The host's text for `question`.
pub fn ask_text<H: Fn(Ask) -> Answer>(host: &H, question: Ask) -> (r: String)
    requires
        faithful(*host),
    ensures
        r@ == text_in(oracle(*host)(question.deep_view())),
{
    match ask(host, question) {
        Answer::Text(s) => s,
        _ => String::new(),
    }
}

/// The host's value for `question`.
pub fn ask_value<H: Fn(Ask) -> Answer>(host: &H, question: Ask) -> (r: Result<Value, String>)
    requires
        faithful(*host),
    ensures
        outcome(r) == value_in(oracle(*host)(question.deep_view())),
{
    match ask(host, question) {
        Answer::Value(r) => r,
        _ => Err(String::new()),
    }
}

/// The host's calendar for `question`.
pub fn ask_local<H: Fn(Ask) -> Answer>(host: &H, question: Ask) -> (r: LocalTime)
    requires
        faithful(*host),
    ensures
        r == local_in(oracle(*host)(question.deep_view())),
        r.wf(),
{
    match ask(host, question) {
        Answer::Local(t) if t.year >= 0 && 1 <= t.month && t.month <= 12 && 1 <= t.day && t.day <= 31 && t.hour < 24
            && t.minute < 60 && t.second < 60 && t.weekday < 7 => t,
        _ => LocalTime { year: 1970, month: 1, day: 1, hour: 0, minute: 0, second: 0, weekday: 4 },
    }
}

/// The host's moment for `question`.
pub fn ask_moment<H: Fn(Ask) -> Answer>(host: &H, question: Ask) -> (r: Option<i64>)
    requires
        faithful(*host),
    ensures
        r == moment_in(oracle(*host)(question.deep_view())),
{
    match ask(host, question) {
        Answer::Moment(m) => m,
        _ => None,
    }
}

} // verus!
