use fusebox::automations::expr::{evaluate, EvalContext};
use fusebox::automations::host::{Answer, Ask, BinaryMath, LocalTime, Standing, UnaryMath};
use fusebox::schedules::next_cron_fire;
use fusebox::table::Table;
use fusebox::time::{local_time, now_ms};
use fusebox::value::{Number, Value};

// Doubles, JSON and the calendar, as a program hands them to the library.

fn double(bits: u64) -> f64 {
    f64::from_bits(bits)
}

fn bits(value: f64) -> Answer {
    Answer::Bits(Some(value.to_bits()))
}

fn to_json(value: &Value) -> serde_json::Value {
    match value {
        Value::Null => serde_json::Value::Null,
        Value::Bool(b) => serde_json::Value::Bool(*b),
        Value::Number(Number::PosInt(n)) => serde_json::Value::from(*n),
        Value::Number(Number::NegInt(n)) => serde_json::Value::from(*n),
        Value::Number(Number::Float(b)) => serde_json::Value::from(double(*b)),
        Value::Text(s) => serde_json::Value::String(s.clone()),
        Value::List(items) => serde_json::Value::Array(items.iter().map(to_json).collect()),
        Value::Dict(table) => serde_json::Value::Object(
            table.entries.iter().map(|(key, value)| (key.clone(), to_json(value))).collect(),
        ),
    }
}

fn from_json(value: &serde_json::Value) -> Value {
    match value {
        serde_json::Value::Null => Value::Null,
        serde_json::Value::Bool(b) => Value::Bool(*b),
        serde_json::Value::Number(n) => Value::Number(from_number(n)),
        serde_json::Value::String(s) => Value::Text(s.clone()),
        serde_json::Value::Array(items) => Value::List(items.iter().map(from_json).collect()),
        serde_json::Value::Object(map) => {
            let mut table = Table::new();
            for (key, value) in map {
                table.insert(key.clone(), from_json(value));
            }
            Value::Dict(table)
        }
    }
}

fn from_number(n: &serde_json::Number) -> Number {
    if let Some(u) = n.as_u64() {
        Number::PosInt(u)
    } else if let Some(i) = n.as_i64() {
        Number::NegInt(i)
    } else {
        Number::Float(n.as_f64().unwrap_or(f64::NAN).to_bits())
    }
}

fn show(value: f64) -> String {
    if value.is_nan() {
        "NaN".to_string()
    } else if value == value.trunc() && value.is_finite() && value.abs() < 1e15 {
        format!("{}", value as i64)
    } else {
        format!("{value}")
    }
}

fn host(ask: Ask) -> Answer {
    match ask {
        Ask::Parse(s) => Answer::Bits(s.parse::<f64>().ok().map(f64::to_bits)),
        Ask::Unsigned(n) => bits(n as f64),
        Ask::Signed(n) => bits(n as f64),
        Ask::Unary(op, a) => {
            let x = double(a);
            bits(match op {
                UnaryMath::Neg => -x,
                UnaryMath::Abs => x.abs(),
                UnaryMath::Round => x.round(),
                UnaryMath::Floor => x.floor(),
                UnaryMath::Ceil => x.ceil(),
                UnaryMath::Trunc => x.trunc(),
                UnaryMath::Sqrt => x.sqrt(),
            })
        }
        Ask::Binary(op, a, b) => {
            let (x, y) = (double(a), double(b));
            bits(match op {
                BinaryMath::Add => x + y,
                BinaryMath::Sub => x - y,
                BinaryMath::Mul => x * y,
                BinaryMath::Div => x / y,
                BinaryMath::Rem => x % y,
                BinaryMath::Pow => x.powf(y),
                BinaryMath::Min => x.min(y),
                BinaryMath::Max => x.max(y),
                BinaryMath::RoundTo => {
                    let scale = 10f64.powi(y.max(0.0) as i32);
                    (x * scale).round() / scale
                }
            })
        }
        Ask::Compare(a, b) => Answer::Standing(double(a).partial_cmp(&double(b)).map(|by| match by {
            std::cmp::Ordering::Less => Standing::Less,
            std::cmp::Ordering::Equal => Standing::Equal,
            std::cmp::Ordering::Greater => Standing::Greater,
        })),
        Ask::Whole(a) => Answer::Whole(double(a).max(0.0) as u64),
        Ask::Number(a) => {
            let x = double(a);
            Answer::Number(if !x.is_finite() {
                None
            } else if x.fract() == 0.0 && x.abs() < 9_007_199_254_740_992.0 {
                Some(from_number(&serde_json::Number::from(x as i64)))
            } else {
                Some(Number::Float(a))
            })
        }
        Ask::Show(a) => Answer::Text(show(double(a))),
        Ask::Debug(a) => Answer::Text(format!("{:?}", double(a))),
        Ask::Encode(v) => Answer::Text(serde_json::to_string(&to_json(&v)).unwrap_or_default()),
        Ask::Pretty(v) => Answer::Text(serde_json::to_string_pretty(&to_json(&v)).unwrap_or_default()),
        Ask::Decode(s) => Answer::Value(
            serde_json::from_str::<serde_json::Value>(&s).map(|v| from_json(&v)).map_err(|e| e.to_string()),
        ),
        Ask::Local(ms) => Answer::Local(local_time(ms).unwrap_or(LocalTime {
            year: 1970,
            month: 1,
            day: 1,
            hour: 0,
            minute: 0,
            second: 0,
            weekday: 4,
        })),
        Ask::Fires { cron, after_ms } => Answer::Moment(next_cron_fire(&cron, after_ms as i64)),
        Ask::Random { .. } => bits(0.25),
    }
}

fn json(text: &str) -> serde_json::Value {
    serde_json::from_str(text).unwrap()
}

fn table<V>(mut entries: Vec<(&str, V)>) -> Table<V> {
    entries.sort_by(|a, b| a.0.cmp(b.0));
    Table { entries: entries.into_iter().map(|(key, value)| (key.to_string(), value)).collect() }
}

fn try_eval(src: &str, vars: &Table<Value>, input: &serde_json::Value) -> Result<serde_json::Value, String> {
    let devices = Table::new();
    let ctx = EvalContext {
        variables: vars,
        input: from_json(input),
        devices: &devices,
        now_ms: now_ms(),
        scope: String::new(),
    };
    evaluate(src, &ctx, &host).map(|v| to_json(&v))
}

fn eval_str(src: &str, vars: &Table<Value>, input: &serde_json::Value) -> serde_json::Value {
    try_eval(src, vars, input).expect("eval ok")
}

fn text(s: &str) -> serde_json::Value {
    serde_json::Value::String(s.to_string())
}

fn flag(b: bool) -> serde_json::Value {
    serde_json::Value::Bool(b)
}

const NULL: serde_json::Value = serde_json::Value::Null;

#[test]
fn device_state_functions() {
    let vars = Table::new();
    let devices = table(vec![("lamp", true), ("fan", false)]);
    let run = |src: &str| {
        let ctx = EvalContext {
            variables: &vars,
            input: Value::Null,
            devices: &devices,
            now_ms: now_ms(),
            scope: String::new(),
        };
        to_json(&evaluate(src, &ctx, &host).expect("eval ok"))
    };
    assert_eq!(run("deviceOn(\"lamp\")"), flag(true));
    assert_eq!(run("deviceOff(\"lamp\")"), flag(false));
    assert_eq!(run("deviceOn(\"fan\")"), flag(false));
    assert_eq!(run("deviceState(\"fan\")"), text("off"));
    assert_eq!(run("deviceState(\"missing\")"), text("unknown"));
}

#[test]
fn unknown_devices_count_as_off() {
    let vars = Table::new();
    let run = |src: &str| eval_str(src, &vars, &NULL);
    assert_eq!(run("deviceOn(\"missing\")"), flag(false));
    assert_eq!(run("deviceOff(\"missing\")"), flag(true));
    assert_eq!(run("deviceState(\"missing\")"), text("unknown"));
}

#[test]
fn sorting_keeps_what_sorts_alike_in_place() {
    let vars = Table::new();
    let run = |src: &str| eval_str(src, &vars, &NULL);
    assert_eq!(run(r#"sort([2, "1", 1, 0])"#), json(r#"[0, "1", 1, 2]"#));
    assert_eq!(run(r#"sort([2, 1, "1", 0])"#), json(r#"[0, 1, "1", 2]"#));
    assert_eq!(run(r#"sort(["b", 10, "a", 9])"#), json(r#"[10, 9, "a", "b"]"#));
}

#[test]
fn between_function() {
    let vars = Table::new();
    assert_eq!(eval_str(r#"between("00:00", "23:59")"#, &vars, &NULL), flag(true));
    let vars2 = table(vec![("active", Value::Bool(true))]);
    assert_eq!(eval_str(r#"between("03:00", "03:01") || $active"#, &vars2, &NULL), flag(true));
    assert!(try_eval(r#"between("nope", "01:00")"#, &vars, &NULL).is_err());
}

#[test]
fn utility_functions() {
    let vars = Table::new();
    let run = |s: &str| eval_str(s, &vars, &NULL);
    assert_eq!(run(r#"startsWith("hello", "he")"#), flag(true));
    assert_eq!(run(r#"endsWith("hello", "xo")"#), flag(false));
    assert_eq!(run(r#"capitalize("hello")"#), text("Hello"));
    assert_eq!(run(r#"repeat("ab", 3)"#), text("ababab"));
    assert_eq!(run(r#"padStart("7", 3, "0")"#), text("007"));
    assert_eq!(run("clamp(15, 0, 10)"), json("10"));
    assert_eq!(run("clamp(-5, 0, 10)"), json("0"));
    assert_eq!(run("round(3.14159, 2)"), json("3.14"));
    assert_eq!(run("round(3.7)"), json("4"));
    let wd = run("weekday()").as_f64().unwrap();
    assert!((0.0..=6.0).contains(&wd));
    let mo = run("month()").as_f64().unwrap();
    assert!((1.0..=12.0).contains(&mo));
    assert_eq!(run("len(date())"), json("10"));
    assert_eq!(run("len(time())"), json("5"));
    assert_eq!(run("year(0) >= 1969"), flag(true));
}

#[test]
fn array_and_dict_functions() {
    let vars = table(vec![("t", from_json(&json("[18.6, 17.2, 21.2, 15.4]")))]);
    let run = |s: &str| eval_str(s, &vars, &NULL);
    assert_eq!(run("max($t)"), json("21.2"));
    assert_eq!(run("min($t)"), json("15.4"));
    assert_eq!(run("$t[2]"), json("21.2"));
    assert_eq!(run("len($t)"), json("4"));
    assert_eq!(run("first($t)"), json("18.6"));
    assert_eq!(run("last($t)"), json("15.4"));
    assert_eq!(run("round(avg($t), 2)"), json("18.1"));
    assert_eq!(run("sum([1, 2, 3])"), json("6"));
    assert_eq!(run("max(1, 2, 3)"), json("3"));
    assert_eq!(run("sort([3, 1, 2])"), json("[1, 2, 3]"));
    assert_eq!(run("reverse([1, 2, 3])"), json("[3, 2, 1]"));
    assert_eq!(run("slice([1, 2, 3, 4], 1, 3)"), json("[2, 3]"));

    let dvars = table(vec![("d", from_json(&json(r#"{"a": 1, "b": 2}"#)))]);
    let drun = |s: &str| eval_str(s, &dvars, &NULL);
    assert_eq!(drun(r#"get($d, "a")"#), json("1"));
    assert_eq!(drun(r#"get($d, "z", 99)"#), json("99"));
    assert_eq!(drun("keys($d)"), json(r#"["a", "b"]"#));
    assert_eq!(drun("len(entries($d))"), json("2"));
}

#[test]
fn arithmetic_and_precedence() {
    let vars = Table::new();
    assert_eq!(eval_str("1 + 2 * 3", &vars, &NULL), json("7"));
    assert_eq!(eval_str("(1 + 2) * 3", &vars, &NULL), json("9"));
    assert_eq!(eval_str("10 % 3", &vars, &NULL), json("1"));
    assert_eq!(eval_str("jsonEncode(3 + 4)", &vars, &NULL), text("7"));
}

#[test]
fn string_concat_with_plus() {
    let vars = Table::new();
    assert_eq!(eval_str("\"a\" + \"b\" + 1", &vars, &NULL), text("ab1"));
}

#[test]
fn variables_and_input() {
    let vars = table(vec![("counter", from_json(&serde_json::Value::from(5.0)))]);
    assert_eq!(eval_str("$counter + 1", &vars, &NULL), json("6"));
    let input = json(r#"{ "status_code": 200, "body": "ok" }"#);
    assert_eq!(eval_str("input.status_code", &vars, &input), serde_json::Value::from(200));
    assert_eq!(eval_str("input.body == \"ok\"", &vars, &input), flag(true));
}

#[test]
fn ternary_and_logical() {
    let vars = table(vec![("x", from_json(&serde_json::Value::from(3.0)))]);
    assert_eq!(eval_str("$x > 2 ? \"big\" : \"small\"", &vars, &NULL), text("big"));
    assert_eq!(eval_str("true && false", &vars, &NULL), flag(false));
    assert_eq!(eval_str("!false", &vars, &NULL), flag(true));
}

#[test]
fn json_functions() {
    let vars = table(vec![("data", from_json(&json(r#"{ "a": 1, "b": [2, 3] }"#)))]);
    assert_eq!(eval_str("jsonEncode($data)", &vars, &NULL), text("{\"a\":1,\"b\":[2,3]}"));
    assert_eq!(eval_str("jsonDecode(\"[1,2,3]\")[1]", &vars, &NULL), serde_json::Value::from(2));
}

#[test]
fn string_functions() {
    let vars = Table::new();
    assert_eq!(eval_str("upper(\"hi\")", &vars, &NULL), text("HI"));
    assert_eq!(eval_str("len(\"hello\")", &vars, &NULL), json("5"));
    assert_eq!(eval_str("replace(\"a-b-c\", \"-\", \":\")", &vars, &NULL), text("a:b:c"));
    assert_eq!(eval_str("split(\"a,b\", \",\")[0]", &vars, &NULL), text("a"));
}

#[test]
fn decodes_and_navigates_nested_json() {
    let vars = Table::new();
    let body = r#"{"daily":{"time":["2026-05-28"],"temperature_2m_max":[29.7]}}"#;
    let mut map = serde_json::Map::new();
    map.insert("body".to_string(), text(body));
    let input = serde_json::Value::Object(map);
    assert_eq!(eval_str("jsonDecode(input.body).daily.temperature_2m_max[0]", &vars, &input), json("29.7"));
    assert_eq!(eval_str("jsonDecode(input.body).daily.temperature_2m_max[0] > 15", &vars, &input), flag(true));
}

#[test]
fn unknown_function_errors() {
    let vars = Table::new();
    assert!(try_eval("bogus(1)", &vars, &NULL).is_err());
}

#[test]
fn logic_does_not_evaluate_what_it_does_not_need() {
    let vars = Table::new();
    assert_eq!(eval_str("false && bogus(1)", &vars, &NULL), flag(false));
    assert_eq!(eval_str("true || bogus(1)", &vars, &NULL), flag(true));
    assert_eq!(eval_str("true ? 1 : bogus(1)", &vars, &NULL), json("1"));
    assert!(try_eval("true && bogus(1)", &vars, &NULL).is_err());
}

#[test]
fn errors_say_what_is_wrong() {
    let vars = Table::new();
    let error = |src: &str| try_eval(src, &vars, &NULL).unwrap_err();
    assert_eq!(error("bogus(1)"), "unknown function 'bogus'");
    assert_eq!(error("nope"), "unknown identifier 'nope' (use $name for variables)");
    assert_eq!(error("deviceOn()"), "deviceOn: expected a device name");
    assert_eq!(error("1 2"), "unexpected trailing input near Number(2.0)");
    assert!(error("\"open").contains("string"));
}

#[test]
fn texts_outside_ascii_change_case() {
    let vars = Table::new();
    assert_eq!(eval_str("upper(\"stra\u{df}e\")", &vars, &NULL), text("STRASSE"));
    assert_eq!(eval_str("lower(\"\u{c4}B\")", &vars, &NULL), text("\u{e4}b"));
    assert_eq!(eval_str("capitalize(\"\u{df}a\")", &vars, &NULL), text("SSa"));
    assert_eq!(eval_str("len(\"\u{e4}\u{1f600}\")", &vars, &NULL), json("2"));
}

#[test]
fn numbers_come_back_whole_where_they_are() {
    let vars = Table::new();
    assert_eq!(eval_str("7 / 2", &vars, &NULL), json("3.5"));
    assert_eq!(eval_str("8 / 2", &vars, &NULL), json("4"));
    assert_eq!(eval_str("1 / 0", &vars, &NULL), NULL);
    assert_eq!(eval_str("-7 % 3", &vars, &NULL), json("-1"));
    assert_eq!(eval_str("\"2\" == 2", &vars, &NULL), flag(true));
    assert_eq!(eval_str("\"10\" < \"9\"", &vars, &NULL), flag(true));
    assert_eq!(eval_str("10 < \"9\"", &vars, &NULL), flag(false));
    assert_eq!(eval_str("\"x\" + 1.5", &vars, &NULL), text("x1.5"));
    assert_eq!(eval_str("$missing", &vars, &NULL), NULL);
}

#[test]
fn encodings() {
    let vars = Table::new();
    assert_eq!(eval_str("urlEncode(\"a b&\u{e4}\")", &vars, &NULL), text("a%20b%26%C3%A4"));
    assert_eq!(eval_str("base64Encode(\"hello\")", &vars, &NULL), text("aGVsbG8="));
    assert_eq!(eval_str("random() >= 0 && random() < 1", &vars, &NULL), flag(true));
}
