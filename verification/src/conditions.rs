//! Conditions: requests that are made again and again, and what their answers
//! say of a device.

use vstd::prelude::*;
use vstd::string::*;
use vstd::utf8::*;

use crate::actions::ConditionAction;
use crate::dup::Dup;
use crate::lists;
use crate::lists::{has_text, list_out, Listed};
use crate::merge;
use crate::merge::{clear_if, given_or, relabel, trim_or, upper_or};
use crate::schedules::{ensure_device_exists, ScheduleConfig, ScheduleConfigModel};
use crate::table;
use crate::table::Table;
use crate::text;
use crate::text::{around, contains, decimal_text, join, parse_unsigned, same, split_char, split_once, starts_with, trim};
use crate::time;
use crate::time::{optional_label, stamped_id};
use crate::unicode;
use crate::unicode::to_uppercase;

verus! {

/// The shortest time between two probes.
pub const MIN_CONDITION_POLL_SECONDS: u64 = 5;

/// The longest time between two probes.
pub const MAX_CONDITION_POLL_SECONDS: u64 = 3_600;

/// The time between two probes where none is given.
pub const DEFAULT_CONDITION_POLL_SECONDS: u64 = 60;

/// How much of an answer's body is kept.
pub const MAX_CONDITION_BODY_BYTES: usize = 262_144;

/// A request to make again and again, and what came of it.
pub struct ConditionConfig {
    pub id: String,
    pub name: String,
    pub device_name: String,
    pub url: String,
    pub method: String,
    pub headers: Table<String>,
    pub body: Option<String>,
    pub status_match: String,
    pub body_contains: Option<String>,
    pub poll_seconds: u64,
    pub enabled: bool,
    pub action_on_pass: Option<ConditionAction>,
    pub action_on_fail: Option<ConditionAction>,
    pub created_at_ms: u128,
    pub last_checked_at_ms: Option<u128>,
    pub last_passing: Option<bool>,
    pub last_status_code: Option<u16>,
    pub last_error: Option<String>,
    pub last_action_at_ms: Option<u128>,
    pub last_action: Option<ConditionAction>,
    pub last_action_error: Option<String>,
    /// New probe results must stay the same for this many seconds before they
    /// become `last_passing`; 0 follows every change at once.
    pub min_stable_seconds: u64,
    /// The latest result, where it differs from `last_passing` and waits to
    /// become it.
    pub pending_value: Option<bool>,
    /// When `pending_value` was first seen.
    pub pending_since_ms: Option<u128>,
}

/// The contents of `ConditionConfig`.
#[verifier::ext_equal]
pub struct ConditionConfigModel {
    pub id: Seq<char>,
    pub name: Seq<char>,
    pub device_name: Seq<char>,
    pub url: Seq<char>,
    pub method: Seq<char>,
    pub headers: Seq<(Seq<char>, Seq<char>)>,
    pub body: Option<Seq<char>>,
    pub status_match: Seq<char>,
    pub body_contains: Option<Seq<char>>,
    pub poll_seconds: u64,
    pub enabled: bool,
    pub action_on_pass: Option<ConditionAction>,
    pub action_on_fail: Option<ConditionAction>,
    pub created_at_ms: u128,
    pub last_checked_at_ms: Option<u128>,
    pub last_passing: Option<bool>,
    pub last_status_code: Option<u16>,
    pub last_error: Option<Seq<char>>,
    pub last_action_at_ms: Option<u128>,
    pub last_action: Option<ConditionAction>,
    pub last_action_error: Option<Seq<char>>,
    pub min_stable_seconds: u64,
    pub pending_value: Option<bool>,
    pub pending_since_ms: Option<u128>,
}

impl DeepView for ConditionConfig {
    type V = ConditionConfigModel;

    open spec fn deep_view(&self) -> ConditionConfigModel {
        ConditionConfigModel {
            id: self.id.deep_view(),
            name: self.name.deep_view(),
            device_name: self.device_name.deep_view(),
            url: self.url.deep_view(),
            method: self.method.deep_view(),
            headers: self.headers.deep_view(),
            body: self.body.deep_view(),
            status_match: self.status_match.deep_view(),
            body_contains: self.body_contains.deep_view(),
            poll_seconds: self.poll_seconds.deep_view(),
            enabled: self.enabled.deep_view(),
            action_on_pass: self.action_on_pass.deep_view(),
            action_on_fail: self.action_on_fail.deep_view(),
            created_at_ms: self.created_at_ms.deep_view(),
            last_checked_at_ms: self.last_checked_at_ms.deep_view(),
            last_passing: self.last_passing.deep_view(),
            last_status_code: self.last_status_code.deep_view(),
            last_error: self.last_error.deep_view(),
            last_action_at_ms: self.last_action_at_ms.deep_view(),
            last_action: self.last_action.deep_view(),
            last_action_error: self.last_action_error.deep_view(),
            min_stable_seconds: self.min_stable_seconds.deep_view(),
            pending_value: self.pending_value.deep_view(),
            pending_since_ms: self.pending_since_ms.deep_view(),
        }
    }
}

impl Dup for ConditionConfig {
    fn dup(&self) -> (r: Self) {
        ConditionConfig {
            id: self.id.dup(),
            name: self.name.dup(),
            device_name: self.device_name.dup(),
            url: self.url.dup(),
            method: self.method.dup(),
            headers: self.headers.dup(),
            body: self.body.dup(),
            status_match: self.status_match.dup(),
            body_contains: self.body_contains.dup(),
            poll_seconds: self.poll_seconds.dup(),
            enabled: self.enabled.dup(),
            action_on_pass: self.action_on_pass.dup(),
            action_on_fail: self.action_on_fail.dup(),
            created_at_ms: self.created_at_ms.dup(),
            last_checked_at_ms: self.last_checked_at_ms.dup(),
            last_passing: self.last_passing.dup(),
            last_status_code: self.last_status_code.dup(),
            last_error: self.last_error.dup(),
            last_action_at_ms: self.last_action_at_ms.dup(),
            last_action: self.last_action.dup(),
            last_action_error: self.last_action_error.dup(),
            min_stable_seconds: self.min_stable_seconds.dup(),
            pending_value: self.pending_value.dup(),
            pending_since_ms: self.pending_since_ms.dup(),
        }
    }
}

/// What a new condition is made from.
pub struct CreateConditionRequest {
    pub name: String,
    pub device_name: String,
    pub url: String,
    pub method: String,
    pub headers: Table<String>,
    pub body: Option<String>,
    pub status_match: String,
    pub body_contains: Option<String>,
    pub poll_seconds: u64,
    pub enabled: bool,
    pub action_on_pass: Option<ConditionAction>,
    pub action_on_fail: Option<ConditionAction>,
    pub min_stable_seconds: u64,
}

/// The contents of `CreateConditionRequest`.
#[verifier::ext_equal]
pub struct CreateConditionRequestModel {
    pub name: Seq<char>,
    pub device_name: Seq<char>,
    pub url: Seq<char>,
    pub method: Seq<char>,
    pub headers: Seq<(Seq<char>, Seq<char>)>,
    pub body: Option<Seq<char>>,
    pub status_match: Seq<char>,
    pub body_contains: Option<Seq<char>>,
    pub poll_seconds: u64,
    pub enabled: bool,
    pub action_on_pass: Option<ConditionAction>,
    pub action_on_fail: Option<ConditionAction>,
    pub min_stable_seconds: u64,
}

impl DeepView for CreateConditionRequest {
    type V = CreateConditionRequestModel;

    open spec fn deep_view(&self) -> CreateConditionRequestModel {
        CreateConditionRequestModel {
            name: self.name.deep_view(),
            device_name: self.device_name.deep_view(),
            url: self.url.deep_view(),
            method: self.method.deep_view(),
            headers: self.headers.deep_view(),
            body: self.body.deep_view(),
            status_match: self.status_match.deep_view(),
            body_contains: self.body_contains.deep_view(),
            poll_seconds: self.poll_seconds.deep_view(),
            enabled: self.enabled.deep_view(),
            action_on_pass: self.action_on_pass.deep_view(),
            action_on_fail: self.action_on_fail.deep_view(),
            min_stable_seconds: self.min_stable_seconds.deep_view(),
        }
    }
}

impl Dup for CreateConditionRequest {
    fn dup(&self) -> (r: Self) {
        CreateConditionRequest {
            name: self.name.dup(),
            device_name: self.device_name.dup(),
            url: self.url.dup(),
            method: self.method.dup(),
            headers: self.headers.dup(),
            body: self.body.dup(),
            status_match: self.status_match.dup(),
            body_contains: self.body_contains.dup(),
            poll_seconds: self.poll_seconds.dup(),
            enabled: self.enabled.dup(),
            action_on_pass: self.action_on_pass.dup(),
            action_on_fail: self.action_on_fail.dup(),
            min_stable_seconds: self.min_stable_seconds.dup(),
        }
    }
}

/// What is to change in a condition; what is `None` stays.
pub struct UpdateConditionRequest {
    pub name: Option<String>,
    pub device_name: Option<String>,
    pub url: Option<String>,
    pub method: Option<String>,
    pub headers: Option<Table<String>>,
    pub body: Option<Option<String>>,
    pub status_match: Option<String>,
    pub body_contains: Option<Option<String>>,
    pub poll_seconds: Option<u64>,
    pub enabled: Option<bool>,
    pub action_on_pass: Option<Option<ConditionAction>>,
    pub action_on_fail: Option<Option<ConditionAction>>,
    pub min_stable_seconds: Option<u64>,
}

/// The contents of `UpdateConditionRequest`.
#[verifier::ext_equal]
pub struct UpdateConditionRequestModel {
    pub name: Option<Seq<char>>,
    pub device_name: Option<Seq<char>>,
    pub url: Option<Seq<char>>,
    pub method: Option<Seq<char>>,
    pub headers: Option<Seq<(Seq<char>, Seq<char>)>>,
    pub body: Option<Option<Seq<char>>>,
    pub status_match: Option<Seq<char>>,
    pub body_contains: Option<Option<Seq<char>>>,
    pub poll_seconds: Option<u64>,
    pub enabled: Option<bool>,
    pub action_on_pass: Option<Option<ConditionAction>>,
    pub action_on_fail: Option<Option<ConditionAction>>,
    pub min_stable_seconds: Option<u64>,
}

impl DeepView for UpdateConditionRequest {
    type V = UpdateConditionRequestModel;

    open spec fn deep_view(&self) -> UpdateConditionRequestModel {
        UpdateConditionRequestModel {
            name: self.name.deep_view(),
            device_name: self.device_name.deep_view(),
            url: self.url.deep_view(),
            method: self.method.deep_view(),
            headers: self.headers.deep_view(),
            body: self.body.deep_view(),
            status_match: self.status_match.deep_view(),
            body_contains: self.body_contains.deep_view(),
            poll_seconds: self.poll_seconds.deep_view(),
            enabled: self.enabled.deep_view(),
            action_on_pass: self.action_on_pass.deep_view(),
            action_on_fail: self.action_on_fail.deep_view(),
            min_stable_seconds: self.min_stable_seconds.deep_view(),
        }
    }
}

impl Dup for UpdateConditionRequest {
    fn dup(&self) -> (r: Self) {
        UpdateConditionRequest {
            name: self.name.dup(),
            device_name: self.device_name.dup(),
            url: self.url.dup(),
            method: self.method.dup(),
            headers: self.headers.dup(),
            body: self.body.dup(),
            status_match: self.status_match.dup(),
            body_contains: self.body_contains.dup(),
            poll_seconds: self.poll_seconds.dup(),
            enabled: self.enabled.dup(),
            action_on_pass: self.action_on_pass.dup(),
            action_on_fail: self.action_on_fail.dup(),
            min_stable_seconds: self.min_stable_seconds.dup(),
        }
    }
}

/// A condition as callers see it.
pub struct ConditionView {
    pub id: String,
    pub name: String,
    pub device_name: String,
    pub url: String,
    pub method: String,
    pub headers: Table<String>,
    pub body: Option<String>,
    pub status_match: String,
    pub body_contains: Option<String>,
    pub poll_seconds: u64,
    pub enabled: bool,
    pub action_on_pass: Option<ConditionAction>,
    pub action_on_fail: Option<ConditionAction>,
    pub created_at_ms: u128,
    pub last_checked_at_ms: Option<u128>,
    pub last_passing: Option<bool>,
    pub last_status_code: Option<u16>,
    pub last_error: Option<String>,
    pub last_action_at_ms: Option<u128>,
    pub last_action: Option<ConditionAction>,
    pub last_action_error: Option<String>,
    pub min_stable_seconds: u64,
    pub pending_value: Option<bool>,
    pub pending_since_ms: Option<u128>,
}

/// The contents of `ConditionView`.
#[verifier::ext_equal]
pub struct ConditionViewModel {
    pub id: Seq<char>,
    pub name: Seq<char>,
    pub device_name: Seq<char>,
    pub url: Seq<char>,
    pub method: Seq<char>,
    pub headers: Seq<(Seq<char>, Seq<char>)>,
    pub body: Option<Seq<char>>,
    pub status_match: Seq<char>,
    pub body_contains: Option<Seq<char>>,
    pub poll_seconds: u64,
    pub enabled: bool,
    pub action_on_pass: Option<ConditionAction>,
    pub action_on_fail: Option<ConditionAction>,
    pub created_at_ms: u128,
    pub last_checked_at_ms: Option<u128>,
    pub last_passing: Option<bool>,
    pub last_status_code: Option<u16>,
    pub last_error: Option<Seq<char>>,
    pub last_action_at_ms: Option<u128>,
    pub last_action: Option<ConditionAction>,
    pub last_action_error: Option<Seq<char>>,
    pub min_stable_seconds: u64,
    pub pending_value: Option<bool>,
    pub pending_since_ms: Option<u128>,
}

impl DeepView for ConditionView {
    type V = ConditionViewModel;

    open spec fn deep_view(&self) -> ConditionViewModel {
        ConditionViewModel {
            id: self.id.deep_view(),
            name: self.name.deep_view(),
            device_name: self.device_name.deep_view(),
            url: self.url.deep_view(),
            method: self.method.deep_view(),
            headers: self.headers.deep_view(),
            body: self.body.deep_view(),
            status_match: self.status_match.deep_view(),
            body_contains: self.body_contains.deep_view(),
            poll_seconds: self.poll_seconds.deep_view(),
            enabled: self.enabled.deep_view(),
            action_on_pass: self.action_on_pass.deep_view(),
            action_on_fail: self.action_on_fail.deep_view(),
            created_at_ms: self.created_at_ms.deep_view(),
            last_checked_at_ms: self.last_checked_at_ms.deep_view(),
            last_passing: self.last_passing.deep_view(),
            last_status_code: self.last_status_code.deep_view(),
            last_error: self.last_error.deep_view(),
            last_action_at_ms: self.last_action_at_ms.deep_view(),
            last_action: self.last_action.deep_view(),
            last_action_error: self.last_action_error.deep_view(),
            min_stable_seconds: self.min_stable_seconds.deep_view(),
            pending_value: self.pending_value.deep_view(),
            pending_since_ms: self.pending_since_ms.deep_view(),
        }
    }
}

impl Dup for ConditionView {
    fn dup(&self) -> (r: Self) {
        ConditionView {
            id: self.id.dup(),
            name: self.name.dup(),
            device_name: self.device_name.dup(),
            url: self.url.dup(),
            method: self.method.dup(),
            headers: self.headers.dup(),
            body: self.body.dup(),
            status_match: self.status_match.dup(),
            body_contains: self.body_contains.dup(),
            poll_seconds: self.poll_seconds.dup(),
            enabled: self.enabled.dup(),
            action_on_pass: self.action_on_pass.dup(),
            action_on_fail: self.action_on_fail.dup(),
            created_at_ms: self.created_at_ms.dup(),
            last_checked_at_ms: self.last_checked_at_ms.dup(),
            last_passing: self.last_passing.dup(),
            last_status_code: self.last_status_code.dup(),
            last_error: self.last_error.dup(),
            last_action_at_ms: self.last_action_at_ms.dup(),
            last_action: self.last_action.dup(),
            last_action_error: self.last_action_error.dup(),
            min_stable_seconds: self.min_stable_seconds.dup(),
            pending_value: self.pending_value.dup(),
            pending_since_ms: self.pending_since_ms.dup(),
        }
    }
}

/// What came of one probe.
pub struct ProbeOutcome {
    pub passing: bool,
    pub status_code: Option<u16>,
    pub body: Option<String>,
    pub error: Option<String>,
}

/// The contents of `ProbeOutcome`.
#[verifier::ext_equal]
pub struct ProbeOutcomeModel {
    pub passing: bool,
    pub status_code: Option<u16>,
    pub body: Option<Seq<char>>,
    pub error: Option<Seq<char>>,
}

impl DeepView for ProbeOutcome {
    type V = ProbeOutcomeModel;

    open spec fn deep_view(&self) -> ProbeOutcomeModel {
        ProbeOutcomeModel {
            passing: self.passing.deep_view(),
            status_code: self.status_code.deep_view(),
            body: self.body.deep_view(),
            error: self.error.deep_view(),
        }
    }
}

impl Dup for ProbeOutcome {
    fn dup(&self) -> (r: Self) {
        ProbeOutcome {
            passing: self.passing.dup(),
            status_code: self.status_code.dup(),
            body: self.body.dup(),
            error: self.error.dup(),
        }
    }
}

/// Status codes from `start` to `end`, both included.
#[derive(Debug, Clone, Copy, PartialEq, Eq, Structural)]
pub struct StatusRange {
    pub start: u16,
    pub end: u16,
}

impl DeepView for StatusRange {
    type V = StatusRange;

    open spec fn deep_view(&self) -> StatusRange {
        *self
    }
}

impl Dup for StatusRange {
    fn dup(&self) -> (r: Self) {
        *self
    }
}

/// A condition as callers see it: field by field what it is.
pub open spec fn view_of(c: ConditionConfigModel) -> ConditionViewModel {
    ConditionViewModel {
        id: c.id,
        name: c.name,
        device_name: c.device_name,
        url: c.url,
        method: c.method,
        headers: c.headers,
        body: c.body,
        status_match: c.status_match,
        body_contains: c.body_contains,
        poll_seconds: c.poll_seconds,
        enabled: c.enabled,
        action_on_pass: c.action_on_pass,
        action_on_fail: c.action_on_fail,
        created_at_ms: c.created_at_ms,
        last_checked_at_ms: c.last_checked_at_ms,
        last_passing: c.last_passing,
        last_status_code: c.last_status_code,
        last_error: c.last_error,
        last_action_at_ms: c.last_action_at_ms,
        last_action: c.last_action,
        last_action_error: c.last_action_error,
        min_stable_seconds: c.min_stable_seconds,
        pending_value: c.pending_value,
        pending_since_ms: c.pending_since_ms,
    }
}

/// A condition as callers see it.
pub fn condition_view(condition: &ConditionConfig) -> (v: ConditionView)
    ensures
        v.deep_view() == view_of(condition.deep_view()),
{
    ConditionView {
        id: condition.id.dup(),
        name: condition.name.dup(),
        device_name: condition.device_name.dup(),
        url: condition.url.dup(),
        method: condition.method.dup(),
        headers: condition.headers.dup(),
        body: condition.body.dup(),
        status_match: condition.status_match.dup(),
        body_contains: condition.body_contains.dup(),
        poll_seconds: condition.poll_seconds.dup(),
        enabled: condition.enabled.dup(),
        action_on_pass: condition.action_on_pass.dup(),
        action_on_fail: condition.action_on_fail.dup(),
        created_at_ms: condition.created_at_ms.dup(),
        last_checked_at_ms: condition.last_checked_at_ms.dup(),
        last_passing: condition.last_passing.dup(),
        last_status_code: condition.last_status_code.dup(),
        last_error: condition.last_error.dup(),
        last_action_at_ms: condition.last_action_at_ms.dup(),
        last_action: condition.last_action.dup(),
        last_action_error: condition.last_action_error.dup(),
        min_stable_seconds: condition.min_stable_seconds.dup(),
        pending_value: condition.pending_value.dup(),
        pending_since_ms: condition.pending_since_ms.dup(),
    }
}

impl Listed for ConditionView {
    open spec fn listed_name(m: ConditionViewModel) -> Seq<char> {
        m.name
    }

    open spec fn listed_stamp(m: ConditionViewModel) -> u128 {
        m.created_at_ms
    }

    fn name_of(&self) -> (s: &str) {
        self.name.as_str()
    }

    fn stamp_of(&self) -> (n: u128) {
        self.created_at_ms
    }
}

/// The values of a table, each as callers see it.
pub open spec fn views_of(t: Seq<(Seq<char>, ConditionConfigModel)>) -> Seq<ConditionViewModel> {
    t.map_values(|e: (Seq<char>, ConditionConfigModel)| view_of(e.1))
}

/// All conditions as callers see them, by name and then by age.
pub fn list_conditions(conditions: &Table<ConditionConfig>) -> (r: Vec<ConditionView>)
    ensures
        r.deep_view() == lists::listing::<ConditionView>(views_of(conditions.deep_view())),
{
    let mut views: Vec<ConditionView> = Vec::new();
    let mut i: usize = 0;
    while i < conditions.entries.len()
        invariant
            i <= conditions.entries@.len(),
            views@.len() == i,
            forall|j: int|
                0 <= j < i ==> (#[trigger] views@[j]).deep_view() == view_of(conditions.entries@[j].1.deep_view()),
        decreases conditions.entries@.len() - i,
    {
        views.push(condition_view(&conditions.entries[i].1));
        i = i + 1;
    }
    proof {
        assert(views.deep_view() =~= views_of(conditions.deep_view()));
    }
    list_out(views)
}

/// The method of a request where none is given.
pub fn default_http_method() -> (s: String)
    ensures
        s@ == "GET"@,
{
    "GET".to_owned()
}

/// The status codes that pass where none are given.
pub fn default_status_match() -> (s: String)
    ensures
        s@ == "200-299"@,
{
    "200-299".to_owned()
}

/// The time between two probes where none is given.
pub fn default_condition_poll_seconds() -> (n: u64)
    ensures
        n == 60,
{
    DEFAULT_CONDITION_POLL_SECONDS
}

/// An id for a condition made at `now_ms`, told apart by a count.
pub fn new_condition_id(now_ms: u128, seq: u64) -> (id: String)
    ensures
        id@ == time::stamped("c"@, now_ms, seq),
{
    stamped_id("c", now_ms, seq)
}

// ---------- Checks of what a request holds ----------

/// A byte that may stand in an HTTP method.
pub open spec fn is_token_byte(b: u8) -> bool {
    ||| 48 <= b <= 57
    ||| 65 <= b <= 90
    ||| 97 <= b <= 122
    ||| b == 33
    ||| 35 <= b <= 39
    ||| b == 42
    ||| b == 43
    ||| b == 45
    ||| b == 46
    ||| 94 <= b <= 96
    ||| b == 124
    ||| b == 126
}

/// The bytes make an HTTP method: at least one, all of them token characters.
pub open spec fn is_method(bytes: Seq<u8>) -> bool {
    bytes.len() > 0 && forall|i: int| 0 <= i < bytes.len() ==> is_token_byte(#[trigger] bytes[i])
}

/// `reqwest::Method::from_bytes`: takes the bytes if there is at least one and
/// all are token characters (digits, letters and ``!#$%&'*+-.^_`|~``), and
/// otherwise fails with the one message "invalid HTTP method".
#[verifier::external_body]
fn method_from_bytes(bytes: &[u8]) -> (r: Result<(), String>)
    ensures
        r is Ok <==> is_method(bytes@),
        r matches Err(m) ==> m@ == "invalid HTTP method"@,
{
    reqwest::Method::from_bytes(bytes).map(|_| ()).map_err(|error| error.to_string())
}

/// The method, in upper case, is one that a request can be made with.
pub open spec fn method_usable(method: Seq<char>) -> bool {
    is_method(encode_utf8(unicode::uppercase(method)))
}

/// Why the method cannot be used; `None` if it can.
pub fn method_fault(method: &str) -> (r: Option<String>)
    ensures
        r is None <==> method_usable(method@),
        r matches Some(m) ==> m@ == "invalid HTTP method"@,
{
    match method_from_bytes(to_uppercase(method).as_str().as_bytes()) {
        Ok(_) => None,
        Err(m) => Some(m),
    }
}

/// Fails where the method, without outer white space and in upper case, is none.
pub open spec fn method_check(method: Seq<char>) -> Result<(), Seq<char>> {
    if method_usable(text::trimmed(method)) {
        Ok(())
    } else {
        Err("invalid HTTP method '"@ + method + "': "@ + "invalid HTTP method"@)
    }
}

/// Fails where the method, without outer white space and in upper case, is none.
pub fn validate_http_method(method: &str) -> (r: Result<(), String>)
    ensures
        match r {
            Ok(_) => method_check(method@) is Ok,
            Err(m) => method_check(method@) == Err::<(), Seq<char>>(m@),
        },
{
    match method_fault(trim(method).as_str()) {
        None => Ok(()),
        Some(fault) => {
            let mut m = around("invalid HTTP method '", method, "': ");
            m.append(fault.as_str());
            Err(m)
        },
    }
}

/// Fails where the URL, without outer white space, has no scheme of the web.
pub open spec fn url_check(url: Seq<char>) -> Result<(), Seq<char>> {
    let t = text::trimmed(url);
    if text::begins(t, "http://"@) || text::begins(t, "https://"@) {
        Ok(())
    } else {
        Err("URL must start with http:// or https://"@)
    }
}

/// Fails where the URL, without outer white space, has no scheme of the web.
pub fn validate_url(url: &str) -> (r: Result<(), String>)
    ensures
        match r {
            Ok(_) => url_check(url@) is Ok,
            Err(m) => url_check(url@) == Err::<(), Seq<char>>(m@),
        },
{
    let t = trim(url);
    if !starts_with(t.as_str(), "http://") && !starts_with(t.as_str(), "https://") {
        return Err("URL must start with http:// or https://".to_owned());
    }
    Ok(())
}

/// The time between two probes, if it is one that is allowed.
pub open spec fn poll_check(value: u64) -> Result<u64, Seq<char>> {
    if 5 <= value <= 3600 {
        Ok(value)
    } else {
        Err("poll_seconds must be between 5 and 3600 (got "@ + text::decimal(value as nat) + ")"@)
    }
}

/// The time between two probes, if it is one that is allowed.
pub fn clamp_poll_seconds(value: u64) -> (r: Result<u64, String>)
    ensures
        match r {
            Ok(n) => poll_check(value) == Ok::<u64, Seq<char>>(n),
            Err(m) => poll_check(value) == Err::<u64, Seq<char>>(m@),
        },
{
    if value < MIN_CONDITION_POLL_SECONDS || value > MAX_CONDITION_POLL_SECONDS {
        return Err(
            around(
                "poll_seconds must be between 5 and 3600 (got ",
                decimal_text(value as u128).as_str(),
                ")",
            ),
        );
    }
    Ok(value)
}

/// The message for a code that is no number in range.
pub open spec fn bad_code(code: Seq<char>, whole: Seq<char>) -> Seq<char> {
    "invalid status code '"@ + code + "' in '"@ + whole + "'"@
}

fn bad_code_text(code: &str, whole: &str) -> (m: String)
    ensures
        m@ == bad_code(code@, whole@),
{
    let mut m = around("invalid status code '", code, "' in '");
    m.append(whole);
    m.append("'");
    m
}

/// The codes that one part of an expression names: "200" or "200-299".
pub open spec fn range_of(part: Seq<char>, whole: Seq<char>) -> Result<StatusRange, Seq<char>> {
    match text::parted(part, '-') {
        Some((a, b)) => match (
            text::unsigned(text::trimmed(a), u16::MAX as nat),
            text::unsigned(text::trimmed(b), u16::MAX as nat),
        ) {
            (None, _) => Err(bad_code(a, whole)),
            (Some(_), None) => Err(bad_code(b, whole)),
            (Some(start), Some(end)) => if start > end {
                Err("status range '"@ + text::decimal(start) + "-"@ + text::decimal(end) + "' is reversed"@)
            } else {
                Ok(StatusRange { start: start as u16, end: end as u16 })
            },
        },
        None => match text::unsigned(part, u16::MAX as nat) {
            None => Err(bad_code(part, whole)),
            Some(code) => Ok(StatusRange { start: code as u16, end: code as u16 }),
        },
    }
}

fn parse_range(part: &str, whole: &str) -> (r: Result<StatusRange, String>)
    ensures
        match r {
            Ok(range) => range_of(part@, whole@) == Ok::<StatusRange, Seq<char>>(range),
            Err(m) => range_of(part@, whole@) == Err::<StatusRange, Seq<char>>(m@),
        },
{
    match split_once(part, '-') {
        Some((a, b)) => {
            let start: u64 = match parse_unsigned(trim(a.as_str()).as_str(), u16::MAX as u64) {
                Some(n) => n,
                None => {
                    return Err(bad_code_text(a.as_str(), whole));
                },
            };
            let end: u64 = match parse_unsigned(trim(b.as_str()).as_str(), u16::MAX as u64) {
                Some(n) => n,
                None => {
                    return Err(bad_code_text(b.as_str(), whole));
                },
            };
            if start > end {
                let mut m = around("status range '", decimal_text(start as u128).as_str(), "-");
                m.append(decimal_text(end as u128).as_str());
                m.append("' is reversed");
                return Err(m);
            }
            Ok(StatusRange { start: start as u16, end: end as u16 })
        },
        None => match parse_unsigned(part, u16::MAX as u64) {
            Some(code) => Ok(StatusRange { start: code as u16, end: code as u16 }),
            None => Err(bad_code_text(part, whole)),
        },
    }
}

/// The codes that the parts from `i` on name, behind those in `found`. An empty
/// part names none.
pub open spec fn ranges_from(
    parts: Seq<Seq<char>>,
    whole: Seq<char>,
    i: int,
    found: Seq<StatusRange>,
) -> Result<Seq<StatusRange>, Seq<char>>
    decreases parts.len() - i,
{
    if i < 0 || i >= parts.len() {
        Ok(found)
    } else if text::trimmed(parts[i]).len() == 0 {
        ranges_from(parts, whole, i + 1, found)
    } else {
        match range_of(text::trimmed(parts[i]), whole) {
            Ok(range) => ranges_from(parts, whole, i + 1, found.push(range)),
            Err(m) => Err(m),
        }
    }
}

/// The codes that an expression such as "200,204-206" names.
pub open spec fn status_ranges(expression: Seq<char>) -> Result<Seq<StatusRange>, Seq<char>> {
    let t = text::trimmed(expression);
    if t.len() == 0 {
        Err("status_match cannot be empty"@)
    } else {
        match ranges_from(text::pieces(t, ','), expression, 0, Seq::empty()) {
            Ok(found) => if found.len() == 0 {
                Err("status_match must contain at least one code"@)
            } else {
                Ok(found)
            },
            Err(m) => Err(m),
        }
    }
}

/// Reads an expression such as "200,204-206".
pub fn parse_status_match(expression: &str) -> (r: Result<Vec<StatusRange>, String>)
    ensures
        match r {
            Ok(ranges) => status_ranges(expression@) == Ok::<Seq<StatusRange>, Seq<char>>(ranges@),
            Err(m) => status_ranges(expression@) == Err::<Seq<StatusRange>, Seq<char>>(m@),
        },
{
    let t = trim(expression);
    if t.as_str().is_empty() {
        return Err("status_match cannot be empty".to_owned());
    }
    let parts = split_char(t.as_str(), ',');
    let ghost all = parts.deep_view();
    let mut ranges: Vec<StatusRange> = Vec::new();
    let mut i: usize = 0;
    while i < parts.len()
        invariant
            i <= parts@.len(),
            all == parts.deep_view(),
            ranges_from(all, expression@, 0, Seq::empty()) == ranges_from(all, expression@, i as int, ranges@),
            t@ == text::trimmed(expression@),
            t@.len() > 0,
            all == text::pieces(t@, ','),
        decreases parts@.len() - i,
    {
        let part = trim(parts[i].as_str());
        proof {
            assert(all[i as int] == parts@[i as int]@);
        }
        if !part.as_str().is_empty() {
            match parse_range(part.as_str(), expression) {
                Ok(range) => {
                    ranges.push(range);
                },
                Err(m) => {
                    return Err(m);
                },
            }
        }
        i = i + 1;
    }
    if ranges.len() == 0 {
        return Err("status_match must contain at least one code".to_owned());
    }
    Ok(ranges)
}

/// Some range holds the code.
pub open spec fn code_in(ranges: Seq<StatusRange>, code: u16) -> bool {
    exists|i: int| 0 <= i < ranges.len() && (#[trigger] ranges[i]).start <= code <= ranges[i].end
}

/// Whether some range holds the code.
pub fn status_matches(ranges: &Vec<StatusRange>, code: u16) -> (b: bool)
    ensures
        b == code_in(ranges@, code),
{
    let mut i: usize = 0;
    while i < ranges.len()
        invariant
            i <= ranges@.len(),
            forall|j: int| 0 <= j < i ==> !((#[trigger] ranges@[j]).start <= code <= ranges@[j].end),
        decreases ranges@.len() - i,
    {
        if ranges[i].start <= code && code <= ranges[i].end {
            return true;
        }
        i = i + 1;
    }
    false
}

/// Every range that is read runs upward, so each names at least one code, and
/// an expression that is read names at least one.
pub proof fn ranges_run_upward(expression: Seq<char>)
    ensures
        status_ranges(expression) matches Ok(ranges) ==> ranges.len() > 0 && (forall|i: int|
            0 <= i < ranges.len() ==> (#[trigger] ranges[i]).start <= ranges[i].end),
{
    if text::trimmed(expression).len() > 0 {
        ranges_from_run_upward(text::pieces(text::trimmed(expression), ','), expression, 0, Seq::empty());
    }
}

proof fn ranges_from_run_upward(parts: Seq<Seq<char>>, whole: Seq<char>, i: int, found: Seq<StatusRange>)
    requires
        forall|j: int| 0 <= j < found.len() ==> (#[trigger] found[j]).start <= found[j].end,
    ensures
        ranges_from(parts, whole, i, found) matches Ok(ranges) ==> forall|j: int|
            0 <= j < ranges.len() ==> (#[trigger] ranges[j]).start <= ranges[j].end,
    decreases parts.len() - i,
{
    if 0 <= i < parts.len() {
        if text::trimmed(parts[i]).len() == 0 {
            ranges_from_run_upward(parts, whole, i + 1, found);
        } else if let Ok(range) = range_of(text::trimmed(parts[i]), whole) {
            ranges_from_run_upward(parts, whole, i + 1, found.push(range));
        }
    }
}

// ---------- One probe ----------

/// An outcome without an answer.
pub open spec fn failed(error: Seq<char>) -> ProbeOutcomeModel {
    ProbeOutcomeModel { passing: false, status_code: None, body: None, error: Some(error) }
}

/// An outcome without an answer.
pub fn failed_probe(error: String) -> (r: ProbeOutcome)
    ensures
        r.deep_view() == failed(error@),
{
    ProbeOutcome { passing: false, status_code: None, body: None, error: Some(error) }
}

/// An answer whose body could not be read.
pub open spec fn unread(status: u16, error: Seq<char>) -> ProbeOutcomeModel {
    ProbeOutcomeModel {
        passing: false,
        status_code: Some(status),
        body: None,
        error: Some("response read failed: "@ + error),
    }
}

/// An answer whose body could not be read.
pub fn unread_probe(status: u16, error: &str) -> (r: ProbeOutcome)
    ensures
        r.deep_view() == unread(status, error@),
{
    let mut m = "response read failed: ".to_owned();
    m.append(error);
    ProbeOutcome { passing: false, status_code: Some(status), body: None, error: Some(m) }
}

/// What comes of a probe that cannot be made; `None` if it can.
pub open spec fn refused(c: ConditionConfigModel) -> Option<ProbeOutcomeModel> {
    if !method_usable(c.method) {
        Some(failed("invalid HTTP method: "@ + "invalid HTTP method"@))
    } else {
        match status_ranges(c.status_match) {
            Ok(_) => None,
            Err(m) => Some(failed("invalid status_match: "@ + m)),
        }
    }
}

/// What comes of a probe that cannot be made; `None` if the request is to be
/// sent.
pub fn probe_refusal(condition: &ConditionConfig) -> (r: Option<ProbeOutcome>)
    ensures
        r.deep_view() == refused(condition.deep_view()),
{
    if let Some(fault) = method_fault(condition.method.as_str()) {
        let mut m = "invalid HTTP method: ".to_owned();
        m.append(fault.as_str());
        return Some(failed_probe(m));
    }
    match parse_status_match(condition.status_match.as_str()) {
        Ok(_) => None,
        Err(error) => {
            let mut m = "invalid status_match: ".to_owned();
            m.append(error.as_str());
            Some(failed_probe(m))
        },
    }
}

/// What `String::from_utf8_lossy` makes of bytes.
pub uninterp spec fn std_lossy(bytes: Seq<u8>) -> Seq<char>;

/// `String::from_utf8_lossy`: the text that the bytes encode; where they are no
/// UTF-8, std says what stands for the bytes that do not fit.
#[verifier::external_body]
fn from_utf8_lossy(bytes: &[u8]) -> (s: String)
    ensures
        s@ == std_lossy(bytes@),
        valid_utf8(bytes@) ==> s@ == decode_utf8(bytes@),
{
    String::from_utf8_lossy(bytes).into_owned()
}

/// The text of a body: of its first bytes, up to the limit.
pub open spec fn body_text(bytes: Seq<u8>) -> Seq<char> {
    let kept = if bytes.len() > 262144 {
        bytes.take(262144)
    } else {
        bytes
    };
    if valid_utf8(kept) {
        decode_utf8(kept)
    } else {
        std_lossy(kept)
    }
}

/// The text of an answer's body: of its first bytes, up to the limit.
pub fn read_response_body(bytes: &Vec<u8>) -> (s: String)
    ensures
        s@ == body_text(bytes@),
{
    let keep: usize = if bytes.len() > MAX_CONDITION_BODY_BYTES {
        MAX_CONDITION_BODY_BYTES
    } else {
        bytes.len()
    };
    let kept = vstd::slice::slice_subrange(bytes.as_slice(), 0, keep);
    proof {
        assert(bytes@.subrange(0, keep as int) =~= bytes@.take(keep as int));
        assert(bytes@.take(bytes@.len() as int) =~= bytes@);
    }
    from_utf8_lossy(kept)
}

/// The body has what the condition asks for.
pub open spec fn body_passes(needle: Option<Seq<char>>, body: Seq<char>) -> bool {
    match needle {
        Some(n) => text::holds(body, n),
        None => true,
    }
}

/// What an answer says: it passes if its status is among those named and its
/// body holds the wanted text.
pub open spec fn judged(c: ConditionConfigModel, status: u16, body: Seq<char>) -> ProbeOutcomeModel {
    match status_ranges(c.status_match) {
        Err(m) => failed("invalid status_match: "@ + m),
        Ok(ranges) => {
            let status_ok = code_in(ranges, status);
            let body_ok = body_passes(c.body_contains, body);
            ProbeOutcomeModel {
                passing: status_ok && body_ok,
                status_code: Some(status),
                body: Some(body),
                error: if !status_ok {
                    Some("status "@ + text::decimal(status as nat) + " did not match '"@ + c.status_match + "'"@)
                } else if !body_ok {
                    Some("body did not contain '"@ + c.body_contains->0 + "'"@)
                } else {
                    None
                },
            }
        },
    }
}

/// What an answer says of a condition.
pub fn judge_response(condition: &ConditionConfig, status: u16, body: String) -> (r: ProbeOutcome)
    ensures
        r.deep_view() == judged(condition.deep_view(), status, body@),
{
    let ranges = match parse_status_match(condition.status_match.as_str()) {
        Ok(ranges) => ranges,
        Err(error) => {
            let mut m = "invalid status_match: ".to_owned();
            m.append(error.as_str());
            return failed_probe(m);
        },
    };
    let status_ok = status_matches(&ranges, status);
    let body_ok = match &condition.body_contains {
        Some(needle) => contains(body.as_str(), needle.as_str()),
        None => true,
    };
    let error = if !status_ok {
        let mut m = around("status ", decimal_text(status as u128).as_str(), " did not match '");
        m.append(condition.status_match.as_str());
        m.append("'");
        Some(m)
    } else if !body_ok {
        match &condition.body_contains {
            Some(needle) => Some(around("body did not contain '", needle.as_str(), "'")),
            None => None,
        }
    } else {
        None
    };
    ProbeOutcome { passing: status_ok && body_ok, status_code: Some(status), body: Some(body), error }
}

/// A probe passes exactly if it leaves no error.
pub proof fn passing_leaves_no_error(c: ConditionConfigModel, status: u16, body: Seq<char>)
    ensures
        judged(c, status, body).passing <==> judged(c, status, body).error is None,
{
}

// ---------- Conditions that share a request ----------

/// The text, or nothing where there is none.
pub open spec fn or_empty(s: Option<Seq<char>>) -> Seq<char> {
    match s {
        Some(t) => t,
        None => ""@,
    }
}

/// The header lines of a probe key.
pub open spec fn header_lines(headers: Seq<(Seq<char>, Seq<char>)>) -> Seq<Seq<char>> {
    headers.map_values(|h: (Seq<char>, Seq<char>)| h.0 + "="@ + h.1)
}

/// What two conditions share if one probe serves both: method, URL, headers,
/// body, and what their answers must be.
pub open spec fn probe_key(c: ConditionConfigModel) -> Seq<char> {
    unicode::uppercase(c.method) + "\x1e"@ + c.url + "\x1e"@ + text::joined(header_lines(c.headers), "\x1f"@)
        + "\x1e"@ + or_empty(c.body) + "\x1e"@ + c.status_match + "\x1e"@ + or_empty(c.body_contains)
}

fn text_or_empty(s: &Option<String>) -> (r: String)
    ensures
        r@ == or_empty(s.deep_view()),
{
    match s {
        Some(t) => t.clone(),
        None => "".to_owned(),
    }
}

/// What two conditions share if one probe serves both.
pub fn condition_probe_key(condition: &ConditionConfig) -> (key: String)
    ensures
        key@ == probe_key(condition.deep_view()),
{
    let mut lines: Vec<String> = Vec::new();
    let ghost headers = condition.headers.deep_view();
    let mut i: usize = 0;
    while i < condition.headers.entries.len()
        invariant
            i <= condition.headers.entries@.len(),
            headers == condition.headers.deep_view(),
            lines@.len() == i,
            forall|j: int| 0 <= j < i ==> (#[trigger] lines@[j])@ == header_lines(headers)[j],
        decreases condition.headers.entries@.len() - i,
    {
        let header = &condition.headers.entries[i];
        proof {
            assert(headers[i as int] == (header.0@, header.1@));
        }
        lines.push(around(header.0.as_str(), "=", header.1.as_str()));
        i = i + 1;
    }
    proof {
        assert(lines.deep_view() =~= header_lines(headers));
    }
    let mut key = to_uppercase(condition.method.as_str());
    key.append("\x1e");
    key.append(condition.url.as_str());
    key.append("\x1e");
    key.append(join(&lines, "\x1f").as_str());
    key.append("\x1e");
    key.append(text_or_empty(&condition.body).as_str());
    key.append("\x1e");
    key.append(condition.status_match.as_str());
    key.append("\x1e");
    key.append(text_or_empty(&condition.body_contains).as_str());
    key
}

/// Conditions that ask the same thing share a probe, whatever device they stand
/// for, however often they ask, and whether the method is written large or
/// small.
pub proof fn equal_requests_share_a_probe(a: ConditionConfigModel, b: ConditionConfigModel)
    requires
        unicode::uppercase(a.method) == unicode::uppercase(b.method),
        a.url == b.url,
        a.headers == b.headers,
        a.body == b.body,
        a.status_match == b.status_match,
        a.body_contains == b.body_contains,
    ensures
        probe_key(a) == probe_key(b),
        method_usable(a.method) ==> refused(a) == refused(b),
        forall|status: u16, body: Seq<char>| #[trigger] judged(a, status, body) == judged(b, status, body),
{
}

/// The enabled conditions that share the request `key`.
pub open spec fn sharing(t: Seq<(Seq<char>, ConditionConfigModel)>, key: Seq<char>) -> Seq<ConditionConfigModel> {
    t.map_values(|e: (Seq<char>, ConditionConfigModel)| e.1).filter(
        |c: ConditionConfigModel| c.enabled && probe_key(c) == key,
    )
}

/// The conditions that one probe of the condition `id` serves: none if it is
/// unknown or disabled.
pub open spec fn group_of(t: Seq<(Seq<char>, ConditionConfigModel)>, id: Seq<char>) -> Seq<ConditionConfigModel> {
    match table::lookup(t, id) {
        Some(c) => if c.enabled {
            sharing(t, probe_key(c))
        } else {
            Seq::empty()
        },
        None => Seq::empty(),
    }
}

/// The conditions that one probe of the condition `id` serves, as they are now.
pub fn probe_group(conditions: &Table<ConditionConfig>, id: &str) -> (r: Vec<ConditionConfig>)
    ensures
        r.deep_view() == group_of(conditions.deep_view(), id@),
{
    let ghost t = conditions.deep_view();
    let mut group: Vec<ConditionConfig> = Vec::new();
    proof {
        assert(group.deep_view() =~= Seq::<ConditionConfigModel>::empty());
    }
    let key = match conditions.get(id) {
        Some(c) => {
            if !c.enabled {
                return group;
            }
            condition_probe_key(c)
        },
        None => {
            return group;
        },
    };
    let ghost values = t.map_values(|e: (Seq<char>, ConditionConfigModel)| e.1);
    let ghost keep = |c: ConditionConfigModel| c.enabled && probe_key(c) == key@;
    proof {
        reveal(Seq::filter);
        assert(values.take(0).filter(keep) =~= Seq::<ConditionConfigModel>::empty());
    }
    let mut i: usize = 0;
    while i < conditions.entries.len()
        invariant
            i <= conditions.entries@.len(),
            t == conditions.deep_view(),
            values == t.map_values(|e: (Seq<char>, ConditionConfigModel)| e.1),
            keep == (|c: ConditionConfigModel| c.enabled && probe_key(c) == key@),
            group.deep_view() == values.take(i as int).filter(keep),
        decreases conditions.entries@.len() - i,
    {
        let condition = &conditions.entries[i].1;
        proof {
            assert(values[i as int] == condition.deep_view());
            lists::filter_step(values, keep, i as int);
        }
        if condition.enabled && same(condition_probe_key(condition).as_str(), key.as_str()) {
            let ghost had = group.deep_view();
            let copy = condition.dup();
            group.push(copy);
            proof {
                assert(group.deep_view() =~= had.push(condition.deep_view()));
            }
        }
        i = i + 1;
    }
    proof {
        assert(values.take(values.len() as int) =~= values);
    }
    group
}

// ---------- What a probe changes ----------

/// How a result bears on a condition.
pub enum Verdict {
    /// It is what the condition stood at.
    Same,
    /// It becomes what the condition stands at.
    Commit,
    /// It waits, since a moment, to become what the condition stands at.
    Wait(u128),
}

/// How a result at `now` bears on a condition that stood as `c` when it was
/// probed.
pub open spec fn verdict(c: ConditionConfigModel, passing: bool, now: u128) -> Verdict {
    let required = c.min_stable_seconds as int * 1000;
    if c.last_passing == Some(passing) {
        Verdict::Same
    } else if required == 0 {
        Verdict::Commit
    } else if c.pending_value == Some(passing) {
        let since = match c.pending_since_ms {
            Some(ms) => ms,
            None => now,
        };
        if now - since >= required {
            Verdict::Commit
        } else {
            Verdict::Wait(since)
        }
    } else {
        Verdict::Wait(now)
    }
}

/// The stored condition after a probe that found it as `seen`.
pub open spec fn after_probe(
    stored: ConditionConfigModel,
    seen: ConditionConfigModel,
    outcome: ProbeOutcomeModel,
    now: u128,
) -> ConditionConfigModel {
    let v = verdict(seen, outcome.passing, now);
    ConditionConfigModel {
        last_checked_at_ms: Some(now),
        last_status_code: outcome.status_code,
        last_error: outcome.error,
        last_passing: if v is Commit {
            Some(outcome.passing)
        } else {
            stored.last_passing
        },
        pending_value: if v is Wait {
            Some(outcome.passing)
        } else {
            None
        },
        pending_since_ms: match v {
            Verdict::Wait(since) => Some(since),
            _ => None,
        },
        ..stored
    }
}

/// Writes a probe's outcome into the stored condition; says whether the result
/// became what the condition stands at.
pub fn record_probe(
    stored: &mut ConditionConfig,
    seen: &ConditionConfig,
    outcome: &ProbeOutcome,
    now: u128,
) -> (committed: bool)
    ensures
        final(stored).deep_view() == after_probe(
            old(stored).deep_view(),
            seen.deep_view(),
            outcome.deep_view(),
            now,
        ),
        committed == (verdict(seen.deep_view(), outcome.passing, now) is Commit),
{
    stored.last_checked_at_ms = Some(now);
    stored.last_status_code = outcome.status_code;
    stored.last_error = outcome.error.dup();
    let required: u128 = seen.min_stable_seconds as u128 * 1000;
    if let Some(previous) = seen.last_passing {
        if previous == outcome.passing {
            stored.pending_value = None;
            stored.pending_since_ms = None;
            return false;
        }
    }
    if required == 0 {
        stored.last_passing = Some(outcome.passing);
        stored.pending_value = None;
        stored.pending_since_ms = None;
        return true;
    }
    if let Some(pending) = seen.pending_value {
        if pending == outcome.passing {
            let since: u128 = match seen.pending_since_ms {
                Some(ms) => ms,
                None => now,
            };
            if now >= since && now - since >= required {
                stored.last_passing = Some(outcome.passing);
                stored.pending_value = None;
                stored.pending_since_ms = None;
                return true;
            }
            stored.pending_value = Some(outcome.passing);
            stored.pending_since_ms = Some(since);
            return false;
        }
    }
    stored.pending_value = Some(outcome.passing);
    stored.pending_since_ms = Some(now);
    false
}

/// Where no stable time is asked for, a condition stands at the latest result.
pub proof fn without_window_every_result_counts(c: ConditionConfigModel, outcome: ProbeOutcomeModel, now: u128)
    requires
        c.min_stable_seconds == 0,
    ensures
        after_probe(c, c, outcome, now).last_passing == Some(outcome.passing),
        after_probe(c, c, outcome, now).pending_value is None,
{
}

/// Where a stable time is asked for, a condition changes what it stands at only
/// by a result that has been pending for that long, and then to that result.
pub proof fn changes_wait_for_the_window(c: ConditionConfigModel, outcome: ProbeOutcomeModel, now: u128)
    requires
        c.min_stable_seconds > 0,
        after_probe(c, c, outcome, now).last_passing != c.last_passing,
    ensures
        c.pending_value == Some(outcome.passing),
        c.pending_since_ms is Some,
        now - c.pending_since_ms->0 >= c.min_stable_seconds * 1000,
        after_probe(c, c, outcome, now).last_passing == Some(outcome.passing),
{
}

/// A new result that is seen at `first` and again at `later` counts from the
/// second probe on exactly if the window lies between them; and a probe that
/// finds the old result in between ends the wait.
pub proof fn second_result_settles(
    c: ConditionConfigModel,
    outcome: ProbeOutcomeModel,
    again: ProbeOutcomeModel,
    first: u128,
    later: u128,
)
    requires
        c.min_stable_seconds > 0,
        c.last_passing != Some(outcome.passing),
        c.pending_value is None,
    ensures
        again.passing == outcome.passing ==> (after_probe(
            after_probe(c, c, outcome, first),
            after_probe(c, c, outcome, first),
            again,
            later,
        ).last_passing == Some(again.passing) <==> later - first >= c.min_stable_seconds * 1000),
        c.last_passing == Some(again.passing) ==> after_probe(
            after_probe(c, c, outcome, first),
            after_probe(c, c, outcome, first),
            again,
            later,
        ).pending_value is None,
{
}

/// The table and the devices to look at after an outcome has been written into
/// the first `n` conditions of a group. A condition that has gone in the
/// meantime is passed over.
pub open spec fn after_group(
    t: Seq<(Seq<char>, ConditionConfigModel)>,
    group: Seq<ConditionConfigModel>,
    outcome: ProbeOutcomeModel,
    now: u128,
    n: int,
) -> (Seq<(Seq<char>, ConditionConfigModel)>, Seq<Seq<char>>)
    decreases n,
{
    if n <= 0 || n > group.len() {
        (t, Seq::empty())
    } else {
        let (u, devices) = after_group(t, group, outcome, now, n - 1);
        let seen = group[n - 1];
        match table::lookup(u, seen.id) {
            None => (u, devices),
            Some(stored) => {
                let moved = verdict(seen, outcome.passing, now) is Commit && seen.device_name.len() > 0
                    && !devices.contains(seen.device_name);
                (
                    table::amended(u, seen.id, after_probe(stored, seen, outcome, now)),
                    if moved {
                        devices.push(seen.device_name)
                    } else {
                        devices
                    },
                )
            },
        }
    }
}

/// Writes a probe's outcome into every condition of the group that is still
/// there; gives the devices whose conditions changed, each once.
pub fn record_group(
    conditions: &mut Table<ConditionConfig>,
    group: &Vec<ConditionConfig>,
    outcome: &ProbeOutcome,
    now: u128,
) -> (devices: Vec<String>)
    ensures
        (final(conditions).deep_view(), devices.deep_view()) == after_group(
            old(conditions).deep_view(),
            group.deep_view(),
            outcome.deep_view(),
            now,
            group@.len() as int,
        ),
{
    let ghost t = conditions.deep_view();
    let ghost g = group.deep_view();
    let ghost o = outcome.deep_view();
    let mut devices: Vec<String> = Vec::new();
    proof {
        assert(devices.deep_view() =~= Seq::<Seq<char>>::empty());
    }
    let mut i: usize = 0;
    while i < group.len()
        invariant
            i <= group@.len(),
            g == group.deep_view(),
            o == outcome.deep_view(),
            (conditions.deep_view(), devices.deep_view()) == after_group(t, g, o, now, i as int),
        decreases group@.len() - i,
    {
        let seen = &group[i];
        let ghost u = conditions.deep_view();
        proof {
            assert(g[i as int] == seen.deep_view());
        }
        match conditions.get(seen.id.as_str()) {
            None => {},
            Some(found) => {
                let mut stored = found.dup();
                let committed = record_probe(&mut stored, seen, outcome, now);
                let ghost m = stored.deep_view();
                conditions.amend(seen.id.as_str(), stored);
                if committed && !seen.device_name.as_str().is_empty() && !has_text(
                    &devices,
                    seen.device_name.as_str(),
                ) {
                    let ghost had = devices.deep_view();
                    devices.push(seen.device_name.clone());
                    proof {
                        assert(devices.deep_view() =~= had.push(seen.device_name@));
                    }
                }
                proof {
                    assert(conditions.deep_view() == table::amended(u, seen.id@, m));
                }
            },
        }
        i = i + 1;
    }
    devices
}

// ---------- What conditions say of a device ----------

/// The condition has a say in the device.
pub open spec fn bears_on(c: ConditionConfigModel, device: Seq<char>) -> bool {
    c.enabled && c.device_name == device
}

/// What the conditions say of a device: nothing if none has a say, and
/// otherwise whether every one of them is known to pass. One that has not been
/// probed yet counts as failing.
pub open spec fn intent_of(t: Seq<(Seq<char>, ConditionConfigModel)>, device: Seq<char>) -> Option<bool> {
    if exists|i: int| 0 <= i < t.len() && bears_on((#[trigger] t[i]).1, device) {
        Some(
            forall|i: int|
                0 <= i < t.len() && bears_on((#[trigger] t[i]).1, device) ==> t[i].1.last_passing == Some(true),
        )
    } else {
        None
    }
}

/// What the conditions say of a device.
pub fn condition_intent_for_device(conditions: &Table<ConditionConfig>, device_name: &str) -> (r: Option<bool>)
    ensures
        r == intent_of(conditions.deep_view(), device_name@),
{
    let ghost t = conditions.deep_view();
    let mut have_any = false;
    let mut i: usize = 0;
    while i < conditions.entries.len()
        invariant
            i <= conditions.entries@.len(),
            t == conditions.deep_view(),
            have_any == (exists|j: int| 0 <= j < i && bears_on((#[trigger] t[j]).1, device_name@)),
            forall|j: int|
                0 <= j < i && bears_on((#[trigger] t[j]).1, device_name@) ==> t[j].1.last_passing == Some(true),
        decreases conditions.entries@.len() - i,
    {
        let condition = &conditions.entries[i].1;
        proof {
            assert(t[i as int].1 == condition.deep_view());
        }
        if condition.enabled && same(condition.device_name.as_str(), device_name) {
            proof {
                assert(bears_on(t[i as int].1, device_name@));
            }
            have_any = true;
            let passes = match condition.last_passing {
                Some(p) => p,
                None => false,
            };
            if !passes {
                return Some(false);
            }
        }
        i = i + 1;
    }
    if have_any {
        Some(true)
    } else {
        None
    }
}

// ---------- When to probe ----------

/// A condition that has not been seen to pass holds its device off, whatever
/// the others say; and without conditions nothing is wanted of a device.
pub proof fn conditions_fail_closed(t: Seq<(Seq<char>, ConditionConfigModel)>, device: Seq<char>, i: int)
    requires
        0 <= i < t.len(),
    ensures
        bears_on(t[i].1, device) && t[i].1.last_passing != Some(true) ==> intent_of(t, device) == Some(false),
        intent_of(Seq::empty(), device) is None,
{
    if bears_on(t[i].1, device) && t[i].1.last_passing != Some(true) {
        assert(!(forall|k: int|
            0 <= k < t.len() && bears_on((#[trigger] t[k]).1, device) ==> t[k].1.last_passing == Some(true)));
    }
}

/// The condition is to be probed again.
pub open spec fn is_due(c: ConditionConfigModel, now: u128) -> bool {
    match c.last_checked_at_ms {
        None => true,
        Some(last) => c.poll_seconds == 0 || now - last >= c.poll_seconds * 1000,
    }
}

fn due(condition: &ConditionConfig, now: u128) -> (b: bool)
    ensures
        b == is_due(condition.deep_view(), now),
{
    match condition.last_checked_at_ms {
        None => true,
        Some(last) => {
            let interval: u128 = condition.poll_seconds as u128 * 1000;
            now.saturating_sub(last) >= interval
        },
    }
}

/// For every request that an enabled condition among the first `n` makes,
/// whether one of them is due, and the id of the first of them.
pub open spec fn requests_of(
    t: Seq<(Seq<char>, ConditionConfigModel)>,
    now: u128,
    n: int,
) -> Seq<(Seq<char>, (bool, Seq<char>))>
    decreases n,
{
    if n <= 0 || n > t.len() {
        Seq::empty()
    } else {
        let found = requests_of(t, now, n - 1);
        let c = t[n - 1].1;
        if !c.enabled {
            found
        } else {
            match table::lookup(found, probe_key(c)) {
                Some((due, first)) => table::put(found, probe_key(c), (due || is_due(c, now), first)),
                None => table::put(found, probe_key(c), (is_due(c, now), c.id)),
            }
        }
    }
}

/// The ids of the conditions to probe now: of each request that is due, the
/// first condition that makes it.
pub open spec fn due_ids(t: Seq<(Seq<char>, ConditionConfigModel)>, now: u128) -> Seq<Seq<char>> {
    requests_of(t, now, t.len() as int).filter(|e: (Seq<char>, (bool, Seq<char>))| e.1.0).map_values(
        |e: (Seq<char>, (bool, Seq<char>))| e.1.1,
    )
}

proof fn disabled_make_no_request(t: Seq<(Seq<char>, ConditionConfigModel)>, now: u128, n: int)
    requires
        forall|i: int| 0 <= i < t.len() ==> !(#[trigger] t[i]).1.enabled,
    ensures
        requests_of(t, now, n) == Seq::<(Seq<char>, (bool, Seq<char>))>::empty(),
    decreases n,
{
    if 0 < n <= t.len() {
        disabled_make_no_request(t, now, n - 1);
    }
}

/// Where no condition is enabled, none is probed.
pub proof fn disabled_are_not_probed(t: Seq<(Seq<char>, ConditionConfigModel)>, now: u128)
    requires
        forall|i: int| 0 <= i < t.len() ==> !(#[trigger] t[i]).1.enabled,
    ensures
        due_ids(t, now) == Seq::<Seq<char>>::empty(),
{
    disabled_make_no_request(t, now, t.len() as int);
    reveal(Seq::filter);
}

/// The ids of the conditions to probe now, one for each request that is due.
pub fn due_probes(conditions: &Table<ConditionConfig>, now: u128) -> (r: Vec<String>)
    ensures
        r.deep_view() == due_ids(conditions.deep_view(), now),
{
    let ghost t = conditions.deep_view();
    let mut groups: Table<(bool, String)> = Table::new();
    let mut i: usize = 0;
    while i < conditions.entries.len()
        invariant
            i <= conditions.entries@.len(),
            t == conditions.deep_view(),
            groups.deep_view() == requests_of(t, now, i as int),
        decreases conditions.entries@.len() - i,
    {
        let condition = &conditions.entries[i].1;
        proof {
            assert(t[i as int].1 == condition.deep_view());
        }
        if condition.enabled {
            let key = condition_probe_key(condition);
            let is_now = due(condition, now);
            let entry = match groups.get(key.as_str()) {
                Some(e) => (e.0 || is_now, e.1.clone()),
                None => (is_now, condition.id.clone()),
            };
            groups.insert(key, entry);
        }
        i = i + 1;
    }
    let ghost all = groups.deep_view();
    let ghost keep = |e: (Seq<char>, (bool, Seq<char>))| e.1.0;
    let ghost pick = |e: (Seq<char>, (bool, Seq<char>))| e.1.1;
    let mut ids: Vec<String> = Vec::new();
    proof {
        reveal(Seq::filter);
        assert(ids.deep_view() =~= all.take(0).filter(keep).map_values(pick));
    }
    let mut k: usize = 0;
    while k < groups.entries.len()
        invariant
            k <= groups.entries@.len(),
            all == groups.deep_view(),
            keep == (|e: (Seq<char>, (bool, Seq<char>))| e.1.0),
            pick == (|e: (Seq<char>, (bool, Seq<char>))| e.1.1),
            ids.deep_view() == all.take(k as int).filter(keep).map_values(pick),
        decreases groups.entries@.len() - k,
    {
        let group = &groups.entries[k].1;
        let ghost had = ids.deep_view();
        proof {
            assert(all[k as int].1 == (group.0, group.1@));
            lists::filter_step(all, keep, k as int);
        }
        if group.0 {
            ids.push(group.1.clone());
            proof {
                assert(ids.deep_view() =~= had.push(group.1@));
                assert(all.take(k + 1).filter(keep).map_values(pick) =~= had.push(group.1@));
            }
        }
        k = k + 1;
    }
    proof {
        assert(all.take(all.len() as int) =~= all);
    }
    ids
}

// ---------- Making, changing and removing conditions ----------

/// The condition that a request makes, or why it makes none.
pub open spec fn made<V>(
    request: CreateConditionRequestModel,
    devices: Seq<(Seq<char>, V)>,
    id: Seq<char>,
    now: u128,
) -> Result<ConditionConfigModel, Seq<char>> {
    let name = text::trimmed(request.name);
    if name.len() == 0 {
        Err("condition name is required"@)
    } else if !table::has_key(devices, request.device_name) {
        Err("unknown device '"@ + request.device_name + "'"@)
    } else if let Err(m) = method_check(request.method) {
        Err(m)
    } else if let Err(m) = status_ranges(request.status_match) {
        Err(m)
    } else if let Err(m) = poll_check(request.poll_seconds) {
        Err(m)
    } else if let Err(m) = url_check(request.url) {
        Err(m)
    } else {
        Ok(
            ConditionConfigModel {
                id,
                name,
                device_name: request.device_name,
                url: request.url,
                method: unicode::uppercase(request.method),
                headers: request.headers,
                body: time::label_in(request.body),
                status_match: request.status_match,
                body_contains: time::label_in(request.body_contains),
                poll_seconds: request.poll_seconds,
                enabled: request.enabled,
                action_on_pass: request.action_on_pass,
                action_on_fail: request.action_on_fail,
                created_at_ms: now,
                last_checked_at_ms: None,
                last_passing: None,
                last_status_code: None,
                last_error: None,
                last_action_at_ms: None,
                last_action: None,
                last_action_error: None,
                min_stable_seconds: request.min_stable_seconds,
                pending_value: None,
                pending_since_ms: None,
            },
        )
    }
}

/// Makes a condition and stores it under its id.
pub fn create_condition<V: DeepView>(
    conditions: &mut Table<ConditionConfig>,
    devices: &Table<V>,
    request: CreateConditionRequest,
    id: String,
    now: u128,
) -> (r: Result<(), String>)
    ensures
        match r {
            Ok(_) => made(request.deep_view(), devices.deep_view(), id@, now) is Ok && final(conditions).deep_view()
                == table::put(
                old(conditions).deep_view(),
                id@,
                made(request.deep_view(), devices.deep_view(), id@, now)->Ok_0,
            ),
            Err(m) => made(request.deep_view(), devices.deep_view(), id@, now) == Err::<
                ConditionConfigModel,
                Seq<char>,
            >(m@) && final(conditions).deep_view() == old(conditions).deep_view(),
        },
        table::sorted(old(conditions).deep_view()) ==> table::sorted(final(conditions).deep_view()),
{
    let name = trim(request.name.as_str());
    if name.as_str().is_empty() {
        return Err("condition name is required".to_owned());
    }
    if let Err(m) = ensure_device_exists(devices, request.device_name.as_str()) {
        return Err(m);
    }
    if let Err(m) = validate_http_method(request.method.as_str()) {
        return Err(m);
    }
    if let Err(m) = parse_status_match(request.status_match.as_str()) {
        return Err(m);
    }
    if let Err(m) = clamp_poll_seconds(request.poll_seconds) {
        return Err(m);
    }
    if let Err(m) = validate_url(request.url.as_str()) {
        return Err(m);
    }
    let condition = ConditionConfig {
        id: id.clone(),
        name,
        device_name: request.device_name,
        url: request.url,
        method: to_uppercase(request.method.as_str()),
        headers: request.headers,
        body: optional_label(request.body),
        status_match: request.status_match,
        body_contains: optional_label(request.body_contains),
        poll_seconds: request.poll_seconds,
        enabled: request.enabled,
        action_on_pass: request.action_on_pass,
        action_on_fail: request.action_on_fail,
        created_at_ms: now,
        last_checked_at_ms: None,
        last_passing: None,
        last_status_code: None,
        last_error: None,
        last_action_at_ms: None,
        last_action: None,
        last_action_error: None,
        min_stable_seconds: request.min_stable_seconds,
        pending_value: None,
        pending_since_ms: None,
    };
    conditions.insert(id, condition);
    Ok(())
}

/// What is wrong with the request itself, before any condition is looked up.
pub open spec fn update_fault<V>(
    request: UpdateConditionRequestModel,
    devices: Seq<(Seq<char>, V)>,
) -> Option<Seq<char>> {
    if request.method is Some && method_check(request.method->0) is Err {
        Some(method_check(request.method->0)->Err_0)
    } else if request.status_match is Some && status_ranges(request.status_match->0) is Err {
        Some(status_ranges(request.status_match->0)->Err_0)
    } else if request.poll_seconds is Some && poll_check(request.poll_seconds->0) is Err {
        Some(poll_check(request.poll_seconds->0)->Err_0)
    } else if request.url is Some && url_check(request.url->0) is Err {
        Some(url_check(request.url->0)->Err_0)
    } else if request.device_name is Some && !table::has_key(devices, request.device_name->0) {
        Some("unknown device '"@ + request.device_name->0 + "'"@)
    } else {
        None
    }
}

/// The condition with the request's changes. A new URL or status match clears
/// the last error; disabling forgets how the condition stood; a new stable time
/// ends any wait.
pub open spec fn changed(c: ConditionConfigModel, r: UpdateConditionRequestModel) -> ConditionConfigModel {
    ConditionConfigModel {
        name: merge::trimmed_or(r.name, c.name),
        device_name: merge::either(r.device_name, c.device_name),
        url: merge::either(r.url, c.url),
        method: merge::uppercase_or(r.method, c.method),
        headers: merge::either(r.headers, c.headers),
        body: merge::label_or(r.body, c.body),
        status_match: merge::either(r.status_match, c.status_match),
        body_contains: merge::label_or(r.body_contains, c.body_contains),
        poll_seconds: merge::either(r.poll_seconds, c.poll_seconds),
        enabled: merge::either(r.enabled, c.enabled),
        action_on_pass: merge::either(r.action_on_pass, c.action_on_pass),
        action_on_fail: merge::either(r.action_on_fail, c.action_on_fail),
        last_error: merge::cleared_if(r.url is Some || r.status_match is Some, c.last_error),
        last_passing: merge::cleared_if(r.enabled == Some(false), c.last_passing),
        last_status_code: merge::cleared_if(r.enabled == Some(false), c.last_status_code),
        min_stable_seconds: merge::either(r.min_stable_seconds, c.min_stable_seconds),
        pending_value: merge::cleared_if(r.min_stable_seconds is Some, c.pending_value),
        pending_since_ms: merge::cleared_if(r.min_stable_seconds is Some, c.pending_since_ms),
        ..c
    }
}

fn apply_update(condition: ConditionConfig, request: UpdateConditionRequest) -> (r: ConditionConfig)
    ensures
        r.deep_view() == changed(condition.deep_view(), request.deep_view()),
{
    let new_target = request.url.is_some() || request.status_match.is_some();
    let disabled = match request.enabled {
        Some(enabled) => !enabled,
        None => false,
    };
    let new_window = request.min_stable_seconds.is_some();
    ConditionConfig {
        id: condition.id,
        name: trim_or(request.name, condition.name),
        device_name: given_or(request.device_name, condition.device_name),
        url: given_or(request.url, condition.url),
        method: upper_or(request.method, condition.method),
        headers: given_or(request.headers, condition.headers),
        body: relabel(request.body, condition.body),
        status_match: given_or(request.status_match, condition.status_match),
        body_contains: relabel(request.body_contains, condition.body_contains),
        poll_seconds: given_or(request.poll_seconds, condition.poll_seconds),
        enabled: given_or(request.enabled, condition.enabled),
        action_on_pass: given_or(request.action_on_pass, condition.action_on_pass),
        action_on_fail: given_or(request.action_on_fail, condition.action_on_fail),
        created_at_ms: condition.created_at_ms,
        last_checked_at_ms: condition.last_checked_at_ms,
        last_passing: clear_if(disabled, condition.last_passing),
        last_status_code: clear_if(disabled, condition.last_status_code),
        last_error: clear_if(new_target, condition.last_error),
        last_action_at_ms: condition.last_action_at_ms,
        last_action: condition.last_action,
        last_action_error: condition.last_action_error,
        min_stable_seconds: given_or(request.min_stable_seconds, condition.min_stable_seconds),
        pending_value: clear_if(new_window, condition.pending_value),
        pending_since_ms: clear_if(new_window, condition.pending_since_ms),
    }
}

/// The table after a request to change the condition `id`, or why it stays as
/// it is.
pub open spec fn updated<V>(
    t: Seq<(Seq<char>, ConditionConfigModel)>,
    devices: Seq<(Seq<char>, V)>,
    id: Seq<char>,
    request: UpdateConditionRequestModel,
) -> Result<Seq<(Seq<char>, ConditionConfigModel)>, Seq<char>> {
    if let Some(m) = update_fault(request, devices) {
        Err(m)
    } else {
        match table::lookup(t, id) {
            None => Err("unknown condition '"@ + id + "'"@),
            Some(c) => if request.name is Some && text::trimmed(request.name->0).len() == 0 {
                Err("condition name cannot be empty"@)
            } else {
                Ok(table::amended(t, id, changed(c, request)))
            },
        }
    }
}

/// Changes the condition `id` as requested; where that fails, nothing changes.
pub fn update_condition<V: DeepView>(
    conditions: &mut Table<ConditionConfig>,
    devices: &Table<V>,
    id: &str,
    request: UpdateConditionRequest,
) -> (r: Result<(), String>)
    ensures
        match r {
            Ok(_) => updated(old(conditions).deep_view(), devices.deep_view(), id@, request.deep_view()) == Ok::<
                Seq<(Seq<char>, ConditionConfigModel)>,
                Seq<char>,
            >(final(conditions).deep_view()),
            Err(m) => updated(old(conditions).deep_view(), devices.deep_view(), id@, request.deep_view()) == Err::<
                Seq<(Seq<char>, ConditionConfigModel)>,
                Seq<char>,
            >(m@) && final(conditions).deep_view() == old(conditions).deep_view(),
        },
        table::sorted(old(conditions).deep_view()) ==> table::sorted(final(conditions).deep_view()),
{
    if let Some(method) = &request.method {
        if let Err(m) = validate_http_method(method.as_str()) {
            return Err(m);
        }
    }
    if let Some(status) = &request.status_match {
        if let Err(m) = parse_status_match(status.as_str()) {
            return Err(m);
        }
    }
    if let Some(poll) = request.poll_seconds {
        if let Err(m) = clamp_poll_seconds(poll) {
            return Err(m);
        }
    }
    if let Some(url) = &request.url {
        if let Err(m) = validate_url(url.as_str()) {
            return Err(m);
        }
    }
    if let Some(device_name) = &request.device_name {
        if let Err(m) = ensure_device_exists(devices, device_name.as_str()) {
            return Err(m);
        }
    }
    let condition = match conditions.get(id) {
        Some(c) => c.dup(),
        None => {
            return Err(around("unknown condition '", id, "'"));
        },
    };
    if let Some(name) = &request.name {
        if trim(name.as_str()).as_str().is_empty() {
            return Err("condition name cannot be empty".to_owned());
        }
    }
    conditions.amend(id, apply_update(condition, request));
    Ok(())
}

/// Whether a text is another than `x`.
pub open spec fn is_not(x: Seq<char>) -> spec_fn(Seq<char>) -> bool {
    |other: Seq<char>| other != x
}

/// The ids but for `id`.
pub open spec fn ids_but(ids: Seq<Seq<char>>, id: Seq<char>) -> Seq<Seq<char>> {
    ids.filter(is_not(id))
}

/// The schedules, none of them with the condition `id`.
pub open spec fn released(
    schedules: Seq<(Seq<char>, ScheduleConfigModel)>,
    id: Seq<char>,
) -> Seq<(Seq<char>, ScheduleConfigModel)> {
    schedules.map_values(
        |e: (Seq<char>, ScheduleConfigModel)|
            (
                e.0,
                ScheduleConfigModel { condition_ids: ids_but(e.1.condition_ids, id), ..e.1 },
            ),
    )
}

/// `items` without the text `x`.
fn all_but(items: &Vec<String>, x: &str) -> (r: Vec<String>)
    ensures
        r.deep_view() == ids_but(items.deep_view(), x@),
{
    let ghost all = items.deep_view();
    let ghost keep = is_not(x@);
    let mut kept: Vec<String> = Vec::new();
    proof {
        reveal(Seq::filter);
        assert(kept.deep_view() =~= all.take(0).filter(keep));
    }
    let mut i: usize = 0;
    while i < items.len()
        invariant
            i <= items@.len(),
            all == items.deep_view(),
            keep == is_not(x@),
            kept.deep_view() == all.take(i as int).filter(keep),
        decreases items@.len() - i,
    {
        let ghost had = kept.deep_view();
        proof {
            assert(all[i as int] == items@[i as int]@);
            lists::filter_step(all, keep, i as int);
        }
        if !same(items[i].as_str(), x) {
            kept.push(items[i].clone());
            proof {
                assert(kept.deep_view() =~= had.push(items@[i as int]@));
            }
        }
        i = i + 1;
    }
    proof {
        assert(all.take(all.len() as int) =~= all);
    }
    kept
}

/// Removes the condition `id`, from the schedules that name it too.
pub fn delete_condition(
    conditions: &mut Table<ConditionConfig>,
    schedules: &mut Table<ScheduleConfig>,
    id: &str,
) -> (r: Result<(), String>)
    ensures
        match r {
            Ok(_) => table::has_key(old(conditions).deep_view(), id@) && final(schedules).deep_view() == released(
                old(schedules).deep_view(),
                id@,
            ),
            Err(m) => !table::has_key(old(conditions).deep_view(), id@) && m@ == "unknown condition '"@ + id@ + "'"@
                && final(schedules).deep_view() == old(schedules).deep_view(),
        },
        final(conditions).deep_view() == table::without(old(conditions).deep_view(), id@),
        table::sorted(old(conditions).deep_view()) ==> table::sorted(final(conditions).deep_view()),
{
    if !conditions.remove(id) {
        return Err(around("unknown condition '", id, "'"));
    }
    let ghost t = schedules.deep_view();
    let mut i: usize = 0;
    while i < schedules.entries.len()
        invariant
            i <= schedules.entries@.len(),
            schedules.entries@.len() == t.len(),
            forall|j: int| 0 <= j < i ==> #[trigger] schedules.deep_view()[j] == released(t, id@)[j],
            forall|j: int| i <= j < t.len() ==> #[trigger] schedules.deep_view()[j] == t[j],
        decreases schedules.entries@.len() - i,
    {
        let ghost before = schedules.deep_view();
        let ghost all = schedules.entries@;
        let mut schedule = schedules.entries[i].1.dup();
        proof {
            assert(before[i as int] == t[i as int]);
        }
        schedule.condition_ids = all_but(&schedule.condition_ids, id);
        let name = schedules.entries[i].0.clone();
        schedules.entries.set(i, (name, schedule));
        proof {
            assert forall|j: int| 0 <= j < t.len() && j != i implies #[trigger] schedules.deep_view()[j] == before[j] by {
                assert(schedules.entries@[j] == all[j]);
            }
            assert(schedules.deep_view()[i as int] == released(t, id@)[i as int]);
        }
        i = i + 1;
    }
    proof {
        assert(schedules.deep_view() =~= released(t, id@));
    }
    Ok(())
}

/// After a condition is removed, no schedule names it, and each names every
/// other condition that it named before.
pub proof fn released_schedules_do_not_name_it(
    schedules: Seq<(Seq<char>, ScheduleConfigModel)>,
    id: Seq<char>,
    i: int,
    other: Seq<char>,
)
    requires
        0 <= i < schedules.len(),
    ensures
        !released(schedules, id)[i].1.condition_ids.contains(id),
        other != id ==> (released(schedules, id)[i].1.condition_ids.contains(other)
            <==> schedules[i].1.condition_ids.contains(other)),
{
    let ids = schedules[i].1.condition_ids;
    let keep = is_not(id);
    lists::filter_holds(ids, keep, id);
    lists::filter_holds(ids, keep, other);
}

/// A status alone names itself, two with a dash between them name all from the
/// first to the second, and two with a comma between them name both. From more
/// to less there is no range.
pub proof fn statuses_name_their_codes(a: u16, b: u16)
    ensures
        status_ranges(text::decimal(a as nat)) == Ok::<Seq<StatusRange>, Seq<char>>(
            seq![StatusRange { start: a, end: a }],
        ),
        a <= b ==> status_ranges(text::decimal(a as nat) + seq!['-'] + text::decimal(b as nat)) == Ok::<
            Seq<StatusRange>,
            Seq<char>,
        >(seq![StatusRange { start: a, end: b }]),
        a > b ==> status_ranges(text::decimal(a as nat) + seq!['-'] + text::decimal(b as nat)) is Err,
        status_ranges(text::decimal(a as nat) + seq![','] + text::decimal(b as nat)) == Ok::<
            Seq<StatusRange>,
            Seq<char>,
        >(seq![StatusRange { start: a, end: a }, StatusRange { start: b, end: b }]),
        status_ranges(Seq::empty()) is Err,
{
    let x = text::decimal(a as nat);
    let y = text::decimal(b as nat);
    let dash = x + seq!['-'] + y;
    let comma = x + seq![','] + y;
    text::decimals_read_back(a as nat);
    text::decimals_read_back(b as nat);
    text::decimal_is_trimmed(a as nat);
    text::decimal_is_trimmed(b as nat);
    text::unsigned_reads_decimal(a as nat, u16::MAX as nat);
    text::unsigned_reads_decimal(b as nat, u16::MAX as nat);
    text::decimals_hold_digits_only(a as nat, ',');
    text::decimals_hold_digits_only(b as nat, ',');
    text::decimals_hold_digits_only(a as nat, '-');
    text::decimals_hold_digits_only(b as nat, '-');
    text::plain_texts_are_pieces(x, y, ',');
    text::plain_texts_are_pieces(x, y, '-');
    text::plain_texts_are_pieces(y, x, '-');
    assert(text::is_digit(x[0]) && text::is_digit(y.last()));
    assert(dash[0] == x[0] && dash.last() == y.last());
    assert(comma[0] == x[0] && comma.last() == y.last());
    assert(text::trimmed(dash) == dash);
    assert(text::trimmed(comma) == comma);
    assert(!dash.contains(',')) by {
        if dash.contains(',') {
            let k = choose|k: int| 0 <= k < dash.len() && dash[k] == ',';
            if k < x.len() {
                assert(x[k] == ',');
            } else if k > x.len() {
                assert(y[k - x.len() - 1] == ',');
            }
        }
    }
    text::plain_texts_are_pieces(dash, y, ',');
    reveal_with_fuel(ranges_from, 3);
    let one = StatusRange { start: a, end: a };
    let other = StatusRange { start: b, end: b };
    let both = StatusRange { start: a, end: b };
    assert(Seq::<StatusRange>::empty().push(one) =~= seq![one]);
    assert(Seq::<StatusRange>::empty().push(both) =~= seq![both]);
    assert(seq![one].push(other) =~= seq![one, other]);
}

/// An answer passes where its status lies in one of the ranges and its body
/// holds the text looked for, if one is; what came is kept with it.
pub proof fn answers_pass_by_status_and_body(
    c: ConditionConfigModel,
    status: u16,
    body: Seq<char>,
    ranges: Seq<StatusRange>,
)
    requires
        status_ranges(c.status_match) == Ok::<Seq<StatusRange>, Seq<char>>(ranges),
    ensures
        ({
            let r = judged(c, status, body);
            let named = exists|i: int| 0 <= i < ranges.len() && (#[trigger] ranges[i]).start <= status <= ranges[i].end;
            &&& c.body_contains is None ==> (r.passing <==> named)
            &&& c.body_contains matches Some(part) ==> (r.passing <==> named && exists|i: int|
                0 <= i <= body.len() - part.len() && #[trigger] body.subrange(i, i + part.len()) == part)
            &&& r.status_code == Some(status)
            &&& r.body == Some(body)
        }),
{
    if let Some(part) = c.body_contains {
        text::find_from_is_first(body, part, 0);
        if text::holds(body, part) {
            let i = text::find_from(body, part, 0)->0;
            assert(body.subrange(i, i + part.len()) == part);
        }
        if exists|i: int| 0 <= i <= body.len() - part.len() && #[trigger] body.subrange(i, i + part.len()) == part {
            let i = choose|i: int|
                0 <= i <= body.len() - part.len() && #[trigger] body.subrange(i, i + part.len()) == part;
            assert(text::occurs_at(body, part, i));
        }
    }
}

/// What could not be asked or read does not pass, and says why.
pub proof fn failures_do_not_pass(c: ConditionConfigModel, status: u16, error: Seq<char>)
    ensures
        !failed(error).passing && failed(error).error == Some(error) && failed(error).status_code is None,
        !unread(status, error).passing && unread(status, error).error is Some && unread(status, error).status_code
            == Some(status),
        refused(c) matches Some(r) ==> !r.passing && r.error is Some,
        refused(c) is None <==> method_usable(c.method) && status_ranges(c.status_match) is Ok,
        status_ranges(c.status_match) is Err ==> !judged(c, status, error).passing,
{
}

/// A method is one or more of the characters that a token may have: letters,
/// digits and a few signs, but no space, no bracket, no separator and nothing
/// outside ASCII.
pub proof fn methods_are_tokens(b: u8)
    ensures
        is_token_byte(b) <==> 32 < b < 127 && !{
            ||| b == '(' as u8 || b == ')' as u8 || b == '<' as u8 || b == '>' as u8 || b == '@' as u8
            ||| b == ',' as u8 || b == ';' as u8 || b == ':' as u8 || b == '\\' as u8 || b == '"' as u8
            ||| b == '/' as u8 || b == '[' as u8 || b == ']' as u8 || b == '?' as u8 || b == '=' as u8
            ||| b == '{' as u8 || b == '}' as u8
        },
        !is_method(Seq::empty()),
        is_method(seq![b]) <==> is_token_byte(b),
{
    assert(seq![b][0] == b);
}

/// A URL must begin with `http://` or `https://`, space before it aside, and the
/// time between two probes must be from five seconds to an hour.
pub proof fn checks_hold_their_bounds(rest: Seq<char>, url: Seq<char>, seconds: u64)
    ensures
        url_check(url) is Ok ==> (text::trimmed(url).len() >= 7 && text::trimmed(url).take(4) == seq!['h', 't', 't', 'p']),
        text::trimmed(url) == "http://"@ + rest || text::trimmed(url) == "https://"@ + rest ==> url_check(url) is Ok,
        poll_check(seconds) is Ok <==> 5 <= seconds <= 3600,
        poll_check(seconds) matches Ok(kept) ==> kept == seconds,
{
    reveal_strlit("http://");
    reveal_strlit("https://");
    let t = text::trimmed(url);
    text::ends_are_what_stands_there("http://"@, rest, t);
    text::ends_are_what_stands_there("https://"@, rest, t);
    if text::begins(t, "http://"@) || text::begins(t, "https://"@) {
        assert(t.take(4) =~= seq!['h', 't', 't', 'p']);
    }
}

/// Of a body no more than 262144 bytes are kept.
pub proof fn bodies_are_cut_short(bytes: Seq<u8>)
    ensures
        bytes.len() > 262144 ==> body_text(bytes) == body_text(bytes.take(262144)),
        bytes.len() <= 262144 && valid_utf8(bytes) ==> body_text(bytes) == decode_utf8(bytes),
        bytes.len() <= 262144 && !valid_utf8(bytes) ==> body_text(bytes) == std_lossy(bytes),
{
}

/// What the conditions say of a device: nothing where none that is enabled
/// names it, that it may be on where all of these pass, and else that it must
/// not.
pub proof fn conditions_say_yes_together(t: Seq<(Seq<char>, ConditionConfigModel)>, device: Seq<char>)
    ensures
        intent_of(t, device) is None <==> !exists|i: int|
            0 <= i < t.len() && (#[trigger] t[i]).1.enabled && t[i].1.device_name == device,
        intent_of(t, device) == Some(true) <==> (exists|i: int|
            0 <= i < t.len() && (#[trigger] t[i]).1.enabled && t[i].1.device_name == device) && (forall|i: int|
            0 <= i < t.len() && (#[trigger] t[i]).1.enabled && t[i].1.device_name == device ==> t[i].1.last_passing
                == Some(true)),
{
    if exists|i: int| 0 <= i < t.len() && bears_on((#[trigger] t[i]).1, device) {
        let i = choose|i: int| 0 <= i < t.len() && bears_on((#[trigger] t[i]).1, device);
        assert(t[i].1.enabled);
    }
    if exists|i: int| 0 <= i < t.len() && (#[trigger] t[i]).1.enabled && t[i].1.device_name == device {
        let i = choose|i: int| 0 <= i < t.len() && (#[trigger] t[i]).1.enabled && t[i].1.device_name == device;
        assert(bears_on(t[i].1, device));
    }
}

/// A condition is probed at once and then each time its seconds have passed.
pub proof fn probes_come_at_their_time(c: ConditionConfigModel, last: u128, now: u128)
    ensures
        c.last_checked_at_ms is None ==> is_due(c, now),
        c.last_checked_at_ms == Some(last) && c.poll_seconds > 0 ==> (is_due(c, now) <==> now >= last + 1000
            * c.poll_seconds),
        c.last_checked_at_ms == Some(last) && c.poll_seconds == 0 ==> is_due(c, now),
{
}

/// Every enabled condition that is due has its request made: one of the
/// conditions with the same request is named.
pub proof fn due_requests_are_made(t: Seq<(Seq<char>, ConditionConfigModel)>, now: u128, k: int)
    requires
        0 <= k < t.len(),
        t[k].1.enabled,
        is_due(t[k].1, now),
    ensures
        exists|i: int|
            0 <= i < t.len() && (#[trigger] t[i]).1.enabled && probe_key(t[i].1) == probe_key(t[k].1) && due_ids(
                t,
                now,
            ).contains(t[i].1.id),
{
    let all = requests_of(t, now, t.len() as int);
    let key = probe_key(t[k].1);
    requests_hold_the_due(t, now, t.len() as int, k);
    let (due, first) = table::lookup(all, key)->0;
    let p = table::place_from(all, key, 0)->0;
    table::place_from_facts(all, key, 0);
    let keep = |e: (Seq<char>, (bool, Seq<char>))| e.1.0;
    broadcast use vstd::seq_lib::group_filter_ensures;

    assert(all[p] == (key, (due, first)));
    assert(all.contains(all[p]));
    assert(all.filter(keep).contains(all[p]));
    let kept = all.filter(keep);
    let j = choose|j: int| 0 <= j < kept.len() && kept[j] == all[p];
    assert(due_ids(t, now)[j] == first);
    let i = choose|i: int|
        0 <= i < t.len() && (#[trigger] t[i]).1.enabled && probe_key(t[i].1) == key && t[i].1.id == first;
    assert(due_ids(t, now).contains(t[i].1.id));
}

proof fn requests_hold_the_due(t: Seq<(Seq<char>, ConditionConfigModel)>, now: u128, n: int, k: int)
    requires
        0 <= n <= t.len(),
        0 <= k < t.len(),
        t[k].1.enabled,
        is_due(t[k].1, now),
    ensures
        k < n ==> (table::lookup(requests_of(t, now, n), probe_key(t[k].1)) matches Some((due, first)) && due),
        table::lookup(requests_of(t, now, n), probe_key(t[k].1)) matches Some((due, first)) ==> exists|i: int|
            0 <= i < n && (#[trigger] t[i]).1.enabled && probe_key(t[i].1) == probe_key(t[k].1) && t[i].1.id == first,
    decreases n,
{
    let key = probe_key(t[k].1);
    if n > 0 {
        requests_hold_the_due(t, now, n - 1, k);
        let before = requests_of(t, now, n - 1);
        let c = t[n - 1].1;
        if c.enabled {
            match table::lookup(before, probe_key(c)) {
                Some((due, first)) => {
                    table::put_then_lookup(before, probe_key(c), (due || is_due(c, now), first), key);
                },
                None => {
                    table::put_then_lookup(before, probe_key(c), (is_due(c, now), c.id), key);
                    assert(t[n - 1].1.enabled);
                },
            }
        }
        if let Some((due, first)) = table::lookup(requests_of(t, now, n), key) {
            if table::lookup(before, key) is Some {
                let i = choose|i: int|
                    0 <= i < n - 1 && (#[trigger] t[i]).1.enabled && probe_key(t[i].1) == key && t[i].1.id == (
                    table::lookup(before, key)->0).1;
                assert(t[i].1.id == first);
            } else {
                assert(t[n - 1].1.id == first);
            }
        }
    } else {
        assert(requests_of(t, now, n).len() == 0);
    }
}

/// The conditions probed together are those enabled with the same request, the
/// one named among them.
pub proof fn probes_are_shared(t: Seq<(Seq<char>, ConditionConfigModel)>, id: Seq<char>, c: ConditionConfigModel)
    requires
        table::lookup(t, id) == Some(c),
    ensures
        !c.enabled ==> group_of(t, id).len() == 0,
        c.enabled ==> group_of(t, id).contains(c),
        forall|d: ConditionConfigModel| #[trigger] group_of(t, id).contains(d) ==> d.enabled && probe_key(d) == probe_key(c),
{
    let all = t.map_values(|e: (Seq<char>, ConditionConfigModel)| e.1);
    table::place_from_facts(t, id, 0);
    let p = table::place_from(t, id, 0)->0;
    broadcast use vstd::seq_lib::group_filter_ensures;

    assert(all[p] == c);
    assert(all.contains(c));
}

/// After a probe the condition keeps what came of it and when. The value it
/// stands at moves to the result at once without a window, and else only to
/// a result that has been pending for the window; a result like the value it
/// stands at leaves nothing pending.
pub proof fn probes_leave_their_result(c: ConditionConfigModel, outcome: ProbeOutcomeModel, now: u128)
    ensures
        ({
            let d = after_probe(c, c, outcome, now);
            &&& d.last_checked_at_ms == Some(now)
            &&& d.last_status_code == outcome.status_code
            &&& d.last_error == outcome.error
            &&& c.last_passing == Some(outcome.passing) ==> d.last_passing == c.last_passing && d.pending_value is None
                && d.pending_since_ms is None
            &&& c.last_passing != Some(outcome.passing) && c.min_stable_seconds > 0 && c.pending_value != Some(
                outcome.passing,
            ) ==> d.last_passing == c.last_passing && d.pending_value == Some(outcome.passing) && d.pending_since_ms
                == Some(now)
            &&& c.last_passing != Some(outcome.passing) && c.min_stable_seconds > 0 && c.pending_value == Some(
                outcome.passing,
            ) && c.pending_since_ms is Some && now >= c.pending_since_ms->0 + 1000 * c.min_stable_seconds
                ==> d.last_passing == Some(outcome.passing) && d.pending_value is None
            &&& d.id == c.id && d.name == c.name && d.device_name == c.device_name && d.url == c.url && d.enabled
                == c.enabled && d.status_match == c.status_match && d.poll_seconds == c.poll_seconds
        }),
{
}

/// A condition comes out as it was asked for, with the space round its name
/// taken off and its method in capitals, not yet checked. It is refused exactly
/// where a check fails.
pub proof fn conditions_are_made_as_asked<V>(
    r: CreateConditionRequestModel,
    devices: Seq<(Seq<char>, V)>,
    id: Seq<char>,
    now: u128,
)
    ensures
        made(r, devices, id, now) is Ok <==> text::trimmed(r.name).len() > 0 && table::has_key(devices, r.device_name)
            && method_check(r.method) is Ok && status_ranges(r.status_match) is Ok && 5 <= r.poll_seconds <= 3600
            && url_check(r.url) is Ok,
        made(r, devices, id, now) matches Ok(c) ==> {
            &&& c.id == id && c.name == text::trimmed(r.name) && c.device_name == r.device_name
            &&& c.url == r.url && c.method == unicode::uppercase(r.method) && c.headers == r.headers
            &&& r.body is None ==> c.body is None
            &&& r.body matches Some(b) ==> text::trimmed(b).len() > 0 ==> c.body == Some(text::trimmed(b))
            &&& r.body_contains is None ==> c.body_contains is None
            &&& r.body_contains matches Some(b) ==> text::trimmed(b).len() > 0 ==> c.body_contains == Some(
                text::trimmed(b),
            )
            &&& c.status_match == r.status_match && c.poll_seconds == r.poll_seconds && c.enabled == r.enabled
            &&& c.action_on_pass == r.action_on_pass && c.action_on_fail == r.action_on_fail
            &&& c.min_stable_seconds == r.min_stable_seconds && c.created_at_ms == now
            &&& c.last_checked_at_ms is None && c.last_passing is None && c.last_status_code is None && c.last_error
                is None && c.pending_value is None && c.pending_since_ms is None
        },
{
}

/// A change to a stored condition touches no other; each field that it names is
/// as it says and each other as it was. A new URL or status clears the error, a
/// new window what is pending, and disabling what the condition stood at.
pub proof fn condition_changes_are_field_by_field<V>(
    t: Seq<(Seq<char>, ConditionConfigModel)>,
    devices: Seq<(Seq<char>, V)>,
    id: Seq<char>,
    other: Seq<char>,
    r: UpdateConditionRequestModel,
)
    ensures
        table::lookup(t, id) is None ==> updated(t, devices, id, r) is Err,
        updated(t, devices, id, r) matches Ok(u) ==> {
            &&& other != id ==> table::lookup(u, other) == table::lookup(t, other)
            &&& table::lookup(t, id) matches Some(c) && table::lookup(u, id) matches Some(d) && {
                &&& d.id == c.id && d.created_at_ms == c.created_at_ms && d.last_checked_at_ms == c.last_checked_at_ms
                &&& r.name matches Some(name) ==> d.name == text::trimmed(name) && d.name.len() > 0
                &&& r.name is None ==> d.name == c.name
                &&& r.device_name matches Some(x) ==> d.device_name == x && table::has_key(devices, x)
                &&& r.device_name is None ==> d.device_name == c.device_name
                &&& r.url matches Some(x) ==> d.url == x && url_check(x) is Ok
                &&& r.url is None ==> d.url == c.url
                &&& r.method matches Some(x) ==> d.method == unicode::uppercase(x) && method_check(x) is Ok
                &&& r.method is None ==> d.method == c.method
                &&& r.headers matches Some(x) ==> d.headers == x
                &&& r.headers is None ==> d.headers == c.headers
                &&& r.body is None ==> d.body == c.body
                &&& r.body == Some(None::<Seq<char>>) ==> d.body is None
                &&& r.body_contains is None ==> d.body_contains == c.body_contains
                &&& r.body_contains == Some(None::<Seq<char>>) ==> d.body_contains is None
                &&& r.status_match matches Some(x) ==> d.status_match == x && status_ranges(x) is Ok
                &&& r.status_match is None ==> d.status_match == c.status_match
                &&& r.poll_seconds matches Some(x) ==> d.poll_seconds == x && 5 <= x <= 3600
                &&& r.poll_seconds is None ==> d.poll_seconds == c.poll_seconds
                &&& r.enabled matches Some(x) ==> d.enabled == x
                &&& r.enabled is None ==> d.enabled == c.enabled
                &&& r.action_on_pass matches Some(x) ==> d.action_on_pass == x
                &&& r.action_on_pass is None ==> d.action_on_pass == c.action_on_pass
                &&& r.action_on_fail matches Some(x) ==> d.action_on_fail == x
                &&& r.action_on_fail is None ==> d.action_on_fail == c.action_on_fail
                &&& r.min_stable_seconds matches Some(x) ==> d.min_stable_seconds == x && d.pending_value is None
                    && d.pending_since_ms is None
                &&& r.min_stable_seconds is None ==> d.min_stable_seconds == c.min_stable_seconds && d.pending_value
                    == c.pending_value && d.pending_since_ms == c.pending_since_ms
                &&& r.url is Some || r.status_match is Some ==> d.last_error is None
                &&& r.url is None && r.status_match is None ==> d.last_error == c.last_error
                &&& r.enabled == Some(false) ==> d.last_passing is None && d.last_status_code is None
                &&& r.enabled != Some(false) ==> d.last_passing == c.last_passing && d.last_status_code
                    == c.last_status_code
            }
        },
{
    if let Some(c) = table::lookup(t, id) {
        table::amended_then_lookup(t, id, changed(c, r), other);
    }
}

/// What is shown of a condition is what is stored of it.
pub proof fn conditions_are_shown_as_stored(c: ConditionConfigModel)
    ensures
        ({
            let v = view_of(c);
            &&& v.id == c.id && v.name == c.name && v.device_name == c.device_name && v.url == c.url && v.method
                == c.method && v.headers == c.headers && v.body == c.body
            &&& v.status_match == c.status_match && v.body_contains == c.body_contains && v.poll_seconds
                == c.poll_seconds && v.enabled == c.enabled
            &&& v.action_on_pass == c.action_on_pass && v.action_on_fail == c.action_on_fail
            &&& v.created_at_ms == c.created_at_ms && v.last_checked_at_ms == c.last_checked_at_ms && v.last_passing
                == c.last_passing && v.last_status_code == c.last_status_code && v.last_error == c.last_error
            &&& v.last_action_at_ms == c.last_action_at_ms && v.last_action == c.last_action && v.last_action_error
                == c.last_action_error
            &&& v.min_stable_seconds == c.min_stable_seconds && v.pending_value == c.pending_value
                && v.pending_since_ms == c.pending_since_ms
        }),
{
}

/// A shared probe changes the conditions that share it and no others. The
/// devices told are those of conditions whose value it moves, each once; where
/// there is no window every condition that stood otherwise has its device told.
pub proof fn shared_probes_move_their_group(
    t: Seq<(Seq<char>, ConditionConfigModel)>,
    group: Seq<ConditionConfigModel>,
    outcome: ProbeOutcomeModel,
    now: u128,
    n: int,
    id: Seq<char>,
    k: int,
)
    requires
        0 <= n <= group.len(),
    ensures
        ({
            let (u, devices) = after_group(t, group, outcome, now, n);
            &&& (forall|i: int| 0 <= i < n ==> (#[trigger] group[i]).id != id) ==> table::lookup(u, id) == table::lookup(
                t,
                id,
            )
            &&& table::has_key(u, id) <==> table::has_key(t, id)
            &&& devices.no_duplicates()
            &&& forall|d: Seq<char>| #[trigger]
                devices.contains(d) ==> exists|i: int|
                    0 <= i < n && (#[trigger] group[i]).device_name == d && group[i].last_passing != Some(
                        outcome.passing,
                    )
            &&& 0 <= k < n && table::has_key(t, group[k].id) && group[k].min_stable_seconds == 0
                && group[k].last_passing != Some(outcome.passing) && group[k].device_name.len() > 0 ==> devices.contains(
                group[k].device_name,
            )
        }),
    decreases n,
{
    if n > 0 {
        let (v, before) = after_group(t, group, outcome, now, n - 1);
        let (u, devices) = after_group(t, group, outcome, now, n);
        let seen = group[n - 1];
        shared_probes_move_their_group(t, group, outcome, now, n - 1, id, k);
        shared_probes_move_their_group(t, group, outcome, now, n - 1, seen.id, k);
        if let Some(stored) = table::lookup(v, seen.id) {
            table::amended_then_lookup(v, seen.id, after_probe(stored, seen, outcome, now), id);
        }
        assert forall|d: Seq<char>| #[trigger] devices.contains(d) implies exists|i: int|
            0 <= i < n && (#[trigger] group[i]).device_name == d && group[i].last_passing != Some(outcome.passing) by {
            if before.contains(d) {
                let i = choose|i: int|
                    0 <= i < n - 1 && (#[trigger] group[i]).device_name == d && group[i].last_passing != Some(
                        outcome.passing,
                    );
                assert(group[i].device_name == d);
            } else {
                assert(devices == before.push(seen.device_name));
                let j = choose|j: int| 0 <= j < devices.len() && devices[j] == d;
                if j < before.len() {
                    assert(before[j] == d);
                }
                assert(group[n - 1].device_name == d);
            }
        }
        if devices != before {
            assert(devices == before.push(seen.device_name));
            assert(devices[before.len() as int] == seen.device_name);
            assert forall|d: Seq<char>| before.contains(d) implies devices.contains(d) by {
                let j = choose|j: int| 0 <= j < before.len() && before[j] == d;
                assert(devices[j] == d);
            }
        }
    }
}

/// What a condition has where nothing is said: the method GET, all of the two
/// hundreds, and a probe each minute. Conditions are listed by their name.
pub proof fn conditions_have_defaults(m: String, s: String, n: u64, c: ConditionConfigModel)
    requires
        call_ensures(default_http_method, (), m),
        call_ensures(default_status_match, (), s),
        call_ensures(default_condition_poll_seconds, (), n),
    ensures
        m@ == seq!['G', 'E', 'T'],
        s@ == seq!['2', '0', '0', '-', '2', '9', '9'],
        n == 60,
        <ConditionView as Listed>::listed_name(view_of(c)) == c.name,
        <ConditionView as Listed>::listed_stamp(view_of(c)) == c.created_at_ms,
{
    reveal_strlit("GET");
    reveal_strlit("200-299");
    assert("GET"@ =~= seq!['G', 'E', 'T']);
    assert("200-299"@ =~= seq!['2', '0', '0', '-', '2', '9', '9']);
}

#[verifier::spinoff_prover]
proof fn first_marks_part_alike(a: Seq<char>, b: Seq<char>, x: Seq<char>, y: Seq<char>, mark: char)
    requires
        !a.contains(mark),
        !b.contains(mark),
        a + seq![mark] + x == b + seq![mark] + y,
    ensures
        a == b,
        x == y,
{
    let p = a + seq![mark] + x;
    let q = b + seq![mark] + y;
    if a.len() < b.len() {
        assert(p[a.len() as int] == mark);
        assert(q[a.len() as int] == b[a.len() as int]);
        assert(b.contains(mark));
    } else if b.len() < a.len() {
        assert(q[b.len() as int] == mark);
        assert(p[b.len() as int] == a[b.len() as int]);
        assert(a.contains(mark));
    }
    assert(a.len() == b.len());
    assert(p.take(a.len() as int) =~= a);
    assert(q.take(b.len() as int) =~= b);
    assert(p.skip(a.len() as int + 1) =~= x);
    assert(q.skip(b.len() as int + 1) =~= y);
}

proof fn last_parts_group(head: Seq<char>, mark: Seq<char>, part: Seq<char>, rest: Seq<char>)
    ensures
        head + mark + part + mark + rest == head + mark + (part + mark + rest),
{
    assert(head + mark + part + mark + rest =~= head + mark + (part + mark + rest));
}

/// The fields of the condition hold no record separator.
pub open spec fn separable(c: ConditionConfigModel) -> bool {
    &&& !unicode::uppercase(c.method).contains('\x1e')
    &&& !c.url.contains('\x1e')
    &&& !text::joined(header_lines(c.headers), "\x1f"@).contains('\x1e')
    &&& !or_empty(c.body).contains('\x1e')
    &&& !c.status_match.contains('\x1e')
}

proof fn parts_of_the_key(c: ConditionConfigModel)
    ensures
        ({
            let s = seq!['\x1e'];
            let h = text::joined(header_lines(c.headers), "\x1f"@);
            probe_key(c) == unicode::uppercase(c.method) + s + (c.url + s + (h + s + (or_empty(c.body) + s + (
            c.status_match + s + or_empty(c.body_contains)))))
        }),
{
    reveal_strlit("\x1e");
    assert("\x1e"@ =~= seq!['\x1e']);
    let s = "\x1e"@;
    let m = unicode::uppercase(c.method);
    let h = text::joined(header_lines(c.headers), "\x1f"@);
    let b = or_empty(c.body);
    let e = or_empty(c.body_contains);
    let t = c.status_match + s + e;
    let u = b + s + t;
    last_parts_group(m + s + c.url + s + h + s + b, s, c.status_match, e);
    last_parts_group(m + s + c.url + s + h, s, b, t);
    last_parts_group(m + s + c.url, s, h, u);
    last_parts_group(m, s, c.url, h + s + u);
}

/// Conditions share a probe only where they make the same request and judge it
/// alike: the same method, URL, headers, body, status and text looked for.
pub proof fn shared_probes_are_the_same_request(a: ConditionConfigModel, b: ConditionConfigModel)
    requires
        separable(a),
        separable(b),
        probe_key(a) == probe_key(b),
    ensures
        unicode::uppercase(a.method) == unicode::uppercase(b.method),
        a.url == b.url,
        text::joined(header_lines(a.headers), "\x1f"@) == text::joined(header_lines(b.headers), "\x1f"@),
        or_empty(a.body) == or_empty(b.body),
        a.status_match == b.status_match,
        or_empty(a.body_contains) == or_empty(b.body_contains),
{
    reveal_strlit("\x1e");
    assert("\x1e"@ =~= seq!['\x1e']);
    let s = seq!['\x1e'];
    let ha = text::joined(header_lines(a.headers), "\x1f"@);
    let hb = text::joined(header_lines(b.headers), "\x1f"@);
    let a5 = or_empty(a.body_contains);
    let b5 = or_empty(b.body_contains);
    let a4 = a.status_match + s + a5;
    let b4 = b.status_match + s + b5;
    let a3 = or_empty(a.body) + s + a4;
    let b3 = or_empty(b.body) + s + b4;
    let a2 = ha + s + a3;
    let b2 = hb + s + b3;
    let a1 = a.url + s + a2;
    let b1 = b.url + s + b2;
    parts_of_the_key(a);
    parts_of_the_key(b);
    first_marks_part_alike(unicode::uppercase(a.method), unicode::uppercase(b.method), a1, b1, '\x1e');
    first_marks_part_alike(a.url, b.url, a2, b2, '\x1e');
    first_marks_part_alike(ha, hb, a3, b3, '\x1e');
    first_marks_part_alike(or_empty(a.body), or_empty(b.body), a4, b4, '\x1e');
    first_marks_part_alike(a.status_match, b.status_match, a5, b5, '\x1e');
}

} // verus!
