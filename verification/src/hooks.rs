//! Hooks: requests that are sent when a device changes.

use vstd::prelude::*;
use vstd::string::*;

use crate::actions::{HookEvent, HookSource};
use crate::conditions;
use crate::conditions::{method_fault, validate_http_method, validate_url};
use crate::dup::Dup;
use crate::lists;
use crate::lists::{has_text, list_out, Listed};
use crate::merge;
use crate::merge::{clear_if, given_or, relabel, trim_or, upper_or};
use crate::table;
use crate::table::Table;
use crate::text;
use crate::text::{around, contains, decimal_text, replace, same, trim};
use crate::time;
use crate::time::{optional_label, stamped_id};
use crate::unicode;
use crate::unicode::{ascii_lowercase, to_uppercase};

verus! {

/// A request to send when a device changes, and what came of it.
pub struct HookConfig {
    pub id: String,
    pub name: String,
    pub enabled: bool,
    pub url: String,
    pub method: String,
    pub headers: Table<String>,
    /// What to send; where there is none, a default JSON payload is sent.
    pub body: Option<String>,
    /// Empty matches every device.
    pub device_filter: Vec<String>,
    /// Empty matches every event.
    pub event_filter: Vec<HookEvent>,
    pub created_at_ms: u128,
    pub last_fired_at_ms: Option<u128>,
    pub last_event: Option<HookEvent>,
    pub last_status_code: Option<u16>,
    pub last_error: Option<String>,
}

/// The contents of `HookConfig`.
#[verifier::ext_equal]
pub struct HookConfigModel {
    pub id: Seq<char>,
    pub name: Seq<char>,
    pub enabled: bool,
    pub url: Seq<char>,
    pub method: Seq<char>,
    pub headers: Seq<(Seq<char>, Seq<char>)>,
    pub body: Option<Seq<char>>,
    pub device_filter: Seq<Seq<char>>,
    pub event_filter: Seq<HookEvent>,
    pub created_at_ms: u128,
    pub last_fired_at_ms: Option<u128>,
    pub last_event: Option<HookEvent>,
    pub last_status_code: Option<u16>,
    pub last_error: Option<Seq<char>>,
}

impl DeepView for HookConfig {
    type V = HookConfigModel;

    open spec fn deep_view(&self) -> HookConfigModel {
        HookConfigModel {
            id: self.id.deep_view(),
            name: self.name.deep_view(),
            enabled: self.enabled.deep_view(),
            url: self.url.deep_view(),
            method: self.method.deep_view(),
            headers: self.headers.deep_view(),
            body: self.body.deep_view(),
            device_filter: self.device_filter.deep_view(),
            event_filter: self.event_filter.deep_view(),
            created_at_ms: self.created_at_ms.deep_view(),
            last_fired_at_ms: self.last_fired_at_ms.deep_view(),
            last_event: self.last_event.deep_view(),
            last_status_code: self.last_status_code.deep_view(),
            last_error: self.last_error.deep_view(),
        }
    }
}

impl Dup for HookConfig {
    fn dup(&self) -> (r: Self) {
        HookConfig {
            id: self.id.dup(),
            name: self.name.dup(),
            enabled: self.enabled.dup(),
            url: self.url.dup(),
            method: self.method.dup(),
            headers: self.headers.dup(),
            body: self.body.dup(),
            device_filter: self.device_filter.dup(),
            event_filter: self.event_filter.dup(),
            created_at_ms: self.created_at_ms.dup(),
            last_fired_at_ms: self.last_fired_at_ms.dup(),
            last_event: self.last_event.dup(),
            last_status_code: self.last_status_code.dup(),
            last_error: self.last_error.dup(),
        }
    }
}

/// What a new hook is made from.
pub struct CreateHookRequest {
    pub name: String,
    pub enabled: bool,
    pub url: String,
    pub method: String,
    pub headers: Table<String>,
    pub body: Option<String>,
    pub device_filter: Vec<String>,
    pub event_filter: Vec<HookEvent>,
}

/// The contents of `CreateHookRequest`.
#[verifier::ext_equal]
pub struct CreateHookRequestModel {
    pub name: Seq<char>,
    pub enabled: bool,
    pub url: Seq<char>,
    pub method: Seq<char>,
    pub headers: Seq<(Seq<char>, Seq<char>)>,
    pub body: Option<Seq<char>>,
    pub device_filter: Seq<Seq<char>>,
    pub event_filter: Seq<HookEvent>,
}

impl DeepView for CreateHookRequest {
    type V = CreateHookRequestModel;

    open spec fn deep_view(&self) -> CreateHookRequestModel {
        CreateHookRequestModel {
            name: self.name.deep_view(),
            enabled: self.enabled.deep_view(),
            url: self.url.deep_view(),
            method: self.method.deep_view(),
            headers: self.headers.deep_view(),
            body: self.body.deep_view(),
            device_filter: self.device_filter.deep_view(),
            event_filter: self.event_filter.deep_view(),
        }
    }
}

impl Dup for CreateHookRequest {
    fn dup(&self) -> (r: Self) {
        CreateHookRequest {
            name: self.name.dup(),
            enabled: self.enabled.dup(),
            url: self.url.dup(),
            method: self.method.dup(),
            headers: self.headers.dup(),
            body: self.body.dup(),
            device_filter: self.device_filter.dup(),
            event_filter: self.event_filter.dup(),
        }
    }
}

/// What is to change in a hook; what is `None` stays.
pub struct UpdateHookRequest {
    pub name: Option<String>,
    pub enabled: Option<bool>,
    pub url: Option<String>,
    pub method: Option<String>,
    pub headers: Option<Table<String>>,
    pub body: Option<Option<String>>,
    pub device_filter: Option<Vec<String>>,
    pub event_filter: Option<Vec<HookEvent>>,
}

/// The contents of `UpdateHookRequest`.
#[verifier::ext_equal]
pub struct UpdateHookRequestModel {
    pub name: Option<Seq<char>>,
    pub enabled: Option<bool>,
    pub url: Option<Seq<char>>,
    pub method: Option<Seq<char>>,
    pub headers: Option<Seq<(Seq<char>, Seq<char>)>>,
    pub body: Option<Option<Seq<char>>>,
    pub device_filter: Option<Seq<Seq<char>>>,
    pub event_filter: Option<Seq<HookEvent>>,
}

impl DeepView for UpdateHookRequest {
    type V = UpdateHookRequestModel;

    open spec fn deep_view(&self) -> UpdateHookRequestModel {
        UpdateHookRequestModel {
            name: self.name.deep_view(),
            enabled: self.enabled.deep_view(),
            url: self.url.deep_view(),
            method: self.method.deep_view(),
            headers: self.headers.deep_view(),
            body: self.body.deep_view(),
            device_filter: self.device_filter.deep_view(),
            event_filter: self.event_filter.deep_view(),
        }
    }
}

impl Dup for UpdateHookRequest {
    fn dup(&self) -> (r: Self) {
        UpdateHookRequest {
            name: self.name.dup(),
            enabled: self.enabled.dup(),
            url: self.url.dup(),
            method: self.method.dup(),
            headers: self.headers.dup(),
            body: self.body.dup(),
            device_filter: self.device_filter.dup(),
            event_filter: self.event_filter.dup(),
        }
    }
}

/// A hook as callers see it.
pub struct HookView {
    pub id: String,
    pub name: String,
    pub enabled: bool,
    pub url: String,
    pub method: String,
    pub headers: Table<String>,
    pub body: Option<String>,
    pub device_filter: Vec<String>,
    pub event_filter: Vec<HookEvent>,
    pub created_at_ms: u128,
    pub last_fired_at_ms: Option<u128>,
    pub last_event: Option<HookEvent>,
    pub last_status_code: Option<u16>,
    pub last_error: Option<String>,
}

/// The contents of `HookView`.
#[verifier::ext_equal]
pub struct HookViewModel {
    pub id: Seq<char>,
    pub name: Seq<char>,
    pub enabled: bool,
    pub url: Seq<char>,
    pub method: Seq<char>,
    pub headers: Seq<(Seq<char>, Seq<char>)>,
    pub body: Option<Seq<char>>,
    pub device_filter: Seq<Seq<char>>,
    pub event_filter: Seq<HookEvent>,
    pub created_at_ms: u128,
    pub last_fired_at_ms: Option<u128>,
    pub last_event: Option<HookEvent>,
    pub last_status_code: Option<u16>,
    pub last_error: Option<Seq<char>>,
}

impl DeepView for HookView {
    type V = HookViewModel;

    open spec fn deep_view(&self) -> HookViewModel {
        HookViewModel {
            id: self.id.deep_view(),
            name: self.name.deep_view(),
            enabled: self.enabled.deep_view(),
            url: self.url.deep_view(),
            method: self.method.deep_view(),
            headers: self.headers.deep_view(),
            body: self.body.deep_view(),
            device_filter: self.device_filter.deep_view(),
            event_filter: self.event_filter.deep_view(),
            created_at_ms: self.created_at_ms.deep_view(),
            last_fired_at_ms: self.last_fired_at_ms.deep_view(),
            last_event: self.last_event.deep_view(),
            last_status_code: self.last_status_code.deep_view(),
            last_error: self.last_error.deep_view(),
        }
    }
}

impl Dup for HookView {
    fn dup(&self) -> (r: Self) {
        HookView {
            id: self.id.dup(),
            name: self.name.dup(),
            enabled: self.enabled.dup(),
            url: self.url.dup(),
            method: self.method.dup(),
            headers: self.headers.dup(),
            body: self.body.dup(),
            device_filter: self.device_filter.dup(),
            event_filter: self.event_filter.dup(),
            created_at_ms: self.created_at_ms.dup(),
            last_fired_at_ms: self.last_fired_at_ms.dup(),
            last_event: self.last_event.dup(),
            last_status_code: self.last_status_code.dup(),
            last_error: self.last_error.dup(),
        }
    }
}

/// What the placeholders of a hook stand for.
pub struct HookTemplateContext {
    pub device: String,
    pub nickname: String,
    pub model: String,
    pub event: HookEvent,
    pub source: HookSource,
    pub previous_on: Option<bool>,
    pub new_on: Option<bool>,
    pub timestamp_ms: u128,
}

/// The contents of `HookTemplateContext`.
#[verifier::ext_equal]
pub struct HookTemplateContextModel {
    pub device: Seq<char>,
    pub nickname: Seq<char>,
    pub model: Seq<char>,
    pub event: HookEvent,
    pub source: HookSource,
    pub previous_on: Option<bool>,
    pub new_on: Option<bool>,
    pub timestamp_ms: u128,
}

impl DeepView for HookTemplateContext {
    type V = HookTemplateContextModel;

    open spec fn deep_view(&self) -> HookTemplateContextModel {
        HookTemplateContextModel {
            device: self.device.deep_view(),
            nickname: self.nickname.deep_view(),
            model: self.model.deep_view(),
            event: self.event.deep_view(),
            source: self.source.deep_view(),
            previous_on: self.previous_on.deep_view(),
            new_on: self.new_on.deep_view(),
            timestamp_ms: self.timestamp_ms.deep_view(),
        }
    }
}

impl Dup for HookTemplateContext {
    fn dup(&self) -> (r: Self) {
        HookTemplateContext {
            device: self.device.dup(),
            nickname: self.nickname.dup(),
            model: self.model.dup(),
            event: self.event.dup(),
            source: self.source.dup(),
            previous_on: self.previous_on.dup(),
            new_on: self.new_on.dup(),
            timestamp_ms: self.timestamp_ms.dup(),
        }
    }
}

/// A request as it is sent.
pub struct HookRequest {
    pub method: String,
    pub url: String,
    pub headers: Vec<(String, String)>,
    pub body: String,
}

/// The contents of `HookRequest`.
#[verifier::ext_equal]
pub struct HookRequestModel {
    pub method: Seq<char>,
    pub url: Seq<char>,
    pub headers: Seq<(Seq<char>, Seq<char>)>,
    pub body: Seq<char>,
}

impl DeepView for HookRequest {
    type V = HookRequestModel;

    open spec fn deep_view(&self) -> HookRequestModel {
        HookRequestModel {
            method: self.method.deep_view(),
            url: self.url.deep_view(),
            headers: self.headers.deep_view(),
            body: self.body.deep_view(),
        }
    }
}

impl Dup for HookRequest {
    fn dup(&self) -> (r: Self) {
        HookRequest {
            method: self.method.dup(),
            url: self.url.dup(),
            headers: self.headers.dup(),
            body: self.body.dup(),
        }
    }
}

/// A hook as callers see it: field by field what it is.
pub open spec fn view_of(h: HookConfigModel) -> HookViewModel {
    HookViewModel {
        id: h.id,
        name: h.name,
        enabled: h.enabled,
        url: h.url,
        method: h.method,
        headers: h.headers,
        body: h.body,
        device_filter: h.device_filter,
        event_filter: h.event_filter,
        created_at_ms: h.created_at_ms,
        last_fired_at_ms: h.last_fired_at_ms,
        last_event: h.last_event,
        last_status_code: h.last_status_code,
        last_error: h.last_error,
    }
}

/// A hook as callers see it.
pub fn hook_view(hook: &HookConfig) -> (v: HookView)
    ensures
        v.deep_view() == view_of(hook.deep_view()),
{
    HookView {
        id: hook.id.dup(),
        name: hook.name.dup(),
        enabled: hook.enabled.dup(),
        url: hook.url.dup(),
        method: hook.method.dup(),
        headers: hook.headers.dup(),
        body: hook.body.dup(),
        device_filter: hook.device_filter.dup(),
        event_filter: hook.event_filter.dup(),
        created_at_ms: hook.created_at_ms.dup(),
        last_fired_at_ms: hook.last_fired_at_ms.dup(),
        last_event: hook.last_event.dup(),
        last_status_code: hook.last_status_code.dup(),
        last_error: hook.last_error.dup(),
    }
}

impl Listed for HookView {
    open spec fn listed_name(m: HookViewModel) -> Seq<char> {
        m.name
    }

    open spec fn listed_stamp(m: HookViewModel) -> u128 {
        m.created_at_ms
    }

    fn name_of(&self) -> (s: &str) {
        self.name.as_str()
    }

    fn stamp_of(&self) -> (n: u128) {
        self.created_at_ms
    }
}

/// The values of a table, each as callers see it.
pub open spec fn views_of(t: Seq<(Seq<char>, HookConfigModel)>) -> Seq<HookViewModel> {
    t.map_values(|e: (Seq<char>, HookConfigModel)| view_of(e.1))
}

/// All hooks as callers see them, by name and then by age.
pub fn list_hooks(hooks: &Table<HookConfig>) -> (r: Vec<HookView>)
    ensures
        r.deep_view() == lists::listing::<HookView>(views_of(hooks.deep_view())),
{
    let mut views: Vec<HookView> = Vec::new();
    let mut i: usize = 0;
    while i < hooks.entries.len()
        invariant
            i <= hooks.entries@.len(),
            views@.len() == i,
            forall|j: int|
                0 <= j < i ==> (#[trigger] views@[j]).deep_view() == view_of(hooks.entries@[j].1.deep_view()),
        decreases hooks.entries@.len() - i,
    {
        views.push(hook_view(&hooks.entries[i].1));
        i = i + 1;
    }
    proof {
        assert(views.deep_view() =~= views_of(hooks.deep_view()));
    }
    list_out(views)
}

/// An id for a hook made at `now_ms`, told apart by a count.
pub fn new_hook_id(now_ms: u128, seq: u64) -> (id: String)
    ensures
        id@ == time::stamped("h"@, now_ms, seq),
{
    stamped_id("h", now_ms, seq)
}

// ---------- Making, changing and removing hooks ----------

/// The hook that a request makes, or why it makes none.
pub open spec fn made(request: CreateHookRequestModel, id: Seq<char>, now: u128) -> Result<HookConfigModel, Seq<char>> {
    let name = text::trimmed(request.name);
    if name.len() == 0 {
        Err("hook name is required"@)
    } else if let Err(m) = conditions::method_check(request.method) {
        Err(m)
    } else if let Err(m) = conditions::url_check(request.url) {
        Err(m)
    } else {
        Ok(
            HookConfigModel {
                id,
                name,
                enabled: request.enabled,
                url: request.url,
                method: unicode::uppercase(request.method),
                headers: request.headers,
                body: time::label_in(request.body),
                device_filter: request.device_filter,
                event_filter: request.event_filter,
                created_at_ms: now,
                last_fired_at_ms: None,
                last_event: None,
                last_status_code: None,
                last_error: None,
            },
        )
    }
}

/// Makes a hook and stores it under its id.
pub fn create_hook(hooks: &mut Table<HookConfig>, request: CreateHookRequest, id: String, now: u128) -> (r: Result<
    (),
    String,
>)
    ensures
        match r {
            Ok(_) => made(request.deep_view(), id@, now) is Ok && final(hooks).deep_view() == table::put(
                old(hooks).deep_view(),
                id@,
                made(request.deep_view(), id@, now)->Ok_0,
            ),
            Err(m) => made(request.deep_view(), id@, now) == Err::<HookConfigModel, Seq<char>>(m@)
                && final(hooks).deep_view() == old(hooks).deep_view(),
        },
        table::sorted(old(hooks).deep_view()) ==> table::sorted(final(hooks).deep_view()),
{
    let name = trim(request.name.as_str());
    if name.as_str().is_empty() {
        return Err("hook name is required".to_owned());
    }
    if let Err(m) = validate_http_method(request.method.as_str()) {
        return Err(m);
    }
    if let Err(m) = validate_url(request.url.as_str()) {
        return Err(m);
    }
    let hook = HookConfig {
        id: id.clone(),
        name,
        enabled: request.enabled,
        url: request.url,
        method: to_uppercase(request.method.as_str()),
        headers: request.headers,
        body: optional_label(request.body),
        device_filter: request.device_filter,
        event_filter: request.event_filter,
        created_at_ms: now,
        last_fired_at_ms: None,
        last_event: None,
        last_status_code: None,
        last_error: None,
    };
    hooks.insert(id, hook);
    Ok(())
}

/// The hook with the request's changes; a new URL clears the last error.
pub open spec fn changed(h: HookConfigModel, r: UpdateHookRequestModel) -> HookConfigModel {
    HookConfigModel {
        name: merge::trimmed_or(r.name, h.name),
        url: merge::either(r.url, h.url),
        last_error: merge::cleared_if(r.url is Some, h.last_error),
        method: merge::uppercase_or(r.method, h.method),
        headers: merge::either(r.headers, h.headers),
        body: merge::label_or(r.body, h.body),
        device_filter: merge::either(r.device_filter, h.device_filter),
        event_filter: merge::either(r.event_filter, h.event_filter),
        enabled: merge::either(r.enabled, h.enabled),
        ..h
    }
}

fn apply_update(hook: HookConfig, request: UpdateHookRequest) -> (r: HookConfig)
    ensures
        r.deep_view() == changed(hook.deep_view(), request.deep_view()),
{
    let new_url = request.url.is_some();
    HookConfig {
        id: hook.id,
        name: trim_or(request.name, hook.name),
        enabled: given_or(request.enabled, hook.enabled),
        url: given_or(request.url, hook.url),
        method: upper_or(request.method, hook.method),
        headers: given_or(request.headers, hook.headers),
        body: relabel(request.body, hook.body),
        device_filter: given_or(request.device_filter, hook.device_filter),
        event_filter: given_or(request.event_filter, hook.event_filter),
        created_at_ms: hook.created_at_ms,
        last_fired_at_ms: hook.last_fired_at_ms,
        last_event: hook.last_event,
        last_status_code: hook.last_status_code,
        last_error: clear_if(new_url, hook.last_error),
    }
}

/// The table after a request to change the hook `id`, or why it stays as it is.
pub open spec fn updated(
    t: Seq<(Seq<char>, HookConfigModel)>,
    id: Seq<char>,
    r: UpdateHookRequestModel,
) -> Result<Seq<(Seq<char>, HookConfigModel)>, Seq<char>> {
    if r.method is Some && conditions::method_check(r.method->0) is Err {
        Err(conditions::method_check(r.method->0)->Err_0)
    } else if r.url is Some && conditions::url_check(r.url->0) is Err {
        Err(conditions::url_check(r.url->0)->Err_0)
    } else {
        match table::lookup(t, id) {
            None => Err("unknown hook '"@ + id + "'"@),
            Some(h) => if r.name is Some && text::trimmed(r.name->0).len() == 0 {
                Err("hook name cannot be empty"@)
            } else {
                Ok(table::amended(t, id, changed(h, r)))
            },
        }
    }
}

/// Changes the hook `id` as requested; where that fails, nothing changes.
pub fn update_hook(hooks: &mut Table<HookConfig>, id: &str, request: UpdateHookRequest) -> (r: Result<(), String>)
    ensures
        match r {
            Ok(_) => updated(old(hooks).deep_view(), id@, request.deep_view()) == Ok::<
                Seq<(Seq<char>, HookConfigModel)>,
                Seq<char>,
            >(final(hooks).deep_view()),
            Err(m) => updated(old(hooks).deep_view(), id@, request.deep_view()) == Err::<
                Seq<(Seq<char>, HookConfigModel)>,
                Seq<char>,
            >(m@) && final(hooks).deep_view() == old(hooks).deep_view(),
        },
        table::sorted(old(hooks).deep_view()) ==> table::sorted(final(hooks).deep_view()),
{
    if let Some(method) = &request.method {
        if let Err(m) = validate_http_method(method.as_str()) {
            return Err(m);
        }
    }
    if let Some(url) = &request.url {
        if let Err(m) = validate_url(url.as_str()) {
            return Err(m);
        }
    }
    let hook = match hooks.get(id) {
        Some(h) => h.dup(),
        None => {
            return Err(around("unknown hook '", id, "'"));
        },
    };
    if let Some(name) = &request.name {
        if trim(name.as_str()).as_str().is_empty() {
            return Err("hook name cannot be empty".to_owned());
        }
    }
    hooks.amend(id, apply_update(hook, request));
    Ok(())
}

/// Removes the hook `id`.
pub fn delete_hook(hooks: &mut Table<HookConfig>, id: &str) -> (r: Result<(), String>)
    ensures
        match r {
            Ok(_) => table::has_key(old(hooks).deep_view(), id@),
            Err(m) => !table::has_key(old(hooks).deep_view(), id@) && m@ == "unknown hook '"@ + id@ + "'"@,
        },
        final(hooks).deep_view() == table::without(old(hooks).deep_view(), id@),
        table::sorted(old(hooks).deep_view()) ==> table::sorted(final(hooks).deep_view()),
{
    if !hooks.remove(id) {
        return Err(around("unknown hook '", id, "'"));
    }
    Ok(())
}

// ---------- Which hooks an event sends ----------

/// The hook is sent for the event: it is enabled, and each filter is empty or
/// names what happened.
pub open spec fn matches(h: HookConfigModel, device: Seq<char>, event: HookEvent) -> bool {
    &&& h.enabled
    &&& h.device_filter.len() == 0 || h.device_filter.contains(device)
    &&& h.event_filter.len() == 0 || h.event_filter.contains(event)
}

fn has_event(events: &Vec<HookEvent>, event: HookEvent) -> (b: bool)
    ensures
        b == events.deep_view().contains(event),
{
    let mut i: usize = 0;
    while i < events.len()
        invariant
            i <= events@.len(),
            forall|j: int| 0 <= j < i ==> #[trigger] events.deep_view()[j] != event,
        decreases events@.len() - i,
    {
        proof {
            assert(events.deep_view()[i as int] == events@[i as int]);
        }
        if events[i] == event {
            return true;
        }
        i = i + 1;
    }
    false
}

/// Whether the hook is sent for the event.
pub fn hook_matches(hook: &HookConfig, device: &str, event: HookEvent) -> (b: bool)
    ensures
        b == matches(hook.deep_view(), device@, event),
{
    if !hook.enabled {
        return false;
    }
    if hook.device_filter.len() > 0 && !has_text(&hook.device_filter, device) {
        return false;
    }
    if hook.event_filter.len() > 0 && !has_event(&hook.event_filter, event) {
        return false;
    }
    true
}

/// Which hooks an event of a device sends.
pub open spec fn sent_for(device: Seq<char>, event: HookEvent) -> spec_fn(HookConfigModel) -> bool {
    |h: HookConfigModel| matches(h, device, event)
}

/// The hooks of a table that are sent for the event.
pub open spec fn hooks_for(
    t: Seq<(Seq<char>, HookConfigModel)>,
    device: Seq<char>,
    event: HookEvent,
) -> Seq<HookConfigModel> {
    t.map_values(|e: (Seq<char>, HookConfigModel)| e.1).filter(sent_for(device, event))
}

/// The hooks that are sent for the event.
pub fn matching_hooks(hooks: &Table<HookConfig>, device: &str, event: HookEvent) -> (r: Vec<HookConfig>)
    ensures
        r.deep_view() == hooks_for(hooks.deep_view(), device@, event),
{
    let ghost t = hooks.deep_view();
    let ghost values = t.map_values(|e: (Seq<char>, HookConfigModel)| e.1);
    let ghost keep = sent_for(device@, event);
    let mut found: Vec<HookConfig> = Vec::new();
    proof {
        reveal(Seq::filter);
        assert(found.deep_view() =~= values.take(0).filter(keep));
    }
    let mut i: usize = 0;
    while i < hooks.entries.len()
        invariant
            i <= hooks.entries@.len(),
            t == hooks.deep_view(),
            values == t.map_values(|e: (Seq<char>, HookConfigModel)| e.1),
            keep == sent_for(device@, event),
            found.deep_view() == values.take(i as int).filter(keep),
        decreases hooks.entries@.len() - i,
    {
        let hook = &hooks.entries[i].1;
        let ghost had = found.deep_view();
        proof {
            assert(values[i as int] == hook.deep_view());
            lists::filter_step(values, keep, i as int);
        }
        if hook_matches(hook, device, event) {
            found.push(hook.dup());
            proof {
                assert(found.deep_view() =~= had.push(hook.deep_view()));
            }
        }
        i = i + 1;
    }
    proof {
        assert(values.take(values.len() as int) =~= values);
    }
    found
}

/// A hook without filters is sent for every event of every device, and a
/// disabled one for none.
pub proof fn open_hooks_match_everything(h: HookConfigModel, device: Seq<char>, event: HookEvent)
    ensures
        h.enabled && h.device_filter.len() == 0 && h.event_filter.len() == 0 ==> matches(h, device, event),
        !h.enabled ==> !matches(h, device, event),
{
}

// ---------- What a hook says ----------

/// The name of an event.
pub open spec fn event_name(event: HookEvent) -> Seq<char> {
    match event {
        HookEvent::On => "on"@,
        HookEvent::Off => "off"@,
        HookEvent::Online => "online"@,
        HookEvent::Offline => "offline"@,
    }
}

/// The name of an event.
pub fn hook_event_str(event: HookEvent) -> (s: &'static str)
    ensures
        s@ == event_name(event),
{
    match event {
        HookEvent::On => "on",
        HookEvent::Off => "off",
        HookEvent::Online => "online",
        HookEvent::Offline => "offline",
    }
}

/// The name of what brought an event about.
pub open spec fn source_name(source: HookSource) -> Seq<char> {
    match source {
        HookSource::Manual => "manual"@,
        HookSource::Schedule => "schedule"@,
        HookSource::Condition => "condition"@,
        HookSource::External => "external"@,
        HookSource::Discovery => "discovery"@,
    }
}

/// The name of what brought an event about.
pub fn hook_source_str(source: HookSource) -> (s: &'static str)
    ensures
        s@ == source_name(source),
{
    match source {
        HookSource::Manual => "manual",
        HookSource::Schedule => "schedule",
        HookSource::Condition => "condition",
        HookSource::External => "external",
        HookSource::Discovery => "discovery",
    }
}

/// A flag in words; nothing where it is not known.
pub open spec fn flag_text(value: Option<bool>) -> Seq<char> {
    match value {
        Some(true) => "true"@,
        Some(false) => "false"@,
        None => ""@,
    }
}

/// A flag in words; nothing where it is not known.
pub fn optional_bool_str(value: Option<bool>) -> (s: String)
    ensures
        s@ == flag_text(value),
{
    match value {
        Some(true) => "true".to_owned(),
        Some(false) => "false".to_owned(),
        None => "".to_owned(),
    }
}

/// The names of the placeholders, each with what it stands for.
pub open spec fn vars_of(c: HookTemplateContextModel) -> Seq<(Seq<char>, Seq<char>)> {
    seq![
        ("device"@, c.device),
        ("nickname"@, c.nickname),
        ("model"@, c.model),
        ("event"@, event_name(c.event)),
        ("source"@, source_name(c.source)),
        ("previous_on"@, flag_text(c.previous_on)),
        ("new_on"@, flag_text(c.new_on)),
        ("timestamp_ms"@, text::decimal(c.timestamp_ms as nat)),
    ]
}

/// The placeholder with that name.
pub open spec fn placeholder(key: Seq<char>) -> Seq<char> {
    "{{"@ + key + "}}"@
}

/// `input` with the first `n` placeholders replaced, one name after the other,
/// each wherever it stands by then.
pub open spec fn rendered(input: Seq<char>, vars: Seq<(Seq<char>, Seq<char>)>, n: int) -> Seq<char>
    decreases n,
{
    if n <= 0 || n > vars.len() {
        input
    } else {
        let before = rendered(input, vars, n - 1);
        let mark = placeholder(vars[n - 1].0);
        if text::holds(before, mark) {
            text::replaced(before, mark, vars[n - 1].1)
        } else {
            before
        }
    }
}

/// `input` with its placeholders replaced.
pub fn render_hook_template(input: &str, vars: &Vec<(&'static str, String)>) -> (r: String)
    ensures
        r@ == rendered(input@, vars.deep_view(), vars@.len() as int),
{
    let ghost all = vars.deep_view();
    let mut out = input.to_owned();
    let mut i: usize = 0;
    while i < vars.len()
        invariant
            i <= vars@.len(),
            all == vars.deep_view(),
            out@ == rendered(input@, all, i as int),
        decreases vars@.len() - i,
    {
        proof {
            assert(all[i as int] == (vars@[i as int].0@, vars@[i as int].1@));
        }
        let mark = around("{{", vars[i].0, "}}");
        if contains(out.as_str(), mark.as_str()) {
            out = replace(out.as_str(), mark.as_str(), vars[i].1.as_str());
        }
        i = i + 1;
    }
    out
}

/// A text without known placeholders stays as it is, whatever else it holds in
/// braces.
pub proof fn unknown_placeholders_stay(input: Seq<char>, vars: Seq<(Seq<char>, Seq<char>)>, n: int)
    requires
        forall|i: int| 0 <= i < vars.len() ==> !text::holds(input, placeholder((#[trigger] vars[i]).0)),
    ensures
        rendered(input, vars, n) == input,
    decreases n,
{
    if 0 < n <= vars.len() {
        unknown_placeholders_stay(input, vars, n - 1);
        assert(!text::holds(input, placeholder(vars[n - 1].0)));
    }
}

/// A value of a JSON object that holds no list and no object.
pub enum JsonField {
    Text(String),
    Flag(Option<bool>),
    Whole(u64),
}

/// What a `JsonField` holds.
#[verifier::ext_equal]
pub enum JsonFieldModel {
    Text(Seq<char>),
    Flag(Option<bool>),
    Whole(u64),
}

impl DeepView for JsonField {
    type V = JsonFieldModel;

    open spec fn deep_view(&self) -> JsonFieldModel {
        match self {
            JsonField::Text(s) => JsonFieldModel::Text(s@),
            JsonField::Flag(b) => JsonFieldModel::Flag(*b),
            JsonField::Whole(n) => JsonFieldModel::Whole(*n),
        }
    }
}

/// The text that `serde_json` writes for an object with these fields.
pub uninterp spec fn object_json(fields: Seq<(Seq<char>, JsonFieldModel)>) -> Seq<char>;

/// `serde_json::Value::to_string` of an object with these fields, a flag that is
/// not known being `null`.
#[verifier::external_body]
fn object_text(fields: &Vec<(&'static str, JsonField)>) -> (s: String)
    ensures
        s@ == object_json(fields.deep_view()),
{
    let mut object = serde_json::Map::new();
    for (key, field) in fields {
        let value = match field {
            JsonField::Text(text) => serde_json::Value::from(text.as_str()),
            JsonField::Flag(flag) => serde_json::Value::from(*flag),
            JsonField::Whole(number) => serde_json::Value::from(*number),
        };
        object.insert(key.to_string(), value);
    }
    serde_json::Value::Object(object).to_string()
}

/// What the default payload holds. The time is given in 64 bits.
pub open spec fn payload_of(c: HookTemplateContextModel) -> Seq<(Seq<char>, JsonFieldModel)> {
    seq![
        ("device"@, JsonFieldModel::Text(c.device)),
        ("nickname"@, JsonFieldModel::Text(c.nickname)),
        ("model"@, JsonFieldModel::Text(c.model)),
        ("event"@, JsonFieldModel::Text(event_name(c.event))),
        ("source"@, JsonFieldModel::Text(source_name(c.source))),
        ("previous_on"@, JsonFieldModel::Flag(c.previous_on)),
        ("new_on"@, JsonFieldModel::Flag(c.new_on)),
        ("timestamp_ms"@, JsonFieldModel::Whole((c.timestamp_ms % 0x1_0000_0000_0000_0000) as u64)),
    ]
}

impl HookTemplateContext {
    /// The names of the placeholders, each with what it stands for.
    pub fn vars(&self) -> (v: Vec<(&'static str, String)>)
        ensures
            v.deep_view() == vars_of(self.deep_view()),
    {
        let mut v: Vec<(&'static str, String)> = Vec::new();
        v.push(("device", self.device.clone()));
        v.push(("nickname", self.nickname.clone()));
        v.push(("model", self.model.clone()));
        v.push(("event", hook_event_str(self.event).to_owned()));
        v.push(("source", hook_source_str(self.source).to_owned()));
        v.push(("previous_on", optional_bool_str(self.previous_on)));
        v.push(("new_on", optional_bool_str(self.new_on)));
        v.push(("timestamp_ms", decimal_text(self.timestamp_ms)));
        proof {
            assert(v.deep_view() =~= vars_of(self.deep_view()));
        }
        v
    }

    /// `input` with its placeholders replaced.
    pub fn render(&self, input: &str) -> (r: String)
        ensures
            r@ == rendered(input@, vars_of(self.deep_view()), 8),
    {
        let vars = self.vars();
        proof {
            assert(vars.deep_view().len() == 8);
        }
        render_hook_template(input, &vars)
    }

    /// What the default payload holds.
    pub fn default_payload_json(&self) -> (v: Vec<(&'static str, JsonField)>)
        ensures
            v.deep_view() == payload_of(self.deep_view()),
    {
        let stamp: u64 = (self.timestamp_ms % 0x1_0000_0000_0000_0000) as u64;
        let mut v: Vec<(&'static str, JsonField)> = Vec::new();
        v.push(("device", JsonField::Text(self.device.clone())));
        v.push(("nickname", JsonField::Text(self.nickname.clone())));
        v.push(("model", JsonField::Text(self.model.clone())));
        v.push(("event", JsonField::Text(hook_event_str(self.event).to_owned())));
        v.push(("source", JsonField::Text(hook_source_str(self.source).to_owned())));
        v.push(("previous_on", JsonField::Flag(self.previous_on)));
        v.push(("new_on", JsonField::Flag(self.new_on)));
        v.push(("timestamp_ms", JsonField::Whole(stamp)));
        proof {
            assert(v.deep_view() =~= payload_of(self.deep_view()));
        }
        v
    }
}

/// What a hook is tried out with.
pub open spec fn trial_context(now: u128) -> HookTemplateContextModel {
    HookTemplateContextModel {
        device: "test"@,
        nickname: "Test Device"@,
        model: "p110"@,
        event: HookEvent::On,
        source: HookSource::Manual,
        previous_on: Some(false),
        new_on: Some(true),
        timestamp_ms: now,
    }
}

/// What a hook is tried out with.
pub fn test_context(now: u128) -> (c: HookTemplateContext)
    ensures
        c.deep_view() == trial_context(now),
{
    HookTemplateContext {
        device: "test".to_owned(),
        nickname: "Test Device".to_owned(),
        model: "p110".to_owned(),
        event: HookEvent::On,
        source: HookSource::Manual,
        previous_on: Some(false),
        new_on: Some(true),
        timestamp_ms: now,
    }
}

// ---------- Sending a hook ----------

/// The header's name is that of the content type, in whatever case.
pub open spec fn names_content_type(key: Seq<char>) -> bool {
    key.map_values(|c: char| unicode::ascii_lower(c)) == "content-type"@
}

/// The headers of a request: those of the hook, with their placeholders
/// replaced, and the content type of the default payload where that is sent and
/// the hook names none.
pub open spec fn sent_headers(h: HookConfigModel, c: HookTemplateContextModel) -> Seq<(Seq<char>, Seq<char>)> {
    let own = h.headers.map_values(|e: (Seq<char>, Seq<char>)| (e.0, rendered(e.1, vars_of(c), 8)));
    if h.body is None && !(exists|i: int| 0 <= i < h.headers.len() && names_content_type((#[trigger] h.headers[i]).0)) {
        own.push(("content-type"@, "application/json"@))
    } else {
        own
    }
}

/// The request that a hook sends; none if its method is none.
pub open spec fn sent_request(h: HookConfigModel, c: HookTemplateContextModel) -> Option<HookRequestModel> {
    if !conditions::method_usable(h.method) {
        None
    } else {
        Some(
            HookRequestModel {
                method: unicode::uppercase(h.method),
                url: rendered(h.url, vars_of(c), 8),
                headers: sent_headers(h, c),
                body: match h.body {
                    Some(body) => rendered(body, vars_of(c), 8),
                    None => object_json(payload_of(c)),
                },
            },
        )
    }
}

/// The request that a hook sends; fails where its method is none.
pub fn hook_request(hook: &HookConfig, context: &HookTemplateContext) -> (r: Result<HookRequest, String>)
    ensures
        match r {
            Ok(request) => sent_request(hook.deep_view(), context.deep_view()) == Some(request.deep_view()),
            Err(m) => sent_request(hook.deep_view(), context.deep_view()) is None && m@ == "invalid method: "@
                + "invalid HTTP method"@,
        },
{
    if let Some(fault) = method_fault(hook.method.as_str()) {
        let mut m = "invalid method: ".to_owned();
        m.append(fault.as_str());
        return Err(m);
    }
    let ghost own = hook.headers.deep_view();
    let ghost c = context.deep_view();
    let mut headers: Vec<(String, String)> = Vec::new();
    let mut content_type_set = false;
    let mut i: usize = 0;
    while i < hook.headers.entries.len()
        invariant
            i <= hook.headers.entries@.len(),
            own == hook.headers.deep_view(),
            c == context.deep_view(),
            headers@.len() == i,
            forall|j: int|
                0 <= j < i ==> (#[trigger] headers@[j]).deep_view() == (own[j].0, rendered(own[j].1, vars_of(c), 8)),
            content_type_set == (exists|j: int| 0 <= j < i && names_content_type((#[trigger] own[j]).0)),
        decreases hook.headers.entries@.len() - i,
    {
        let header = &hook.headers.entries[i];
        proof {
            assert(own[i as int] == (header.0@, header.1@));
        }
        if same(ascii_lowercase(header.0.as_str()).as_str(), "content-type") {
            content_type_set = true;
            proof {
                assert(names_content_type(own[i as int].0));
            }
        }
        headers.push((header.0.clone(), context.render(header.1.as_str())));
        i = i + 1;
    }
    let body = match &hook.body {
        Some(body) => context.render(body.as_str()),
        None => object_text(&context.default_payload_json()),
    };
    if !content_type_set && hook.body.is_none() {
        headers.push(("content-type".to_owned(), "application/json".to_owned()));
    }
    proof {
        assert(headers.deep_view() =~= sent_headers(hook.deep_view(), c));
    }
    Ok(
        HookRequest {
            method: to_uppercase(hook.method.as_str()),
            url: context.render(hook.url.as_str()),
            headers,
            body,
        },
    )
}

/// What `reqwest::StatusCode` prints for a code.
pub uninterp spec fn status_line(code: u16) -> Seq<char>;

/// `reqwest::StatusCode::to_string`: the code and its reason.
#[verifier::external_body]
fn status_text(code: u16) -> (s: String)
    requires
        100 <= code <= 999,
    ensures
        s@ == status_line(code),
{
    reqwest::StatusCode::from_u16(code).map(|status| status.to_string()).unwrap_or_default()
}

/// Whether a status says that the request succeeded.
pub open spec fn is_success(code: u16) -> bool {
    200 <= code <= 299
}

/// The error that an answer leaves, if its status is none of success.
pub fn answer_error(code: u16) -> (r: Option<String>)
    requires
        100 <= code <= 999,
    ensures
        r is None <==> is_success(code),
        r matches Some(m) ==> m@ == "non-success status "@ + status_line(code),
{
    if 200 <= code && code <= 299 {
        return None;
    }
    let mut m = "non-success status ".to_owned();
    m.append(status_text(code).as_str());
    Some(m)
}

/// The table after the hook `id` was sent.
pub open spec fn fired(
    t: Seq<(Seq<char>, HookConfigModel)>,
    id: Seq<char>,
    event: HookEvent,
    code: Option<u16>,
    error: Option<Seq<char>>,
    now: u128,
) -> Seq<(Seq<char>, HookConfigModel)> {
    match table::lookup(t, id) {
        Some(h) => table::amended(
            t,
            id,
            HookConfigModel {
                last_fired_at_ms: Some(now),
                last_event: Some(event),
                last_status_code: code,
                last_error: error,
                ..h
            },
        ),
        None => t,
    }
}

/// Notes what came of sending the hook `id`; says whether there is one.
pub fn update_hook_result(
    hooks: &mut Table<HookConfig>,
    id: &str,
    event: HookEvent,
    status_code: Option<u16>,
    error: Option<String>,
    now: u128,
) -> (known: bool)
    ensures
        known == table::has_key(old(hooks).deep_view(), id@),
        final(hooks).deep_view() == fired(
            old(hooks).deep_view(),
            id@,
            event,
            status_code,
            error.deep_view(),
            now,
        ),
{
    let mut hook = match hooks.get(id) {
        Some(h) => h.dup(),
        None => {
            return false;
        },
    };
    hook.last_fired_at_ms = Some(now);
    hook.last_event = Some(event);
    hook.last_status_code = status_code;
    hook.last_error = error;
    hooks.amend(id, hook)
}

/// A hook is sent for a device and an event exactly where it is enabled, names
/// the device or none, and names the event or none. The hooks of an event are
/// those of the table that are sent for it.
pub proof fn filters_let_through_what_they_name(
    t: Seq<(Seq<char>, HookConfigModel)>,
    h: HookConfigModel,
    device: Seq<char>,
    event: HookEvent,
    k: int,
)
    ensures
        h.enabled && h.device_filter.contains(device) && h.event_filter.contains(event) ==> matches(h, device, event),
        h.enabled && h.device_filter.len() == 0 && h.event_filter.contains(event) ==> matches(h, device, event),
        h.enabled && h.device_filter.contains(device) && h.event_filter.len() == 0 ==> matches(h, device, event),
        h.device_filter.len() > 0 && !h.device_filter.contains(device) ==> !matches(h, device, event),
        h.event_filter.len() > 0 && !h.event_filter.contains(event) ==> !matches(h, device, event),
        !h.enabled ==> !matches(h, device, event),
        0 <= k < t.len() && matches(t[k].1, device, event) ==> hooks_for(t, device, event).contains(t[k].1),
        hooks_for(t, device, event).contains(h) ==> matches(h, device, event),
{
    let all = t.map_values(|e: (Seq<char>, HookConfigModel)| e.1);
    broadcast use vstd::seq_lib::group_filter_ensures;

    if 0 <= k < t.len() {
        assert(all[k] == t[k].1);
        assert(all.contains(t[k].1));
    }
    if hooks_for(t, device, event).contains(h) {
        assert(sent_for(device, event)(h));
    }
}

/// Events and sources are called by their names.
pub proof fn events_go_by_their_names(on: bool)
    ensures
        event_name(HookEvent::On) == "on"@,
        event_name(HookEvent::Off) == "off"@,
        event_name(HookEvent::Online) == "online"@,
        event_name(HookEvent::Offline) == "offline"@,
        source_name(HookSource::Manual) == "manual"@,
        source_name(HookSource::Schedule) == "schedule"@,
        source_name(HookSource::Condition) == "condition"@,
        source_name(HookSource::External) == "external"@,
        source_name(HookSource::Discovery) == "discovery"@,
        flag_text(None).len() == 0,
        flag_text(Some(true)) == seq!['t', 'r', 'u', 'e'],
        flag_text(Some(false)) == seq!['f', 'a', 'l', 's', 'e'],
{
    reveal_strlit("");
    reveal_strlit("true");
    reveal_strlit("false");
}

/// The text holds neither an opening nor a closing brace.
pub open spec fn braceless(s: Seq<char>) -> bool {
    !s.contains('{') && !s.contains('}')
}

proof fn braces_stand_apart(a: Seq<char>, key: Seq<char>, b: Seq<char>, other: Seq<char>, i: int)
    requires
        braceless(a),
        braceless(key),
        braceless(b),
        braceless(other),
        text::occurs_at(a + placeholder(key) + b, placeholder(other), i),
    ensures
        i == a.len(),
        other == key,
{
    reveal_strlit("{{");
    reveal_strlit("}}");
    let mark = placeholder(key);
    let x = a + mark + b;
    let wanted = placeholder(other);
    let n = key.len() as int;
    let m = other.len() as int;
    let p = a.len() as int;
    assert(mark.len() == n + 4 && wanted.len() == m + 4);
    assert forall|j: int| 0 <= j < wanted.len() implies x[i + j] == #[trigger] wanted[j] by {
        assert(x.subrange(i, i + wanted.len())[j] == wanted[j]);
    }
    assert(wanted[0] == '{' && wanted[1] == '{');
    assert(x[i] == '{' && x[i + 1] == '{');
    if i < p {
        assert(x[i] == a[i]);
        assert(a.contains('{'));
    } else if i >= p + n + 4 {
        assert(x[i] == b[i - p - n - 4]);
        assert(b.contains('{'));
    } else if i == p + 1 {
        assert(wanted[1] == x[i + 1]);
        if n > 0 {
            assert(x[i + 1] == key[0]);
            assert(key.contains('{'));
        } else {
            assert(x[i + 1] == '}');
        }
    } else if i > p + 1 && i < p + 2 + n {
        assert(x[i] == key[i - p - 2]);
        assert(key.contains('{'));
    } else if i > p + 1 {
        assert(x[i] == '}');
    }
    assert(i == p);
    if m < n {
        assert(wanted[2 + m] == '}');
        assert(x[i + 2 + m] == key[m]);
        assert(key.contains('}'));
    } else if m > n {
        assert(x[i + 2 + n] == '}');
        assert(wanted[2 + n] == other[n]);
        assert(other.contains('}'));
    }
    assert forall|j: int| 0 <= j < n implies key[j] == other[j] by {
        assert(wanted[2 + j] == other[j]);
        assert(x[i + 2 + j] == key[j]);
    }
    assert(other =~= key);
}

proof fn no_brace_no_mark(s: Seq<char>, key: Seq<char>)
    requires
        !s.contains('{'),
    ensures
        !text::holds(s, placeholder(key)),
{
    reveal_strlit("{{");
    text::find_from_is_first(s, placeholder(key), 0);
    if let Some(i) = text::find_from(s, placeholder(key), 0) {
        assert(s.subrange(i, i + placeholder(key).len())[0] == placeholder(key)[0]);
        assert(s[i] == '{');
        assert(s.contains('{'));
    }
}

proof fn other_marks_are_passed_over(
    a: Seq<char>,
    key: Seq<char>,
    b: Seq<char>,
    vars: Seq<(Seq<char>, Seq<char>)>,
    n: int,
)
    requires
        braceless(a),
        braceless(key),
        braceless(b),
        0 <= n <= vars.len(),
        forall|i: int| 0 <= i < n ==> braceless((#[trigger] vars[i]).0) && vars[i].0 != key,
    ensures
        rendered(a + placeholder(key) + b, vars, n) == a + placeholder(key) + b,
    decreases n,
{
    if n > 0 {
        other_marks_are_passed_over(a, key, b, vars, n - 1);
        let x = a + placeholder(key) + b;
        let other = vars[n - 1].0;
        text::find_from_is_first(x, placeholder(other), 0);
        if let Some(i) = text::find_from(x, placeholder(other), 0) {
            braces_stand_apart(a, key, b, other, i);
        }
    }
}

proof fn plain_text_is_passed_over(s: Seq<char>, vars: Seq<(Seq<char>, Seq<char>)>, input: Seq<char>, from: int, n: int)
    requires
        !s.contains('{'),
        0 <= from <= n <= vars.len(),
        rendered(input, vars, from) == s,
    ensures
        rendered(input, vars, n) == s,
    decreases n - from,
{
    if from < n {
        plain_text_is_passed_over(s, vars, input, from, n - 1);
        no_brace_no_mark(s, vars[n - 1].0);
    }
}

/// A placeholder in a text gives way to the value of its name, and what stands
/// round it stays.
pub proof fn placeholders_give_way_to_values(
    a: Seq<char>,
    b: Seq<char>,
    vars: Seq<(Seq<char>, Seq<char>)>,
    k: int,
)
    requires
        0 <= k < vars.len(),
        braceless(a),
        braceless(b),
        !vars[k].1.contains('{'),
        forall|i: int| 0 <= i < vars.len() ==> braceless((#[trigger] vars[i]).0),
        forall|i: int| 0 <= i < k ==> (#[trigger] vars[i]).0 != vars[k].0,
    ensures
        rendered(a + placeholder(vars[k].0) + b, vars, vars.len() as int) == a + vars[k].1 + b,
{
    let key = vars[k].0;
    let value = vars[k].1;
    let mark = placeholder(key);
    let x = a + mark + b;
    reveal_strlit("{{");
    reveal_strlit("}}");
    other_marks_are_passed_over(a, key, b, vars, k);
    assert(x.subrange(a.len() as int, a.len() as int + mark.len()) =~= mark);
    assert(text::occurs_at(x, mark, a.len() as int));
    text::find_from_is_first(x, mark, 0);
    let i = text::find_from(x, mark, 0)->0;
    braces_stand_apart(a, key, b, key, i);
    text::replacing_goes_from_the_left(x, mark, value);
    assert(x.take(i) =~= a);
    assert(x.skip(i + mark.len()) =~= b);
    no_brace_no_mark(b, key);
    text::replacing_goes_from_the_left(b, mark, value);
    let done = a + value + b;
    assert(rendered(x, vars, k + 1) == done);
    assert(!done.contains('{')) by {
        if done.contains('{') {
            let j = choose|j: int| 0 <= j < done.len() && done[j] == '{';
            if j < a.len() {
                assert(a[j] == '{');
            } else if j < a.len() + value.len() {
                assert(value[j - a.len()] == '{');
            } else {
                assert(b[j - a.len() - value.len()] == '{');
            }
        }
    }
    plain_text_is_passed_over(done, vars, x, k + 1, vars.len() as int);
}

/// The names that a text can have filled in, and what is filled in for each.
pub proof fn placeholders_have_these_names(c: HookTemplateContextModel)
    ensures
        ({
            let vars = vars_of(c);
            &&& vars.len() == 8
            &&& vars[0] == ("device"@, c.device) && vars[1] == ("nickname"@, c.nickname) && vars[2] == ("model"@, c.model)
            &&& vars[3] == ("event"@, event_name(c.event)) && vars[4] == ("source"@, source_name(c.source))
            &&& vars[5].0 == "previous_on"@ && vars[6].0 == "new_on"@
            &&& c.previous_on == Some(true) ==> vars[5].1 == "true"@
            &&& c.previous_on == Some(false) ==> vars[5].1 == "false"@
            &&& c.new_on == Some(true) ==> vars[6].1 == "true"@
            &&& c.new_on == Some(false) ==> vars[6].1 == "false"@
            &&& vars[7] == ("timestamp_ms"@, text::decimal(c.timestamp_ms as nat))
        }),
{
}

/// The payload that is sent where a hook has no body of its own tells the same:
/// the flags as such, and the moment as a number.
pub proof fn payloads_hold_these_fields(c: HookTemplateContextModel)
    requires
        c.timestamp_ms <= u64::MAX,
    ensures
        ({
            let p = payload_of(c);
            &&& p.len() == 8
            &&& p[0] == ("device"@, JsonFieldModel::Text(c.device)) && p[1] == (
                "nickname"@,
                JsonFieldModel::Text(c.nickname),
            ) && p[2] == ("model"@, JsonFieldModel::Text(c.model))
            &&& p[3] == ("event"@, JsonFieldModel::Text(event_name(c.event))) && p[4] == (
                "source"@,
                JsonFieldModel::Text(source_name(c.source)),
            )
            &&& p[5] == ("previous_on"@, JsonFieldModel::Flag(c.previous_on)) && p[6] == (
                "new_on"@,
                JsonFieldModel::Flag(c.new_on),
            )
            &&& p[7] == ("timestamp_ms"@, JsonFieldModel::Whole(c.timestamp_ms as u64))
        }),
{
}

/// A request goes out with the method in capitals, and with the URL, the values
/// of the headers and the body filled in; without a body the payload goes out,
/// and where no header names the kind of content it is said to be JSON. A hook
/// whose method cannot be used sends nothing.
pub proof fn requests_are_filled_in(h: HookConfigModel, c: HookTemplateContextModel, i: int)
    ensures
        sent_request(h, c) is Some <==> conditions::method_usable(h.method),
        sent_request(h, c) matches Some(r) ==> {
            &&& r.method == unicode::uppercase(h.method)
            &&& r.url == rendered(h.url, vars_of(c), 8)
            &&& h.body matches Some(body) ==> r.body == rendered(body, vars_of(c), 8) && r.headers.len()
                == h.headers.len()
            &&& h.body is None ==> r.body == object_json(payload_of(c))
            &&& 0 <= i < h.headers.len() ==> r.headers[i].0 == h.headers[i].0 && r.headers[i].1 == rendered(
                h.headers[i].1,
                vars_of(c),
                8,
            )
            &&& h.body is None && (forall|k: int|
                0 <= k < h.headers.len() ==> (#[trigger] h.headers[k]).0.len() != 12) ==> r.headers.len()
                == h.headers.len() + 1 && r.headers.last() == ("content-type"@, "application/json"@)
            &&& 0 <= i < h.headers.len() && h.headers[i].0 == "Content-Type"@ ==> r.headers.len() == h.headers.len()
        },
{
    reveal_strlit("content-type");
    reveal_strlit("Content-Type");
    let lower = |x: char| unicode::ascii_lower(x);
    assert("Content-Type"@.map_values(lower) =~= "content-type"@);
    if 0 <= i < h.headers.len() && h.headers[i].0 == "Content-Type"@ {
        assert(names_content_type(h.headers[i].0));
    }
    if forall|k: int| 0 <= k < h.headers.len() ==> (#[trigger] h.headers[k]).0.len() != 12 {
        assert forall|k: int| 0 <= k < h.headers.len() implies !names_content_type((#[trigger] h.headers[k]).0) by {
            assert(h.headers[k].0.map_values(lower).len() == h.headers[k].0.len());
        }
    }
}

/// A sending is noted with the hook: when, for which event, and with which
/// status or error; other hooks stay. It succeeded where the status is one of
/// the two hundreds.
pub proof fn sendings_are_noted(
    t: Seq<(Seq<char>, HookConfigModel)>,
    id: Seq<char>,
    other: Seq<char>,
    event: HookEvent,
    code: Option<u16>,
    error: Option<Seq<char>>,
    now: u128,
    status: u16,
)
    ensures
        table::lookup(t, id) matches Some(h) ==> table::lookup(fired(t, id, event, code, error, now), id) == Some(
            (HookConfigModel {
                last_fired_at_ms: Some(now),
                last_event: Some(event),
                last_status_code: code,
                last_error: error,
                ..h
            }),
        ),
        other != id ==> table::lookup(fired(t, id, event, code, error, now), other) == table::lookup(t, other),
        is_success(status) <==> status / 100 == 2,
{
    if let Some(h) = table::lookup(t, id) {
        table::amended_then_lookup(
            t,
            id,
            HookConfigModel {
                last_fired_at_ms: Some(now),
                last_event: Some(event),
                last_status_code: code,
                last_error: error,
                ..h
            },
            other,
        );
    }
}

/// A hook comes out as it was asked for, with the space round its name taken
/// off and its method in capitals, never sent. It is refused exactly where its
/// name is empty or its method or its URL cannot be used.
pub proof fn hooks_are_made_as_asked(r: CreateHookRequestModel, id: Seq<char>, now: u128)
    ensures
        made(r, id, now) is Ok <==> text::trimmed(r.name).len() > 0 && conditions::method_check(r.method) is Ok
            && conditions::url_check(r.url) is Ok,
        made(r, id, now) matches Ok(h) ==> {
            &&& h.id == id && h.name == text::trimmed(r.name) && h.enabled == r.enabled
            &&& h.url == r.url && h.method == unicode::uppercase(r.method) && h.headers == r.headers
            &&& r.body is None ==> h.body is None
            &&& r.body matches Some(b) ==> text::trimmed(b).len() > 0 ==> h.body == Some(text::trimmed(b))
            &&& h.device_filter == r.device_filter && h.event_filter == r.event_filter
            &&& h.created_at_ms == now && h.last_fired_at_ms is None && h.last_event is None && h.last_status_code
                is None && h.last_error is None
        },
{
}

/// A change to a stored hook touches no other; each field that it names is as
/// it says and each other as it was. A new URL clears the error.
pub proof fn hook_changes_are_field_by_field(
    t: Seq<(Seq<char>, HookConfigModel)>,
    id: Seq<char>,
    other: Seq<char>,
    r: UpdateHookRequestModel,
)
    ensures
        table::lookup(t, id) is None ==> updated(t, id, r) is Err,
        updated(t, id, r) matches Ok(u) ==> {
            &&& other != id ==> table::lookup(u, other) == table::lookup(t, other)
            &&& table::lookup(t, id) matches Some(h) && table::lookup(u, id) matches Some(g) && {
                &&& g.id == h.id && g.created_at_ms == h.created_at_ms && g.last_fired_at_ms == h.last_fired_at_ms
                    && g.last_event == h.last_event && g.last_status_code == h.last_status_code
                &&& r.name matches Some(x) ==> g.name == text::trimmed(x) && g.name.len() > 0
                &&& r.name is None ==> g.name == h.name
                &&& r.url matches Some(x) ==> g.url == x && conditions::url_check(x) is Ok && g.last_error is None
                &&& r.url is None ==> g.url == h.url && g.last_error == h.last_error
                &&& r.method matches Some(x) ==> g.method == unicode::uppercase(x) && conditions::method_check(x) is Ok
                &&& r.method is None ==> g.method == h.method
                &&& r.headers matches Some(x) ==> g.headers == x
                &&& r.headers is None ==> g.headers == h.headers
                &&& r.body is None ==> g.body == h.body
                &&& r.body == Some(None::<Seq<char>>) ==> g.body is None
                &&& r.device_filter matches Some(x) ==> g.device_filter == x
                &&& r.device_filter is None ==> g.device_filter == h.device_filter
                &&& r.event_filter matches Some(x) ==> g.event_filter == x
                &&& r.event_filter is None ==> g.event_filter == h.event_filter
                &&& r.enabled matches Some(x) ==> g.enabled == x
                &&& r.enabled is None ==> g.enabled == h.enabled
            }
        },
{
    if let Some(h) = table::lookup(t, id) {
        table::amended_then_lookup(t, id, changed(h, r), other);
    }
}

/// What is shown of a hook is what is stored of it, and a trial tells that a
/// device of its own was turned on by hand.
pub proof fn hooks_are_shown_as_stored(h: HookConfigModel, now: u128)
    ensures
        ({
            let v = view_of(h);
            &&& v.id == h.id && v.name == h.name && v.enabled == h.enabled && v.url == h.url && v.method == h.method
            &&& v.headers == h.headers && v.body == h.body && v.device_filter == h.device_filter && v.event_filter
                == h.event_filter
            &&& v.created_at_ms == h.created_at_ms && v.last_fired_at_ms == h.last_fired_at_ms && v.last_event
                == h.last_event && v.last_status_code == h.last_status_code && v.last_error == h.last_error
        }),
        ({
            let c = trial_context(now);
            &&& c.event is On && c.source is Manual
            &&& c.previous_on == Some(false) && c.new_on == Some(true)
            &&& c.timestamp_ms == now && c.device == "test"@
        }),
{
}

/// Hooks are listed by their name, and those of the same name by when they were
/// made.
pub proof fn hooks_are_listed_by_name(h: HookConfigModel)
    ensures
        <HookView as Listed>::listed_name(view_of(h)) == h.name,
        <HookView as Listed>::listed_stamp(view_of(h)) == h.created_at_ms,
{
}

} // verus!
