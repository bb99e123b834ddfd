//! What a device can be told to do, and what can be told of it.

use vstd::prelude::*;

use crate::dup::Dup;

verus! {

/// What a schedule or a block does to a device.
#[derive(Debug, Clone, Copy, PartialEq, Eq, Structural)]
pub enum ScheduleAction {
    On,
    Off,
    Toggle,
}

impl DeepView for ScheduleAction {
    type V = ScheduleAction;

    open spec fn deep_view(&self) -> ScheduleAction {
        *self
    }
}

impl Dup for ScheduleAction {
    fn dup(&self) -> (r: Self) {
        *self
    }
}

/// How a schedule tells its times.
#[derive(Debug, Clone, Copy, PartialEq, Eq, Structural)]
pub enum ScheduleKind {
    Cron,
    Interval,
}

impl DeepView for ScheduleKind {
    type V = ScheduleKind;

    open spec fn deep_view(&self) -> ScheduleKind {
        *self
    }
}

impl Dup for ScheduleKind {
    fn dup(&self) -> (r: Self) {
        *self
    }
}

/// What a hook can be told of.
#[derive(Debug, Clone, Copy, PartialEq, Eq, Structural)]
pub enum HookEvent {
    On,
    Off,
    Online,
    Offline,
}

impl DeepView for HookEvent {
    type V = HookEvent;

    open spec fn deep_view(&self) -> HookEvent {
        *self
    }
}

impl Dup for HookEvent {
    fn dup(&self) -> (r: Self) {
        *self
    }
}

/// Who brought an event about.
#[derive(Debug, Clone, Copy, PartialEq, Eq, Structural)]
pub enum HookSource {
    Manual,
    Schedule,
    Condition,
    External,
    Discovery,
}

impl DeepView for HookSource {
    type V = HookSource;

    open spec fn deep_view(&self) -> HookSource {
        *self
    }
}

impl Dup for HookSource {
    fn dup(&self) -> (r: Self) {
        *self
    }
}

/// What a condition does to its device.
#[derive(Debug, Clone, Copy, PartialEq, Eq, Structural)]
pub enum ConditionAction {
    On,
    Off,
}

impl DeepView for ConditionAction {
    type V = ConditionAction;

    open spec fn deep_view(&self) -> ConditionAction {
        *self
    }
}

impl Dup for ConditionAction {
    fn dup(&self) -> (r: Self) {
        *self
    }
}

} // verus!
