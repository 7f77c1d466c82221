//! The state of the terminal interface, as far as it decides what is shown.
use vstd::prelude::*;

verus! {

#[derive(Debug, Clone, Copy, PartialEq, Eq, Structural)]
pub enum Screen {
    Dashboard,
    Sandbox,
}

/// The part of the screen that keys go to.
#[derive(Debug, Clone, Copy, PartialEq, Eq, Structural)]
pub enum Focus {
    Clusters,
    Providers,
    Sandboxes,
    SandboxPolicy,
    SandboxLogs,
}

#[derive(Debug, Clone, Copy, PartialEq, Eq, Structural)]
pub enum InputMode {
    Normal,
    Command,
}

/// The state of the terminal interface.
#[derive(Debug)]
pub struct App {
    pub screen: Screen,
    pub focus: Focus,
    pub input_mode: InputMode,
    pub command_input: String,
    pub cluster_name: String,
    pub status_text: String,
    pub sandbox_names: Vec<String>,
    pub sandbox_selected: usize,
    /// What the log view shows the lines of.
    pub log_source_label: String,
    pub log_autoscroll: bool,
    /// The log line that is shown in full, by its place among the lines shown.
    pub log_detail_index: Option<usize>,
    /// How many log lines pass the log view's filter.
    pub filtered_log_lines: usize,
    pub create_form: bool,
    pub create_provider_form: bool,
    pub provider_detail: bool,
    pub update_provider_form: bool,
    pub provider_count: usize,
    pub provider_names: Vec<String>,
    pub provider_types: Vec<String>,
    pub provider_cred_keys: Vec<String>,
    pub provider_selected: usize,
    pub confirm_provider_delete: bool,
    /// The version of the policy that is shown, once it is loaded.
    pub policy_version: Option<u32>,
    /// How many lines the policy has.
    pub policy_lines: usize,
    pub policy_scroll: usize,
}

/// The text in place `i` of a list, or `other` where there is none.
pub open spec fn entry_or(list: Seq<String>, i: int, other: Seq<char>) -> Seq<char> {
    if 0 <= i < list.len() {
        list[i]@
    } else {
        other
    }
}

/// The text in place `i` of a list, or `other` where there is none.
pub(crate) fn get_or<'a>(list: &'a Vec<String>, i: usize, other: &'a str) -> (r: &'a str)
    ensures
        r@ == entry_or(list@, i as int, other@),
{
    if i < list.len() {
        list[i].as_str()
    } else {
        other
    }
}

/// A part of the screen.
#[derive(Debug, Clone, Copy, PartialEq, Eq, Structural)]
pub struct Rect {
    pub x: u16,
    pub y: u16,
    pub width: u16,
    pub height: u16,
}

/// `a` less `b`, or zero where that would be negative.
pub open spec fn less(a: u16, b: u16) -> u16 {
    if a <= b {
        0
    } else {
        (a - b) as u16
    }
}

} // verus!
