//! The screen as a whole.
use crate::tui::app::{App, Focus, Rect, Screen};
use crate::tui::chrome::{
    command_bar, draw_command_bar, draw_nav_bar, draw_title_bar, nav_bar, title_bar,
};
use crate::tui::layout::{frame_rows, sandbox_rows, usable_height, FrameRows, SandboxRows};
use crate::tui::line::{spans, Span};
use vstd::prelude::*;

verus! {

/// The lower pane of a sandbox's screen.
#[derive(Debug, Clone, Copy, PartialEq, Eq, Structural)]
pub enum Pane {
    Policy,
    Logs,
}

/// What fills the screen between its bars.
#[derive(Debug, Clone, Copy, PartialEq, Eq, Structural)]
pub enum Body {
    Dashboard,
    /// A sandbox, and the log line that is shown in full over it, if any.
    Sandbox { pane: Pane, log_detail: Option<usize> },
}

/// A window over the screen.
#[derive(Debug, Clone, Copy, PartialEq, Eq, Structural)]
pub enum Overlay {
    CreateSandbox,
    CreateProvider,
    ProviderDetail,
    UpdateProvider,
}

/// The screen as a whole.
#[derive(Debug)]
pub struct FramePlan {
    /// Where the bars and the body stand.
    pub rows: FrameRows,
    pub title: Vec<Span>,
    pub body: Body,
    /// Where the two parts of a sandbox's screen stand, if it is shown.
    pub sandbox_rows: Option<SandboxRows>,
    pub nav: Vec<Span>,
    pub command: Vec<Span>,
    /// The windows over the screen, the topmost last.
    pub overlays: Vec<Overlay>,
}

/// What a sandbox's screen shows: its logs where keys go to them, else its policy. A log
/// line is shown in full only over the logs, and only one that is there.
pub open spec fn sandbox_screen(app: App) -> Body {
    if app.focus == Focus::SandboxLogs {
        Body::Sandbox {
            pane: Pane::Logs,
            log_detail: match app.log_detail_index {
                Some(i) => if i < app.filtered_log_lines {
                    Some(i)
                } else {
                    None
                },
                None => None,
            },
        }
    } else {
        Body::Sandbox { pane: Pane::Policy, log_detail: None }
    }
}

/// What a sandbox's screen shows.
pub fn draw_sandbox_screen(app: &App) -> (r: Body)
    ensures
        r == sandbox_screen(*app),
{
    match app.focus {
        Focus::SandboxLogs => {
            let log_detail = match app.log_detail_index {
                Some(i) => if i < app.filtered_log_lines {
                    Some(i)
                } else {
                    None
                },
                None => None,
            };
            Body::Sandbox { pane: Pane::Logs, log_detail }
        },
        _ => Body::Sandbox { pane: Pane::Policy, log_detail: None },
    }
}

/// `overlay` alone where it is open, else nothing.
pub open spec fn shown_if(open: bool, overlay: Overlay) -> Seq<Overlay> {
    if open {
        seq![overlay]
    } else {
        Seq::empty()
    }
}

/// The windows over the screen, the topmost last.
pub open spec fn overlays(app: App) -> Seq<Overlay> {
    shown_if(app.create_form, Overlay::CreateSandbox) + shown_if(
        app.create_provider_form,
        Overlay::CreateProvider,
    ) + shown_if(app.provider_detail, Overlay::ProviderDetail) + shown_if(
        app.update_provider_form,
        Overlay::UpdateProvider,
    )
}

/// The screen as a whole, on a terminal of the size `area`.
pub fn draw(app: &App, area: Rect) -> (r: FramePlan)
    ensures
        r.rows.lies_in(area),
        r.rows.divide(area),
        r.rows.title.y == area.y,
        r.rows.body.y == r.rows.title.y + r.rows.title.height,
        r.rows.nav.y == r.rows.body.y + r.rows.body.height,
        r.rows.command.y == r.rows.nav.y + r.rows.nav.height,
        r.rows.command.y + r.rows.command.height == area.y + usable_height(area),
        usable_height(area) >= 3 ==> r.rows.title.height == 1 && r.rows.nav.height == 1
            && r.rows.command.height == 1 && r.rows.body.height == usable_height(area) - 3,
        usable_height(area) < 3 ==> r.rows.body.height == 0,
        match app.screen {
            Screen::Dashboard => r.sandbox_rows is None,
            Screen::Sandbox => r.sandbox_rows matches Some(parts) && {
                &&& parts.lies_in(r.rows.body)
                &&& parts.divide(r.rows.body)
                &&& parts.detail.y == r.rows.body.y
                &&& parts.detail.height == (r.rows.body.height + 2) / 5
                &&& parts.pane.y == parts.detail.y + parts.detail.height
                &&& parts.pane.height == r.rows.body.height - parts.detail.height
            },
        },
        spans(r.title@) == title_bar(*app),
        r.body == (match app.screen {
            Screen::Dashboard => Body::Dashboard,
            Screen::Sandbox => sandbox_screen(*app),
        }),
        spans(r.nav@) == nav_bar(*app),
        spans(r.command@) == command_bar(*app),
        r.overlays@ == overlays(*app),
{
    let rows = frame_rows(area);
    let (body, parts) = match app.screen {
        Screen::Dashboard => (Body::Dashboard, None),
        Screen::Sandbox => (draw_sandbox_screen(app), Some(sandbox_rows(rows.body))),
    };
    let mut windows: Vec<Overlay> = Vec::new();
    if app.create_form {
        windows.push(Overlay::CreateSandbox);
    }
    if app.create_provider_form {
        windows.push(Overlay::CreateProvider);
    }
    if app.provider_detail {
        windows.push(Overlay::ProviderDetail);
    }
    if app.update_provider_form {
        windows.push(Overlay::UpdateProvider);
    }
    assert(windows@ =~= overlays(*app));
    FramePlan {
        rows,
        title: draw_title_bar(app),
        body,
        sandbox_rows: parts,
        nav: draw_nav_bar(app),
        command: draw_command_bar(app),
        overlays: windows,
    }
}

} // verus!
