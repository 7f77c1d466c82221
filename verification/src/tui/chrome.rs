//! The bars at the top and the bottom of the screen.
use crate::text::{concat, contains, contains_text};
use crate::tui::app::{entry_or, get_or, App, Focus, InputMode, Screen};
use crate::tui::line::{
    blank, divider, gap, hint, margin, minor_hint, put, put_divider, put_gap, put_hint,
    put_margin, put_minor_hint, spans, Span, SpanView, Tone,
};
use vstd::prelude::*;

verus! {

/// The tone that a cluster's status is shown in.
pub open spec fn status_tone(status: Seq<char>) -> Tone {
    if contains_text(status, "Healthy"@) {
        Tone::StatusOk
    } else if contains_text(status, "Degraded"@) {
        Tone::StatusWarn
    } else if contains_text(status, "Unhealthy"@) {
        Tone::StatusErr
    } else {
        Tone::Muted
    }
}

fn tone_of_status(status: &str) -> (r: Tone)
    ensures
        r == status_tone(status@),
{
    if contains(status, "Healthy") {
        Tone::StatusOk
    } else if contains(status, "Degraded") {
        Tone::StatusWarn
    } else if contains(status, "Unhealthy") {
        Tone::StatusErr
    } else {
        Tone::Muted
    }
}

/// What the title bar says of where the user is.
pub open spec fn place(app: App) -> Seq<SpanView> {
    match app.screen {
        Screen::Dashboard => seq![("Dashboard"@, Tone::Text)],
        Screen::Sandbox => seq![
            ("Sandbox: "@, Tone::Text),
            (
                entry_or(app.sandbox_names@, app.sandbox_selected as int, "-"@),
                Tone::Heading,
            ),
        ],
    }
}

/// The title bar.
pub open spec fn title_bar(app: App) -> Seq<SpanView> {
    seq![
        (" Gator"@, Tone::AccentBold),
        (" | "@, Tone::Muted),
        ("Current Cluster: "@, Tone::Text),
        (app.cluster_name@, Tone::Heading),
        (" ("@, Tone::Muted),
        (app.status_text@, status_tone(app.status_text@)),
        (")"@, Tone::Muted),
        (" | "@, Tone::Muted),
    ] + place(app)
}

/// The title bar.
pub fn draw_title_bar(app: &App) -> (r: Vec<Span>)
    ensures
        spans(r@) == title_bar(*app),
{
    let mut line = blank();
    put(&mut line, " Gator", Tone::AccentBold);
    put(&mut line, " | ", Tone::Muted);
    put(&mut line, "Current Cluster: ", Tone::Text);
    put(&mut line, app.cluster_name.as_str(), Tone::Heading);
    put(&mut line, " (", Tone::Muted);
    let tone = tone_of_status(app.status_text.as_str());
    put(&mut line, app.status_text.as_str(), tone);
    put(&mut line, ")", Tone::Muted);
    put(&mut line, " | ", Tone::Muted);
    match app.screen {
        Screen::Dashboard => {
            put(&mut line, "Dashboard", Tone::Text);
        },
        Screen::Sandbox => {
            let name = get_or(&app.sandbox_names, app.sandbox_selected, "-");
            put(&mut line, "Sandbox: ", Tone::Text);
            put(&mut line, name, Tone::Heading);
        },
    }
    assert(spans(line@) =~= title_bar(*app));
    line
}

/// The hints at the end of the dashboard's bar.
pub open spec fn dashboard_end() -> Seq<SpanView> {
    divider() + minor_hint("[:]"@, " Command  "@) + minor_hint("[q]"@, " Quit"@)
}

/// The hints at the end of a sandbox's bar.
pub open spec fn sandbox_end(back: Seq<char>) -> Seq<SpanView> {
    divider() + minor_hint("[Esc]"@, back) + gap() + minor_hint("[q]"@, " Quit"@)
}

/// The hints that every panel of the dashboard begins with.
pub open spec fn panel_start() -> Seq<SpanView> {
    margin() + hint("[Tab]"@, " Switch Panel"@) + gap() + hint("[j/k]"@, " Navigate"@) + gap()
}

/// The switch for following the log.
pub open spec fn follow_hint(autoscroll: bool) -> Seq<SpanView> {
    if autoscroll {
        seq![("[f]"@, Tone::KeyHint), (" Autoscroll"@, Tone::StatusOk)]
    } else {
        seq![("[f]"@, Tone::KeyHint), (" Follow"@, Tone::Text)]
    }
}

/// The bar of keys: those that work where the focus is.
pub open spec fn nav_bar(app: App) -> Seq<SpanView> {
    match app.screen {
        Screen::Dashboard => match app.focus {
            Focus::Providers => panel_start() + hint("[Enter]"@, " Detail"@) + gap() + hint(
                "[c]"@,
                " Create"@,
            ) + gap() + hint("[u]"@, " Update"@) + gap() + hint("[d]"@, " Delete"@)
                + dashboard_end(),
            Focus::Sandboxes => panel_start() + hint("[Enter]"@, " Select"@) + gap() + hint(
                "[c]"@,
                " Create Sandbox"@,
            ) + dashboard_end(),
            _ => panel_start() + hint("[Enter]"@, " Select"@) + dashboard_end(),
        },
        Screen::Sandbox => match app.focus {
            Focus::SandboxLogs => margin() + hint("[j/k]"@, " Navigate"@) + gap() + hint(
                "[Enter]"@,
                " Detail"@,
            ) + gap() + hint("[g/G]"@, " Top/Bottom"@) + gap() + follow_hint(app.log_autoscroll)
                + gap() + hint("[s]"@, " Source: "@ + app.log_source_label@) + sandbox_end(
                " Policy"@,
            ),
            _ => margin() + hint("[j/k]"@, " Scroll"@) + gap() + hint("[g/G]"@, " Top/Bottom"@)
                + gap() + hint("[s]"@, " Shell"@) + gap() + hint("[l]"@, " Logs"@) + gap() + hint(
                "[d]"@,
                " Delete"@,
            ) + sandbox_end(" Back"@),
        },
    }
}

fn start_panel() -> (line: Vec<Span>)
    ensures
        spans(line@) == panel_start(),
{
    let mut line = blank();
    put_margin(&mut line);
    put_hint(&mut line, "[Tab]", " Switch Panel");
    put_gap(&mut line);
    put_hint(&mut line, "[j/k]", " Navigate");
    put_gap(&mut line);
    assert(spans(line@) =~= panel_start());
    line
}

fn end_dashboard(line: &mut Vec<Span>)
    ensures
        spans(final(line)@) == spans(old(line)@) + dashboard_end(),
{
    put_divider(line);
    put_minor_hint(line, "[:]", " Command  ");
    put_minor_hint(line, "[q]", " Quit");
    assert(spans(line@) =~= spans(old(line)@) + dashboard_end());
}

fn end_sandbox(line: &mut Vec<Span>, back: &str)
    ensures
        spans(final(line)@) == spans(old(line)@) + sandbox_end(back@),
{
    put_divider(line);
    put_minor_hint(line, "[Esc]", back);
    put_gap(line);
    put_minor_hint(line, "[q]", " Quit");
    assert(spans(line@) =~= spans(old(line)@) + sandbox_end(back@));
}

fn put_follow_hint(line: &mut Vec<Span>, autoscroll: bool)
    ensures
        spans(final(line)@) == spans(old(line)@) + follow_hint(autoscroll),
{
    put(line, "[f]", Tone::KeyHint);
    if autoscroll {
        put(line, " Autoscroll", Tone::StatusOk);
    } else {
        put(line, " Follow", Tone::Text);
    }
    assert(spans(line@) =~= spans(old(line)@) + follow_hint(autoscroll));
}

/// The bar of keys.
pub fn draw_nav_bar(app: &App) -> (r: Vec<Span>)
    ensures
        spans(r@) == nav_bar(*app),
{
    match app.screen {
        Screen::Dashboard => {
            let mut line = start_panel();
            match app.focus {
                Focus::Providers => {
                    put_hint(&mut line, "[Enter]", " Detail");
                    put_gap(&mut line);
                    put_hint(&mut line, "[c]", " Create");
                    put_gap(&mut line);
                    put_hint(&mut line, "[u]", " Update");
                    put_gap(&mut line);
                    put_hint(&mut line, "[d]", " Delete");
                },
                Focus::Sandboxes => {
                    put_hint(&mut line, "[Enter]", " Select");
                    put_gap(&mut line);
                    put_hint(&mut line, "[c]", " Create Sandbox");
                },
                _ => {
                    put_hint(&mut line, "[Enter]", " Select");
                },
            }
            end_dashboard(&mut line);
            line
        },
        Screen::Sandbox => {
            let mut line = blank();
            put_margin(&mut line);
            assert(Seq::<SpanView>::empty() + margin() =~= margin());
            match app.focus {
                Focus::SandboxLogs => {
                    put_hint(&mut line, "[j/k]", " Navigate");
                    put_gap(&mut line);
                    put_hint(&mut line, "[Enter]", " Detail");
                    put_gap(&mut line);
                    put_hint(&mut line, "[g/G]", " Top/Bottom");
                    put_gap(&mut line);
                    put_follow_hint(&mut line, app.log_autoscroll);
                    put_gap(&mut line);
                    let source = concat(" Source: ", app.log_source_label.as_str());
                    put_hint(&mut line, "[s]", source.as_str());
                    end_sandbox(&mut line, " Policy");
                },
                _ => {
                    put_hint(&mut line, "[j/k]", " Scroll");
                    put_gap(&mut line);
                    put_hint(&mut line, "[g/G]", " Top/Bottom");
                    put_gap(&mut line);
                    put_hint(&mut line, "[s]", " Shell");
                    put_gap(&mut line);
                    put_hint(&mut line, "[l]", " Logs");
                    put_gap(&mut line);
                    put_hint(&mut line, "[d]", " Delete");
                    end_sandbox(&mut line, " Back");
                },
            }
            line
        },
    }
}

/// The bar that commands are typed in.
pub open spec fn command_bar(app: App) -> Seq<SpanView> {
    match app.input_mode {
        InputMode::Command => seq![
            (" :"@, Tone::AccentBold),
            (app.command_input@, Tone::Text),
            ("_"@, Tone::Accent),
        ],
        InputMode::Normal => seq![(""@, Tone::Muted)],
    }
}

/// The bar that commands are typed in.
pub fn draw_command_bar(app: &App) -> (r: Vec<Span>)
    ensures
        spans(r@) == command_bar(*app),
{
    let mut line = blank();
    match app.input_mode {
        InputMode::Command => {
            put(&mut line, " :", Tone::AccentBold);
            put(&mut line, app.command_input.as_str(), Tone::Text);
            put(&mut line, "_", Tone::Accent);
        },
        InputMode::Normal => {
            put(&mut line, "", Tone::Muted);
        },
    }
    assert(spans(line@) =~= command_bar(*app));
    line
}

} // verus!
