//! What holds of what the screen shows.
use crate::text::contains_text;
use crate::tui::app::{App, Focus, InputMode, Screen};
use crate::tui::chrome::{command_bar, nav_bar, status_tone, title_bar};
use crate::tui::frame::{overlays, sandbox_screen, Body, Overlay, Pane};
use crate::tui::line::{spans, SpanView, Tone};
use crate::tui::providers::{providers_title, shows_provider, ProviderRow};
use crate::tui::sandbox_policy::{end_line, first_line};
use vstd::prelude::*;

verus! {

/// `line` shows `text` in the tone `tone` in place `i`.
pub open spec fn shows(line: Seq<SpanView>, i: int, text: Seq<char>, tone: Tone) -> bool {
    0 <= i < line.len() && line[i] == (text, tone)
}

/// The title bar always names the cluster and says how it fares, and on a sandbox's screen it
/// names the sandbox that is selected, or a dash where there is none.
pub proof fn title_says_where_the_user_is(app: App)
    ensures
        shows(title_bar(app), 3, app.cluster_name@, Tone::Heading),
        shows(title_bar(app), 5, app.status_text@, status_tone(app.status_text@)),
        app.screen == Screen::Dashboard ==> shows(title_bar(app), 8, "Dashboard"@, Tone::Text)
            && title_bar(app).len() == 9,
        app.screen == Screen::Sandbox ==> {
            &&& title_bar(app).len() == 10
            &&& app.sandbox_selected < app.sandbox_names@.len() ==> shows(
                title_bar(app),
                9,
                app.sandbox_names@[app.sandbox_selected as int]@,
                Tone::Heading,
            )
            &&& app.sandbox_selected >= app.sandbox_names@.len() ==> shows(
                title_bar(app),
                9,
                "-"@,
                Tone::Heading,
            )
        },
{
}

/// A cluster that is healthy, degraded or unhealthy is shown in the tone for that, and one of
/// which none of these is said in none of these tones.
pub proof fn status_has_its_tone(status: Seq<char>)
    ensures
        contains_text(status, "Healthy"@) ==> status_tone(status) == Tone::StatusOk,
        contains_text(status, "Degraded"@) && !contains_text(status, "Healthy"@) ==> status_tone(
            status,
        ) == Tone::StatusWarn,
        contains_text(status, "Unhealthy"@) && !contains_text(status, "Healthy"@)
            && !contains_text(status, "Degraded"@) ==> status_tone(status) == Tone::StatusErr,
        !contains_text(status, "Healthy"@) && !contains_text(status, "Degraded"@)
            && !contains_text(status, "Unhealthy"@) ==> status_tone(status) == Tone::Muted,
{
}

/// Wherever the user is, the last two pieces of the bar of keys tell how to quit.
pub proof fn bar_tells_how_to_quit(app: App)
    ensures
        nav_bar(app).len() >= 2,
        shows(nav_bar(app), nav_bar(app).len() - 2, "[q]"@, Tone::Muted),
        shows(nav_bar(app), nav_bar(app).len() - 1, " Quit"@, Tone::Muted),
{
}

/// On the dashboard the bar tells how to change panels and how to move, and then what can be
/// done in the panel that has the focus.
pub proof fn dashboard_bar_follows_the_focus(app: App)
    requires
        app.screen == Screen::Dashboard,
    ensures
        shows(nav_bar(app), 1, "[Tab]"@, Tone::KeyHint),
        shows(nav_bar(app), 4, "[j/k]"@, Tone::KeyHint),
        shows(nav_bar(app), 7, "[Enter]"@, Tone::KeyHint),
        app.focus == Focus::Providers ==> {
            &&& shows(nav_bar(app), 8, " Detail"@, Tone::Text)
            &&& shows(nav_bar(app), 10, "[c]"@, Tone::KeyHint)
            &&& shows(nav_bar(app), 11, " Create"@, Tone::Text)
            &&& shows(nav_bar(app), 13, "[u]"@, Tone::KeyHint)
            &&& shows(nav_bar(app), 14, " Update"@, Tone::Text)
            &&& shows(nav_bar(app), 16, "[d]"@, Tone::KeyHint)
            &&& shows(nav_bar(app), 17, " Delete"@, Tone::Text)
        },
        app.focus == Focus::Sandboxes ==> {
            &&& shows(nav_bar(app), 8, " Select"@, Tone::Text)
            &&& shows(nav_bar(app), 10, "[c]"@, Tone::KeyHint)
            &&& shows(nav_bar(app), 11, " Create Sandbox"@, Tone::Text)
        },
        app.focus != Focus::Providers && app.focus != Focus::Sandboxes ==> {
            &&& shows(nav_bar(app), 8, " Select"@, Tone::Text)
            &&& nav_bar(app).len() == 14
        },
        shows(nav_bar(app), nav_bar(app).len() - 4, "[:]"@, Tone::Muted),
{
}

/// On a sandbox's screen the bar tells what can be done with its logs where they have the
/// focus, which source they are shown for and whether they are followed, and else what can be
/// done with the sandbox.
pub proof fn sandbox_bar_follows_the_focus(app: App)
    requires
        app.screen == Screen::Sandbox,
    ensures
        shows(nav_bar(app), 1, "[j/k]"@, Tone::KeyHint),
        app.focus == Focus::SandboxLogs ==> {
            &&& shows(nav_bar(app), 4, "[Enter]"@, Tone::KeyHint)
            &&& shows(nav_bar(app), 7, "[g/G]"@, Tone::KeyHint)
            &&& shows(nav_bar(app), 10, "[f]"@, Tone::KeyHint)
            &&& app.log_autoscroll ==> shows(nav_bar(app), 11, " Autoscroll"@, Tone::StatusOk)
            &&& !app.log_autoscroll ==> shows(nav_bar(app), 11, " Follow"@, Tone::Text)
            &&& shows(nav_bar(app), 13, "[s]"@, Tone::KeyHint)
            &&& shows(nav_bar(app), 14, " Source: "@ + app.log_source_label@, Tone::Text)
            &&& shows(nav_bar(app), 17, " Policy"@, Tone::Muted)
        },
        app.focus != Focus::SandboxLogs ==> {
            &&& shows(nav_bar(app), 4, "[g/G]"@, Tone::KeyHint)
            &&& shows(nav_bar(app), 7, "[s]"@, Tone::KeyHint)
            &&& shows(nav_bar(app), 8, " Shell"@, Tone::Text)
            &&& shows(nav_bar(app), 10, "[l]"@, Tone::KeyHint)
            &&& shows(nav_bar(app), 11, " Logs"@, Tone::Text)
            &&& shows(nav_bar(app), 13, "[d]"@, Tone::KeyHint)
            &&& shows(nav_bar(app), 14, " Delete"@, Tone::Text)
            &&& shows(nav_bar(app), 17, " Back"@, Tone::Muted)
        },
        shows(nav_bar(app), 16, "[Esc]"@, Tone::Muted),
{
}

/// What is typed as a command is shown while it is typed, and nothing is otherwise.
pub proof fn command_is_shown_while_typed(app: App)
    ensures
        app.input_mode == InputMode::Command ==> shows(
            command_bar(app),
            1,
            app.command_input@,
            Tone::Text,
        ),
        app.input_mode == InputMode::Normal ==> command_bar(app).len() == 1 && shows(
            command_bar(app),
            0,
            ""@,
            Tone::Muted,
        ),
{
}

/// A window is over the screen exactly if it is open, and the order of the windows is always
/// the same.
pub proof fn open_windows_are_shown(app: App)
    ensures
        overlays(app).contains(Overlay::CreateSandbox) <==> app.create_form,
        overlays(app).contains(Overlay::CreateProvider) <==> app.create_provider_form,
        overlays(app).contains(Overlay::ProviderDetail) <==> app.provider_detail,
        overlays(app).contains(Overlay::UpdateProvider) <==> app.update_provider_form,
        app.update_provider_form ==> overlays(app).last() == Overlay::UpdateProvider,
        app.create_form ==> overlays(app).first() == Overlay::CreateSandbox,
{
    let all = overlays(app);
    let a: int = if app.create_form { 1 } else { 0 };
    let b: int = if app.create_provider_form { 1 } else { 0 };
    let c: int = if app.provider_detail { 1 } else { 0 };
    if app.create_form {
        assert(all[0] == Overlay::CreateSandbox);
    }
    if app.create_provider_form {
        assert(all[a] == Overlay::CreateProvider);
    }
    if app.provider_detail {
        assert(all[a + b] == Overlay::ProviderDetail);
    }
    if app.update_provider_form {
        assert(all[a + b + c] == Overlay::UpdateProvider);
    }
}

/// A sandbox's logs are shown exactly where they have the focus, and a line is shown in full
/// exactly if it is chosen, is there, and the logs are shown.
pub proof fn logs_are_shown_in_focus(app: App)
    ensures
        sandbox_screen(app) matches Body::Sandbox { pane, log_detail } && {
            &&& pane == Pane::Logs <==> app.focus == Focus::SandboxLogs
            &&& log_detail is Some <==> app.focus == Focus::SandboxLogs && (
            app.log_detail_index matches Some(i) && i < app.filtered_log_lines)
            &&& log_detail is Some ==> log_detail == app.log_detail_index
        },
{
}

/// A provider that is about to be deleted is named in the title, and the question is asked only
/// where the panel has the focus. Otherwise the title names the cluster.
pub proof fn deletion_asks_by_name(app: App, focused: bool)
    ensures
        focused && app.confirm_provider_delete && app.provider_selected < app.provider_names@.len()
            ==> shows(
            providers_title(app, focused),
            1,
            app.provider_names@[app.provider_selected as int]@,
            Tone::StatusErr,
        ),
        !focused || !app.confirm_provider_delete ==> shows(
            providers_title(app, focused),
            2,
            app.cluster_name@,
            Tone::Muted,
        ),
{
}

/// A row shows the name, the type and the key of the provider it is for.
pub proof fn rows_show_their_provider(row: ProviderRow, app: App, i: int, focused: bool)
    requires
        shows_provider(row, app, i, focused),
        0 <= i < app.provider_names@.len(),
        i < app.provider_types@.len(),
        i < app.provider_cred_keys@.len(),
    ensures
        shows(spans(row.name@), 1, app.provider_names@[i]@, Tone::Text),
        shows(spans(row.kind@), 0, app.provider_types@[i]@, Tone::Muted),
        shows(spans(row.cred_key@), 0, app.provider_cred_keys@[i]@, Tone::Muted),
{
}

/// A policy is shown from the line that was scrolled to, where it has one, and as many of its
/// lines are shown as fit inside the border.
pub proof fn pane_shows_all_that_fits(scroll: int, height: int, total: int)
    requires
        scroll >= 0,
        height >= 2,
        total > 0,
    ensures
        ({
            let first = first_line(scroll, total);
            let end = end_line(first, height, total);
            &&& scroll < total ==> first == scroll
            &&& scroll >= total ==> first == total - 1
            &&& end == total || end - first == height - 2
            &&& total - first <= height - 2 ==> end == total
        }),
{
}

} // verus!
