use openshell::tui::app::{App, Focus, InputMode, Rect, Screen};
use openshell::tui::chrome::{draw_command_bar, draw_nav_bar, draw_title_bar};
use openshell::tui::frame::{draw, Body, Overlay, Pane};
use openshell::tui::layout::{
    frame_extents, frame_rows, place_frame, place_sandbox, provider_columns, sandbox_extents,
    sandbox_rows, Extent,
};
use openshell::tui::line::{Span, Tone};
use openshell::tui::providers;
use openshell::tui::sandbox_policy::{self, PolicyBody};

fn app() -> App {
    App {
        screen: Screen::Dashboard,
        focus: Focus::Clusters,
        input_mode: InputMode::Normal,
        command_input: String::new(),
        cluster_name: "prod".to_string(),
        status_text: "Healthy".to_string(),
        sandbox_names: vec!["one".to_string(), "two".to_string()],
        sandbox_selected: 1,
        log_source_label: "all".to_string(),
        log_autoscroll: true,
        log_detail_index: None,
        filtered_log_lines: 3,
        create_form: false,
        create_provider_form: false,
        provider_detail: false,
        update_provider_form: false,
        provider_count: 2,
        provider_names: vec!["a".to_string(), "b".to_string()],
        provider_types: vec!["t".to_string()],
        provider_cred_keys: vec!["KEY".to_string(), "OTHER".to_string()],
        provider_selected: 1,
        confirm_provider_delete: false,
        policy_version: Some(4),
        policy_lines: 10,
        policy_scroll: 3,
    }
}

fn text(line: &[Span]) -> String {
    line.iter().map(|s| s.text.as_str()).collect()
}

#[test]
fn title_bar_names_the_place() {
    let mut a = app();
    assert_eq!(text(&draw_title_bar(&a)), " Gator | Current Cluster: prod (Healthy) | Dashboard");
    a.screen = Screen::Sandbox;
    assert_eq!(
        text(&draw_title_bar(&a)),
        " Gator | Current Cluster: prod (Healthy) | Sandbox: two"
    );
    a.sandbox_selected = 9;
    assert!(text(&draw_title_bar(&a)).ends_with("Sandbox: -"));
}

#[test]
fn title_bar_colours_the_status() {
    for (status, tone) in [
        ("Healthy", Tone::StatusOk),
        ("Degraded (1 node)", Tone::StatusWarn),
        ("Unhealthy", Tone::StatusErr),
        ("connecting", Tone::Muted),
        ("", Tone::Muted),
    ] {
        let mut a = app();
        a.status_text = status.to_string();
        let line = draw_title_bar(&a);
        assert_eq!((line[5].text.as_str(), line[5].tone), (status, tone));
    }
}

#[test]
fn nav_bar_follows_the_focus() {
    let mut a = app();
    a.focus = Focus::Providers;
    assert_eq!(
        text(&draw_nav_bar(&a)),
        " [Tab] Switch Panel  [j/k] Navigate  [Enter] Detail  [c] Create  [u] Update  [d] Delete  |  [:] Command  [q] Quit"
    );
    a.focus = Focus::Sandboxes;
    assert_eq!(
        text(&draw_nav_bar(&a)),
        " [Tab] Switch Panel  [j/k] Navigate  [Enter] Select  [c] Create Sandbox  |  [:] Command  [q] Quit"
    );
    a.focus = Focus::Clusters;
    assert_eq!(
        text(&draw_nav_bar(&a)),
        " [Tab] Switch Panel  [j/k] Navigate  [Enter] Select  |  [:] Command  [q] Quit"
    );
    a.screen = Screen::Sandbox;
    assert_eq!(
        text(&draw_nav_bar(&a)),
        " [j/k] Scroll  [g/G] Top/Bottom  [s] Shell  [l] Logs  [d] Delete  |  [Esc] Back  [q] Quit"
    );
    a.focus = Focus::SandboxLogs;
    assert_eq!(
        text(&draw_nav_bar(&a)),
        " [j/k] Navigate  [Enter] Detail  [g/G] Top/Bottom  [f] Autoscroll  [s] Source: all  |  [Esc] Policy  [q] Quit"
    );
    a.log_autoscroll = false;
    let line = draw_nav_bar(&a);
    assert!(text(&line).contains("[f] Follow"));
    assert!(line.iter().all(|s| s.tone != Tone::StatusOk));
}

#[test]
fn command_bar_shows_what_is_typed() {
    let mut a = app();
    let line = draw_command_bar(&a);
    assert_eq!((line.len(), text(&line)), (1, String::new()));
    a.input_mode = InputMode::Command;
    a.command_input = "q".to_string();
    assert_eq!(text(&draw_command_bar(&a)), " :q_");
}

const SCREEN: Rect = Rect { x: 0, y: 0, width: 80, height: 25 };

#[test]
fn frame_picks_its_panes_and_windows() {
    let mut a = app();
    let plan = draw(&a, SCREEN);
    assert_eq!(plan.body, Body::Dashboard);
    assert!(plan.overlays.is_empty());
    a.screen = Screen::Sandbox;
    a.log_detail_index = Some(1);
    assert_eq!(draw(&a, SCREEN).body, Body::Sandbox { pane: Pane::Policy, log_detail: None });
    a.focus = Focus::SandboxLogs;
    assert_eq!(draw(&a, SCREEN).body, Body::Sandbox { pane: Pane::Logs, log_detail: Some(1) });
    a.log_detail_index = Some(3);
    assert_eq!(draw(&a, SCREEN).body, Body::Sandbox { pane: Pane::Logs, log_detail: None });
    a.create_form = true;
    a.update_provider_form = true;
    assert_eq!(draw(&a, SCREEN).overlays, [Overlay::CreateSandbox, Overlay::UpdateProvider]);
    a.create_provider_form = true;
    a.provider_detail = true;
    assert_eq!(draw(&a, SCREEN).overlays.len(), 4);
}

#[test]
fn frame_is_divided_into_bars_and_body() {
    let mut a = app();
    let plan = draw(&a, SCREEN);
    assert_eq!(plan.rows.title, Rect { x: 0, y: 0, width: 80, height: 1 });
    assert_eq!(plan.rows.body, Rect { x: 0, y: 1, width: 80, height: 22 });
    assert_eq!(plan.rows.nav, Rect { x: 0, y: 23, width: 80, height: 1 });
    assert_eq!(plan.rows.command, Rect { x: 0, y: 24, width: 80, height: 1 });
    assert!(plan.sandbox_rows.is_none());
    a.screen = Screen::Sandbox;
    let screen = Rect { x: 3, y: 0, width: 60, height: 13 };
    let parts = draw(&a, screen).sandbox_rows.unwrap();
    assert_eq!(parts.detail, Rect { x: 3, y: 1, width: 60, height: 2 });
    assert_eq!(parts.pane, Rect { x: 3, y: 3, width: 60, height: 8 });
}

#[test]
fn rows_never_lie_over_each_other() {
    for y in [0, 1, 7, 1000, u16::MAX - 30, u16::MAX] {
        for height in (0..60).chain([200, 999, 30_000, u16::MAX]) {
            let area = Rect { x: 5, y, width: 9, height };
            let bottom = u32::from(y) + u32::from(height);
            let rows = frame_rows(area);
            let parts = sandbox_rows(area);
            for stack in [
                &[rows.title, rows.body, rows.nav, rows.command][..],
                &[parts.detail, parts.pane][..],
            ] {
                let mut end = u32::from(y);
                for row in stack {
                    assert_eq!((row.x, row.width), (5, 9));
                    assert!(end <= u32::from(row.y), "{area:?} {stack:?}");
                    end = u32::from(row.y) + u32::from(row.height);
                }
                assert!(end <= bottom, "{area:?} {stack:?}");
            }
        }
    }
}

/// The rows of the frame and of a sandbox's screen have the heights they should in `area`.
fn assert_divided(area: Rect) {
    let bottom = (u32::from(area.y) + u32::from(area.height)).min(u32::from(u16::MAX));
    let height = bottom - u32::from(area.y);
    let span = |row: Rect| (u32::from(row.y), u32::from(row.y) + u32::from(row.height));

    let rows = frame_rows(area);
    let (title, body) = (span(rows.title), span(rows.body));
    let (nav, command) = (span(rows.nav), span(rows.command));
    assert_eq!(title.0, u32::from(area.y), "{area:?} {rows:?}");
    assert_eq!(body.0, title.1, "{area:?} {rows:?}");
    assert_eq!(nav.0, body.1, "{area:?} {rows:?}");
    assert_eq!(command.0, nav.1, "{area:?} {rows:?}");
    assert_eq!(command.1, bottom, "{area:?} {rows:?}");
    assert_eq!(u32::from(rows.body.height), height.saturating_sub(3), "{area:?} {rows:?}");
    if height >= 3 {
        assert_eq!((rows.title.height, rows.nav.height, rows.command.height), (1, 1, 1));
    }

    let parts = sandbox_rows(area);
    let (detail, pane) = (span(parts.detail), span(parts.pane));
    assert_eq!(detail.0, u32::from(area.y), "{area:?} {parts:?}");
    assert_eq!(u32::from(parts.detail.height), (height + 2) / 5, "{area:?} {parts:?}");
    assert_eq!(pane.0, detail.1, "{area:?} {parts:?}");
    assert_eq!(pane.1, bottom, "{area:?} {parts:?}");
}

#[test]
fn rows_divide_every_height() {
    for height in (0..300).chain([999, 1000, 30_000, 65_530, 65_534, u16::MAX]) {
        assert_divided(Rect { x: 0, y: 0, width: 80, height });
        assert_divided(Rect { x: 2, y: 17, width: 5, height });
        assert_divided(Rect { x: 0, y: u16::MAX - 40, width: 1, height });
        assert_divided(Rect { x: 0, y: u16::MAX, width: 1, height });
    }
}

#[test]
fn rows_divide_small_screens_wherever_they_stand() {
    for y in 0..200 {
        for height in 0..4 {
            assert_divided(Rect { x: 0, y, width: 10, height });
        }
    }
}

#[test]
fn rows_are_placed_from_top_to_bottom() {
    let row = |y: u16| Rect { x: 0, y, width: 10, height: 1 };
    let frame = place_frame(&vec![row(1), row(2), row(3), row(4)]);
    assert_eq!((frame.title, frame.body), (row(1), row(2)));
    assert_eq!((frame.nav, frame.command), (row(3), row(4)));
    let parts = place_sandbox(&vec![row(5), row(6)]);
    assert_eq!((parts.detail, parts.pane), (row(5), row(6)));
}

#[test]
fn extents_of_rows_and_columns() {
    assert_eq!(frame_extents(), [Extent::Length(1), Extent::Min(0), Extent::Length(1), Extent::Length(1)]);
    assert_eq!(sandbox_extents(), [Extent::Percentage(20), Extent::Percentage(80)]);
    assert_eq!(provider_columns(), [Extent::Percentage(40), Extent::Percentage(25), Extent::Percentage(35)]);
}

const AREA: Rect = Rect { x: 1, y: 2, width: 40, height: 6 };

#[test]
fn providers_are_listed() {
    let a = app();
    let plan = providers::draw(&a, AREA, true);
    assert_eq!(text(&plan.title), " Providers - prod ");
    assert_eq!(plan.border, Tone::BorderFocused);
    assert_eq!(text(&plan.header.name), "  NAME");
    assert_eq!(plan.rows.len(), 2);
    assert_eq!(text(&plan.rows[0].name), "  a");
    assert_eq!(text(&plan.rows[1].name), "> b");
    assert_eq!((text(&plan.rows[0].kind), text(&plan.rows[1].kind)), ("t".into(), String::new()));
    assert_eq!(text(&plan.rows[1].cred_key), "OTHER");
    assert!(plan.notice.is_none());
    let plan = providers::draw(&a, AREA, false);
    assert_eq!(text(&plan.rows[1].name), "  b");
    assert_eq!(plan.border, Tone::Border);
}

#[test]
fn deleting_a_provider_is_confirmed_in_the_title() {
    let mut a = app();
    a.confirm_provider_delete = true;
    assert_eq!(text(&providers::draw(&a, AREA, true).title), " Delete 'b'? [y/n] ");
    assert_eq!(text(&providers::draw(&a, AREA, false).title), " Providers - prod ");
    a.provider_selected = 5;
    assert_eq!(text(&providers::draw(&a, AREA, true).title), " Delete '-'? [y/n] ");
}

#[test]
fn empty_provider_list_says_so() {
    let mut a = app();
    a.provider_count = 0;
    let (area, line) = providers::draw(&a, AREA, true).notice.unwrap();
    assert_eq!(area, Rect { x: 3, y: 4, width: 36, height: 3 });
    assert_eq!(text(&line), " No providers. Press [c] to create.");
    let tiny = Rect { x: 0, y: 0, width: 3, height: 2 };
    let (area, _) = providers::draw(&a, tiny, true).notice.unwrap();
    assert_eq!((area.width, area.height), (0, 0));
}

#[test]
fn policy_pane_scrolls() {
    let mut a = app();
    let pane = sandbox_policy::draw(&a, AREA);
    assert_eq!(text(&pane.title), " Policy (v4) ");
    match pane.body {
        PolicyBody::Lines { first, end, position } => {
            assert_eq!((first, end, text(&position).as_str()), (3, 7, " [4/10] "));
        }
        PolicyBody::Loading { .. } => panic!("nothing shown"),
    }
    a.policy_scroll = 50;
    match sandbox_policy::draw(&a, AREA).body {
        PolicyBody::Lines { first, end, position } => {
            assert_eq!((first, end, text(&position).as_str()), (9, 10, " [10/10] "));
        }
        PolicyBody::Loading { .. } => panic!("nothing shown"),
    }
    let flat = Rect { height: 1, ..AREA };
    match sandbox_policy::draw(&a, flat).body {
        PolicyBody::Lines { first, end, .. } => assert_eq!((first, end), (9, 9)),
        PolicyBody::Loading { .. } => panic!("nothing shown"),
    }
    a.policy_lines = 0;
    a.policy_version = None;
    let pane = sandbox_policy::draw(&a, AREA);
    assert_eq!(text(&pane.title), " Policy (v0) ");
    assert_eq!(pane.border, Tone::BorderFocused);
    match pane.body {
        PolicyBody::Loading { notice } => assert_eq!(text(&notice), "Loading..."),
        PolicyBody::Lines { .. } => panic!("nothing to show"),
    }
}
