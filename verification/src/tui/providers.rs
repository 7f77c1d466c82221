//! The panel that lists providers.
use crate::tui::app::{entry_or, get_or, less, App, Rect};
use crate::tui::layout::{provider_columns, Extent};
use crate::tui::line::{blank, one, put, spans, Span, SpanView, Tone};
use vstd::prelude::*;

verus! {

/// A row of the list.
#[derive(Debug)]
pub struct ProviderRow {
    pub name: Vec<Span>,
    pub kind: Vec<Span>,
    pub cred_key: Vec<Span>,
}

/// The panel that lists providers.
#[derive(Debug)]
pub struct ProvidersPlan {
    pub title: Vec<Span>,
    pub border: Tone,
    /// The widths of the columns.
    pub columns: Vec<Extent>,
    pub header: ProviderRow,
    pub rows: Vec<ProviderRow>,
    /// Where it says that there is nothing to list, if so.
    pub notice: Option<(Rect, Vec<Span>)>,
}

/// `row` shows the provider in place `i`, with a mark in front of its name if it is the
/// one that keys go to.
pub open spec fn shows_provider(row: ProviderRow, app: App, i: int, focused: bool) -> bool {
    &&& spans(row.name@) == seq![
        if focused && i == app.provider_selected {
            ("> "@, Tone::Accent)
        } else {
            ("  "@, Tone::Raw)
        },
        (entry_or(app.provider_names@, i, ""@), Tone::Text),
    ]
    &&& spans(row.kind@) == seq![(entry_or(app.provider_types@, i, ""@), Tone::Muted)]
    &&& spans(row.cred_key@) == seq![(entry_or(app.provider_cred_keys@, i, ""@), Tone::Muted)]
}

/// The title of the panel: a question, where a provider is about to be deleted.
pub open spec fn providers_title(app: App, focused: bool) -> Seq<SpanView> {
    if focused && app.confirm_provider_delete {
        seq![
            (" Delete '"@, Tone::StatusErr),
            (
                entry_or(app.provider_names@, app.provider_selected as int, "-"@),
                Tone::StatusErr,
            ),
            ("'? [y/n] "@, Tone::StatusErr),
        ]
    } else {
        seq![
            (" Providers "@, Tone::Heading),
            ("- "@, Tone::Border),
            (app.cluster_name@, Tone::Muted),
            (" "@, Tone::Muted),
        ]
    }
}

/// The part of the panel inside its border and below its heading.
pub open spec fn notice_area(area: Rect) -> Rect {
    Rect {
        x: (area.x + 2) as u16,
        y: (area.y + 2) as u16,
        width: less(area.width, 4),
        height: less(area.height, 3),
    }
}

fn draw_row(app: &App, i: usize, focused: bool) -> (row: ProviderRow)
    ensures
        shows_provider(row, *app, i as int, focused),
{
    let mut name = blank();
    if focused && i == app.provider_selected {
        put(&mut name, "> ", Tone::Accent);
    } else {
        put(&mut name, "  ", Tone::Raw);
    }
    put(&mut name, get_or(&app.provider_names, i, ""), Tone::Text);
    let kind = one(get_or(&app.provider_types, i, ""), Tone::Muted);
    let cred_key = one(get_or(&app.provider_cred_keys, i, ""), Tone::Muted);
    let row = ProviderRow { name, kind, cred_key };
    assert(spans(row.name@) =~= seq![
        if focused && i == app.provider_selected {
            ("> "@, Tone::Accent)
        } else {
            ("  "@, Tone::Raw)
        },
        (entry_or(app.provider_names@, i as int, ""@), Tone::Text),
    ]);
    row
}

fn draw_title(app: &App, focused: bool) -> (line: Vec<Span>)
    ensures
        spans(line@) == providers_title(*app, focused),
{
    let mut line = blank();
    if focused && app.confirm_provider_delete {
        let name = get_or(&app.provider_names, app.provider_selected, "-");
        put(&mut line, " Delete '", Tone::StatusErr);
        put(&mut line, name, Tone::StatusErr);
        put(&mut line, "'? [y/n] ", Tone::StatusErr);
    } else {
        put(&mut line, " Providers ", Tone::Heading);
        put(&mut line, "- ", Tone::Border);
        put(&mut line, app.cluster_name.as_str(), Tone::Muted);
        put(&mut line, " ", Tone::Muted);
    }
    assert(spans(line@) =~= providers_title(*app, focused));
    line
}

/// The panel that lists providers, in the part `area` of the screen.
pub fn draw(app: &App, area: Rect, focused: bool) -> (r: ProvidersPlan)
    requires
        app.provider_count == 0 ==> area.x + 2 <= u16::MAX && area.y + 2 <= u16::MAX,
    ensures
        spans(r.title@) == providers_title(*app, focused),
        r.border == (if focused {
            Tone::BorderFocused
        } else {
            Tone::Border
        }),
        r.columns@ == seq![
            Extent::Percentage(40),
            Extent::Percentage(25),
            Extent::Percentage(35),
        ],
        spans(r.header.name@) == seq![("  NAME"@, Tone::Muted)],
        spans(r.header.kind@) == seq![("TYPE"@, Tone::Muted)],
        spans(r.header.cred_key@) == seq![("CRED KEY"@, Tone::Muted)],
        r.rows@.len() == app.provider_count,
        forall|i: int|
            0 <= i < r.rows@.len() ==> shows_provider(#[trigger] r.rows@[i], *app, i, focused),
        r.notice is Some <==> app.provider_count == 0,
        r.notice matches Some(notice) ==> notice.0 == notice_area(area) && spans(notice.1@)
            == seq![(" No providers. Press [c] to create."@, Tone::Muted)],
{
    let header = ProviderRow {
        name: one("  NAME", Tone::Muted),
        kind: one("TYPE", Tone::Muted),
        cred_key: one("CRED KEY", Tone::Muted),
    };
    let mut rows: Vec<ProviderRow> = Vec::new();
    for i in 0..app.provider_count
        invariant
            rows@.len() == i,
            forall|j: int|
                0 <= j < i ==> shows_provider(#[trigger] rows@[j], *app, j, focused),
    {
        rows.push(draw_row(app, i, focused));
    }
    let notice = if app.provider_count == 0 {
        let inner = Rect {
            x: area.x + 2,
            y: area.y + 2,
            width: area.width.saturating_sub(4),
            height: area.height.saturating_sub(3),
        };
        Some((inner, one(" No providers. Press [c] to create.", Tone::Muted)))
    } else {
        None
    };
    let border = if focused {
        Tone::BorderFocused
    } else {
        Tone::Border
    };
    let columns = provider_columns();
    ProvidersPlan { title: draw_title(app, focused), border, columns, header, rows, notice }
}

/// At most one row is marked, and it is the selected one.
pub proof fn only_the_selected_row_is_marked(row: ProviderRow, app: App, i: int, focused: bool)
    requires
        shows_provider(row, app, i, focused),
    ensures
        spans(row.name@)[0].0 == "> "@ <==> focused && i == app.provider_selected,
{
    reveal_strlit("> ");
    reveal_strlit("  ");
    assert("> "@[0] != "  "@[0]);
}

} // verus!
