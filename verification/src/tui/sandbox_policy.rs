//! The pane that shows a sandbox's policy.
use crate::text::{concat3, decimal, decimal_text};
use crate::tui::app::{App, Rect};
use crate::tui::line::{one, spans, Span, Tone};
use vstd::prelude::*;

verus! {

/// The pane that shows a policy. Keys always go to it while it is there.
#[derive(Debug)]
pub struct PolicyPane {
    pub title: Vec<Span>,
    pub border: Tone,
    pub body: PolicyBody,
}

#[derive(Debug)]
pub enum PolicyBody {
    /// There is nothing to show yet, and it says so.
    Loading { notice: Vec<Span> },
    /// The lines from `first` up to `end`, and where that is.
    Lines { first: usize, end: usize, position: Vec<Span> },
}

/// The title of the pane.
pub open spec fn policy_title(version: Option<u32>) -> Seq<char> {
    let shown = match version {
        Some(version) => version as nat,
        None => 0,
    };
    " Policy (v"@ + decimal_text(shown) + ") "@
}

/// The first line that is shown: where the user scrolled to, but never past the last line.
pub open spec fn first_line(scroll: int, total: int) -> int {
    if scroll < total {
        scroll
    } else {
        total - 1
    }
}

/// The lines of text that fit inside the border of a pane of the height `height`.
pub open spec fn inner_height(height: int) -> int {
    if height < 2 {
        0
    } else {
        height - 2
    }
}

/// The end of the lines that are shown.
pub open spec fn end_line(first: int, height: int, total: int) -> int {
    if first + inner_height(height) < total {
        first + inner_height(height)
    } else {
        total
    }
}

/// What is said of the position `first` among `total` lines.
pub open spec fn position_text(first: int, total: int) -> Seq<char> {
    " ["@ + decimal_text((first + 1) as nat) + "/"@ + decimal_text(total as nat) + "] "@
}

/// The pane that shows a policy, in the part `area` of the screen.
pub fn draw(app: &App, area: Rect) -> (r: PolicyPane)
    ensures
        spans(r.title@) == seq![(policy_title(app.policy_version), Tone::Heading)],
        r.border == Tone::BorderFocused,
        if app.policy_lines == 0 {
            r.body matches PolicyBody::Loading { notice } && spans(notice@) == seq![
                ("Loading..."@, Tone::Muted),
            ]
        } else {
            let total = app.policy_lines as int;
            let start = first_line(app.policy_scroll as int, total);
            r.body matches PolicyBody::Lines { first, end, position } && first == start && end
                == end_line(start, area.height as int, total) && spans(position@) == seq![
                (position_text(start, total), Tone::Muted),
            ]
        },
{
    let version: u32 = match app.policy_version {
        Some(version) => version,
        None => 0,
    };
    let number = decimal(version as u64);
    let title = one(concat3(" Policy (v", number.as_str(), ") ").as_str(), Tone::Heading);
    let border = Tone::BorderFocused;
    if app.policy_lines == 0 {
        let notice = one("Loading...", Tone::Muted);
        return PolicyPane { title, border, body: PolicyBody::Loading { notice } };
    }
    let total = app.policy_lines;
    let height = area.height.saturating_sub(2) as usize;
    let first = if app.policy_scroll < total {
        app.policy_scroll
    } else {
        total - 1
    };
    let end = if height < total - first {
        first + height
    } else {
        total
    };
    let at = decimal(first as u64 + 1);
    let of = decimal(total as u64);
    let mut position = concat3(" [", at.as_str(), "/");
    position.append(of.as_str());
    position.append("] ");
    let position = one(position.as_str(), Tone::Muted);
    PolicyPane { title, border, body: PolicyBody::Lines { first, end, position } }
}

/// What is shown always lies within the policy and fits the pane; where the pane has room
/// for a line, at least one is shown.
pub proof fn window_lies_within_policy(scroll: int, height: int, total: int)
    requires
        scroll >= 0,
        height >= 0,
        total > 0,
    ensures
        ({
            let first = first_line(scroll, total);
            let end = end_line(first, height, total);
            &&& 0 <= first < total
            &&& first <= end <= total
            &&& end - first <= inner_height(height)
            &&& inner_height(height) > 0 ==> first < end
        }),
{
}

} // verus!
