//! Titles of panes and the words for what a pane waits for.

use vstd::prelude::*;
use vstd::string::*;

use crate::geometry::difference;
use crate::sidebar_view::str_option;
use crate::text::{join2, join3};
use crate::workbench::PaneId;

verus! {

/// How to try again.
pub open spec fn hint_text(click_retry: bool) -> Seq<char> {
    if click_retry {
        "click to retry"@
    } else {
        "press any key to retry"@
    }
}

/// How to try again.
pub fn retry_hint(click_retry: bool) -> (hint: &'static str)
    ensures
        hint@ == hint_text(click_retry),
{
    if click_retry {
        "click to retry"
    } else {
        "press any key to retry"
    }
}

/// The text, cut to `max_chars` characters. The last one then says that
/// something is missing.
pub open spec fn shortened(value: Seq<char>, max_chars: nat) -> Seq<char> {
    if value.len() <= max_chars {
        value
    } else {
        value.take(max_chars - 1).push('…')
    }
}

/// Cuts a text to `max_chars` characters.
pub fn truncate(value: &str, max_chars: usize) -> (short: String)
    requires
        value@.len() > 0 ==> max_chars > 0,
    ensures
        short@ == shortened(value@, max_chars as nat),
{
    if value.unicode_len() <= max_chars {
        return value.to_owned();
    }
    let mut short = value.substring_char(0, max_chars - 1).to_owned();
    assert(short@ =~= value@.take(max_chars - 1));
    short.push('…');
    short
}

/// A pane's title: its name, and its status as far as there is room for it
/// between the corners.
pub open spec fn title_text(name: Seq<char>, status: Option<Seq<char>>, pane_width: u16) -> Seq<
    char,
> {
    let remaining = difference(difference(pane_width as int, 2), name.len() + 3int);
    match status {
        Some(status) => if status.len() > 0 && remaining > 0 {
            name + " — "@ + shortened(status, remaining as nat)
        } else {
            name
        },
        None => name,
    }
}

/// A pane's title.
pub fn session_title(display_name: &str, status: Option<&str>, pane_width: u16) -> (title: String)
    ensures
        title@ == title_text(display_name@, str_option(status), pane_width),
{
    let available: usize = pane_width.saturating_sub(2) as usize;
    let remaining = available.saturating_sub(display_name.unicode_len().saturating_add(3));
    match status {
        Some(status) => if status.unicode_len() > 0 && remaining > 0 {
            join3(display_name, " — ", truncate(status, remaining).as_str())
        } else {
            display_name.to_owned()
        },
        None => display_name.to_owned(),
    }
}

/// A pane's title, which leaves room for a handle before it.
pub open spec fn handled_title_text(
    name: Seq<char>,
    status: Option<Seq<char>>,
    pane_width: u16,
    title_handle: bool,
) -> Seq<char> {
    if title_handle {
        "  "@ + title_text(name, status, difference(pane_width as int, 2) as u16)
    } else {
        title_text(name, status, pane_width)
    }
}

/// A pane's title, which leaves room for a handle before it.
pub fn session_title_with_handle(
    display_name: &str,
    status: Option<&str>,
    pane_width: u16,
    title_handle: bool,
) -> (title: String)
    ensures
        title@ == handled_title_text(display_name@, str_option(status), pane_width, title_handle),
{
    if title_handle {
        join2(
            "  ",
            session_title(display_name, status, pane_width.saturating_sub(2)).as_str(),
        )
    } else {
        session_title(display_name, status, pane_width)
    }
}

/// What a pane without a process says. The editor also says what became of the
/// last action.
pub open spec fn unavailable_text(
    pane: PaneId,
    lifecycle: Seq<char>,
    action: Option<Seq<char>>,
) -> Seq<char> {
    match action {
        Some(action) => if pane == PaneId::Editor {
            action + "; "@ + lifecycle
        } else {
            lifecycle
        },
        None => lifecycle,
    }
}

/// What a pane without a process says.
pub fn unavailable_pane_status(
    pane: PaneId,
    lifecycle_status: &str,
    action_status: Option<&str>,
) -> (status: String)
    ensures
        status@ == unavailable_text(pane, lifecycle_status@, str_option(action_status)),
{
    if pane == PaneId::Editor {
        if let Some(action_status) = action_status {
            return join3(action_status, "; ", lifecycle_status);
        }
    }
    lifecycle_status.to_owned()
}

/// A title with a status fits between the corners of its pane, and starts with
/// the name.
pub proof fn law_title_fits(name: Seq<char>, status: Option<Seq<char>>, pane_width: u16)
    ensures
        title_text(name, status, pane_width) == name || title_text(name, status, pane_width).len()
            <= difference(pane_width as int, 2),
        title_text(name, status, pane_width).len() >= name.len(),
        title_text(name, status, pane_width).take(name.len() as int) == name,
{
    reveal_strlit(" — ");
    assert(title_text(name, status, pane_width).take(name.len() as int) =~= name);
}

} // verus!
