//! What the sidebar, the panes and the menus show.

use vstd::prelude::*;
use vstd::string::*;

use crate::context_menu::{action_label, menu_lines, ContextMenuAction, MenuView};
use crate::geometry::Rect;
use crate::git::GitStatus;
use crate::runtime_state::{key_of, visible_tree_rows, RuntimeState};
use crate::runtime_view::{
    edit_shown, error_shown, pane_shown, rows_shown, screen_shown, sidebar_shown,
};
use crate::sessions::{running, status_text};
use crate::sidebar_view::{
    entry_line, lines_of_row, row_line, sidebar_lines, status_color, status_letter, trust_text,
    EditView, SidebarEditKind,
};
use crate::state::all_rows;
use crate::style::{Color, TextStyle};
use crate::text::lossy_text;
use crate::title::{handled_title_text, title_text};
use crate::tree::{EntryKind, RowView};
use crate::trust::{SidebarTrustChrome, WorkspaceTrustState};
use crate::workbench::{
    handle_symbols, LaunchMode, PaneId, PaneMinimums, Selection, WorkbenchLayout, WorkbenchState,
};

verus! {

/// Every status has a letter and a colour of its own meaning: what is new is
/// green, what is changed yellow, what is gone or contested red.
pub proof fn law_statuses_are_marked(status: GitStatus)
    ensures
        status == GitStatus::Modified ==> status_letter(status) == 'M',
        status == GitStatus::Added ==> status_letter(status) == 'A',
        status == GitStatus::Deleted ==> status_letter(status) == 'D',
        status == GitStatus::Renamed ==> status_letter(status) == 'R',
        status == GitStatus::Conflict ==> status_letter(status) == 'U',
        status == GitStatus::Untracked ==> status_letter(status) == '?',
        status == GitStatus::Added || status == GitStatus::Untracked <==> status_color(Some(status))
            == Color::Green,
        status == GitStatus::Modified || status == GitStatus::Renamed <==> status_color(
            Some(status),
        ) == Color::Yellow,
        status == GitStatus::Deleted || status == GitStatus::Conflict <==> status_color(
            Some(status),
        ) == Color::LightRed,
{
}

/// A row shows, from the left: two spaces for each step of its depth, a marker,
/// its name, and behind it what kind of thing it is, its error, and its status
/// or that something below it has changed. The selected row stands out.
pub proof fn law_row_shows_its_state(row: RowView)
    ensures
        ({
            let line = row_line(row, None);
            let spans = line.spans;
            let last = spans.last();
            let directory = row.kind == EntryKind::Directory || row.kind
                == EntryKind::SymlinkDirectory;
            let suffix = row.kind != EntryKind::Directory && row.kind != EntryKind::File;
            &&& spans.len() >= 3
            &&& spans[0].text.len() == 2 * row.depth
            &&& spans[2].text == lossy_text(row.name)
            &&& row.loading ==> spans[1].text == "… "@
            &&& !row.loading && directory && row.expanded ==> spans[1].text == "▾ "@
            &&& !row.loading && directory && !row.expanded ==> spans[1].text == "▸ "@
            &&& !row.loading && !directory && row.error is Some ==> spans[1].text == "! "@
            &&& !row.loading && !directory && row.error is None ==> spans[1].text == "  "@
            &&& row.error is Some ==> spans[1].style.fg == Some(Color::LightRed)
            &&& spans.len() == 3 + (if suffix {
                1int
            } else {
                0
            }) + (if row.error is Some {
                1int
            } else {
                0
            }) + (if row.git.status is Some || row.git.dirty_descendant {
                1int
            } else {
                0
            })
            &&& row.kind == EntryKind::Deleted ==> spans[3].text == " ×"@
            &&& row.kind == EntryKind::Symlink || row.kind == EntryKind::SymlinkDirectory
                ==> spans[3].text == " @"@
            &&& row.kind == EntryKind::Other ==> spans[3].text == " ?"@
            &&& row.error matches Some(error) ==> spans[if suffix {
                4int
            } else {
                3
            }].text == " ! "@ + error
            &&& row.git.status matches Some(status) ==> last.text == " "@.push(
                status_letter(status),
            ) && last.style.fg == Some(status_color(Some(status)))
            &&& row.git.status is None && row.git.dirty_descendant ==> last.text == " *"@
                && last.style.fg == Some(Color::Yellow)
            &&& row.selected ==> line.style.bold && line.style.bg == Some(Color::DarkGray)
            &&& !row.selected ==> !line.style.bold && line.style.bg is None
        }),
{
    reveal_strlit("  ");
    lemma_repeated_len(row.depth);
}

/// Markers have their colours: red for an error, yellow while something is
/// listed, blue for a directory. What stands behind the name is dark, or red
/// where it is an error, and the name itself is plain.
pub proof fn law_rows_are_colored(row: RowView)
    ensures
        ({
            let spans = row_line(row, None).spans;
            let directory = row.kind == EntryKind::Directory || row.kind
                == EntryKind::SymlinkDirectory;
            let suffix = row.kind != EntryKind::Directory && row.kind != EntryKind::File;
            let plain = TextStyle { fg: None, bg: None, bold: false };
            let dark = TextStyle { fg: Some(Color::DarkGray), bg: None, bold: false };
            let red = TextStyle { fg: Some(Color::LightRed), bg: None, bold: false };
            &&& spans[0].style == plain
            &&& spans[2].style == plain
            &&& row.error is Some ==> spans[1].style == red
            &&& row.error is None && row.loading ==> spans[1].style.fg == Some(Color::Yellow)
            &&& row.error is None && !row.loading && directory ==> spans[1].style.fg == Some(
                Color::LightBlue,
            )
            &&& row.error is None && !row.loading && !directory ==> spans[1].style == dark
            &&& suffix ==> spans[3].style == dark
            &&& row.error is Some ==> spans[if suffix {
                4int
            } else {
                3
            }].style == red
        }),
{
}

/// A name that is entered stands out, white on dark and bold, and what is wrong
/// with it is red.
pub proof fn law_entered_names_stand_out(depth: nat, edit: EditView)
    ensures
        ({
            let line = entry_line(depth, edit);
            &&& line.style == (TextStyle { fg: None, bg: None, bold: false })
            &&& line.spans[1].style.fg == Some(Color::LightBlue)
            &&& line.spans[2].style == (TextStyle {
                fg: Some(Color::White),
                bg: Some(Color::DarkGray),
                bold: true,
            })
            &&& edit.error is Some ==> line.spans[3].style.fg == Some(Color::LightRed)
            &&& edit.error is None ==> line.spans.len() == 3
        }),
{
}

proof fn lemma_repeated_len(count: nat)
    ensures
        crate::style::repeated("  "@, count).len() == 2 * count,
    decreases count,
{
    reveal_strlit("  ");
    if count > 0 {
        lemma_repeated_len((count - 1) as nat);
    }
}

/// While a file is renamed its row shows the name that is entered; a new entry
/// has a line of its own behind its directory, one step deeper. Every other row
/// shows itself.
pub proof fn law_entered_names_are_shown(row: RowView, edit: EditView)
    requires
        row.depth < usize::MAX,
    ensures
        ({
            let lines = lines_of_row(row, Some(edit));
            let here = edit.target == row.path;
            let renames = edit.kind == SidebarEditKind::Rename;
            &&& lines_of_row(row, None) =~= seq![row_line(row, None)]
            &&& !here ==> lines =~= seq![row_line(row, None)]
            &&& here && renames ==> lines.len() == 1 && lines[0].spans[2].text == edit.value
            &&& here && !renames ==> {
                &&& lines.len() == 2
                &&& lines[0] == row_line(row, None)
                &&& lines[1].spans[0].text.len() == 2 * (row.depth + 1)
                &&& lines[1].spans[2].text == edit.value + "▏"@
                &&& edit.kind == SidebarEditKind::NewFolder ==> lines[1].spans[1].text == "▸ "@
                &&& edit.kind == SidebarEditKind::NewFile ==> lines[1].spans[1].text == "  "@
                &&& edit.error matches Some(error) ==> lines[1].spans.len() == 4
                    && lines[1].spans[3].text == " ! "@ + error
            }
        }),
{
    lemma_repeated_len(row.depth + 1);
}

/// The trust lines stand first and the rows follow in order; where there are
/// none, the trouble stands in their place.
pub proof fn law_sidebar_lines_are_in_order(
    trust: SidebarTrustChrome,
    rows: Seq<RowView>,
    row: RowView,
    edit: Option<EditView>,
    error: Seq<char>,
)
    ensures
        ({
            let top = trust_text(trust);
            &&& sidebar_lines(trust, Seq::empty(), edit, None) =~= top
            &&& sidebar_lines(trust, rows.push(row), edit, None) =~= sidebar_lines(
                trust,
                rows,
                edit,
                None,
            ) + lines_of_row(row, edit)
            &&& sidebar_lines(trust, rows.push(row), edit, Some(error)) =~= sidebar_lines(
                trust,
                rows.push(row),
                edit,
                None,
            )
            &&& sidebar_lines(trust, Seq::empty(), edit, Some(error)).len() == top.len() + 1
            &&& sidebar_lines(trust, Seq::empty(), edit, Some(error)).last().spans[0].text == "! "@
                + error
        }),
{
    assert(rows.push(row).drop_last() =~= rows);
    assert(rows.push(row).last() == row);
}

/// The trust lines say what the workspace is, or ask.
pub proof fn law_trust_lines_say_the_state(state: WorkspaceTrustState)
    ensures
        ({
            let calm = trust_text(SidebarTrustChrome { state, confirming: false });
            let asking = trust_text(SidebarTrustChrome { state, confirming: true });
            &&& calm.len() == 1
            &&& state == WorkspaceTrustState::Trusted ==> calm[0].spans[0].text
                == "Trusted — click to revoke"@
            &&& state == WorkspaceTrustState::Untrusted ==> calm[0].spans[0].text
                == "Untrusted — click to trust"@
            &&& state == WorkspaceTrustState::Stale ==> calm[0].spans[0].text
                == "Stale trust — click review"@
            &&& asking.len() == 4
            &&& asking[2].spans[0].text == "[ Trust + restart Pi ]"@
            &&& asking[3].spans[0].text == "[ Cancel ]"@
        }),
{
}

/// The sidebar shows the rows from its scroll position on, as many as there is
/// room for, and whether something is wrong. Its border tells that it has the
/// focus.
pub proof fn law_sidebar_shows_its_rows(s: RuntimeState, i: int)
    requires
        s.sidebar is Some,
        0 <= i < visible_tree_rows(s),
        s.sidebar->0.scroll + i < all_rows(s.sidebar->0).len(),
    ensures
        ({
            let sidebar = s.sidebar->0;
            let rows = rows_shown(s);
            &&& i < rows.len()
            &&& rows.len() <= visible_tree_rows(s)
            &&& rows[i] == all_rows(sidebar)[sidebar.scroll + i]
            &&& sidebar.git_error is Some ==> error_shown(s) == sidebar.git_error
            &&& sidebar.git_error is None ==> error_shown(s) == s.sidebar_error
            &&& error_shown(s) is Some ==> sidebar_shown(s).title == "  sidebar !"@
            &&& error_shown(s) is None ==> sidebar_shown(s).title == "  sidebar"@
            &&& s.workbench.focused == PaneId::Sidebar ==> sidebar_shown(s).border
                == Color::LightYellow
            &&& s.workbench.focused != PaneId::Sidebar ==> sidebar_shown(s).border
                == Color::DarkGray
        }),
{
}

/// Without a sidebar there are no rows, and the reason is shown.
pub proof fn law_missing_sidebar_is_told(s: RuntimeState)
    requires
        s.sidebar is None,
    ensures
        rows_shown(s).len() == 0,
        error_shown(s) == s.sidebar_error,
        s.sidebar_edit is None ==> edit_shown(s.sidebar_edit) is None,
        s.sidebar_edit matches Some(edit) ==> edit_shown(s.sidebar_edit) == Some(
            EditView {
                target: edit.target.path,
                value: edit.value,
                kind: edit.kind,
                error: edit.error,
            },
        ),
{
}

/// The screen of the workbench has the sidebar unless it is hidden, every pane
/// that has room in its place, the handles, and the menu on top. Where there is
/// too little room it shows none of them.
pub proof fn law_screen_has_its_panes(
    s: RuntimeState,
    area: Rect,
    minimums: PaneMinimums,
    now: u128,
    layout: WorkbenchLayout,
)
    requires
        s.launch_mode == LaunchMode::Workbench,
        s.layout == Some(layout),
        layout.editor.width >= minimums.terminal_width,
        layout.editor.height >= minimums.terminal_height,
        layout.agent.width >= minimums.terminal_width,
        layout.agent.height >= minimums.terminal_height,
        layout.bottom.width >= minimums.terminal_width,
        layout.bottom.height >= minimums.shell_height,
    ensures
        ({
            let screen = screen_shown(s, area, minimums, now);
            &&& screen is Some
            &&& layout.compact ==> screen->0 is Compact
            &&& !layout.compact ==> {
                let panes = screen->0->panes;
                &&& screen->0 is Panes
                &&& (screen->0->sidebar is Some <==> layout.sidebar.width > 0
                    && layout.sidebar.height > 0)
                &&& panes.len() == 3
                &&& panes[0].pane == PaneId::Editor
                &&& panes[0].area == layout.editor
                &&& panes[1].pane == PaneId::Agent
                &&& panes[1].area == layout.agent
                &&& panes[2].pane == PaneId::Bottom
                &&& panes[2].area == layout.bottom
                &&& panes[0].focused == (s.workbench.focused == PaneId::Editor)
                &&& panes[1].focused == (s.workbench.focused == PaneId::Agent)
                &&& panes[2].focused == (s.workbench.focused == PaneId::Bottom)
                &&& (screen->0->menu is Some <==> s.context_menu is Some)
            }
        }),
{
}

/// Another program than the workbench fills the screen with its one pane.
pub proof fn law_single_program_fills_the_screen(
    s: RuntimeState,
    area: Rect,
    minimums: PaneMinimums,
    now: u128,
)
    requires
        s.launch_mode != LaunchMode::Workbench,
    ensures
        ({
            let screen = screen_shown(s, area, minimums, now);
            &&& screen is Some
            &&& screen->0 is Panes
            &&& screen->0->sidebar is None
            &&& screen->0->menu is None
            &&& screen->0->controls is None
            &&& screen->0->panes.len() == 1
            &&& screen->0->panes[0].pane == PaneId::Editor
            &&& screen->0->panes[0].area == area
            &&& screen->0->panes[0].focused
        }),
{
}

/// A selection is shown in the pane it is in, and in no other.
pub proof fn law_selection_is_shown_in_its_pane(workbench: WorkbenchState, pane: PaneId)
    ensures
        crate::runtime_view::selection_in(workbench, pane) is Some <==> workbench.selection is Some
            && workbench.selection->0.pane == pane,
        crate::runtime_view::selection_in(workbench, pane) is Some
            ==> crate::runtime_view::selection_in(workbench, pane) == workbench.selection,
{
}

/// A pane whose process runs shows its terminal and names it; one whose process
/// does not run says why. The editor also says what became of the last action.
pub proof fn law_pane_shows_its_process(
    s: RuntimeState,
    pane: PaneId,
    area: Rect,
    focused: bool,
    selection: Option<Selection>,
    now: u128,
)
    requires
        pane != PaneId::Bottom,
        s.sessions.slots.contains_key(key_of(s.workbench, pane)),
    ensures
        ({
            let key = key_of(s.workbench, pane);
            let shown = pane_shown(s, pane, area, focused, selection, now);
            let name = s.sessions.slots[key].display_name;
            let why = match status_text(
                s.sessions,
                key,
                now,
                s.launch_mode == LaunchMode::Workbench,
            ) {
                Some(text) => text,
                None => "unavailable"@,
            };
            &&& shown.key == key
            &&& shown.area == area
            &&& shown.focused == focused
            &&& shown.selection == selection
            &&& running(s.sessions, key) is Some ==> shown.body is Session && shown.title
                == title_text(name, s.status, area.width)
            &&& running(s.sessions, key) is None ==> shown.body is Unavailable
            &&& running(s.sessions, key) is None && (pane != PaneId::Editor || s.status is None)
                ==> shown.body->status == why
            &&& running(s.sessions, key) is None && pane == PaneId::Editor && s.status is Some
                ==> shown.body->status == s.status->0 + "; "@ + why
        }),
{
}

/// A pane that has no place in the registry goes by a name of its own and says
/// that it is unavailable.
pub proof fn law_pane_without_a_place(
    s: RuntimeState,
    pane: PaneId,
    area: Rect,
    focused: bool,
    selection: Option<Selection>,
    now: u128,
)
    requires
        pane != PaneId::Bottom,
        !s.sessions.slots.contains_key(key_of(s.workbench, pane)),
        s.status is None,
    ensures
        ({
            let shown = pane_shown(s, pane, area, focused, selection, now);
            &&& shown.title == title_text("backend"@, Some("unavailable"@), area.width)
            &&& shown.body is Unavailable
            &&& shown.body->status == "unavailable"@
        }),
{
}

/// The bottom pane of the workbench shows its tabs, and below them the terminal
/// or why there is none.
pub proof fn law_bottom_pane_shows_tabs(
    s: RuntimeState,
    area: Rect,
    focused: bool,
    selection: Option<Selection>,
    now: u128,
)
    requires
        s.launch_mode == LaunchMode::Workbench,
    ensures
        ({
            let key = key_of(s.workbench, PaneId::Bottom);
            let shown = pane_shown(s, PaneId::Bottom, area, focused, selection, now);
            &&& shown.key == key
            &&& shown.body is Shell
            &&& shown.body->running == (running(s.sessions, key) is Some)
            &&& shown.body->message == status_text(s.sessions, key, now, true)
            &&& shown.area == area
            &&& shown.focused == focused
            &&& shown.selection == selection
            &&& s.layout is Some && s.layout->0.bottom.height > 0 && area.width >= 2 ==> shown.title
                == "  "@ + title_text(
                "shell"@,
                status_text(s.sessions, key, now, true),
                (area.width - 2) as u16,
            )
            &&& s.layout is None || s.layout->0.bottom.height == 0 ==> shown.title == title_text(
                "shell"@,
                status_text(s.sessions, key, now, true),
                area.width,
            )
        }),
{
}

/// A title is the name, and behind a dash the status where there is room for
/// it; a status that is too long ends in dots.
pub proof fn law_titles_show_the_status(name: Seq<char>, status: Seq<char>, width: u16)
    requires
        status.len() > 0,
    ensures
        title_text(name, None, width) == name,
        width >= name.len() + status.len() + 5 ==> title_text(name, Some(status), width) == name
            + " — "@ + status,
        name.len() + 6 <= width < name.len() + status.len() + 5 ==> title_text(
            name,
            Some(status),
            width,
        ) == name + " — "@ + status.take(width - name.len() - 6).push('…'),
        width < name.len() + 6 ==> title_text(name, Some(status), width) == name,
        handled_title_text(name, Some(status), width, false) == title_text(
            name,
            Some(status),
            width,
        ),
        width >= 2 ==> handled_title_text(name, Some(status), width, true) == "  "@ + title_text(
            name,
            Some(status),
            (width - 2) as u16,
        ),
{
}

/// The handles point to where their panes go: a pane that is shown goes to the
/// edge, and one that is hidden comes back from it.
pub proof fn law_handles_point(layout: WorkbenchLayout)
    ensures
        layout.compact ==> handle_symbols(layout) is None,
        !layout.compact ==> ({
            let (sidebar, bottom) = handle_symbols(layout)->0;
            &&& handle_symbols(layout) is Some
            &&& layout.sidebar.width > 0 ==> sidebar == '◀'
            &&& layout.sidebar.width == 0 ==> sidebar == '▶'
            &&& layout.bottom.height > 0 ==> bottom == '▼'
            &&& layout.bottom.height == 0 ==> bottom == '▲'
        }),
{
}

/// A line of a menu reaches from border to border where its words leave room, on
/// the menu's own dark ground unless the pointer is over it.
pub proof fn law_menu_lines_fill_the_menu(menu: MenuView, i: int)
    requires
        0 <= i < menu.items.len(),
        menu.area.width >= 13,
    ensures
        ({
            let item = menu.items[i];
            let line = menu_lines(menu)[i];
            let over = menu.hovered == Some(item.action) && item.enabled;
            &&& line.spans[0].text.len() == menu.area.width - 2
            &&& line.spans[0].text[0] == ' '
            &&& !over ==> line.style.bg == Some(Color::Rgb(38, 38, 40))
        }),
{
    reveal_strlit(" ");
    reveal_strlit("Copy");
    reveal_strlit("Paste");
    reveal_strlit("New File");
    reveal_strlit("New Folder");
    reveal_strlit("Rename");
    reveal_strlit("Delete");
    let label = action_label(menu.items[i].action);
    lemma_blanks_len((menu.area.width - 3 - label.len()) as nat);
}

proof fn lemma_blanks_len(count: nat)
    ensures
        crate::style::repeated(" "@, count).len() == count,
    decreases count,
{
    reveal_strlit(" ");
    if count > 0 {
        lemma_blanks_len((count - 1) as nat);
    }
}

/// A pane that has too little room for a terminal is not shown.
pub proof fn law_small_panes_are_not_shown(
    s: RuntimeState,
    area: Rect,
    minimums: PaneMinimums,
    now: u128,
    layout: WorkbenchLayout,
    i: int,
)
    requires
        s.launch_mode == LaunchMode::Workbench,
        s.layout == Some(layout),
        !layout.compact,
        0 <= i < screen_shown(s, area, minimums, now)->0->panes.len(),
    ensures
        ({
            let pane = screen_shown(s, area, minimums, now)->0->panes[i];
            &&& pane.area.width >= minimums.terminal_width
            &&& pane.pane == PaneId::Bottom ==> pane.area.height >= minimums.shell_height
            &&& pane.pane != PaneId::Bottom ==> pane.area.height >= minimums.terminal_height
        }),
{
}

/// A menu has a line for every item, in order, with its words; what cannot be
/// chosen is dark, and what the pointer is over is turned round.
pub proof fn law_menu_shows_its_items(menu: MenuView, i: int)
    requires
        0 <= i < menu.items.len(),
    ensures
        ({
            let item = menu.items[i];
            let line = menu_lines(menu)[i];
            let over = menu.hovered == Some(item.action);
            let words = match item.action {
                ContextMenuAction::Copy => "Copy"@,
                ContextMenuAction::Paste => "Paste"@,
                ContextMenuAction::NewFile => "New File"@,
                ContextMenuAction::NewFolder => "New Folder"@,
                ContextMenuAction::Rename => "Rename"@,
                ContextMenuAction::Delete => "Delete"@,
            };
            &&& menu_lines(menu).len() == menu.items.len()
            &&& line.spans.len() == 1
            &&& line.spans[0].text.len() > words.len()
            &&& line.spans[0].text.subrange(1, 1int + words.len()) == words
            &&& !item.enabled ==> line.style.fg == Some(Color::DarkGray)
            &&& item.enabled && !over ==> line.style.fg == Some(Color::White) && !line.style.bold
            &&& item.enabled && over ==> line.style.fg == Some(Color::Black) && line.style.bg
                == Some(Color::White) && line.style.bold
        }),
{
    reveal_strlit(" ");
    let item = menu.items[i];
    let words = action_label(item.action);
    let text = menu_lines(menu)[i].spans[0].text;
    assert(text.subrange(1, 1int + words.len()) =~= words);
}

} // verus!
