//! What the small parts promise: measures, styles, words and gestures.

use vstd::prelude::*;
use vstd::string::*;

use crate::bytes::{lemma_first_index, split_at_most};
use crate::context_menu::{background, item_style};
use crate::geometry::{difference, largest, least, saturated, Rect};
use crate::input::{menu_key, moved_to, ContextMenuKeyAction, KeyCode, KeyEvent, MouseEvent};
use crate::path::{is_under, Part};
use crate::runtime_state::{begins_with, capability_changed, has_left, still_confirming};
use crate::sessions::{cleaned, fresh_slot, milliseconds_left, opens_files, prepared, ProcessKind};
use crate::sidebar_view::{empty_lines, error_text, kind_text, marker_hue, marker_text};
use crate::style::{colored, plain_style, raw_span, repeated, styled_line, Color, TextStyle};
use crate::subtree::subtree;
use crate::text::failure_text;
use crate::title::{hint_text, shortened, unavailable_text};
use crate::tree::{row_of, EntryKind, NodeView, RowView, Tree};
use crate::trust::{SidebarTrustChrome, WorkspaceTrustState};
use crate::workbench::{
    clamped, content_top, handle_activated, inner_rows, is_second_click, rollback, row_activated,
    terminal_area, tree_rows, LayoutHandle, MouseTarget, PaneId, PendingLayoutGesture,
    PendingMouseGesture, TerminalSize, WorkbenchLayout,
};

verus! {

/// Coordinates are added and taken away within what a screen can count, and of
/// two measures one is the least and the other the largest.
pub proof fn law_measures(left: u16, right: u16)
    ensures
        least(left as int, right as int) <= left && least(left as int, right as int) <= right,
        largest(left as int, right as int) >= left && largest(left as int, right as int) >= right,
        least(left as int, right as int) + largest(left as int, right as int) == left + right,
        left + right <= u16::MAX ==> saturated(left as int, right as int) == left + right,
        left + right > u16::MAX ==> saturated(left as int, right as int) == u16::MAX,
        left >= right ==> difference(left as int, right as int) + right == left,
        left < right ==> difference(left as int, right as int) == 0,
{
}

/// The far edges of a rectangle are as far from its corner as it is large.
pub proof fn law_edges(area: Rect)
    ensures
        area.x + area.width <= u16::MAX ==> area.right_edge() - area.x == area.width,
        area.y + area.height <= u16::MAX ==> area.bottom_edge() - area.y == area.height,
        area.x + area.width > u16::MAX ==> area.right_edge() == u16::MAX,
        area.y + area.height > u16::MAX ==> area.bottom_edge() == u16::MAX,
{
}

/// A measure that is moved stays between its bounds, and moves as far as it can.
pub proof fn law_moved_measures(start: u16, delta: int, min: u16, max: int)
    ensures
        clamped(start, delta, min, max) >= min,
        max >= min ==> clamped(start, delta, min, max) <= max,
        max < min ==> clamped(start, delta, min, max) == min,
        min <= start + delta <= max ==> clamped(start, delta, min, max) == start + delta,
        start + delta < min ==> clamped(start, delta, min, max) == min,
        start + delta > max >= min ==> clamped(start, delta, min, max) == max,
{
}

/// A repeated text is the text so many times, one behind the other.
pub proof fn law_repeated_texts(text: Seq<char>, count: nat)
    ensures
        repeated(text, 0).len() == 0,
        repeated(text, 1) == text,
        repeated(text, count + 1) == text + repeated(text, count),
        repeated(text, count + 1) == repeated(text, count) + text,
    decreases count,
{
    reveal_with_fuel(repeated, 3);
    assert(repeated(text, 1) =~= text);
    if count > 0 {
        law_repeated_texts(text, (count - 1) as nat);
        assert(text + repeated(text, (count - 1) as nat) + text =~= text + (repeated(
            text,
            (count - 1) as nat,
        ) + text));
    } else {
        assert(text + repeated(text, 0) =~= text);
        assert(repeated(text, 0) + text =~= text);
    }
}

/// Plain text has no colours, coloured text has its own, and a line in a style
/// holds its text plainly.
pub proof fn law_styles(text: Seq<char>, color: Color, style: TextStyle)
    ensures
        plain_style() == (TextStyle { fg: None, bg: None, bold: false }),
        colored(color) == (TextStyle { fg: Some(color), bg: None, bold: false }),
        raw_span(text).text == text,
        raw_span(text).style == plain_style(),
        styled_line(text, style).style == style,
        styled_line(text, style).spans.len() == 1,
        styled_line(text, style).spans[0] == raw_span(text),
{
}

/// An item of a menu is white on dark, grey where it cannot be chosen, and
/// black on white under the pointer.
pub proof fn law_item_styles(hovered: bool, enabled: bool)
    ensures
        hovered && enabled ==> item_style(hovered, enabled) == (TextStyle {
            fg: Some(Color::Black),
            bg: Some(Color::White),
            bold: true,
        }),
        !hovered && enabled ==> item_style(hovered, enabled) == (TextStyle {
            fg: Some(Color::White),
            bg: Some(Color::Rgb(38, 38, 40)),
            bold: false,
        }),
        !enabled ==> item_style(hovered, enabled) == (TextStyle {
            fg: Some(Color::DarkGray),
            bg: Some(Color::Rgb(38, 38, 40)),
            bold: false,
        }),
        background() == Color::Rgb(38, 38, 40),
{
}

/// Super and C copy in a menu where there is something to copy, Super and V
/// paste, and every other key closes the menu.
pub proof fn law_menu_shortcuts(key: KeyEvent, enabled: bool)
    ensures
        ({
            let held = key.modifiers.bits & 8u8 == 8u8;
            let copies = enabled && held && key.code == KeyCode::Char('c');
            let pastes = held && key.code == KeyCode::Char('v');
            &&& menu_key(key, enabled) == ContextMenuKeyAction::Copy <==> copies
            &&& menu_key(key, enabled) == ContextMenuKeyAction::Paste <==> pastes
            &&& menu_key(key, enabled) == ContextMenuKeyAction::Dismiss <==> !copies && !pastes
        }),
{
}

/// An event that is told to a terminal is told at the terminal's own row and
/// column and is the same otherwise; the pointer has left a cell when either
/// differs.
pub proof fn law_moved_events(event: MouseEvent, origin: MouseEvent, row: u16, col: u16)
    ensures
        moved_to(event, row, col).row == row,
        moved_to(event, row, col).column == col,
        moved_to(event, row, col).kind == event.kind,
        moved_to(event, row, col).modifiers == event.modifiers,
        has_left(event, origin) <==> !(event.row == origin.row && event.column == origin.column),
{
}

/// A confirmation stays open only while trust is what it was and is known;
/// trust is gained or lost when it is trusted on one side alone.
pub proof fn law_trust_changes(
    confirming: bool,
    previous: WorkspaceTrustState,
    current: WorkspaceTrustState,
    unknown: bool,
)
    ensures
        still_confirming(confirming, previous, current, unknown) ==> confirming && !unknown
            && previous == current,
        confirming && !unknown && previous == current ==> still_confirming(
            confirming,
            previous,
            current,
            unknown,
        ),
        capability_changed(previous, current) == capability_changed(current, previous),
        !capability_changed(previous, previous),
        previous == WorkspaceTrustState::Trusted && current != WorkspaceTrustState::Trusted
            ==> capability_changed(previous, current),
        previous != WorkspaceTrustState::Trusted && current != WorkspaceTrustState::Trusted
            ==> !capability_changed(previous, current),
{
}

/// Files are opened by a running editor that was made ready, and by nothing
/// else; making ready and giving up concern the editor alone.
pub proof fn law_ready_editors(kind: ProcessKind, running: bool, ready: bool)
    ensures
        opens_files(ProcessKind::ManagedNvim { ready }, running) <==> ready && running,
        !opens_files(ProcessKind::NativePi, running),
        !opens_files(ProcessKind::Static, running),
        prepared(ProcessKind::ManagedNvim { ready }) == (ProcessKind::ManagedNvim { ready: true }),
        cleaned(ProcessKind::ManagedNvim { ready }) == (ProcessKind::ManagedNvim { ready: false }),
        !(kind is ManagedNvim) ==> prepared(kind) == kind && cleaned(kind) == kind,
{
}

/// A new place is about to be started for the first time.
pub proof fn law_new_places(kind: ProcessKind, name: Seq<char>, size: TerminalSize)
    ensures
        fresh_slot(kind, name, size).kind == kind,
        fresh_slot(kind, name, size).source_name == name,
        fresh_slot(kind, name, size).display_name == name,
        fresh_slot(kind, name, size).size == size,
        fresh_slot(kind, name, size).generation == 0,
        fresh_slot(kind, name, size).state is Starting,
{
}

/// Time that is left is told in full milliseconds.
pub proof fn law_time_left(until: u128, now: u128)
    ensures
        until <= now ==> milliseconds_left(until, now) == 0,
        until > now ==> milliseconds_left(until, now) * 1_000_000 <= until - now < (
        milliseconds_left(until, now) + 1) * 1_000_000,
{
}

/// The words around a status: how to try again, what failed where and why, and
/// what became of the last action in the editor.
pub proof fn law_words(
    what: Seq<char>,
    place: Seq<char>,
    reason: Seq<char>,
    pane: PaneId,
    width: nat,
)
    ensures
        hint_text(true) == "click to retry"@,
        hint_text(false) == "press any key to retry"@,
        failure_text(what, place, reason) == what + place + ": "@ + reason,
        unavailable_text(PaneId::Editor, what, Some(reason)) == reason + "; "@ + what,
        pane != PaneId::Editor ==> unavailable_text(pane, what, Some(reason)) == what,
        unavailable_text(pane, what, None) == what,
        what.len() <= width ==> shortened(what, width) == what,
        what.len() > width > 0 ==> shortened(what, width).len() == width && shortened(
            what,
            width,
        ).last() == '…' && shortened(what, width).drop_last() == what.take(width - 1),
        begins_with(what + place, what),
        begins_with(what, place) ==> what.len() >= place.len() && what == place + what.skip(
            place.len() as int,
        ),
{
    assert((what + place).take(what.len() as int) =~= what);
    if what.len() > width > 0 {
        assert(shortened(what, width).drop_last() =~= what.take(width - 1));
    }
    if begins_with(what, place) {
        assert(what =~= what.take(place.len() as int) + what.skip(place.len() as int));
    }
}

/// A row is its node, seen from outside: by its own name, at its depth, and
/// nothing of it is left out.
pub proof fn law_rows_are_their_nodes(
    node: NodeView,
    path: Seq<Part>,
    depth: nat,
    selected: bool,
)
    ensures
        ({
            let row = row_of(node, path, depth, selected);
            &&& row.path == path
            &&& row.text == node.text
            &&& row.name == node.name
            &&& row.depth == depth
            &&& row.kind == node.kind
            &&& row.expanded == node.expanded
            &&& row.loading == node.loading
            &&& row.selected == selected
            &&& row.error == node.error
            &&& row.git == node.git
        }),
{
}

/// Where there are no rows, what is wrong has a red line of its own.
pub proof fn law_trouble_without_rows(rows: Seq<RowView>, error: Seq<char>)
    ensures
        rows.len() == 0 ==> empty_lines(rows, Some(error)) == seq![
            styled_line(
                "! "@ + error,
                TextStyle { fg: Some(Color::LightRed), bg: None, bold: false },
            ),
        ],
        rows.len() > 0 ==> empty_lines(rows, Some(error)).len() == 0,
        empty_lines(rows, None).len() == 0,
{
}

/// The marks of a row, by what it is.
pub proof fn law_row_marks(row: RowView, error: Seq<char>)
    ensures
        kind_text(EntryKind::Symlink) == Some(" @"@),
        kind_text(EntryKind::SymlinkDirectory) == Some(" @"@),
        kind_text(EntryKind::Deleted) == Some(" ×"@),
        kind_text(EntryKind::Other) == Some(" ?"@),
        kind_text(EntryKind::File) is None,
        kind_text(EntryKind::Directory) is None,
        error_text(Some(error)) == Some(" ! "@ + error),
        error_text(None) is None,
        row.loading ==> marker_text(row) == "… "@,
        !row.loading && row.kind == EntryKind::Directory && row.expanded ==> marker_text(row)
            == "▾ "@,
        !row.loading && row.kind == EntryKind::Directory && !row.expanded ==> marker_text(row)
            == "▸ "@,
        !row.loading && row.kind == EntryKind::File && row.error is Some ==> marker_text(row)
            == "! "@,
        !row.loading && row.kind == EntryKind::File && row.error is None ==> marker_text(row)
            == "  "@,
        row.error is Some ==> marker_hue(row) == Color::LightRed,
        row.error is None && row.loading ==> marker_hue(row) == Color::Yellow,
{
}

/// A handle is activated by letting it go where it was pressed, a drag that is
/// given up restores the layout it began with, and a row is activated by letting
/// it go in the cell where it was pressed.
pub proof fn law_gestures(
    handle: LayoutHandle,
    origin: MouseEvent,
    moved: bool,
    release: Option<MouseTarget>,
    gesture: PendingLayoutGesture,
    pending: PendingMouseGesture,
    up: MouseEvent,
    row: u16,
    col: u16,
)
    requires
        pending.target == (MouseTarget::Sidebar { row, col }),
    ensures
        handle_activated(PendingLayoutGesture::Handle { handle, origin, moved }, release)
            == Some(handle) <==> !moved && release == Some(MouseTarget::Handle(handle)),
        gesture is Drag ==> handle_activated(gesture, release) is None,
        gesture is Drag ==> rollback(Some(gesture)) == Some(gesture->config),
        gesture is Handle ==> rollback(Some(gesture)) is None,
        rollback(None) is None,
        row_activated(pending, up) == Some(row as usize) <==> !pending.moved && up.row
            == pending.down.row && up.column == pending.down.column,
        row_activated(pending, up) is Some ==> row_activated(pending, up) == Some(row as usize),
{
}

/// A second click follows a first on the same path within two fifths of a
/// second.
pub proof fn law_second_clicks(path: Seq<Part>, other: Seq<Part>, first: u128, second: u128)
    ensures
        is_second_click(Some((path, first)), path, second) <==> second <= first + 400_000_000,
        other != path ==> !is_second_click(Some((other, first)), path, second),
        !is_second_click(None, path, second),
{
}

/// A pane has a border on each side; the bottom pane has its tabs besides, and
/// the sidebar its trust lines.
pub proof fn law_pane_insides(layout: WorkbenchLayout, area: Rect, chrome: SidebarTrustChrome)
    ensures
        area.height >= 2 ==> inner_rows(area) == area.height - 2,
        area.height < 2 ==> inner_rows(area) == 0,
        area.height >= 6 && chrome.confirming ==> tree_rows(area, chrome) == area.height - 6,
        area.height >= 3 && !chrome.confirming ==> tree_rows(area, chrome) == area.height - 3,
        area.height < 3 ==> tree_rows(area, chrome) == 0,
        terminal_area(layout, PaneId::Editor) == Some(layout.editor),
        terminal_area(layout, PaneId::Agent) == Some(layout.agent),
        terminal_area(layout, PaneId::Bottom) == Some(layout.bottom),
        terminal_area(layout, PaneId::Sidebar) is None,
        area.y <= u16::MAX - 2 ==> content_top(area, PaneId::Bottom) == area.y + 2,
        area.y <= u16::MAX - 2 ==> content_top(area, PaneId::Editor) == area.y + 1,
        area.y <= u16::MAX - 2 ==> content_top(area, PaneId::Agent) == area.y + 1,
{
}

/// What is under the pointer belongs to a pane, unless it is a handle or a
/// divider.
pub proof fn law_targets_belong_to_panes(
    pane: PaneId,
    handle: LayoutHandle,
    target: MouseTarget,
    row: u16,
    col: u16,
)
    ensures
        (MouseTarget::Content { pane, row, col }).pane_of() == Some(pane),
        (MouseTarget::Sidebar { row, col }).pane_of() == Some(PaneId::Sidebar),
        MouseTarget::Border(pane).pane_of() == Some(pane),
        target is Handle || target is Divider ==> target.pane_of() is None,
{
}

/// A record is split at its first separators into at most so many pieces, and
/// the last piece keeps the separators that are left.
pub proof fn law_split_records(text: Seq<u8>, sep: u8, count: nat)
    requires
        count > 0,
    ensures
        0 < split_at_most(text, sep, count).len() <= count,
        !text.contains(sep) ==> split_at_most(text, sep, count) == seq![text],
        split_at_most(text, sep, 1) == seq![text],
        forall|i: int|
            0 <= i < split_at_most(text, sep, count).len() - 1 ==> !(#[trigger] split_at_most(
                text,
                sep,
                count,
            )[i]).contains(sep),
    decreases count,
{
    lemma_first_index(text, sep);
    let at = crate::bytes::first_index(text, sep);
    let pieces = split_at_most(text, sep, count);
    if at < text.len() {
        assert(text.contains(text[at as int]));
        if count > 1 {
            let rest = split_at_most(text.skip(at + 1int), sep, (count - 1) as nat);
            law_split_records(text.skip(at + 1int), sep, (count - 1) as nat);
            assert(pieces == seq![text.take(at as int)] + rest);
            assert forall|i: int| 0 <= i < pieces.len() - 1 implies !(
            #[trigger] pieces[i]).contains(sep) by {
                if i == 0 {
                    let first = text.take(at as int);
                    if first.contains(sep) {
                        let j = first.index_of(sep);
                        assert(first[j] == text[j]);
                    }
                } else {
                    assert(pieces[i] == rest[i - 1]);
                }
            }
        }
    }
}

/// What hangs on a node is the node, if there is one, and what is listed below
/// it, step by step; nothing else.
pub proof fn law_what_hangs_on_a_node(tree: Tree, top: Seq<Part>, path: Seq<Part>, child: Seq<Part>)
    requires
        path.len() + 1 == child.len(),
        child.drop_last() == path,
    ensures
        subtree(tree, top).contains(top) <==> tree.contains_key(top),
        subtree(tree, top).contains(path) && tree[path].children.contains(child)
            && tree.contains_key(child) ==> subtree(tree, top).contains(child),
        subtree(tree, top).contains(path) ==> tree.contains_key(path) && is_under(path, top),
{
    assert(top.take(top.len() as int) =~= top);
    assert(path.take(path.len() as int) =~= path);
    assert(child.take(child.len() as int) =~= child);
    if tree.contains_key(top) {
        assert forall|k: int| top.len() <= k <= top.len() implies {
            &&& #[trigger] tree.contains_key(top.take(k))
            &&& k < top.len() ==> tree[top.take(k)].children.contains(top.take(k + 1))
        } by {
            assert(top.take(k) =~= top);
        }
    }
    if subtree(tree, top).contains(top) {
        assert(tree.contains_key(top.take(top.len() as int)));
    }
    if subtree(tree, top).contains(path) {
        assert(tree.contains_key(path.take(path.len() as int)));
        if tree[path].children.contains(child) && tree.contains_key(child) {
            assert(child.take(top.len() as int) =~= path.take(top.len() as int));
            assert forall|k: int| top.len() <= k <= child.len() implies {
                &&& #[trigger] tree.contains_key(child.take(k))
                &&& k < child.len() ==> tree[child.take(k)].children.contains(child.take(k + 1))
            } by {
                if k < child.len() {
                    assert(child.take(k) =~= path.take(k));
                    assert(tree.contains_key(path.take(k)));
                    if k < path.len() {
                        assert(child.take(k + 1) =~= path.take(k + 1));
                    } else {
                        assert(child.take(k + 1) =~= child);
                    }
                } else {
                    assert(child.take(k) =~= child);
                }
            }
        }
    }
}

} // verus!
