//! What the sidebar looks like, line by line.

use vstd::prelude::*;
use vstd::string::*;

use crate::git::GitStatus;
use crate::path::{Part, PathBuf};
use crate::style::{
    colored, lines_view, plain_style, push_line, push_span, raw_span, repeat_text, repeated,
    spans_view, styled_line, Color, LineView, SpanView, TextLine, TextSpan, TextStyle,
};
use crate::text::{join2, text_view};
use crate::tree::{rows_view, EntryKind, RowView, SidebarRow};
use crate::trust::{SidebarTrustChrome, WorkspaceTrustState};

verus! {

/// What a name is being entered for.
#[derive(Debug, Clone, Copy, PartialEq, Eq, Structural)]
pub enum SidebarEditKind {
    NewFile,
    NewFolder,
    Rename,
}

/// A name that is being entered.
#[derive(Debug, Clone, Copy)]
pub struct SidebarEditView<'a> {
    pub target: &'a PathBuf,
    pub value: &'a str,
    pub kind: SidebarEditKind,
    pub error: Option<&'a str>,
}

/// What a [`SidebarEditView`] is, as a value.
pub struct EditView {
    pub target: Seq<Part>,
    pub value: Seq<char>,
    pub kind: SidebarEditKind,
    pub error: Option<Seq<char>>,
}

pub open spec fn str_option(text: Option<&str>) -> Option<Seq<char>> {
    match text {
        Some(text) => Some(text@),
        None => None,
    }
}

impl<'a> View for SidebarEditView<'a> {
    type V = EditView;

    open spec fn view(&self) -> EditView {
        EditView {
            target: self.target@,
            value: self.value@,
            kind: self.kind,
            error: str_option(self.error),
        }
    }
}

/// The edit in an option.
pub open spec fn edit_option(edit: Option<SidebarEditView<'_>>) -> Option<EditView> {
    match edit {
        Some(edit) => Some(edit@),
        None => None,
    }
}

/// The colours of the border.
#[derive(Debug, Clone, Copy, PartialEq, Eq, Structural)]
pub struct SidebarStyle {
    pub focused_border: Color,
    pub unfocused_border: Color,
}

impl Default for SidebarStyle {
    fn default() -> (style: SidebarStyle)
        ensures
            style.focused_border == Color::LightYellow,
            style.unfocused_border == Color::DarkGray,
    {
        SidebarStyle { focused_border: Color::LightYellow, unfocused_border: Color::DarkGray }
    }
}

/// Everything that the sidebar shows.
pub struct SidebarView<'a> {
    pub rows: &'a Vec<SidebarRow>,
    pub edit: Option<SidebarEditView<'a>>,
    pub trust: SidebarTrustChrome,
    pub error: Option<&'a str>,
    pub focused: bool,
    pub style: SidebarStyle,
}

/// The sidebar, ready to be painted.
#[derive(Debug, Clone, PartialEq, Eq)]
pub struct SidebarFrame {
    pub title: String,
    pub border: Color,
    pub lines: Vec<TextLine>,
}

/// The letter of a status.
pub open spec fn status_letter(status: GitStatus) -> char {
    match status {
        GitStatus::Modified => 'M',
        GitStatus::Added => 'A',
        GitStatus::Deleted => 'D',
        GitStatus::Renamed => 'R',
        GitStatus::Conflict => 'U',
        GitStatus::Untracked => '?',
    }
}

/// The letter of a status, if there is one.
pub fn git_marker(status: Option<GitStatus>) -> (marker: Option<char>)
    ensures
        marker == (match status {
            Some(status) => Some(status_letter(status)),
            None => None,
        }),
{
    match status {
        Some(status) => Some(
            match status {
                GitStatus::Modified => 'M',
                GitStatus::Added => 'A',
                GitStatus::Deleted => 'D',
                GitStatus::Renamed => 'R',
                GitStatus::Conflict => 'U',
                GitStatus::Untracked => '?',
            },
        ),
        None => None,
    }
}

/// The colour of a status.
pub open spec fn status_color(status: Option<GitStatus>) -> Color {
    match status {
        Some(GitStatus::Modified) => Color::Yellow,
        Some(GitStatus::Renamed) => Color::Yellow,
        Some(GitStatus::Added) => Color::Green,
        Some(GitStatus::Untracked) => Color::Green,
        Some(GitStatus::Deleted) => Color::LightRed,
        Some(GitStatus::Conflict) => Color::LightRed,
        None => Color::Reset,
    }
}

/// The colour of a status.
pub fn git_color(status: Option<GitStatus>) -> (color: Color)
    ensures
        color == status_color(status),
{
    match status {
        Some(GitStatus::Modified) => Color::Yellow,
        Some(GitStatus::Renamed) => Color::Yellow,
        Some(GitStatus::Added) => Color::Green,
        Some(GitStatus::Untracked) => Color::Green,
        Some(GitStatus::Deleted) => Color::LightRed,
        Some(GitStatus::Conflict) => Color::LightRed,
        None => Color::Reset,
    }
}

/// The marker before a row's name.
pub open spec fn marker_text(row: RowView) -> Seq<char> {
    if row.loading {
        "… "@
    } else if row.kind.is_directory() {
        if row.expanded {
            "▾ "@
        } else {
            "▸ "@
        }
    } else if row.error is Some {
        "! "@
    } else {
        "  "@
    }
}

/// The marker before a row's name.
pub fn row_marker(row: &SidebarRow) -> (marker: String)
    ensures
        marker@ == marker_text(row@),
{
    if row.loading {
        "… ".to_owned()
    } else if row.kind.is_directory() {
        if row.expanded {
            "▾ ".to_owned()
        } else {
            "▸ ".to_owned()
        }
    } else if row.error.is_some() {
        "! ".to_owned()
    } else {
        "  ".to_owned()
    }
}

/// The colour of the marker.
pub open spec fn marker_hue(row: RowView) -> Color {
    if row.error is Some {
        Color::LightRed
    } else if row.loading {
        Color::Yellow
    } else if row.kind.is_directory() {
        Color::LightBlue
    } else {
        Color::DarkGray
    }
}

/// The colour of the marker.
pub fn marker_color(row: &SidebarRow) -> (color: Color)
    ensures
        color == marker_hue(row@),
{
    if row.error.is_some() {
        Color::LightRed
    } else if row.loading {
        Color::Yellow
    } else if row.kind.is_directory() {
        Color::LightBlue
    } else {
        Color::DarkGray
    }
}

/// The mark of a kind behind a row's name.
pub open spec fn kind_text(kind: EntryKind) -> Option<Seq<char>> {
    match kind {
        EntryKind::SymlinkDirectory => Some(" @"@),
        EntryKind::Symlink => Some(" @"@),
        EntryKind::Deleted => Some(" ×"@),
        EntryKind::Other => Some(" ?"@),
        EntryKind::Directory => None,
        EntryKind::File => None,
    }
}

/// The mark of a kind behind a row's name.
pub fn kind_marker(kind: EntryKind) -> (marker: Option<String>)
    ensures
        text_view(marker) == kind_text(kind),
{
    match kind {
        EntryKind::SymlinkDirectory => Some(" @".to_owned()),
        EntryKind::Symlink => Some(" @".to_owned()),
        EntryKind::Deleted => Some(" ×".to_owned()),
        EntryKind::Other => Some(" ?".to_owned()),
        EntryKind::Directory => None,
        EntryKind::File => None,
    }
}

pub open spec fn colored_span(text: Seq<char>, color: Color) -> SpanView {
    SpanView { text, style: colored(color) }
}

/// One span, or none.
pub open spec fn maybe_span(text: Option<Seq<char>>, color: Color) -> Seq<SpanView> {
    match text {
        Some(text) => seq![colored_span(text, color)],
        None => seq![],
    }
}

/// An error behind a row's name.
pub open spec fn error_text(error: Option<Seq<char>>) -> Option<Seq<char>> {
    match error {
        Some(error) => Some(" ! "@ + error),
        None => None,
    }
}

/// The Git state behind a row's name: its own status, or a star when something
/// below it changed.
pub open spec fn git_spans(row: RowView) -> Seq<SpanView> {
    match row.git.status {
        Some(status) => seq![
            colored_span(" "@.push(status_letter(status)), status_color(Some(status))),
        ],
        None => if row.git.dirty_descendant {
            seq![colored_span(" *"@, Color::Yellow)]
        } else {
            seq![]
        },
    }
}

/// The style of the selected row.
pub open spec fn row_style(selected: bool) -> TextStyle {
    if selected {
        TextStyle { fg: None, bg: Some(Color::DarkGray), bold: true }
    } else {
        plain_style()
    }
}

/// The line of a row. `name` stands in for the row's own name.
pub open spec fn row_line(row: RowView, name: Option<Seq<char>>) -> LineView {
    let shown = match name {
        Some(name) => name,
        None => crate::text::lossy_text(row.name),
    };
    LineView {
        spans: seq![
            raw_span(repeated("  "@, row.depth)),
            colored_span(marker_text(row), marker_hue(row)),
            raw_span(shown),
        ] + maybe_span(kind_text(row.kind), Color::DarkGray) + maybe_span(
            error_text(row.error),
            Color::LightRed,
        ) + git_spans(row),
        style: row_style(row.selected),
    }
}

/// The line of a row.
pub fn sidebar_line(row: &SidebarRow, name_override: Option<&str>) -> (line: TextLine)
    ensures
        line@ == row_line(row@, str_option(name_override)),
{
    let mut spans: Vec<TextSpan> = Vec::new();
    assert(spans_view(spans@) =~= Seq::<SpanView>::empty());
    push_span(&mut spans, repeat_text("  ", row.depth), TextStyle::plain());
    push_span(&mut spans, row_marker(row), TextStyle::with_color(marker_color(row)));
    let name = match name_override {
        Some(name) => name.to_owned(),
        None => row.display_name(),
    };
    push_span(&mut spans, name, TextStyle::plain());
    proof {
        let shown = match str_option(name_override) {
            Some(name) => name,
            None => crate::text::lossy_text(row@.name),
        };
        assert(spans_view(spans@) =~= seq![
            raw_span(repeated("  "@, row@.depth)),
            colored_span(marker_text(row@), marker_hue(row@)),
            raw_span(shown),
        ]);
    }
    let ghost head = spans_view(spans@);
    if let Some(kind) = kind_marker(row.kind) {
        push_span(&mut spans, kind, TextStyle::with_color(Color::DarkGray));
    }
    let ghost kinds = maybe_span(kind_text(row@.kind), Color::DarkGray);
    assert(spans_view(spans@) =~= head + kinds);
    if let Some(error) = &row.error {
        push_span(
            &mut spans,
            join2(" ! ", error.as_str()),
            TextStyle::with_color(Color::LightRed),
        );
    }
    let ghost errors = maybe_span(error_text(row@.error), Color::LightRed);
    assert(spans_view(spans@) =~= head + kinds + errors);
    if let Some(marker) = git_marker(row.git.status) {
        let mut text = " ".to_owned();
        text.push(marker);
        push_span(&mut spans, text, TextStyle::with_color(git_color(row.git.status)));
    } else if row.git.dirty_descendant {
        push_span(&mut spans, " *".to_owned(), TextStyle::with_color(Color::Yellow));
    }
    assert(spans_view(spans@) =~= head + kinds + errors + git_spans(row@));
    let style = if row.selected {
        TextStyle { fg: None, bg: Some(Color::DarkGray), bold: true }
    } else {
        TextStyle::plain()
    };
    TextLine { spans, style }
}

/// The line in which the name of a new entry is entered.
pub open spec fn entry_line(depth: nat, edit: EditView) -> LineView {
    LineView {
        spans: seq![
            raw_span(repeated("  "@, depth)),
            colored_span(
                if edit.kind == SidebarEditKind::NewFolder {
                    "▸ "@
                } else {
                    "  "@
                },
                Color::LightBlue,
            ),
            SpanView {
                text: edit.value + "▏"@,
                style: TextStyle {
                    fg: Some(Color::White),
                    bg: Some(Color::DarkGray),
                    bold: true,
                },
            },
        ] + maybe_span(error_text(edit.error), Color::LightRed),
        style: plain_style(),
    }
}

/// The line in which the name of a new entry is entered.
pub fn edit_line(depth: usize, edit: SidebarEditView<'_>) -> (line: TextLine)
    ensures
        line@ == entry_line(depth as nat, edit@),
{
    let mut spans: Vec<TextSpan> = Vec::new();
    assert(spans_view(spans@) =~= Seq::<SpanView>::empty());
    push_span(&mut spans, repeat_text("  ", depth), TextStyle::plain());
    let marker = if edit.kind == SidebarEditKind::NewFolder {
        "▸ "
    } else {
        "  "
    };
    push_span(&mut spans, marker.to_owned(), TextStyle::with_color(Color::LightBlue));
    push_span(
        &mut spans,
        join2(edit.value, "▏"),
        TextStyle { fg: Some(Color::White), bg: Some(Color::DarkGray), bold: true },
    );
    if let Some(error) = edit.error {
        push_span(&mut spans, join2(" ! ", error), TextStyle::with_color(Color::LightRed));
    }
    let line = TextLine { spans, style: TextStyle::plain() };
    assert(line@.spans =~= entry_line(depth as nat, edit@).spans);
    line
}

/// The trust lines.
pub open spec fn trust_text(chrome: SidebarTrustChrome) -> Seq<LineView> {
    if chrome.confirming {
        seq![
            styled_line("Project resources may"@, colored(Color::LightRed)),
            styled_line("execute arbitrary code."@, colored(Color::LightRed)),
            styled_line("[ Trust + restart Pi ]"@, colored(Color::LightGreen)),
            styled_line("[ Cancel ]"@, colored(Color::Gray)),
        ]
    } else {
        match chrome.state {
            WorkspaceTrustState::Untrusted => seq![
                styled_line("Untrusted — click to trust"@, colored(Color::Yellow)),
            ],
            WorkspaceTrustState::Stale => seq![
                styled_line("Stale trust — click review"@, colored(Color::LightRed)),
            ],
            WorkspaceTrustState::Trusted => seq![
                styled_line("Trusted — click to revoke"@, colored(Color::LightGreen)),
            ],
        }
    }
}

/// The trust lines.
pub fn trust_lines(chrome: SidebarTrustChrome) -> (lines: Vec<TextLine>)
    ensures
        lines_view(lines@) == trust_text(chrome),
{
    let mut lines: Vec<TextLine> = Vec::new();
    assert(lines_view(lines@) =~= Seq::<LineView>::empty());
    if chrome.confirming {
        let red = TextStyle::with_color(Color::LightRed);
        push_line(&mut lines, TextLine::styled("Project resources may".to_owned(), red));
        push_line(&mut lines, TextLine::styled("execute arbitrary code.".to_owned(), red));
        push_line(
            &mut lines,
            TextLine::styled(
                "[ Trust + restart Pi ]".to_owned(),
                TextStyle::with_color(Color::LightGreen),
            ),
        );
        push_line(
            &mut lines,
            TextLine::styled("[ Cancel ]".to_owned(), TextStyle::with_color(Color::Gray)),
        );
        assert(lines_view(lines@) =~= trust_text(chrome));
        return lines;
    }
    let line = match chrome.state {
        WorkspaceTrustState::Untrusted => TextLine::styled(
            "Untrusted — click to trust".to_owned(),
            TextStyle::with_color(Color::Yellow),
        ),
        WorkspaceTrustState::Stale => TextLine::styled(
            "Stale trust — click review".to_owned(),
            TextStyle::with_color(Color::LightRed),
        ),
        WorkspaceTrustState::Trusted => TextLine::styled(
            "Trusted — click to revoke".to_owned(),
            TextStyle::with_color(Color::LightGreen),
        ),
    };
    push_line(&mut lines, line);
    assert(lines_view(lines@) =~= trust_text(chrome));
    lines
}

/// Whether a row is the one being renamed.
pub open spec fn renames(edit: Option<EditView>, row: RowView) -> bool {
    edit is Some && edit->0.kind == SidebarEditKind::Rename && edit->0.target == row.path
}

/// Whether a new entry is being named below a row.
pub open spec fn creates_below(edit: Option<EditView>, row: RowView) -> bool {
    edit is Some && edit->0.kind != SidebarEditKind::Rename && edit->0.target == row.path
}

/// The depth of what lies below a row.
pub open spec fn depth_below(row: RowView) -> nat {
    if row.depth < usize::MAX {
        row.depth + 1
    } else {
        row.depth
    }
}

/// The lines that one row takes.
pub open spec fn lines_of_row(row: RowView, edit: Option<EditView>) -> Seq<LineView> {
    let line = row_line(
        row,
        if renames(edit, row) {
            Some(edit->0.value)
        } else {
            None
        },
    );
    if creates_below(edit, row) {
        seq![line, entry_line(depth_below(row), edit->0)]
    } else {
        seq![line]
    }
}

/// The lines of all rows.
pub open spec fn lines_of_rows(rows: Seq<RowView>, edit: Option<EditView>) -> Seq<LineView>
    decreases rows.len(),
{
    if rows.len() == 0 {
        seq![]
    } else {
        lines_of_rows(rows.drop_last(), edit) + lines_of_row(rows.last(), edit)
    }
}

/// The line that says why there are no rows.
pub open spec fn empty_lines(rows: Seq<RowView>, error: Option<Seq<char>>) -> Seq<LineView> {
    match error {
        Some(error) => if rows.len() == 0 {
            seq![styled_line("! "@ + error, colored(Color::LightRed))]
        } else {
            seq![]
        },
        None => seq![],
    }
}

/// All lines of the sidebar.
pub open spec fn sidebar_lines(
    trust: SidebarTrustChrome,
    rows: Seq<RowView>,
    edit: Option<EditView>,
    error: Option<Seq<char>>,
) -> Seq<LineView> {
    trust_text(trust) + lines_of_rows(rows, edit) + empty_lines(rows, error)
}

/// The sidebar, ready to be painted.
pub fn render_sidebar(view: SidebarView<'_>) -> (frame: SidebarFrame)
    ensures
        frame.title@ == (if view.error is Some {
            "  sidebar !"@
        } else {
            "  sidebar"@
        }),
        frame.border == (if view.focused {
            view.style.focused_border
        } else {
            view.style.unfocused_border
        }),
        lines_view(frame.lines@) == sidebar_lines(
            view.trust,
            rows_view(view.rows@),
            edit_option(view.edit),
            str_option(view.error),
        ),
{
    let SidebarView { rows, edit, trust, error, focused, style } = view;
    let title = if error.is_some() {
        "  sidebar !".to_owned()
    } else {
        "  sidebar".to_owned()
    };
    let border = if focused {
        style.focused_border
    } else {
        style.unfocused_border
    };
    let mut lines = trust_lines(trust);
    let ghost head = trust_text(trust);
    let ghost all = rows_view(rows@);
    let ghost entered = edit_option(edit);
    let mut i: usize = 0;
    assert(all.take(0) =~= Seq::<RowView>::empty());
    assert(lines_view(lines@) =~= head + lines_of_rows(all.take(0), entered));
    while i < rows.len()
        invariant
            i <= rows@.len(),
            all == rows_view(rows@),
            entered == edit_option(edit),
            lines_view(lines@) == head + lines_of_rows(all.take(i as int), entered),
        decreases rows@.len() - i,
    {
        let row = &rows[i];
        let ghost before = lines_view(lines@);
        let mut rename: Option<&str> = None;
        let mut create = false;
        if let Some(edit) = edit {
            if edit.target.same(&row.path) {
                if edit.kind == SidebarEditKind::Rename {
                    rename = Some(edit.value);
                } else {
                    create = true;
                }
            }
        }
        let line = sidebar_line(row, rename);
        push_line(&mut lines, line);
        if create {
            if let Some(edit) = edit {
                let line = edit_line(row.depth.saturating_add(1), edit);
                push_line(&mut lines, line);
            }
        }
        proof {
            assert(all.take(i + 1).drop_last() =~= all.take(i as int));
            assert(all.take(i + 1).last() == row@);
            assert(lines_view(lines@) =~= before + lines_of_row(row@, entered));
            assert(before + lines_of_row(row@, entered) =~= head + lines_of_rows(
                all.take(i + 1),
                entered,
            ));
        }
        i += 1;
    }
    assert(all.take(i as int) =~= all);
    let ghost body = lines_view(lines@);
    if rows.len() == 0 {
        if let Some(error) = error {
            let line = TextLine::styled(
                join2("! ", error),
                TextStyle::with_color(Color::LightRed),
            );
            push_line(&mut lines, line);
        }
    }
    assert(lines_view(lines@) =~= body + empty_lines(all, str_option(error)));
    SidebarFrame { title, border, lines }
}

/// The trust lines take as many rows as they are clicked on, and every row of
/// the tree takes one more line, or two while something is named below it.
pub proof fn law_line_count(
    trust: SidebarTrustChrome,
    rows: Seq<RowView>,
    edit: Option<EditView>,
    error: Option<Seq<char>>,
)
    requires
        rows.len() > 0,
    ensures
        trust_text(trust).len() == crate::trust::trust_rows(trust),
        sidebar_lines(trust, rows, edit, error).len() >= crate::trust::trust_rows(trust) + rows.len(),
        edit is None ==> sidebar_lines(trust, rows, edit, error).len() == crate::trust::trust_rows(
            trust,
        ) + rows.len(),
{
    lemma_row_lines(rows, edit);
}

proof fn lemma_row_lines(rows: Seq<RowView>, edit: Option<EditView>)
    ensures
        lines_of_rows(rows, edit).len() >= rows.len(),
        edit is None ==> lines_of_rows(rows, edit).len() == rows.len(),
    decreases rows.len(),
{
    if rows.len() > 0 {
        lemma_row_lines(rows.drop_last(), edit);
    }
}

} // verus!
