//! The menu that a right click opens.

use vstd::prelude::*;
use vstd::string::*;

use crate::geometry::{difference, larger_of, largest, least, saturated, smaller_of, Rect};
use crate::style::{
    lines_view, push_line, repeat_text, repeated, styled_line, Color, LineView, TextLine, TextStyle,
};
use crate::text::join3;

verus! {

pub const MENU_WIDTH: u16 = 18;

/// The colour behind the menu.
pub open spec fn background() -> Color {
    Color::Rgb(38, 38, 40)
}

/// The colour behind the menu.
pub fn menu_background() -> (color: Color)
    ensures
        color == background(),
{
    Color::Rgb(38, 38, 40)
}

/// What a menu offers.
#[derive(Debug, Clone, Copy, PartialEq, Eq, Structural)]
pub enum ContextMenuAction {
    Copy,
    Paste,
    NewFile,
    NewFolder,
    Rename,
    Delete,
}

/// One line of a menu.
#[derive(Debug, Clone, Copy, PartialEq, Eq, Structural)]
pub struct MenuItem {
    pub action: ContextMenuAction,
    pub enabled: bool,
}

/// The words of an item.
pub open spec fn action_label(action: ContextMenuAction) -> Seq<char> {
    match action {
        ContextMenuAction::Copy => "Copy"@,
        ContextMenuAction::Paste => "Paste"@,
        ContextMenuAction::NewFile => "New File"@,
        ContextMenuAction::NewFolder => "New Folder"@,
        ContextMenuAction::Rename => "Rename"@,
        ContextMenuAction::Delete => "Delete"@,
    }
}

fn label_of(action: ContextMenuAction) -> (label: String)
    ensures
        label@ == action_label(action),
{
    match action {
        ContextMenuAction::Copy => "Copy".to_owned(),
        ContextMenuAction::Paste => "Paste".to_owned(),
        ContextMenuAction::NewFile => "New File".to_owned(),
        ContextMenuAction::NewFolder => "New Folder".to_owned(),
        ContextMenuAction::Rename => "Rename".to_owned(),
        ContextMenuAction::Delete => "Delete".to_owned(),
    }
}

/// An open menu.
#[derive(Debug, Clone)]
pub struct ContextMenu {
    area: Rect,
    items: Vec<MenuItem>,
    hovered: Option<ContextMenuAction>,
}

/// What a [`ContextMenu`] is, as a value.
pub struct MenuView {
    pub area: Rect,
    pub items: Seq<MenuItem>,
    pub hovered: Option<ContextMenuAction>,
}

impl View for ContextMenu {
    type V = MenuView;

    closed spec fn view(&self) -> MenuView {
        MenuView { area: self.area, items: self.items@, hovered: self.hovered }
    }
}

/// Where one coordinate of the menu starts: at the pointer, or further back
/// when the menu would reach past `end`, but not before `start`.
pub open spec fn menu_start(pointer: u16, start: u16, end: int, size: int) -> int {
    largest(least(pointer as int, difference(end, size)), start as int)
}

/// Where a menu of `count` items opens.
pub open spec fn menu_area(viewport: Rect, column: u16, row: u16, count: nat) -> Rect {
    let width = least(MENU_WIDTH as int, viewport.width as int);
    let height = least(
        saturated(least(count as int, u16::MAX as int), 2),
        viewport.height as int,
    );
    let x = menu_start(column, viewport.x, viewport.right_edge(), width);
    let y = menu_start(row, viewport.y, viewport.bottom_edge(), height);
    Rect {
        x: x as u16,
        y: y as u16,
        width: (saturated(x, width) - x) as u16,
        height: (saturated(y, height) - y) as u16,
    }
}

/// The items of a terminal's menu.
pub open spec fn terminal_items(copy_enabled: bool) -> Seq<MenuItem> {
    seq![
        MenuItem { action: ContextMenuAction::Copy, enabled: copy_enabled },
        MenuItem { action: ContextMenuAction::Paste, enabled: true },
    ]
}

/// The items of the sidebar's menu.
pub open spec fn sidebar_items(create_enabled: bool, item_actions_enabled: bool) -> Seq<MenuItem> {
    seq![
        MenuItem { action: ContextMenuAction::NewFile, enabled: create_enabled },
        MenuItem { action: ContextMenuAction::NewFolder, enabled: create_enabled },
        MenuItem { action: ContextMenuAction::Rename, enabled: item_actions_enabled },
        MenuItem { action: ContextMenuAction::Delete, enabled: item_actions_enabled },
    ]
}

/// A menu as it opens.
pub open spec fn opened(viewport: Rect, column: u16, row: u16, items: Seq<MenuItem>) -> MenuView {
    MenuView { area: menu_area(viewport, column, row, items.len()), items, hovered: None }
}

/// The item at a cell: the cells inside the border, a row each.
pub open spec fn item_at(menu: MenuView, column: u16, row: u16) -> Option<int> {
    let index = row - menu.area.y - 1;
    if menu.area.x < column && column < menu.area.right_edge() - 1 && menu.area.y < row && row
        < menu.area.bottom_edge() - 1 && index < menu.items.len() {
        Some(index)
    } else {
        None
    }
}

/// The action at a cell, if it is enabled.
pub open spec fn menu_action(menu: MenuView, column: u16, row: u16) -> Option<ContextMenuAction> {
    match item_at(menu, column, row) {
        Some(index) => if menu.items[index].enabled {
            Some(menu.items[index].action)
        } else {
            None
        },
        None => None,
    }
}

impl ContextMenu {
    /// The menu of a terminal.
    pub fn new(viewport: Rect, column: u16, row: u16, copy_enabled: bool) -> (menu: ContextMenu)
        ensures
            menu@ == opened(viewport, column, row, terminal_items(copy_enabled)),
    {
        let mut items: Vec<MenuItem> = Vec::new();
        items.push(MenuItem { action: ContextMenuAction::Copy, enabled: copy_enabled });
        items.push(MenuItem { action: ContextMenuAction::Paste, enabled: true });
        assert(items@ =~= terminal_items(copy_enabled));
        ContextMenu::from_items(viewport, column, row, items)
    }

    /// The menu of the sidebar.
    pub fn sidebar(
        viewport: Rect,
        column: u16,
        row: u16,
        create_enabled: bool,
        item_actions_enabled: bool,
    ) -> (menu: ContextMenu)
        ensures
            menu@ == opened(
                viewport,
                column,
                row,
                sidebar_items(create_enabled, item_actions_enabled),
            ),
    {
        let mut items: Vec<MenuItem> = Vec::new();
        items.push(MenuItem { action: ContextMenuAction::NewFile, enabled: create_enabled });
        items.push(MenuItem { action: ContextMenuAction::NewFolder, enabled: create_enabled });
        items.push(MenuItem { action: ContextMenuAction::Rename, enabled: item_actions_enabled });
        items.push(MenuItem { action: ContextMenuAction::Delete, enabled: item_actions_enabled });
        assert(items@ =~= sidebar_items(create_enabled, item_actions_enabled));
        ContextMenu::from_items(viewport, column, row, items)
    }

    fn from_items(viewport: Rect, column: u16, row: u16, items: Vec<MenuItem>) -> (menu:
        ContextMenu)
        ensures
            menu@ == opened(viewport, column, row, items@),
    {
        let width = smaller_of(MENU_WIDTH, viewport.width);
        let count: u16 = if items.len() <= 0xffff {
            items.len() as u16
        } else {
            0xffff
        };
        let height = smaller_of(count.saturating_add(2), viewport.height);
        let max_x = viewport.right().saturating_sub(width);
        let max_y = viewport.bottom().saturating_sub(height);
        ContextMenu {
            area: Rect::new(
                larger_of(smaller_of(column, max_x), viewport.x),
                larger_of(smaller_of(row, max_y), viewport.y),
                width,
                height,
            ),
            items,
            hovered: None,
        }
    }

    /// Marks the item under the pointer.
    pub fn update_hover(&mut self, column: u16, row: u16)
        ensures
            final(self)@ == (MenuView {
                hovered: menu_action(old(self)@, column, row),
                ..old(self)@
            }),
    {
        self.hovered = self.action_at(column, row);
    }

    /// The action at a cell, if it is enabled.
    pub fn action_at(&self, column: u16, row: u16) -> (action: Option<ContextMenuAction>)
        ensures
            action == menu_action(self@, column, row),
    {
        match self.item_index(column, row) {
            Some(index) => if self.items[index].enabled {
                Some(self.items[index].action)
            } else {
                None
            },
            None => None,
        }
    }

    fn item_index(&self, column: u16, row: u16) -> (index: Option<usize>)
        ensures
            (match index {
                Some(index) => Some(index as int),
                None => None,
            }) == item_at(self@, column, row),
            index is Some ==> index->0 < self.items@.len(),
    {
        if column <= self.area.x || column >= self.area.right().saturating_sub(1) || row
            <= self.area.y || row >= self.area.bottom().saturating_sub(1) {
            return None;
        }
        let index: usize = (row - self.area.y - 1) as usize;
        if index < self.items.len() {
            Some(index)
        } else {
            None
        }
    }

    /// Where the menu is.
    pub fn area(&self) -> (area: Rect)
        ensures
            area == self@.area,
    {
        self.area
    }

    /// The action under the pointer.
    pub fn hovered(&self) -> (hovered: Option<ContextMenuAction>)
        ensures
            hovered == self@.hovered,
    {
        self.hovered
    }
}

/// How an item looks.
pub open spec fn item_style(hovered: bool, enabled: bool) -> TextStyle {
    if hovered && enabled {
        TextStyle { fg: Some(Color::Black), bg: Some(Color::White), bold: true }
    } else {
        TextStyle {
            fg: Some(
                if enabled {
                    Color::White
                } else {
                    Color::DarkGray
                },
            ),
            bg: Some(background()),
            bold: false,
        }
    }
}

/// How an item looks.
pub fn menu_item_style(hovered: bool, enabled: bool) -> (style: TextStyle)
    ensures
        style == item_style(hovered, enabled),
{
    if hovered && enabled {
        TextStyle { fg: Some(Color::Black), bg: Some(Color::White), bold: true }
    } else if enabled {
        TextStyle { fg: Some(Color::White), bg: Some(menu_background()), bold: false }
    } else {
        TextStyle { fg: Some(Color::DarkGray), bg: Some(menu_background()), bold: false }
    }
}

/// A label behind a space, filled up with spaces to the width of the menu
/// inside its border.
pub open spec fn padded_label(label: Seq<char>, width: u16) -> Seq<char> {
    let room = difference(difference(width as int, 2), 1);
    " "@ + label + repeated(" "@, difference(room, label.len() as int) as nat)
}

/// The line of an item.
pub open spec fn item_line(menu: MenuView, item: MenuItem) -> LineView {
    styled_line(
        padded_label(action_label(item.action), menu.area.width),
        item_style(menu.hovered == Some(item.action), item.enabled),
    )
}

/// The lines inside a menu.
pub open spec fn menu_lines(menu: MenuView) -> Seq<LineView> {
    menu.items.map_values(|item: MenuItem| item_line(menu, item))
}

/// The lines inside a menu, from the top.
pub fn render_context_menu(menu: &ContextMenu) -> (lines: Vec<TextLine>)
    ensures
        lines_view(lines@) == menu_lines(menu@),
{
    let ghost all = menu_lines(menu@);
    let inner_width: usize = menu.area.width.saturating_sub(2) as usize;
    let room = inner_width.saturating_sub(1);
    let mut lines: Vec<TextLine> = Vec::new();
    let mut i: usize = 0;
    assert(lines_view(lines@) =~= all.take(0));
    while i < menu.items.len()
        invariant
            i <= menu.items@.len(),
            all == menu_lines(menu@),
            room == difference(difference(menu@.area.width as int, 2), 1),
            lines_view(lines@) == all.take(i as int),
        decreases menu.items@.len() - i,
    {
        let item = menu.items[i];
        let label = label_of(item.action);
        let fill = room.saturating_sub(label.as_str().unicode_len());
        let text = join3(" ", label.as_str(), repeat_text(" ", fill).as_str());
        let hovered = match menu.hovered {
            Some(action) => action == item.action,
            None => false,
        };
        let line = TextLine::styled(text, menu_item_style(hovered, item.enabled));
        push_line(&mut lines, line);
        proof {
            assert(all[i as int] == item_line(menu@, item));
            assert(all.take(i + 1) =~= all.take(i as int).push(all[i as int]));
        }
        i += 1;
    }
    assert(all.take(i as int) =~= all);
    lines
}

/// A menu opens inside the viewport.
pub proof fn law_menu_opens_inside_the_viewport(
    viewport: Rect,
    column: u16,
    row: u16,
    items: Seq<MenuItem>,
)
    ensures
        ({
            let area = opened(viewport, column, row, items).area;
            &&& viewport.x <= area.x
            &&& viewport.y <= area.y
            &&& area.right_edge() <= viewport.right_edge()
            &&& area.bottom_edge() <= viewport.bottom_edge()
        }),
{
}

/// A menu offers only what is enabled, and marks only what it offers.
pub proof fn law_disabled_items_are_never_chosen(menu: MenuView, column: u16, row: u16)
    ensures
        menu_action(menu, column, row) matches Some(action) ==> exists|i: int|
            0 <= i < menu.items.len() && (#[trigger] menu.items[i]).action == action
                && menu.items[i].enabled,
{
    if let Some(index) = item_at(menu, column, row) {
        assert(menu.items[index] == menu.items[index]);
    }
}

/// Whether items are enabled changes neither where the menu opens nor where an
/// item stands.
pub proof fn law_enabling_does_not_move_items(
    viewport: Rect,
    column: u16,
    row: u16,
    create: bool,
    change: bool,
    at_column: u16,
    at_row: u16,
)
    ensures
        opened(viewport, column, row, sidebar_items(create, change)).area == opened(
            viewport,
            column,
            row,
            sidebar_items(true, true),
        ).area,
        item_at(opened(viewport, column, row, sidebar_items(create, change)), at_column, at_row)
            == item_at(
            opened(viewport, column, row, sidebar_items(true, true)),
            at_column,
            at_row,
        ),
{
}

} // verus!
