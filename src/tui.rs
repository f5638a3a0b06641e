//! The terminal front end's state: which list and item are selected, which
//! lists are expanded, and the line being edited. Key presses change it and
//! yield the edits to send to the replica.
use vstd::prelude::*;
use vstd::string::StrSliceExecFns;
use vstd::string::StringExecFns;
use crate::model::{push_char, TodoCommand, TodoEvent, TodoState, apply_command, after_command};

verus! {

/// What `str::trim` leaves of `s`: the text without white space at either end.
pub uninterp spec fn trimmed(s: Seq<char>) -> Seq<char>;

/// Relies on `str::trim`: the text without leading and trailing white space.
#[verifier::external_body]
fn trim_text(s: &str) -> (r: String)
    ensures
        r@ == trimmed(s@),
{
    s.trim().to_string()
}

/// Where the keys go.
#[derive(Debug, Clone, Copy, PartialEq, Eq, Structural)]
pub enum Focus {
    /// Navigating the list of todo lists.
    ListSelector,
    /// Navigating items within an expanded list.
    ItemList,
    /// Editing text inline.
    Editing,
}

/// What an edit line is for.
#[derive(Debug, Clone, Copy, PartialEq, Eq, Structural)]
pub enum EditTarget {
    NewList,
    RenameList { list_index: usize },
    NewItem { list_index: usize },
    EditItem { list_index: usize, item_index: usize },
}

/// A line being edited, with a cursor counted in characters.
#[derive(Debug)]
pub struct EditState {
    pub buffer: String,
    pub cursor: usize,
    pub target: EditTarget,
}

impl EditState {
    pub open spec fn wf(&self) -> bool {
        self.cursor <= self.buffer@.len()
    }

    /// Starts editing `initial`, the cursor at its end.
    pub fn new(target: EditTarget, initial: &str) -> (r: EditState)
        ensures
            r.wf(),
            r.buffer@ == initial@,
            r.cursor == initial@.len(),
            r.target == target,
    {
        EditState { cursor: initial.unicode_len(), buffer: initial.to_owned(), target }
    }

    /// Inserts `ch` at the cursor and moves past it.
    pub fn insert_char(&mut self, ch: char)
        requires
            old(self).wf(),
            old(self).buffer@.len() < usize::MAX,
        ensures
            final(self).wf(),
            final(self).target == old(self).target,
            final(self).buffer@ == old(self).buffer@.subrange(0, old(self).cursor as int).push(ch)
                + old(self).buffer@.subrange(old(self).cursor as int, old(self).buffer@.len() as int),
            final(self).cursor == old(self).cursor + 1,
    {
        let len = self.buffer.as_str().unicode_len();
        let mut s = self.buffer.as_str().substring_char(0, self.cursor).to_owned();
        push_char(&mut s, ch);
        s.append(self.buffer.as_str().substring_char(self.cursor, len));
        self.buffer = s;
        self.cursor = self.cursor + 1;
    }

    /// Deletes the character before the cursor, if any.
    pub fn delete_back(&mut self)
        requires
            old(self).wf(),
        ensures
            final(self).wf(),
            final(self).target == old(self).target,
            old(self).cursor == 0 ==> final(self).buffer@ == old(self).buffer@ && final(self).cursor
                == 0,
            old(self).cursor > 0 ==> final(self).buffer@ == old(self).buffer@.subrange(
                0,
                old(self).cursor - 1,
            ) + old(self).buffer@.subrange(old(self).cursor as int, old(self).buffer@.len() as int)
                && final(self).cursor == old(self).cursor - 1,
    {
        if self.cursor > 0 {
            let len = self.buffer.as_str().unicode_len();
            let mut s = self.buffer.as_str().substring_char(0, self.cursor - 1).to_owned();
            s.append(self.buffer.as_str().substring_char(self.cursor, len));
            self.buffer = s;
            self.cursor = self.cursor - 1;
        }
    }

    /// Deletes the character under the cursor, if any.
    pub fn delete_forward(&mut self)
        requires
            old(self).wf(),
        ensures
            final(self).wf(),
            final(self).target == old(self).target,
            final(self).cursor == old(self).cursor,
            old(self).cursor == old(self).buffer@.len() ==> final(self).buffer@ == old(self).buffer@,
            old(self).cursor < old(self).buffer@.len() ==> final(self).buffer@ == old(self).buffer@.subrange(0, old(self).cursor as int) + old(self).buffer@.subrange(
                old(self).cursor + 1,
                old(self).buffer@.len() as int,
            ),
    {
        let len = self.buffer.as_str().unicode_len();
        if self.cursor < len {
            let mut s = self.buffer.as_str().substring_char(0, self.cursor).to_owned();
            s.append(self.buffer.as_str().substring_char(self.cursor + 1, len));
            self.buffer = s;
        }
    }

    /// Moves the cursor one character left, if it can.
    pub fn move_left(&mut self)
        requires
            old(self).wf(),
        ensures
            final(self).wf(),
            final(self).target == old(self).target,
            final(self).buffer@ == old(self).buffer@,
            final(self).cursor == if old(self).cursor > 0 {
                old(self).cursor - 1
            } else {
                0
            },
    {
        if self.cursor > 0 {
            self.cursor = self.cursor - 1;
        }
    }

    /// Moves the cursor one character right, if it can.
    pub fn move_right(&mut self)
        requires
            old(self).wf(),
        ensures
            final(self).wf(),
            final(self).target == old(self).target,
            final(self).buffer@ == old(self).buffer@,
            final(self).cursor == if old(self).cursor < old(self).buffer@.len() {
                old(self).cursor + 1
            } else {
                old(self).cursor as int
            },
    {
        let len = self.buffer.as_str().unicode_len();
        if self.cursor < len {
            self.cursor = self.cursor + 1;
        }
    }
}

/// How a list is shown.
#[derive(Debug, Clone, Copy, PartialEq, Eq, Structural)]
pub struct ListUiState {
    pub expanded: bool,
    pub selected_item: usize,
}

/// A key press, as the front end sees it.
#[derive(Debug, Clone, Copy, PartialEq, Eq, Structural)]
pub enum Key {
    Char(char),
    CtrlC,
    Up,
    Down,
    Left,
    Right,
    Enter,
    Esc,
    Backspace,
    Delete,
    Other,
}

/// The whole front-end state.
#[derive(Debug)]
pub struct TuiState {
    pub todo_state: TodoState,
    /// Index of the selected list; one past the last is the "add a list" row.
    pub selected_list: usize,
    /// One entry per list.
    pub list_ui: Vec<ListUiState>,
    pub focus: Focus,
    pub edit: Option<EditState>,
    pub connection_status: String,
    pub scroll_offset: u16,
    pub should_quit: bool,
}

/// The focus to return to when an edit ends.
pub open spec fn resting_focus(expanded: bool) -> Focus {
    if expanded {
        Focus::ItemList
    } else {
        Focus::ListSelector
    }
}

/// A selection clamped to `n` entries: the last one where it is past them, 0 where there are none.
pub open spec fn clamped(sel: int, n: int) -> int {
    if n == 0 {
        0
    } else if sel >= n {
        n - 1
    } else {
        sel
    }
}

/// What finishing an edit for `target` with trimmed text `text` does: empty
/// text changes nothing but the focus; other text makes the edit here and
/// returns it.
pub open spec fn text_confirmed(
    pre: TuiState,
    post: TuiState,
    target: EditTarget,
    text: Seq<char>,
    cmd: Option<TodoCommand>,
) -> bool {
    &&& post.selected_list == pre.selected_list
    &&& text.len() == 0 ==> cmd is None && post.todo_state == pre.todo_state && post.list_ui
        == pre.list_ui && post.focus == resting_focus(pre.spec_expanded())
    &&& text.len() > 0 ==> cmd is Some && post.todo_state@ == after_command(pre.todo_state@, cmd->0)
        && match target {
        EditTarget::NewList => {
            &&& cmd->0 is AddList
            &&& cmd->0->AddList_title@ == text
            &&& cmd->0->AddList_metadata@.len() == 0
            &&& post.list_ui@ == pre.list_ui@.push(ListUiState { expanded: false, selected_item: 0 })
            &&& post.focus == Focus::ListSelector
        },
        EditTarget::RenameList { list_index } => {
            &&& cmd->0 is RenameList
            &&& cmd->0->RenameList_list_index == list_index
            &&& cmd->0->RenameList_title@ == text
            &&& post.list_ui == pre.list_ui
            &&& post.focus == resting_focus(pre.spec_expanded())
        },
        EditTarget::NewItem { list_index } => {
            &&& cmd->0 is AddTodo
            &&& cmd->0->AddTodo_list_index == list_index
            &&& cmd->0->AddTodo_text@ == text
            &&& cmd->0->AddTodo_metadata@.len() == 0
            &&& post.list_ui == pre.list_ui
            &&& post.focus == Focus::ItemList
        },
        EditTarget::EditItem { list_index, item_index } => {
            &&& cmd->0 is RenameTodo
            &&& cmd->0->RenameTodo_list_index == list_index
            &&& cmd->0->RenameTodo_item_index == item_index
            &&& cmd->0->RenameTodo_text@ == text
            &&& post.list_ui == pre.list_ui
            &&& post.focus == Focus::ItemList
        },
    }
}

impl TuiState {
    pub open spec fn wf(&self) -> bool {
        &&& self.list_ui@.len() == self.todo_state@.len()
        &&& self.selected_list <= self.todo_state@.len()
        &&& self.todo_state@.len() < usize::MAX
        &&& (self.edit is Some ==> self.edit->0.wf())
    }

    pub open spec fn spec_expanded(&self) -> bool {
        self.selected_list < self.list_ui@.len() && self.list_ui@[self.selected_list as int].expanded
    }

    pub open spec fn spec_items_in_selected(&self) -> int {
        if self.selected_list < self.todo_state@.len() {
            self.todo_state@[self.selected_list as int].items.len() as int
        } else {
            0
        }
    }

    pub fn new() -> (r: TuiState)
        ensures
            r.wf(),
            r.todo_state@.len() == 0,
            r.selected_list == 0,
            r.focus == Focus::ListSelector,
            r.edit is None,
            !r.should_quit,
    {
        TuiState {
            todo_state: TodoState::new(),
            selected_list: 0,
            list_ui: Vec::new(),
            focus: Focus::ListSelector,
            edit: None,
            connection_status: String::new(),
            scroll_offset: 0,
            should_quit: false,
        }
    }

    /// Takes an event of the replica: a new document keeps the display state
    /// of the lists that are still there, and the selection stays in range.
    pub fn handle_event(&mut self, event: TodoEvent)
        requires
            old(self).wf(),
        ensures
            match event {
                TodoEvent::StateUpdate(s) => {
                    &&& s.lists@.len() < usize::MAX ==> final(self).wf()
                    &&& final(self).todo_state == s
                    &&& final(self).list_ui@.len() == s.lists@.len()
                    &&& forall|i: int|
                        0 <= i < s.lists@.len() ==> #[trigger] final(self).list_ui@[i] == if i
                            < old(self).list_ui@.len() {
                            old(self).list_ui@[i]
                        } else {
                            ListUiState { expanded: false, selected_item: 0 }
                        }
                    &&& final(self).selected_list == clamped(
                        old(self).selected_list as int,
                        s.lists@.len() as int,
                    )
                },
                TodoEvent::ConnectionStatus(st) => {
                    &&& final(self).wf()
                    &&& final(self).connection_status == st
                    &&& final(self).todo_state == old(self).todo_state
                    &&& final(self).selected_list == old(self).selected_list
                },
            },
    {
        match event {
            TodoEvent::StateUpdate(state) => {
                let n = state.lists.len();
                let mut ui: Vec<ListUiState> = Vec::new();
                let mut i: usize = 0;
                while i < n
                    invariant
                        i <= n,
                        ui@.len() == i,
                        forall|j: int|
                            0 <= j < i ==> #[trigger] ui@[j] == if j < self.list_ui@.len() {
                                self.list_ui@[j]
                            } else {
                                ListUiState { expanded: false, selected_item: 0 }
                            },
                    decreases n - i,
                {
                    if i < self.list_ui.len() {
                        ui.push(self.list_ui[i]);
                    } else {
                        ui.push(ListUiState { expanded: false, selected_item: 0 });
                    }
                    i = i + 1;
                }
                self.list_ui = ui;
                self.todo_state = state;
                if n == 0 {
                    self.selected_list = 0;
                } else if self.selected_list >= n {
                    self.selected_list = n - 1;
                }
            },
            TodoEvent::ConnectionStatus(status) => {
                self.connection_status = status;
            },
        }
    }

    pub fn list_count(&self) -> (r: usize)
        ensures
            r == self.todo_state@.len(),
    {
        self.todo_state.lists.len()
    }

    pub fn selected_list_expanded(&self) -> (r: bool)
        ensures
            r == self.spec_expanded(),
    {
        self.selected_list < self.list_ui.len() && self.list_ui[self.selected_list].expanded
    }

    pub fn selected_item_index(&self) -> (r: usize)
        ensures
            r == if self.selected_list < self.list_ui@.len() {
                self.list_ui@[self.selected_list as int].selected_item
            } else {
                0
            },
    {
        if self.selected_list < self.list_ui.len() {
            self.list_ui[self.selected_list].selected_item
        } else {
            0
        }
    }

    pub fn items_in_selected_list(&self) -> (r: usize)
        ensures
            r == self.spec_items_in_selected(),
    {
        if self.selected_list < self.todo_state.lists.len() {
            self.todo_state.lists[self.selected_list].items.len()
        } else {
            0
        }
    }

    /// Rows of the selected list that can be selected: its items and the
    /// "add an item" row.
    pub fn selectable_rows_in_list(&self) -> (r: usize)
        requires
            self.spec_items_in_selected() < usize::MAX,
        ensures
            r == self.spec_items_in_selected() + 1,
    {
        self.items_in_selected_list() + 1
    }

    pub fn expand_selected(&mut self)
        requires
            old(self).wf(),
        ensures
            final(self).wf(),
            final(self).todo_state == old(self).todo_state,
            final(self).selected_list == old(self).selected_list,
            old(self).selected_list < old(self).list_ui@.len() ==> final(self).list_ui@ == old(self).list_ui@.update(
                old(self).selected_list as int,
                ListUiState {
                    expanded: true,
                    selected_item: old(self).list_ui@[old(self).selected_list as int].selected_item,
                },
            ) && final(self).focus == Focus::ItemList,
            old(self).selected_list >= old(self).list_ui@.len() ==> final(self).list_ui@ == old(self).list_ui@ && final(self).focus == old(self).focus,
    {
        if self.selected_list < self.list_ui.len() {
            let sel = self.selected_list;
            self.list_ui[sel].expanded = true;
            self.focus = Focus::ItemList;
        }
    }

    pub fn collapse_selected(&mut self)
        requires
            old(self).wf(),
        ensures
            final(self).wf(),
            final(self).todo_state == old(self).todo_state,
            final(self).selected_list == old(self).selected_list,
            old(self).selected_list < old(self).list_ui@.len() ==> final(self).list_ui@ == old(self).list_ui@.update(
                old(self).selected_list as int,
                ListUiState { expanded: false, selected_item: 0 },
            ) && final(self).focus == Focus::ListSelector,
            old(self).selected_list >= old(self).list_ui@.len() ==> final(self).list_ui@ == old(self).list_ui@ && final(self).focus == old(self).focus,
    {
        if self.selected_list < self.list_ui.len() {
            let sel = self.selected_list;
            self.list_ui[sel] = ListUiState { expanded: false, selected_item: 0 };
            self.focus = Focus::ListSelector;
        }
    }

    pub fn move_list_up(&mut self)
        requires
            old(self).wf(),
        ensures
            final(self).wf(),
            final(self).todo_state == old(self).todo_state,
            final(self).list_ui == old(self).list_ui,
            final(self).selected_list == if old(self).selected_list > 0 {
                old(self).selected_list - 1
            } else {
                0
            },
    {
        if self.selected_list > 0 {
            self.selected_list = self.selected_list - 1;
        }
    }

    /// Moves down, as far as the "add a list" row.
    pub fn move_list_down(&mut self)
        requires
            old(self).wf(),
        ensures
            final(self).wf(),
            final(self).todo_state == old(self).todo_state,
            final(self).list_ui == old(self).list_ui,
            final(self).selected_list == if old(self).selected_list < old(self).todo_state@.len() {
                old(self).selected_list + 1
            } else {
                old(self).selected_list as int
            },
    {
        if self.selected_list + 1 <= self.list_count() {
            self.selected_list = self.selected_list + 1;
        }
    }

    /// Whether the selection is on the "add a list" row.
    pub fn on_add_list_row(&self) -> (r: bool)
        ensures
            r == (self.selected_list == self.todo_state@.len()),
    {
        self.selected_list == self.list_count()
    }

    pub fn move_item_up(&mut self)
        requires
            old(self).wf(),
        ensures
            final(self).wf(),
            final(self).todo_state == old(self).todo_state,
            final(self).selected_list == old(self).selected_list,
            old(self).selected_list < old(self).list_ui@.len() ==> ({
                let u = old(self).list_ui@[old(self).selected_list as int];
                final(self).list_ui@ == old(self).list_ui@.update(
                    old(self).selected_list as int,
                    ListUiState {
                        expanded: u.expanded,
                        selected_item: if u.selected_item > 0 {
                            (u.selected_item - 1) as usize
                        } else {
                            0
                        },
                    },
                )
            }),
            old(self).selected_list >= old(self).list_ui@.len() ==> final(self).list_ui@ == old(
                self).list_ui@,
    {
        let sel = self.selected_list;
        if sel < self.list_ui.len() {
            if self.list_ui[sel].selected_item > 0 {
                let v = self.list_ui[sel].selected_item - 1;
                self.list_ui[sel].selected_item = v;
            }
        }
    }

    /// Moves down, as far as the "add an item" row.
    pub fn move_item_down(&mut self)
        requires
            old(self).wf(),
            old(self).spec_items_in_selected() < usize::MAX,
        ensures
            final(self).wf(),
            final(self).todo_state == old(self).todo_state,
            final(self).selected_list == old(self).selected_list,
            final(self).list_ui@.len() == old(self).list_ui@.len(),
            old(self).selected_list < old(self).list_ui@.len() ==> ({
                let u = old(self).list_ui@[old(self).selected_list as int];
                final(self).list_ui@ == old(self).list_ui@.update(
                    old(self).selected_list as int,
                    ListUiState {
                        expanded: u.expanded,
                        selected_item: if u.selected_item + 1 < old(self).spec_items_in_selected()
                            + 1 {
                            (u.selected_item + 1) as usize
                        } else {
                            u.selected_item
                        },
                    },
                )
            }),
    {
        let max = self.selectable_rows_in_list();
        let sel = self.selected_list;
        if sel < self.list_ui.len() {
            if self.list_ui[sel].selected_item < max - 1 {
                let v = self.list_ui[sel].selected_item + 1;
                self.list_ui[sel].selected_item = v;
            }
        }
    }

    /// Flips an item's completion here and returns the edit to send.
    pub fn toggle_item(&mut self, list_index: usize, item_index: usize) -> (cmd: TodoCommand)
        requires
            old(self).wf(),
        ensures
            final(self).wf(),
            cmd == (TodoCommand::ToggleTodo { list_index, item_index }),
            final(self).todo_state@ == after_command(old(self).todo_state@, cmd),
            final(self).list_ui == old(self).list_ui,
            final(self).selected_list == old(self).selected_list,
    {
        apply_command(&mut self.todo_state, TodoCommand::ToggleTodo { list_index, item_index });
        TodoCommand::ToggleTodo { list_index, item_index }
    }

    /// Removes an item here, keeps the item selection in range, and returns
    /// the edit to send.
    pub fn remove_item(&mut self, list_index: usize, item_index: usize) -> (cmd: TodoCommand)
        requires
            old(self).wf(),
        ensures
            final(self).wf(),
            cmd == (TodoCommand::RemoveTodo { list_index, item_index }),
            final(self).todo_state@ == after_command(old(self).todo_state@, cmd),
            final(self).selected_list == old(self).selected_list,
            final(self).list_ui@.len() == old(self).list_ui@.len(),
            forall|i: int|
                0 <= i < final(self).list_ui@.len() && i != list_index ==> #[trigger] final(self).list_ui@[i] == old(self).list_ui@[i],
            list_index < old(self).list_ui@.len() ==> final(self).list_ui@[list_index as int]
                == (ListUiState {
                expanded: old(self).list_ui@[list_index as int].expanded,
                selected_item: clamped(
                    old(self).list_ui@[list_index as int].selected_item as int,
                    final(self).spec_items_in_selected(),
                ) as usize,
            }),
    {
        apply_command(&mut self.todo_state, TodoCommand::RemoveTodo { list_index, item_index });
        let new_count = self.items_in_selected_list();
        if list_index < self.list_ui.len() {
            if new_count == 0 {
                self.list_ui[list_index].selected_item = 0;
            } else if self.list_ui[list_index].selected_item >= new_count {
                self.list_ui[list_index].selected_item = new_count - 1;
            }
        }
        TodoCommand::RemoveTodo { list_index, item_index }
    }

    /// Removes a list here, keeps the list selection in range, and returns the
    /// edit to send.
    pub fn remove_list(&mut self, list_index: usize) -> (cmd: TodoCommand)
        requires
            old(self).wf(),
        ensures
            final(self).wf(),
            cmd == (TodoCommand::RemoveList { list_index }),
            final(self).todo_state@ == after_command(old(self).todo_state@, cmd),
            list_index < old(self).list_ui@.len() ==> final(self).list_ui@ == old(self).list_ui@.remove(list_index as int),
            list_index >= old(self).list_ui@.len() ==> final(self).list_ui@ == old(self).list_ui@,
            final(self).selected_list == clamped(
                old(self).selected_list as int,
                final(self).todo_state@.len() as int,
            ),
    {
        if list_index < self.todo_state.lists.len() {
            apply_command(&mut self.todo_state, TodoCommand::RemoveList { list_index });
            self.list_ui.remove(list_index);
        }
        let n = self.todo_state.lists.len();
        if n == 0 {
            self.selected_list = 0;
        } else if self.selected_list >= n {
            self.selected_list = n - 1;
        }
        TodoCommand::RemoveList { list_index }
    }

    /// Opens an edit line on `initial`.
    pub fn start_edit(&mut self, target: EditTarget, initial: &str)
        requires
            old(self).wf(),
        ensures
            final(self).wf(),
            final(self).focus == Focus::Editing,
            final(self).edit is Some,
            final(self).edit->0.buffer@ == initial@,
            final(self).edit->0.cursor == initial@.len(),
            final(self).edit->0.target == target,
            final(self).todo_state == old(self).todo_state,
            final(self).list_ui == old(self).list_ui,
            final(self).selected_list == old(self).selected_list,
    {
        self.edit = Some(EditState::new(target, initial));
        self.focus = Focus::Editing;
    }

    /// Drops the edit line.
    pub fn cancel_edit(&mut self)
        requires
            old(self).wf(),
        ensures
            final(self).wf(),
            final(self).edit is None,
            final(self).focus == resting_focus(old(self).spec_expanded()),
            final(self).todo_state == old(self).todo_state,
            final(self).list_ui == old(self).list_ui,
            final(self).selected_list == old(self).selected_list,
    {
        self.edit = None;
        self.focus = if self.selected_list_expanded() {
            Focus::ItemList
        } else {
            Focus::ListSelector
        };
    }

    /// Finishes an edit whose trimmed text is `text`: empty text changes
    /// nothing; else the edit is made here and returned to be sent.
    pub fn confirm_text(&mut self, target: EditTarget, text: String) -> (cmd: Option<TodoCommand>)
        requires
            old(self).wf(),
            old(self).todo_state@.len() + 1 < usize::MAX,
        ensures
            final(self).wf(),
            final(self).edit == old(self).edit,
            text_confirmed(*old(self), *final(self), target, text@, cmd),
    {
        if text.as_str().unicode_len() == 0 {
            self.focus = if self.selected_list_expanded() {
                Focus::ItemList
            } else {
                Focus::ListSelector
            };
            return None;
        }
        match target {
            EditTarget::NewList => {
                apply_command(
                    &mut self.todo_state,
                    TodoCommand::AddList { title: text.clone(), metadata: Vec::new() },
                );
                self.list_ui.push(ListUiState { expanded: false, selected_item: 0 });
                self.focus = Focus::ListSelector;
                let cmd = TodoCommand::AddList { title: text, metadata: Vec::new() };
                Some(cmd)
            },
            EditTarget::RenameList { list_index } => {
                apply_command(
                    &mut self.todo_state,
                    TodoCommand::RenameList { list_index, title: text.clone() },
                );
                self.focus = if self.selected_list_expanded() {
                    Focus::ItemList
                } else {
                    Focus::ListSelector
                };
                Some(TodoCommand::RenameList { list_index, title: text })
            },
            EditTarget::NewItem { list_index } => {
                apply_command(
                    &mut self.todo_state,
                    TodoCommand::AddTodo { list_index, text: text.clone(), metadata: Vec::new() },
                );
                self.focus = Focus::ItemList;
                Some(TodoCommand::AddTodo { list_index, text, metadata: Vec::new() })
            },
            EditTarget::EditItem { list_index, item_index } => {
                apply_command(
                    &mut self.todo_state,
                    TodoCommand::RenameTodo { list_index, item_index, text: text.clone() },
                );
                self.focus = Focus::ItemList;
                Some(TodoCommand::RenameTodo { list_index, item_index, text })
            },
        }
    }

    /// Finishes the edit line, if one is open: its text, trimmed, goes to
    /// `confirm_text`.
    pub fn confirm_edit(&mut self) -> (cmd: Option<TodoCommand>)
        requires
            old(self).wf(),
            old(self).todo_state@.len() + 1 < usize::MAX,
        ensures
            final(self).wf(),
            final(self).edit is None,
            old(self).edit is None ==> cmd is None && final(self).todo_state == old(self).todo_state,
            old(self).edit is Some ==> text_confirmed(
                *old(self),
                *final(self),
                old(self).edit->0.target,
                trimmed(old(self).edit->0.buffer@),
                cmd,
            ),
    {
        match self.edit.take() {
            Some(edit) => {
                let text = trim_text(edit.buffer.as_str());
                self.confirm_text(edit.target, text)
            },
            None => None,
        }
    }
}

impl TuiState {
    /// Whether a key ends the program here.
    pub open spec fn quits(&self, key: Key) -> bool {
        key == Key::CtrlC || (self.focus != Focus::Editing && key == Key::Char('q'))
    }

    /// Handles one key press. Returns the edit to send to the replica, if the
    /// key made one; the local copy of the document changes by that edit only.
    pub fn handle_key(&mut self, key: Key) -> (cmd: Option<TodoCommand>)
        requires
            old(self).wf(),
        ensures
            final(self).wf(),
            old(self).quits(key) ==> final(self).should_quit && cmd is None,
            cmd is None ==> final(self).todo_state == old(self).todo_state,
            cmd is Some ==> final(self).todo_state@ == after_command(old(self).todo_state@, cmd->0),
    {
        if key == Key::CtrlC {
            self.should_quit = true;
            return None;
        }
        match self.focus {
            Focus::ListSelector => self.key_in_list_selector(key),
            Focus::ItemList => self.key_in_item_list(key),
            Focus::Editing => self.key_in_editing(key),
        }
    }

    fn key_in_list_selector(&mut self, key: Key) -> (cmd: Option<TodoCommand>)
        requires
            old(self).wf(),
        ensures
            final(self).wf(),
            key == Key::Char('q') ==> final(self).should_quit && cmd is None,
            cmd is None ==> final(self).todo_state == old(self).todo_state,
            cmd is Some ==> final(self).todo_state@ == after_command(old(self).todo_state@, cmd->0),
    {
        match key {
            Key::Char('q') => {
                self.should_quit = true;
                None
            },
            Key::Char('j') | Key::Down => {
                self.move_list_down();
                None
            },
            Key::Char('k') | Key::Up => {
                self.move_list_up();
                None
            },
            Key::Enter | Key::Char(' ') | Key::Char('l') | Key::Right => {
                if self.on_add_list_row() {
                    self.start_edit(EditTarget::NewList, "");
                } else if self.list_count() > 0 {
                    self.expand_selected();
                }
                None
            },
            Key::Char('a') => {
                self.start_edit(EditTarget::NewList, "");
                None
            },
            Key::Char('d') => {
                if !self.on_add_list_row() && self.list_count() > 0 {
                    let idx = self.selected_list;
                    Some(self.remove_list(idx))
                } else {
                    None
                }
            },
            Key::Char('r') => {
                if !self.on_add_list_row() && self.list_count() > 0 {
                    let idx = self.selected_list;
                    let title = self.todo_state.lists[idx].title.clone();
                    self.start_edit(EditTarget::RenameList { list_index: idx }, title.as_str());
                }
                None
            },
            _ => None,
        }
    }

    fn key_in_item_list(&mut self, key: Key) -> (cmd: Option<TodoCommand>)
        requires
            old(self).wf(),
        ensures
            final(self).wf(),
            key == Key::Char('q') ==> final(self).should_quit && cmd is None,
            cmd is None ==> final(self).todo_state == old(self).todo_state,
            cmd is Some ==> final(self).todo_state@ == after_command(old(self).todo_state@, cmd->0),
    {
        let list_idx = self.selected_list;
        let item_idx = self.selected_item_index();
        let count = self.items_in_selected_list();
        match key {
            Key::Esc | Key::Char('h') | Key::Left => {
                self.collapse_selected();
                None
            },
            Key::Char('j') | Key::Down => {
                if count < usize::MAX {
                    self.move_item_down();
                }
                None
            },
            Key::Char('k') | Key::Up => {
                self.move_item_up();
                None
            },
            Key::Char(' ') | Key::Enter => {
                if item_idx == count {
                    self.start_edit(EditTarget::NewItem { list_index: list_idx }, "");
                    None
                } else {
                    Some(self.toggle_item(list_idx, item_idx))
                }
            },
            Key::Char('a') => {
                self.start_edit(EditTarget::NewItem { list_index: list_idx }, "");
                None
            },
            Key::Char('d') => {
                if item_idx < count {
                    Some(self.remove_item(list_idx, item_idx))
                } else {
                    None
                }
            },
            Key::Char('e') => {
                if item_idx < count {
                    let text = self.todo_state.lists[list_idx].items[item_idx].text.clone();
                    self.start_edit(
                        EditTarget::EditItem { list_index: list_idx, item_index: item_idx },
                        text.as_str(),
                    );
                }
                None
            },
            Key::Char('r') => {
                if list_idx < self.list_count() {
                    let title = self.todo_state.lists[list_idx].title.clone();
                    self.start_edit(EditTarget::RenameList { list_index: list_idx }, title.as_str());
                }
                None
            },
            Key::Char('q') => {
                self.should_quit = true;
                None
            },
            _ => None,
        }
    }

    fn key_in_editing(&mut self, key: Key) -> (cmd: Option<TodoCommand>)
        requires
            old(self).wf(),
        ensures
            final(self).wf(),
            cmd is None ==> final(self).todo_state == old(self).todo_state,
            cmd is Some ==> final(self).todo_state@ == after_command(old(self).todo_state@, cmd->0),
    {
        match key {
            Key::Esc => {
                self.cancel_edit();
                None
            },
            Key::Enter => {
                if self.list_count() < usize::MAX - 1 {
                    self.confirm_edit()
                } else {
                    None
                }
            },
            Key::Left => {
                match &mut self.edit {
                    Some(e) => e.move_left(),
                    None => {},
                }
                None
            },
            Key::Right => {
                match &mut self.edit {
                    Some(e) => e.move_right(),
                    None => {},
                }
                None
            },
            Key::Backspace => {
                match &mut self.edit {
                    Some(e) => e.delete_back(),
                    None => {},
                }
                None
            },
            Key::Delete => {
                match &mut self.edit {
                    Some(e) => e.delete_forward(),
                    None => {},
                }
                None
            },
            Key::Char(ch) => {
                match &mut self.edit {
                    Some(e) => {
                        if e.buffer.as_str().unicode_len() < usize::MAX {
                            e.insert_char(ch);
                        }
                    },
                    None => {},
                }
                None
            },
            _ => None,
        }
    }
}

} // verus!
