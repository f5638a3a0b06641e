//! The replicated document: lists of todo items, and the commands that edit it.
use vstd::prelude::*;

verus! {

/// Relies on `String::push`: appends one character.
#[verifier::external_body]
pub(crate) fn push_char(s: &mut String, c: char)
    ensures
        final(s)@ == old(s)@.push(c),
{
    s.push(c)
}

/// One entry of an open key/value bag.
pub type MetaEntry = (String, String);

#[derive(Debug, Clone)]
pub struct TodoItem {
    pub text: String,
    pub completed: bool,
    pub metadata: Vec<MetaEntry>,
}

#[derive(Debug, Clone)]
pub struct TodoList {
    pub title: String,
    pub items: Vec<TodoItem>,
    pub metadata: Vec<MetaEntry>,
}

#[derive(Debug, Clone)]
pub struct TodoState {
    pub lists: Vec<TodoList>,
}

/// An edit requested by a front end.
#[derive(Debug)]
pub enum TodoCommand {
    AddList { title: String, metadata: Vec<MetaEntry> },
    RemoveList { list_index: usize },
    RenameList { list_index: usize, title: String },
    AddTodo { list_index: usize, text: String, metadata: Vec<MetaEntry> },
    RenameTodo { list_index: usize, item_index: usize, text: String },
    ToggleTodo { list_index: usize, item_index: usize },
    RemoveTodo { list_index: usize, item_index: usize },
    ClearCompleted { list_index: usize },
    Shutdown,
}

/// What the replica tells its front ends.
#[derive(Debug, Clone)]
pub enum TodoEvent {
    StateUpdate(TodoState),
    ConnectionStatus(String),
}

/// A key/value bag as text.
pub open spec fn meta_view(m: Seq<MetaEntry>) -> Seq<(Seq<char>, Seq<char>)> {
    m.map_values(|e: MetaEntry| (e.0@, e.1@))
}

pub struct ItemView {
    pub text: Seq<char>,
    pub completed: bool,
    pub metadata: Seq<(Seq<char>, Seq<char>)>,
}

pub struct ListView {
    pub title: Seq<char>,
    pub items: Seq<ItemView>,
    pub metadata: Seq<(Seq<char>, Seq<char>)>,
}

impl View for TodoItem {
    type V = ItemView;

    open spec fn view(&self) -> ItemView {
        ItemView { text: self.text@, completed: self.completed, metadata: meta_view(self.metadata@) }
    }
}

pub open spec fn items_view(items: Seq<TodoItem>) -> Seq<ItemView> {
    items.map_values(|i: TodoItem| i@)
}

impl View for TodoList {
    type V = ListView;

    open spec fn view(&self) -> ListView {
        ListView {
            title: self.title@,
            items: items_view(self.items@),
            metadata: meta_view(self.metadata@),
        }
    }
}

pub open spec fn lists_view(lists: Seq<TodoList>) -> Seq<ListView> {
    lists.map_values(|l: TodoList| l@)
}

impl View for TodoState {
    type V = Seq<ListView>;

    open spec fn view(&self) -> Seq<ListView> {
        lists_view(self.lists@)
    }
}

impl TodoList {
    /// An empty list with the given title.
    pub fn new(title: String) -> (r: TodoList)
        ensures
            r@ == (ListView { title: title@, items: Seq::empty(), metadata: Seq::empty() }),
    {
        let r = TodoList { title, items: Vec::new(), metadata: Vec::new() };
        assert(r@.items =~= Seq::<ItemView>::empty());
        assert(r@.metadata =~= Seq::<(Seq<char>, Seq<char>)>::empty());
        r
    }
}

impl TodoState {
    /// The empty document.
    pub fn new() -> (r: TodoState)
        ensures
            r@ == Seq::<ListView>::empty(),
    {
        let r = TodoState { lists: Vec::new() };
        assert(r@ =~= Seq::<ListView>::empty());
        r
    }
}

/// The items that clearing completed ones keeps.
pub open spec fn open_items(items: Seq<ItemView>) -> Seq<ItemView> {
    items.filter(|i: ItemView| !i.completed)
}

/// `l` with its item sequence replaced.
pub open spec fn with_items(l: ListView, items: Seq<ItemView>) -> ListView {
    ListView { title: l.title, items, metadata: l.metadata }
}

/// Whether `cmd` names only a list and an item that exist in `s`. Edits that
/// name anything else leave the document as it is.
pub open spec fn command_applies(s: Seq<ListView>, cmd: TodoCommand) -> bool {
    match cmd {
        TodoCommand::AddList { .. } => true,
        TodoCommand::RemoveList { list_index } => list_index < s.len(),
        TodoCommand::RenameList { list_index, .. } => list_index < s.len(),
        TodoCommand::AddTodo { list_index, .. } => list_index < s.len(),
        TodoCommand::RenameTodo { list_index, item_index, .. } => list_index < s.len()
            && item_index < s[list_index as int].items.len(),
        TodoCommand::ToggleTodo { list_index, item_index } => list_index < s.len()
            && item_index < s[list_index as int].items.len(),
        TodoCommand::RemoveTodo { list_index, item_index } => list_index < s.len()
            && item_index < s[list_index as int].items.len(),
        TodoCommand::ClearCompleted { list_index } => list_index < s.len(),
        TodoCommand::Shutdown => false,
    }
}

/// The document after `cmd`, where `command_applies(s, cmd)`.
pub open spec fn command_result(s: Seq<ListView>, cmd: TodoCommand) -> Seq<ListView> {
    match cmd {
        TodoCommand::AddList { title, metadata } => s.push(
            ListView { title: title@, items: Seq::empty(), metadata: meta_view(metadata@) },
        ),
        TodoCommand::RemoveList { list_index } => s.remove(list_index as int),
        TodoCommand::RenameList { list_index, title } => {
            let l = s[list_index as int];
            s.update(list_index as int, ListView { title: title@, items: l.items, metadata: l.metadata })
        },
        TodoCommand::AddTodo { list_index, text, metadata } => {
            let l = s[list_index as int];
            s.update(
                list_index as int,
                with_items(
                    l,
                    l.items.push(
                        ItemView { text: text@, completed: false, metadata: meta_view(metadata@) },
                    ),
                ),
            )
        },
        TodoCommand::RenameTodo { list_index, item_index, text } => {
            let l = s[list_index as int];
            let it = l.items[item_index as int];
            s.update(
                list_index as int,
                with_items(
                    l,
                    l.items.update(
                        item_index as int,
                        ItemView { text: text@, completed: it.completed, metadata: it.metadata },
                    ),
                ),
            )
        },
        TodoCommand::ToggleTodo { list_index, item_index } => {
            let l = s[list_index as int];
            let it = l.items[item_index as int];
            s.update(
                list_index as int,
                with_items(
                    l,
                    l.items.update(
                        item_index as int,
                        ItemView { text: it.text, completed: !it.completed, metadata: it.metadata },
                    ),
                ),
            )
        },
        TodoCommand::RemoveTodo { list_index, item_index } => {
            let l = s[list_index as int];
            s.update(list_index as int, with_items(l, l.items.remove(item_index as int)))
        },
        TodoCommand::ClearCompleted { list_index } => {
            let l = s[list_index as int];
            s.update(list_index as int, with_items(l, open_items(l.items)))
        },
        TodoCommand::Shutdown => s,
    }
}

/// What `cmd` makes of the document `s`: its edit where it applies, else `s`.
pub open spec fn after_command(s: Seq<ListView>, cmd: TodoCommand) -> Seq<ListView> {
    if command_applies(s, cmd) {
        command_result(s, cmd)
    } else {
        s
    }
}

/// Takes list `i` out of `state` to be edited and put back.
fn take_list(state: &mut TodoState, i: usize) -> (l: TodoList)
    requires
        i < old(state).lists@.len(),
    ensures
        l == old(state).lists@[i as int],
        final(state).lists@ == old(state).lists@.remove(i as int),
{
    state.lists.remove(i)
}

/// Puts an edited list back at `i`.
fn put_list(state: &mut TodoState, i: usize, l: TodoList)
    requires
        i <= old(state).lists@.len(),
    ensures
        final(state).lists@ == old(state).lists@.insert(i as int, l),
{
    state.lists.insert(i, l)
}

/// The items of `items` that are not completed, in their order.
fn keep_open(items: Vec<TodoItem>) -> (r: Vec<TodoItem>)
    ensures
        items_view(r@) == open_items(items_view(items@)),
{
    let mut r: Vec<TodoItem> = Vec::new();
    let mut rest = items;
    let ghost orig = items_view(rest@);
    let mut k: usize = 0;
    let n = rest.len();
    while k < n
        invariant
            n == orig.len(),
            k <= n,
            rest@.len() == n - k,
            items_view(r@) == open_items(orig.subrange(0, k as int)),
            items_view(rest@) == orig.subrange(k as int, n as int),
        decreases n - k,
    {
        let ghost rest0 = rest@;
        let it = rest.remove(0);
        proof {
            let p = |i: ItemView| !i.completed;
            assert(items_view(rest0)[0] == it@);
            assert(orig.subrange(0, k as int + 1) =~= orig.subrange(0, k as int).push(it@));
            orig.subrange(0, k as int).lemma_filter_push(it@, p);
            assert(rest@ =~= rest0.subrange(1, rest0.len() as int));
            assert(items_view(rest@) =~= items_view(rest0).subrange(1, rest0.len() as int));
            assert(items_view(rest@) =~= orig.subrange(k as int + 1, n as int));
        }
        if !it.completed {
            r.push(it);
            proof {
                assert(items_view(r@) =~= open_items(orig.subrange(0, k as int)).push(
                    orig[k as int],
                ));
            }
        } else {
            proof {
                assert(items_view(r@) =~= open_items(orig.subrange(0, k as int)));
            }
        }
        k = k + 1;
    }
    assert(orig.subrange(0, n as int) =~= orig);
    r
}

/// Applies a front end's edit to `state`. An edit that names a list or an item
/// that does not exist changes nothing. Returns whether the document changed.
pub fn apply_command(state: &mut TodoState, cmd: TodoCommand) -> (changed: bool)
    ensures
        changed == command_applies(old(state)@, cmd),
        final(state)@ == after_command(old(state)@, cmd),
{
    let ghost s0 = state@;
    let n = state.lists.len();
    match cmd {
        TodoCommand::AddList { title, metadata } => {
            let l = TodoList { title, items: Vec::new(), metadata };
            assert(l@.items =~= Seq::<ItemView>::empty());
            state.lists.push(l);
            assert(state@ =~= after_command(s0, cmd));
            true
        },
        TodoCommand::RemoveList { list_index } => {
            if list_index < n {
                let _ = take_list(state, list_index);
                assert(state@ =~= after_command(s0, cmd));
                true
            } else {
                false
            }
        },
        TodoCommand::RenameList { list_index, title } => {
            if list_index < n {
                let mut l = take_list(state, list_index);
                l.title = title;
                put_list(state, list_index, l);
                assert(state@ =~= after_command(s0, cmd));
                true
            } else {
                false
            }
        },
        TodoCommand::AddTodo { list_index, text, metadata } => {
            if list_index < n {
                let mut l = take_list(state, list_index);
                let ghost before = l.items@;
                l.items.push(TodoItem { text, completed: false, metadata });
                assert(items_view(l.items@) =~= items_view(before).push(
                    ItemView { text: text@, completed: false, metadata: meta_view(metadata@) },
                ));
                put_list(state, list_index, l);
                assert(state@ =~= after_command(s0, cmd));
                true
            } else {
                false
            }
        },
        TodoCommand::RenameTodo { list_index, item_index, text } => {
            if list_index < n && item_index < state.lists[list_index].items.len() {
                let mut l = take_list(state, list_index);
                let ghost before = l.items@;
                let mut it = l.items.remove(item_index);
                it.text = text;
                l.items.insert(item_index, it);
                assert(l.items@ =~= before.update(item_index as int, it));
                assert(items_view(l.items@) =~= items_view(before).update(item_index as int, it@));
                put_list(state, list_index, l);
                assert(state@ =~= after_command(s0, cmd));
                true
            } else {
                false
            }
        },
        TodoCommand::ToggleTodo { list_index, item_index } => {
            if list_index < n && item_index < state.lists[list_index].items.len() {
                let mut l = take_list(state, list_index);
                let ghost before = l.items@;
                let mut it = l.items.remove(item_index);
                it.completed = !it.completed;
                l.items.insert(item_index, it);
                assert(l.items@ =~= before.update(item_index as int, it));
                assert(items_view(l.items@) =~= items_view(before).update(item_index as int, it@));
                put_list(state, list_index, l);
                assert(state@ =~= after_command(s0, cmd));
                true
            } else {
                false
            }
        },
        TodoCommand::RemoveTodo { list_index, item_index } => {
            if list_index < n && item_index < state.lists[list_index].items.len() {
                let mut l = take_list(state, list_index);
                let ghost before = l.items@;
                let _ = l.items.remove(item_index);
                assert(items_view(l.items@) =~= items_view(before).remove(item_index as int));
                put_list(state, list_index, l);
                assert(state@ =~= after_command(s0, cmd));
                true
            } else {
                false
            }
        },
        TodoCommand::ClearCompleted { list_index } => {
            if list_index < n {
                let l = take_list(state, list_index);
                let TodoList { title, items, metadata } = l;
                let kept = keep_open(items);
                let l2 = TodoList { title, items: kept, metadata };
                put_list(state, list_index, l2);
                assert(state@ =~= after_command(s0, cmd));
                true
            } else {
                false
            }
        },
        TodoCommand::Shutdown => false,
    }
}

} // verus!
