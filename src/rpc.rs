//! What the tool-call server answers and does: the lists as numbered
//! responses, one list on request, and the renaming of a session's list.
use vstd::prelude::*;
use crate::model::{TodoCommand, TodoList, TodoState, after_command, apply_command};
use crate::ingest::{of_session, session_list, session_title};

verus! {

#[derive(Debug, Clone)]
pub struct TodoItemResponse {
    pub index: u32,
    pub text: String,
    pub completed: bool,
}

#[derive(Debug, Clone)]
pub struct TodoListResponse {
    pub index: u32,
    pub title: String,
    pub items: Vec<TodoItemResponse>,
}

#[derive(Debug, Clone)]
pub struct TodoListsResponse {
    pub lists: Vec<TodoListResponse>,
}

/// Whether `r` shows list `l` under number `index`.
pub open spec fn shows_list(r: TodoListResponse, l: TodoList, index: int) -> bool {
    &&& r.index == index as u32
    &&& r.title@ == l.title@
    &&& r.items@.len() == l.items@.len()
    &&& forall|j: int|
        0 <= j < l.items@.len() ==> {
            let it = #[trigger] r.items@[j];
            it.index == j as u32 && it.text@ == l.items@[j].text@ && it.completed
                == l.items@[j].completed
        }
}

fn list_response(l: &TodoList, index: usize) -> (r: TodoListResponse)
    ensures
        shows_list(r, *l, index as int),
{
    let mut items: Vec<TodoItemResponse> = Vec::new();
    let mut j: usize = 0;
    while j < l.items.len()
        invariant
            j <= l.items@.len(),
            items@.len() == j,
            forall|k: int|
                0 <= k < j ==> {
                    let it = #[trigger] items@[k];
                    it.index == k as u32 && it.text@ == l.items@[k].text@ && it.completed
                        == l.items@[k].completed
                },
        decreases l.items@.len() - j,
    {
        let it = &l.items[j];
        items.push(TodoItemResponse { index: j as u32, text: it.text.clone(), completed: it.completed });
        j = j + 1;
    }
    TodoListResponse { index: index as u32, title: l.title.clone(), items }
}

impl TodoListsResponse {
    /// Every list of `s`, numbered from 0, with its items numbered from 0.
    pub fn from_state(s: &TodoState) -> (r: TodoListsResponse)
        ensures
            r.lists@.len() == s.lists@.len(),
            forall|i: int| 0 <= i < s.lists@.len() ==> shows_list(#[trigger] r.lists@[i], s.lists@[i], i),
    {
        let mut lists: Vec<TodoListResponse> = Vec::new();
        let mut i: usize = 0;
        while i < s.lists.len()
            invariant
                i <= s.lists@.len(),
                lists@.len() == i,
                forall|k: int| 0 <= k < i ==> shows_list(#[trigger] lists@[k], s.lists@[k], k),
            decreases s.lists@.len() - i,
        {
            lists.push(list_response(&s.lists[i], i));
            i = i + 1;
        }
        TodoListsResponse { lists }
    }
}

/// All lists, or only the one numbered `list_index` (none where it is out of range).
pub fn get_todos(s: &TodoState, list_index: Option<u32>) -> (r: TodoListsResponse)
    requires
        s.lists@.len() <= u32::MAX,
    ensures
        list_index is None ==> r.lists@.len() == s.lists@.len() && forall|i: int|
            0 <= i < s.lists@.len() ==> shows_list(#[trigger] r.lists@[i], s.lists@[i], i),
        list_index is Some && list_index->0 < s.lists@.len() ==> r.lists@.len() == 1 && shows_list(
            r.lists@[0],
            s.lists@[list_index->0 as int],
            list_index->0 as int,
        ),
        list_index is Some && list_index->0 >= s.lists@.len() ==> r.lists@.len() == 0,
{
    match list_index {
        None => TodoListsResponse::from_state(s),
        Some(i) => {
            let mut lists: Vec<TodoListResponse> = Vec::new();
            if (i as usize) < s.lists.len() {
                lists.push(list_response(&s.lists[i as usize], i as usize));
            }
            TodoListsResponse { lists }
        },
    }
}

/// Renames the list of session `sid` to `Agent: <name>` here, and returns
/// the edit to send; `None` where no list carries the session.
pub fn name_session(s: &mut TodoState, sid: &str, name: &str) -> (r: Option<TodoCommand>)
    ensures
        r is None ==> final(s)@ == old(s)@ && forall|j: int|
            0 <= j < old(s)@.len() ==> !of_session(#[trigger] old(s)@[j], sid@),
        r is Some ==> ({
            let c = r->0;
            &&& c is RenameList
            &&& c->RenameList_list_index < old(s)@.len()
            &&& of_session(old(s)@[c->RenameList_list_index as int], sid@)
            &&& forall|j: int| 0 <= j < c->RenameList_list_index ==> !of_session(#[trigger] old(s)@[j], sid@)
            &&& c->RenameList_title@ == "Agent: "@ + name@
            &&& final(s)@ == after_command(old(s)@, c)
        }),
{
    match session_list(s, sid) {
        None => None,
        Some(i) => {
            let title = session_title(name);
            apply_command(s, TodoCommand::RenameList { list_index: i, title: title.clone() });
            Some(TodoCommand::RenameList { list_index: i, title })
        },
    }
}

} // verus!
