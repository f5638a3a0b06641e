//! Decisions of the one-shot ingest adapter, which turns a coding assistant's
//! task events into edits: which list a session's tasks go to, which item an
//! update names, and whether a status change flips an item.
use vstd::prelude::*;
use vstd::string::StringExecFns;
use crate::model::{
    MetaEntry, TodoCommand, TodoList, TodoState, ItemView, ListView, meta_view, items_view,
    apply_command, after_command,
};
use crate::text::{decimal, decimal_text};

verus! {

/// The value of the first entry with key `k`.
pub open spec fn meta_lookup(m: Seq<(Seq<char>, Seq<char>)>, k: Seq<char>) -> Option<Seq<char>>
    decreases m.len(),
{
    if m.len() == 0 {
        None
    } else if m[0].0 == k {
        Some(m[0].1)
    } else {
        meta_lookup(m.drop_first(), k)
    }
}

/// Whether the bag's entry for `k` is `v`.
pub fn meta_is(md: &Vec<MetaEntry>, k: &str, v: &str) -> (r: bool)
    ensures
        r == (meta_lookup(meta_view(md@), k@) == Some(v@)),
{
    let key = k.to_owned();
    let val = v.to_owned();
    let ghost m = meta_view(md@);
    let mut i: usize = 0;
    assert(m.subrange(0, m.len() as int) =~= m);
    while i < md.len()
        invariant
            m == meta_view(md@),
            i <= md@.len(),
            key@ == k@,
            val@ == v@,
            meta_lookup(m, k@) == meta_lookup(m.subrange(i as int, m.len() as int), k@),
        decreases md@.len() - i,
    {
        let ghost rest = m.subrange(i as int, m.len() as int);
        assert(rest.drop_first() =~= m.subrange(i + 1, m.len() as int));
        if md[i].0 == key {
            return md[i].1 == val;
        }
        i = i + 1;
    }
    false
}

/// Whether list `l` belongs to session `sid`.
pub open spec fn of_session(l: ListView, sid: Seq<char>) -> bool {
    meta_lookup(l.metadata, "session_id"@) == Some(sid)
}

/// The list a session's tasks go to: the first one tagged with the session,
/// else the first one titled `name`.
pub open spec fn found_list(s: Seq<ListView>, sid: Seq<char>, name: Seq<char>, r: Option<usize>) -> bool {
    match r {
        Some(i) => i < s.len() && ((of_session(s[i as int], sid) && forall|j: int|
            0 <= j < i ==> !of_session(#[trigger] s[j], sid)) || ((forall|j: int|
            0 <= j < s.len() ==> !of_session(#[trigger] s[j], sid)) && s[i as int].title == name
            && forall|j: int| 0 <= j < i ==> (#[trigger] s[j]).title != name)),
        None => forall|j: int|
            0 <= j < s.len() ==> !of_session(#[trigger] s[j], sid) && s[j].title != name,
    }
}

/// The index of the first list tagged with session `sid`.
pub fn session_list(state: &TodoState, sid: &str) -> (r: Option<usize>)
    ensures
        match r {
            Some(i) => i < state@.len() && of_session(state@[i as int], sid@) && forall|j: int|
                0 <= j < i ==> !of_session(#[trigger] state@[j], sid@),
            None => forall|j: int| 0 <= j < state@.len() ==> !of_session(#[trigger] state@[j], sid@),
        },
{
    let mut i: usize = 0;
    while i < state.lists.len()
        invariant
            i <= state@.len(),
            state@.len() == state.lists@.len(),
            forall|j: int| 0 <= j < i ==> !of_session(#[trigger] state@[j], sid@),
        decreases state.lists@.len() - i,
    {
        if meta_is(&state.lists[i].metadata, "session_id", sid) {
            return Some(i);
        }
        i = i + 1;
    }
    None
}

/// Finds the list of a session, by its tag or else by title.
pub fn find_list(state: &TodoState, sid: &str, name: &str) -> (r: Option<usize>)
    ensures
        found_list(state@, sid@, name@, r),
{
    match session_list(state, sid) {
        Some(i) => Some(i),
        None => {
            let title = name.to_owned();
            let mut i: usize = 0;
            while i < state.lists.len()
                invariant
                    i <= state@.len(),
                    state@.len() == state.lists@.len(),
                    title@ == name@,
                    forall|j: int| 0 <= j < state@.len() ==> !of_session(#[trigger] state@[j], sid@),
                    forall|j: int| 0 <= j < i ==> (#[trigger] state@[j]).title != name@,
                decreases state.lists@.len() - i,
            {
                if state.lists[i].title == title {
                    return Some(i);
                }
                i = i + 1;
            }
            None
        },
    }
}

/// The title of a session's list: `Agent: <name>`.
pub fn session_title(name: &str) -> (r: String)
    ensures
        r@ == "Agent: "@ + name@,
{
    let mut s = "Agent: ".to_owned();
    s.append(name);
    s
}

/// The title for a session working in a directory named `dir` (if known).
pub fn list_name_from_dir(dir: Option<&str>) -> (r: String)
    ensures
        dir is Some ==> r@ == "Agent: "@ + dir->0@,
        dir is None ==> r@ == "Agent Tasks"@,
{
    match dir {
        Some(d) => session_title(d),
        None => "Agent Tasks".to_owned(),
    }
}

/// The bag for a list made for session `sid`.
pub fn session_metadata(sid: &str) -> (r: Vec<MetaEntry>)
    ensures
        meta_view(r@) == seq![("session_id"@, sid@)],
{
    let mut m: Vec<MetaEntry> = Vec::new();
    m.push(("session_id".to_owned(), sid.to_owned()));
    assert(meta_view(m@) =~= seq![("session_id"@, sid@)]);
    m
}

/// The bag for an item of session `sid` with the assistant's task id `task_id`.
pub fn item_metadata(sid: &str, task_id: &str) -> (r: Vec<MetaEntry>)
    ensures
        meta_view(r@) == seq![("session_id"@, sid@), ("task_id"@, task_id@)],
{
    let mut m: Vec<MetaEntry> = Vec::new();
    m.push(("session_id".to_owned(), sid.to_owned()));
    m.push(("task_id".to_owned(), task_id.to_owned()));
    assert(meta_view(m@) =~= seq![("session_id"@, sid@), ("task_id"@, task_id@)]);
    m
}

/// Makes sure a list for the session exists, adding one here where none is
/// found. Returns its index and, where it was added, the edit to send.
pub fn ensure_list(state: &mut TodoState, name: &str, sid: &str) -> (r: (usize, Option<TodoCommand>))
    ensures
        r.1 is None ==> found_list(old(state)@, sid@, name@, Some(r.0)) && final(state)@ == old(
            state,
        )@,
        r.1 is Some ==> found_list(old(state)@, sid@, name@, None),
        found_list(old(state)@, sid@, name@, None) ==> ({
            &&& r.1 is Some
            &&& final(state)@ == after_command(old(state)@, r.1->0)
            &&& r.0 == old(state)@.len()
            &&& r.1->0 == (TodoCommand::AddList { title: r.1->0->AddList_title, metadata: r.1->0->AddList_metadata })
            &&& r.1->0->AddList_title@ == name@
            &&& meta_view(r.1->0->AddList_metadata@) == seq![("session_id"@, sid@)]
        }),
{
    match find_list(state, sid, name) {
        Some(i) => (i, None),
        None => {
            let n = state.lists.len();
            apply_command(
                state,
                TodoCommand::AddList { title: name.to_owned(), metadata: session_metadata(sid) },
            );
            (n, Some(TodoCommand::AddList { title: name.to_owned(), metadata: session_metadata(sid) }))
        },
    }
}

/// Whether item `it` belongs to session `sid`.
pub open spec fn item_of_session(it: ItemView, sid: Seq<char>) -> bool {
    meta_lookup(it.metadata, "session_id"@) == Some(sid)
}

/// The task id guessed for a new item of session `sid`: one more than the
/// number of the list's items of that session, the assistant numbering its
/// tasks from 1 per session.
pub fn guess_task_id(list: &TodoList, sid: &str) -> (r: String)
    requires
        list.items@.len() < u64::MAX,
    ensures
        r@ == decimal(
            (items_view(list.items@).filter(|it: ItemView| item_of_session(it, sid@)).len() + 1) as nat,
        ),
{
    let ghost v = items_view(list.items@);
    let ghost p = |it: ItemView| item_of_session(it, sid@);
    let mut count: u64 = 0;
    let mut i: usize = 0;
    while i < list.items.len()
        invariant
            i <= list.items@.len(),
            list.items@.len() < u64::MAX,
            v == items_view(list.items@),
            p == (|it: ItemView| item_of_session(it, sid@)),
            count == v.subrange(0, i as int).filter(p).len(),
            count <= i,
        decreases list.items@.len() - i,
    {
        proof {
            assert(v.subrange(0, i as int + 1) =~= v.subrange(0, i as int).push(v[i as int]));
            v.subrange(0, i as int).lemma_filter_push(v[i as int], p);
        }
        if meta_is(&list.items[i].metadata, "session_id", sid) {
            count = count + 1;
        }
        i = i + 1;
    }
    assert(v.subrange(0, v.len() as int) =~= v);
    decimal_text(count + 1)
}

/// The index of the first item whose bag's `task_id` is `task_id`.
pub fn find_item_by_task(list: &TodoList, task_id: &str) -> (r: Option<usize>)
    ensures
        match r {
            Some(i) => i < list@.items.len() && meta_lookup(list@.items[i as int].metadata, "task_id"@)
                == Some(task_id@) && forall|j: int|
                0 <= j < i ==> meta_lookup((#[trigger] list@.items[j]).metadata, "task_id"@) != Some(
                    task_id@,
                ),
            None => forall|j: int|
                0 <= j < list@.items.len() ==> meta_lookup(
                    (#[trigger] list@.items[j]).metadata,
                    "task_id"@,
                ) != Some(task_id@),
        },
{
    let mut i: usize = 0;
    while i < list.items.len()
        invariant
            i <= list.items@.len(),
            list@.items.len() == list.items@.len(),
            forall|j: int|
                0 <= j < i ==> meta_lookup((#[trigger] list@.items[j]).metadata, "task_id"@) != Some(
                    task_id@,
                ),
        decreases list.items@.len() - i,
    {
        if meta_is(&list.items[i].metadata, "task_id", task_id) {
            return Some(i);
        }
        i = i + 1;
    }
    None
}

/// The index of the first item whose text is `text`.
pub fn find_item_by_text(list: &TodoList, text: &str) -> (r: Option<usize>)
    ensures
        match r {
            Some(i) => i < list@.items.len() && list@.items[i as int].text == text@ && forall|j: int|
                0 <= j < i ==> (#[trigger] list@.items[j]).text != text@,
            None => forall|j: int| 0 <= j < list@.items.len() ==> (#[trigger] list@.items[j]).text != text@,
        },
{
    let t = text.to_owned();
    let mut i: usize = 0;
    while i < list.items.len()
        invariant
            i <= list.items@.len(),
            t@ == text@,
            list@.items.len() == list.items@.len(),
            forall|j: int| 0 <= j < i ==> (#[trigger] list@.items[j]).text != text@,
        decreases list.items@.len() - i,
    {
        if list.items[i].text == t {
            return Some(i);
        }
        i = i + 1;
    }
    None
}

/// Whether a task's new status flips an item that is `completed`: a task
/// reported completed flips an open item, one reported pending flips a done
/// item, any other status nothing.
pub fn status_needs_toggle(completed: bool, status: Option<&str>) -> (r: bool)
    ensures
        r == match status {
            Some(s) => (s@ == "completed"@ && !completed) || (s@ == "pending"@ && completed),
            None => false,
        },
{
    match status {
        Some(s) => {
            let st = s.to_owned();
            let done = "completed".to_owned();
            let pending = "pending".to_owned();
            (st == done && !completed) || (st == pending && completed)
        },
        None => false,
    }
}

/// The task id of a new item: the one the assistant reported, else the guess.
pub open spec fn chosen_task_id(l: ListView, sid: Seq<char>, reported: Option<Seq<char>>) -> Seq<char> {
    match reported {
        Some(t) => t,
        None => decimal((l.items.filter(|it: ItemView| item_of_session(it, sid)).len() + 1) as nat),
    }
}

/// Plans a created task: the session's list (added where missing) gets an
/// item with the task's subject, tagged with the session and the task id.
/// The edits are made here too and returned, in order, to be sent.
pub fn plan_create(
    state: &mut TodoState,
    name: &str,
    sid: &str,
    subject: &str,
    reported_task_id: Option<&str>,
) -> (r: Vec<TodoCommand>)
    requires
        forall|i: int| 0 <= i < old(state)@.len() ==> (#[trigger] old(state)@[i]).items.len() < u64::MAX,
    ensures
        1 <= r@.len() <= 2,
        r@.len() == 2 <==> found_list(old(state)@, sid@, name@, None),
        r@.len() == 2 ==> r@[0] is AddList && final(state)@ == after_command(
            after_command(old(state)@, r@[0]),
            r@[1],
        ),
        r@.len() == 1 ==> final(state)@ == after_command(old(state)@, r@[0]),
        ({
            let mid = if r@.len() == 2 { after_command(old(state)@, r@[0]) } else { old(state)@ };
            let last = r@[r@.len() - 1];
            &&& last is AddTodo
            &&& last->AddTodo_list_index < mid.len()
            &&& found_list(mid, sid@, name@, Some(last->AddTodo_list_index))
            &&& last->AddTodo_text@ == subject@
            &&& meta_view(last->AddTodo_metadata@) == seq![
                ("session_id"@, sid@),
                ("task_id"@, chosen_task_id(mid[last->AddTodo_list_index as int], sid@, match reported_task_id {
                    Some(t) => Some(t@),
                    None => None,
                })),
            ]
        }),
{
    let ghost s0 = state@;
    let mut out: Vec<TodoCommand> = Vec::new();
    let (idx, add) = ensure_list(state, name, sid);
    proof {
        if add is None {
            assert(!found_list(s0, sid@, name@, None));
        }
    }
    match add {
        Some(c) => out.push(c),
        None => {},
    }
    assert(state@.len() == state.lists@.len());
    assert(idx < state.lists@.len());
    assert(state@[idx as int] == state.lists@[idx as int]@);
    let task_id = match reported_task_id {
        Some(t) => t.to_owned(),
        None => {
            assert(state@[idx as int].items.len() < u64::MAX);
            guess_task_id(&state.lists[idx], sid)
        },
    };
    let cmd = TodoCommand::AddTodo { list_index: idx, text: subject.to_owned(), metadata: item_metadata(sid, task_id.as_str()) };
    apply_command(state, TodoCommand::AddTodo { list_index: idx, text: subject.to_owned(), metadata: item_metadata(sid, task_id.as_str()) });
    out.push(cmd);
    out
}

/// A string option as text.
pub open spec fn opt_text(o: Option<&str>) -> Option<Seq<char>> {
    match o {
        Some(t) => Some(t@),
        None => None,
    }
}

/// Whether a task's new status flips an item that is `completed`.
pub open spec fn toggle_owed(status: Option<Seq<char>>, completed: bool) -> bool {
    match status {
        Some(st) => (st == "completed"@ && !completed) || (st == "pending"@ && completed),
        None => false,
    }
}

/// Whether `i` is the item an update names: the first with task id `tid`,
/// else, where none has it, the first whose text is `subject`.
pub open spec fn item_picked(items: Seq<ItemView>, tid: Seq<char>, subject: Option<Seq<char>>, i: int) -> bool {
    0 <= i < items.len() && ((meta_lookup(items[i].metadata, "task_id"@) == Some(tid) && forall|j: int|
        0 <= j < i ==> meta_lookup((#[trigger] items[j]).metadata, "task_id"@) != Some(tid)) || ((
    forall|j: int|
        0 <= j < items.len() ==> meta_lookup((#[trigger] items[j]).metadata, "task_id"@) != Some(
            tid,
        )) && subject is Some && items[i].text == subject->0 && forall|j: int|
        0 <= j < i ==> (#[trigger] items[j]).text != subject->0))
}

proof fn lemma_found_list_unique(s: Seq<ListView>, sid: Seq<char>, name: Seq<char>, a: usize, b: usize)
    requires
        found_list(s, sid, name, Some(a)),
        found_list(s, sid, name, Some(b)),
    ensures
        a == b,
{
    if a < b {
        assert(of_session(s[a as int], sid) || s[a as int].title == name);
    } else if b < a {
        assert(of_session(s[b as int], sid) || s[b as int].title == name);
    }
}

proof fn lemma_item_picked_unique(items: Seq<ItemView>, tid: Seq<char>, subject: Option<Seq<char>>, a: int, b: int)
    requires
        item_picked(items, tid, subject, a),
        item_picked(items, tid, subject, b),
    ensures
        a == b,
{
    if a < b {
        assert(items[a].text == subject->0 || meta_lookup(items[a].metadata, "task_id"@) == Some(tid));
    } else if b < a {
        assert(items[b].text == subject->0 || meta_lookup(items[b].metadata, "task_id"@) == Some(tid));
    }
}

/// Plans an updated task: the item of the task (found by its task id, else
/// by `subject`) in the session's list is flipped where its new status asks.
pub fn plan_update(
    state: &TodoState,
    name: &str,
    sid: &str,
    task_id: &str,
    subject: Option<&str>,
    status: Option<&str>,
) -> (r: Option<TodoCommand>)
    ensures
        r is Some ==> ({
            let l = r->0->ToggleTodo_list_index;
            let i = r->0->ToggleTodo_item_index;
            &&& r->0 is ToggleTodo
            &&& found_list(state@, sid@, name@, Some(l))
            &&& item_picked(state@[l as int].items, task_id@, opt_text(subject), i as int)
            &&& toggle_owed(opt_text(status), state@[l as int].items[i as int].completed)
        }),
        forall|l: usize, i: usize|
            found_list(state@, sid@, name@, Some(l)) && #[trigger] item_picked(
                state@[l as int].items,
                task_id@,
                opt_text(subject),
                i as int,
            ) && toggle_owed(opt_text(status), state@[l as int].items[i as int].completed) ==> r
                == Some(TodoCommand::ToggleTodo { list_index: l, item_index: i }),
{
    let l = match find_list(state, sid, name) {
        Some(l) => l,
        None => {
            assert forall|l: usize, i: usize|
                found_list(state@, sid@, name@, Some(l)) && #[trigger] item_picked(
                    state@[l as int].items,
                    task_id@,
                    opt_text(subject),
                    i as int,
                ) implies false by {
                assert(of_session(state@[l as int], sid@) || state@[l as int].title == name@);
            }
            return None;
        },
    };
    let list = &state.lists[l];
    assert(list@ == state@[l as int]);
    let ghost items = state@[l as int].items;
    let found = match find_item_by_task(list, task_id) {
        Some(i) => Some(i),
        None => match subject {
            Some(s) => find_item_by_text(list, s),
            None => None,
        },
    };
    match found {
        None => {
            assert forall|l2: usize, i: usize|
                found_list(state@, sid@, name@, Some(l2)) && #[trigger] item_picked(
                    state@[l2 as int].items,
                    task_id@,
                    opt_text(subject),
                    i as int,
                ) implies false by {
                lemma_found_list_unique(state@, sid@, name@, l, l2);
                assert(items[i as int].text == opt_text(subject)->0 || meta_lookup(
                    items[i as int].metadata,
                    "task_id"@,
                ) == Some(task_id@));
            }
            None
        },
        Some(i) => {
            assert(item_picked(items, task_id@, opt_text(subject), i as int));
            let owed = status_needs_toggle(list.items[i].completed, status);
            assert forall|l2: usize, i2: usize|
                found_list(state@, sid@, name@, Some(l2)) && #[trigger] item_picked(
                    state@[l2 as int].items,
                    task_id@,
                    opt_text(subject),
                    i2 as int,
                ) implies l2 == l && i2 == i by {
                lemma_found_list_unique(state@, sid@, name@, l, l2);
                lemma_item_picked_unique(items, task_id@, opt_text(subject), i as int, i2 as int);
            }
            if owed {
                Some(TodoCommand::ToggleTodo { list_index: l, item_index: i })
            } else {
                None
            }
        },
    }
}

} // verus!
