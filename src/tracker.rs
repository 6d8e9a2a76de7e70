use vstd::prelude::*;
use crate::config::ClientConfig;
use crate::gist::{
    first_file, first_with_prefix, has_file, id_too_short, is_prefix_of, FileGist, ListGist,
    ResponseGist,
};
use crate::command::{command_of, whitespace_words, CommandView, VimCommand};
use crate::input_bar::{edit_effect, VimBar, VimCommandBarResult};
use crate::keys::{KeyCode, KeyEvent};
use crate::selection::{on_down_press_handler, on_up_press_handler};
use crate::task::{
    finished_from, fresh_id, given_up_from, has_id, renamed_from, shown_under, started_from,
    status_rank, AppFilterMode, ItemStatus, WorkItem,
};

verus! {

/// Which input the keys go to.
#[derive(Debug, PartialEq, Eq, Clone, Copy, Structural)]
pub enum AppMode {
    /// Keys act on the task list.
    Global,
    /// Keys edit the line that becomes a new task.
    Insert,
    /// Keys edit the command line.
    Command,
}

impl AppMode {
    /// The mode's name, for the input box's title.
    pub fn name(&self) -> (r: &'static str)
        ensures
            *self == AppMode::Insert ==> r@ == "Insert"@,
            *self == AppMode::Command ==> r@ == "Command"@,
            *self == AppMode::Global ==> r@ == "Global"@,
    {
        match self {
            AppMode::Insert => "Insert",
            AppMode::Command => "Command",
            AppMode::Global => "Global",
        }
    }
}

/// The storage positions of the tasks of status `s` that show under `f`,
/// in storage order.
pub open spec fn positions_with(ts: Seq<WorkItem>, f: AppFilterMode, s: ItemStatus) -> Seq<int>
    decreases ts.len(),
{
    if ts.len() == 0 {
        Seq::<int>::empty()
    } else {
        let p = positions_with(ts.drop_last(), f, s);
        if shown_under(ts.last().status, f) && ts.last().status == s {
            p.push(ts.len() - 1)
        } else {
            p
        }
    }
}

/// The view: the storage positions of the tasks that show under `f`,
/// ordered by status and, within a status, by storage order.
pub open spec fn view_order(ts: Seq<WorkItem>, f: AppFilterMode) -> Seq<int> {
    positions_with(ts, f, ItemStatus::UnStarted) + positions_with(ts, f, ItemStatus::Started)
        + positions_with(ts, f, ItemStatus::Finished) + positions_with(ts, f, ItemStatus::WontFix)
}

/// Positions as integers.
pub open spec fn as_ints(v: Seq<usize>) -> Seq<int> {
    v.map_values(|i: usize| i as int)
}

/// `b` is `a` with, at most, the task at position `k` changed.
pub open spec fn only_changed_at(a: Seq<WorkItem>, b: Seq<WorkItem>, k: int) -> bool {
    &&& b.len() == a.len()
    &&& forall|j: int| 0 <= j < a.len() && j != k ==> b[j] == a[j]
}

/// A new task: identifier given, content `content`, not started.
pub open spec fn is_new_task(t: WorkItem, content: Seq<char>) -> bool {
    &&& t.id is Some
    &&& t.id->0@.len() == 36
    &&& t.content is Some
    &&& t.content->0@ == content
    &&& t.status == ItemStatus::UnStarted
    &&& t.started_time is None
    &&& t.finished_time is None
}

/// What a save sends: the project's address and name, and a snapshot of the
/// tasks taken when the save was asked for.
pub struct SaveRequest {
    pub url: String,
    pub project: String,
    pub tasks: Vec<WorkItem>,
    pub wait: bool,
}

/// The names of a document's files, in order.
pub open spec fn file_names_of(g: ResponseGist) -> Seq<Seq<char>> {
    g.files@.map_values(|e: (String, FileGist)| e.1.name@)
}

/// The projects that the store's list offers: the files of the first
/// document whose identifier starts with the configured one.
pub open spec fn listed_projects(a: App) -> Seq<Seq<char>> {
    match a.current_file_list {
        None => Seq::<Seq<char>>::empty(),
        Some(l) => {
            let id = a.client_config.client_id@;
            if !id_too_short(id) && exists|k: int| first_with_prefix(l.list@, id, k) {
                file_names_of(l.list@[choose|k: int| first_with_prefix(l.list@, id, k)])
            } else {
                Seq::<Seq<char>>::empty()
            }
        },
    }
}

/// `r` is the save that `a` asks for: the project's address, its name, a
/// snapshot of the tasks and the waiting policy.
pub open spec fn is_save_of(a: App, r: SaveRequest, wait: bool) -> bool {
    &&& a.current_project is Some
    &&& a.current_file_list is Some
    &&& r.project == a.current_project->0
    &&& r.tasks@ == a.tasks@
    &&& r.wait == wait
    &&& exists|k: int|
        first_with_prefix(a.current_file_list->0.list@, a.client_config.client_id@, k) && r.url
            == (#[trigger] a.current_file_list->0.list@[k]).url
}

/// Whether `a` can save: a project and the store's list are known, and the
/// list holds a document for the configured identifier.
pub open spec fn can_save(a: App) -> bool {
    &&& a.current_project is Some
    &&& a.current_file_list is Some
    &&& !id_too_short(a.client_config.client_id@)
    &&& exists|k: int|
        0 <= k < a.current_file_list->0.list@.len() && is_prefix_of(
            a.client_config.client_id@,
            (#[trigger] a.current_file_list->0.list@[k]).id@,
        )
}

/// A save carries the tasks as they were when it was asked for: a change
/// made to the tasks after a save was launched does not reach that save,
/// and a save asked for after the change carries it.
pub proof fn lemma_save_is_a_snapshot(
    before: App,
    first: SaveRequest,
    after: App,
    second: SaveRequest,
    wait: bool,
)
    requires
        is_save_of(before, first, wait),
        is_save_of(after, second, wait),
    ensures
        first.tasks@ == before.tasks@,
        second.tasks@ == after.tasks@,
        after.tasks@ != before.tasks@ ==> first.tasks@ != second.tasks@,
{
}

/// What the caller is to do after a key: the outside work that the key
/// asks for.
#[derive(Debug)]
pub enum AppAction {
    /// Nothing more.
    Continue,
    /// Close the application.
    Quit,
    /// Save the project, waiting for the save, then close.
    SaveAndQuit,
    /// Save the project without waiting.
    Save,
    /// Load the project's tasks again.
    Resync,
    /// Create a project of this name.
    NewProject(String),
    /// Open the project of this name, then load its tasks.
    OpenProject(String),
    /// Write the settings back.
    SaveSettings,
}

/// The storage position of the task at view index `i`, if there is one.
pub open spec fn view_target(a: App, i: int) -> Option<int> {
    let order = view_order(a.tasks@, a.filter);
    if 0 <= i < order.len() {
        Some(order[i])
    } else {
        None
    }
}

/// `b`'s tasks are `a`'s with the task at `t` (if any) changed by `edit`.
pub open spec fn edited_at(
    a: App,
    b: App,
    t: Option<int>,
    edit: spec_fn(WorkItem, WorkItem) -> bool,
) -> bool {
    match t {
        Some(k) => only_changed_at(a.tasks@, b.tasks@, k) && edit(a.tasks@[k], b.tasks@[k]),
        None => b.tasks@ == a.tasks@,
    }
}

/// `b` is `a` with the task at `t` (if any) removed and kept in the
/// register.
pub open spec fn removed_at(a: App, b: App, t: Option<int>) -> bool {
    match t {
        Some(k) => b.tasks@ == a.tasks@.remove(k) && b.register == Some(a.tasks@[k]),
        None => b.tasks@ == a.tasks@ && b.register == a.register,
    }
}

/// The selection after moving up through `n` tasks, wrapping around.
pub open spec fn index_above(n: nat, i: usize) -> usize {
    if n == 0 {
        0
    } else if i > 0 {
        (i - 1) as usize
    } else {
        (n - 1) as usize
    }
}

/// The selection after moving down through `n` tasks, wrapping around.
pub open spec fn index_below(n: nat, i: usize) -> usize {
    if n == 0 {
        0
    } else if i + 1 > n - 1 {
        0
    } else {
        (i + 1) as usize
    }
}

/// `bar` went from `before` by one key's edit.
pub open spec fn bar_edited(before: VimBar, key: KeyEvent, bar: VimBar) -> bool {
    &&& bar.wf()
    &&& (bar.chars(), bar.index()) == edit_effect(before.chars(), before.index(), key)
}

/// What a key does in Global mode: single keys act on the selected task
/// of the view (start, finish, give up, delete), paste the register, give
/// every task a fresh identifier, ask for a reload, enter Insert or
/// Command mode (the `:` going into the command line), or move the
/// selection with wraparound. Any other key does nothing.
pub open spec fn global_outcome(a: App, key: KeyEvent, b: App, act: AppAction) -> bool {
    let sel = view_target(a, a.selected_index as int);
    if key.is_plain_char('s') {
        act == AppAction::Continue && edited_at(a, b, sel, |x: WorkItem, y: WorkItem| started_from(x, y))
            && b == (App { tasks: b.tasks, ..a })
    } else if key.is_plain_char('f') {
        act == AppAction::Continue && edited_at(a, b, sel, |x: WorkItem, y: WorkItem| finished_from(x, y))
            && b == (App { tasks: b.tasks, ..a })
    } else if key.is_plain_char('w') {
        act == AppAction::Continue && edited_at(a, b, sel, |x: WorkItem, y: WorkItem| given_up_from(x, y))
            && b == (App { tasks: b.tasks, ..a })
    } else if key.is_plain_char('d') {
        act == AppAction::Continue && removed_at(a, b, sel) && b == (App {
            tasks: b.tasks,
            register: b.register,
            ..a
        })
    } else if key.is_plain_char('p') {
        &&& act == AppAction::Continue
        &&& b == (App { tasks: b.tasks, ..a })
        &&& a.register is None ==> b.tasks@ == a.tasks@
        &&& a.register is Some ==> b.tasks@.len() == a.tasks@.len() + 1 && b.tasks@.drop_last()
            == a.tasks@ && b.tasks@.last() == (WorkItem { id: b.tasks@.last().id, ..a.register->0 })
            && b.tasks@.last().id is Some
    } else if key.is_plain_char('x') {
        &&& act == AppAction::Continue
        &&& b == (App { tasks: b.tasks, ..a })
        &&& b.tasks@.len() == a.tasks@.len()
        &&& forall|j: int|
            0 <= j < a.tasks@.len() ==> #[trigger] b.tasks@[j] == (WorkItem {
                id: b.tasks@[j].id,
                ..a.tasks@[j]
            }) && b.tasks@[j].id is Some
    } else if key.is_plain_char('r') {
        act == AppAction::Resync && b == a
    } else if key.is_plain_char('i') {
        act == AppAction::Continue && b == (App { mode: AppMode::Insert, ..a })
    } else if key.is_plain_char(':') {
        &&& act == AppAction::Continue
        &&& b.mode == AppMode::Command
        &&& bar_edited(a.command_bar, key, b.command_bar)
        &&& b == (App { mode: b.mode, command_bar: b.command_bar, ..a })
    } else if key.code == KeyCode::Up || key.is_plain_char('k') {
        act == AppAction::Continue && b == (App {
            selected_index: index_above(a.tasks@.len(), a.selected_index),
            ..a
        })
    } else if key.code == KeyCode::Down || key.is_plain_char('j') {
        act == AppAction::Continue && b == (App {
            selected_index: index_below(a.tasks@.len(), a.selected_index),
            ..a
        })
    } else {
        act == AppAction::Continue && b == a
    }
}

/// What a parsed command does, once the command line is emptied. Quitting
/// keeps the state and asks to close (saving first, waiting, for `wq`);
/// every other command returns to Global mode: a save or a project to
/// create or open is asked of the caller, a rename or deletion acts on the
/// task at the view index given (none when the index is past the view), a
/// display preference is set and the settings are to be written back.
pub open spec fn command_outcome(a: App, c: CommandView, b: App, act: AppAction) -> bool {
    match c {
        CommandView::Quit => act == AppAction::Quit && b == a,
        CommandView::ProjectSaveAndQuit => act == AppAction::SaveAndQuit && b == a,
        CommandView::ProjectSave => act == AppAction::Save && b == (App {
            mode: AppMode::Global,
            ..a
        }),
        CommandView::TaskModify(i, t) => {
            &&& act == AppAction::Continue
            &&& edited_at(a, b, view_target(a, i as int), |x: WorkItem, y: WorkItem| renamed_from(x, y, t))
            &&& b == (App { tasks: b.tasks, mode: AppMode::Global, ..a })
        },
        CommandView::TaskDelete(i) => {
            &&& act == AppAction::Continue
            &&& removed_at(a, b, view_target(a, i as int))
            &&& b == (App { tasks: b.tasks, register: b.register, mode: AppMode::Global, ..a })
        },
        CommandView::ProjectNew(n) => {
            &&& act is NewProject
            &&& act->NewProject_0@ == n
            &&& b == (App { mode: AppMode::Global, ..a })
        },
        CommandView::ProjectOpen(n) => {
            &&& act is OpenProject
            &&& act->OpenProject_0@ == n
            &&& b == (App { mode: AppMode::Global, ..a })
        },
        CommandView::ShowFinished(v) => {
            &&& act == AppAction::SaveSettings
            &&& b == (App {
                client_config: ClientConfig { show_finished: Some(v), ..a.client_config },
                mode: AppMode::Global,
                ..a
            })
        },
        CommandView::ShowToday(v) => {
            &&& act == AppAction::SaveSettings
            &&& b == (App {
                client_config: ClientConfig { show_today: Some(v), ..a.client_config },
                mode: AppMode::Global,
                ..a
            })
        },
        _ => act == AppAction::Continue && b == (App { mode: AppMode::Global, ..a }),
    }
}

/// What a key does in Insert mode: Backspace on an empty line returns to
/// Global mode; Enter turns the line into a new task, empties the line and
/// returns to Global mode; any other key edits the line.
pub open spec fn insert_outcome(a: App, key: KeyEvent, b: App, act: AppAction) -> bool {
    &&& act == AppAction::Continue
    &&& if key.code == KeyCode::Backspace && a.insert_bar.chars().len() == 0 {
        b == (App { mode: AppMode::Global, ..a })
    } else if key.code == KeyCode::Enter {
        &&& b.mode == AppMode::Global
        &&& b.insert_bar.wf()
        &&& b.insert_bar.is_empty_at_start()
        &&& b.tasks@.len() == a.tasks@.len() + 1
        &&& b.tasks@.drop_last() == a.tasks@
        &&& is_new_task(b.tasks@.last(), a.insert_bar.chars())
        &&& b == (App { tasks: b.tasks, insert_bar: b.insert_bar, mode: b.mode, ..a })
    } else {
        bar_edited(a.insert_bar, key, b.insert_bar) && b == (App { insert_bar: b.insert_bar, ..a })
    }
}

/// What a key does in Command mode: Backspace on an empty line returns to
/// Global mode; Enter empties the line and runs the command that its text
/// parses to; any other key edits the line.
pub open spec fn command_mode_outcome(a: App, key: KeyEvent, b: App, act: AppAction) -> bool {
    if key.code == KeyCode::Backspace && a.command_bar.chars().len() == 0 {
        act == AppAction::Continue && b == (App { mode: AppMode::Global, ..a })
    } else if key.code == KeyCode::Enter {
        &&& b.command_bar.wf()
        &&& b.command_bar.is_empty_at_start()
        &&& command_outcome(
            App { command_bar: b.command_bar, ..a },
            command_of(whitespace_words(a.command_bar.chars())),
            b,
            act,
        )
    } else {
        act == AppAction::Continue && bar_edited(a.command_bar, key, b.command_bar) && b == (App {
            command_bar: b.command_bar,
            ..a
        })
    }
}

/// Whether a key leaves every mode for Global mode: Escape anywhere, or
/// `c` in Global mode.
pub open spec fn is_reset_key(a: App, key: KeyEvent) -> bool {
    key.code == KeyCode::Esc || (a.mode == AppMode::Global && key.is_plain_char('c'))
}

/// What one key does to the application, from state `a` to state `b`,
/// with `act` the work left to the caller. Ctrl-D closes from any mode. A
/// reset key empties both lines, clears the selection and returns to Global
/// mode. Otherwise the current mode decides.
pub open spec fn key_outcome(a: App, key: KeyEvent, b: App, act: AppAction) -> bool {
    if key.is_ctrl_char('d') {
        act == AppAction::Quit && b == a
    } else if is_reset_key(a, key) {
        &&& act == AppAction::Continue
        &&& b.insert_bar.wf() && b.insert_bar.is_empty_at_start()
        &&& b.command_bar.wf() && b.command_bar.is_empty_at_start()
        &&& b == (App {
            insert_bar: b.insert_bar,
            command_bar: b.command_bar,
            mode: AppMode::Global,
            selected_index: 0,
            ..a
        })
    } else {
        match a.mode {
            AppMode::Global => global_outcome(a, key, b, act),
            AppMode::Insert => insert_outcome(a, key, b, act),
            AppMode::Command => command_mode_outcome(a, key, b, act),
        }
    }
}

/// The application's state: the tasks, the view's filter and selection, the
/// two input lines, the mode, the settings and the project.
pub struct App {
    pub tasks: Vec<WorkItem>,
    pub selected_index: usize,
    pub filter: AppFilterMode,
    pub client_config: ClientConfig,
    pub command_bar: VimBar,
    pub insert_bar: VimBar,
    pub mode: AppMode,
    pub current_project: Option<String>,
    pub current_file_list: Option<ListGist>,
    pub register: Option<WorkItem>,
}

/// Which block of the view the entry at index `k` falls in: the rank of
/// the status that the block gathers.
pub open spec fn view_block(ts: Seq<WorkItem>, f: AppFilterMode, k: int) -> nat {
    let n0 = positions_with(ts, f, ItemStatus::UnStarted).len();
    let n1 = positions_with(ts, f, ItemStatus::Started).len();
    let n2 = positions_with(ts, f, ItemStatus::Finished).len();
    if k < n0 {
        0
    } else if k < n0 + n1 {
        1
    } else if k < n0 + n1 + n2 {
        2
    } else {
        3
    }
}

/// An entry of the view: a task in range that shows under the filter,
/// whose status has the rank of the entry's block; and two entries of one
/// block keep storage order.
proof fn lemma_view_entry(ts: Seq<WorkItem>, f: AppFilterMode, k: int)
    requires
        0 <= k < view_order(ts, f).len(),
    ensures
        0 <= view_order(ts, f)[k] < ts.len(),
        shown_under(ts[view_order(ts, f)[k]].status, f),
        status_rank(ts[view_order(ts, f)[k]].status) == view_block(ts, f, k),
        forall|b: int|
            k < b < view_order(ts, f).len() && view_block(ts, f, b) == view_block(ts, f, k)
                ==> view_order(ts, f)[k] < #[trigger] view_order(ts, f)[b],
{
    let pos_unstarted = positions_with(ts, f, ItemStatus::UnStarted);
    let pos_started = positions_with(ts, f, ItemStatus::Started);
    let pos_finished = positions_with(ts, f, ItemStatus::Finished);
    let pos_given_up = positions_with(ts, f, ItemStatus::WontFix);
    App::lemma_positions_with_facts(ts, f, ItemStatus::UnStarted);
    App::lemma_positions_with_facts(ts, f, ItemStatus::Started);
    App::lemma_positions_with_facts(ts, f, ItemStatus::Finished);
    App::lemma_positions_with_facts(ts, f, ItemStatus::WontFix);
    let o = view_order(ts, f);
    let n0 = pos_unstarted.len() as int;
    let n1 = pos_started.len() as int;
    let n2 = pos_finished.len() as int;
    assert(o =~= pos_unstarted + pos_started + pos_finished + pos_given_up);
    assert forall|i: int| 0 <= i < o.len() implies #[trigger] o[i] == (if i < n0 {
        pos_unstarted[i]
    } else if i < n0 + n1 {
        pos_started[i - n0]
    } else if i < n0 + n1 + n2 {
        pos_finished[i - n0 - n1]
    } else {
        pos_given_up[i - n0 - n1 - n2]
    }) by {}
    if k < n0 {
        assert(o[k] == pos_unstarted[k]);
    } else if k < n0 + n1 {
        assert(o[k] == pos_started[k - n0]);
    } else if k < n0 + n1 + n2 {
        assert(o[k] == pos_finished[k - n0 - n1]);
    } else {
        assert(o[k] == pos_given_up[k - n0 - n1 - n2]);
    }
}

/// The view holds exactly the tasks that show under the filter, each
/// once, ordered by status (not started, started, finished, given up) and,
/// within a status, in storage order.
pub proof fn lemma_view_is_filtered_and_sorted(ts: Seq<WorkItem>, f: AppFilterMode)
    ensures
        forall|k: int|
            0 <= k < view_order(ts, f).len() ==> 0 <= #[trigger] view_order(ts, f)[k] < ts.len()
                && shown_under(ts[view_order(ts, f)[k]].status, f),
        forall|i: int|
            0 <= i < ts.len() && shown_under(#[trigger] ts[i].status, f) ==> view_order(
                ts,
                f,
            ).contains(i),
        forall|a: int, b: int|
            0 <= a < b < view_order(ts, f).len() ==> status_rank(
                ts[#[trigger] view_order(ts, f)[a]].status,
            ) < status_rank(ts[#[trigger] view_order(ts, f)[b]].status) || (ts[view_order(
                ts,
                f,
            )[a]].status == ts[view_order(ts, f)[b]].status && view_order(ts, f)[a]
                < view_order(ts, f)[b]),
{
    let o = view_order(ts, f);
    assert forall|k: int| 0 <= k < o.len() implies 0 <= #[trigger] o[k] < ts.len() && shown_under(
        ts[o[k]].status,
        f,
    ) by {
        lemma_view_entry(ts, f, k);
    }
    assert forall|i: int| 0 <= i < ts.len() && shown_under(#[trigger] ts[i].status, f) implies o.contains(
        i,
    ) by {
        let s = ts[i].status;
        App::lemma_positions_with_facts(ts, f, s);
        let pos_unstarted = positions_with(ts, f, ItemStatus::UnStarted);
        let pos_started = positions_with(ts, f, ItemStatus::Started);
        let pos_finished = positions_with(ts, f, ItemStatus::Finished);
        let pos_given_up = positions_with(ts, f, ItemStatus::WontFix);
        assert(o =~= pos_unstarted + pos_started + pos_finished + pos_given_up);
        let p = positions_with(ts, f, s);
        let w = choose|w: int| 0 <= w < p.len() && p[w] == i;
        let off: int = match s {
            ItemStatus::UnStarted => 0,
            ItemStatus::Started => pos_unstarted.len() as int,
            ItemStatus::Finished => (pos_unstarted.len() + pos_started.len()) as int,
            ItemStatus::WontFix => (pos_unstarted.len() + pos_started.len() + pos_finished.len()) as int,
        };
        assert(o[off + w] == i);
    }
    assert forall|a: int, b: int| 0 <= a < b < o.len() implies status_rank(
        ts[#[trigger] o[a]].status,
    ) < status_rank(ts[#[trigger] o[b]].status) || (ts[o[a]].status == ts[o[b]].status && o[a]
        < o[b]) by {
        lemma_view_entry(ts, f, a);
        lemma_view_entry(ts, f, b);
        if view_block(ts, f, a) == view_block(ts, f, b) {
            assert(o[a] < o[b]);
        }
    }
}

/// Entering Insert mode and pressing Escape comes back to Global mode with
/// the insert line empty and the tasks as they were.
pub proof fn lemma_insert_then_escape(
    a: App,
    b: App,
    c: App,
    enter: KeyEvent,
    escape: KeyEvent,
    first: AppAction,
    second: AppAction,
)
    requires
        a.mode == AppMode::Global,
        enter.is_plain_char('i'),
        escape.code == KeyCode::Esc,
        key_outcome(a, enter, b, first),
        key_outcome(b, escape, c, second),
    ensures
        b.mode == AppMode::Insert,
        c.mode == AppMode::Global,
        c.insert_bar.is_empty_at_start(),
        c.tasks == a.tasks,
        first == AppAction::Continue,
        second == AppAction::Continue,
{
}

/// The same optional name, separately owned.
fn copy_name(s: &Option<String>) -> (r: Option<String>)
    ensures
        r == *s,
{
    match s {
        Some(t) => Some(t.clone()),
        None => None,
    }
}

impl App {
    /// The state's invariant: both input lines keep theirs.
    pub open spec fn wf(&self) -> bool {
        self.command_bar.wf() && self.insert_bar.wf()
    }

    /// An application in Global mode with no tasks, no project and default
    /// settings.
    pub fn new() -> (r: App)
        ensures
            r.wf(),
            r.tasks@.len() == 0,
            r.selected_index == 0,
            r.filter == AppFilterMode::All,
            r.mode == AppMode::Global,
            r.command_bar.is_empty_at_start(),
            r.insert_bar.is_empty_at_start(),
            r.current_project is None,
            r.current_file_list is None,
            r.register is None,
            r.client_config.current_project is None,
    {
        App {
            tasks: Vec::new(),
            selected_index: 0,
            filter: AppFilterMode::All,
            client_config: ClientConfig::new(),
            command_bar: VimBar::new(),
            insert_bar: VimBar::new(),
            mode: AppMode::Global,
            current_project: None,
            current_file_list: None,
            register: None,
        }
    }

    /// Where the caret stands: the active line's column, 0 in Global mode.
    pub fn get_cursor_position(&self) -> (r: u16)
        ensures
            self.mode == AppMode::Global ==> r == 0,
            self.mode == AppMode::Command ==> r == self.command_bar.column(),
            self.mode == AppMode::Insert ==> r == self.insert_bar.column(),
    {
        match self.mode {
            AppMode::Global => 0,
            AppMode::Command => self.command_bar.input_cursor_position(),
            AppMode::Insert => self.insert_bar.input_cursor_position(),
        }
    }

    /// Appends to `out` the positions of the tasks of status `s` that show
    /// under the filter.
    fn collect_positions(&self, s: ItemStatus, out: &mut Vec<usize>)
        ensures
            as_ints(final(out)@) == as_ints(old(out)@) + positions_with(self.tasks@, self.filter, s),
    {
        let ghost start = as_ints(out@);
        let mut i: usize = 0;
        proof {
            assert(self.tasks@.subrange(0, 0) =~= Seq::<WorkItem>::empty());
            assert(start + Seq::<int>::empty() =~= start);
        }
        while i < self.tasks.len()
            invariant
                i <= self.tasks@.len(),
                as_ints(out@) == start + positions_with(
                    self.tasks@.subrange(0, i as int),
                    self.filter,
                    s,
                ),
            decreases self.tasks@.len() - i,
        {
            let ghost before = out@;
            proof {
                assert(self.tasks@.subrange(0, i as int + 1).drop_last() =~= self.tasks@.subrange(
                    0,
                    i as int,
                ));
                assert(self.tasks@.subrange(0, i as int + 1).last() == self.tasks@[i as int]);
            }
            if self.tasks[i].is_valid_for_mode(self.filter) && self.tasks[i].status == s {
                out.push(i);
                proof {
                    assert(as_ints(out@) =~= as_ints(before).push(i as int));
                }
            }
            i = i + 1;
        }
        proof {
            assert(self.tasks@.subrange(0, i as int) =~= self.tasks@);
        }
    }

    /// The storage positions of the view's tasks, in view order.
    pub fn view_positions(&self) -> (r: Vec<usize>)
        ensures
            as_ints(r@) == view_order(self.tasks@, self.filter),
    {
        let mut out: Vec<usize> = Vec::new();
        proof {
            assert(as_ints(out@) =~= Seq::<int>::empty());
        }
        self.collect_positions(ItemStatus::UnStarted, &mut out);
        self.collect_positions(ItemStatus::Started, &mut out);
        self.collect_positions(ItemStatus::Finished, &mut out);
        self.collect_positions(ItemStatus::WontFix, &mut out);
        proof {
            assert(Seq::<int>::empty() + positions_with(self.tasks@, self.filter, ItemStatus::UnStarted)
                =~= positions_with(self.tasks@, self.filter, ItemStatus::UnStarted));
        }
        out
    }

    /// The view: copies of the tasks that show under the filter, ordered by
    /// status and, within a status, by storage order.
    pub fn get_view(&self) -> (r: Vec<WorkItem>)
        ensures
            r@.len() == view_order(self.tasks@, self.filter).len(),
            forall|k: int|
                0 <= k < r@.len() ==> #[trigger] r@[k] == self.tasks@[view_order(
                    self.tasks@,
                    self.filter,
                )[k]],
    {
        let order = self.view_positions();
        let mut r: Vec<WorkItem> = Vec::new();
        let mut k: usize = 0;
        while k < order.len()
            invariant
                k <= order@.len(),
                as_ints(order@) == view_order(self.tasks@, self.filter),
                r@.len() == k,
                forall|j: int|
                    0 <= j < k ==> #[trigger] r@[j] == self.tasks@[view_order(
                        self.tasks@,
                        self.filter,
                    )[j]],
            decreases order@.len() - k,
        {
            let p = order[k];
            proof {
                assert(as_ints(order@)[k as int] == p as int);
                Self::lemma_positions_in_range(self.tasks@, self.filter, k as int);
            }
            r.push(self.tasks[p].duplicate());
            k = k + 1;
        }
        r
    }

    /// The position of the first task that carries identifier `id`.
    pub fn find_task(&self, id: &str) -> (r: Option<usize>)
        ensures
            r is Some ==> r->0 < self.tasks@.len() && has_id(self.tasks@[r->0 as int], id@),
            r is Some ==> forall|j: int| 0 <= j < r->0 ==> !has_id(#[trigger] self.tasks@[j], id@),
            r is None ==> forall|j: int|
                0 <= j < self.tasks@.len() ==> !has_id(#[trigger] self.tasks@[j], id@),
    {
        let mut i: usize = 0;
        while i < self.tasks.len()
            invariant
                i <= self.tasks@.len(),
                forall|j: int| 0 <= j < i ==> !has_id(#[trigger] self.tasks@[j], id@),
            decreases self.tasks@.len() - i,
        {
            if self.tasks[i].id_is(id) {
                return Some(i);
            }
            i = i + 1;
        }
        None
    }

    /// Starts the task at position `k`, if there is one.
    pub fn start_at(&mut self, k: usize)
        ensures
            final(self).wf() == old(self).wf(),
            only_changed_at(old(self).tasks@, final(self).tasks@, k as int),
            k < old(self).tasks@.len() ==> crate::task::started_from(
                old(self).tasks@[k as int],
                final(self).tasks@[k as int],
            ),
            k >= old(self).tasks@.len() ==> final(self).tasks@ == old(self).tasks@,
            (App { tasks: final(self).tasks, ..*final(self) }) == (App {
                tasks: final(self).tasks,
                ..*old(self)
            }),
    {
        if k < self.tasks.len() {
            self.tasks[k].start();
        }
    }

    /// Finishes the task at position `k`, if there is one.
    pub fn finish_at(&mut self, k: usize)
        ensures
            final(self).wf() == old(self).wf(),
            only_changed_at(old(self).tasks@, final(self).tasks@, k as int),
            k < old(self).tasks@.len() ==> crate::task::finished_from(
                old(self).tasks@[k as int],
                final(self).tasks@[k as int],
            ),
            k >= old(self).tasks@.len() ==> final(self).tasks@ == old(self).tasks@,
            (App { tasks: final(self).tasks, ..*final(self) }) == (App {
                tasks: final(self).tasks,
                ..*old(self)
            }),
    {
        if k < self.tasks.len() {
            self.tasks[k].finish();
        }
    }

    /// Marks the task at position `k`, if there is one, as not to be done.
    pub fn wont_fix_at(&mut self, k: usize)
        ensures
            final(self).wf() == old(self).wf(),
            only_changed_at(old(self).tasks@, final(self).tasks@, k as int),
            k < old(self).tasks@.len() ==> crate::task::given_up_from(
                old(self).tasks@[k as int],
                final(self).tasks@[k as int],
            ),
            k >= old(self).tasks@.len() ==> final(self).tasks@ == old(self).tasks@,
            (App { tasks: final(self).tasks, ..*final(self) }) == (App {
                tasks: final(self).tasks,
                ..*old(self)
            }),
    {
        if k < self.tasks.len() {
            self.tasks[k].wont_fix();
        }
    }

    /// Gives the task at position `k`, if there is one, the content
    /// `content`.
    pub fn rename_at(&mut self, k: usize, content: &str)
        ensures
            final(self).wf() == old(self).wf(),
            only_changed_at(old(self).tasks@, final(self).tasks@, k as int),
            k < old(self).tasks@.len() ==> crate::task::renamed_from(
                old(self).tasks@[k as int],
                final(self).tasks@[k as int],
                content@,
            ),
            k >= old(self).tasks@.len() ==> final(self).tasks@ == old(self).tasks@,
            (App { tasks: final(self).tasks, ..*final(self) }) == (App {
                tasks: final(self).tasks,
                ..*old(self)
            }),
    {
        if k < self.tasks.len() {
            self.tasks[k].content = Some(content.to_owned());
        }
    }

    /// Removes the task at position `k`, if there is one, and keeps it in
    /// the register for pasting.
    pub fn remove_at(&mut self, k: usize)
        ensures
            final(self).wf() == old(self).wf(),
            k < old(self).tasks@.len() ==> final(self).tasks@ == old(self).tasks@.remove(k as int)
                && final(self).register == Some(old(self).tasks@[k as int]),
            k >= old(self).tasks@.len() ==> final(self).tasks@ == old(self).tasks@
                && final(self).register == old(self).register,
            (App { tasks: final(self).tasks, register: final(self).register, ..*final(self) }) == (
            App { tasks: final(self).tasks, register: final(self).register, ..*old(self) }),
    {
        if k < self.tasks.len() {
            let t = self.tasks.remove(k);
            self.register = Some(t);
        }
    }

    /// Appends `item` under a fresh identifier.
    pub fn add_task(&mut self, item: WorkItem)
        ensures
            final(self).wf() == old(self).wf(),
            final(self).tasks@.len() == old(self).tasks@.len() + 1,
            final(self).tasks@.drop_last() == old(self).tasks@,
            final(self).tasks@.last() == (WorkItem { id: final(self).tasks@.last().id, ..item }),
            final(self).tasks@.last().id is Some,
            final(self).tasks@.last().id->0@.len() == 36,
            (App { tasks: final(self).tasks, ..*final(self) }) == (App {
                tasks: final(self).tasks,
                ..*old(self)
            }),
    {
        let mut item = item;
        item.id = Some(fresh_id());
        self.tasks.push(item);
        proof {
            assert(self.tasks@.drop_last() =~= old(self).tasks@);
        }
    }

    /// Appends a new task, not started, of content `content`.
    pub fn add_new_task(&mut self, content: String)
        ensures
            final(self).wf() == old(self).wf(),
            final(self).tasks@.len() == old(self).tasks@.len() + 1,
            final(self).tasks@.drop_last() == old(self).tasks@,
            is_new_task(final(self).tasks@.last(), content@),
            (App { tasks: final(self).tasks, ..*final(self) }) == (App {
                tasks: final(self).tasks,
                ..*old(self)
            }),
    {
        let mut item = WorkItem::new();
        item.content = Some(content);
        self.add_task(item);
    }

    /// Appends, under a fresh identifier, a duplicate of the task in the
    /// register; without one, nothing changes.
    pub fn paste(&mut self)
        ensures
            final(self).wf() == old(self).wf(),
            old(self).register is None ==> final(self).tasks@ == old(self).tasks@,
            old(self).register is Some ==> final(self).tasks@.len() == old(self).tasks@.len() + 1
                && final(self).tasks@.drop_last() == old(self).tasks@ && final(self).tasks@.last()
                == (WorkItem { id: final(self).tasks@.last().id, ..old(self).register->0 })
                && final(self).tasks@.last().id is Some,
            (App { tasks: final(self).tasks, ..*final(self) }) == (App {
                tasks: final(self).tasks,
                ..*old(self)
            }),
    {
        match &self.register {
            Some(t) => {
                let item = t.duplicate();
                self.add_task(item);
            },
            None => {},
        }
    }

    /// Gives every task a fresh identifier, keeping the rest.
    pub fn fix_all_work_tems(&mut self)
        ensures
            final(self).wf() == old(self).wf(),
            final(self).tasks@.len() == old(self).tasks@.len(),
            forall|j: int|
                0 <= j < old(self).tasks@.len() ==> #[trigger] final(self).tasks@[j] == (WorkItem {
                    id: final(self).tasks@[j].id,
                    ..old(self).tasks@[j]
                }) && final(self).tasks@[j].id is Some,
            (App { tasks: final(self).tasks, ..*final(self) }) == (App {
                tasks: final(self).tasks,
                ..*old(self)
            }),
    {
        let mut i: usize = 0;
        while i < self.tasks.len()
            invariant
                i <= self.tasks@.len(),
                self.tasks@.len() == old(self).tasks@.len(),
                forall|j: int|
                    0 <= j < i ==> #[trigger] self.tasks@[j] == (WorkItem {
                        id: self.tasks@[j].id,
                        ..old(self).tasks@[j]
                    }) && self.tasks@[j].id is Some,
                forall|j: int| i <= j < self.tasks@.len() ==> #[trigger] self.tasks@[j] == old(
                    self,
                ).tasks@[j],
                (App { tasks: self.tasks, ..*self }) == (App { tasks: self.tasks, ..*old(self) }),
            decreases self.tasks@.len() - i,
        {
            self.tasks[i].id = Some(fresh_id());
            i = i + 1;
        }
    }

    /// Starts the first task that carries identifier `id`, if any.
    pub fn start_task(&mut self, id: &str)
        ensures
            final(self).wf() == old(self).wf(),
            forall|j: int|
                0 <= j < old(self).tasks@.len() && has_id(#[trigger] old(self).tasks@[j], id@)
                    && (forall|i: int| 0 <= i < j ==> !has_id(#[trigger] old(self).tasks@[i], id@))
                    ==> only_changed_at(old(self).tasks@, final(self).tasks@, j)
                    && crate::task::started_from(old(self).tasks@[j], final(self).tasks@[j]),
            (forall|j: int|
                0 <= j < old(self).tasks@.len() ==> !has_id(#[trigger] old(self).tasks@[j], id@))
                ==> final(self).tasks@ == old(self).tasks@,
    {
        match self.find_task(id) {
            Some(k) => {
                proof {
                    Self::lemma_first_with_id_unique(old(self).tasks@, id@, k as int);
                }
                self.start_at(k);
            },
            None => {},
        }
    }

    /// Finishes the first task that carries identifier `id`, if any.
    pub fn finish_task(&mut self, id: &str)
        ensures
            final(self).wf() == old(self).wf(),
            forall|j: int|
                0 <= j < old(self).tasks@.len() && has_id(#[trigger] old(self).tasks@[j], id@)
                    && (forall|i: int| 0 <= i < j ==> !has_id(#[trigger] old(self).tasks@[i], id@))
                    ==> only_changed_at(old(self).tasks@, final(self).tasks@, j)
                    && crate::task::finished_from(old(self).tasks@[j], final(self).tasks@[j]),
            (forall|j: int|
                0 <= j < old(self).tasks@.len() ==> !has_id(#[trigger] old(self).tasks@[j], id@))
                ==> final(self).tasks@ == old(self).tasks@,
    {
        match self.find_task(id) {
            Some(k) => {
                proof {
                    Self::lemma_first_with_id_unique(old(self).tasks@, id@, k as int);
                }
                self.finish_at(k);
            },
            None => {},
        }
    }

    /// Marks the first task that carries identifier `id`, if any, as not to
    /// be done.
    pub fn wont_task(&mut self, id: &str)
        ensures
            final(self).wf() == old(self).wf(),
            forall|j: int|
                0 <= j < old(self).tasks@.len() && has_id(#[trigger] old(self).tasks@[j], id@)
                    && (forall|i: int| 0 <= i < j ==> !has_id(#[trigger] old(self).tasks@[i], id@))
                    ==> only_changed_at(old(self).tasks@, final(self).tasks@, j)
                    && crate::task::given_up_from(old(self).tasks@[j], final(self).tasks@[j]),
            (forall|j: int|
                0 <= j < old(self).tasks@.len() ==> !has_id(#[trigger] old(self).tasks@[j], id@))
                ==> final(self).tasks@ == old(self).tasks@,
    {
        match self.find_task(id) {
            Some(k) => {
                proof {
                    Self::lemma_first_with_id_unique(old(self).tasks@, id@, k as int);
                }
                self.wont_fix_at(k);
            },
            None => {},
        }
    }

    /// Gives the first task that carries identifier `id`, if any, the
    /// content `content`.
    pub fn update_work_item_text(&mut self, id: &str, content: &str)
        ensures
            final(self).wf() == old(self).wf(),
            forall|j: int|
                0 <= j < old(self).tasks@.len() && has_id(#[trigger] old(self).tasks@[j], id@)
                    && (forall|i: int| 0 <= i < j ==> !has_id(#[trigger] old(self).tasks@[i], id@))
                    ==> only_changed_at(old(self).tasks@, final(self).tasks@, j)
                    && crate::task::renamed_from(
                    old(self).tasks@[j],
                    final(self).tasks@[j],
                    content@,
                ),
            (forall|j: int|
                0 <= j < old(self).tasks@.len() ==> !has_id(#[trigger] old(self).tasks@[j], id@))
                ==> final(self).tasks@ == old(self).tasks@,
    {
        match self.find_task(id) {
            Some(k) => {
                proof {
                    Self::lemma_first_with_id_unique(old(self).tasks@, id@, k as int);
                }
                self.rename_at(k, content);
            },
            None => {},
        }
    }

    /// Removes the first task that carries identifier `id`, if any, and
    /// keeps it in the register.
    pub fn remove_task(&mut self, id: &str)
        ensures
            final(self).wf() == old(self).wf(),
            forall|j: int|
                0 <= j < old(self).tasks@.len() && has_id(#[trigger] old(self).tasks@[j], id@)
                    && (forall|i: int| 0 <= i < j ==> !has_id(#[trigger] old(self).tasks@[i], id@))
                    ==> final(self).tasks@ == old(self).tasks@.remove(j),
            (forall|j: int|
                0 <= j < old(self).tasks@.len() ==> !has_id(#[trigger] old(self).tasks@[j], id@))
                ==> final(self).tasks@ == old(self).tasks@,
    {
        match self.find_task(id) {
            Some(k) => {
                proof {
                    Self::lemma_first_with_id_unique(old(self).tasks@, id@, k as int);
                }
                self.remove_at(k);
            },
            None => {},
        }
    }

    /// The first task with an identifier is the only one that is first.
    proof fn lemma_first_with_id_unique(ts: Seq<WorkItem>, id: Seq<char>, k: int)
        requires
            0 <= k < ts.len(),
            has_id(ts[k], id),
            forall|j: int| 0 <= j < k ==> !has_id(#[trigger] ts[j], id),
        ensures
            forall|j: int|
                0 <= j < ts.len() && has_id(#[trigger] ts[j], id) && (forall|i: int|
                    0 <= i < j ==> !has_id(#[trigger] ts[i], id)) ==> j == k,
    {
        assert forall|j: int|
            0 <= j < ts.len() && has_id(#[trigger] ts[j], id) && (forall|i: int|
                0 <= i < j ==> !has_id(#[trigger] ts[i], id)) implies j == k by {
            if j < k {
            } else if j > k {
                assert(!has_id(ts[k], id));
            }
        }
    }

    /// Takes the store's list of documents, when it could be fetched;
    /// without it the list known before stays.
    pub fn refresh_projects(&mut self, fetched: Option<ListGist>)
        ensures
            fetched is Some ==> final(self).current_file_list == fetched,
            fetched is None ==> final(self).current_file_list == old(self).current_file_list,
            (App { current_file_list: final(self).current_file_list, ..*final(self) }) == (App {
                current_file_list: final(self).current_file_list,
                ..*old(self)
            }),
    {
        match fetched {
            Some(l) => {
                self.current_file_list = Some(l);
            },
            None => {},
        }
    }

    /// Starts up: takes the store's list, when it could be fetched, and the
    /// project that the settings name.
    pub fn init(&mut self, fetched: Option<ListGist>)
        ensures
            fetched is Some ==> final(self).current_file_list == fetched,
            fetched is None ==> final(self).current_file_list == old(self).current_file_list,
            final(self).current_project == old(self).client_config.current_project,
            (App {
                current_file_list: final(self).current_file_list,
                current_project: final(self).current_project,
                ..*final(self)
            }) == (App {
                current_file_list: final(self).current_file_list,
                current_project: final(self).current_project,
                ..*old(self)
            }),
    {
        self.refresh_projects(fetched);
        self.current_project = copy_name(&self.client_config.current_project);
    }

    /// The address of the current project's file, to load the tasks from:
    /// known when the store's list and a project are, and the list has a
    /// document with the configured identifier holding a file of the
    /// project's name (the first such).
    pub fn sync_url(&self) -> (r: Option<String>)
        ensures
            self.current_file_list is None || self.current_project is None ==> r is None,
            self.current_file_list is Some && self.current_project is Some ==> (r is Some
                <==> has_file(
                self.current_file_list->0.list@,
                self.client_config.client_id@,
                self.current_project->0@,
            )),
            r is Some ==> exists|k: int, j: int|
                #[trigger] first_file(
                    self.current_file_list->0.list@,
                    self.client_config.client_id@,
                    self.current_project->0@,
                    k,
                    j,
                ) && r->0 == self.current_file_list->0.list@[k].files@[j].1.raw_url,
    {
        match (&self.current_file_list, &self.current_project) {
            (Some(list), Some(proj)) => {
                match list.get_url_gist_file(self.client_config.client_id.as_str(), proj.as_str()) {
                    Ok(url) => Some(url),
                    Err(_) => None,
                }
            },
            _ => None,
        }
    }

    /// Takes the tasks loaded from the store, replacing all of them; when
    /// they could not be loaded, the tasks stay as they were.
    pub fn sync(&mut self, fetched: Option<Vec<WorkItem>>)
        ensures
            fetched is Some ==> final(self).tasks == fetched->0,
            fetched is None ==> final(self).tasks == old(self).tasks,
            (App { tasks: final(self).tasks, ..*final(self) }) == (App {
                tasks: final(self).tasks,
                ..*old(self)
            }),
    {
        match fetched {
            Some(v) => {
                self.tasks = v;
            },
            None => {},
        }
    }

    /// The names of the projects that the store's list offers.
    pub fn get_projects(&self) -> (r: Vec<String>)
        ensures
            crate::command::texts(r@) == listed_projects(*self),
    {
        match &self.current_file_list {
            Some(list) => {
                match list.find_by_prefix(self.client_config.client_id.as_str()) {
                    Ok(k) => {
                        let names = list.list[k].file_names();
                        proof {
                            let id = self.client_config.client_id@;
                            Self::lemma_first_with_prefix_unique(list.list@, id, k as int);
                            assert(crate::command::texts(names@) =~= file_names_of(
                                list.list@[k as int],
                            ));
                        }
                        names
                    },
                    Err(_) => {
                        let names: Vec<String> = Vec::new();
                        proof {
                            assert(crate::command::texts(names@) =~= Seq::<Seq<char>>::empty());
                        }
                        names
                    },
                }
            },
            None => {
                let names: Vec<String> = Vec::new();
                proof {
                    assert(crate::command::texts(names@) =~= Seq::<Seq<char>>::empty());
                }
                names
            },
        }
    }

    /// Two first matches are one.
    proof fn lemma_first_with_prefix_unique(list: Seq<ResponseGist>, id: Seq<char>, k: int)
        requires
            first_with_prefix(list, id, k),
        ensures
            forall|k2: int| #[trigger] first_with_prefix(list, id, k2) ==> k2 == k,
    {
        assert forall|k2: int| #[trigger] first_with_prefix(list, id, k2) implies k2 == k by {
            if k2 < k {
                assert(!is_prefix_of(id, list[k2].id@));
            } else if k2 > k {
                assert(!is_prefix_of(id, list[k].id@));
            }
        }
    }

    /// Makes `project` the current project when the store's list offers
    /// it; says whether it did.
    pub fn find_and_set_project(&mut self, project: &str) -> (r: bool)
        ensures
            r == listed_projects(*old(self)).contains(project@),
            r ==> final(self).current_project is Some && final(self).current_project->0@
                == project@,
            !r ==> final(self).current_project == old(self).current_project,
            (App { current_project: final(self).current_project, ..*final(self) }) == (App {
                current_project: final(self).current_project,
                ..*old(self)
            }),
    {
        let names = self.get_projects();
        let mut i: usize = 0;
        while i < names.len()
            invariant
                i <= names@.len(),
                *self == *old(self),
                crate::command::texts(names@) == listed_projects(*self),
                forall|j: int| 0 <= j < i ==> names@[j]@ != project@,
            decreases names@.len() - i,
        {
            if names[i] == project.to_owned() {
                proof {
                    assert(crate::command::texts(names@)[i as int] == project@);
                }
                self.current_project = Some(project.to_owned());
                return true;
            }
            i = i + 1;
        }
        proof {
            assert forall|j: int|
                0 <= j < listed_projects(*self).len() implies listed_projects(*self)[j]
                != project@ by {
                assert(crate::command::texts(names@)[j] == names@[j]@);
            }
        }
        false
    }

    /// Opens the project named `project` if the store's list offers it,
    /// and records the current project in the settings. Says whether the
    /// project was found; when it was not, the caller may fetch the list
    /// again and retry.
    pub fn select_project(&mut self, project: &str) -> (r: bool)
        ensures
            r == listed_projects(*old(self)).contains(project@),
            r ==> final(self).current_project is Some && final(self).current_project->0@
                == project@,
            !r ==> final(self).current_project == old(self).current_project,
            final(self).client_config.current_project == final(self).current_project,
            (App {
                current_project: final(self).current_project,
                client_config: final(self).client_config,
                ..*final(self)
            }) == (App {
                current_project: final(self).current_project,
                client_config: final(self).client_config,
                ..*old(self)
            }),
            (ClientConfig {
                current_project: final(self).current_project,
                ..final(self).client_config
            }) == (ClientConfig {
                current_project: final(self).current_project,
                ..old(self).client_config
            }),
    {
        let found = self.find_and_set_project(project);
        self.client_config.current_project = copy_name(&self.current_project);
        found
    }

    /// The save of the current project, when there is one to make: its
    /// address, its name, a snapshot of the tasks taken now, and whether the
    /// caller waits for it.
    pub fn save_project(&self, wait: bool) -> (r: Option<SaveRequest>)
        ensures
            r is Some <==> can_save(*self),
            r is Some ==> is_save_of(*self, r->0, wait),
    {
        match (&self.current_project, &self.current_file_list) {
            (Some(proj), Some(list)) => {
                match list.search_url_gist(self.client_config.client_id.as_str()) {
                    Ok(url) => {
                        let tasks = self.copy_tasks();
                        Some(SaveRequest { url, project: proj.clone(), tasks, wait })
                    },
                    Err(_) => None,
                }
            },
            _ => None,
        }
    }

    /// The tasks, separately owned.
    fn copy_tasks(&self) -> (r: Vec<WorkItem>)
        ensures
            r@ == self.tasks@,
    {
        let mut r: Vec<WorkItem> = Vec::new();
        let mut i: usize = 0;
        while i < self.tasks.len()
            invariant
                i <= self.tasks@.len(),
                r@ == self.tasks@.subrange(0, i as int),
            decreases self.tasks@.len() - i,
        {
            r.push(self.tasks[i].duplicate());
            proof {
                assert(r@ =~= self.tasks@.subrange(0, i as int + 1));
            }
            i = i + 1;
        }
        proof {
            assert(self.tasks@.subrange(0, i as int) =~= self.tasks@);
        }
        r
    }

    /// Creates the project `project`: it becomes the current one, in the
    /// settings too, with no tasks; then the save that records it, when it
    /// can be made.
    pub fn new_project(&mut self, project: &str) -> (r: Option<SaveRequest>)
        ensures
            final(self).current_project is Some,
            final(self).current_project->0@ == project@,
            final(self).client_config.current_project == final(self).current_project,
            final(self).tasks@.len() == 0,
            r is Some <==> can_save(*final(self)),
            r is Some ==> is_save_of(*final(self), r->0, false),
            (App {
                current_project: final(self).current_project,
                client_config: final(self).client_config,
                tasks: final(self).tasks,
                ..*final(self)
            }) == (App {
                current_project: final(self).current_project,
                client_config: final(self).client_config,
                tasks: final(self).tasks,
                ..*old(self)
            }),
            (ClientConfig {
                current_project: final(self).current_project,
                ..final(self).client_config
            }) == (ClientConfig {
                current_project: final(self).current_project,
                ..old(self).client_config
            }),
    {
        let name = project.to_owned();
        self.client_config.current_project = Some(name.clone());
        self.current_project = Some(name);
        self.tasks = Vec::new();
        self.save_project(false)
    }

    /// The storage position of the task at view index `i`, if any.
    pub fn view_position(&self, i: usize) -> (r: Option<usize>)
        ensures
            r is Some ==> view_target(*self, i as int) == Some(r->0 as int) && r->0
                < self.tasks@.len(),
            r is None ==> view_target(*self, i as int) is None,
    {
        let order = self.view_positions();
        if i < order.len() {
            proof {
                assert(as_ints(order@)[i as int] == order@[i as int] as int);
                Self::lemma_positions_in_range(self.tasks@, self.filter, i as int);
            }
            Some(order[i])
        } else {
            None
        }
    }

    /// Runs a parsed command (see `command_outcome`).
    pub fn run_command(&mut self, c: VimCommand) -> (r: AppAction)
        requires
            old(self).wf(),
        ensures
            final(self).wf(),
            command_outcome(*old(self), c@, *final(self), r),
    {
        match c {
            VimCommand::Quit => AppAction::Quit,
            VimCommand::ProjectSaveAndQuit => AppAction::SaveAndQuit,
            VimCommand::ProjectSave => {
                self.mode = AppMode::Global;
                AppAction::Save
            },
            VimCommand::TaskModify(i, t) => {
                match self.view_position(i) {
                    Some(k) => self.rename_at(k, t.as_str()),
                    None => {},
                }
                self.mode = AppMode::Global;
                AppAction::Continue
            },
            VimCommand::TaskDelete(i) => {
                match self.view_position(i) {
                    Some(k) => self.remove_at(k),
                    None => {},
                }
                self.mode = AppMode::Global;
                AppAction::Continue
            },
            VimCommand::ProjectNew(n) => {
                self.mode = AppMode::Global;
                AppAction::NewProject(n)
            },
            VimCommand::ProjectOpen(n) => {
                self.mode = AppMode::Global;
                AppAction::OpenProject(n)
            },
            VimCommand::ShowFinished(v) => {
                self.client_config.show_finished = Some(v);
                self.mode = AppMode::Global;
                AppAction::SaveSettings
            },
            VimCommand::ShowToday(v) => {
                self.client_config.show_today = Some(v);
                self.mode = AppMode::Global;
                AppAction::SaveSettings
            },
            _ => {
                self.mode = AppMode::Global;
                AppAction::Continue
            },
        }
    }

    /// Handles a key in Global mode (see `global_outcome`).
    fn handle_global(&mut self, key: KeyEvent) -> (r: AppAction)
        requires
            old(self).wf(),
        ensures
            final(self).wf(),
            global_outcome(*old(self), key, *final(self), r),
    {
        let plain = !key.modifiers.control && !key.modifiers.alt;
        let sel = self.view_position(self.selected_index);
        match key.code {
            KeyCode::Char(c) => {
                if !plain {
                    return AppAction::Continue;
                }
                if c == 's' {
                    match sel {
                        Some(k) => self.start_at(k),
                        None => {},
                    }
                    AppAction::Continue
                } else if c == 'f' {
                    match sel {
                        Some(k) => self.finish_at(k),
                        None => {},
                    }
                    AppAction::Continue
                } else if c == 'w' {
                    match sel {
                        Some(k) => self.wont_fix_at(k),
                        None => {},
                    }
                    AppAction::Continue
                } else if c == 'd' {
                    match sel {
                        Some(k) => self.remove_at(k),
                        None => {},
                    }
                    AppAction::Continue
                } else if c == 'p' {
                    self.paste();
                    AppAction::Continue
                } else if c == 'x' {
                    self.fix_all_work_tems();
                    AppAction::Continue
                } else if c == 'r' {
                    AppAction::Resync
                } else if c == 'i' {
                    self.mode = AppMode::Insert;
                    AppAction::Continue
                } else if c == ':' {
                    self.mode = AppMode::Command;
                    self.command_bar.handle_input(key);
                    AppAction::Continue
                } else if c == 'k' {
                    self.selected_index = on_up_press_handler(
                        self.tasks.as_slice(),
                        Some(self.selected_index),
                    );
                    AppAction::Continue
                } else if c == 'j' {
                    self.selected_index = on_down_press_handler(
                        self.tasks.as_slice(),
                        Some(self.selected_index),
                    );
                    AppAction::Continue
                } else {
                    AppAction::Continue
                }
            },
            KeyCode::Up => {
                self.selected_index = on_up_press_handler(
                    self.tasks.as_slice(),
                    Some(self.selected_index),
                );
                AppAction::Continue
            },
            KeyCode::Down => {
                self.selected_index = on_down_press_handler(
                    self.tasks.as_slice(),
                    Some(self.selected_index),
                );
                AppAction::Continue
            },
            _ => AppAction::Continue,
        }
    }

    /// Handles a key in Insert mode (see `insert_outcome`).
    fn handle_insert(&mut self, key: KeyEvent) -> (r: AppAction)
        requires
            old(self).wf(),
        ensures
            final(self).wf(),
            insert_outcome(*old(self), key, *final(self), r),
    {
        match self.insert_bar.handle_input(key) {
            VimCommandBarResult::Finished(text) => {
                self.add_new_task(text);
                self.mode = AppMode::Global;
            },
            VimCommandBarResult::Aborted => {
                self.mode = AppMode::Global;
            },
            VimCommandBarResult::StillEditing => {},
        }
        AppAction::Continue
    }

    /// Handles a key in Command mode (see `command_mode_outcome`).
    fn handle_command(&mut self, key: KeyEvent) -> (r: AppAction)
        requires
            old(self).wf(),
        ensures
            final(self).wf(),
            command_mode_outcome(*old(self), key, *final(self), r),
    {
        match self.command_bar.handle_input(key) {
            VimCommandBarResult::Finished(text) => {
                let c = VimCommand::from_command(text);
                self.run_command(c)
            },
            VimCommandBarResult::Aborted => {
                self.mode = AppMode::Global;
                AppAction::Continue
            },
            VimCommandBarResult::StillEditing => AppAction::Continue,
        }
    }

    /// Handles one key (see `key_outcome`) and says what outside work it
    /// asks for.
    pub fn handle_key(&mut self, key: KeyEvent) -> (r: AppAction)
        requires
            old(self).wf(),
        ensures
            final(self).wf(),
            key_outcome(*old(self), key, *final(self), r),
    {
        if key.code == KeyCode::Char('d') && key.modifiers.control {
            return AppAction::Quit;
        }
        let plain_c = key.code == KeyCode::Char('c') && !key.modifiers.control
            && !key.modifiers.alt;
        if key.code == KeyCode::Esc || (self.mode == AppMode::Global && plain_c) {
            self.insert_bar.clear();
            self.command_bar.clear();
            self.mode = AppMode::Global;
            self.selected_index = 0;
            return AppAction::Continue;
        }
        match self.mode {
            AppMode::Global => self.handle_global(key),
            AppMode::Insert => self.handle_insert(key),
            AppMode::Command => self.handle_command(key),
        }
    }

    /// Every position in a view lies within the tasks.
    pub proof fn lemma_positions_in_range(ts: Seq<WorkItem>, f: AppFilterMode, k: int)
        requires
            0 <= k < view_order(ts, f).len(),
        ensures
            0 <= view_order(ts, f)[k] < ts.len(),
    {
        Self::lemma_positions_with_facts(ts, f, ItemStatus::UnStarted);
        Self::lemma_positions_with_facts(ts, f, ItemStatus::Started);
        Self::lemma_positions_with_facts(ts, f, ItemStatus::Finished);
        Self::lemma_positions_with_facts(ts, f, ItemStatus::WontFix);
    }

    /// The positions of one status are in range, strictly increasing, of
    /// tasks that show and have that status, and include every such task.
    pub proof fn lemma_positions_with_facts(ts: Seq<WorkItem>, f: AppFilterMode, s: ItemStatus)
        ensures
            forall|k: int|
                0 <= k < positions_with(ts, f, s).len() ==> 0 <= #[trigger] positions_with(
                    ts,
                    f,
                    s,
                )[k] < ts.len() && shown_under(ts[positions_with(ts, f, s)[k]].status, f)
                    && ts[positions_with(ts, f, s)[k]].status == s,
            forall|a: int, b: int|
                0 <= a < b < positions_with(ts, f, s).len() ==> #[trigger] positions_with(
                    ts,
                    f,
                    s,
                )[a] < #[trigger] positions_with(ts, f, s)[b],
            forall|i: int|
                0 <= i < ts.len() && shown_under(#[trigger] ts[i].status, f) && ts[i].status == s
                    ==> positions_with(ts, f, s).contains(i),
        decreases ts.len(),
    {
        if ts.len() > 0 {
            let d = ts.drop_last();
            Self::lemma_positions_with_facts(d, f, s);
            let p = positions_with(d, f, s);
            assert forall|i: int|
                0 <= i < ts.len() && shown_under(#[trigger] ts[i].status, f) && ts[i].status
                    == s implies positions_with(ts, f, s).contains(i) by {
                if i < ts.len() - 1 {
                    assert(d[i] == ts[i]);
                    let w = choose|w: int| 0 <= w < p.len() && p[w] == i;
                    assert(positions_with(ts, f, s)[w] == i);
                } else {
                    assert(positions_with(ts, f, s)[p.len() as int] == i);
                }
            }
        }
    }
}

} // verus!
