//! The state of the program and how it answers keys and the events of a
//! running removal.
use vstd::prelude::*;
use crate::managers::{
    packages_view, remove_command_spec, CommandLine, CommandLineView, ListError, ManagerKind,
    Package, PackageView,
};
use crate::text::{
    chars_of, contains, contains_spec, lowercase, pop_char, push_char, strings_view, to_lowercase,
};

verus! {

/// What the keys do at the moment.
#[derive(Clone, Copy, Debug, PartialEq, Eq, Structural)]
pub enum InputMode {
    /// Browsing and marking packages.
    Normal,
    /// Typing the search text.
    Search,
    /// A removal is running.
    Executing,
    /// A removal has ended; its log stays on screen.
    Done,
}

/// Which row of the package list is selected, if any.
pub struct ListSelection {
    pub selected: Option<usize>,
}

impl ListSelection {
    /// No row selected.
    pub fn new() -> (r: ListSelection)
        ensures
            r.selected is None,
    {
        ListSelection { selected: None }
    }

    pub fn select(&mut self, index: Option<usize>)
        ensures
            final(self).selected == index,
    {
        self.selected = index;
    }

    pub fn selected(&self) -> (r: Option<usize>)
        ensures
            r == self.selected,
    {
        self.selected
    }
}

/// The whole state of the program.
pub struct App {
    pub state: ListSelection,
    pub packages: Vec<Package>,
    pub search_query: String,
    pub input_mode: InputMode,
    pub manager: ManagerKind,
    /// The ids of the packages marked for removal.
    pub selected_for_removal: Vec<String>,
    /// What the running or last removal printed.
    pub logs: Vec<String>,
}

pub struct AppView {
    pub selected: Option<usize>,
    pub packages: Seq<PackageView>,
    pub search_query: Seq<char>,
    pub input_mode: InputMode,
    pub manager: ManagerKind,
    pub marked: Seq<Seq<char>>,
    pub logs: Seq<Seq<char>>,
}

impl View for App {
    type V = AppView;

    open spec fn view(&self) -> AppView {
        AppView {
            selected: self.state.selected,
            packages: packages_view(self.packages@),
            search_query: self.search_query@,
            input_mode: self.input_mode,
            manager: self.manager,
            marked: strings_view(self.selected_for_removal@),
            logs: strings_view(self.logs@),
        }
    }
}

/// A key that was pressed.
#[derive(Clone, Copy, Debug, PartialEq, Eq, Structural)]
pub enum KeyCode {
    Char(char),
    Up,
    Down,
    Enter,
    Esc,
    Backspace,
    Other,
}

/// A key press, with whether Control was held.
#[derive(Clone, Copy, Debug, PartialEq, Eq, Structural)]
pub struct KeyPress {
    pub code: KeyCode,
    pub ctrl: bool,
}

/// What the program has to do after a key.
pub enum Action {
    /// Nothing more; go on reading keys.
    Continue,
    /// End the program.
    Quit,
    /// List the packages of the current manager again and hand the listing
    /// to `App::refresh_packages`.
    Refresh,
    /// Run this removal command, reporting its output lines to
    /// `App::record_output` and its end to `App::finish_removal` (or its
    /// failure to start to `App::removal_failed`).
    Remove(CommandLine),
}

pub enum ActionView {
    Continue,
    Quit,
    Refresh,
    Remove(CommandLineView),
}

impl View for Action {
    type V = ActionView;

    open spec fn view(&self) -> ActionView {
        match self {
            Action::Continue => ActionView::Continue,
            Action::Quit => ActionView::Quit,
            Action::Refresh => ActionView::Refresh,
            Action::Remove(c) => ActionView::Remove(c@),
        }
    }
}

/// `len - 1`, or 0 for an empty list.
pub open spec fn last_index(len: nat) -> nat {
    if len == 0 {
        0
    } else {
        (len - 1) as nat
    }
}

/// The row that Down selects: the next one, wrapping from the last to the
/// first; the first when none is selected.
pub open spec fn next_spec(selected: Option<usize>, len: nat) -> nat {
    match selected {
        Some(i) => if i >= last_index(len) {
            0
        } else {
            (i + 1) as nat
        },
        None => 0,
    }
}

/// The row that Up selects: the previous one, wrapping from the first to the
/// last; the first when none is selected.
pub open spec fn previous_spec(selected: Option<usize>, len: nat) -> nat {
    match selected {
        Some(i) => if i == 0 {
            last_index(len)
        } else {
            (i - 1) as nat
        },
        None => 0,
    }
}

/// The state after a listing: its packages (none if it failed), with the
/// first selected if there is one.
pub open spec fn refreshed(s: AppView, listed: Seq<PackageView>) -> AppView {
    AppView {
        selected: if listed.len() > 0 {
            Some(0usize)
        } else {
            None
        },
        packages: listed,
        ..s
    }
}

pub open spec fn listing_view(listed: Result<Vec<Package>, ListError>) -> Seq<PackageView> {
    match listed {
        Ok(p) => packages_view(p@),
        Err(_) => Seq::empty(),
    }
}

/// Whether a package shows under the search text: its lowercased name holds
/// the lowercased search text.
pub open spec fn shown(p: PackageView, query: Seq<char>) -> bool {
    contains_spec(lowercase(p.name), lowercase(query))
}

/// The indices of the packages that show under the search text, in order.
pub open spec fn shown_indices(pkgs: Seq<PackageView>, query: Seq<char>) -> Seq<int>
    decreases pkgs.len(),
{
    if pkgs.len() == 0 {
        Seq::empty()
    } else {
        let init = shown_indices(pkgs.drop_last(), query);
        if shown(pkgs.last(), query) {
            init.push(pkgs.len() - 1)
        } else {
            init
        }
    }
}

pub proof fn lemma_shown_indices_in_range(pkgs: Seq<PackageView>, query: Seq<char>)
    ensures
        shown_indices(pkgs, query).len() <= pkgs.len(),
        forall|k: int|
            0 <= k < shown_indices(pkgs, query).len() ==> 0 <= #[trigger] shown_indices(
                pkgs,
                query,
            )[k] < pkgs.len(),
    decreases pkgs.len(),
{
    if pkgs.len() > 0 {
        lemma_shown_indices_in_range(pkgs.drop_last(), query);
    }
}

pub open spec fn indices_view(v: Seq<usize>) -> Seq<int> {
    v.map_values(|i: usize| i as int)
}

/// Tells the texts other than `id`.
pub open spec fn other_than(id: Seq<char>) -> spec_fn(Seq<char>) -> bool {
    |x: Seq<char>| x != id
}

/// Marks `id` for removal, or, if it is marked, unmarks it.
pub open spec fn toggle_spec(marked: Seq<Seq<char>>, id: Seq<char>) -> Seq<Seq<char>> {
    if marked.contains(id) {
        marked.filter(other_than(id))
    } else {
        marked.push(id)
    }
}

/// What Space does: toggles the mark of the selected package among those
/// shown, if a shown one is selected.
pub open spec fn space_spec(s: AppView) -> Seq<Seq<char>> {
    let shown_ix = shown_indices(s.packages, s.search_query);
    match s.selected {
        Some(i) => if i < shown_ix.len() {
            toggle_spec(s.marked, s.packages[shown_ix[i as int]].id)
        } else {
            s.marked
        },
        None => s.marked,
    }
}

/// The first lines of the log of a removal.
pub open spec fn removal_log_start() -> Seq<Seq<char>> {
    seq!["[sudo] password for uninstaller: "@, Seq::<char>::empty()]
}

/// What a key does while browsing.
pub open spec fn normal_key_spec(s: AppView, key: KeyPress) -> (AppView, ActionView) {
    let code = key.code;
    if code == KeyCode::Char('q') || code == KeyCode::Char('Q') {
        (s, ActionView::Quit)
    } else if code == KeyCode::Down {
        (
            AppView { selected: Some(next_spec(s.selected, s.packages.len()) as usize), ..s },
            ActionView::Continue,
        )
    } else if code == KeyCode::Up {
        (
            AppView { selected: Some(previous_spec(s.selected, s.packages.len()) as usize), ..s },
            ActionView::Continue,
        )
    } else if code == KeyCode::Char('s') || code == KeyCode::Char('S') {
        (AppView { input_mode: InputMode::Search, ..s }, ActionView::Continue)
    } else if code == KeyCode::Char('c') || code == KeyCode::Char('C') {
        if !key.ctrl {
            (AppView { search_query: Seq::empty(), ..s }, ActionView::Continue)
        } else {
            (s, ActionView::Continue)
        }
    } else if code == KeyCode::Char('p') || code == KeyCode::Char('P') {
        (
            AppView { manager: ManagerKind::Pacman, marked: Seq::empty(), ..s },
            ActionView::Refresh,
        )
    } else if code == KeyCode::Char('f') || code == KeyCode::Char('F') {
        (
            AppView { manager: ManagerKind::Flatpak, marked: Seq::empty(), ..s },
            ActionView::Refresh,
        )
    } else if code == KeyCode::Char(' ') {
        (AppView { marked: space_spec(s), ..s }, ActionView::Continue)
    } else if code == KeyCode::Enter && s.marked.len() > 0 {
        (
            AppView { input_mode: InputMode::Executing, logs: removal_log_start(), ..s },
            ActionView::Remove(remove_command_spec(s.manager, s.marked)),
        )
    } else {
        (s, ActionView::Continue)
    }
}

/// What a key does while typing the search text.
pub open spec fn search_key_spec(s: AppView, key: KeyPress) -> AppView {
    match key.code {
        KeyCode::Enter => AppView { input_mode: InputMode::Normal, ..s },
        KeyCode::Esc => AppView { input_mode: InputMode::Normal, ..s },
        KeyCode::Char(c) => AppView { search_query: s.search_query.push(c), ..s },
        KeyCode::Backspace => if s.search_query.len() > 0 {
            AppView { search_query: s.search_query.drop_last(), ..s }
        } else {
            s
        },
        _ => s,
    }
}

/// What a key does: Control-C quits in every mode; otherwise it depends on
/// the mode, and no key does anything while a removal runs.
pub open spec fn key_spec(s: AppView, key: KeyPress) -> (AppView, ActionView) {
    if key.code == KeyCode::Char('c') && key.ctrl {
        (s, ActionView::Quit)
    } else {
        match s.input_mode {
            InputMode::Normal => normal_key_spec(s, key),
            InputMode::Search => (search_key_spec(s, key), ActionView::Continue),
            InputMode::Done => if key.code == KeyCode::Enter {
                (
                    AppView {
                        input_mode: InputMode::Normal,
                        logs: Seq::empty(),
                        marked: Seq::empty(),
                        ..s
                    },
                    ActionView::Refresh,
                )
            } else {
                (s, ActionView::Continue)
            },
            InputMode::Executing => (s, ActionView::Continue),
        }
    }
}

/// The line that ends the log of a removal that ran to its end.
pub open spec fn completion_line(status: Seq<char>) -> Seq<char> {
    "\n[Process Completed with: "@ + status + "]"@
}

/// Whether `id` is among `list`.
pub fn holds(list: &Vec<String>, id: &String) -> (r: bool)
    ensures
        r == strings_view(list@).contains(id@),
{
    let mut i: usize = 0;
    while i < list.len()
        invariant
            i <= list@.len(),
            forall|k: int| 0 <= k < i ==> strings_view(list@)[k] != id@,
        decreases list@.len() - i,
    {
        if list[i] == *id {
            assert(strings_view(list@)[i as int] == id@);
            return true;
        }
        i = i + 1;
    }
    false
}

/// `list` without `id`, wherever it stands.
fn without(list: &Vec<String>, id: &String) -> (r: Vec<String>)
    ensures
        strings_view(r@) == strings_view(list@).filter(other_than(id@)),
{
    let ghost lv = strings_view(list@);
    let ghost keep = other_than(id@);
    let mut out: Vec<String> = Vec::new();
    let mut i: usize = 0;
    assert(lv.take(0).filter(keep) =~= Seq::<Seq<char>>::empty()) by {
        reveal(Seq::filter);
    }
    while i < list.len()
        invariant
            i <= list@.len(),
            lv == strings_view(list@),
            keep == other_than(id@),
            strings_view(out@) == lv.take(i as int).filter(keep),
        decreases list@.len() - i,
    {
        assert(lv.take(i + 1).drop_last() =~= lv.take(i as int));
        assert(lv.take(i + 1).filter(keep) == if lv[i as int] != id@ {
            lv.take(i as int).filter(keep).push(lv[i as int])
        } else {
            lv.take(i as int).filter(keep)
        }) by {
            reveal(Seq::filter);
        }
        if list[i] != *id {
            let ghost before = strings_view(out@);
            out.push(list[i].clone());
            assert(strings_view(out@) =~= before.push(lv[i as int]));
        }
        i = i + 1;
    }
    assert(lv.take(i as int) =~= lv);
    out
}

/// Marks `id` for removal, or, if it is marked, unmarks it.
fn toggle(list: &mut Vec<String>, id: &String)
    ensures
        strings_view(final(list)@) == toggle_spec(strings_view(old(list)@), id@),
{
    if holds(list, id) {
        let kept = without(list, id);
        *list = kept;
    } else {
        let ghost before = strings_view(list@);
        list.push(id.clone());
        assert(strings_view(list@) =~= before.push(id@));
    }
}

impl App {
    /// The indices of the packages that show under the search text, in order.
    pub fn filtered_packages(&self) -> (r: Vec<usize>)
        ensures
            indices_view(r@) == shown_indices(self@.packages, self@.search_query),
            self@.search_query.len() == 0 ==> r@.len() == self@.packages.len(),
    {
        let query = to_lowercase(self.search_query.as_str());
        let qc = chars_of(query.as_str());
        let ghost pv = self@.packages;
        let mut out: Vec<usize> = Vec::new();
        let mut i: usize = 0;
        assert(pv.take(0) =~= Seq::<PackageView>::empty());
        while i < self.packages.len()
            invariant
                i <= self.packages@.len(),
                pv == self@.packages,
                qc@ == lowercase(self@.search_query),
                self@.search_query.len() == 0 ==> qc@.len() == 0,
                indices_view(out@) == shown_indices(pv.take(i as int), self@.search_query),
                self@.search_query.len() == 0 ==> out@.len() == i,
            decreases self.packages@.len() - i,
        {
            assert(pv.take(i + 1).drop_last() =~= pv.take(i as int));
            assert(pv.take(i + 1).last() == pv[i as int]);
            let name = to_lowercase(self.packages[i].name.as_str());
            let nc = chars_of(name.as_str());
            let found = contains(&nc, &qc);
            proof {
                if self@.search_query.len() == 0 {
                    assert(nc@.subrange(0int, 0int + qc@.len()) =~= qc@);
                }
            }
            if found {
                let ghost before = indices_view(out@);
                out.push(i);
                assert(indices_view(out@) =~= before.push(i as int));
            }
            i = i + 1;
        }
        assert(pv.take(i as int) =~= pv);
        out
    }

    /// Answers a key: changes the state as `key_spec` says and tells what the
    /// program has to do next.
    pub fn handle_key(&mut self, key: KeyPress) -> (r: Action)
        ensures
            final(self)@ == key_spec(old(self)@, key).0,
            r@ == key_spec(old(self)@, key).1,
    {
        if key.code == KeyCode::Char('c') && key.ctrl {
            return Action::Quit;
        }
        match self.input_mode {
            InputMode::Normal => self.normal_key(key),
            InputMode::Search => {
                self.search_key(key);
                Action::Continue
            },
            InputMode::Done => {
                if key.code == KeyCode::Enter {
                    self.input_mode = InputMode::Normal;
                    self.logs = Vec::new();
                    self.selected_for_removal = Vec::new();
                    proof {
                        assert(self@.logs =~= Seq::<Seq<char>>::empty());
                        assert(self@.marked =~= Seq::<Seq<char>>::empty());
                    }
                    Action::Refresh
                } else {
                    Action::Continue
                }
            },
            InputMode::Executing => Action::Continue,
        }
    }

    fn normal_key(&mut self, key: KeyPress) -> (r: Action)
        ensures
            final(self)@ == normal_key_spec(old(self)@, key).0,
            r@ == normal_key_spec(old(self)@, key).1,
    {
        let code = key.code;
        if code == KeyCode::Char('q') || code == KeyCode::Char('Q') {
            Action::Quit
        } else if code == KeyCode::Down {
            self.next();
            Action::Continue
        } else if code == KeyCode::Up {
            self.previous();
            Action::Continue
        } else if code == KeyCode::Char('s') || code == KeyCode::Char('S') {
            self.input_mode = InputMode::Search;
            Action::Continue
        } else if code == KeyCode::Char('c') || code == KeyCode::Char('C') {
            if !key.ctrl {
                self.search_query = String::new();
            }
            Action::Continue
        } else if code == KeyCode::Char('p') || code == KeyCode::Char('P') {
            self.manager = ManagerKind::Pacman;
            self.selected_for_removal = Vec::new();
            assert(self@.marked =~= Seq::<Seq<char>>::empty());
            Action::Refresh
        } else if code == KeyCode::Char('f') || code == KeyCode::Char('F') {
            self.manager = ManagerKind::Flatpak;
            self.selected_for_removal = Vec::new();
            assert(self@.marked =~= Seq::<Seq<char>>::empty());
            Action::Refresh
        } else if code == KeyCode::Char(' ') {
            self.toggle_selected();
            Action::Continue
        } else if code == KeyCode::Enter && self.selected_for_removal.len() > 0 {
            self.input_mode = InputMode::Executing;
            let mut logs: Vec<String> = Vec::new();
            logs.push(String::from_str("[sudo] password for uninstaller: "));
            logs.push(String::new());
            self.logs = logs;
            assert(self@.logs =~= removal_log_start());
            let cmd = self.manager.removal_command(self.selected_for_removal.as_slice());
            Action::Remove(cmd)
        } else {
            Action::Continue
        }
    }

    /// Toggles the mark of the selected package among those shown.
    fn toggle_selected(&mut self)
        ensures
            final(self)@ == (AppView { marked: space_spec(old(self)@), ..old(self)@ }),
    {
        let shown = self.filtered_packages();
        proof {
            lemma_shown_indices_in_range(self@.packages, self@.search_query);
        }
        match self.state.selected() {
            Some(i) => {
                if i < shown.len() {
                    let k = shown[i];
                    assert(k as int == shown_indices(self@.packages, self@.search_query)[i as int]);
                    let id = self.packages[k].id.clone();
                    toggle(&mut self.selected_for_removal, &id);
                }
            },
            None => {},
        }
    }

    fn search_key(&mut self, key: KeyPress)
        ensures
            final(self)@ == search_key_spec(old(self)@, key),
    {
        match key.code {
            KeyCode::Enter => {
                self.input_mode = InputMode::Normal;
            },
            KeyCode::Esc => {
                self.input_mode = InputMode::Normal;
            },
            KeyCode::Char(c) => {
                push_char(&mut self.search_query, c);
            },
            KeyCode::Backspace => {
                pop_char(&mut self.search_query);
            },
            _ => {},
        }
    }

    /// Adds a line that the running removal printed to the log.
    pub fn record_output(&mut self, line: String)
        ensures
            final(self)@ == (AppView { logs: old(self)@.logs.push(line@), ..old(self)@ }),
    {
        let ghost before = self@.logs;
        self.logs.push(line);
        assert(self@.logs =~= before.push(line@));
    }

    /// The removal ended with the given exit status: the log says so and
    /// stays on screen.
    pub fn finish_removal(&mut self, status: &str)
        ensures
            final(self)@ == (AppView {
                logs: old(self)@.logs.push(completion_line(status@)),
                input_mode: InputMode::Done,
                ..old(self)@
            }),
    {
        let mut line = String::from_str("\n[Process Completed with: ");
        line.append(status);
        line.append("]");
        self.record_output(line);
        self.input_mode = InputMode::Done;
    }

    /// The removal command could not be started: the log says so and stays
    /// on screen.
    pub fn removal_failed(&mut self)
        ensures
            final(self)@ == (AppView {
                logs: old(self)@.logs.push("ERROR: Failed to start process!"@),
                input_mode: InputMode::Done,
                ..old(self)@
            }),
    {
        self.record_output(String::from_str("ERROR: Failed to start process!"));
        self.input_mode = InputMode::Done;
    }

    /// The state after starting with `manager`, whose listing is `listed`.
    pub fn new(manager: ManagerKind, listed: Result<Vec<Package>, ListError>) -> (r: App)
        ensures
            r@ == refreshed(
                AppView {
                    selected: None,
                    packages: Seq::empty(),
                    search_query: Seq::empty(),
                    input_mode: InputMode::Normal,
                    manager,
                    marked: Seq::empty(),
                    logs: Seq::empty(),
                },
                listing_view(listed),
            ),
    {
        let mut app = App {
            state: ListSelection::new(),
            packages: Vec::new(),
            search_query: String::new(),
            input_mode: InputMode::Normal,
            manager,
            selected_for_removal: Vec::new(),
            logs: Vec::new(),
        };
        app.refresh_packages(listed);
        proof {
            assert(app@.packages =~= listing_view(listed));
            assert(app@.marked =~= Seq::<Seq<char>>::empty());
            assert(app@.logs =~= Seq::<Seq<char>>::empty());
        }
        app
    }

    /// Takes a new listing of the packages: its packages, or none if it
    /// failed, with the first selected if there is one.
    pub fn refresh_packages(&mut self, listed: Result<Vec<Package>, ListError>)
        ensures
            final(self)@ == refreshed(old(self)@, listing_view(listed)),
    {
        self.packages = match listed {
            Ok(p) => p,
            Err(_) => Vec::new(),
        };
        if self.packages.len() > 0 {
            self.state.select(Some(0));
        } else {
            self.state.select(None);
        }
        assert(self@.packages =~= listing_view(listed));
    }

    /// Selects the next row, wrapping from the last to the first.
    pub fn next(&mut self)
        ensures
            final(self)@ == (AppView {
                selected: Some(next_spec(old(self)@.selected, old(self)@.packages.len()) as usize),
                ..old(self)@
            }),
    {
        let len = self.packages.len();
        let last = if len == 0 {
            0
        } else {
            len - 1
        };
        let i = match self.state.selected() {
            Some(i) => if i >= last {
                0
            } else {
                i + 1
            },
            None => 0,
        };
        self.state.select(Some(i));
    }

    /// Selects the previous row, wrapping from the first to the last.
    pub fn previous(&mut self)
        ensures
            final(self)@ == (AppView {
                selected: Some(
                    previous_spec(old(self)@.selected, old(self)@.packages.len()) as usize,
                ),
                ..old(self)@
            }),
    {
        let len = self.packages.len();
        let last = if len == 0 {
            0
        } else {
            len - 1
        };
        let i = match self.state.selected() {
            Some(i) => if i == 0 {
                last
            } else {
                i - 1
            },
            None => 0,
        };
        self.state.select(Some(i));
    }
}

/// With a non-empty list and a row of it selected, Up after Down selects
/// that row again, and so does Down after Up.
pub proof fn law_up_undoes_down(i: usize, len: nat)
    requires
        i < len <= usize::MAX,
    ensures
        previous_spec(Some(next_spec(Some(i), len) as usize), len) == i,
        next_spec(Some(previous_spec(Some(i), len) as usize), len) == i,
{
}

/// With a non-empty list, Up and Down always select a row of it.
pub proof fn law_moves_stay_in_list(selected: Option<usize>, len: nat)
    requires
        0 < len <= usize::MAX,
        selected matches Some(i) ==> i < len,
    ensures
        next_spec(selected, len) < len,
        previous_spec(selected, len) < len,
{
}

/// A new listing selects its first package, or nothing when it is empty.
pub proof fn law_refresh_selects_first(s: AppView, listed: Seq<PackageView>)
    ensures
        refreshed(s, listed).packages == listed,
        listed.len() > 0 ==> refreshed(s, listed).selected == Some(0usize),
        listed.len() == 0 ==> refreshed(s, listed).selected is None,
{
}

proof fn lemma_filter_keeps_all(s: Seq<Seq<char>>, id: Seq<char>)
    requires
        !s.contains(id),
    ensures
        s.filter(other_than(id)) == s,
    decreases s.len(),
{
    reveal(Seq::filter);
    if s.len() > 0 {
        assert(!s.drop_last().contains(id)) by {
            if s.drop_last().contains(id) {
                let k = choose|k: int| 0 <= k < s.drop_last().len() && s.drop_last()[k] == id;
                assert(s[k] == id);
            }
        }
        lemma_filter_keeps_all(s.drop_last(), id);
        assert(s.last() != id) by {
            assert(s[s.len() - 1] == s.last());
        }
        assert(s.drop_last().push(s.last()) =~= s);
    }
}

proof fn lemma_filter_no_duplicates(s: Seq<Seq<char>>, id: Seq<char>)
    requires
        s.no_duplicates(),
    ensures
        s.filter(other_than(id)).no_duplicates(),
        !s.filter(other_than(id)).contains(id),
    decreases s.len(),
{
    let keep = other_than(id);
    reveal(Seq::filter);
    if s.len() > 0 {
        let init = s.drop_last();
        assert(init.no_duplicates()) by {
            assert forall|a: int, b: int|
                0 <= a < init.len() && 0 <= b < init.len() && a != b implies init[a] != init[b] by {
                assert(init[a] == s[a] && init[b] == s[b]);
            }
        }
        lemma_filter_no_duplicates(init, id);
        let fi = init.filter(keep);
        if keep(s.last()) {
            assert(!fi.contains(s.last())) by {
                if fi.contains(s.last()) {
                    init.lemma_filter_contains_rev(keep, s.last());
                    let k = choose|k: int| 0 <= k < init.len() && init[k] == s.last();
                    assert(s[k] == s[s.len() - 1]);
                }
            }
            assert(fi.push(s.last()).no_duplicates()) by {
                let f2 = fi.push(s.last());
                assert forall|a: int, b: int|
                    0 <= a < f2.len() && 0 <= b < f2.len() && a != b implies f2[a] != f2[b] by {
                    if a < fi.len() && b < fi.len() {
                        assert(f2[a] == fi[a] && f2[b] == fi[b]);
                    } else if a < fi.len() {
                        assert(f2[a] == fi[a]);
                        assert(fi.contains(fi[a]));
                    } else if b < fi.len() {
                        assert(f2[b] == fi[b]);
                        assert(fi.contains(fi[b]));
                    }
                }
            }
            assert(!fi.push(s.last()).contains(id)) by {
                if fi.push(s.last()).contains(id) {
                    let k = choose|k: int| 0 <= k < fi.len() + 1 && fi.push(s.last())[k] == id;
                    if k < fi.len() {
                        assert(fi[k] == id);
                    }
                }
            }
        }
    }
}

/// Marking a package that is not marked and then unmarking it leaves the
/// marks as they were.
pub proof fn law_toggle_twice(marked: Seq<Seq<char>>, id: Seq<char>)
    requires
        !marked.contains(id),
    ensures
        toggle_spec(toggle_spec(marked, id), id) == marked,
{
    let m2 = marked.push(id);
    assert(m2.contains(id)) by {
        assert(m2[marked.len() as int] == id);
    }
    reveal(Seq::filter);
    assert(m2.drop_last() =~= marked);
    lemma_filter_keeps_all(marked, id);
}

/// Unmarking a marked package and marking it again leaves the same packages
/// marked.
pub proof fn law_toggle_twice_keeps_marks(marked: Seq<Seq<char>>, id: Seq<char>)
    requires
        marked.contains(id),
    ensures
        forall|x: Seq<char>|
            #[trigger] toggle_spec(toggle_spec(marked, id), id).contains(x) <==> marked.contains(x),
{
    let keep = other_than(id);
    let f = marked.filter(keep);
    marked.filter_lemma(keep);
    assert(!f.contains(id)) by {
        if f.contains(id) {
            let k = choose|k: int| 0 <= k < f.len() && f[k] == id;
            assert(keep(f[k]));
        }
    }
    assert(toggle_spec(marked, id) == f);
    assert(toggle_spec(f, id) == f.push(id));
    assert forall|x: Seq<char>|
        #[trigger] f.push(id).contains(x) <==> marked.contains(x) by {
        if f.push(id).contains(x) {
            let k = choose|k: int| 0 <= k < f.len() + 1 && f.push(id)[k] == x;
            if k < f.len() {
                assert(f.contains(f[k]));
                marked.lemma_filter_contains_rev(keep, x);
            }
        }
        if marked.contains(x) {
            if x == id {
                assert(f.push(id)[f.len() as int] == id);
            } else {
                let k = choose|k: int| 0 <= k < marked.len() && marked[k] == x;
                assert(keep(marked[k]));
                assert(f.contains(x));
                let j = choose|j: int| 0 <= j < f.len() && f[j] == x;
                assert(f.push(id)[j] == x);
            }
        }
    }
}

/// A package is marked at most once: toggling keeps the marks free of
/// repetitions.
pub proof fn law_toggle_keeps_marks_distinct(marked: Seq<Seq<char>>, id: Seq<char>)
    requires
        marked.no_duplicates(),
    ensures
        toggle_spec(marked, id).no_duplicates(),
{
    if marked.contains(id) {
        lemma_filter_no_duplicates(marked, id);
    } else {
        let m2 = marked.push(id);
        assert forall|a: int, b: int|
            0 <= a < m2.len() && 0 <= b < m2.len() && a != b implies m2[a] != m2[b] by {
            if a < marked.len() && b < marked.len() {
                assert(m2[a] == marked[a] && m2[b] == marked[b]);
            } else if a < marked.len() {
                assert(m2[a] == marked[a]);
                assert(marked.contains(marked[a]));
            } else if b < marked.len() {
                assert(m2[b] == marked[b]);
                assert(marked.contains(marked[b]));
            }
        }
    }
}

/// No key ever marks a package twice.
pub proof fn law_keys_keep_marks_distinct(s: AppView, key: KeyPress)
    requires
        s.marked.no_duplicates(),
    ensures
        key_spec(s, key).0.marked.no_duplicates(),
{
    let shown_ix = shown_indices(s.packages, s.search_query);
    if let Some(i) = s.selected {
        if i < shown_ix.len() {
            law_toggle_keeps_marks_distinct(s.marked, s.packages[shown_ix[i as int]].id);
        }
    }
    assert(Seq::<Seq<char>>::empty().no_duplicates());
}

/// Control-C ends the program in every mode and changes nothing.
pub proof fn law_control_c_quits(s: AppView)
    ensures
        key_spec(s, KeyPress { code: KeyCode::Char('c'), ctrl: true }) == (s, ActionView::Quit),
{
}

/// While a removal runs, keys other than Control-C do nothing.
pub proof fn law_keys_ignored_while_removing(s: AppView, key: KeyPress)
    requires
        s.input_mode == InputMode::Executing,
        !(key.code == KeyCode::Char('c') && key.ctrl),
    ensures
        key_spec(s, key) == (s, ActionView::Continue),
{
}

/// Switching to another manager drops all marks and asks for a new listing.
pub proof fn law_switching_manager_clears_marks(s: AppView, c: char)
    requires
        s.input_mode == InputMode::Normal,
        c == 'p' || c == 'P' || c == 'f' || c == 'F',
    ensures
        key_spec(s, KeyPress { code: KeyCode::Char(c), ctrl: false }).0.marked.len() == 0,
        key_spec(s, KeyPress { code: KeyCode::Char(c), ctrl: false }).1 == ActionView::Refresh,
{
}

/// Switching to another manager: 'p' or 'P' selects pacman and 'f' or 'F'
/// selects Flatpak (with or without Control, except Control-C), dropping all
/// marks and asking for a new listing; nothing else changes.
pub proof fn law_switching_manager(s: AppView, c: char, ctrl: bool)
    requires
        s.input_mode == InputMode::Normal,
        c == 'p' || c == 'P' || c == 'f' || c == 'F',
    ensures
        ({
            let (t, a) = key_spec(s, KeyPress { code: KeyCode::Char(c), ctrl });
            &&& t.manager == (if c == 'p' || c == 'P' {
                ManagerKind::Pacman
            } else {
                ManagerKind::Flatpak
            })
            &&& t.marked.len() == 0
            &&& a == ActionView::Refresh
            &&& t.packages == s.packages
            &&& t.selected == s.selected
            &&& t.search_query == s.search_query
            &&& t.input_mode == InputMode::Normal
            &&& t.logs == s.logs
        }),
{
}

/// While browsing, 'q' and 'Q' end the program, with or without Control,
/// and change nothing.
pub proof fn law_q_quits(s: AppView, c: char, ctrl: bool)
    requires
        s.input_mode == InputMode::Normal,
        c == 'q' || c == 'Q',
    ensures
        key_spec(s, KeyPress { code: KeyCode::Char(c), ctrl }) == (s, ActionView::Quit),
{
}

/// While browsing, 'c' or 'C' without Control empties the search text and
/// changes nothing else; 'C' with Control changes nothing.
pub proof fn law_c_clears_search(s: AppView, c: char)
    requires
        s.input_mode == InputMode::Normal,
        c == 'c' || c == 'C',
    ensures
        key_spec(s, KeyPress { code: KeyCode::Char(c), ctrl: false }).0 == (AppView {
            search_query: Seq::empty(),
            ..s
        }),
        key_spec(s, KeyPress { code: KeyCode::Char(c), ctrl: false }).0.search_query.len() == 0,
        key_spec(s, KeyPress { code: KeyCode::Char(c), ctrl: false }).1 == ActionView::Continue,
        key_spec(s, KeyPress { code: KeyCode::Char('C'), ctrl: true }) == (s, ActionView::Continue),
{
}

/// While browsing, 's' or 'S' starts typing the search text, keeping it.
pub proof fn law_s_starts_search(s: AppView, c: char, ctrl: bool)
    requires
        s.input_mode == InputMode::Normal,
        c == 's' || c == 'S',
    ensures
        key_spec(s, KeyPress { code: KeyCode::Char(c), ctrl }).0.input_mode == InputMode::Search,
        key_spec(s, KeyPress { code: KeyCode::Char(c), ctrl }).0.search_query == s.search_query,
        key_spec(s, KeyPress { code: KeyCode::Char(c), ctrl }).0.marked == s.marked,
        key_spec(s, KeyPress { code: KeyCode::Char(c), ctrl }).1 == ActionView::Continue,
{
}

/// While browsing, Down and Up move the selection within a non-empty list
/// (Down to the next row or back to the first, Up to the previous row or
/// round to the last) and change nothing else.
pub proof fn law_arrows_move_selection(s: AppView, i: usize, ctrl: bool)
    requires
        s.input_mode == InputMode::Normal,
        s.selected == Some(i),
        i < s.packages.len() <= usize::MAX,
    ensures
        ({
            let (d, a) = key_spec(s, KeyPress { code: KeyCode::Down, ctrl });
            &&& a == ActionView::Continue
            &&& d == (AppView {
                selected: Some(
                    if i + 1 < s.packages.len() {
                        (i + 1) as usize
                    } else {
                        0usize
                    },
                ),
                ..s
            })
        }),
        ({
            let (u, a) = key_spec(s, KeyPress { code: KeyCode::Up, ctrl });
            &&& a == ActionView::Continue
            &&& u == (AppView {
                selected: Some(
                    if i > 0 {
                        (i - 1) as usize
                    } else {
                        (s.packages.len() - 1) as usize
                    },
                ),
                ..s
            })
        }),
{
}

/// While browsing, Space on a selected row among those shown marks the
/// package of that row if it is unmarked and unmarks it if it is marked;
/// other marks stay.
pub proof fn law_space_marks_selected_row(s: AppView, i: usize)
    requires
        s.input_mode == InputMode::Normal,
        s.selected == Some(i),
        i < shown_indices(s.packages, s.search_query).len(),
    ensures
        ({
            let id = s.packages[shown_indices(s.packages, s.search_query)[i as int]].id;
            let t = key_spec(s, KeyPress { code: KeyCode::Char(' '), ctrl: false }).0;
            &&& t.marked.contains(id) <==> !s.marked.contains(id)
            &&& forall|x: Seq<char>| x != id ==> (t.marked.contains(x) <==> s.marked.contains(x))
        }),
{
    let id = s.packages[shown_indices(s.packages, s.search_query)[i as int]].id;
    let t = key_spec(s, KeyPress { code: KeyCode::Char(' '), ctrl: false }).0;
    let keep = other_than(id);
    if s.marked.contains(id) {
        s.marked.filter_lemma(keep);
        assert(!t.marked.contains(id)) by {
            if t.marked.contains(id) {
                let k = choose|k: int| 0 <= k < t.marked.len() && t.marked[k] == id;
                assert(keep(t.marked[k]));
            }
        }
        assert forall|x: Seq<char>| x != id implies (t.marked.contains(x) <==> s.marked.contains(
            x,
        )) by {
            if t.marked.contains(x) {
                s.marked.lemma_filter_contains_rev(keep, x);
            }
            if s.marked.contains(x) {
                let k = choose|k: int| 0 <= k < s.marked.len() && s.marked[k] == x;
                assert(keep(s.marked[k]));
            }
        }
    } else {
        assert(t.marked[s.marked.len() as int] == id);
        assert forall|x: Seq<char>| x != id implies (t.marked.contains(x) <==> s.marked.contains(
            x,
        )) by {
            if t.marked.contains(x) {
                let k = choose|k: int| 0 <= k < t.marked.len() && t.marked[k] == x;
                assert(k < s.marked.len());
                assert(s.marked[k] == x);
            }
            if s.marked.contains(x) {
                let k = choose|k: int| 0 <= k < s.marked.len() && s.marked[k] == x;
                assert(t.marked[k] == x);
            }
        }
    }
}

/// While searching, Enter and Esc stop typing and keep the text; a typed
/// character is added at its end; Backspace removes its last character.
pub proof fn law_search_keys(s: AppView, c: char, ctrl: bool)
    requires
        s.input_mode == InputMode::Search,
        !(c == 'c' && ctrl),
    ensures
        key_spec(s, KeyPress { code: KeyCode::Enter, ctrl: false }).0 == (AppView {
            input_mode: InputMode::Normal,
            ..s
        }),
        key_spec(s, KeyPress { code: KeyCode::Esc, ctrl: false }).0 == (AppView {
            input_mode: InputMode::Normal,
            ..s
        }),
        key_spec(s, KeyPress { code: KeyCode::Char(c), ctrl }).0.search_query == s.search_query.push(
            c,
        ),
        key_spec(s, KeyPress { code: KeyCode::Char(c), ctrl }).0.input_mode == InputMode::Search,
        key_spec(s, KeyPress { code: KeyCode::Backspace, ctrl: false }).0.search_query.len() == if s.search_query.len() > 0 {
            s.search_query.len() - 1
        } else {
            0
        },
        key_spec(s, KeyPress { code: KeyCode::Backspace, ctrl: false }).0.search_query
            =~= s.search_query.take(
            key_spec(s, KeyPress { code: KeyCode::Backspace, ctrl: false }).0.search_query.len() as int,
        ),
{
}

/// While browsing with packages marked, Enter starts removing exactly the
/// marked packages with the current manager, shows the start of the log,
/// and keeps the marks; without marks it does nothing.
pub proof fn law_enter_starts_removal(s: AppView)
    requires
        s.input_mode == InputMode::Normal,
    ensures
        s.marked.len() > 0 ==> key_spec(s, KeyPress { code: KeyCode::Enter, ctrl: false }) == (
        AppView { input_mode: InputMode::Executing, logs: removal_log_start(), ..s },
        ActionView::Remove(remove_command_spec(s.manager, s.marked)),
        ),
        s.marked.len() > 0 ==> remove_command_spec(s.manager, s.marked).args.skip(
            remove_command_spec(s.manager, s.marked).args.len() - s.marked.len(),
        ) == s.marked,
        s.marked.len() == 0 ==> key_spec(s, KeyPress { code: KeyCode::Enter, ctrl: false }) == (
        s,
        ActionView::Continue,
        ),
{
    let args = remove_command_spec(s.manager, s.marked).args;
    assert(args.skip(args.len() - s.marked.len()) =~= s.marked);
}

/// The packages shown under a search text are exactly those whose
/// lowercased name holds the lowercased search text, each once, in the
/// order of the list.
pub proof fn law_shown_packages_match_search(pkgs: Seq<PackageView>, query: Seq<char>)
    ensures
        forall|k: int|
            0 <= k < shown_indices(pkgs, query).len() ==> {
                let j = #[trigger] shown_indices(pkgs, query)[k];
                &&& 0 <= j < pkgs.len()
                &&& contains_spec(lowercase(pkgs[j].name), lowercase(query))
            },
        forall|a: int, b: int|
            0 <= a < b < shown_indices(pkgs, query).len() ==> #[trigger] shown_indices(pkgs, query)[a]
                < #[trigger] shown_indices(pkgs, query)[b],
        forall|j: int|
            0 <= j < pkgs.len() && contains_spec(lowercase(#[trigger] pkgs[j].name), lowercase(query))
                ==> shown_indices(pkgs, query).contains(j),
    decreases pkgs.len(),
{
    lemma_shown_indices_in_range(pkgs, query);
    if pkgs.len() > 0 {
        let init = pkgs.drop_last();
        law_shown_packages_match_search(init, query);
        lemma_shown_indices_in_range(init, query);
        let ii = shown_indices(init, query);
        let ix = shown_indices(pkgs, query);
        assert forall|k: int| 0 <= k < ix.len() implies {
            let j = #[trigger] ix[k];
            &&& 0 <= j < pkgs.len()
            &&& contains_spec(lowercase(pkgs[j].name), lowercase(query))
        } by {
            if k < ii.len() {
                assert(ix[k] == ii[k]);
                assert(pkgs[ii[k]] == init[ii[k]]);
            } else {
                assert(ix[k] == pkgs.len() - 1);
            }
        }
        assert forall|a: int, b: int| 0 <= a < b < ix.len() implies #[trigger] ix[a] < #[trigger] ix[b] by {
            if b < ii.len() {
                assert(ix[a] == ii[a] && ix[b] == ii[b]);
            } else {
                assert(ix[a] == ii[a]);
                assert(ii[a] < init.len());
            }
        }
        assert forall|j: int|
            0 <= j < pkgs.len() && contains_spec(lowercase(#[trigger] pkgs[j].name), lowercase(query))
                implies ix.contains(j) by {
            if j < init.len() {
                assert(init[j] == pkgs[j]);
                assert(ii.contains(j));
                let k = choose|k: int| 0 <= k < ii.len() && ii[k] == j;
                assert(ix[k] == j);
            } else {
                assert(pkgs.last() == pkgs[j]);
                assert(ix[ii.len() as int] == j);
            }
        }
    }
}

/// After a removal, Enter returns to browsing with an empty log and no
/// marks, and asks for a new listing.
pub proof fn law_enter_after_removal(s: AppView)
    requires
        s.input_mode == InputMode::Done,
    ensures
        ({
            let (t, a) = key_spec(s, KeyPress { code: KeyCode::Enter, ctrl: false });
            &&& t.input_mode == InputMode::Normal
            &&& t.logs.len() == 0
            &&& t.marked.len() == 0
            &&& t.manager == s.manager
            &&& a == ActionView::Refresh
        }),
{
}

/// While searching, a typed character and then Backspace leave the search
/// text as it was.
pub proof fn law_backspace_undoes_typing(s: AppView, c: char, ctrl: bool)
    requires
        s.input_mode == InputMode::Search,
        !(c == 'c' && ctrl),
    ensures
        ({
            let typed = key_spec(s, KeyPress { code: KeyCode::Char(c), ctrl }).0;
            let erased = key_spec(typed, KeyPress { code: KeyCode::Backspace, ctrl: false }).0;
            erased == s
        }),
{
    assert(s.search_query.push(c).drop_last() =~= s.search_query);
}

/// A removal starts only from the browsing mode with packages marked; it
/// removes exactly the marked packages, with the current manager, and the
/// program then shows its log.
pub proof fn law_removal_needs_marks(s: AppView, key: KeyPress)
    ensures
        key_spec(s, key).1 matches ActionView::Remove(cmd) ==> {
            &&& s.input_mode == InputMode::Normal
            &&& s.marked.len() > 0
            &&& cmd == remove_command_spec(s.manager, s.marked)
            &&& key_spec(s, key).0.input_mode == InputMode::Executing
            &&& key_spec(s, key).0.marked == s.marked
        },
{
}

} // verus!
