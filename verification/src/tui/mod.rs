//! The state of the terminal interface and how it reacts to each key.
//!
//! The interface alternates between decisions, made here, and outside work
//! (listing remotes or files with rclone), which the caller performs. A key
//! is handed to [`App::handle_input`], which updates the state and answers with
//! a [`Command`]; when the command asks for a listing, the caller runs it and
//! hands the outcome to [`App::remotes_loaded`] or [`App::files_loaded`].

use crate::rclone::{FileItem, RcloneClient, Remote};
use crate::text::{chars_of, string_of};
use vstd::prelude::*;

verus! {

broadcast use vstd::string::group_string_axioms;

/// Which list the interface shows.
#[derive(Debug, Clone, Copy)]
pub enum ViewMode {
    Remotes,
    Files,
}

/// A key that the interface reacts to.
#[derive(Debug, Clone, Copy)]
pub enum Key {
    Char(char),
    Enter,
    Up,
    Down,
    Other,
}

/// What the caller has to do after a key.
#[derive(Debug, Clone)]
pub enum Command {
    /// Nothing more.
    Nothing,
    /// Leave the interface.
    Quit,
    /// List the remotes, and hand the outcome to `remotes_loaded`.
    LoadRemotes,
    /// List the files at `path` in `remote`, and hand the outcome to `files_loaded`.
    LoadFiles { remote: String, path: String },
    /// Show the file `name` of `size` bytes, by `show_file_info`.
    DescribeFile { name: String, size: i64 },
}

/// The view of a command: its strings taken by their views.
pub enum CommandView {
    Nothing,
    Quit,
    LoadRemotes,
    LoadFiles(Seq<char>, Seq<char>),
    DescribeFile(Seq<char>, i64),
}

impl View for Command {
    type V = CommandView;

    open spec fn view(&self) -> CommandView {
        match self {
            Command::Nothing => CommandView::Nothing,
            Command::Quit => CommandView::Quit,
            Command::LoadRemotes => CommandView::LoadRemotes,
            Command::LoadFiles { remote, path } => CommandView::LoadFiles(remote@, path@),
            Command::DescribeFile { name, size } => CommandView::DescribeFile(name@, *size),
        }
    }
}

/// The path of the directory `dir` inside `path` (the top when `path` is empty).
pub open spec fn child_path(path: Seq<char>, dir: Seq<char>) -> Seq<char> {
    if path.len() == 0 {
        dir
    } else {
        path + "/"@ + dir
    }
}

/// The path one directory up from `path`: what comes before its last `/`,
/// or the top (empty) when it has none.
pub open spec fn parent_path(path: Seq<char>) -> Seq<char>
    decreases path.len(),
{
    if path.len() == 0 {
        Seq::empty()
    } else if path.last() == '/' {
        path.drop_last()
    } else {
        parent_path(path.drop_last())
    }
}

/// The path of the directory `dir` inside `path`.
pub fn join_path(path: &str, dir: &str) -> (joined: String)
    ensures
        joined@ == child_path(path@, dir@),
{
    if path.is_empty() {
        dir.to_owned()
    } else {
        let mut joined = path.to_owned();
        joined.append("/");
        joined.append(dir);
        joined
    }
}

/// The path one directory up from `path`.
pub fn up_path(path: &str) -> (up: String)
    ensures
        up@ == parent_path(path@),
{
    let mut v = chars_of(path);
    while v.len() > 0 && v[v.len() - 1] != '/'
        invariant
            parent_path(v@) == parent_path(path@),
        decreases v.len(),
    {
        let ghost before = v@;
        v.pop();
        proof {
            assert(v@ =~= before.drop_last());
        }
    }
    if v.len() > 0 {
        let ghost before = v@;
        v.pop();
        proof {
            assert(v@ =~= before.drop_last());
        }
    }
    string_of(v.as_slice())
}


/// Whether `s` holds no `/`.
pub open spec fn has_no_slash(s: Seq<char>) -> bool {
    forall|i: int| 0 <= i < s.len() ==> s[i] != '/'
}

proof fn lemma_parent_skips_name(base: Seq<char>, name: Seq<char>)
    requires
        has_no_slash(name),
    ensures
        parent_path(base + name) == parent_path(base),
    decreases name.len(),
{
    if name.len() > 0 {
        assert((base + name).drop_last() =~= base + name.drop_last());
        assert((base + name).last() == name.last());
        lemma_parent_skips_name(base, name.drop_last());
    } else {
        assert(base + name =~= base);
    }
}

/// Going into a directory and then one directory up comes back to where one
/// was, for any directory name without a `/`.
pub proof fn lemma_up_after_into(path: Seq<char>, dir: Seq<char>)
    requires
        has_no_slash(dir),
    ensures
        parent_path(child_path(path, dir)) == path,
{
    if path.len() == 0 {
        assert(Seq::<char>::empty() + dir =~= dir);
        lemma_parent_skips_name(Seq::<char>::empty(), dir);
    } else {
        lemma_parent_skips_name(path + "/"@, dir);
        assert("/"@ == seq!['/']) by {
            reveal_strlit("/");
        }
        assert((path + "/"@).drop_last() =~= path);
    }
}


/// `n - 1`, or 0 when `n` is 0.
pub open spec fn last_index(n: nat) -> nat {
    if n == 0 {
        0
    } else {
        (n - 1) as nat
    }
}

/// The selection after moving down a list of `len` items: the next item, or
/// back to the first one from the last.
pub open spec fn select_next(selected: Option<usize>, len: nat) -> nat {
    match selected {
        Some(i) => if i >= last_index(len) {
            0
        } else {
            (i + 1) as nat
        },
        None => 0,
    }
}

/// The selection after moving up a list of `len` items: the previous item, or
/// round to the last one from the first.
pub open spec fn select_prev(selected: Option<usize>, len: nat) -> nat {
    match selected {
        Some(i) => if i == 0 {
            last_index(len)
        } else {
            (i - 1) as nat
        },
        None => 0,
    }
}

/// The selection kept for a freshly loaded list of `len` items: none when the
/// list is empty, the last item when the selection lay beyond it, the first
/// item when nothing was selected, and the same item otherwise.
pub open spec fn fit_selection(selected: Option<usize>, len: nat) -> Option<usize> {
    if len == 0 {
        None
    } else {
        match selected {
            Some(i) => if i >= len {
                Some((len - 1) as usize)
            } else {
                Some(i)
            },
            None => Some(0),
        }
    }
}

/// Moving down and then up a list comes back to the item one started from.
pub proof fn lemma_up_after_down(i: usize, len: usize)
    requires
        i < len,
    ensures
        select_prev(Some(select_next(Some(i), len as nat) as usize), len as nat) == i,
{
}

/// Moving up and then down a list comes back to the item one started from.
pub proof fn lemma_down_after_up(i: usize, len: usize)
    requires
        i < len,
    ensures
        select_next(Some(select_prev(Some(i), len as nat) as usize), len as nat) == i,
{
}

/// Moving up or down a list that is not empty keeps the selection inside it.
pub proof fn lemma_moves_stay_in_list(selected: Option<usize>, len: usize)
    requires
        len > 0,
        selected matches Some(i) ==> i < len,
    ensures
        select_next(selected, len as nat) < len,
        select_prev(selected, len as nat) < len,
{
}

/// The selection of a loaded list is none exactly when the list is empty, and
/// otherwise an item of the list.
pub proof fn lemma_fit_selection_in_list(selected: Option<usize>, len: usize)
    ensures
        fit_selection(selected, len as nat) is None <==> len == 0,
        fit_selection(selected, len as nat) matches Some(i) ==> i < len,
{
}


/// Application state
pub struct App {
    client: RcloneClient,
    view: ViewMode,
    remotes: Vec<Remote>,
    files: Vec<FileItem>,
    selected: Option<usize>,
    status_message: String,
    current_remote: Option<String>,
    current_path: String,
    pending_status: Option<String>,
}

/// The state of the interface, as values.
pub struct AppView {
    /// The program that the client runs.
    pub client: Seq<char>,
    pub view: ViewMode,
    pub remotes: Seq<Remote>,
    pub files: Seq<FileItem>,
    pub selected: Option<usize>,
    pub status: Seq<char>,
    pub current_remote: Option<Seq<char>>,
    pub current_path: Seq<char>,
    /// The status to show once the listing under way has arrived.
    pub pending_status: Option<Seq<char>>,
}

/// The view of an optional string.
pub open spec fn opt_view(s: Option<String>) -> Option<Seq<char>> {
    match s {
        Some(x) => Some(x@),
        None => None,
    }
}

impl View for App {
    type V = AppView;

    closed spec fn view(&self) -> AppView {
        AppView {
            client: self.client@,
            view: self.view,
            remotes: self.remotes@,
            files: self.files@,
            selected: self.selected,
            status: self.status_message@,
            current_remote: opt_view(self.current_remote),
            current_path: self.current_path@,
            pending_status: opt_view(self.pending_status),
        }
    }
}

/// The status that the interface shows when it starts.
pub open spec fn welcome_text() -> Seq<char> {
    "Welcome to Rclone UI! Press 'h' for help."@
}

/// The status that key `h` shows.
pub open spec fn help_text() -> Seq<char> {
    "Commands: q=quit, Enter=open, b=back, r=refresh, ↑↓=navigate"@
}

/// The state of a new interface for `client`: the (still empty) list of
/// remotes, its first item selected, and the welcome status.
pub open spec fn initial_view(client: Seq<char>) -> AppView {
    AppView {
        client,
        view: ViewMode::Remotes,
        remotes: Seq::empty(),
        files: Seq::empty(),
        selected: Some(0),
        status: welcome_text(),
        current_remote: None,
        current_path: Seq::empty(),
        pending_status: None,
    }
}

/// The number of items in the list that the state shows.
pub open spec fn shown_len(s: AppView) -> nat {
    match s.view {
        ViewMode::Remotes => s.remotes.len(),
        ViewMode::Files => s.files.len(),
    }
}

/// What key `r` does: list the view again, and say so once it is listed.
pub open spec fn refresh_step(s: AppView) -> (AppView, CommandView) {
    match s.view {
        ViewMode::Remotes => (
            AppView { pending_status: Some("Remotes refreshed"@), ..s },
            CommandView::LoadRemotes,
        ),
        ViewMode::Files => match s.current_remote {
            Some(remote) => (
                AppView { pending_status: Some("Files refreshed"@), ..s },
                CommandView::LoadFiles(remote, s.current_path),
            ),
            None => (s, CommandView::Nothing),
        },
    }
}

/// What key `b` does: from the top of a remote back to the remotes, from a
/// directory one directory up.
pub open spec fn back_step(s: AppView) -> (AppView, CommandView) {
    match s.view {
        ViewMode::Remotes => (
            AppView { status: "Already at remotes view"@, ..s },
            CommandView::Nothing,
        ),
        ViewMode::Files => if s.current_path.len() == 0 {
            (
                AppView {
                    view: ViewMode::Remotes,
                    current_remote: None,
                    current_path: Seq::empty(),
                    pending_status: Some("Back to remotes"@),
                    ..s
                },
                CommandView::LoadRemotes,
            )
        } else {
            let up = parent_path(s.current_path);
            match s.current_remote {
                Some(remote) => (
                    AppView {
                        current_path: up,
                        pending_status: Some("Went up one directory"@),
                        ..s
                    },
                    CommandView::LoadFiles(remote, up),
                ),
                None => (
                    AppView { current_path: up, status: "Went up one directory"@, ..s },
                    CommandView::Nothing,
                ),
            }
        },
    }
}

/// What Enter does: open the selected remote, go into the selected
/// directory, or describe the selected file.
pub open spec fn open_step(s: AppView) -> (AppView, CommandView) {
    match s.view {
        ViewMode::Remotes => match s.selected {
            Some(i) => if i < s.remotes.len() {
                let name = s.remotes[i as int].name@;
                (
                    AppView {
                        current_remote: Some(name),
                        current_path: Seq::empty(),
                        view: ViewMode::Files,
                        pending_status: Some("Opened remote: "@ + name),
                        ..s
                    },
                    CommandView::LoadFiles(name, Seq::empty()),
                )
            } else {
                (s, CommandView::Nothing)
            },
            None => (s, CommandView::Nothing),
        },
        ViewMode::Files => match s.selected {
            Some(i) => if i < s.files.len() {
                let file = s.files[i as int];
                if file.is_dir {
                    let into = child_path(s.current_path, file.path@);
                    let said = "Opened directory: "@ + file.name@;
                    match s.current_remote {
                        Some(remote) => (
                            AppView { current_path: into, pending_status: Some(said), ..s },
                            CommandView::LoadFiles(remote, into),
                        ),
                        None => (
                            AppView { current_path: into, status: said, ..s },
                            CommandView::Nothing,
                        ),
                    }
                } else {
                    (s, CommandView::DescribeFile(file.name@, file.size))
                }
            } else {
                (s, CommandView::Nothing)
            },
            None => (s, CommandView::Nothing),
        },
    }
}

/// The state after key `key`, and what the caller has to do then.
pub open spec fn key_step(s: AppView, key: Key) -> (AppView, CommandView) {
    match key {
        Key::Char(c) => if c == 'q' {
            (s, CommandView::Quit)
        } else if c == 'h' {
            (AppView { status: help_text(), ..s }, CommandView::Nothing)
        } else if c == 'r' {
            refresh_step(s)
        } else if c == 'b' {
            back_step(s)
        } else {
            (s, CommandView::Nothing)
        },
        Key::Enter => open_step(s),
        Key::Down => (
            AppView { selected: Some(select_next(s.selected, shown_len(s)) as usize), ..s },
            CommandView::Nothing,
        ),
        Key::Up => (
            AppView { selected: Some(select_prev(s.selected, shown_len(s)) as usize), ..s },
            CommandView::Nothing,
        ),
        Key::Other => (s, CommandView::Nothing),
    }
}

/// The view of the outcome of a listing.
pub open spec fn outcome_view<T>(outcome: Result<Vec<T>, String>) -> Result<Seq<T>, Seq<char>> {
    match outcome {
        Ok(v) => Ok(v@),
        Err(e) => Err(e@),
    }
}

/// The status after a listing arrived: the status that was waiting for it if
/// any, otherwise the error of a failed listing, otherwise unchanged.
pub open spec fn status_after_load<T>(s: AppView, outcome: Result<Seq<T>, Seq<char>>, what: Seq<char>) -> Seq<char> {
    match s.pending_status {
        Some(m) => m,
        None => match outcome {
            Ok(_) => s.status,
            Err(e) => "Error loading "@ + what + ": "@ + e,
        },
    }
}

/// The list that a listing yields: what it listed, or nothing when it failed.
pub open spec fn loaded_list<T>(outcome: Result<Seq<T>, Seq<char>>) -> Seq<T> {
    match outcome {
        Ok(v) => v,
        Err(_) => Seq::empty(),
    }
}

/// The state after the list of remotes arrived.
pub open spec fn remotes_loaded_step(s: AppView, outcome: Result<Seq<Remote>, Seq<char>>) -> AppView {
    let remotes = loaded_list(outcome);
    AppView {
        remotes,
        selected: fit_selection(s.selected, remotes.len()),
        status: status_after_load(s, outcome, "remotes"@),
        pending_status: None,
        ..s
    }
}

/// The state after the list of files arrived.
pub open spec fn files_loaded_step(s: AppView, outcome: Result<Seq<FileItem>, Seq<char>>) -> AppView {
    let files = loaded_list(outcome);
    AppView {
        files,
        selected: fit_selection(s.selected, files.len()),
        status: status_after_load(s, outcome, "files"@),
        pending_status: None,
        ..s
    }
}


impl App {
    pub fn new(client: RcloneClient) -> (app: Self)
        ensures
            app@ == initial_view(client@),
    {
        App {
            client,
            view: ViewMode::Remotes,
            remotes: Vec::new(),
            files: Vec::new(),
            selected: Some(0),
            status_message: "Welcome to Rclone UI! Press 'h' for help.".to_owned(),
            current_remote: None,
            current_path: String::new(),
            pending_status: None,
        }
    }

    /// Reacts to `key`: updates the state and says what the caller has to do.
    pub fn handle_input(&mut self, key: Key) -> (command: Command)
        ensures
            (final(self)@, command@) == key_step(old(self)@, key),
    {
        match key {
            Key::Char(c) => {
                if c == 'q' {
                    Command::Quit
                } else if c == 'h' {
                    self.status_message = "Commands: q=quit, Enter=open, b=back, r=refresh, ↑↓=navigate".to_owned();
                    Command::Nothing
                } else if c == 'r' {
                    self.refresh()
                } else if c == 'b' {
                    self.back()
                } else {
                    Command::Nothing
                }
            },
            Key::Enter => self.open(),
            Key::Down => {
                let len = self.shown_len();
                let i = match self.selected {
                    Some(i) => if i >= len.saturating_sub(1) {
                        0
                    } else {
                        i + 1
                    },
                    None => 0,
                };
                self.selected = Some(i);
                Command::Nothing
            },
            Key::Up => {
                let len = self.shown_len();
                let i = match self.selected {
                    Some(i) => if i == 0 {
                        len.saturating_sub(1)
                    } else {
                        i - 1
                    },
                    None => 0,
                };
                self.selected = Some(i);
                Command::Nothing
            },
            Key::Other => Command::Nothing,
        }
    }

    fn shown_len(&self) -> (len: usize)
        ensures
            len == shown_len(self@),
    {
        match self.view {
            ViewMode::Remotes => self.remotes.len(),
            ViewMode::Files => self.files.len(),
        }
    }

    fn refresh(&mut self) -> (command: Command)
        ensures
            (final(self)@, command@) == refresh_step(old(self)@),
    {
        match self.view {
            ViewMode::Remotes => {
                self.pending_status = Some("Remotes refreshed".to_owned());
                Command::LoadRemotes
            },
            ViewMode::Files => match &self.current_remote {
                Some(remote) => {
                    let remote = remote.clone();
                    let path = self.current_path.clone();
                    self.pending_status = Some("Files refreshed".to_owned());
                    Command::LoadFiles { remote, path }
                },
                None => Command::Nothing,
            },
        }
    }

    fn back(&mut self) -> (command: Command)
        ensures
            (final(self)@, command@) == back_step(old(self)@),
    {
        match self.view {
            ViewMode::Remotes => {
                self.status_message = "Already at remotes view".to_owned();
                Command::Nothing
            },
            ViewMode::Files => {
                if self.current_path.as_str().is_empty() {
                    self.view = ViewMode::Remotes;
                    self.current_remote = None;
                    self.current_path = String::new();
                    self.pending_status = Some("Back to remotes".to_owned());
                    Command::LoadRemotes
                } else {
                    let up = up_path(self.current_path.as_str());
                    match &self.current_remote {
                        Some(remote) => {
                            let remote = remote.clone();
                            let path = up.clone();
                            self.current_path = up;
                            self.pending_status = Some("Went up one directory".to_owned());
                            Command::LoadFiles { remote, path }
                        },
                        None => {
                            self.current_path = up;
                            self.status_message = "Went up one directory".to_owned();
                            Command::Nothing
                        },
                    }
                }
            },
        }
    }

    fn open(&mut self) -> (command: Command)
        ensures
            (final(self)@, command@) == open_step(old(self)@),
    {
        match self.view {
            ViewMode::Remotes => match self.selected {
                Some(i) => if i < self.remotes.len() {
                    let name = self.remotes[i].name.clone();
                    let mut said = "Opened remote: ".to_owned();
                    said.append(name.as_str());
                    self.current_remote = Some(name.clone());
                    self.current_path = String::new();
                    self.view = ViewMode::Files;
                    self.pending_status = Some(said);
                    Command::LoadFiles { remote: name, path: String::new() }
                } else {
                    Command::Nothing
                },
                None => Command::Nothing,
            },
            ViewMode::Files => match self.selected {
                Some(i) => if i < self.files.len() {
                    if self.files[i].is_dir {
                        let into = join_path(self.current_path.as_str(), self.files[i].path.as_str());
                        let mut said = "Opened directory: ".to_owned();
                        said.append(self.files[i].name.as_str());
                        match &self.current_remote {
                            Some(remote) => {
                                let remote = remote.clone();
                                let path = into.clone();
                                self.current_path = into;
                                self.pending_status = Some(said);
                                Command::LoadFiles { remote, path }
                            },
                            None => {
                                self.current_path = into;
                                self.status_message = said;
                                Command::Nothing
                            },
                        }
                    } else {
                        Command::DescribeFile { name: self.files[i].name.clone(), size: self.files[i].size }
                    }
                } else {
                    Command::Nothing
                },
                None => Command::Nothing,
            },
        }
    }

    fn fitted_selection(&self, len: usize) -> (selected: Option<usize>)
        ensures
            selected == fit_selection(self.selected, len as nat),
    {
        if len == 0 {
            None
        } else {
            match self.selected {
                Some(i) => if i >= len {
                    Some(len - 1)
                } else {
                    Some(i)
                },
                None => Some(0),
            }
        }
    }

    fn settle_status(&mut self, error: Option<String>, what: &str)
        ensures
            final(self).status_message@ == (match old(self).pending_status {
                Some(m) => m@,
                None => match error {
                    Some(e) => "Error loading "@ + what@ + ": "@ + e@,
                    None => old(self).status_message@,
                },
            }),
            final(self).pending_status is None,
            final(self).client == old(self).client,
            final(self).view == old(self).view,
            final(self).remotes == old(self).remotes,
            final(self).files == old(self).files,
            final(self).selected == old(self).selected,
            final(self).current_remote == old(self).current_remote,
            final(self).current_path == old(self).current_path,
    {
        match self.pending_status.take() {
            Some(m) => {
                self.status_message = m;
            },
            None => match error {
                Some(e) => {
                    let mut m = "Error loading ".to_owned();
                    m.append(what);
                    m.append(": ");
                    m.append(e.as_str());
                    self.status_message = m;
                },
                None => {},
            },
        }
    }

    /// Takes the outcome of listing the remotes.
    pub fn remotes_loaded(&mut self, outcome: Result<Vec<Remote>, String>)
        ensures
            final(self)@ == remotes_loaded_step(old(self)@, outcome_view(outcome)),
    {
        let error = match outcome {
            Ok(remotes) => {
                self.remotes = remotes;
                None
            },
            Err(e) => {
                self.remotes = Vec::new();
                Some(e)
            },
        };
        let len = self.remotes.len();
        self.selected = self.fitted_selection(len);
        self.settle_status(error, "remotes");
    }

    /// Takes the outcome of listing files.
    pub fn files_loaded(&mut self, outcome: Result<Vec<FileItem>, String>)
        ensures
            final(self)@ == files_loaded_step(old(self)@, outcome_view(outcome)),
    {
        let error = match outcome {
            Ok(files) => {
                self.files = files;
                None
            },
            Err(e) => {
                self.files = Vec::new();
                Some(e)
            },
        };
        let len = self.files.len();
        self.selected = self.fitted_selection(len);
        self.settle_status(error, "files");
    }

    /// Shows the outcome of looking for rclone: its version, or why it was
    /// not found.
    pub fn report_rclone_check(&mut self, outcome: Result<String, String>)
        ensures
            final(self)@ == (AppView {
                status: match outcome {
                    Ok(version) => "Rclone detected: "@ + version@,
                    Err(e) => "Error: rclone not found - "@ + e@,
                },
                ..old(self)@
            }),
    {
        let message = match outcome {
            Ok(version) => {
                let mut m = "Rclone detected: ".to_owned();
                m.append(version.as_str());
                m
            },
            Err(e) => {
                let mut m = "Error: rclone not found - ".to_owned();
                m.append(e.as_str());
                m
            },
        };
        self.status_message = message;
    }

    /// Shows the file `name`, whose size reads `size_text`.
    pub fn show_file_info(&mut self, name: &str, size_text: &str)
        ensures
            final(self)@ == (AppView {
                status: "File: "@ + name@ + " ("@ + size_text@ + ")"@,
                ..old(self)@
            }),
    {
        let mut m = "File: ".to_owned();
        m.append(name);
        m.append(" (");
        m.append(size_text);
        m.append(")");
        self.status_message = m;
    }

    /// The title over the list.
    pub fn title(&self) -> (title: String)
        ensures
            title@ == title_text(self@),
    {
        match self.view {
            ViewMode::Remotes => "☁️  Rclone UI - Remotes".to_owned(),
            ViewMode::Files => match &self.current_remote {
                Some(remote) => {
                    let mut t = "☁️  Rclone UI - ".to_owned();
                    t.append(remote.as_str());
                    if !self.current_path.as_str().is_empty() {
                        t.append(":");
                        t.append(self.current_path.as_str());
                    }
                    t
                },
                None => "☁️  Rclone UI - Files".to_owned(),
            },
        }
    }

    /// The client that lists remotes and files.
    pub fn client(&self) -> (client: &RcloneClient)
        ensures
            client@ == self@.client,
    {
        &self.client
    }

    /// Which list is shown.
    pub fn view_mode(&self) -> (view: ViewMode)
        ensures
            view == self@.view,
    {
        self.view
    }

    /// The remotes listed last.
    pub fn remotes(&self) -> (remotes: &Vec<Remote>)
        ensures
            remotes@ == self@.remotes,
    {
        &self.remotes
    }

    /// The files listed last.
    pub fn files(&self) -> (files: &Vec<FileItem>)
        ensures
            files@ == self@.files,
    {
        &self.files
    }

    /// The selected item of the shown list.
    pub fn selected(&self) -> (selected: Option<usize>)
        ensures
            selected == self@.selected,
    {
        self.selected
    }

    /// The status line.
    pub fn status_message(&self) -> (status: &str)
        ensures
            status@ == self@.status,
    {
        self.status_message.as_str()
    }

    /// The remote that is open, if any.
    pub fn current_remote(&self) -> (remote: Option<&str>)
        ensures
            match remote {
                Some(r) => self@.current_remote == Some(r@),
                None => self@.current_remote is None,
            },
    {
        match &self.current_remote {
            Some(r) => Some(r.as_str()),
            None => None,
        }
    }

    /// The directory that is open in the current remote (empty at its top).
    pub fn current_path(&self) -> (path: &str)
        ensures
            path@ == self@.current_path,
    {
        self.current_path.as_str()
    }
}

/// The title over the list: the remotes, or the open remote and directory.
pub open spec fn title_text(s: AppView) -> Seq<char> {
    match s.view {
        ViewMode::Remotes => "☁️  Rclone UI - Remotes"@,
        ViewMode::Files => match s.current_remote {
            Some(remote) => if s.current_path.len() == 0 {
                "☁️  Rclone UI - "@ + remote
            } else {
                "☁️  Rclone UI - "@ + remote + ":"@ + s.current_path
            },
            None => "☁️  Rclone UI - Files"@,
        },
    }
}

/// Only `q` quits, and it changes nothing.
pub proof fn lemma_only_q_quits(s: AppView, key: Key)
    ensures
        key_step(s, key).1 is Quit <==> key == Key::Char('q'),
        key == Key::Char('q') ==> key_step(s, key).0 == s,
{
}

/// Moving up or down changes only the selection, and asks for no outside work.
pub proof fn lemma_moves_only_select(s: AppView, key: Key)
    requires
        key is Up || key is Down,
    ensures
        key_step(s, key).1 is Nothing,
        key_step(s, key).0 == (AppView { selected: key_step(s, key).0.selected, ..s }),
{
}

/// After any listing arrives, nothing is selected exactly when the shown list
/// is empty, a selected item lies inside the list, and no status is waiting.
pub proof fn lemma_loaded_selection_fits(
    s: AppView,
    remotes: Result<Seq<Remote>, Seq<char>>,
    files: Result<Seq<FileItem>, Seq<char>>,
)
    ensures
        ({
            let r = remotes_loaded_step(s, remotes);
            &&& r.selected is None <==> r.remotes.len() == 0
            &&& r.selected matches Some(i) ==> i < r.remotes.len()
            &&& r.pending_status is None
        }),
        ({
            let f = files_loaded_step(s, files);
            &&& f.selected is None <==> f.files.len() == 0
            &&& f.selected matches Some(i) ==> i < f.files.len()
            &&& f.pending_status is None
        }),
{
}

/// Opening a directory and then pressing `b` comes back to the directory one
/// was in, and lists it again, whatever the listing in between gave.
pub proof fn lemma_back_after_opening_directory(
    s: AppView,
    listing: Result<Seq<FileItem>, Seq<char>>,
)
    requires
        s.view is Files,
        s.current_remote is Some,
        s.selected matches Some(i) && i < s.files.len() && s.files[i as int].is_dir
            && s.files[i as int].path@.len() > 0 && has_no_slash(s.files[i as int].path@),
    ensures
        ({
            let opened = files_loaded_step(key_step(s, Key::Enter).0, listing);
            let (back, command) = key_step(opened, Key::Char('b'));
            &&& back.view is Files
            &&& back.current_remote == s.current_remote
            &&& back.current_path == s.current_path
            &&& command == CommandView::LoadFiles(s.current_remote->0, s.current_path)
        }),
{
    let i = s.selected->0;
    let dir = s.files[i as int].path@;
    lemma_up_after_into(s.current_path, dir);
    let into = child_path(s.current_path, dir);
    assert(into.len() > 0) by {
        if s.current_path.len() > 0 {
            assert(into.len() == s.current_path.len() + "/"@.len() + dir.len());
        }
    }
}

/// Opening a remote and then pressing `b` comes back to the list of remotes,
/// with no remote open, and lists the remotes again.
pub proof fn lemma_back_after_opening_remote(
    s: AppView,
    listing: Result<Seq<FileItem>, Seq<char>>,
)
    requires
        s.view is Remotes,
        s.selected matches Some(i) && i < s.remotes.len(),
    ensures
        ({
            let opened = files_loaded_step(key_step(s, Key::Enter).0, listing);
            let (back, command) = key_step(opened, Key::Char('b'));
            &&& back.view is Remotes
            &&& back.current_remote is None
            &&& back.current_path.len() == 0
            &&& command is LoadRemotes
        }),
{
}

/// Listing the remotes changes only the remotes, the selection and the status:
/// the view, the files, the open remote, its path and the client stay. With no
/// status waiting for the listing, the status changes only when the listing
/// failed, to its error; a waiting status is shown and no longer waits.
pub proof fn lemma_remotes_load_frame(s: AppView, outcome: Result<Seq<Remote>, Seq<char>>)
    ensures
        ({
            let t = remotes_loaded_step(s, outcome);
            &&& t.view == s.view
            &&& t.files == s.files
            &&& t.current_remote == s.current_remote
            &&& t.current_path == s.current_path
            &&& t.client == s.client
            &&& t.pending_status is None
            &&& s.pending_status matches Some(m) ==> t.status == m
            &&& s.pending_status is None ==> t.status == match outcome {
                Ok(_) => s.status,
                Err(e) => "Error loading remotes: "@ + e,
            }
        }),
{
    reveal_strlit("Error loading ");
    reveal_strlit("remotes");
    reveal_strlit(": ");
    reveal_strlit("Error loading remotes: ");
    if let Err(e) = outcome {
        assert("Error loading "@ + "remotes"@ + ": "@ =~= "Error loading remotes: "@);
    }
}

/// Listing files changes only the files, the selection and the status: the
/// view, the remotes, the open remote, its path and the client stay. With no
/// status waiting for the listing, the status changes only when the listing
/// failed, to its error; a waiting status is shown and no longer waits.
pub proof fn lemma_files_load_frame(s: AppView, outcome: Result<Seq<FileItem>, Seq<char>>)
    ensures
        ({
            let t = files_loaded_step(s, outcome);
            &&& t.view == s.view
            &&& t.remotes == s.remotes
            &&& t.current_remote == s.current_remote
            &&& t.current_path == s.current_path
            &&& t.client == s.client
            &&& t.pending_status is None
            &&& s.pending_status matches Some(m) ==> t.status == m
            &&& s.pending_status is None ==> t.status == match outcome {
                Ok(_) => s.status,
                Err(e) => "Error loading files: "@ + e,
            }
        }),
{
    reveal_strlit("Error loading ");
    reveal_strlit("files");
    reveal_strlit(": ");
    reveal_strlit("Error loading files: ");
    if let Err(e) = outcome {
        assert("Error loading "@ + "files"@ + ": "@ =~= "Error loading files: "@);
    }
}

/// Every listing of files that a key asks for is a listing of exactly the
/// place the interface then shows: the open remote at the current path, in
/// the files view. Every listing of remotes is asked for in the remotes view.
pub proof fn lemma_listing_matches_shown_place(s: AppView, key: Key)
    ensures
        ({
            let (t, command) = key_step(s, key);
            &&& command matches CommandView::LoadFiles(remote, path) ==> {
                &&& t.view is Files
                &&& t.current_remote == Some(remote)
                &&& t.current_path == path
            }
            &&& command is LoadRemotes ==> t.view is Remotes
        }),
{
}

/// Enter on a directory of the open remote goes into it: the new path is the
/// directory's path below the current one (joined by `/`, or alone at the
/// top), and that very path of the open remote is listed, with the opening
/// said once it is listed.
pub proof fn lemma_open_directory(s: AppView, i: usize)
    requires
        s.view is Files,
        s.current_remote is Some,
        s.selected == Some(i),
        i < s.files.len(),
        s.files[i as int].is_dir,
    ensures
        ({
            let (t, command) = key_step(s, Key::Enter);
            let dir = s.files[i as int].path@;
            let into = if s.current_path.len() == 0 {
                dir
            } else {
                s.current_path + "/"@ + dir
            };
            &&& t.current_path == into
            &&& command == CommandView::LoadFiles(s.current_remote->0, into)
            &&& t.pending_status == Some("Opened directory: "@ + s.files[i as int].name@)
            &&& t.view is Files
            &&& t.files == s.files
            &&& t.selected == s.selected
        }),
{
}

/// Enter on a file that is not a directory describes that very file, by its
/// name and size, and changes nothing.
pub proof fn lemma_open_file(s: AppView, i: usize)
    requires
        s.view is Files,
        s.selected == Some(i),
        i < s.files.len(),
        !s.files[i as int].is_dir,
    ensures
        key_step(s, Key::Enter) == (s, CommandView::DescribeFile(
            s.files[i as int].name@,
            s.files[i as int].size,
        )),
{
}

/// Down moves through the list that is shown (the files in the files view,
/// the remotes in the remotes view): to the next item, or from the last one
/// back to the first; Up moves to the previous item, or from the first one
/// round to the last. Nothing else changes.
pub proof fn lemma_moves_through_shown_list(s: AppView, i: usize)
    requires
        s.selected == Some(i),
        i < (match s.view {
            ViewMode::Files => s.files.len(),
            ViewMode::Remotes => s.remotes.len(),
        }),
    ensures
        ({
            let n = match s.view {
                ViewMode::Files => s.files.len(),
                ViewMode::Remotes => s.remotes.len(),
            };
            &&& key_step(s, Key::Down) == (
                AppView { selected: Some(if i + 1 < n { (i + 1) as usize } else { 0 }), ..s },
                CommandView::Nothing,
            )
            &&& key_step(s, Key::Up) == (
                AppView { selected: Some(if i == 0 { (n - 1) as usize } else { (i - 1) as usize }), ..s },
                CommandView::Nothing,
            )
        }),
{
}

/// Key `r` in the files view of an open remote lists the current path of that
/// remote again, whatever the path (the top of the remote too), and says
/// "Files refreshed" once it is listed; in the remotes view it lists the
/// remotes again and says "Remotes refreshed". Nothing else changes.
pub proof fn lemma_refresh_lists_again(s: AppView)
    ensures
        s.view is Files && s.current_remote is Some ==> key_step(s, Key::Char('r')) == (
            AppView { pending_status: Some("Files refreshed"@), ..s },
            CommandView::LoadFiles(s.current_remote->0, s.current_path),
        ),
        s.view is Remotes ==> key_step(s, Key::Char('r')) == (
            AppView { pending_status: Some("Remotes refreshed"@), ..s },
            CommandView::LoadRemotes,
        ),
{
}

/// A listing that arrives replaces the shown list by exactly what it listed,
/// and by nothing when it failed, so nothing is selected then.
pub proof fn lemma_loads_replace_list(
    s: AppView,
    remotes: Seq<Remote>,
    files: Seq<FileItem>,
    e: Seq<char>,
)
    ensures
        remotes_loaded_step(s, Ok(remotes)).remotes == remotes,
        files_loaded_step(s, Ok(files)).files == files,
        remotes_loaded_step(s, Err(e)).remotes.len() == 0,
        remotes_loaded_step(s, Err(e)).selected is None,
        files_loaded_step(s, Err(e)).files.len() == 0,
        files_loaded_step(s, Err(e)).selected is None,
{
}

/// Enter on a remote opens it: the interface shows the top of that remote
/// (empty path) in the files view, lists exactly that, and says which remote
/// it opened once it is listed.
pub proof fn lemma_open_remote(s: AppView, i: usize)
    requires
        s.view is Remotes,
        s.selected == Some(i),
        i < s.remotes.len(),
    ensures
        ({
            let (t, command) = key_step(s, Key::Enter);
            let name = s.remotes[i as int].name@;
            &&& t.view is Files
            &&& t.current_remote == Some(name)
            &&& t.current_path.len() == 0
            &&& command == CommandView::LoadFiles(name, Seq::<char>::empty())
            &&& t.pending_status == Some("Opened remote: "@ + name)
            &&& t.remotes == s.remotes
        }),
{
}

/// One directory up from a path is what comes before its last `/`: the path
/// is that parent, a `/`, and a last name without `/`; a path without `/` has
/// the top (empty path) as its parent.
pub proof fn lemma_parent_path_meaning(path: Seq<char>)
    ensures
        has_no_slash(path) ==> parent_path(path).len() == 0,
        !has_no_slash(path) ==> exists|rest: Seq<char>|
            has_no_slash(rest) && path == parent_path(path) + "/"@ + rest,
    decreases path.len(),
{
    reveal_strlit("/");
    if path.len() > 0 {
        let front = path.drop_last();
        lemma_parent_path_meaning(front);
        if path.last() == '/' {
            let rest = Seq::<char>::empty();
            assert(path =~= front + "/"@ + rest);
            assert(has_no_slash(rest));
            assert(parent_path(path) == front);
            assert(has_no_slash(rest) && path == parent_path(path) + "/"@ + rest);
        } else {
            if has_no_slash(path) {
                assert forall|i: int| 0 <= i < front.len() implies front[i] != '/' by {
                    assert(front[i] == path[i]);
                }
            } else {
                let j = choose|j: int| 0 <= j < path.len() && path[j] == '/';
                assert(front[j] == '/');
                let rest0 = choose|rest: Seq<char>|
                    has_no_slash(rest) && front == parent_path(front) + "/"@ + rest;
                let rest = rest0.push(path.last());
                assert forall|k: int| 0 <= k < rest.len() implies rest[k] != '/' by {
                    if k < rest0.len() {
                        assert(rest[k] == rest0[k]);
                    }
                }
                assert(parent_path(path) == parent_path(front));
                assert(path =~= front.push(path.last()));
                assert(path =~= parent_path(front) + "/"@ + rest0 + seq![path.last()]);
                assert(parent_path(front) + "/"@ + rest0 + seq![path.last()] =~= parent_path(front) + "/"@ + rest);
                assert(has_no_slash(rest) && path == parent_path(path) + "/"@ + rest);
            }
        }
    }
}

/// Key `b` in the files view: from the top of a remote it goes back to the
/// list of remotes, with no remote open, and lists the remotes again; from a
/// directory it goes one directory up in the same remote and lists that.
pub proof fn lemma_back(s: AppView)
    requires
        s.view is Files,
    ensures
        ({
            let (t, command) = key_step(s, Key::Char('b'));
            &&& s.current_path.len() == 0 ==> {
                &&& t.view is Remotes
                &&& t.current_remote is None
                &&& command is LoadRemotes
                &&& t.pending_status == Some("Back to remotes"@)
            }
            &&& s.current_path.len() > 0 && s.current_remote is Some ==> {
                &&& t.view is Files
                &&& t.current_remote == s.current_remote
                &&& t.current_path == parent_path(s.current_path)
                &&& command == CommandView::LoadFiles(s.current_remote->0, t.current_path)
                &&& t.pending_status == Some("Went up one directory"@)
            }
        }),
{
}

/// A listing that arrives keeps the selected item when it still lies in the
/// new list, selects the last item when it lay beyond, and the first item
/// when nothing was selected, for a list that is not empty.
pub proof fn lemma_loads_keep_selection(
    s: AppView,
    remotes: Seq<Remote>,
    files: Seq<FileItem>,
)
    ensures
        s.selected matches Some(i) && i < remotes.len() ==> remotes_loaded_step(s, Ok(remotes)).selected == s.selected,
        s.selected matches Some(i) && i < files.len() ==> files_loaded_step(s, Ok(files)).selected == s.selected,
        s.selected matches Some(i) && i >= remotes.len() > 0 ==> remotes_loaded_step(s, Ok(remotes)).selected
            == Some((remotes.len() - 1) as usize),
        s.selected matches Some(i) && i >= files.len() > 0 ==> files_loaded_step(s, Ok(files)).selected
            == Some((files.len() - 1) as usize),
        s.selected is None && remotes.len() > 0 ==> remotes_loaded_step(s, Ok(remotes)).selected == Some(0usize),
        s.selected is None && files.len() > 0 ==> files_loaded_step(s, Ok(files)).selected == Some(0usize),
{
}

/// The title names what is shown: the open remote, followed by `:` and the
/// current path when it is not the top.
pub proof fn lemma_title_names_place(s: AppView)
    ensures
        s.view is Remotes ==> title_text(s) == "☁️  Rclone UI - Remotes"@,
        s.view is Files && s.current_remote is Some ==> title_text(s) == "☁️  Rclone UI - "@
            + remote_location_or_top(s.current_remote->0, s.current_path),
{
}

/// A remote and a path as the title shows them: the remote alone at the top,
/// `remote:path` below it.
pub open spec fn remote_location_or_top(remote: Seq<char>, path: Seq<char>) -> Seq<char> {
    if path.len() == 0 {
        remote
    } else {
        remote + ":"@ + path
    }
}

} // verus!
