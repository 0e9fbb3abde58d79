//! What is looked at once a second: the shell, the file in the editor and git.

use crate::app;
use crate::app::{App, CommandList};
use crate::commands;
use crate::history;
use crate::prompt;
use crate::prompt::PromptRequest;
use crate::script;
use crate::text;
use crate::time;
use vstd::prelude::*;
use vstd::string::*;

verus! {

/// The shell has a child among the processes with the given parents.
pub open spec fn has_child(parents: Seq<Option<u32>>, pid: u32) -> bool {
    exists|i: int| 0 <= i < parents.len() && #[trigger] parents[i] == Some(pid)
}

/// What a look at memory and processes does, and the file whose editor was
/// closed, if one was: the shell ran a command and runs none any more.
pub open spec fn looked(m: app::AppView, parents: Seq<Option<u32>>, mem_usage: (u64, u64)) -> (
    app::AppView,
    Option<(Seq<char>, std::time::SystemTime)>,
) {
    let busy = has_child(parents, m.shell.pid);
    let closed = m.shell.was_busy && !busy;
    (
        app::AppView {
            mem_usage,
            shell: app::ShellWatchView {
                is_busy: busy,
                was_busy: busy,
                editing_file: if closed {
                    None
                } else {
                    m.shell.editing_file
                },
                ..m.shell
            },
            ..m
        },
        if closed {
            m.shell.editing_file
        } else {
            None
        },
    )
}

/// The gists with new labels and infos in the first `n` rows that are kept in
/// `path`.
pub open spec fn rows_relabelled(
    g: app::GistListView,
    path: Seq<char>,
    content: Seq<char>,
    n: nat,
) -> app::GistListView
    decreases n,
{
    if n == 0 {
        g
    } else {
        let before = rows_relabelled(g, path, content, (n - 1) as nat);
        if g.paths[n - 1] == Some(path) {
            app::GistListView {
                items: match script::identifier(
                    script::comments(script::read_lines(content)),
                ) {
                    Some(name) => before.items.update(n - 1, name),
                    None => before.items,
                },
                infos: before.infos.update(n - 1, commands::script_info(content)),
                ..before
            }
        } else {
            before
        }
    }
}

/// The gists once the file in `path` has a new content.
pub open spec fn relabelled(
    g: app::GistListView,
    path: Seq<char>,
    content: Seq<char>,
) -> app::GistListView {
    rows_relabelled(g, path, content, g.paths.len())
}

/// What git says of the repository: the branch, and whether something was
/// changed, as far as git says it.
pub open spec fn git_text(branch: Seq<char>, status: Option<Seq<char>>) -> Seq<char> {
    "GIT: "@ + text::trim(branch) + " ("@ + (match status {
        Some(s) => if text::trim(s).len() == 0 {
            "clean"@
        } else {
            "modified"@
        },
        None => "unknown"@,
    }) + ")"@
}

/// The bookmarked commands of a state are replaced.
pub open spec fn with_commands(m: app::AppView, list: app::CommandListView) -> app::AppView {
    app::AppView { commands: list, ..m }
}

/// What has become of a file in the editor.
#[derive(Clone, Copy, PartialEq, Eq, Structural, Debug)]
pub enum Edit {
    /// Nothing that is to be taken up.
    Unchanged,
    /// A command book has changed.
    Commands,
    /// A gist has changed.
    Gist,
}

/// What has become of a file whose time of change was `noted` when its editor
/// was opened: it has changed if its time is later now. The time may not be
/// known, nor whether the file lies in the folder of the gists.
pub open spec fn edit_made(
    noted: std::time::SystemTime,
    mtime: Option<std::time::SystemTime>,
    under_gists: Option<bool>,
) -> Edit {
    match (mtime, under_gists) {
        (Some(t), Some(under)) if time::is_after(t, noted) => if under {
            Edit::Gist
        } else {
            Edit::Commands
        },
        _ => Edit::Unchanged,
    }
}

/// What has become of a file whose editor was closed.
pub fn edit_of(
    noted: std::time::SystemTime,
    mtime: Option<std::time::SystemTime>,
    under_gists: Option<bool>,
) -> (r: Edit)
    ensures
        r == edit_made(noted, mtime, under_gists),
{
    match (mtime, under_gists) {
        (Some(t), Some(under)) => if !time::later_than(t, noted) {
            Edit::Unchanged
        } else if under {
            Edit::Gist
        } else {
            Edit::Commands
        },
        _ => Edit::Unchanged,
    }
}

/// What follows from a change of the file in `path`. A gist gets its labels
/// from the new content, where that could be read, and is to be uploaded; the
/// commands are replaced by those read anew.
pub open spec fn file_changed(
    m: app::AppView,
    path: Seq<char>,
    edit: Edit,
    content: Option<Seq<char>>,
    list: app::CommandListView,
) -> (app::AppView, Option<Seq<char>>) {
    match edit {
        Edit::Unchanged => (m, None),
        Edit::Commands => (with_commands(m, list), None),
        Edit::Gist => {
            let gists = match content {
                Some(c) => relabelled(m.gists, path, c),
                None => m.gists,
            };
            (with_commands(app::AppView { gists, ..m }, list), Some(path))
        },
    }
}

/// The history as it is read: from the shell's file, or else from the listing
/// that the shell gives.
pub open spec fn history_read(file: Option<Seq<char>>, listing: Option<Seq<char>>) -> Seq<
    Seq<char>,
> {
    match (file, listing) {
        (Some(content), _) => history::file_history(content),
        (None, Some(content)) => history::listed_history(content),
        (None, None) => Seq::empty(),
    }
}

/// Copies texts.
fn copy_texts(v: &Vec<String>) -> (r: Vec<String>)
    ensures
        text::texts(r@) == text::texts(v@),
{
    let mut out: Vec<String> = Vec::new();
    let mut i: usize = 0;
    while i < v.len()
        invariant
            i <= v@.len(),
            out@.len() == i,
            forall|k: int| 0 <= k < i ==> (#[trigger] out@[k])@ == v@[k]@,
        decreases v@.len() - i,
    {
        out.push(v[i].clone());
        i = i + 1;
    }
    assert(text::texts(out@) =~= text::texts(v@));
    out
}

impl App {
    /// Takes a look at memory and processes, given the parent of each process,
    /// and gives the file whose editor was closed, if one was.
    pub fn update_stats(&mut self, parents: &Vec<Option<u32>>, mem_usage: (u64, u64)) -> (r: Option<
        (String, std::time::SystemTime),
    >)
        ensures
            final(self)@ == looked(old(self)@, parents@, mem_usage).0,
            app::edit_view(r) == looked(old(self)@, parents@, mem_usage).1,
    {
        let mut busy: bool = false;
        let mut i: usize = 0;
        while i < parents.len() && !busy
            invariant
                i <= parents@.len(),
                busy ==> has_child(parents@, self.shell.pid),
                !busy ==> forall|k: int|
                    0 <= k < i ==> #[trigger] parents@[k] != Some(self.shell.pid),
            decreases parents@.len() - i,
        {
            if let Some(parent) = parents[i] {
                if parent == self.shell.pid {
                    assert(parents@[i as int] == Some(self.shell.pid));
                    busy = true;
                }
            }
            i = i + 1;
        }
        self.mem_usage = mem_usage;
        self.shell.is_busy = busy;
        let mut closed: Option<(String, std::time::SystemTime)> = None;
        if self.shell.was_busy && !busy {
            closed = self.shell.editing_file.take();
        }
        self.shell.was_busy = busy;
        closed
    }

    /// Gives the gists that are kept in `path` the labels of a new content.
    pub fn relabel_gists(&mut self, path: &str, content: &str)
        requires
            old(self)@.wf(),
            script::preview_fits(content@),
        ensures
            final(self)@ == (app::AppView {
                gists: relabelled(old(self)@.gists, path@, content@),
                ..old(self)@
            }),
            final(self)@.wf(),
    {
        let (name, description, preview) = script::parse_script_content(content);
        let info = commands::info_text(description.as_str(), preview.as_str());
        let ghost m = self@;
        let mut i: usize = 0;
        while i < self.gists.paths.len()
            invariant
                i <= self.gists.paths@.len(),
                m.wf(),
                m.gists.paths.len() == self.gists.paths@.len(),
                self@ == (app::AppView {
                    gists: rows_relabelled(m.gists, path@, content@, i as nat),
                    ..m
                }),
                self@.gists.paths == m.gists.paths,
                self@.gists.items.len() == m.gists.items.len(),
                self@.gists.infos.len() == m.gists.infos.len(),
                self@.gists.commands == m.gists.commands,
                self@.gists.mtimes == m.gists.mtimes,
                self@.gists.remote_names == m.gists.remote_names,
                text::opt_text(name) == script::identifier(
                    script::comments(script::read_lines(content@)),
                ),
                info@ == commands::script_info(content@),
            decreases self.gists.paths@.len() - i,
        {
            let ghost before = self@.gists;
            assert(self@.gists.paths[i as int] == text::opt_text(self.gists.paths@[i as int]));
            let same = match &self.gists.paths[i] {
                Some(p) => text::same_text(p.as_str(), path),
                None => false,
            };
            if same {
                if let Some(n) = &name {
                    self.gists.items.set(i, n.clone());
                    assert(text::texts(self.gists.items@) =~= before.items.update(i as int, n@));
                }
                self.gists.infos.set(i, info.clone());
                assert(text::texts(self.gists.infos@) =~= before.infos.update(i as int, info@));
            }
            i = i + 1;
        }
    }

    /// Takes up a change of the file in `path`, and gives the gist to upload if
    /// it is one. `list` holds the commands read anew.
    pub fn take_change(
        &mut self,
        path: &str,
        edit: Edit,
        content: Option<&str>,
        list: CommandList,
    ) -> (r: Option<String>)
        requires
            old(self)@.wf(),
            edit is Gist && content is Some ==> script::preview_fits(content->0@),
        ensures
            final(self)@ == file_changed(old(self)@, path@, edit, text::str_view(content), list@).0,
            text::opt_text(r) == file_changed(
                old(self)@,
                path@,
                edit,
                text::str_view(content),
                list@,
            ).1,
    {
        match edit {
            Edit::Unchanged => None,
            Edit::Commands => {
                self.commands = list;
                None
            },
            Edit::Gist => {
                if let Some(c) = content {
                    self.relabel_gists(path, c);
                }
                self.commands = list;
                Some(path.to_owned())
            },
        }
    }

    /// Takes up a change of the file in `path`, and says whether its content
    /// can be shown; where it cannot, nothing changes.
    pub fn try_take_change(
        &mut self,
        path: &str,
        edit: Edit,
        content: Option<&str>,
        list: CommandList,
    ) -> (r: Option<Option<String>>)
        requires
            old(self)@.wf(),
        ensures
            match r {
                Some(upload) => (edit is Gist && content is Some ==> script::preview_fits(content->0@))
                    && final(self)@ == file_changed(
                    old(self)@,
                    path@,
                    edit,
                    text::str_view(content),
                    list@,
                ).0 && text::opt_text(upload) == file_changed(
                    old(self)@,
                    path@,
                    edit,
                    text::str_view(content),
                    list@,
                ).1,
                None => edit is Gist && content is Some && !script::preview_fits(content->0@)
                    && final(self)@ == old(self)@,
            },
    {
        if edit == Edit::Gist {
            if let Some(c) = content {
                if script::try_parse_script_content(c).is_none() {
                    return None;
                }
            }
        }
        Some(self.take_change(path, edit, content, list))
    }

    /// Counts a round, and says whether git is to be asked: each fourth time,
    /// and whenever nothing is known of it.
    pub fn git_due(&mut self) -> (r: bool)
        requires
            old(self)@.wf(),
        ensures
            r == !(old(self)@.shell.git_counter < 3 && old(self)@.git_info is Some),
            final(self)@ == (app::AppView {
                shell: app::ShellWatchView {
                    git_counter: if r {
                        0
                    } else {
                        (old(self)@.shell.git_counter + 1) as u32
                    },
                    ..old(self)@.shell
                },
                ..old(self)@
            }),
            final(self)@.wf(),
    {
        let n: u32 = self.shell.git_counter + 1;
        if n < 4 && self.git_info.is_some() {
            self.shell.git_counter = n;
            false
        } else {
            self.shell.git_counter = 0;
            true
        }
    }

    /// Notes what git says: the branch if there is a repository, and the list of
    /// changes as far as git gives it.
    pub fn take_git(&mut self, branch: Option<&str>, status: Option<&str>)
        ensures
            final(self)@ == (app::AppView {
                git_info: match branch {
                    Some(b) => Some(git_text(b@, text::str_view(status))),
                    None => None,
                },
                ..old(self)@
            }),
    {
        self.git_info = match branch {
            Some(b) => {
                let name = text::trim_text(b);
                let word = match status {
                    Some(s) => if text::is_blank(s) {
                        "clean"
                    } else {
                        "modified"
                    },
                    None => "unknown",
                };
                let mut t = text::concat3("GIT: ", name.as_str(), " (");
                t.append(word);
                t.append(")");
                Some(t)
            },
            None => None,
        };
    }

    /// Reads the history anew: from the content of the shell's file, or else
    /// from the listing that the shell gives.
    pub fn refresh_history(&mut self, file: Option<&str>, listing: Option<&str>)
        ensures
            final(self)@ == (app::AppView {
                history: app::HistoryListView {
                    items: history_read(text::str_view(file), text::str_view(listing)),
                    commands: history_read(text::str_view(file), text::str_view(listing)),
                },
                ..old(self)@
            }),
    {
        let items = match file {
            Some(content) => history::read_history(content),
            None => match listing {
                Some(content) => history::read_listing(content),
                None => {
                    let none: Vec<String> = Vec::new();
                    assert(text::texts(none@) =~= Seq::empty());
                    none
                },
            },
        };
        self.history.commands = copy_texts(&items);
        self.history.items = items;
    }

    /// Replaces the first prompt of a command by the answer to it, if one is
    /// given, without the blanks around it, and says what is asked for next.
    pub fn process_prompt(&self, cmd: &mut String, answer: Option<&str>) -> (r: Option<
        PromptRequest,
    >)
        ensures
            final(cmd)@ == prompt::prompt_answered(
                old(cmd)@,
                match answer {
                    Some(a) => Some(text::trim(a@)),
                    None => None,
                },
            ),
            match r {
                Some(q) => prompt::next_prompt(final(cmd)@) == Some(q.name@) && q.command@
                    == prompt::ask_command(q.name@),
                None => prompt::next_prompt(final(cmd)@) is None,
            },
    {
        match answer {
            Some(a) => {
                let value = text::trim_text(a);
                prompt::prompt_step(cmd, Some(value.as_str()))
            },
            None => prompt::prompt_step(cmd, None),
        }
    }
}

/// A look at the processes keeps the state well formed, and a file leaves the
/// editor once: a second look at the same processes gives none.
pub proof fn law_editor_closes_once(
    m: app::AppView,
    parents: Seq<Option<u32>>,
    mem_usage: (u64, u64),
)
    requires
        m.wf(),
    ensures
        looked(m, parents, mem_usage).0.wf(),
        looked(looked(m, parents, mem_usage).0, parents, mem_usage).1 is None,
        looked(m, parents, mem_usage).1 is Some ==> m.shell.was_busy && !has_child(
            parents,
            m.shell.pid,
        ),
{
}

/// New labels keep the columns of the gists equally long, and change only the
/// rows that are kept in the file.
pub proof fn law_relabelled_rows(
    g: app::GistListView,
    path: Seq<char>,
    content: Seq<char>,
    n: nat,
)
    requires
        n <= g.paths.len(),
        g.items.len() == g.paths.len(),
        g.infos.len() == g.paths.len(),
    ensures
        ({
            let r = rows_relabelled(g, path, content, n);
            &&& r.items.len() == g.items.len()
            &&& r.infos.len() == g.infos.len()
            &&& r.paths == g.paths && r.commands == g.commands && r.mtimes == g.mtimes
                && r.remote_names == g.remote_names
            &&& forall|i: int|
                0 <= i < g.paths.len() && (i >= n || g.paths[i] != Some(path))
                    ==> #[trigger] r.items[i] == g.items[i] && r.infos[i] == g.infos[i]
            &&& forall|i: int|
                0 <= i < n && g.paths[i] == Some(path) ==> #[trigger] r.infos[i]
                    == commands::script_info(content)
        }),
    decreases n,
{
    if n > 0 {
        law_relabelled_rows(g, path, content, (n - 1) as nat);
        let before = rows_relabelled(g, path, content, (n - 1) as nat);
        let r = rows_relabelled(g, path, content, n);
        assert forall|i: int|
            0 <= i < g.paths.len() && (i >= n || g.paths[i] != Some(path)) implies #[trigger] r.items[i]
            == g.items[i] && r.infos[i] == g.infos[i] by {
            assert(before.items[i] == g.items[i] && before.infos[i] == g.infos[i]);
        }
        assert forall|i: int| 0 <= i < n && g.paths[i] == Some(path) implies #[trigger] r.infos[i]
            == commands::script_info(content) by {
            if i < n - 1 {
                assert(before.infos[i] == commands::script_info(content));
            }
        }
    }
}

/// A change of a file keeps the state well formed, where the columns of the
/// commands read anew are equally long.
pub proof fn law_change_keeps_wf(
    m: app::AppView,
    path: Seq<char>,
    edit: Edit,
    content: Option<Seq<char>>,
    list: app::CommandListView,
)
    requires
        m.wf(),
        list.commands.len() == list.items.len(),
        list.infos.len() == list.items.len(),
        list.mtimes.len() == list.items.len(),
        list.paths.len() == list.items.len(),
    ensures
        file_changed(m, path, edit, content, list).0.wf(),
{
    if let Some(c) = content {
        law_relabelled_rows(m.gists, path, c, m.gists.paths.len());
    }
}

/// The gist to upload after a look at the processes: what comes of the file whose
/// editor was closed.
pub open spec fn upload_after(
    m: app::AppView,
    parents: Seq<Option<u32>>,
    mem_usage: (u64, u64),
    mtime: Option<std::time::SystemTime>,
    under_gists: Option<bool>,
    content: Option<Seq<char>>,
    list: app::CommandListView,
) -> Option<Seq<char>> {
    let (after, closed) = looked(m, parents, mem_usage);
    match closed {
        Some((path, noted)) => file_changed(
            after,
            path,
            edit_made(noted, mtime, under_gists),
            content,
            list,
        ).1,
        None => None,
    }
}

/// A file is to be uploaded if and only if the shell ran a command and runs none
/// any more, the file was in the editor, its time of change is known and later
/// than when the editor was opened, and it lies in the folder of the gists.
pub proof fn law_uploads_changed_gists(
    m: app::AppView,
    parents: Seq<Option<u32>>,
    mem_usage: (u64, u64),
    mtime: Option<std::time::SystemTime>,
    under_gists: Option<bool>,
    content: Option<Seq<char>>,
    list: app::CommandListView,
    path: Seq<char>,
)
    ensures
        upload_after(m, parents, mem_usage, mtime, under_gists, content, list) == Some(path) <==> {
            &&& m.shell.was_busy
            &&& !has_child(parents, m.shell.pid)
            &&& m.shell.editing_file matches Some((p, noted)) && p == path && (mtime matches Some(t)
                && time::is_after(t, noted))
            &&& under_gists == Some(true)
        },
{
}

/// The shell is busy while a process has it as its parent; a look at the processes
/// notes that, and the memory in use, and takes the file in the editor away once
/// the shell has become idle. Nothing else changes.
pub proof fn law_look_notes_the_shell(
    m: app::AppView,
    parents: Seq<Option<u32>>,
    mem_usage: (u64, u64),
)
    ensures
        ({
            let (after, closed) = looked(m, parents, mem_usage);
            let busy = parents.contains(Some(m.shell.pid));
            let left = m.shell.was_busy && !busy;
            &&& after.shell.is_busy == busy
            &&& after.shell.was_busy == busy
            &&& after.mem_usage == mem_usage
            &&& left ==> after.shell.editing_file is None && closed == m.shell.editing_file
            &&& !left ==> after.shell.editing_file == m.shell.editing_file && closed is None
            &&& after == (app::AppView {
                mem_usage,
                shell: app::ShellWatchView {
                    is_busy: busy,
                    was_busy: busy,
                    editing_file: after.shell.editing_file,
                    ..m.shell
                },
                ..m
            })
        }),
{
    if parents.contains(Some(m.shell.pid)) {
        let i = choose|i: int| 0 <= i < parents.len() && parents[i] == Some(m.shell.pid);
        assert(parents[i] == Some(m.shell.pid));
    }
    assert(has_child(parents, m.shell.pid) == parents.contains(Some(m.shell.pid)));
}

/// A changed file brings the commands read anew. That of a gist is uploaded, and
/// its rows, and no others, get the name that the new content gives, where it
/// gives one, and what is shown of it. A file that has not changed changes nothing.
pub proof fn law_change_is_taken_up(
    m: app::AppView,
    path: Seq<char>,
    edit: Edit,
    content: Option<Seq<char>>,
    list: app::CommandListView,
    row: int,
)
    requires
        m.wf(),
    ensures
        ({
            let (after, upload) = file_changed(m, path, edit, content, list);
            &&& edit is Unchanged ==> after == m && upload is None
            &&& edit is Commands ==> after == (app::AppView { commands: list, ..m }) && upload is None
            &&& edit is Gist ==> {
                &&& upload == Some(path)
                &&& after == (app::AppView { commands: list, gists: after.gists, ..m })
                &&& content is None ==> after.gists == m.gists
                &&& content matches Some(c) ==> {
                    let name = script::identifier(script::comments(script::read_lines(c)));
                    &&& after.gists.paths == m.gists.paths
                    &&& after.gists.commands == m.gists.commands
                    &&& after.gists.mtimes == m.gists.mtimes
                    &&& after.gists.remote_names == m.gists.remote_names
                    &&& 0 <= row < m.gists.items.len() && m.gists.paths[row] != Some(path)
                        ==> after.gists.items[row] == m.gists.items[row] && after.gists.infos[row]
                        == m.gists.infos[row]
                    &&& 0 <= row < m.gists.items.len() && m.gists.paths[row] == Some(path) ==> {
                        &&& after.gists.infos[row] == commands::script_info(c)
                        &&& after.gists.items[row] == match name {
                            Some(n) => n,
                            None => m.gists.items[row],
                        }
                    }
                }
            }
        }),
{
    if let Some(c) = content {
        law_relabelled_rows(m.gists, path, c, m.gists.paths.len());
        if 0 <= row < m.gists.items.len() {
            lemma_row_named(m.gists, path, c, m.gists.paths.len(), row);
        }
    }
}

proof fn lemma_row_named(
    g: app::GistListView,
    path: Seq<char>,
    content: Seq<char>,
    n: nat,
    row: int,
)
    requires
        n <= g.paths.len(),
        g.items.len() == g.paths.len(),
        g.infos.len() == g.paths.len(),
        0 <= row < g.paths.len(),
    ensures
        ({
            let r = rows_relabelled(g, path, content, n);
            let name = script::identifier(script::comments(script::read_lines(content)));
            &&& r.items.len() == g.items.len()
            &&& r.items[row] == (if row < n && g.paths[row] == Some(path) {
                match name {
                    Some(t) => t,
                    None => g.items[row],
                }
            } else {
                g.items[row]
            })
        }),
    decreases n,
{
    if n > 0 {
        lemma_row_named(g, path, content, (n - 1) as nat, row);
    }
}

/// What is told of git names the branch, and whether something was changed: clean
/// where the list of changes is blank, and unknown where git gives none.
pub proof fn law_git_text(branch: Seq<char>, status: Seq<char>)
    ensures
        git_text(branch, None) == "GIT: "@ + text::trim(branch) + " (unknown)"@,
        text::trim(status).len() == 0 ==> git_text(branch, Some(status)) == "GIT: "@ + text::trim(
            branch,
        ) + " (clean)"@,
        text::trim(status).len() > 0 ==> git_text(branch, Some(status)) == "GIT: "@ + text::trim(
            branch,
        ) + " (modified)"@,
{
    reveal_strlit(" (");
    reveal_strlit(")");
    reveal_strlit("clean");
    reveal_strlit("modified");
    reveal_strlit("unknown");
    reveal_strlit(" (clean)");
    reveal_strlit(" (modified)");
    reveal_strlit(" (unknown)");
    let start = "GIT: "@ + text::trim(branch);
    assert(start + " ("@ + "clean"@ + ")"@ =~= start + " (clean)"@);
    assert(start + " ("@ + "modified"@ + ")"@ =~= start + " (modified)"@);
    assert(start + " ("@ + "unknown"@ + ")"@ =~= start + " (unknown)"@);
}

/// The history comes from the shell's file where that can be read, else from the
/// shell's listing, and is empty without either.
pub proof fn law_history_comes_from_the_file_first(
    file: Seq<char>,
    listing: Option<Seq<char>>,
    said: Seq<char>,
)
    ensures
        history_read(Some(file), listing) == history::file_history(file),
        history_read(None, Some(said)) == history::listed_history(said),
        history_read(None, None).len() == 0,
{
}

} // verus!
