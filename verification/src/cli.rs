//! What the program does with the words on its command line.

use crate::app;
use crate::app::CommandList;
use crate::text;
use crate::time;
use crate::ui::geometry;
use crate::ui::geometry::Rect;
use vstd::prelude::*;
use vstd::string::*;

verus! {

/// What the command line asks for.
pub enum Plan {
    /// The dashboard.
    Dashboard,
    Nothing,
    /// The content of a file is shown.
    ShowFile(String),
    /// A command is shown.
    ShowCommand(String),
    /// A script is run.
    RunScript { path: String, mtime: Option<std::time::SystemTime> },
    /// A command that asks for values is run.
    RunPrompted { command: String, mtime: Option<std::time::SystemTime> },
    /// A command is run.
    RunCommand { command: String, mtime: Option<std::time::SystemTime> },
    /// There is no such label.
    NotFound(String),
}

pub ghost enum PlanView {
    Dashboard,
    Nothing,
    ShowFile(Seq<char>),
    ShowCommand(Seq<char>),
    RunScript { path: Seq<char>, mtime: Option<std::time::SystemTime> },
    RunPrompted { command: Seq<char>, mtime: Option<std::time::SystemTime> },
    RunCommand { command: Seq<char>, mtime: Option<std::time::SystemTime> },
    NotFound(Seq<char>),
}

impl View for Plan {
    type V = PlanView;

    open spec fn view(&self) -> PlanView {
        match self {
            Plan::Dashboard => PlanView::Dashboard,
            Plan::Nothing => PlanView::Nothing,
            Plan::ShowFile(p) => PlanView::ShowFile(p@),
            Plan::ShowCommand(c) => PlanView::ShowCommand(c@),
            Plan::RunScript { path, mtime } => PlanView::RunScript { path: path@, mtime: *mtime },
            Plan::RunPrompted { command, mtime } => PlanView::RunPrompted {
                command: command@,
                mtime: *mtime,
            },
            Plan::RunCommand { command, mtime } => PlanView::RunCommand {
                command: command@,
                mtime: *mtime,
            },
            Plan::NotFound(l) => PlanView::NotFound(l@),
        }
    }
}

/// The columns of the commands are equally long.
pub open spec fn even(list: app::CommandListView) -> bool {
    &&& list.commands.len() == list.items.len()
    &&& list.infos.len() == list.items.len()
    &&& list.mtimes.len() == list.items.len()
}

/// Row `i` has the label, and is a script where one is asked for.
pub open spec fn row_fits(
    list: app::CommandListView,
    label: Seq<char>,
    script: bool,
    i: int,
) -> bool {
    list.items[i] == label && (script ==> text::starts_with(list.infos[i], "__SCRIPT__"@))
}

/// The first row from row `i` on that has the label.
pub open spec fn row_of(
    list: app::CommandListView,
    label: Seq<char>,
    script: bool,
    i: int,
) -> Option<int>
    decreases list.items.len() - i,
{
    if i < 0 || i >= list.items.len() {
        None
    } else if row_fits(list, label, script, i) {
        Some(i)
    } else {
        row_of(list, label, script, i + 1)
    }
}

/// The version is asked for.
pub open spec fn asks_version(args: Seq<Seq<char>>) -> bool {
    args.len() > 1 && (args[1] == "-v"@ || args[1] == "--version"@)
}

/// How row `i` is run: as a script, asking for values, or as it is.
pub open spec fn run_plan(list: app::CommandListView, i: int) -> PlanView {
    let command = list.commands[i];
    let mtime = list.mtimes[i];
    if text::starts_with(list.infos[i], "__SCRIPT__"@) {
        PlanView::RunScript { path: command, mtime }
    } else if text::contains(command, "<prompt:"@) {
        PlanView::RunPrompted { command, mtime }
    } else {
        PlanView::RunCommand { command, mtime }
    }
}

/// What the command line asks for, the version aside. The first word is the
/// program's own name.
pub open spec fn plan_of(args: Seq<Seq<char>>, list: app::CommandListView) -> PlanView {
    if args.len() <= 1 {
        PlanView::Dashboard
    } else if args[1] == "print"@ && args.len() > 2 {
        if args[2] == "script"@ && args.len() > 3 {
            match row_of(list, args[3], true, 0) {
                Some(i) => PlanView::ShowFile(list.commands[i]),
                None => PlanView::Nothing,
            }
        } else {
            match row_of(list, args[2], false, 0) {
                Some(i) => PlanView::ShowCommand(list.commands[i]),
                None => PlanView::Nothing,
            }
        }
    } else if args[1] == "script"@ && args.len() > 2 {
        match row_of(list, args[2], true, 0) {
            Some(i) => PlanView::RunScript { path: list.commands[i], mtime: list.mtimes[i] },
            None => PlanView::Nothing,
        }
    } else {
        match row_of(list, args[1], false, 0) {
            Some(i) => run_plan(list, i),
            None => PlanView::NotFound(args[1]),
        }
    }
}

/// Whether the version is asked for.
pub fn wants_version(args: &Vec<String>) -> (r: bool)
    ensures
        r == asks_version(text::texts(args@)),
{
    assert(text::texts(args@).len() == args@.len());
    if args.len() > 1 {
        assert(text::texts(args@)[1] == args@[1]@);
        text::same_text(args[1].as_str(), "-v") || text::same_text(args[1].as_str(), "--version")
    } else {
        false
    }
}

/// The first row that has the label.
pub fn find_row(list: &CommandList, label: &str, script: bool) -> (r: Option<usize>)
    requires
        even(list@),
    ensures
        match r {
            Some(i) => row_of(list@, label@, script, 0) == Some(i as int) && i < list@.items.len(),
            None => row_of(list@, label@, script, 0) is None,
        },
{
    assert(list@.items.len() == list.items@.len());
    assert(list@.infos.len() == list.infos@.len());
    let mut i: usize = 0;
    while i < list.items.len()
        invariant
            i <= list.items@.len(),
            list@.items.len() == list.items@.len(),
            list@.infos.len() == list.infos@.len(),
            even(list@),
            row_of(list@, label@, script, 0) == row_of(list@, label@, script, i as int),
        decreases list.items@.len() - i,
    {
        assert(list@.items[i as int] == list.items@[i as int]@);
        assert(list@.infos[i as int] == list.infos@[i as int]@);
        if text::same_text(list.items[i].as_str(), label) && (!script || text::text_starts_with(
            list.infos[i].as_str(),
            "__SCRIPT__",
        )) {
            return Some(i);
        }
        i = i + 1;
    }
    None
}

/// How row `i` is run.
fn run_row(list: &CommandList, i: usize) -> (r: Plan)
    requires
        even(list@),
        i < list@.items.len(),
    ensures
        r@ == run_plan(list@, i as int),
{
    assert(list@.commands[i as int] == list.commands@[i as int]@);
    assert(list@.infos[i as int] == list.infos@[i as int]@);
    let command = list.commands[i].clone();
    let mtime = list.mtimes[i];
    if text::text_starts_with(list.infos[i].as_str(), "__SCRIPT__") {
        Plan::RunScript { path: command, mtime }
    } else if text::text_contains(command.as_str(), "<prompt:") {
        Plan::RunPrompted { command, mtime }
    } else {
        Plan::RunCommand { command, mtime }
    }
}

/// What the command line asks for, the version aside.
pub fn plan(args: &Vec<String>, list: &CommandList) -> (r: Plan)
    requires
        even(list@),
    ensures
        r@ == plan_of(text::texts(args@), list@),
{
    let ghost words = text::texts(args@);
    assert(words.len() == args@.len());
    assert(list@.commands.len() == list.commands@.len());
    if args.len() <= 1 {
        return Plan::Dashboard;
    }
    assert(words[1] == args@[1]@);
    if text::same_text(args[1].as_str(), "print") && args.len() > 2 {
        assert(words[2] == args@[2]@);
        if text::same_text(args[2].as_str(), "script") && args.len() > 3 {
            assert(words[3] == args@[3]@);
            return match find_row(list, args[3].as_str(), true) {
                Some(i) => {
                    assert(list@.commands[i as int] == list.commands@[i as int]@);
                    Plan::ShowFile(list.commands[i].clone())
                },
                None => Plan::Nothing,
            };
        }
        return match find_row(list, args[2].as_str(), false) {
            Some(i) => {
                assert(list@.commands[i as int] == list.commands@[i as int]@);
                Plan::ShowCommand(list.commands[i].clone())
            },
            None => Plan::Nothing,
        };
    }
    if text::same_text(args[1].as_str(), "script") && args.len() > 2 {
        assert(words[2] == args@[2]@);
        return match find_row(list, args[2].as_str(), true) {
            Some(i) => {
                assert(list@.commands[i as int] == list.commands@[i as int]@);
                Plan::RunScript { path: list.commands[i].clone(), mtime: list.mtimes[i] }
            },
            None => Plan::Nothing,
        };
    }
    match find_row(list, args[1].as_str(), false) {
        Some(i) => run_row(list, i),
        None => Plan::NotFound(args[1].clone()),
    }
}

/// What is said before a command runs; `passed` is how long ago its gist was
/// cached, if it comes from one.
pub open spec fn announcement(is_script: bool, passed: Option<Seq<char>>, command: Seq<char>) -> Seq<
    char,
> {
    (if is_script {
        "\x1b[90mExecuting script"@
    } else {
        "\x1b[90mExecuting"@
    }) + (match passed {
        Some(p) => " [gist from local cache, saved "@ + p + " ago]"@,
        None => Seq::empty(),
    }) + ": "@ + command + "\x1b[0m"@
}

/// What is said before a command runs.
pub fn announce_passed(is_script: bool, passed: Option<&str>, command: &str) -> (r: String)
    ensures
        r@ == announcement(
            is_script,
            match passed {
                Some(p) => Some(p@),
                None => None,
            },
            command@,
        ),
{
    let mut t = if is_script {
        "\x1b[90mExecuting script".to_owned()
    } else {
        "\x1b[90mExecuting".to_owned()
    };
    let ghost start = t@;
    if let Some(p) = passed {
        let note = text::concat3(" [gist from local cache, saved ", p, " ago]");
        t.append(note.as_str());
    }
    assert(t@ =~= start + (match passed {
        Some(p) => " [gist from local cache, saved "@ + p@ + " ago]"@,
        None => Seq::empty(),
    }));
    t.append(": ");
    t.append(command);
    t.append("\x1b[0m");
    t
}

/// What is said before a command runs, whose gist was cached at `mtime` if it
/// comes from one.
pub fn announce(is_script: bool, mtime: Option<std::time::SystemTime>, command: &str) -> (r: String)
    ensures
        match mtime {
            Some(t) => exists|now: std::time::SystemTime|
                r@ == announcement(
                    is_script,
                    Some(time::elapsed_text((#[trigger] time::secs_between(now, t)) as nat)),
                    command@,
                ),
            None => r@ == announcement(is_script, None, command@),
        },
{
    match mtime {
        Some(t) => {
            let passed = time::format_time_passed(t);
            announce_passed(is_script, Some(passed.as_str()), command)
        },
        None => announce_passed(is_script, None, command),
    }
}

/// What is said of a label that there is not.
pub fn not_found_text(label: &str) -> (r: String)
    ensures
        r@ == "\x1b[90mtermbookman: command not found: "@ + label@ + "\x1b[0m"@,
{
    text::concat3("\x1b[90mtermbookman: command not found: ", label, "\x1b[0m")
}

/// The rows and columns that the terminal starts with: room for the status bars
/// and the sidebar is left on a large screen. The rows are those of an area, which
/// has at most 65535 cells.
pub open spec fn first_size(size: Rect) -> (int, int) {
    let height = if size.height < 26 {
        size.height
    } else {
        (size.height - 2) as u16
    };
    (
        geometry::new_area(0, 0, size.width, height).height as int,
        if size.width < 106 {
            size.width as int
        } else {
            size.width - 25
        },
    )
}

/// The rows and columns that the terminal starts with.
pub fn terminal_size(size: Rect) -> (r: (u16, u16))
    ensures
        (r.0 as int, r.1 as int) == first_size(size),
{
    let height: u16 = if size.height < 26 {
        size.height
    } else {
        size.height - 2
    };
    let area = geometry::new_rect(0, 0, size.width, height);
    let cols: u16 = if size.width < 106 {
        size.width
    } else {
        size.width - 25
    };
    (area.height, cols)
}

/// A row that is found has the label, and no row before it has.
pub proof fn law_first_row_is_found(
    list: app::CommandListView,
    label: Seq<char>,
    script: bool,
    i: int,
)
    requires
        0 <= i <= list.items.len(),
    ensures
        match row_of(list, label, script, i) {
            Some(k) => i <= k < list.items.len() && row_fits(list, label, script, k) && forall|j: int|
                i <= j < k ==> !(#[trigger] row_fits(list, label, script, j)),
            None => forall|j: int|
                i <= j < list.items.len() ==> !(#[trigger] row_fits(list, label, script, j)),
        },
    decreases list.items.len() - i,
{
    if i < list.items.len() && !row_fits(list, label, script, i) {
        law_first_row_is_found(list, label, script, i + 1);
    }
}

/// The info of a row marks it as a script.
pub open spec fn is_marked(list: app::CommandListView, i: int) -> bool {
    exists|rest: Seq<char>| list.infos[i] == #[trigger] ("__SCRIPT__"@ + rest)
}

/// Row `i` is the first one with the label, of those that are marked as scripts
/// where only they count.
pub open spec fn is_first_row(
    list: app::CommandListView,
    label: Seq<char>,
    scripts_only: bool,
    i: int,
) -> bool {
    &&& 0 <= i < list.items.len()
    &&& list.items[i] == label
    &&& scripts_only ==> is_marked(list, i)
    &&& forall|j: int|
        0 <= j < i ==> #[trigger] list.items[j] != label || (scripts_only && !is_marked(list, j))
}

/// No row has the label, of those that are marked as scripts where only they
/// count.
pub open spec fn has_no_row(
    list: app::CommandListView,
    label: Seq<char>,
    scripts_only: bool,
) -> bool {
    forall|j: int|
        0 <= j < list.items.len() ==> #[trigger] list.items[j] != label || (scripts_only
            && !is_marked(list, j))
}

proof fn lemma_marked(list: app::CommandListView, i: int)
    ensures
        is_marked(list, i) == text::starts_with(list.infos[i], "__SCRIPT__"@),
{
    let s = list.infos[i];
    let p = "__SCRIPT__"@;
    if text::starts_with(s, p) {
        assert(s =~= p + s.skip(p.len() as int)) by {
            assert forall|k: int| 0 <= k < p.len() implies s[k] == p[k] by {
                assert(s.subrange(0, p.len() as int)[k] == s[k]);
            }
        }
    }
    if is_marked(list, i) {
        let rest = choose|rest: Seq<char>| s == #[trigger] (p + rest);
        assert(s.subrange(0, p.len() as int) =~= p);
    }
}

proof fn lemma_row_of(list: app::CommandListView, label: Seq<char>, scripts_only: bool)
    ensures
        forall|i: int| #[trigger]
            is_first_row(list, label, scripts_only, i) ==> row_of(list, label, scripts_only, 0)
                == Some(i),
        has_no_row(list, label, scripts_only) ==> row_of(list, label, scripts_only, 0) is None,
{
    law_first_row_is_found(list, label, scripts_only, 0);
    assert forall|j: int| 0 <= j < list.items.len() implies #[trigger] row_fits(
        list,
        label,
        scripts_only,
        j,
    ) == (list.items[j] == label && (scripts_only ==> is_marked(list, j))) by {
        lemma_marked(list, j);
    }
    assert forall|i: int| #[trigger] is_first_row(list, label, scripts_only, i) implies row_of(
        list,
        label,
        scripts_only,
        0,
    ) == Some(i) by {
        assert(row_fits(list, label, scripts_only, i));
        let k = row_of(list, label, scripts_only, 0)->0;
        if k < i {
            assert(list.items[k] != label || (scripts_only && !is_marked(list, k)));
        }
    }
    if has_no_row(list, label, scripts_only) {
        if let Some(k) = row_of(list, label, scripts_only, 0) {
            assert(row_fits(list, label, scripts_only, k));
            assert(list.items[k] == label);
        }
    }
}

/// The command line names a label, and no word before it says what to do with it.
pub open spec fn names_label(args: Seq<Seq<char>>) -> bool {
    args.len() == 2 || (args.len() > 2 && args[1] != "print"@ && args[1] != "script"@)
}

/// A label alone runs its first row: one that is marked as a script is run as a
/// script, with the row's command as its path. One that is not, and asks for
/// values, is run with them; any other is run as it is. Nothing is run for a label
/// that there is not.
pub proof fn law_label_runs_its_first_row(
    args: Seq<Seq<char>>,
    list: app::CommandListView,
    i: int,
)
    requires
        names_label(args),
    ensures
        ({
            let planned = plan_of(args, list);
            let command = list.commands[i];
            let mtime = list.mtimes[i];
            let asks = exists|a: Seq<char>, b: Seq<char>|
                command == #[trigger] (a + "<prompt:"@ + b);
            &&& is_first_row(list, args[1], false, i) ==> {
                &&& is_marked(list, i) ==> planned == PlanView::RunScript { path: command, mtime }
                &&& !is_marked(list, i) && asks ==> planned == PlanView::RunPrompted {
                    command,
                    mtime,
                }
                &&& !is_marked(list, i) && !asks ==> planned == PlanView::RunCommand {
                    command,
                    mtime,
                }
            }
            &&& has_no_row(list, args[1], false) ==> planned == PlanView::NotFound(args[1])
        }),
{
    lemma_row_of(list, args[1], false);
    lemma_marked(list, i);
    let s = list.commands[i];
    let p = "<prompt:"@;
    if text::contains(s, p) {
        let k = choose|k: int| text::occurs_at(s, p, k);
        let (a, b) = (s.take(k), s.skip(k + p.len()));
        assert(s =~= a + p + b) by {
            assert forall|j: int| 0 <= j < s.len() implies s[j] == (a + p + b)[j] by {
                if k <= j < k + p.len() {
                    assert(s.subrange(k, k + p.len())[j - k] == s[j]);
                }
            }
        }
    }
    if exists|a: Seq<char>, b: Seq<char>| s == #[trigger] (a + p + b) {
        let (a, b) = choose|a: Seq<char>, b: Seq<char>| s == #[trigger] (a + p + b);
        assert(s.subrange(a.len() as int, (a.len() + p.len()) as int) =~= p);
        assert(text::occurs_at(s, p, a.len() as int));
    }
}

/// The word `script` before a label runs the first row of that label that is
/// marked as a script, and nothing where there is none.
pub proof fn law_script_runs_a_script(args: Seq<Seq<char>>, list: app::CommandListView, i: int)
    requires
        args.len() > 2,
        args[1] == "script"@,
    ensures
        is_first_row(list, args[2], true, i) ==> plan_of(args, list) == (PlanView::RunScript {
            path: list.commands[i],
            mtime: list.mtimes[i],
        }),
        has_no_row(list, args[2], true) ==> plan_of(args, list) is Nothing,
{
    reveal_strlit("script");
    reveal_strlit("print");
    assert("script"@.len() == 6 && "print"@.len() == 5);
    lemma_row_of(list, args[2], true);
}

/// The word `print` before a label shows the command of its first row; before the
/// word `script` and a label, it shows the file of the first row of that label
/// that is marked as a script. Nothing is run.
pub proof fn law_print_shows(args: Seq<Seq<char>>, list: app::CommandListView, i: int)
    requires
        args.len() > 2,
        args[1] == "print"@,
    ensures
        ({
            let planned = plan_of(args, list);
            let of_script = args.len() > 3 && args[2] == "script"@;
            &&& of_script ==> {
                &&& is_first_row(list, args[3], true, i) ==> planned == PlanView::ShowFile(
                    list.commands[i],
                )
                &&& has_no_row(list, args[3], true) ==> planned is Nothing
            }
            &&& !of_script ==> {
                &&& is_first_row(list, args[2], false, i) ==> planned == PlanView::ShowCommand(
                    list.commands[i],
                )
                &&& has_no_row(list, args[2], false) ==> planned is Nothing
            }
        }),
{
    lemma_row_of(list, args[2], false);
    if args.len() > 3 {
        lemma_row_of(list, args[3], true);
    }
}

/// Without words behind the program's name the dashboard is opened, and only then.
pub proof fn law_no_words_open_the_dashboard(args: Seq<Seq<char>>, list: app::CommandListView)
    ensures
        plan_of(args, list) is Dashboard <==> args.len() <= 1,
{
}

/// A label alone and `script` with the label agree where the first row of that
/// label is marked as a script.
pub proof fn law_label_and_script_agree(
    program: Seq<char>,
    label: Seq<char>,
    list: app::CommandListView,
    i: int,
)
    requires
        is_first_row(list, label, false, i),
        is_marked(list, i),
    ensures
        plan_of(seq![program, label], list) == plan_of(seq![program, "script"@, label], list),
        plan_of(seq![program, label], list) is RunScript,
{
    law_label_runs_its_first_row(seq![program, label], list, i);
    assert(is_first_row(list, label, true, i));
    law_script_runs_a_script(seq![program, "script"@, label], list, i);
}

/// A command runs, asking for values or as it is, only from a row that is not
/// marked as a script; a script runs only from one that is. In each case the row
/// has the label, and what runs is its command.
pub proof fn law_what_runs_is_of_its_kind(args: Seq<Seq<char>>, list: app::CommandListView)
    ensures
        ({
            let planned = plan_of(args, list);
            &&& planned matches PlanView::RunCommand { command, mtime } ==> exists|i: int|
                is_first_row(list, args[1], false, i) && !(#[trigger] is_marked(list, i)) && command
                    == list.commands[i] && mtime == list.mtimes[i]
            &&& planned matches PlanView::RunPrompted { command, mtime } ==> exists|i: int|
                is_first_row(list, args[1], false, i) && !(#[trigger] is_marked(list, i)) && command
                    == list.commands[i] && mtime == list.mtimes[i]
            &&& planned matches PlanView::RunScript { path, mtime } ==> exists|i: int|
                0 <= i < list.items.len() && #[trigger] is_marked(list, i) && path
                    == list.commands[i] && mtime == list.mtimes[i] && args.contains(list.items[i])
        }),
{
    if args.len() > 1 {
        law_first_row_is_found(list, args[1], false, 0);
        if let Some(i) = row_of(list, args[1], false, 0) {
            lemma_marked(list, i);
            assert(row_fits(list, args[1], false, i));
            assert forall|j: int| 0 <= j < i implies #[trigger] list.items[j] != args[1] by {
                assert(!row_fits(list, args[1], false, j));
            }
            assert(is_first_row(list, args[1], false, i));
            assert(args[1] == list.items[i]);
        }
        if args.len() > 2 {
            law_first_row_is_found(list, args[2], true, 0);
            if let Some(i) = row_of(list, args[2], true, 0) {
                lemma_marked(list, i);
                assert(row_fits(list, args[2], true, i));
                assert(args[2] == list.items[i]);
            }
        }
    }
}

/// What is said before a command runs tells a script from a command, how long ago
/// its gist was cached, if it comes from one, and the command itself, in this
/// order; the version is asked for by the first word alone.
pub proof fn law_announcement_names_the_command(
    is_script: bool,
    passed: Seq<char>,
    command: Seq<char>,
    args: Seq<Seq<char>>,
)
    ensures
        announcement(is_script, None, command) == (if is_script {
            "\x1b[90mExecuting script: "@
        } else {
            "\x1b[90mExecuting: "@
        }) + command + "\x1b[0m"@,
        announcement(is_script, Some(passed), command) == (if is_script {
            "\x1b[90mExecuting script [gist from local cache, saved "@
        } else {
            "\x1b[90mExecuting [gist from local cache, saved "@
        }) + passed + " ago]: "@ + command + "\x1b[0m"@,
        asks_version(args) <==> args.len() >= 2 && (args[1] == "-v"@ || args[1] == "--version"@),
{
    reveal_strlit("\x1b[90mExecuting script: ");
    reveal_strlit("\x1b[90mExecuting: ");
    reveal_strlit("\x1b[90mExecuting script");
    reveal_strlit("\x1b[90mExecuting");
    reveal_strlit(": ");
    reveal_strlit("\x1b[90mExecuting script [gist from local cache, saved ");
    reveal_strlit("\x1b[90mExecuting [gist from local cache, saved ");
    reveal_strlit(" [gist from local cache, saved ");
    reveal_strlit(" ago]");
    reveal_strlit(" ago]: ");
    assert(announcement(is_script, None, command) =~= (if is_script {
        "\x1b[90mExecuting script: "@
    } else {
        "\x1b[90mExecuting: "@
    }) + command + "\x1b[0m"@);
    assert(announcement(is_script, Some(passed), command) =~= (if is_script {
        "\x1b[90mExecuting script [gist from local cache, saved "@
    } else {
        "\x1b[90mExecuting [gist from local cache, saved "@
    }) + passed + " ago]: "@ + command + "\x1b[0m"@);
}

/// A terminal on a small screen starts with all of its rows and columns; on a large
/// one, two rows are left for the status bars and twenty-five columns for the
/// sidebar.
pub proof fn law_terminal_starts_with_room(size: Rect)
    requires
        size.width * size.height <= 65535,
    ensures
        first_size(size).0 == size.height - (if size.height >= 26 {
            2int
        } else {
            0
        }),
        first_size(size).1 == size.width - (if size.width >= 106 {
            25int
        } else {
            0
        }),
{
    assert(size.width * (size.height - 2) <= size.width * size.height) by (nonlinear_arith)
        requires
            0 <= size.width,
    ;
}

} // verus!
