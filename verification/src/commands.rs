//! Bookmarked commands: the local command book and the cached gists.

use crate::app;
use crate::app::CommandList;
use crate::labels;
use crate::labels::LabelCounts;
use crate::script;
use crate::text;
use vstd::prelude::*;
use vstd::string::*;

verus! {

/// A file as it was read.
pub struct CachedFile {
    pub path: String,
    pub filename: String,
    pub mtime: Option<std::time::SystemTime>,
    pub content: String,
}

pub ghost struct CachedFileView {
    pub path: Seq<char>,
    pub filename: Seq<char>,
    pub mtime: Option<std::time::SystemTime>,
    pub content: Seq<char>,
}

impl View for CachedFile {
    type V = CachedFileView;

    open spec fn view(&self) -> CachedFileView {
        CachedFileView {
            path: self.path@,
            filename: self.filename@,
            mtime: self.mtime,
            content: self.content@,
        }
    }
}

/// The files that a sequence of cached files holds.
pub open spec fn file_views(v: Seq<CachedFile>) -> Seq<CachedFileView> {
    v.map_values(|f: CachedFile| f@)
}

/// The content is that of a command book.
pub open spec fn is_book(content: Seq<char>) -> bool {
    text::contains(content, "# termbookman"@)
}

/// The content is that of a script.
pub open spec fn is_script(content: Seq<char>) -> bool {
    text::starts_with(text::drop_leading(content, text::CharClass::White), "#!"@)
}

/// `s` without the words `p` that it begins with.
pub open spec fn drop_prefixes(s: Seq<char>, p: Seq<char>) -> Seq<char>
    decreases s.len(),
{
    if p.len() > 0 && text::starts_with(s, p) {
        drop_prefixes(s.skip(p.len() as int), p)
    } else {
        s
    }
}

/// The name that a script's file gives it.
pub open spec fn file_title(filename: Seq<char>) -> Seq<char> {
    text::trim(text::drop_leading(drop_prefixes(filename, "script"@), text::CharClass::Dash))
}

/// The name of a script: what it says of itself, or else that of its file.
pub open spec fn script_title(content: Seq<char>, title: Seq<char>) -> Seq<char> {
    match script::identifier(script::comments(script::read_lines(content))) {
        Some(name) => name,
        None => title,
    }
}

/// A space and a text, or nothing where the text is empty.
pub open spec fn spaced(s: Seq<char>) -> Seq<char> {
    if s.len() == 0 {
        s
    } else {
        " "@ + s
    }
}

/// What is shown of a script: a mark, its description and its preview.
pub open spec fn script_info(content: Seq<char>) -> Seq<char> {
    "__SCRIPT__"@ + spaced(script::description(script::comments(script::read_lines(content))))
        + spaced(script::preview(content))
}

/// The commands read so far, and how often each label was given out.
pub ghost struct Loaded {
    pub list: app::CommandListView,
    pub counts: Map<Seq<char>, usize>,
}

/// Nothing read yet.
pub open spec fn nothing_loaded() -> Loaded {
    Loaded {
        list: app::CommandListView {
            items: Seq::empty(),
            commands: Seq::empty(),
            infos: Seq::empty(),
            mtimes: Seq::empty(),
            paths: Seq::empty(),
        },
        counts: Map::empty(),
    }
}

/// The commands of a book are added.
pub open spec fn book_added(
    l: Loaded,
    content: Seq<char>,
    mtime: Option<std::time::SystemTime>,
    path: Seq<char>,
) -> Loaded {
    let book = labels::book(content, "cmd"@, l.counts);
    let n = book.labels.len();
    Loaded {
        list: app::CommandListView {
            items: l.list.items + book.labels,
            commands: l.list.commands + book.commands,
            infos: l.list.infos + book.infos,
            mtimes: l.list.mtimes + Seq::new(n, |i: int| mtime),
            paths: l.list.paths + Seq::new(n, |i: int| Some(path)),
        },
        counts: book.counts,
    }
}

/// One command is added.
pub open spec fn entry_added(
    l: Loaded,
    label: Seq<char>,
    command: Seq<char>,
    info: Seq<char>,
    f: CachedFileView,
    key: Seq<char>,
) -> Loaded {
    Loaded {
        list: app::CommandListView {
            items: l.list.items.push(label),
            commands: l.list.commands.push(command),
            infos: l.list.infos.push(info),
            mtimes: l.list.mtimes.push(f.mtime),
            paths: l.list.paths.push(Some(f.path)),
        },
        counts: labels::counted(l.counts, key),
    }
}

/// What a cached gist holds is added: the commands of a book, a script to run,
/// or else the name of the gist.
pub open spec fn file_added(l: Loaded, f: CachedFileView) -> Loaded {
    if is_book(f.content) {
        book_added(l, f.content, f.mtime, f.path)
    } else if is_script(f.content) {
        let name = script_title(f.content, file_title(f.filename));
        let key = "__script__"@ + name;
        let label = labels::numbered(name, labels::count_of(l.counts, key) + 1);
        entry_added(l, label, f.path, script_info(f.content), f, key)
    } else {
        let label = labels::numbered(f.filename, labels::count_of(l.counts, f.filename) + 1);
        entry_added(l, label, label, "GIST: "@ + f.filename, f, f.filename)
    }
}

/// What cached gists hold is added.
pub open spec fn files_added(l: Loaded, files: Seq<CachedFileView>) -> Loaded
    decreases files.len(),
{
    if files.len() == 0 {
        l
    } else {
        file_added(files_added(l, files.drop_last()), files.last())
    }
}

/// The local command book, if there is one, is read.
pub open spec fn local_loaded(local: Option<(Seq<char>, Seq<char>)>) -> Loaded {
    match local {
        Some((path, content)) => book_added(nothing_loaded(), content, None, path),
        None => nothing_loaded(),
    }
}

/// All commands: those of the local book, given as its path and content, then
/// those of the cached gists.
pub open spec fn loaded(
    local: Option<(Seq<char>, Seq<char>)>,
    files: Seq<CachedFileView>,
) -> Loaded {
    files_added(local_loaded(local), files)
}

/// How many labels a file can give out at most.
pub open spec fn file_room(content: Seq<char>) -> nat {
    text::lines(content).len() + 1
}

/// How many labels some files can give out at most.
pub open spec fn files_room(files: Seq<CachedFileView>) -> nat
    decreases files.len(),
{
    if files.len() == 0 {
        0
    } else {
        files_room(files.drop_last()) + file_room(files.last().content)
    }
}

/// How many labels the local book can give out at most.
pub open spec fn local_room(local: Option<(Seq<char>, Seq<char>)>) -> nat {
    match local {
        Some((_, content)) => file_room(content),
        None => 0,
    }
}

/// The preview of a script can be cut where it has to be.
pub open spec fn file_readable(content: Seq<char>) -> bool {
    !is_book(content) && is_script(content) ==> script::preview_fits(content)
}

/// The commands can be read: their labels can be counted, and the preview of
/// each script can be cut between two characters where it has to be.
pub open spec fn loadable(
    local: Option<(Seq<char>, Seq<char>)>,
    files: Seq<CachedFileView>,
) -> bool {
    &&& local_room(local) + files_room(files) <= usize::MAX
    &&& forall|i: int| 0 <= i < files.len() ==> file_readable((#[trigger] files[i]).content)
}

/// `s` without the words `p` that it begins with.
pub fn strip_prefixes<'a>(s: &'a [char], p: &[char]) -> (r: &'a [char])
    requires
        p@.len() > 0,
    ensures
        r@ == drop_prefixes(s@, p@),
{
    let mut rest = s;
    while text::matches_at(rest, p, 0)
        invariant
            p@.len() > 0,
            drop_prefixes(s@, p@) == drop_prefixes(rest@, p@),
        decreases rest@.len(),
    {
        let ghost before = rest@;
        let n: usize = rest.len();
        rest = vstd::slice::slice_subrange(rest, p.len(), n);
        assert(rest@ =~= before.skip(p@.len() as int));
    }
    rest
}

/// The name that a script's file gives it.
pub fn title_of_file(filename: &str) -> (r: String)
    ensures
        r@ == file_title(filename@),
{
    let v = text::to_chars(filename);
    let word = text::to_chars("script");
    proof {
        reveal_strlit("script");
    }
    let rest = strip_prefixes(v.as_slice(), word.as_slice());
    text::to_text(text::trimmed(text::strip_leading(rest, text::CharClass::Dash)))
}

/// Whether the content is that of a script.
pub fn looks_like_script(content: &str) -> (r: bool)
    ensures
        r == is_script(content@),
{
    let v = text::to_chars(content);
    let mark = text::to_chars("#!");
    text::matches_at(
        text::strip_leading(v.as_slice(), text::CharClass::White),
        mark.as_slice(),
        0,
    )
}

/// What is shown of a script with the given description and preview.
pub fn info_text(description: &str, preview: &str) -> (r: String)
    ensures
        r@ == "__SCRIPT__"@ + spaced(description@) + spaced(preview@),
{
    let mut info = "__SCRIPT__".to_owned();
    let ghost start = info@;
    if !description.is_empty() {
        info.append(" ");
        info.append(description);
    }
    assert(info@ =~= start + spaced(description@));
    let ghost middle = info@;
    if !preview.is_empty() {
        info.append(" ");
        info.append(preview);
    }
    assert(info@ =~= middle + spaced(preview@));
    info
}

/// The name and what is shown of a script.
pub fn describe_script(content: &str, title: &str) -> (r: (String, String))
    requires
        script::preview_fits(content@),
    ensures
        r.0@ == script_title(content@, title@),
        r.1@ == script_info(content@),
{
    let (name, description, preview) = script::parse_script_content(content);
    let info = info_text(description.as_str(), preview.as_str());
    match name {
        Some(n) => (n, info),
        None => (title.to_owned(), info),
    }
}

/// Adds texts to a column.
fn extend_column(column: &mut Vec<String>, more: Vec<String>)
    ensures
        text::texts(final(column)@) == text::texts(old(column)@) + text::texts(more@),
{
    let mut rest = more;
    let ghost before = column@;
    column.append(&mut rest);
    assert(text::texts(column@) =~= text::texts(before) + text::texts(more@));
}

/// Adds the commands of a book.
fn add_book(
    list: &mut CommandList,
    counts: &mut LabelCounts,
    content: &str,
    mtime: Option<std::time::SystemTime>,
    path: &str,
)
    requires
        labels::has_room(old(counts)@, text::lines(content@).len()),
    ensures
        final(list)@ == book_added(
            (Loaded { list: old(list)@, counts: old(counts)@ }),
            content@,
            mtime,
            path@,
        ).list,
        final(counts)@ == book_added(
            (Loaded { list: old(list)@, counts: old(counts)@ }),
            content@,
            mtime,
            path@,
        ).counts,
{
    proof {
        let ls = text::lines(content@);
        labels::lemma_room_countable(ls, "cmd"@, counts@, ls.len());
    }
    let (book_labels, book_commands, book_infos) = labels::parse_lines(content, "cmd", counts);
    let n: usize = book_labels.len();
    assert(text::texts(book_labels@).len() == n);
    extend_column(&mut list.items, book_labels);
    extend_column(&mut list.commands, book_commands);
    extend_column(&mut list.infos, book_infos);
    let ghost mtimes = list.mtimes@;
    let ghost paths = text::opt_texts(list.paths@);
    let ghost at = list@;
    let mut i: usize = 0;
    assert(list.mtimes@ =~= mtimes + Seq::new(0, |k: int| mtime));
    assert(text::opt_texts(list.paths@) =~= paths + Seq::new(0, |k: int| Some(path@)));
    while i < n
        invariant
            i <= n,
            list@ == (app::CommandListView {
                mtimes: mtimes + Seq::new(i as nat, |k: int| mtime),
                paths: paths + Seq::new(i as nat, |k: int| Some(path@)),
                ..at
            }),
        decreases n - i,
    {
        let ghost before = (list.mtimes@, list.paths@);
        list.mtimes.push(mtime);
        list.paths.push(Some(path.to_owned()));
        assert(list.mtimes@ =~= mtimes + Seq::new(i as nat + 1, |k: int| mtime));
        assert(text::opt_texts(list.paths@) =~= text::opt_texts(before.1).push(Some(path@)));
        assert(text::opt_texts(list.paths@) =~= paths + Seq::new(
            i as nat + 1,
            |k: int| Some(path@),
        ));
        i = i + 1;
    }
}

/// Adds one command.
fn add_entry(
    list: &mut CommandList,
    label: String,
    command: String,
    info: String,
    mtime: Option<std::time::SystemTime>,
    path: String,
)
    ensures
        final(list)@ == (app::CommandListView {
            items: old(list)@.items.push(label@),
            commands: old(list)@.commands.push(command@),
            infos: old(list)@.infos.push(info@),
            mtimes: old(list)@.mtimes.push(mtime),
            paths: old(list)@.paths.push(Some(path@)),
        }),
{
    let ghost at = (list.items@, list.commands@, list.infos@, list.paths@);
    list.items.push(label);
    list.commands.push(command);
    list.infos.push(info);
    list.mtimes.push(mtime);
    list.paths.push(Some(path));
    assert(text::texts(list.items@) =~= text::texts(at.0).push(label@));
    assert(text::texts(list.commands@) =~= text::texts(at.1).push(command@));
    assert(text::texts(list.infos@) =~= text::texts(at.2).push(info@));
    assert(text::opt_texts(list.paths@) =~= text::opt_texts(at.3).push(Some(path@)));
}

/// Adds what a cached gist holds.
fn add_file(list: &mut CommandList, counts: &mut LabelCounts, f: &CachedFile)
    requires
        labels::has_room(old(counts)@, file_room(f.content@)),
        file_readable(f.content@),
    ensures
        final(list)@ == file_added((Loaded { list: old(list)@, counts: old(counts)@ }), f@).list,
        final(counts)@ == file_added(
            (Loaded { list: old(list)@, counts: old(counts)@ }),
            f@,
        ).counts,
{
    if text::text_contains(f.content.as_str(), "# termbookman") {
        add_book(list, counts, f.content.as_str(), f.mtime, f.path.as_str());
    } else if looks_like_script(f.content.as_str()) {
        let title = title_of_file(f.filename.as_str());
        let (name, info) = describe_script(f.content.as_str(), title.as_str());
        let key = text::concat2("__script__", name.as_str());
        let n = counts.bump(key.as_str());
        let label = labels::numbered_label(name.as_str(), n);
        add_entry(list, label, f.path.clone(), info, f.mtime, f.path.clone());
    } else {
        let n = counts.bump(f.filename.as_str());
        let label = labels::numbered_label(f.filename.as_str(), n);
        let info = text::concat2("GIST: ", f.filename.as_str());
        add_entry(list, label.clone(), label, info, f.mtime, f.path.clone());
    }
}

/// What a cached gist leaves of the room for labels.
proof fn lemma_file_room(l: Loaded, f: CachedFileView, n: nat)
    requires
        labels::has_room(l.counts, n),
        file_room(f.content) <= n,
    ensures
        labels::has_room(file_added(l, f).counts, (n - file_room(f.content)) as nat),
{
    if is_book(f.content) {
        labels::lemma_room_countable(text::lines(f.content), "cmd"@, l.counts, n);
    } else if is_script(f.content) {
        let name = script_title(f.content, file_title(f.filename));
        labels::lemma_counted_room(l.counts, "__script__"@ + name, n);
    } else {
        labels::lemma_counted_room(l.counts, f.filename, n);
    }
}

/// The local book as values.
pub open spec fn local_view(local: Option<(&str, &str)>) -> Option<(Seq<char>, Seq<char>)> {
    match local {
        Some((path, content)) => Some((path@, content@)),
        None => None,
    }
}

/// Reads all commands: those of the local book, given as its path and content,
/// then those of the cached gists.
pub fn load_commands(local: Option<(&str, &str)>, files: &Vec<CachedFile>) -> (r: CommandList)
    requires
        loadable(local_view(local), file_views(files@)),
    ensures
        r@ == loaded(local_view(local), file_views(files@)).list,
{
    let mut counts = LabelCounts::new();
    let mut list = CommandList {
        items: Vec::new(),
        commands: Vec::new(),
        infos: Vec::new(),
        mtimes: Vec::new(),
        paths: Vec::new(),
    };
    let ghost views = file_views(files@);
    let ghost lv = local_view(local);
    let ghost total = local_room(lv) + files_room(views);
    assert(text::texts(list.items@) =~= Seq::empty());
    assert(text::texts(list.commands@) =~= Seq::empty());
    assert(text::texts(list.infos@) =~= Seq::empty());
    assert(text::opt_texts(list.paths@) =~= Seq::empty());
    if let Some((path, content)) = local {
        proof {
            labels::lemma_room_countable(text::lines(content@), "cmd"@, counts@, total);
        }
        add_book(&mut list, &mut counts, content, None, path);
    }
    assert(views.take(0) =~= Seq::empty());
    let mut i: usize = 0;
    while i < files.len()
        invariant
            i <= files@.len(),
            views == file_views(files@),
            loadable(lv, views),
            total == local_room(lv) + files_room(views),
            (Loaded { list: list@, counts: counts@ }) == files_added(
                local_loaded(lv),
                views.take(i as int),
            ),
            labels::has_room(
                counts@,
                (total - local_room(lv) - files_room(views.take(i as int))) as nat,
            ),
            local_room(lv) + files_room(views.take(i as int)) <= total,
        decreases files@.len() - i,
    {
        let ghost before = Loaded { list: list@, counts: counts@ };
        let ghost left = (total - local_room(lv) - files_room(views.take(i as int))) as nat;
        proof {
            assert(views[i as int] == files@[i as int]@);
            assert(views.take(i as int + 1).drop_last() =~= views.take(i as int));
            assert(views.take(i as int + 1).last() == files@[i as int]@);
            lemma_files_room(views, i as int + 1);
            lemma_file_room(before, files@[i as int]@, left);
        }
        add_file(&mut list, &mut counts, &files[i]);
        i = i + 1;
    }
    assert(views.take(views.len() as int) =~= views);
    list
}

/// The first files give out no more labels than all.
proof fn lemma_files_room(files: Seq<CachedFileView>, n: int)
    requires
        0 <= n <= files.len(),
    ensures
        files_room(files.take(n)) <= files_room(files),
    decreases files.len() - n,
{
    if n == files.len() {
        assert(files.take(n) =~= files);
    } else {
        lemma_files_room(files, n + 1);
        assert(files.take(n + 1).drop_last() =~= files.take(n));
    }
}

/// Reads all commands; gives nothing where they cannot be read.
pub fn try_load_commands(local: Option<(&str, &str)>, files: &Vec<CachedFile>) -> (r: Option<
    CommandList,
>)
    ensures
        match r {
            Some(list) => loadable(local_view(local), file_views(files@)) && list@ == loaded(
                local_view(local),
                file_views(files@),
            ).list,
            None => !loadable(local_view(local), file_views(files@)),
        },
{
    let ghost views = file_views(files@);
    let ghost lv = local_view(local);
    let mut total: usize = 0;
    if let Some((_, content)) = local {
        let v = text::to_chars(content);
        let rows = text::split_lines(v.as_slice());
        assert(text::char_texts(rows@).len() == rows@.len());
        if rows.len() == usize::MAX {
            return None;
        }
        total = rows.len() + 1;
    }
    let mut i: usize = 0;
    assert(views.take(0) =~= Seq::empty());
    while i < files.len()
        invariant
            i <= files@.len(),
            views == file_views(files@),
            lv == local_view(local),
            total == local_room(lv) + files_room(views.take(i as int)),
            forall|k: int| 0 <= k < i ==> file_readable((#[trigger] views[k]).content),
        decreases files@.len() - i,
    {
        proof {
            assert(views[i as int] == files@[i as int]@);
            assert(views.take(i as int + 1).drop_last() =~= views.take(i as int));
            assert(views.take(i as int + 1).last() == files@[i as int]@);
            lemma_files_room(views, i as int + 1);
        }
        let content = files[i].content.as_str();
        let v = text::to_chars(content);
        let rows = text::split_lines(v.as_slice());
        assert(text::char_texts(rows@).len() == rows@.len());
        let n: usize = rows.len();
        if n == usize::MAX || total > usize::MAX - (n + 1) {
            return None;
        }
        total = total + (n + 1);
        if !text::text_contains(content, "# termbookman") && looks_like_script(content) {
            if script::try_parse_script_content(content).is_none() {
                assert(!file_readable(views[i as int].content));
                return None;
            }
        }
        i = i + 1;
    }
    assert(views.take(views.len() as int) =~= views);
    Some(load_commands(local, files))
}

/// The columns of what is read are equally long.
pub proof fn law_loaded_columns(
    local: Option<(Seq<char>, Seq<char>)>,
    files: Seq<CachedFileView>,
)
    ensures
        ({
            let list = loaded(local, files).list;
            &&& list.commands.len() == list.items.len()
            &&& list.infos.len() == list.items.len()
            &&& list.mtimes.len() == list.items.len()
            &&& list.paths.len() == list.items.len()
        }),
    decreases files.len(),
{
    if files.len() == 0 {
        if let Some((_, content)) = local {
            labels::law_book_columns(text::lines(content), "cmd"@, Map::empty());
        }
    } else {
        law_loaded_columns(local, files.drop_last());
        let before = loaded(local, files.drop_last());
        labels::law_book_columns(text::lines(files.last().content), "cmd"@, before.counts);
    }
}

/// The local commands come first, and are not changed by the cached gists.
pub proof fn law_local_commands_first(
    local: Option<(Seq<char>, Seq<char>)>,
    files: Seq<CachedFileView>,
)
    ensures
        local_loaded(local).list.items.is_prefix_of(loaded(local, files).list.items),
        local_loaded(local).list.commands.is_prefix_of(loaded(local, files).list.commands),
        local_loaded(local).list.infos.is_prefix_of(loaded(local, files).list.infos),
        local_loaded(local).list.mtimes.is_prefix_of(loaded(local, files).list.mtimes),
        local_loaded(local).list.paths.is_prefix_of(loaded(local, files).list.paths),
    decreases files.len(),
{
    if files.len() > 0 {
        law_local_commands_first(local, files.drop_last());
    }
}

/// The file of a command book: its content holds the marker.
pub open spec fn holds_marker(content: Seq<char>) -> bool {
    exists|a: Seq<char>, b: Seq<char>| content == #[trigger] (a + "# termbookman"@ + b)
}

/// A script: behind white space, its content begins with the mark of an
/// interpreter.
pub open spec fn names_interpreter(content: Seq<char>) -> bool {
    exists|blanks: Seq<char>, rest: Seq<char>|
        {
            &&& content == #[trigger] (blanks + "#!"@ + rest)
            &&& forall|i: int| 0 <= i < blanks.len() ==> text::is_white(#[trigger] blanks[i])
        }
}

/// A file is read as a command book where it holds the marker, and as a script
/// where it names an interpreter.
pub proof fn law_kinds_of_files(content: Seq<char>)
    ensures
        is_book(content) == holds_marker(content),
        is_script(content) == names_interpreter(content),
{
    text::law_contains_is_made_of(content, "# termbookman"@);
    if is_script(content) {
        lemma_script_parts(content);
    }
    if names_interpreter(content) {
        let (blanks, rest) = choose|blanks: Seq<char>, rest: Seq<char>|
            {
                &&& content == #[trigger] (blanks + "#!"@ + rest)
                &&& forall|i: int| 0 <= i < blanks.len() ==> text::is_white(#[trigger] blanks[i])
            };
        lemma_parts_script(blanks, rest);
    }
}

proof fn lemma_script_parts(content: Seq<char>)
    requires
        is_script(content),
    ensures
        names_interpreter(content),
{
    reveal_strlit("#!");
    let k = text::CharClass::White;
    text::law_ends_are_dropped(content, k);
    let rest = text::drop_leading(content, k);
    let n = content.len() - rest.len();
    let blanks = content.take(n);
    let tail = content.skip(n + 2);
    assert(rest.subrange(0, 2)[0] == rest[0] && rest.subrange(0, 2)[1] == rest[1]);
    assert(content[n] == '#' && content[n + 1] == '!');
    assert(content =~= blanks + "#!"@ + tail);
    assert forall|i: int| 0 <= i < blanks.len() implies text::is_white(#[trigger] blanks[i]) by {
        assert(text::in_class(k, content[i]));
    }
}

proof fn lemma_parts_script(blanks: Seq<char>, rest: Seq<char>)
    requires
        forall|i: int| 0 <= i < blanks.len() ==> text::is_white(#[trigger] blanks[i]),
    ensures
        is_script(blanks + "#!"@ + rest),
    decreases blanks.len(),
{
    reveal_strlit("#!");
    let content = blanks + "#!"@ + rest;
    if blanks.len() == 0 {
        assert(content[0] == '#');
        assert(content.subrange(0, 2) =~= "#!"@);
    } else {
        let fewer = blanks.drop_first();
        assert(content[0] == blanks[0]);
        assert(content.drop_first() =~= fewer + "#!"@ + rest);
        lemma_parts_script(fewer, rest);
    }
}

/// The commands of the local book come from its file and have no time of change;
/// what else is listed follows them.
pub proof fn law_local_book_is_listed(
    path: Seq<char>,
    content: Seq<char>,
    files: Seq<CachedFileView>,
    i: int,
)
    requires
        0 <= i < labels::book(content, "cmd"@, Map::empty()).labels.len(),
    ensures
        ({
            let list = loaded(Some((path, content)), files).list;
            let b = labels::book(content, "cmd"@, Map::empty());
            &&& list.items[i] == b.labels[i]
            &&& list.commands[i] == b.commands[i]
            &&& list.infos[i] == b.infos[i]
            &&& list.mtimes[i] is None
            &&& list.paths[i] == Some(path)
        }),
{
    let local = Some((path, content));
    law_local_commands_first(local, files);
    labels::law_book_columns(text::lines(content), "cmd"@, Map::empty());
    let first = local_loaded(local).list;
    let list = loaded(local, files).list;
    let b = labels::book(content, "cmd"@, Map::empty());
    assert(first.items =~= b.labels);
    assert(first.commands =~= b.commands);
    assert(first.infos =~= b.infos);
    assert(list.items[i] == first.items[i]);
    assert(list.commands[i] == first.commands[i]);
    assert(list.infos[i] == first.infos[i]);
    assert(list.mtimes[i] == first.mtimes[i]);
    assert(list.paths[i] == first.paths[i]);
}

/// Cached gists are listed one behind the other; without them and a local book
/// nothing is.
pub proof fn law_files_are_listed_in_turn(
    local: Option<(Seq<char>, Seq<char>)>,
    files: Seq<CachedFileView>,
    f: CachedFileView,
)
    ensures
        loaded(local, files.push(f)) == file_added(loaded(local, files), f),
        loaded(local, Seq::empty()) == local_loaded(local),
        local_loaded(None).list.items.len() == 0 && local_loaded(None).list.commands.len() == 0,
{
    assert(files.push(f).drop_last() =~= files);
}

/// A cached gist that is a script is listed in one row: labelled by the name that
/// it gives itself, or else by that of its file, marked as a script, with its file
/// as the command that is run. Labels of scripts are counted apart from others.
pub proof fn law_cached_script_is_listed(l: Loaded, f: CachedFileView)
    requires
        !holds_marker(f.content),
        names_interpreter(f.content),
    ensures
        ({
            let after = file_added(l, f);
            let cs = script::comments(script::read_lines(f.content));
            let name = match script::identifier(cs) {
                Some(n) => n,
                None => file_title(f.filename),
            };
            let key = "__script__"@ + name;
            let used = if l.counts.contains_key(key) {
                l.counts[key] as nat
            } else {
                0
            };
            let about = script::description(cs);
            let shown = script::preview(f.content);
            let n = l.list.items.len() as int;
            &&& after.list.items == l.list.items.push(labels::label_for(name, used))
            &&& after.list.commands == l.list.commands.push(f.path)
            &&& after.list.infos == l.list.infos.push(
                "__SCRIPT__"@ + (if about.len() > 0 {
                    " "@ + about
                } else {
                    Seq::empty()
                }) + (if shown.len() > 0 {
                    " "@ + shown
                } else {
                    Seq::empty()
                }),
            )
            &&& after.list.mtimes == l.list.mtimes.push(f.mtime)
            &&& after.list.paths == l.list.paths.push(Some(f.path))
            &&& used < usize::MAX ==> after.counts == l.counts.insert(key, (used + 1) as usize)
        }),
{
    law_kinds_of_files(f.content);
    let cs = script::comments(script::read_lines(f.content));
    let about = script::description(cs);
    let shown = script::preview(f.content);
    assert(spaced(about) =~= if about.len() > 0 {
        " "@ + about
    } else {
        Seq::empty()
    });
    assert(spaced(shown) =~= if shown.len() > 0 {
        " "@ + shown
    } else {
        Seq::empty()
    });
}

/// A cached gist that is a command book lists its commands, each with the book's
/// file and time of change.
pub proof fn law_cached_book_is_listed(l: Loaded, f: CachedFileView)
    requires
        holds_marker(f.content),
    ensures
        ({
            let after = file_added(l, f).list;
            let b = labels::book(f.content, "cmd"@, l.counts);
            &&& after.items == l.list.items + b.labels
            &&& after.commands == l.list.commands + b.commands
            &&& after.infos == l.list.infos + b.infos
            &&& after.mtimes.len() == l.list.mtimes.len() + b.labels.len()
            &&& after.paths.len() == l.list.paths.len() + b.labels.len()
            &&& l.list.mtimes.is_prefix_of(after.mtimes)
            &&& l.list.paths.is_prefix_of(after.paths)
            &&& forall|i: int|
                l.list.mtimes.len() <= i < after.mtimes.len() ==> #[trigger] after.mtimes[i]
                    == f.mtime
            &&& forall|i: int|
                l.list.paths.len() <= i < after.paths.len() ==> #[trigger] after.paths[i] == Some(
                    f.path,
                )
            &&& file_added(l, f).counts == b.counts
        }),
{
    law_kinds_of_files(f.content);
}

/// Any other cached gist is listed in one row under the name of its file.
pub proof fn law_other_cached_file_is_listed(l: Loaded, f: CachedFileView)
    requires
        !holds_marker(f.content),
        !names_interpreter(f.content),
    ensures
        ({
            let after = file_added(l, f).list;
            let used = if l.counts.contains_key(f.filename) {
                l.counts[f.filename] as nat
            } else {
                0
            };
            let label = labels::label_for(f.filename, used);
            &&& after.items == l.list.items.push(label)
            &&& after.commands == l.list.commands.push(label)
            &&& after.infos == l.list.infos.push("GIST: "@ + f.filename)
            &&& after.mtimes == l.list.mtimes.push(f.mtime)
            &&& after.paths == l.list.paths.push(Some(f.path))
        }),
{
    law_kinds_of_files(f.content);
}

/// The name that a file gives its script is the file's name without the word
/// `script` and dashes before it.
pub proof fn law_file_title_drops_the_word(rest: Seq<char>, dashes: Seq<char>)
    requires
        rest.len() > 0,
        rest[0] != '-',
        !text::is_white(rest[0]),
        !text::is_white(rest.last()),
        dashes.len() > 0,
        forall|i: int| 0 <= i < dashes.len() ==> #[trigger] dashes[i] == '-',
    ensures
        file_title("script"@ + dashes + rest) == rest,
        rest[0] != 's' ==> file_title(rest) == rest,
{
    reveal_strlit("script");
    let word = "script"@;
    let all = word + dashes + rest;
    assert(all.subrange(0, 6) =~= word);
    assert(text::starts_with(all, word));
    let tail = dashes + rest;
    assert(all.skip(6) =~= tail);
    assert(tail[0] == '-');
    lemma_not_script(tail);
    reveal_with_fuel(drop_prefixes, 2);
    assert(drop_prefixes(all, word) == tail);
    lemma_drop_dashes(dashes, rest);
    text::law_trimmed_stays(rest);
    if rest[0] != 's' {
        lemma_not_script(rest);
        assert(drop_prefixes(rest, word) == rest);
        let none = Seq::<char>::empty();
        assert(none + rest =~= rest);
        lemma_drop_dashes(none, rest);
    }
}

/// What does not begin with an s does not begin with the word `script`.
pub proof fn lemma_not_script(s: Seq<char>)
    requires
        s.len() > 0,
        s[0] != 's',
    ensures
        !text::starts_with(s, "script"@),
{
    reveal_strlit("script");
    if text::starts_with(s, "script"@) {
        assert(s.subrange(0, 6)[0] == s[0]);
    }
}

/// Dashes are dropped as long as there are any.
pub proof fn lemma_drop_dashes(dashes: Seq<char>, rest: Seq<char>)
    requires
        rest.len() > 0,
        rest[0] != '-',
        forall|i: int| 0 <= i < dashes.len() ==> #[trigger] dashes[i] == '-',
    ensures
        text::drop_leading(dashes + rest, text::CharClass::Dash) == rest,
    decreases dashes.len(),
{
    if dashes.len() == 0 {
        assert(dashes + rest =~= rest);
    } else {
        assert((dashes + rest)[0] == dashes[0]);
        assert((dashes + rest).drop_first() =~= dashes.drop_first() + rest);
        lemma_drop_dashes(dashes.drop_first(), rest);
    }
}

/// The commands can be read where their lines can be counted and the preview of
/// each script can be made.
pub proof fn law_commands_can_be_read(
    local: Option<(Seq<char>, Seq<char>)>,
    files: Seq<CachedFileView>,
)
    requires
        forall|i: int|
            0 <= i < files.len() ==> script::preview_fits((#[trigger] files[i]).content),
        local_room(local) + files_room(files) <= usize::MAX,
    ensures
        loadable(local, files),
        local_room(None) == 0,
        local matches Some((_, content)) ==> local_room(local) == text::lines(content).len() + 1,
{
}

/// A file takes room for its lines and one label more.
pub proof fn law_room_of_files(files: Seq<CachedFileView>, f: CachedFileView)
    ensures
        files_room(Seq::empty()) == 0,
        files_room(files.push(f)) == files_room(files) + text::lines(f.content).len() + 1,
{
    assert(files.push(f).drop_last() =~= files);
}

} // verus!
