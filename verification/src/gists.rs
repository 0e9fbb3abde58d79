//! Gists as they are downloaded from GitHub.

use crate::app;
use crate::app::GistEntry;
use crate::commands;
use crate::json;
use crate::json::Json;
use crate::labels;
use crate::labels::LabelCounts;
use crate::script;
use crate::text;
use vstd::prelude::*;
use vstd::string::*;

verus! {

/// A file of a gist and where to download it.
pub struct GistFile {
    pub filename: String,
    pub raw_url: String,
}

/// The files that a sequence of gist files holds: names and addresses.
pub open spec fn gist_file_views(v: Seq<GistFile>) -> Seq<(Seq<char>, Seq<char>)> {
    v.map_values(|f: GistFile| (f.filename@, f.raw_url@))
}

/// Where a file of a gist can be downloaded; empty where that is not said.
pub open spec fn raw_url(file: json::JsonView) -> Seq<char> {
    match json::text_of(json::field(file, "raw_url"@)) {
        Some(url) => url,
        None => Seq::empty(),
    }
}

/// Those of the first `n` files of a gist that can be downloaded.
pub open spec fn files_upto(files: Seq<(Seq<char>, json::JsonView)>, n: nat) -> Seq<
    (Seq<char>, Seq<char>),
>
    decreases n,
{
    if n == 0 {
        Seq::empty()
    } else {
        let before = files_upto(files, (n - 1) as nat);
        let url = raw_url(files[n - 1].1);
        if url.len() > 0 {
            before.push((files[n - 1].0, url))
        } else {
            before
        }
    }
}

/// The files of a gist that can be downloaded.
pub open spec fn files_of_gist(gist: json::JsonView) -> Seq<(Seq<char>, Seq<char>)> {
    match json::field(gist, "files"@) {
        json::JsonView::Object(files) => files_upto(files, files.len()),
        _ => Seq::empty(),
    }
}

/// The files of the first `n` gists that can be downloaded.
pub open spec fn gists_upto(gists: Seq<json::JsonView>, n: nat) -> Seq<(Seq<char>, Seq<char>)>
    decreases n,
{
    if n == 0 {
        Seq::empty()
    } else {
        gists_upto(gists, (n - 1) as nat) + files_of_gist(gists[n - 1])
    }
}

/// The files of a list of gists that can be downloaded; nothing where it is no
/// list.
pub open spec fn downloads(list: json::JsonView) -> Option<Seq<(Seq<char>, Seq<char>)>> {
    match list {
        json::JsonView::Array(gists) => Some(gists_upto(gists, gists.len())),
        _ => None,
    }
}

/// Adds the files of a gist that can be downloaded.
fn add_files(out: &mut Vec<GistFile>, gist: &Json)
    ensures
        gist_file_views(final(out)@) == gist_file_views(old(out)@) + files_of_gist(
            json::json_view(*gist),
        ),
{
    let ghost before = gist_file_views(out@);
    if let Some(Json::Object(files)) = gist.get("files") {
        let ghost views = json::field(json::json_view(*gist), "files"@)->Object_0;
        let mut i: usize = 0;
        assert(gist_file_views(out@) =~= before + files_upto(views, 0));
        while i < files.len()
            invariant
                i <= files@.len(),
                json::json_view(Json::Object(*files)) == json::JsonView::Object(views),
                views.len() == files@.len(),
                gist_file_views(out@) == before + files_upto(views, i as nat),
            decreases files@.len() - i,
        {
            assert(views[i as int] == (files@[i as int].0@, json::json_view(files@[i as int].1)));
            if let Some(url) = files[i].1.get_text("raw_url") {
                if !url.as_str().is_empty() {
                    let ghost at = out@;
                    out.push(GistFile { filename: files[i].0.clone(), raw_url: url });
                    assert(gist_file_views(out@) =~= gist_file_views(at).push(
                        (views[i as int].0, url@),
                    ));
                    assert(gist_file_views(out@) =~= before + files_upto(views, i as nat + 1));
                }
            }
            i = i + 1;
        }
    } else {
        assert(gist_file_views(out@) =~= before + files_of_gist(json::json_view(*gist)));
    }
}

/// The files of a list of gists that can be downloaded.
pub fn gist_downloads(list: &Json) -> (r: Option<Vec<GistFile>>)
    ensures
        match r {
            Some(files) => downloads(json::json_view(*list)) == Some(gist_file_views(files@)),
            None => downloads(json::json_view(*list)) is None,
        },
{
    match list {
        Json::Array(gists) => {
            let ghost views = json::json_view(*list)->Array_0;
            let mut out: Vec<GistFile> = Vec::new();
            let mut i: usize = 0;
            assert(gist_file_views(out@) =~= Seq::empty());
            while i < gists.len()
                invariant
                    i <= gists@.len(),
                    *list == Json::Array(*gists),
                    json::json_view(*list) == json::JsonView::Array(views),
                    views.len() == gists@.len(),
                    gist_file_views(out@) == gists_upto(views, i as nat),
                decreases gists@.len() - i,
            {
                assert(views[i as int] == json::json_view(gists@[i as int]));
                add_files(&mut out, &gists[i]);
                i = i + 1;
            }
            Some(out)
        },
        _ => None,
    }
}

/// The files to download, read from GitHub's reply; nothing where the reply is
/// no JSON or no list.
pub fn read_gist_list(reply: &str) -> (r: Option<Vec<GistFile>>)
    ensures
        match r {
            Some(files) => json::parsed_json(reply@) matches Some(list) && downloads(list) == Some(
                gist_file_views(files@),
            ),
            None => json::parsed_json(reply@) matches Some(list) ==> downloads(list) is None,
        },
{
    match json::parse_json(reply) {
        Some(list) => gist_downloads(&list),
        None => None,
    }
}

/// The name under which a file of a gist is cached.
pub open spec fn cached_name(filename: Seq<char>) -> Seq<char> {
    text::replace(filename, " "@, "_"@)
}

/// The name under which a file of a gist is cached.
pub fn safe_filename(filename: &str) -> (r: String)
    ensures
        r@ == cached_name(filename@),
{
    text::replace_all(filename, " ", "_")
}

/// A file of a gist as it was downloaded, and where it is cached.
pub struct Download {
    pub filename: String,
    pub raw_url: String,
    pub content: String,
    pub path: String,
    pub time: std::time::SystemTime,
}

pub ghost struct DownloadView {
    pub filename: Seq<char>,
    pub raw_url: Seq<char>,
    pub content: Seq<char>,
    pub path: Seq<char>,
    pub time: std::time::SystemTime,
}

impl View for Download {
    type V = DownloadView;

    open spec fn view(&self) -> DownloadView {
        DownloadView {
            filename: self.filename@,
            raw_url: self.raw_url@,
            content: self.content@,
            path: self.path@,
            time: self.time,
        }
    }
}

/// The name that a script's gist gives it.
pub open spec fn gist_title(filename: Seq<char>) -> Seq<char> {
    text::trim(
        text::drop_leading(
            text::drop_leading(
                commands::drop_prefixes(filename, "script"@),
                text::CharClass::Dash,
            ),
            text::CharClass::Underscore,
        ),
    )
}

/// The name that a script's gist gives it.
pub fn title_of_gist(filename: &str) -> (r: String)
    ensures
        r@ == gist_title(filename@),
{
    let v = text::to_chars(filename);
    let word = text::to_chars("script");
    proof {
        reveal_strlit("script");
    }
    let rest = text::strip_leading(
        commands::strip_prefixes(v.as_slice(), word.as_slice()),
        text::CharClass::Dash,
    );
    text::to_text(text::trimmed(text::strip_leading(rest, text::CharClass::Underscore)))
}

/// An entry for a downloaded file.
pub open spec fn entry_for(
    d: DownloadView,
    label: Seq<char>,
    info: Seq<char>,
    command: Seq<char>,
) -> app::GistEntryView {
    app::GistEntryView {
        label,
        info,
        command,
        mtime: Some(d.time),
        path: Some(d.path),
        remote_name: d.filename,
    }
}

/// The gists taken up so far, how often each label was given out, and a bound
/// of that.
pub ghost struct GistBookView {
    pub entries: Seq<app::GistEntryView>,
    pub counts: Map<Seq<char>, usize>,
    pub used: nat,
}

impl GistBookView {
    /// No label was given out more often than the bound says.
    pub open spec fn wf(self) -> bool {
        self.used <= usize::MAX && forall|k: Seq<char>| #[trigger]
            self.counts.contains_key(k) ==> self.counts[k] <= self.used
    }

    /// A downloaded file can be taken up: its labels can be counted, and the
    /// preview of a script can be cut between two characters where it has to be.
    pub open spec fn fits(self, d: DownloadView) -> bool {
        self.used + commands::file_room(d.content) <= usize::MAX && commands::file_readable(
            d.content,
        )
    }
}

/// The entries of a command book.
pub open spec fn book_entries(d: DownloadView, book: labels::BookScan) -> Seq<app::GistEntryView> {
    Seq::new(
        book.labels.len(),
        |i: int| entry_for(d, book.labels[i], book.infos[i], book.commands[i]),
    )
}

/// What a downloaded file holds is taken up: the commands of a book, a script
/// to run, or else a command that fetches the file.
pub open spec fn taken_up(g: GistBookView, d: DownloadView) -> GistBookView {
    let used = g.used + commands::file_room(d.content);
    if commands::is_book(d.content) {
        let book = labels::book(d.content, "cmd"@, g.counts);
        GistBookView { entries: g.entries + book_entries(d, book), counts: book.counts, used }
    } else if commands::is_script(d.content) {
        let name = commands::script_title(d.content, gist_title(d.filename));
        let label = labels::numbered(name, labels::count_of(g.counts, name) + 1);
        GistBookView {
            entries: g.entries.push(
                entry_for(d, label, commands::script_info(d.content), d.path),
            ),
            counts: labels::counted(g.counts, name),
            used,
        }
    } else {
        GistBookView {
            entries: g.entries.push(
                entry_for(d, d.filename, d.filename, "curl -sL "@ + d.raw_url),
            ),
            counts: g.counts,
            used,
        }
    }
}

/// The gists taken up so far.
pub struct GistBook {
    pub entries: Vec<GistEntry>,
    pub counts: LabelCounts,
    /// No label was given out more often than this.
    pub used: usize,
}

impl View for GistBook {
    type V = GistBookView;

    open spec fn view(&self) -> GistBookView {
        GistBookView {
            entries: app::entry_views(self.entries@),
            counts: self.counts@,
            used: self.used as nat,
        }
    }
}

/// A bound of the counts is room for the rest.
proof fn lemma_bound_is_room(g: GistBookView, n: nat)
    requires
        g.wf(),
        g.used + n <= usize::MAX,
    ensures
        labels::has_room(g.counts, n),
{
}

/// Reading a book gives out no label more often than it has lines.
proof fn lemma_book_bound(
    ls: Seq<Seq<char>>,
    default: Seq<char>,
    counts: Map<Seq<char>, usize>,
    used: nat,
)
    requires
        forall|k: Seq<char>| #[trigger] counts.contains_key(k) ==> counts[k] <= used,
        used + ls.len() <= usize::MAX,
    ensures
        forall|k: Seq<char>| #[trigger]
            labels::book_lines(ls, default, counts).counts.contains_key(k)
                ==> labels::book_lines(ls, default, counts).counts[k] <= used + ls.len(),
    decreases ls.len(),
{
    if ls.len() > 0 {
        lemma_book_bound(ls.drop_last(), default, counts, used);
    }
}

impl GistBook {
    /// No gist taken up yet.
    pub fn new() -> (r: GistBook)
        ensures
            r@ == (GistBookView { entries: Seq::empty(), counts: Map::empty(), used: 0 }),
            r@.wf(),
    {
        let r = GistBook { entries: Vec::new(), counts: LabelCounts::new(), used: 0 };
        assert(app::entry_views(r.entries@) =~= Seq::empty());
        r
    }

    fn push_entry(&mut self, d: &Download, label: String, info: String, command: String)
        ensures
            final(self)@ == (GistBookView {
                entries: old(self)@.entries.push(entry_for(d@, label@, info@, command@)),
                ..old(self)@
            }),
    {
        let ghost before = self.entries@;
        let entry = GistEntry {
            label,
            info,
            command,
            mtime: Some(d.time),
            path: Some(d.path.clone()),
            remote_name: d.filename.clone(),
        };
        assert(entry@ == entry_for(d@, label@, info@, command@));
        self.entries.push(entry);
        assert(app::entry_views(self.entries@) =~= app::entry_views(before).push(entry@));
    }

    fn push_book(&mut self, d: &Download)
        requires
            labels::has_room(old(self)@.counts, text::lines(d.content@).len()),
        ensures
            final(self)@ == ({
                let book = labels::book(d.content@, "cmd"@, old(self)@.counts);
                GistBookView {
                    entries: old(self)@.entries + book_entries(d@, book),
                    counts: book.counts,
                    ..old(self)@
                }
            }),
    {
        let ghost before = self@;
        let ghost book = labels::book(d.content@, "cmd"@, before.counts);
        proof {
            let ls = text::lines(d.content@);
            labels::lemma_room_countable(ls, "cmd"@, before.counts, ls.len());
        }
        let (book_labels, book_commands, book_infos) = labels::parse_lines(
            d.content.as_str(),
            "cmd",
            &mut self.counts,
        );
        let ghost all = book_entries(d@, book);
        assert(text::texts(book_labels@).len() == book_labels@.len());
        let mut i: usize = 0;
        assert(self@.entries =~= before.entries + all.take(0));
        while i < book_labels.len()
            invariant
                i <= book_labels@.len(),
                book_labels@.len() == book_commands@.len() == book_infos@.len(),
                all == book_entries(d@, book),
                all.len() == book_labels@.len(),
                text::texts(book_labels@) == book.labels,
                text::texts(book_commands@) == book.commands,
                text::texts(book_infos@) == book.infos,
                self@ == (GistBookView {
                    entries: before.entries + all.take(i as int),
                    counts: book.counts,
                    ..before
                }),
            decreases book_labels@.len() - i,
        {
            assert(book.labels[i as int] == book_labels@[i as int]@);
            assert(book.commands[i as int] == book_commands@[i as int]@);
            assert(book.infos[i as int] == book_infos@[i as int]@);
            self.push_entry(
                d,
                book_labels[i].clone(),
                book_infos[i].clone(),
                book_commands[i].clone(),
            );
            assert(before.entries + all.take(i as int + 1) =~= (before.entries + all.take(
                i as int,
            )).push(all[i as int]));
            i = i + 1;
        }
        assert(all.take(all.len() as int) =~= all);
    }

    /// Takes up what a downloaded file holds.
    pub fn take_up(&mut self, d: &Download)
        requires
            old(self)@.wf(),
            old(self)@.fits(d@),
        ensures
            final(self)@ == taken_up(old(self)@, d@),
            final(self)@.wf(),
    {
        let ghost before = self@;
        let v = text::to_chars(d.content.as_str());
        let rows = text::split_lines(v.as_slice());
        assert(text::char_texts(rows@).len() == rows@.len());
        proof {
            lemma_bound_is_room(before, commands::file_room(d.content@));
            lemma_bound_is_room(before, text::lines(d.content@).len());
            lemma_bound_is_room(before, 1);
            lemma_book_bound(text::lines(d.content@), "cmd"@, before.counts, before.used);
        }
        if text::text_contains(d.content.as_str(), "# termbookman") {
            self.push_book(d);
        } else if commands::looks_like_script(d.content.as_str()) {
            let title = title_of_gist(d.filename.as_str());
            let (name, info) = commands::describe_script(d.content.as_str(), title.as_str());
            let n = self.counts.bump(name.as_str());
            let label = labels::numbered_label(name.as_str(), n);
            self.push_entry(d, label, info, d.path.clone());
        } else {
            let command = text::concat2("curl -sL ", d.raw_url.as_str());
            self.push_entry(d, d.filename.clone(), d.filename.clone(), command);
        }
        self.used = self.used + (rows.len() + 1);
    }

    /// Takes up what a downloaded file holds, and says whether it can be.
    pub fn try_take_up(&mut self, d: &Download) -> (r: bool)
        requires
            old(self)@.wf(),
        ensures
            r == old(self)@.fits(d@),
            r ==> final(self)@ == taken_up(old(self)@, d@),
            !r ==> final(self)@ == old(self)@,
            final(self)@.wf(),
    {
        let v = text::to_chars(d.content.as_str());
        let rows = text::split_lines(v.as_slice());
        assert(text::char_texts(rows@).len() == rows@.len());
        let n: usize = rows.len();
        if n == usize::MAX || self.used > usize::MAX - (n + 1) {
            return false;
        }
        let content = d.content.as_str();
        if !text::text_contains(content, "# termbookman") && commands::looks_like_script(content)
            && script::try_parse_script_content(content).is_none() {
            return false;
        }
        self.take_up(d);
        true
    }
}

/// What is taken up stays, and each entry of a file is kept under its name at
/// GitHub.
pub proof fn law_taken_up_keeps(g: GistBookView, d: DownloadView)
    ensures
        g.entries.is_prefix_of(taken_up(g, d).entries),
        forall|i: int|
            g.entries.len() <= i < taken_up(g, d).entries.len() ==> (#[trigger] taken_up(
                g,
                d,
            ).entries[i]).remote_name == d.filename && taken_up(g, d).entries[i].path == Some(
                d.path,
            ),
{
}

/// A downloaded file is taken up by what it is. A script gets one entry: named by
/// itself, or else by its file, marked as a script, and run from where it is
/// cached. A command book gets an entry for each command. Any other file gets one
/// that fetches it. Each entry has the file's name at GitHub, where it is cached
/// and when.
pub proof fn law_download_is_taken_up(g: GistBookView, d: DownloadView)
    ensures
        ({
            let after = taken_up(g, d).entries;
            let n = g.entries.len() as int;
            let cs = script::comments(script::read_lines(d.content));
            let name = match script::identifier(cs) {
                Some(t) => t,
                None => gist_title(d.filename),
            };
            let used = if g.counts.contains_key(name) {
                g.counts[name] as nat
            } else {
                0
            };
            let book = labels::book(d.content, "cmd"@, g.counts);
            let is_book = commands::holds_marker(d.content);
            let is_script = !is_book && commands::names_interpreter(d.content);
            &&& forall|i: int| 0 <= i < n ==> #[trigger] after[i] == g.entries[i]
            &&& forall|i: int|
                n <= i < after.len() ==> {
                    &&& (#[trigger] after[i]).remote_name == d.filename
                    &&& after[i].path == Some(d.path)
                    &&& after[i].mtime == Some(d.time)
                }
            &&& is_script ==> {
                &&& after.len() == n + 1
                &&& after[n].label == labels::label_for(name, used)
                &&& after[n].command == d.path
                &&& text::starts_with(after[n].info, "__SCRIPT__"@)
                &&& used < usize::MAX ==> taken_up(g, d).counts == g.counts.insert(
                    name,
                    (used + 1) as usize,
                )
            }
            &&& is_book ==> {
                &&& after.len() == n + book.labels.len()
                &&& forall|i: int|
                    0 <= i < book.labels.len() ==> {
                        &&& after[n + i].label == #[trigger] book.labels[i]
                        &&& after[n + i].command == book.commands[i]
                        &&& after[n + i].info == book.infos[i]
                    }
                &&& taken_up(g, d).counts == book.counts
            }
            &&& !is_book && !is_script ==> {
                &&& after.len() == n + 1
                &&& after[n].label == d.filename
                &&& after[n].info == d.filename
                &&& after[n].command == "curl -sL "@ + d.raw_url
                &&& taken_up(g, d).counts == g.counts
            }
        }),
{
    commands::law_kinds_of_files(d.content);
    let info = commands::script_info(d.content);
    let mark = "__SCRIPT__"@;
    assert(info.subrange(0, mark.len() as int) =~= mark);
}

/// A file of a gist is downloaded where the gist says from where, and only then:
/// the list of downloads holds its name with that address.
pub proof fn law_files_with_an_address_are_downloaded(
    files: Seq<(Seq<char>, json::JsonView)>,
    n: nat,
    i: int,
    url: Seq<char>,
)
    requires
        n <= files.len(),
    ensures
        ({
            let got = files_upto(files, n);
            &&& 0 <= i < n && url.len() > 0 && json::field(files[i].1, "raw_url"@)
                == json::JsonView::Text(url) ==> got.contains((files[i].0, url))
            &&& got.len() <= n
            &&& forall|k: int|
                0 <= k < got.len() ==> (#[trigger] got[k]).1.len() > 0 && exists|j: int|
                    0 <= j < n && got[k].0 == (#[trigger] files[j]).0 && json::field(
                        files[j].1,
                        "raw_url"@,
                    ) == json::JsonView::Text(got[k].1)
        }),
    decreases n,
{
    if n > 0 {
        let p = (n - 1) as nat;
        law_files_with_an_address_are_downloaded(files, p, i, url);
        let before = files_upto(files, p);
        let got = files_upto(files, n);
        if 0 <= i < n && url.len() > 0 && json::field(files[i].1, "raw_url"@)
            == json::JsonView::Text(url) {
            if i < p {
                let k = choose|k: int| 0 <= k < before.len() && before[k] == (files[i].0, url);
                assert(got[k] == (files[i].0, url));
            } else {
                assert(got[before.len() as int] == (files[i].0, url));
            }
        }
        assert forall|k: int| 0 <= k < got.len() implies (#[trigger] got[k]).1.len() > 0 && exists|
            j: int,
        |
            0 <= j < n && got[k].0 == (#[trigger] files[j]).0 && json::field(
                files[j].1,
                "raw_url"@,
            ) == json::JsonView::Text(got[k].1) by {
            if k < before.len() {
                assert(got[k] == before[k]);
                let j = choose|j: int|
                    0 <= j < p && before[k].0 == (#[trigger] files[j]).0 && json::field(
                        files[j].1,
                        "raw_url"@,
                    ) == json::JsonView::Text(before[k].1);
                assert(files[j].0 == got[k].0);
            } else {
                assert(files[n - 1].0 == got[k].0);
            }
        }
    }
}

/// The files of all gists of a list are downloaded, gist by gist; what is no list
/// has none.
pub proof fn law_all_gists_are_downloaded(
    gists: Seq<json::JsonView>,
    gist: json::JsonView,
    files: Seq<(Seq<char>, json::JsonView)>,
    other: json::JsonView,
)
    ensures
        downloads(json::JsonView::Array(Seq::empty())) == Some(
            Seq::<(Seq<char>, Seq<char>)>::empty(),
        ),
        json::field(gist, "files"@) == json::JsonView::Object(files) ==> downloads(
            json::JsonView::Array(gists.push(gist)),
        ) == Some(
            downloads(json::JsonView::Array(gists))->0 + files_upto(files, files.len()),
        ),
        !(json::field(gist, "files"@) is Object) ==> downloads(
            json::JsonView::Array(gists.push(gist)),
        ) == downloads(json::JsonView::Array(gists)),
        !(other is Array) ==> downloads(other) is None,
{
    lemma_gists_kept(gists, gist, gists.len());
    let all = gists_upto(gists, gists.len());
    assert(all + Seq::<(Seq<char>, Seq<char>)>::empty() =~= all);
}

proof fn lemma_gists_kept(gists: Seq<json::JsonView>, gist: json::JsonView, n: nat)
    requires
        n <= gists.len(),
    ensures
        gists_upto(gists.push(gist), n) == gists_upto(gists, n),
    decreases n,
{
    if n > 0 {
        lemma_gists_kept(gists, gist, (n - 1) as nat);
    }
}

/// A file is cached under its own name, with underscores for the spaces in it.
pub proof fn law_cached_name_has_no_spaces(filename: Seq<char>, i: int)
    ensures
        cached_name(filename).len() == filename.len(),
        0 <= i < filename.len() ==> cached_name(filename)[i] == if filename[i] == ' ' {
            '_'
        } else {
            filename[i]
        },
{
    reveal_strlit(" ");
    reveal_strlit("_");
    text::law_replace_character(filename, " "@, "_"@);
}

/// The name that a gist's file gives its script is the file's name without the word
/// `script`, a dash or an underscore before it.
pub proof fn law_gist_title_drops_the_word(rest: Seq<char>, dash: bool)
    requires
        rest.len() > 0,
        rest[0] != '-',
        rest[0] != '_',
        !text::is_white(rest[0]),
        !text::is_white(rest.last()),
    ensures
        gist_title(
            (if dash {
                "script-"@
            } else {
                "script_"@
            }) + rest,
        ) == rest,
        rest[0] != 's' ==> gist_title(rest) == rest,
{
    reveal_strlit("script");
    reveal_strlit("script-");
    reveal_strlit("script_");
    let word = "script"@;
    let between = if dash {
        seq!['-']
    } else {
        seq!['_']
    };
    let all = (if dash {
        "script-"@
    } else {
        "script_"@
    }) + rest;
    let tail = between + rest;
    let none = Seq::<char>::empty();
    assert(all =~= word + tail);
    assert(all.subrange(0, 6) =~= word);
    assert(text::starts_with(all, word));
    assert(all.skip(6) =~= tail);
    commands::lemma_not_script(tail);
    reveal_with_fuel(commands::drop_prefixes, 2);
    assert(none + rest =~= rest);
    commands::lemma_drop_dashes(none, rest);
    if dash {
        commands::lemma_drop_dashes(between, rest);
    } else {
        assert(none + tail =~= tail);
        commands::lemma_drop_dashes(none, tail);
        assert(tail.drop_first() =~= rest);
        reveal_with_fuel(text::drop_leading, 2);
    }
    text::law_trimmed_stays(rest);
    if rest[0] != 's' {
        commands::lemma_not_script(rest);
    }
}

/// A downloaded file can be taken up where its lines can be counted and the preview
/// of a script can be made.
pub proof fn law_download_can_be_taken_up(g: GistBookView, d: DownloadView)
    requires
        g.used + text::lines(d.content).len() + 1 <= usize::MAX,
        script::preview_fits(d.content),
    ensures
        g.fits(d),
{
}

} // verus!
