//! Labels of commands: numbering repeated names and reading a command book.

use crate::text;
use vstd::hash_map::StringHashMap;
use vstd::prelude::*;
use vstd::string::*;

verus! {

/// How often each name has been given out.
pub struct LabelCounts {
    counts: StringHashMap<usize>,
}

impl View for LabelCounts {
    type V = Map<Seq<char>, usize>;

    closed spec fn view(&self) -> Map<Seq<char>, usize> {
        self.counts@
    }
}

/// How often `name` has been given out.
pub open spec fn count_of(counts: Map<Seq<char>, usize>, name: Seq<char>) -> nat {
    if counts.contains_key(name) {
        counts[name] as nat
    } else {
        0
    }
}

/// Each name can be given out `n` more times before its count overflows.
pub open spec fn has_room(counts: Map<Seq<char>, usize>, n: nat) -> bool {
    n <= usize::MAX && forall|k: Seq<char>| #[trigger]
        counts.contains_key(k) ==> counts[k] + n <= usize::MAX
}

/// The counts after `name` was given out once more.
pub open spec fn counted(counts: Map<Seq<char>, usize>, name: Seq<char>) -> Map<
    Seq<char>,
    usize,
> {
    counts.insert(name, (count_of(counts, name) + 1) as usize)
}

/// The label of the `n`-th use of `name`: the bare name first, later ones
/// with their number behind it.
pub open spec fn numbered(name: Seq<char>, n: nat) -> Seq<char> {
    if n > 1 {
        name + text::decimal(n)
    } else {
        name
    }
}

impl LabelCounts {
    /// No name given out yet.
    pub fn new() -> (r: LabelCounts)
        ensures
            r@ == Map::<Seq<char>, usize>::empty(),
    {
        LabelCounts { counts: StringHashMap::new() }
    }

    /// How often `name` has been given out.
    pub fn count(&self, name: &str) -> (n: usize)
        ensures
            n == count_of(self@, name@),
    {
        match self.counts.get(name) {
            Some(n) => *n,
            None => 0,
        }
    }

    /// Gives out `name` once more and says how often that makes.
    pub fn bump(&mut self, name: &str) -> (n: usize)
        requires
            count_of(old(self)@, name@) < usize::MAX,
        ensures
            final(self)@ == counted(old(self)@, name@),
            n == count_of(old(self)@, name@) + 1,
    {
        let n: usize = self.count(name) + 1;
        self.counts.insert(name.to_owned(), n);
        n
    }
}

/// Room for several more uses leaves room for one fewer after one use.
pub proof fn lemma_counted_room(counts: Map<Seq<char>, usize>, name: Seq<char>, n: nat)
    requires
        has_room(counts, n),
        n > 0,
    ensures
        has_room(counted(counts, name), (n - 1) as nat),
{
    let after = counted(counts, name);
    assert forall|k: Seq<char>| #[trigger] after.contains_key(k) implies after[k] + (n - 1)
        <= usize::MAX by {
        if k != name {
            assert(counts.contains_key(k));
        } else if counts.contains_key(name) {
        }
    }
}

/// The label of the `n`-th use of `name`.
pub fn numbered_label(name: &str, n: usize) -> (r: String)
    ensures
        r@ == numbered(name@, n as nat),
{
    let mut label = name.to_owned();
    if n > 1 {
        let number = text::decimal_text(n as u64);
        label.append(number.as_str());
    }
    label
}

/// A command book as far as it has been read.
pub ghost struct BookScan {
    /// The name that a comment gave for the next command.
    pub pending: Option<Seq<char>>,
    /// The rest of that comment.
    pub info: Seq<char>,
    pub labels: Seq<Seq<char>>,
    pub commands: Seq<Seq<char>>,
    pub infos: Seq<Seq<char>>,
    pub counts: Map<Seq<char>, usize>,
}

/// Nothing read yet.
pub open spec fn book_start(counts: Map<Seq<char>, usize>) -> BookScan {
    BookScan {
        pending: None,
        info: Seq::empty(),
        labels: Seq::empty(),
        commands: Seq::empty(),
        infos: Seq::empty(),
        counts,
    }
}

/// The first of some words, or else `default`.
pub open spec fn first_or(ws: Seq<Seq<char>>, default: Seq<char>) -> Seq<char> {
    if ws.len() > 0 {
        ws[0]
    } else {
        default
    }
}

/// The name of a command: what a comment gave, or else its first word.
pub open spec fn base_name(
    pending: Option<Seq<char>>,
    command: Seq<char>,
    default: Seq<char>,
) -> Seq<char> {
    match pending {
        Some(name) => name,
        None => first_or(text::words(command), default),
    }
}

/// One more line of a command book. Blank lines and the marker line count for
/// nothing; a comment names the next command; every other line is a command.
pub open spec fn book_line(s: BookScan, line: Seq<char>, default: Seq<char>) -> BookScan {
    let t = text::trim(line);
    if t.len() == 0 || text::contains(t, "# termbookman"@) {
        s
    } else if t[0] == '#' {
        let ws = text::words(t.drop_first());
        if ws.len() > 0 {
            BookScan { pending: Some(ws[0]), info: text::join(ws.skip(1), " "@), ..s }
        } else {
            s
        }
    } else {
        let name = base_name(s.pending, t, default);
        BookScan {
            pending: None,
            info: Seq::empty(),
            labels: s.labels.push(numbered(name, count_of(s.counts, name) + 1)),
            commands: s.commands.push(t),
            infos: s.infos.push(s.info),
            counts: counted(s.counts, name),
        }
    }
}

/// A command book read line by line.
pub open spec fn book_lines(
    ls: Seq<Seq<char>>,
    default: Seq<char>,
    counts: Map<Seq<char>, usize>,
) -> BookScan
    decreases ls.len(),
{
    if ls.len() == 0 {
        book_start(counts)
    } else {
        book_line(book_lines(ls.drop_last(), default, counts), ls.last(), default)
    }
}

/// A command book read whole.
pub open spec fn book(
    content: Seq<char>,
    default: Seq<char>,
    counts: Map<Seq<char>, usize>,
) -> BookScan {
    book_lines(text::lines(content), default, counts)
}

/// A line of a command book is that of a command.
pub open spec fn is_command(line: Seq<char>) -> bool {
    let t = text::trim(line);
    t.len() > 0 && !text::contains(t, "# termbookman"@) && t[0] != '#'
}

/// No name that some lines give out has been given out too often to be counted.
pub open spec fn book_countable(
    ls: Seq<Seq<char>>,
    default: Seq<char>,
    counts: Map<Seq<char>, usize>,
) -> bool
    decreases ls.len(),
{
    ls.len() > 0 ==> {
        let before = book_lines(ls.drop_last(), default, counts);
        let name = base_name(before.pending, text::trim(ls.last()), default);
        &&& book_countable(ls.drop_last(), default, counts)
        &&& is_command(ls.last()) ==> count_of(before.counts, name) < usize::MAX
    }
}

/// What can be counted of all lines can be counted of the first.
proof fn lemma_countable_prefix(
    ls: Seq<Seq<char>>,
    default: Seq<char>,
    counts: Map<Seq<char>, usize>,
    k: int,
)
    requires
        book_countable(ls, default, counts),
        0 <= k <= ls.len(),
    ensures
        book_countable(ls.take(k), default, counts),
    decreases ls.len(),
{
    if k == ls.len() {
        assert(ls.take(k) =~= ls);
    } else {
        lemma_countable_prefix(ls.drop_last(), default, counts, k);
        assert(ls.drop_last().take(k) =~= ls.take(k));
    }
}

/// Room for as many uses of each name as there are lines is enough.
pub proof fn lemma_room_countable(
    ls: Seq<Seq<char>>,
    default: Seq<char>,
    counts: Map<Seq<char>, usize>,
    n: nat,
)
    requires
        has_room(counts, n),
        ls.len() <= n,
    ensures
        book_countable(ls, default, counts),
        has_room(book_lines(ls, default, counts).counts, (n - ls.len()) as nat),
    decreases ls.len(),
{
    if ls.len() > 0 {
        let before = book_lines(ls.drop_last(), default, counts);
        let name = base_name(before.pending, text::trim(ls.last()), default);
        lemma_room_countable(ls.drop_last(), default, counts, n);
        lemma_counted_room(before.counts, name, (n - ls.len() + 1) as nat);
        assert(before.counts.contains_key(name) ==> before.counts[name] < usize::MAX);
    }
}

/// Reads a command book: for each command its label, its text and what its
/// comment says of it.
pub fn parse_lines(
    content: &str,
    default_label: &str,
    label_counts: &mut LabelCounts,
) -> (r: (Vec<String>, Vec<String>, Vec<String>))
    requires
        book_countable(text::lines(content@), default_label@, old(label_counts)@),
    ensures
        text::texts(r.0@) == book(content@, default_label@, old(label_counts)@).labels,
        text::texts(r.1@) == book(content@, default_label@, old(label_counts)@).commands,
        text::texts(r.2@) == book(content@, default_label@, old(label_counts)@).infos,
        final(label_counts)@ == book(content@, default_label@, old(label_counts)@).counts,
        r.0@.len() == r.1@.len() == r.2@.len(),
{
    let all = text::to_chars(content);
    let rows = text::split_lines(all.as_slice());
    let tag = text::to_chars("# termbookman");
    let mut labels: Vec<String> = Vec::new();
    let mut commands: Vec<String> = Vec::new();
    let mut infos: Vec<String> = Vec::new();
    let mut pending: Option<String> = None;
    let mut info: String = String::new();
    let ghost ls = text::lines(content@);
    let ghost start = label_counts@;
    let mut i: usize = 0;
    assert(text::texts(labels@) =~= Seq::empty());
    assert(ls.take(0) =~= Seq::empty());
    while i < rows.len()
        invariant
            i <= rows@.len(),
            ls == text::lines(content@),
            text::char_texts(rows@) == ls,
            tag@ == "# termbookman"@,
            text::opt_text(pending) == book_lines(ls.take(i as int), default_label@, start).pending,
            info@ == book_lines(ls.take(i as int), default_label@, start).info,
            text::texts(labels@) == book_lines(ls.take(i as int), default_label@, start).labels,
            text::texts(commands@) == book_lines(ls.take(i as int), default_label@, start).commands,
            text::texts(infos@) == book_lines(ls.take(i as int), default_label@, start).infos,
            label_counts@ == book_lines(ls.take(i as int), default_label@, start).counts,
            book_countable(ls, default_label@, start),
        decreases rows@.len() - i,
    {
        let ghost scan = book_lines(ls.take(i as int), default_label@, start);
        proof {
            assert(ls[i as int] == rows@[i as int]@);
            assert(ls.take(i as int + 1).drop_last() =~= ls.take(i as int));
            lemma_countable_prefix(ls, default_label@, start, i as int + 1);
        }
        let t = text::trimmed(rows[i].as_slice());
        if t.len() == 0 || text::has_part(t, tag.as_slice()) {
        } else if t[0] == '#' {
            assert(t@.subrange(1, t@.len() as int) =~= t@.drop_first());
            let ws = text::split_words(vstd::slice::slice_subrange(t, 1, t.len()));
            if ws.len() > 0 {
                pending = Some(text::to_text(ws[0].as_slice()));
                info = text::join_from(&ws, 1, " ");
                assert(text::char_texts(ws@)[0] == ws@[0]@);
            }
        } else {
            let command = text::to_text(t);
            let name: String = match pending {
                Some(p) => p,
                None => {
                    let ws = text::split_words(t);
                    if ws.len() > 0 {
                        assert(text::char_texts(ws@)[0] == ws@[0]@);
                        text::to_text(ws[0].as_slice())
                    } else {
                        default_label.to_owned()
                    }
                },
            };
            pending = None;
            let n = label_counts.bump(name.as_str());
            let label = numbered_label(name.as_str(), n);
            let ghost before = (labels@, commands@, infos@);
            labels.push(label);
            commands.push(command);
            infos.push(info);
            info = String::new();
            proof {
                assert(text::texts(labels@) =~= text::texts(before.0).push(label@));
                assert(text::texts(commands@) =~= text::texts(before.1).push(command@));
                assert(text::texts(infos@) =~= text::texts(before.2).push(scan.info));
            }
        }
        i = i + 1;
    }
    assert(ls.take(ls.len() as int) =~= ls);
    proof {
        law_book_columns(ls, default_label@, start);
    }
    (labels, commands, infos)
}

/// A command book has one command and one comment for each label.
pub proof fn law_book_columns(
    ls: Seq<Seq<char>>,
    default: Seq<char>,
    counts: Map<Seq<char>, usize>,
)
    ensures
        book_lines(ls, default, counts).labels.len() == book_lines(ls, default, counts).commands.len(),
        book_lines(ls, default, counts).labels.len() == book_lines(ls, default, counts).infos.len(),
    decreases ls.len(),
{
    if ls.len() > 0 {
        law_book_columns(ls.drop_last(), default, counts);
    }
}

proof fn lemma_book_lines_join(
    a: Seq<Seq<char>>,
    b: Seq<Seq<char>>,
    default: Seq<char>,
    counts: Map<Seq<char>, usize>,
)
    requires
        book_lines(a, default, counts).pending is None,
    ensures
        ({
            let first = book_lines(a, default, counts);
            let second = book_lines(b, default, first.counts);
            book_lines(a + b, default, counts) == BookScan {
                labels: first.labels + second.labels,
                commands: first.commands + second.commands,
                infos: first.infos + second.infos,
                ..second
            }
        }),
    decreases b.len(),
{
    let first = book_lines(a, default, counts);
    lemma_no_name_no_info(a, default, counts);
    if b.len() == 0 {
        assert(a + b =~= a);
        assert(first.labels + Seq::empty() =~= first.labels);
        assert(first.commands + Seq::empty() =~= first.commands);
        assert(first.infos + Seq::empty() =~= first.infos);
    } else {
        lemma_book_lines_join(a, b.drop_last(), default, counts);
        assert((a + b).drop_last() =~= a + b.drop_last());
        let second = book_lines(b, default, first.counts);
        let both = book_lines(a + b, default, counts);
        assert(both.labels =~= first.labels + second.labels);
        assert(both.commands =~= first.commands + second.commands);
        assert(both.infos =~= first.infos + second.infos);
    }
}

/// Where no comment names the next command, none says anything of it.
proof fn lemma_no_name_no_info(
    ls: Seq<Seq<char>>,
    default: Seq<char>,
    counts: Map<Seq<char>, usize>,
)
    ensures
        book_lines(ls, default, counts).pending is None ==> book_lines(ls, default, counts).info
            == Seq::<char>::empty(),
    decreases ls.len(),
{
    if ls.len() > 0 {
        lemma_no_name_no_info(ls.drop_last(), default, counts);
    }
}

/// A line feed at the end changes nothing of a command book.
proof fn lemma_book_ended(a: Seq<char>, default: Seq<char>, counts: Map<Seq<char>, usize>)
    ensures
        book(a.push('\n'), default, counts) == book(a, default, counts),
{
    text::lemma_lines_ended(a);
    let ended = text::lines(a.push('\n'));
    let open = text::lines(a);
    if ended == open.push(Seq::<char>::empty()) {
        assert(ended.drop_last() =~= open);
    } else {
        assert(ended.drop_last() =~= open.drop_last());
        if open.last().len() > 0 && open.last().last() == '\r' {
            text::lemma_trim_white_end(open.last());
        }
    }
}

/// Two command books read in turn give what they give as one text, with a line
/// feed put between, where the first does not end with a comment that names the
/// next command.
pub proof fn law_books_join(
    a: Seq<char>,
    b: Seq<char>,
    default: Seq<char>,
    counts: Map<Seq<char>, usize>,
)
    requires
        book(a, default, counts).pending is None,
    ensures
        ({
            let first = book(a, default, counts);
            let second = book(b, default, first.counts);
            book(a.push('\n') + b, default, counts) == BookScan {
                labels: first.labels + second.labels,
                commands: first.commands + second.commands,
                infos: first.infos + second.infos,
                ..second
            }
        }),
{
    let ended = a.push('\n');
    lemma_book_ended(a, default, counts);
    text::lemma_lines_join(ended, b);
    lemma_book_lines_join(text::lines(ended), text::lines(b), default, counts);
}

/// How a name is labelled that was given out `n` times before: bare at first, then
/// with its number.
pub open spec fn label_for(name: Seq<char>, n: nat) -> Seq<char> {
    if n == 0 {
        name
    } else {
        name + text::decimal(n + 1)
    }
}

/// A command book is read line by line. A blank line and one with the book's marker
/// count for nothing. A comment gives the next command its first word as a name and
/// the others as its info. Any other line is a command, as it stands without the
/// blanks around it: named by the comment before it, or else by its own first word,
/// and labelled by that name, with a number where the name was given out before.
pub proof fn law_book_is_read_line_by_line(
    above: Seq<char>,
    line: Seq<char>,
    default: Seq<char>,
    counts: Map<Seq<char>, usize>,
)
    requires
        above.len() == 0 || above.last() == '\n',
        line.len() > 0,
        !line.contains('\n'),
    ensures
        ({
            let before = book(above, default, counts);
            let after = book(above + line, default, counts);
            let t = text::trim(line);
            let is_marker = exists|a: Seq<char>, b: Seq<char>|
                t == #[trigger] (a + "# termbookman"@ + b);
            let said = text::words(t.drop_first());
            let name = match before.pending {
                Some(n) => n,
                None => text::words(t)[0],
            };
            let used = if before.counts.contains_key(name) {
                before.counts[name] as nat
            } else {
                0
            };
            &&& t.len() == 0 || is_marker ==> after == before
            &&& t.len() > 0 && !is_marker && t[0] == '#' && said.len() == 0 ==> after == before
            &&& t.len() > 0 && !is_marker && t[0] == '#' && said.len() > 0 ==> after == (BookScan {
                pending: Some(said[0]),
                info: text::join(said.skip(1), " "@),
                ..before
            })
            &&& t.len() > 0 && !is_marker && t[0] != '#' ==> {
                &&& after.commands == before.commands.push(t)
                &&& after.labels == before.labels.push(label_for(name, used))
                &&& after.infos == before.infos.push(before.info)
                &&& after.pending is None
                &&& after.info.len() == 0
                &&& after.counts.contains_key(name)
                &&& used < usize::MAX ==> after.counts[name] == used + 1
                &&& forall|other: Seq<char>|
                    other != name ==> {
                        &&& #[trigger] after.counts.contains_key(other)
                            == before.counts.contains_key(other)
                        &&& after.counts[other] == before.counts[other]
                    }
            }
        }),
{
    text::lemma_lines_join(above, line);
    text::law_lines_end_with_line_feeds(line, Seq::empty());
    let ls = text::lines(above);
    let all = text::lines(above + line);
    assert(all.drop_last() =~= ls);
    assert(all.last() == line);
    let t = text::trim(line);
    text::law_contains_is_made_of(t, "# termbookman"@);
    if t.len() > 0 {
        text::law_trim_takes_white_space_only(line);
        lemma_has_word(t);
    }
}

proof fn lemma_has_word(t: Seq<char>)
    requires
        t.len() > 0,
        !text::is_white(t[0]),
    ensures
        text::words(t).len() > 0,
{
}

/// Nothing is listed of an empty book, and the names given out before stay.
pub proof fn law_empty_book(default: Seq<char>, counts: Map<Seq<char>, usize>)
    ensures
        ({
            let b = book(Seq::empty(), default, counts);
            &&& b.labels.len() == 0 && b.commands.len() == 0 && b.infos.len() == 0
            &&& b.pending is None && b.info.len() == 0
            &&& b.counts == counts
        }),
{
}

} // verus!
