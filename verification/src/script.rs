//! Scripts: what the comments at the top of a script say of it, and a preview
//! of its code.

use crate::text;
use vstd::prelude::*;
use vstd::slice::*;
use vstd::string::*;

verus! {

/// The lines of `ls` that are not blank, trimmed.
pub open spec fn nonblank(ls: Seq<Seq<char>>) -> Seq<Seq<char>>
    decreases ls.len(),
{
    if ls.len() == 0 {
        Seq::empty()
    } else if text::trim(ls.last()).len() == 0 {
        nonblank(ls.drop_last())
    } else {
        nonblank(ls.drop_last()).push(text::trim(ls.last()))
    }
}

/// Where the first interpreter line stands, or the number of lines.
pub open spec fn shebang_at(ls: Seq<Seq<char>>) -> nat
    decreases ls.len(),
{
    if ls.len() == 0 || text::starts_with(ls[0], "#!"@) {
        0
    } else {
        1 + shebang_at(ls.drop_first())
    }
}

/// What follows the interpreter line; nothing where there is none.
pub open spec fn after_shebang(ls: Seq<Seq<char>>) -> Seq<Seq<char>> {
    if shebang_at(ls) < ls.len() {
        ls.skip(shebang_at(ls) as int + 1)
    } else {
        Seq::empty()
    }
}

/// The lines of a script below its interpreter line, trimmed and not blank.
pub open spec fn script_body(content: Seq<char>) -> Seq<Seq<char>> {
    after_shebang(nonblank(text::lines(content)))
}

/// What a comment line says.
pub open spec fn comment_text(line: Seq<char>) -> Seq<char> {
    text::trim(text::drop_leading(line, text::CharClass::Hash))
}

/// What the comment lines of `body` say, those that say nothing left out.
pub open spec fn comments(body: Seq<Seq<char>>) -> Seq<Seq<char>>
    decreases body.len(),
{
    if body.len() == 0 {
        Seq::empty()
    } else {
        let before = comments(body.drop_last());
        let line = body.last();
        if text::starts_with(line, "#"@) && comment_text(line).len() > 0 {
            before.push(comment_text(line))
        } else {
            before
        }
    }
}

/// The lines of `body` that are no comments.
pub open spec fn code(body: Seq<Seq<char>>) -> Seq<Seq<char>>
    decreases body.len(),
{
    if body.len() == 0 {
        Seq::empty()
    } else if text::starts_with(body.last(), "#"@) {
        code(body.drop_last())
    } else {
        code(body.drop_last()).push(body.last())
    }
}

/// The code of `body` on one line.
pub open spec fn code_line(body: Seq<Seq<char>>) -> Seq<char> {
    text::join(code(body), " "@)
}

/// The code of `body` is too long for a preview.
pub open spec fn overlong(body: Seq<Seq<char>>) -> bool {
    text::byte_len(code_line(body)) > 100
}

/// How many lines of `body`, from `k` on, are read: up to the one that makes
/// the code too long for a preview, or all of them.
pub open spec fn read_len(body: Seq<Seq<char>>, k: int) -> int
    decreases body.len() - k,
{
    if k >= body.len() || overlong(body.take(k)) {
        k
    } else {
        read_len(body, k + 1)
    }
}

/// The lines of a script that are read for its description and preview.
pub open spec fn read_lines(content: Seq<char>) -> Seq<Seq<char>> {
    let body = script_body(content);
    body.take(read_len(body, 0))
}

/// A script's name: the first word of its first comment.
pub open spec fn identifier(cs: Seq<Seq<char>>) -> Option<Seq<char>> {
    if cs.len() > 0 && text::words(cs[0]).len() > 0 {
        Some(text::words(cs[0])[0])
    } else {
        None
    }
}

/// The rest of a text behind its first word.
pub open spec fn behind_first_word(s: Seq<char>) -> Seq<char> {
    if text::words(s).len() > 0 {
        text::join(text::words(s).skip(1), " "@)
    } else {
        Seq::empty()
    }
}

/// A script's description: its first comment behind the name, then the other
/// comments, with a space between.
pub open spec fn description(cs: Seq<Seq<char>>) -> Seq<char>
    decreases cs.len(),
{
    if cs.len() == 0 {
        Seq::empty()
    } else if cs.len() == 1 {
        behind_first_word(cs[0])
    } else {
        let before = description(cs.drop_last());
        if before.len() > 0 {
            before + " "@ + cs.last()
        } else {
            cs.last()
        }
    }
}

/// Byte 97 of an overlong preview lies between two characters, so that the
/// preview can be cut there.
pub open spec fn preview_fits(content: Seq<char>) -> bool {
    let read = read_lines(content);
    overlong(read) ==> text::char_boundary(code_line(read), 97) is Some
}

/// A script's preview: its code on one line, cut to 97 bytes and marked with
/// dots where it is longer than 100 bytes.
pub open spec fn preview(content: Seq<char>) -> Seq<char> {
    let read = read_lines(content);
    if overlong(read) {
        code_line(read).take(text::char_boundary(code_line(read), 97)->0 as int) + "..."@
    } else {
        code_line(read)
    }
}

/// The trimmed lines of a script below its interpreter line.
fn body_lines(content: &str) -> (r: Vec<Vec<char>>)
    ensures
        text::char_texts(r@) == script_body(content@),
{
    let all = text::to_chars(content);
    let rows = text::split_lines(all.as_slice());
    let mark = text::to_chars("#!");
    let ghost ls = text::lines(content@);
    let mut found: bool = false;
    let mut body: Vec<Vec<char>> = Vec::new();
    let mut i: usize = 0;
    assert(ls.take(0) =~= Seq::empty());
    assert(text::char_texts(body@) =~= Seq::empty());
    assert(nonblank(ls.take(0)).skip(0) =~= Seq::empty());
    while i < rows.len()
        invariant
            i <= rows@.len(),
            text::char_texts(rows@) == ls,
            mark@ == "#!"@,
            text::char_texts(body@) == after_shebang(nonblank(ls.take(i as int))),
            found == (shebang_at(nonblank(ls.take(i as int))) < nonblank(
                ls.take(i as int),
            ).len()),
        decreases rows@.len() - i,
    {
        let ghost seen = nonblank(ls.take(i as int));
        proof {
            assert(ls[i as int] == rows@[i as int]@);
            assert(ls.take(i as int + 1).drop_last() =~= ls.take(i as int));
        }
        let t = text::trimmed(rows[i].as_slice());
        if t.len() > 0 {
            let ghost before = body@;
            proof {
                lemma_shebang_push(seen, t@);
            }
            if found {
                let line = text::to_vec(t);
                body.push(line);
                assert(text::char_texts(body@) =~= text::char_texts(before).push(t@));
            } else if text::matches_at(t, mark.as_slice(), 0) {
                found = true;
            }
        }
        i = i + 1;
    }
    assert(ls.take(ls.len() as int) =~= ls);
    body
}

/// What one more line does to the search for the interpreter line.
proof fn lemma_shebang_push(ls: Seq<Seq<char>>, line: Seq<char>)
    ensures
        shebang_at(ls) <= ls.len(),
        shebang_at(ls) < ls.len() ==> shebang_at(ls.push(line)) == shebang_at(ls),
        shebang_at(ls) < ls.len() ==> after_shebang(ls.push(line)) == after_shebang(ls).push(line),
        shebang_at(ls) == ls.len() ==> shebang_at(ls.push(line)) == if text::starts_with(line, "#!"@) {
            ls.len()
        } else {
            ls.len() + 1
        },
        shebang_at(ls) == ls.len() ==> after_shebang(ls.push(line)) == Seq::<Seq<char>>::empty(),
    decreases ls.len(),
{
    reveal_with_fuel(shebang_at, 2);
    let next = ls.push(line);
    if ls.len() == 0 {
        assert(next.drop_first() =~= Seq::empty());
        assert(next[0] == line);
    } else if !text::starts_with(ls[0], "#!"@) {
        assert(next.drop_first() =~= ls.drop_first().push(line));
        lemma_shebang_push(ls.drop_first(), line);
    }
    if shebang_at(ls) < ls.len() {
        assert(after_shebang(next) =~= after_shebang(ls).push(line));
    } else {
        assert(after_shebang(next) =~= Seq::empty());
    }
}

proof fn lemma_nonblank(ls: Seq<Seq<char>>)
    ensures
        forall|k: int| 0 <= k < nonblank(ls).len() ==> (#[trigger] nonblank(ls)[k]).len() > 0,
    decreases ls.len(),
{
    if ls.len() > 0 {
        let before = nonblank(ls.drop_last());
        lemma_nonblank(ls.drop_last());
        assert forall|k: int| 0 <= k < nonblank(ls).len() implies (#[trigger] nonblank(ls)[k]).len()
            > 0 by {
            if k < before.len() {
                assert(nonblank(ls)[k] == before[k]);
            }
        }
    }
}

/// No line of a script's body is empty.
proof fn lemma_script_body(content: Seq<char>)
    ensures
        forall|k: int|
            0 <= k < script_body(content).len() ==> (#[trigger] script_body(content)[k]).len() > 0,
{
    let ls = nonblank(text::lines(content));
    lemma_nonblank(text::lines(content));
    assert forall|k: int| 0 <= k < script_body(content).len() implies (#[trigger] script_body(
        content,
    )[k]).len() > 0 by {
        assert(script_body(content)[k] == ls[k + shebang_at(ls) + 1]);
    }
}

/// Code is empty only where there is none.
proof fn lemma_code_line(body: Seq<Seq<char>>)
    requires
        forall|k: int| 0 <= k < body.len() ==> (#[trigger] body[k]).len() > 0,
    ensures
        code_line(body).len() == 0 <==> code(body).len() == 0,
    decreases body.len(),
{
    if body.len() > 0 {
        lemma_code_line(body.drop_last());
        let cs = code(body.drop_last());
        assert(cs.push(body.last()).drop_last() =~= cs);
    }
}

/// Reads a script: its name, its description and a preview of its code.
/// Gives nothing where the preview cannot be cut between two characters.
pub fn try_parse_script_content(content: &str) -> (r: Option<(Option<String>, String, String)>)
    ensures
        r is Some == preview_fits(content@),
        r matches Some(p) ==> {
            &&& text::opt_text(p.0) == identifier(comments(read_lines(content@)))
            &&& p.1@ == description(comments(read_lines(content@)))
            &&& p.2@ == preview(content@)
        },
{
    let rows = body_lines(content);
    let hash = text::to_chars("#");
    let ghost body = script_body(content@);
    let mut name: Option<String> = None;
    let mut about: String = String::new();
    let mut line: String = String::new();
    let mut first: bool = true;
    let mut i: usize = 0;
    assert(body.take(0) =~= Seq::empty());
    assert(text::byte_len(Seq::empty()) == 0);
    proof {
        lemma_script_body(content@);
    }
    while i < rows.len()
        invariant
            i <= rows@.len(),
            text::char_texts(rows@) == body,
            forall|k: int| 0 <= k < body.len() ==> (#[trigger] body[k]).len() > 0,
            body == script_body(content@),
            hash@ == "#"@,
            read_len(body, 0) == read_len(body, i as int),
            !overlong(body.take(i as int)),
            first == (comments(body.take(i as int)).len() == 0),
            text::opt_text(name) == identifier(comments(body.take(i as int))),
            about@ == description(comments(body.take(i as int))),
            line@ == code_line(body.take(i as int)),
        decreases rows@.len() - i,
    {
        let ghost seen = body.take(i as int);
        let ghost next = body.take(i as int + 1);
        proof {
            assert(body[i as int] == rows@[i as int]@);
            assert(next.drop_last() =~= seen);
            assert(next.last() == rows@[i as int]@);
        }
        let row = rows[i].as_slice();
        if text::matches_at(row, hash.as_slice(), 0) {
            let said = text::trimmed(text::strip_leading(row, text::CharClass::Hash));
            if said.len() > 0 {
                let ghost cs = comments(seen);
                assert(comments(next) == cs.push(said@));
                if first {
                    let ws = text::split_words(said);
                    if ws.len() > 0 {
                        assert(text::char_texts(ws@)[0] == ws@[0]@);
                        name = Some(text::to_text(ws[0].as_slice()));
                        about = text::join_from(&ws, 1, " ");
                    }
                    first = false;
                    assert(cs.push(said@)[0] == said@);
                } else {
                    assert(cs.push(said@).drop_last() =~= cs);
                    assert(cs.push(said@)[0] == cs[0]);
                    let more = text::to_text(said);
                    if !about.as_str().is_empty() {
                        about.append(" ");
                        about.append(more.as_str());
                    } else {
                        about = more;
                    }
                }
            }
        } else {
            let more = text::to_text(row);
            let ghost cs = code(seen);
            proof {
                lemma_code_line(seen);
                assert(code(next) == cs.push(more@));
                assert(cs.push(more@).drop_last() =~= cs);
            }
            if !line.as_str().is_empty() {
                line.append(" ");
            }
            line.append(more.as_str());
            if text::text_bytes(line.as_str()) > 100 {
                assert(read_len(body, i as int + 1) == i + 1);
                assert(read_lines(content@) == next);
                match text::byte_prefix(line.as_str(), 97) {
                    Some(cut) => {
                        let mut shown = cut;
                        shown.append("...");
                        return Some((name, about, shown));
                    },
                    None => {
                        return None;
                    },
                }
            }
        }
        i = i + 1;
    }
    assert(body.take(body.len() as int) =~= body);
    Some((name, about, line))
}

/// Reads a script: its name, its description and a preview of its code.
pub fn parse_script_content(content: &str) -> (r: (Option<String>, String, String))
    requires
        preview_fits(content@),
    ensures
        text::opt_text(r.0) == identifier(comments(read_lines(content@))),
        r.1@ == description(comments(read_lines(content@))),
        r.2@ == preview(content@),
{
    try_parse_script_content(content).unwrap()
}

/// The lines of a script that count are those that are not blank, without the
/// blanks around them, in their order; its code is the lines that are no comments,
/// and its comments say what is behind the marks, where that is something.
pub proof fn law_lines_of_a_script(ls: Seq<Seq<char>>)
    ensures
        nonblank(ls) == ls.map_values(|l: Seq<char>| text::trim(l)).filter(
            |l: Seq<char>| l.len() > 0,
        ),
        code(ls) == ls.filter(|l: Seq<char>| l.len() == 0 || l[0] != '#'),
        comments(ls) == ls.filter(|l: Seq<char>| l.len() > 0 && l[0] == '#').map_values(
            |l: Seq<char>| text::trim(text::drop_leading(l, text::CharClass::Hash)),
        ).filter(|l: Seq<char>| l.len() > 0),
    decreases ls.len(),
{
    reveal(Seq::filter);
    let trimmed = |l: Seq<char>| text::trim(l);
    let full = |l: Seq<char>| l.len() > 0;
    let plain = |l: Seq<char>| l.len() == 0 || l[0] != '#';
    let marked = |l: Seq<char>| l.len() > 0 && l[0] == '#';
    let said = |l: Seq<char>| text::trim(text::drop_leading(l, text::CharClass::Hash));
    if ls.len() == 0 {
        assert(ls.map_values(trimmed).filter(full) =~= Seq::empty());
        assert(ls.filter(marked).map_values(said).filter(full) =~= Seq::empty());
        assert(ls.filter(plain) =~= Seq::empty());
    } else {
        law_lines_of_a_script(ls.drop_last());
        let line = ls.last();
        lemma_hash(line);
        assert(ls.map_values(trimmed).drop_last() =~= ls.drop_last().map_values(trimmed));
        assert(ls.map_values(trimmed).last() == text::trim(line));
        if marked(line) {
            let before = ls.drop_last().filter(marked);
            let after = ls.filter(marked);
            assert(after == before.push(line));
            assert(after.map_values(said).drop_last() =~= before.map_values(said));
            assert(after.map_values(said).last() == said(line));
        }
    }
}

proof fn lemma_hash(line: Seq<char>)
    ensures
        text::starts_with(line, "#"@) <==> line.len() > 0 && line[0] == '#',
{
    reveal_strlit("#");
    if line.len() > 0 {
        assert(line.subrange(0, 1)[0] == line[0]);
        if line[0] == '#' {
            assert(line.subrange(0, 1) =~= "#"@);
        }
    }
}

/// What is read of a script stands below the first line that names an interpreter.
pub proof fn law_script_is_below_its_interpreter(
    above: Seq<Seq<char>>,
    line: Seq<char>,
    below: Seq<Seq<char>>,
)
    requires
        line.len() >= 2 && line[0] == '#' && line[1] == '!',
        forall|i: int|
            0 <= i < above.len() ==> !((#[trigger] above[i]).len() >= 2 && above[i][0] == '#'
                && above[i][1] == '!'),
    ensures
        after_shebang(above.push(line) + below) == below,
        after_shebang(above).len() == 0,
{
    lemma_interpreter(line);
    lemma_shebang_count(above, line, below);
    let ls = above.push(line) + below;
    assert(ls.skip(above.len() as int + 1) =~= below);
}

proof fn lemma_interpreter(line: Seq<char>)
    ensures
        text::starts_with(line, "#!"@) <==> line.len() >= 2 && line[0] == '#' && line[1] == '!',
{
    reveal_strlit("#!");
    if line.len() >= 2 {
        assert(line.subrange(0, 2)[0] == line[0] && line.subrange(0, 2)[1] == line[1]);
        if line[0] == '#' && line[1] == '!' {
            assert(line.subrange(0, 2) =~= "#!"@);
        }
    }
}

proof fn lemma_shebang_count(above: Seq<Seq<char>>, line: Seq<char>, below: Seq<Seq<char>>)
    requires
        line.len() >= 2 && line[0] == '#' && line[1] == '!',
        forall|i: int|
            0 <= i < above.len() ==> !((#[trigger] above[i]).len() >= 2 && above[i][0] == '#'
                && above[i][1] == '!'),
    ensures
        shebang_at(above.push(line) + below) == above.len(),
        shebang_at(above) == above.len(),
    decreases above.len(),
{
    let ls = above.push(line) + below;
    if above.len() == 0 {
        lemma_interpreter(line);
        assert(ls[0] == line);
    } else {
        lemma_interpreter(above[0]);
        assert(ls[0] == above[0]);
        let rest = above.drop_first();
        assert(ls.drop_first() =~= rest.push(line) + below);
        assert forall|i: int| 0 <= i < rest.len() implies !((#[trigger] rest[i]).len() >= 2
            && rest[i][0] == '#' && rest[i][1] == '!') by {
            assert(rest[i] == above[i + 1]);
        }
        lemma_shebang_count(rest, line, below);
    }
}

/// A script is named by the first word of its first comment, and described by the
/// other words of it and by the other comments, in their order; one without
/// comments has neither.
pub proof fn law_first_comment_names_the_script(cs: Seq<Seq<char>>, more: Seq<char>)
    ensures
        cs.len() == 0 ==> identifier(cs) is None && description(cs).len() == 0,
        cs.len() > 0 && text::words(cs[0]).len() > 0 ==> identifier(cs) == Some(
            text::words(cs[0])[0],
        ) && identifier(cs.push(more)) == identifier(cs),
        cs.len() == 1 && text::words(cs[0]).len() > 0 ==> description(cs) == text::join(
            text::words(cs[0]).skip(1),
            " "@,
        ),
        cs.len() > 0 ==> description(cs.push(more)) == if description(cs).len() == 0 {
            more
        } else {
            description(cs) + " "@ + more
        },
{
    assert(cs.push(more).drop_last() =~= cs);
}

proof fn lemma_read_whole(body: Seq<Seq<char>>, k: int)
    requires
        0 <= k <= body.len(),
        forall|j: int| k <= j < body.len() ==> !overlong(#[trigger] body.take(j)),
    ensures
        read_len(body, k) == body.len(),
    decreases body.len() - k,
{
    if k < body.len() {
        assert(!overlong(body.take(k)));
        lemma_read_whole(body, k + 1);
    }
}

proof fn lemma_code_prefix(body: Seq<Seq<char>>, k: int)
    requires
        0 <= k <= body.len(),
    ensures
        code_line(body.take(k)).is_prefix_of(code_line(body)),
        text::byte_len(code_line(body.take(k))) <= text::byte_len(code_line(body)),
    decreases body.len() - k,
{
    if k == body.len() {
        assert(body.take(k) =~= body);
    } else {
        lemma_code_prefix(body, k + 1);
        let next = body.take(k + 1);
        let seen = body.take(k);
        assert(next.drop_last() =~= seen);
        let c = code(seen);
        if code(next) != c {
            assert(code(next) == c.push(next.last()));
            assert(c.push(next.last()).drop_last() =~= c);
            if c.len() == 0 {
                assert(code_line(seen).len() == 0);
            }
        }
        let a = code_line(seen);
        let b = code_line(next);
        let w = code_line(body);
        assert(a.is_prefix_of(b));
        assert(a =~= b.take(a.len() as int));
        assert(b =~= w.take(b.len() as int));
        assert(a =~= w.take(a.len() as int));
        lemma_prefix_bytes(a, w);
    }
}

proof fn lemma_prefix_bytes(a: Seq<char>, w: Seq<char>)
    requires
        a.len() <= w.len(),
        a == w.take(a.len() as int),
    ensures
        text::byte_len(a) <= text::byte_len(w),
{
    text::lemma_byte_len_prefix(w, a.len() as int, w.len() as int);
    assert(w.take(w.len() as int) =~= w);
}

proof fn lemma_read_len(body: Seq<Seq<char>>, k: int)
    requires
        0 <= k <= body.len(),
    ensures
        k <= read_len(body, k) <= body.len(),
        read_len(body, k) < body.len() ==> overlong(body.take(read_len(body, k))),
    decreases body.len() - k,
{
    if k < body.len() && !overlong(body.take(k)) {
        lemma_read_len(body, k + 1);
    }
}

/// The preview of a script is its code on one line where that has at most a hundred
/// bytes. Else it is the first ninety-seven bytes of it, and three dots.
pub proof fn law_preview_is_the_start_of_the_code(content: Seq<char>)
    requires
        preview_fits(content),
    ensures
        ({
            let all = text::join(code(script_body(content)), " "@);
            &&& text::byte_len(all) <= 100 ==> preview(content) == all && read_lines(content)
                == script_body(content)
            &&& text::byte_len(all) > 100 ==> exists|n: int|
                0 <= n <= all.len() && text::byte_len(all.take(n)) == 97 && preview(content)
                    == #[trigger] all.take(n) + "..."@
        }),
{
    let body = script_body(content);
    let all = code_line(body);
    let k = read_len(body, 0);
    lemma_read_len(body, 0);
    let read = body.take(k);
    lemma_code_prefix(body, k);
    if text::byte_len(all) <= 100 {
        assert forall|j: int| 0 <= j < body.len() implies !overlong(#[trigger] body.take(j)) by {
            lemma_code_prefix(body, j);
        }
        lemma_read_whole(body, 0);
        assert(body.take(body.len() as int) =~= body);
    } else {
        if k == body.len() {
            assert(read =~= body);
        }
        assert(overlong(read));
        let line = code_line(read);
        text::lemma_char_boundary(line, 97);
        let n = text::char_boundary(line, 97)->0 as int;
        assert(line =~= all.take(line.len() as int));
        assert(line.take(n) =~= all.take(n));
    }
}

/// The preview of a script can be made where its code on one line has at most a
/// hundred bytes, or is made of characters of one byte.
pub proof fn law_preview_can_be_made(content: Seq<char>)
    ensures
        ({
            let all = text::join(code(script_body(content)), " "@);
            &&& text::byte_len(all) <= 100 ==> preview_fits(content)
            &&& (forall|i: int| 0 <= i < all.len() ==> (#[trigger] all[i] as u32) < 128)
                ==> preview_fits(content)
        }),
{
    let body = script_body(content);
    let all = code_line(body);
    let k = read_len(body, 0);
    lemma_read_len(body, 0);
    lemma_code_prefix(body, k);
    let line = code_line(body.take(k));
    if forall|i: int| 0 <= i < all.len() ==> (#[trigger] all[i] as u32) < 128 {
        assert forall|i: int| 0 <= i < line.len() implies (#[trigger] line[i] as u32) < 128 by {
            assert(line[i] == all[i]);
        }
        lemma_short_bytes(line, line.len() as int);
        assert(line.take(line.len() as int) =~= line);
        if text::byte_len(line) > 100 {
            lemma_short_bytes(line, 97);
            text::lemma_char_boundary_at(line, 97, 97);
        }
    }
}

proof fn lemma_short_bytes(s: Seq<char>, n: int)
    requires
        forall|i: int| 0 <= i < s.len() ==> (#[trigger] s[i] as u32) < 128,
        0 <= n <= s.len(),
    ensures
        text::byte_len(s.take(n)) == n,
    decreases n,
{
    if n > 0 {
        lemma_short_bytes(s, n - 1);
        assert(s.take(n).drop_last() =~= s.take(n - 1));
        assert(s.take(n).last() == s[n - 1]);
    }
}

} // verus!
