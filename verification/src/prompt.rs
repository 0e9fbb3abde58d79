//! Prompts in a command: places that a value is asked for before it runs.

use crate::text;
use vstd::prelude::*;
use vstd::slice::*;
use vstd::string::*;

verus! {

/// Where the first prompt of `cmd` that opens with `mark` stands: the position
/// of its opening and that of its closing bracket. None where there is no
/// opening, or no closing behind the first.
pub open spec fn prompt_span(cmd: Seq<char>, mark: Seq<char>) -> Option<(int, int)> {
    match text::find(cmd, mark) {
        None => None,
        Some(start) => match text::find(cmd.skip(start), ">"@) {
            None => None,
            Some(n) => Some((start, start + n)),
        },
    }
}

/// `cmd` with the prompt at `span` replaced by `value`.
pub open spec fn prompt_filled(cmd: Seq<char>, span: (int, int), value: Seq<char>) -> Seq<char> {
    cmd.take(span.0) + value + cmd.skip(span.1 + 1)
}

/// The name that a prompt in a status bar command asks for.
pub open spec fn prompt_name(prompt: Seq<char>) -> Seq<char> {
    text::drop_trailing(text::drop_leading(prompt, text::CharClass::PromptTag), text::CharClass::PromptTag)
}

/// The shell command that asks for a value.
pub open spec fn ask_command(name: Seq<char>) -> Seq<char> {
    "read -p '"@ + name + ": ' val && echo $val"@
}

/// What stands before the first colon of `s`.
pub open spec fn before_colon(s: Seq<char>) -> Seq<char> {
    match text::find(s, ":"@) {
        Some(i) => s.take(i),
        None => s,
    }
}

/// What stands behind the first colon of `s`; nothing where there is none.
pub open spec fn behind_colon(s: Seq<char>) -> Seq<char> {
    match text::find(s, ":"@) {
        Some(i) => s.skip(i + 1),
        None => Seq::empty(),
    }
}

/// What a prompt in a bookmarked command holds between its brackets, behind
/// the mark.
pub open spec fn prompt_tag(cmd: Seq<char>, span: (int, int)) -> Seq<char> {
    cmd.subrange(span.0 + 8, span.1)
}

/// The label of such a prompt.
pub open spec fn prompt_label(tag: Seq<char>) -> Seq<char> {
    before_colon(tag)
}

/// The value that stands in for an empty answer to such a prompt.
pub open spec fn prompt_default(tag: Seq<char>) -> Seq<char> {
    before_colon(behind_colon(tag))
}

/// The value that an answer gives: the answer without white space around it,
/// or the default where that is empty.
pub open spec fn prompt_value(answer: Seq<char>, default: Seq<char>) -> Seq<char> {
    if text::trim(answer).len() == 0 {
        default
    } else {
        text::trim(answer)
    }
}

/// How often `c` stands in `s`.
pub open spec fn occurrences(s: Seq<char>, c: char) -> nat
    decreases s.len(),
{
    if s.len() == 0 {
        0
    } else {
        occurrences(s.drop_last(), c) + if s.last() == c {
            1nat
        } else {
            0
        }
    }
}

/// The first prompt that opens with `mark`.
fn locate(cmd: &[char], mark: &str) -> (r: Option<(usize, usize)>)
    requires
        mark@ == "<prompt"@ || mark@ == "<prompt:"@,
    ensures
        match r {
            Some((start, end)) => {
                &&& prompt_span(cmd@, mark@) == Some((start as int, end as int))
                &&& start + mark@.len() <= end < cmd@.len() <= usize::MAX
            },
            None => prompt_span(cmd@, mark@) is None,
        },
{
    let m = text::to_chars(mark);
    let close = text::to_chars(">");
    match text::position(cmd, m.as_slice()) {
        None => None,
        Some(start) => {
            let rest = slice_subrange(cmd, start, cmd.len());
            assert(rest@ =~= cmd@.skip(start as int));
            match text::position(rest, close.as_slice()) {
                None => None,
                Some(n) => {
                    proof {
                        lemma_prompt_span(cmd@, mark@);
                    }
                    Some((start, start + n))
                },
            }
        },
    }
}

/// A prompt's closing bracket stands behind its mark.
pub proof fn lemma_prompt_span(cmd: Seq<char>, mark: Seq<char>)
    requires
        mark == "<prompt"@ || mark == "<prompt:"@,
    ensures
        prompt_span(cmd, mark) matches Some(span) ==> {
            &&& 0 <= span.0
            &&& span.0 + mark.len() <= span.1 < cmd.len()
            &&& cmd[span.0] == '<'
            &&& cmd[span.1] == '>'
        },
{
    reveal_strlit("<prompt");
    reveal_strlit("<prompt:");
    reveal_strlit(">");
    text::lemma_find_from(cmd, mark, 0);
    if let Some(start) = text::find(cmd, mark) {
        let rest = cmd.skip(start);
        text::lemma_find_from(rest, ">"@, 0);
        if let Some(n) = text::find(rest, ">"@) {
            let at = cmd.subrange(start, start + mark.len());
            assert(at == mark);
            assert(rest.subrange(n, n + 1)[0] == '>');
            assert(rest[n] == '>');
            assert(cmd[start] == at[0]);
            if n < mark.len() {
                assert(rest[n] == at[n]);
                assert(mark[n] != '>');
            }
        }
    }
}

/// A value that a status bar command asks for.
pub struct PromptRequest {
    /// The name of the value.
    pub name: String,
    /// The shell command that asks for it.
    pub command: String,
}

/// Replaces the first prompt of `cmd` by `answer`, if one is given, and says
/// what is asked for next.
pub fn prompt_step(cmd: &mut String, answer: Option<&str>) -> (r: Option<PromptRequest>)
    ensures
        final(cmd)@ == prompt_answered(old(cmd)@, match answer {
            Some(a) => Some(a@),
            None => None,
        }),
        match r {
            Some(q) => {
                &&& next_prompt(final(cmd)@) == Some(q.name@)
                &&& q.command@ == ask_command(q.name@)
            },
            None => next_prompt(final(cmd)@) is None,
        },
{
    if let Some(value) = answer {
        let v = text::to_chars(cmd.as_str());
        if let Some((start, end)) = locate(v.as_slice(), "<prompt") {
            let head = text::to_text(slice_subrange(v.as_slice(), 0, start));
            let tail = text::to_text(slice_subrange(v.as_slice(), end + 1, v.len()));
            assert(head@ =~= v@.take(start as int));
            assert(tail@ =~= v@.skip(end as int + 1));
            *cmd = text::concat3(head.as_str(), value, tail.as_str());
        }
    }
    let v = text::to_chars(cmd.as_str());
    match locate(v.as_slice(), "<prompt") {
        None => None,
        Some((start, end)) => {
            let whole = slice_subrange(v.as_slice(), start, end + 1);
            let name = text::to_text(
                text::strip_trailing(text::strip_leading(whole, text::CharClass::PromptTag), text::CharClass::PromptTag),
            );
            let command = text::concat3("read -p '", name.as_str(), ": ' val && echo $val");
            Some(PromptRequest { name, command })
        },
    }
}

/// `cmd` with its first prompt replaced by the answer, if one is given.
pub open spec fn prompt_answered(cmd: Seq<char>, answer: Option<Seq<char>>) -> Seq<char> {
    match (answer, prompt_span(cmd, "<prompt"@)) {
        (Some(value), Some(span)) => prompt_filled(cmd, span, value),
        _ => cmd,
    }
}

/// The name of the value that `cmd` asks for next.
pub open spec fn next_prompt(cmd: Seq<char>) -> Option<Seq<char>> {
    match prompt_span(cmd, "<prompt"@) {
        Some(span) => Some(prompt_name(cmd.subrange(span.0, span.1 + 1))),
        None => None,
    }
}

/// A value that a bookmarked command asks for.
pub struct LabelledPrompt {
    pub label: String,
    pub default: String,
}

/// The value that a bookmarked command asks for next: its label and default.
pub open spec fn next_labelled(cmd: Seq<char>) -> Option<(Seq<char>, Seq<char>)> {
    match prompt_span(cmd, "<prompt:"@) {
        Some(span) => Some(
            (prompt_label(prompt_tag(cmd, span)), prompt_default(prompt_tag(cmd, span))),
        ),
        None => None,
    }
}

/// `cmd` with its first prompt replaced by what `answer` gives for it.
pub open spec fn labelled_answered(cmd: Seq<char>, answer: Seq<char>) -> Seq<char> {
    match prompt_span(cmd, "<prompt:"@) {
        Some(span) => prompt_filled(
            cmd,
            span,
            prompt_value(answer, prompt_default(prompt_tag(cmd, span))),
        ),
        None => cmd,
    }
}

/// What stands before and behind the first colon.
fn split_colon<'a>(s: &'a [char]) -> (r: (&'a [char], &'a [char]))
    ensures
        r.0@ == before_colon(s@),
        r.1@ == behind_colon(s@),
{
    let colon = text::to_chars(":");
    proof {
        reveal_strlit(":");
    }
    match text::position(s, colon.as_slice()) {
        Some(i) => {
            let head = slice_subrange(s, 0, i);
            let n = s.len();
            let tail = slice_subrange(s, i + 1, n);
            assert(head@ =~= s@.take(i as int));
            assert(tail@ =~= s@.skip(i as int + 1));
            (head, tail)
        },
        None => {
            let none = slice_subrange(s, s.len(), s.len());
            assert(none@ =~= Seq::empty());
            (s, none)
        },
    }
}

/// The value that a bookmarked command asks for next.
pub fn labelled_prompt(cmd: &str) -> (r: Option<LabelledPrompt>)
    ensures
        match r {
            Some(q) => next_labelled(cmd@) == Some((q.label@, q.default@)),
            None => next_labelled(cmd@) is None,
        },
{
    let v = text::to_chars(cmd);
    proof {
        reveal_strlit("<prompt:");
    }
    match locate(v.as_slice(), "<prompt:") {
        None => None,
        Some((start, end)) => {
            let tag = slice_subrange(v.as_slice(), start + 8, end);
            let (head, tail) = split_colon(tag);
            let (second, _rest) = split_colon(tail);
            Some(LabelledPrompt { label: text::to_text(head), default: text::to_text(second) })
        },
    }
}

/// The line that asks for a value.
pub fn question(prompt: &LabelledPrompt) -> (r: String)
    ensures
        r@ == prompt.label@ + ": (Default: "@ + prompt.default@ + ") "@,
{
    let mut line = text::concat3(prompt.label.as_str(), ": (Default: ", prompt.default.as_str());
    line.append(") ");
    line
}

/// Replaces the first prompt of a bookmarked command by what `answer` gives.
pub fn answer_labelled(cmd: &str, answer: &str) -> (r: String)
    ensures
        r@ == labelled_answered(cmd@, answer@),
{
    let v = text::to_chars(cmd);
    proof {
        reveal_strlit("<prompt:");
    }
    match locate(v.as_slice(), "<prompt:") {
        None => cmd.to_owned(),
        Some((start, end)) => {
            let tag = slice_subrange(v.as_slice(), start + 8, end);
            let (_head, tail) = split_colon(tag);
            let (second, _rest) = split_colon(tail);
            let given = text::trim_text(answer);
            let value: String = if given.as_str().is_empty() {
                text::to_text(second)
            } else {
                given
            };
            let front = text::to_text(slice_subrange(v.as_slice(), 0, start));
            let back = text::to_text(slice_subrange(v.as_slice(), end + 1, v.len()));
            assert(front@ =~= v@.take(start as int));
            assert(back@ =~= v@.skip(end as int + 1));
            text::concat3(front.as_str(), value.as_str(), back.as_str())
        },
    }
}

proof fn lemma_occurrences_concat(a: Seq<char>, b: Seq<char>, c: char)
    ensures
        occurrences(a + b, c) == occurrences(a, c) + occurrences(b, c),
    decreases b.len(),
{
    if b.len() == 0 {
        assert(a + b =~= a);
    } else {
        assert((a + b).drop_last() =~= a + b.drop_last());
        lemma_occurrences_concat(a, b.drop_last(), c);
    }
}

/// Filling a prompt with a value without an opening bracket leaves fewer
/// opening brackets, so that a command runs out of prompts.
pub proof fn law_filling_makes_progress(cmd: Seq<char>, mark: Seq<char>, value: Seq<char>)
    requires
        mark == "<prompt"@ || mark == "<prompt:"@,
        prompt_span(cmd, mark) is Some,
        occurrences(value, '<') == 0,
    ensures
        occurrences(prompt_filled(cmd, prompt_span(cmd, mark)->0, value), '<') < occurrences(
            cmd,
            '<',
        ),
{
    let span = prompt_span(cmd, mark)->0;
    lemma_prompt_span(cmd, mark);
    let head = cmd.take(span.0);
    let middle = cmd.subrange(span.0, span.1 + 1);
    let tail = cmd.skip(span.1 + 1);
    assert(cmd =~= head + middle + tail);
    lemma_occurrences_concat(head + middle, tail, '<');
    lemma_occurrences_concat(head, middle, '<');
    lemma_occurrences_concat(head + value, tail, '<');
    lemma_occurrences_concat(head, value, '<');
    assert(middle =~= seq!['<'] + middle.drop_first());
    lemma_occurrences_concat(seq!['<'], middle.drop_first(), '<');
    reveal_with_fuel(occurrences, 2);
    assert(seq!['<'].drop_last() =~= Seq::empty());
}

/// What stands outside a prompt is kept when it is filled.
pub proof fn law_filling_keeps_the_rest(cmd: Seq<char>, mark: Seq<char>, value: Seq<char>)
    requires
        mark == "<prompt"@ || mark == "<prompt:"@,
        prompt_span(cmd, mark) is Some,
    ensures
        ({
            let span = prompt_span(cmd, mark)->0;
            let filled = prompt_filled(cmd, span, value);
            &&& filled.take(span.0) == cmd.take(span.0)
            &&& filled.skip(span.0 + value.len()) == cmd.skip(span.1 + 1)
        }),
{
    let span = prompt_span(cmd, mark)->0;
    lemma_prompt_span(cmd, mark);
    let filled = prompt_filled(cmd, span, value);
    assert(filled.take(span.0) =~= cmd.take(span.0));
    assert(filled.skip(span.0 + value.len()) =~= cmd.skip(span.1 + 1));
}

/// `mark` first stands in `cmd` behind `before`.
pub open spec fn first_stands_behind(cmd: Seq<char>, mark: Seq<char>, before: Seq<char>) -> bool {
    forall|i: int|
        0 <= i < before.len() && i + mark.len() <= cmd.len() ==> #[trigger] cmd.subrange(
            i,
            i + mark.len(),
        ) != mark
}

proof fn lemma_find_behind(before: Seq<char>, p: Seq<char>, after: Seq<char>)
    requires
        first_stands_behind(before + p + after, p, before),
    ensures
        text::find(before + p + after, p) == Some(before.len() as int),
{
    let s = before + p + after;
    let n = before.len() as int;
    assert(s.subrange(n, n + p.len()) =~= p);
    assert(text::occurs_at(s, p, n));
    text::lemma_find_from(s, p, 0);
    let i = text::find(s, p)->0;
    if i < n {
        assert(s.subrange(i, i + p.len()) == p);
    }
}

proof fn lemma_find_char(before: Seq<char>, c: char, p: Seq<char>, after: Seq<char>)
    requires
        p == seq![c],
        !before.contains(c),
    ensures
        text::find(before + p + after, p) == Some(before.len() as int),
{
    let s = before + p + after;
    assert forall|i: int| 0 <= i < before.len() && i + p.len() <= s.len() implies #[trigger] s.subrange(
        i,
        i + p.len(),
    ) != p by {
        assert(s.subrange(i, i + 1)[0] == before[i]);
        assert(before.contains(before[i]));
    }
    lemma_find_behind(before, p, after);
}

proof fn lemma_no_char(s: Seq<char>, c: char, p: Seq<char>)
    requires
        p == seq![c],
        !s.contains(c),
    ensures
        text::find(s, p) is None,
{
    text::lemma_find_from(s, p, 0);
    if let Some(i) = text::find(s, p) {
        assert(s.subrange(i, i + 1)[0] == s[i]);
        assert(s.contains(s[i]));
    }
}

/// What stands between the brackets of a prompt behind the mark: its label, and
/// behind a colon its default, and what comes behind another colon, if there are.
pub open spec fn tag_of(label: Seq<char>, default: Option<Seq<char>>, more: Option<Seq<char>>) -> Seq<
    char,
> {
    label + (match default {
        Some(d) => ":"@ + d + (match more {
            Some(t) => ":"@ + t,
            None => Seq::empty(),
        }),
        None => Seq::empty(),
    })
}

proof fn lemma_tag_parts(label: Seq<char>, default: Option<Seq<char>>, more: Option<Seq<char>>)
    requires
        !label.contains(':'),
        default matches Some(d) ==> !d.contains(':'),
    ensures
        prompt_label(tag_of(label, default, more)) == label,
        prompt_default(tag_of(label, default, more)) == (match default {
            Some(d) => d,
            None => Seq::empty(),
        }),
{
    reveal_strlit(":");
    let colon = ":"@;
    assert(colon =~= seq![':']);
    let tag = tag_of(label, default, more);
    match default {
        None => {
            assert(tag =~= label);
            lemma_no_char(tag, ':', colon);
            assert(!Seq::<char>::empty().contains(':'));
            lemma_no_char(Seq::empty(), ':', colon);
        },
        Some(d) => {
            let rest = d + (match more {
                Some(t) => ":"@ + t,
                None => Seq::empty(),
            });
            assert(tag =~= label + colon + rest);
            lemma_find_char(label, ':', colon, rest);
            assert(tag.take(label.len() as int) =~= label);
            assert(tag.skip(label.len() as int + 1) =~= rest);
            match more {
                Some(t) => {
                    assert(rest =~= d + colon + t);
                    lemma_find_char(d, ':', colon, t);
                    assert(rest.take(d.len() as int) =~= d);
                },
                None => {
                    assert(rest =~= d);
                    lemma_no_char(d, ':', colon);
                },
            }
        },
    }
}

proof fn lemma_span_of(before: Seq<char>, mark: Seq<char>, tag: Seq<char>, after: Seq<char>)
    requires
        mark == "<prompt"@ || mark == "<prompt:"@,
        !tag.contains('>'),
        first_stands_behind(before + mark + tag + ">"@ + after, mark, before),
    ensures
        ({
            let cmd = before + mark + tag + ">"@ + after;
            let n = before.len() as int;
            let end = n + mark.len() + tag.len();
            &&& prompt_span(cmd, mark) == Some((n, end))
            &&& cmd.take(n) == before
            &&& cmd.skip(end + 1) == after
            &&& cmd.subrange(n + mark.len(), end) == tag
            &&& cmd.subrange(n, end + 1) == mark + tag + ">"@
        }),
{
    reveal_strlit("<prompt");
    reveal_strlit("<prompt:");
    reveal_strlit(">");
    let close = ">"@;
    assert(close =~= seq!['>']);
    let cmd = before + mark + tag + close + after;
    let n = before.len() as int;
    let end = n + mark.len() + tag.len();
    assert(cmd =~= before + mark + (tag + close + after));
    lemma_find_behind(before, mark, tag + close + after);
    let rest = cmd.skip(n);
    let inside = mark + tag;
    assert(rest =~= inside + close + after);
    assert(!inside.contains('>')) by {
        if inside.contains('>') {
            let k = choose|k: int| 0 <= k < inside.len() && inside[k] == '>';
            if k >= mark.len() {
                assert(tag[k - mark.len()] == '>');
            }
        }
    }
    lemma_find_char(inside, '>', close, after);
    assert(cmd.take(n) =~= before);
    assert(cmd.skip(end + 1) =~= after);
    assert(cmd.subrange(n + mark.len(), end) =~= tag);
    assert(cmd.subrange(n, end + 1) =~= mark + tag + close);
}

/// The answer to a prompt of a bookmarked command stands in its place, without the
/// blanks around it, whatever default the prompt has; the default stands there
/// where the answer is blank. What is before and behind the prompt stays.
pub proof fn law_answer_stands_in_its_prompt(
    before: Seq<char>,
    label: Seq<char>,
    default: Option<Seq<char>>,
    more: Option<Seq<char>>,
    after: Seq<char>,
    answer: Seq<char>,
)
    requires
        !label.contains(':'),
        default matches Some(d) ==> !d.contains(':'),
        !tag_of(label, default, more).contains('>'),
        first_stands_behind(
            before + "<prompt:"@ + tag_of(label, default, more) + ">"@ + after,
            "<prompt:"@,
            before,
        ),
    ensures
        ({
            let cmd = before + "<prompt:"@ + tag_of(label, default, more) + ">"@ + after;
            let stand_in = match default {
                Some(d) => d,
                None => Seq::empty(),
            };
            &&& next_labelled(cmd) == Some((label, stand_in))
            &&& text::trim(answer).len() > 0 ==> labelled_answered(cmd, answer) == before
                + text::trim(answer) + after
            &&& text::trim(answer).len() == 0 ==> labelled_answered(cmd, answer) == before
                + stand_in + after
        }),
{
    reveal_strlit("<prompt:");
    let tag = tag_of(label, default, more);
    lemma_tag_parts(label, default, more);
    lemma_span_of(before, "<prompt:"@, tag, after);
}

/// A bookmarked command without a prompt, or whose first prompt is not closed, is
/// left as it is, and asks for nothing.
pub proof fn law_no_prompt_no_answer(cmd: Seq<char>, answer: Seq<char>, start: int)
    requires
        0 <= start <= cmd.len(),
        forall|i: int|
            0 <= i < start && i + 8 <= cmd.len() ==> #[trigger] cmd.subrange(i, i + 8)
                != "<prompt:"@,
        !cmd.skip(start).contains('>') || start == cmd.len(),
    ensures
        labelled_answered(cmd, answer) == cmd,
        next_labelled(cmd) is None,
{
    reveal_strlit("<prompt:");
    reveal_strlit(">");
    text::lemma_find_from(cmd, "<prompt:"@, 0);
    if let Some(i) = text::find(cmd, "<prompt:"@) {
        assert(cmd.subrange(i, i + 8) == "<prompt:"@);
        assert(start <= i);
        let rest = cmd.skip(i);
        assert(!rest.contains('>')) by {
            if rest.contains('>') {
                let k = choose|k: int| 0 <= k < rest.len() && rest[k] == '>';
                assert(cmd.skip(start)[k + i - start] == '>');
            }
        }
        assert(">"@ =~= seq!['>']);
        lemma_no_char(rest, '>', ">"@);
    }
}

/// The answer to a prompt of a status bar's command stands in its place; without an
/// answer the command stays as it is. A name that neither begins nor ends with a
/// letter of the mark is asked for as it is.
pub proof fn law_bar_prompts_are_asked_and_filled(
    before: Seq<char>,
    tag: Seq<char>,
    after: Seq<char>,
    answer: Seq<char>,
)
    requires
        !tag.contains('>'),
        first_stands_behind(before + "<prompt"@ + tag + ">"@ + after, "<prompt"@, before),
    ensures
        ({
            let cmd = before + "<prompt"@ + tag + ">"@ + after;
            &&& prompt_answered(cmd, Some(answer)) == before + answer + after
            &&& prompt_answered(cmd, None) == cmd
            &&& next_prompt(cmd) is Some
            &&& forall|name: Seq<char>|
                tag == #[trigger] (":"@ + name) && name.len() > 0 && !text::in_class(
                    text::CharClass::PromptTag,
                    name[0],
                ) && !text::in_class(text::CharClass::PromptTag, name.last()) ==> next_prompt(cmd)
                    == Some(name)
        }),
{
    reveal_strlit("<prompt");
    reveal_strlit(">");
    reveal_strlit(":");
    let cmd = before + "<prompt"@ + tag + ">"@ + after;
    lemma_span_of(before, "<prompt"@, tag, after);
    assert forall|name: Seq<char>|
        tag == #[trigger] (":"@ + name) && name.len() > 0 && !text::in_class(
            text::CharClass::PromptTag,
            name[0],
        ) && !text::in_class(text::CharClass::PromptTag, name.last()) implies next_prompt(cmd)
        == Some(name) by {
        let whole = "<prompt"@ + tag + ">"@;
        let front = "<prompt"@ + ":"@;
        assert(whole =~= front + (name + ">"@));
        lemma_drop_front(front, name + ">"@);
        assert((name + ">"@).drop_last() =~= name);
        assert((name + ">"@).last() == '>');
        assert((name + ">"@)[0] == name[0]);
        reveal_with_fuel(text::drop_trailing, 3);
    }
}

proof fn lemma_drop_front(front: Seq<char>, rest: Seq<char>)
    requires
        forall|i: int|
            0 <= i < front.len() ==> text::in_class(text::CharClass::PromptTag, #[trigger] front[i]),
        rest.len() > 0,
        !text::in_class(text::CharClass::PromptTag, rest[0]),
    ensures
        text::drop_leading(front + rest, text::CharClass::PromptTag) == rest,
    decreases front.len(),
{
    if front.len() == 0 {
        assert(front + rest =~= rest);
    } else {
        assert((front + rest)[0] == front[0]);
        assert((front + rest).drop_first() =~= front.drop_first() + rest);
        lemma_drop_front(front.drop_first(), rest);
    }
}

/// The letters of the mark are those of `<prompt:>`, and the shell command that
/// asks for a value names it and prints the answer.
pub proof fn law_prompt_letters(c: char, name: Seq<char>)
    ensures
        text::in_class(text::CharClass::PromptTag, c) <==> "<prompt:>"@.contains(c),
        ask_command(name) == "read -p '"@ + name + ": ' val && echo $val"@,
{
    reveal_strlit("<prompt:>");
    let s = "<prompt:>"@;
    assert(s[0] == '<' && s[1] == 'p' && s[2] == 'r' && s[3] == 'o' && s[4] == 'm' && s[5] == 'p'
        && s[6] == 't' && s[7] == ':' && s[8] == '>');
}

} // verus!
