//! The shell's history, newest command first.

use crate::text;
use vstd::prelude::*;
use vstd::string::*;

verus! {

/// How many commands of the history are kept.
pub const HISTORY_LIMIT: usize = 500;

/// The texts of `ls` without white space around them, last one first.
pub open spec fn newest_first(ls: Seq<Seq<char>>) -> Seq<Seq<char>> {
    Seq::new(ls.len(), |i: int| text::trim(ls[ls.len() - 1 - i]))
}

/// The first occurrences of the texts in `ls` that are not empty, up to the
/// limit.
pub open spec fn unique(ls: Seq<Seq<char>>) -> Seq<Seq<char>>
    decreases ls.len(),
{
    if ls.len() == 0 {
        Seq::empty()
    } else {
        let before = unique(ls.drop_last());
        let line = ls.last();
        if line.len() > 0 && before.len() < HISTORY_LIMIT && !before.contains(line) {
            before.push(line)
        } else {
            before
        }
    }
}

/// A command of the listing that the shell's own `history` prints, without its
/// number.
pub open spec fn unnumbered(line: Seq<char>) -> Seq<char> {
    if text::words(line).len() > 1 {
        text::join(text::words(line).skip(1), " "@)
    } else {
        line
    }
}

/// The commands of such a listing, last one first.
pub open spec fn listed_newest_first(ls: Seq<Seq<char>>) -> Seq<Seq<char>> {
    Seq::new(ls.len(), |i: int| unnumbered(ls[ls.len() - 1 - i]))
}

/// The history that a history file holds.
pub open spec fn file_history(content: Seq<char>) -> Seq<Seq<char>> {
    unique(newest_first(text::lines(content)))
}

/// The history that the shell's listing holds.
pub open spec fn listed_history(content: Seq<char>) -> Seq<Seq<char>> {
    unique(listed_newest_first(text::lines(content)))
}

/// Whether `list` holds `line`.
fn holds(list: &Vec<String>, line: &String) -> (r: bool)
    ensures
        r == text::texts(list@).contains(line@),
{
    let mut i: usize = 0;
    while i < list.len()
        invariant
            i <= list@.len(),
            forall|k: int| 0 <= k < i ==> #[trigger] text::texts(list@)[k] != line@,
        decreases list@.len() - i,
    {
        assert(text::texts(list@)[i as int] == list@[i as int]@);
        if list[i] == *line {
            return true;
        }
        i = i + 1;
    }
    false
}

/// Keeps the first occurrences, up to the limit.
fn keep_unique(rows: Vec<String>) -> (r: Vec<String>)
    ensures
        text::texts(r@) == unique(text::texts(rows@)),
{
    let mut out: Vec<String> = Vec::new();
    let mut i: usize = 0;
    let ghost ls = text::texts(rows@);
    assert(ls.take(0) =~= Seq::empty());
    assert(text::texts(out@) =~= Seq::empty());
    while i < rows.len()
        invariant
            i <= rows@.len(),
            ls == text::texts(rows@),
            text::texts(out@) == unique(ls.take(i as int)),
        decreases rows@.len() - i,
    {
        proof {
            assert(ls.take(i as int + 1).drop_last() =~= ls.take(i as int));
            assert(ls[i as int] == rows@[i as int]@);
        }
        if !rows[i].as_str().is_empty() && out.len() < HISTORY_LIMIT && !holds(&out, &rows[i]) {
            let ghost before = out@;
            out.push(rows[i].clone());
            assert(text::texts(out@) =~= text::texts(before).push(rows@[i as int]@));
        }
        i = i + 1;
    }
    assert(ls.take(ls.len() as int) =~= ls);
    out
}

/// The history that a history file holds: its commands, newest first, each
/// once.
pub fn read_history(content: &str) -> (r: Vec<String>)
    ensures
        text::texts(r@) == file_history(content@),
{
    let all = text::to_chars(content);
    let rows = text::split_lines(all.as_slice());
    let ghost ls = text::lines(content@);
    let mut turned: Vec<String> = Vec::new();
    let mut n: usize = rows.len();
    while n > 0
        invariant
            n <= rows@.len(),
            text::char_texts(rows@) == ls,
            text::texts(turned@) == newest_first(ls).take(ls.len() - n),
        decreases n,
    {
        n = n - 1;
        let t = text::to_text(text::trimmed(rows[n].as_slice()));
        let ghost before = turned@;
        turned.push(t);
        proof {
            assert(ls[n as int] == rows@[n as int]@);
            assert(text::texts(turned@) =~= text::texts(before).push(t@));
            assert(newest_first(ls).take(ls.len() - n) =~= newest_first(ls).take(
                ls.len() - n - 1,
            ).push(newest_first(ls)[ls.len() - n - 1]));
        }
    }
    assert(newest_first(ls).take(ls.len() as int) =~= newest_first(ls));
    keep_unique(turned)
}

/// The history that the shell's listing holds.
pub fn read_listing(content: &str) -> (r: Vec<String>)
    ensures
        text::texts(r@) == listed_history(content@),
{
    let all = text::to_chars(content);
    let rows = text::split_lines(all.as_slice());
    let ghost ls = text::lines(content@);
    let mut turned: Vec<String> = Vec::new();
    let mut n: usize = rows.len();
    while n > 0
        invariant
            n <= rows@.len(),
            text::char_texts(rows@) == ls,
            text::texts(turned@) == listed_newest_first(ls).take(ls.len() - n),
        decreases n,
    {
        n = n - 1;
        let ws = text::split_words(rows[n].as_slice());
        let t: String = if ws.len() > 1 {
            text::join_from(&ws, 1, " ")
        } else {
            text::to_text(rows[n].as_slice())
        };
        let ghost before = turned@;
        turned.push(t);
        proof {
            assert(ls[n as int] == rows@[n as int]@);
            assert(text::texts(turned@) =~= text::texts(before).push(t@));
            assert(listed_newest_first(ls).take(ls.len() - n) =~= listed_newest_first(ls).take(
                ls.len() - n - 1,
            ).push(listed_newest_first(ls)[ls.len() - n - 1]));
        }
    }
    assert(listed_newest_first(ls).take(ls.len() as int) =~= listed_newest_first(ls));
    keep_unique(turned)
}

/// A history holds no command twice, no empty one, and no more than the limit.
pub proof fn law_history_unique(ls: Seq<Seq<char>>)
    ensures
        unique(ls).len() <= HISTORY_LIMIT,
        unique(ls).no_duplicates(),
        forall|i: int|
            0 <= i < unique(ls).len() ==> (#[trigger] unique(ls)[i]).len() > 0 && ls.contains(
                unique(ls)[i],
            ),
    decreases ls.len(),
{
    if ls.len() > 0 {
        let front = ls.drop_last();
        let before = unique(front);
        law_history_unique(front);
        assert forall|i: int| 0 <= i < unique(ls).len() implies (#[trigger] unique(ls)[i]).len()
            > 0 && ls.contains(unique(ls)[i]) by {
            if i < before.len() {
                assert(unique(ls)[i] == before[i]);
                let k = choose|k: int| 0 <= k < front.len() && front[k] == before[i];
                assert(ls[k] == before[i]);
            } else {
                assert(ls[ls.len() - 1] == unique(ls)[i]);
            }
        }
        assert(unique(ls).no_duplicates()) by {
            if unique(ls).len() > before.len() {
                assert(unique(ls) == before.push(ls.last()));
                assert forall|i: int, j: int|
                    0 <= i < unique(ls).len() && 0 <= j < unique(ls).len() && i
                        != j implies unique(ls)[i] != unique(ls)[j] by {
                    if i < before.len() && j < before.len() {
                        assert(before[i] != before[j]);
                    } else if i < before.len() {
                        assert(before.contains(before[i]));
                    } else {
                        assert(before.contains(before[j]));
                    }
                }
            }
        }
    }
}

/// Below the limit, a history holds every command that is not empty.
pub proof fn law_history_complete(ls: Seq<Seq<char>>, i: int)
    requires
        0 <= i < ls.len(),
        ls[i].len() > 0,
        unique(ls).len() < HISTORY_LIMIT,
    ensures
        unique(ls).contains(ls[i]),
    decreases ls.len(),
{
    let front = ls.drop_last();
    let before = unique(front);
    if i == ls.len() - 1 {
        if !before.contains(ls[i]) {
            assert(unique(ls)[before.len() as int] == ls[i]);
        }
    } else {
        assert(front[i] == ls[i]);
        law_history_complete(front, i);
        let k = choose|k: int| 0 <= k < before.len() && before[k] == ls[i];
        assert(unique(ls)[k] == ls[i]);
    }
}

/// The newest command that is not empty comes first.
pub proof fn law_history_newest_first(ls: Seq<Seq<char>>, i: int)
    requires
        0 <= i < ls.len(),
        text::trim(ls[i]).len() > 0,
        forall|j: int| i < j < ls.len() ==> text::trim(#[trigger] ls[j]).len() == 0,
    ensures
        unique(newest_first(ls)).len() > 0,
        unique(newest_first(ls))[0] == text::trim(ls[i]),
{
    let r = newest_first(ls);
    let n = ls.len() - 1 - i;
    lemma_first_nonempty(r, n);
}

proof fn lemma_first_nonempty(r: Seq<Seq<char>>, n: int)
    requires
        0 <= n < r.len(),
        r[n].len() > 0,
        forall|j: int| 0 <= j < n ==> (#[trigger] r[j]).len() == 0,
    ensures
        unique(r).len() > 0,
        unique(r)[0] == r[n],
    decreases r.len(),
{
    let front = r.drop_last();
    if n == r.len() - 1 {
        lemma_all_empty(front);
    } else {
        assert forall|j: int| 0 <= j < n implies (#[trigger] front[j]).len() == 0 by {
            assert(front[j] == r[j]);
        }
        assert(front[n] == r[n]);
        lemma_first_nonempty(front, n);
    }
}

proof fn lemma_all_empty(r: Seq<Seq<char>>)
    requires
        forall|j: int| 0 <= j < r.len() ==> (#[trigger] r[j]).len() == 0,
    ensures
        unique(r).len() == 0,
    decreases r.len(),
{
    if r.len() > 0 {
        assert(r[r.len() - 1].len() == 0);
        let front = r.drop_last();
        assert forall|j: int| 0 <= j < front.len() implies (#[trigger] front[j]).len() == 0 by {
            assert(front[j] == r[j]);
        }
        lemma_all_empty(front);
    }
}

/// The first place in `ls` at which a text stands.
pub open spec fn is_first_place(ls: Seq<Seq<char>>, line: Seq<char>, i: int) -> bool {
    0 <= i < ls.len() && ls[i] == line && forall|j: int| 0 <= j < i ==> #[trigger] ls[j] != line
}

/// The commands of a history keep the order in which they first stand.
pub proof fn law_history_keeps_order(ls: Seq<Seq<char>>, i: int, j: int, p: int, q: int)
    requires
        0 <= i < j < unique(ls).len(),
        is_first_place(ls, unique(ls)[i], p),
        is_first_place(ls, unique(ls)[j], q),
    ensures
        p < q,
    decreases ls.len(),
{
    let front = ls.drop_last();
    let before = unique(front);
    law_history_unique(front);
    law_history_unique(ls);
    assert(unique(ls)[i] == before[i]);
    assert(front.contains(before[i]));
    let k = choose|k: int| 0 <= k < front.len() && front[k] == before[i];
    assert(ls[k] == before[i]);
    assert(p <= k);
    if j < before.len() {
        assert(front.contains(before[j]));
        let h = choose|h: int| 0 <= h < front.len() && front[h] == before[j];
        assert(ls[h] == before[j]);
        assert(q <= h);
        assert(is_first_place(front, before[i], p)) by {
            assert forall|n: int| 0 <= n < p implies #[trigger] front[n] != before[i] by {
                assert(front[n] == ls[n]);
            }
        }
        assert(is_first_place(front, before[j], q)) by {
            assert forall|n: int| 0 <= n < q implies #[trigger] front[n] != before[j] by {
                assert(front[n] == ls[n]);
            }
        }
        law_history_keeps_order(front, i, j, p, q);
    } else {
        if q < front.len() {
            assert(front[q] == ls[q]);
            lemma_in_front(front, q);
        }
    }
}

/// What stands in a list is in its history, unless it is empty or the limit is
/// reached.
proof fn lemma_in_front(ls: Seq<Seq<char>>, i: int)
    requires
        0 <= i < ls.len(),
        ls[i].len() > 0,
    ensures
        unique(ls).contains(ls[i]) || unique(ls).len() >= HISTORY_LIMIT,
{
    if unique(ls).len() < HISTORY_LIMIT {
        law_history_complete(ls, i);
    }
}

/// The history of a file is made of its lines, without the blanks around them: it
/// has no more than five hundred of them, none of them twice, and none that is
/// blank; all of them where they are fewer.
pub proof fn law_history_of_a_file(content: Seq<char>, i: int)
    ensures
        ({
            let ls = text::lines(content);
            let h = file_history(content);
            &&& h.len() <= 500
            &&& h.no_duplicates()
            &&& 0 <= i < h.len() ==> h[i].len() > 0 && exists|k: int|
                0 <= k < ls.len() && h[i] == text::trim(#[trigger] ls[k])
            &&& 0 <= i < ls.len() && text::trim(ls[i]).len() > 0 && h.len() < 500 ==> h.contains(
                text::trim(ls[i]),
            )
        }),
{
    let ls = text::lines(content);
    let turned = newest_first(ls);
    law_history_unique(turned);
    let h = file_history(content);
    if 0 <= i < h.len() {
        assert(turned.contains(h[i]));
        let k = choose|k: int| 0 <= k < turned.len() && turned[k] == h[i];
        assert(h[i] == text::trim(ls[ls.len() - 1 - k]));
    }
    if 0 <= i < ls.len() && text::trim(ls[i]).len() > 0 && h.len() < 500 {
        assert(turned[ls.len() - 1 - i] == text::trim(ls[i]));
        law_history_complete(turned, ls.len() - 1 - i);
    }
}

/// Of two commands in the history of a file, the one that was last used later comes
/// first.
pub proof fn law_later_commands_come_first(content: Seq<char>, i: int, j: int, p: int, q: int)
    requires
        0 <= i < j < file_history(content).len(),
        0 <= p < text::lines(content).len(),
        0 <= q < text::lines(content).len(),
        text::trim(text::lines(content)[p]) == file_history(content)[i],
        text::trim(text::lines(content)[q]) == file_history(content)[j],
        forall|k: int|
            p < k < text::lines(content).len() ==> text::trim(#[trigger] text::lines(content)[k])
                != file_history(content)[i],
        forall|k: int|
            q < k < text::lines(content).len() ==> text::trim(#[trigger] text::lines(content)[k])
                != file_history(content)[j],
    ensures
        q < p,
{
    let ls = text::lines(content);
    let turned = newest_first(ls);
    let h = file_history(content);
    assert(is_first_place(turned, h[i], ls.len() - 1 - p)) by {
        assert forall|n: int| 0 <= n < ls.len() - 1 - p implies #[trigger] turned[n] != h[i] by {
            assert(turned[n] == text::trim(ls[ls.len() - 1 - n]));
        }
    }
    assert(is_first_place(turned, h[j], ls.len() - 1 - q)) by {
        assert forall|n: int| 0 <= n < ls.len() - 1 - q implies #[trigger] turned[n] != h[j] by {
            assert(turned[n] == text::trim(ls[ls.len() - 1 - n]));
        }
    }
    law_history_keeps_order(turned, i, j, ls.len() - 1 - p, ls.len() - 1 - q);
}

/// A line of the shell's listing is a number and a command, whose words are kept;
/// the last line comes first.
pub proof fn law_listing_is_unnumbered(content: Seq<char>, i: int)
    ensures
        ({
            let ls = text::lines(content);
            let turned = listed_newest_first(ls);
            &&& listed_history(content) == unique(turned)
            &&& turned.len() == ls.len()
            &&& 0 <= i < ls.len() ==> ({
                let ws = text::words(ls[i]);
                turned[ls.len() - 1 - i] == if ws.len() > 1 {
                    text::join(ws.drop_first(), " "@)
                } else {
                    ls[i]
                }
            })
        }),
{
    let ls = text::lines(content);
    if 0 <= i < ls.len() {
        let ws = text::words(ls[i]);
        if ws.len() > 1 {
            assert(ws.skip(1) =~= ws.drop_first());
        }
    }
}

} // verus!
