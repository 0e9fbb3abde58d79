//! Text for the shell: quoting, commands for the editor, and file names.

use crate::text;
use vstd::prelude::*;
use vstd::string::*;

verus! {

/// `path` as it stands between the single quotes of a shell word.
pub open spec fn quoted_path(path: Seq<char>) -> Seq<char> {
    text::replace(path, "'"@, "'\\''"@)
}

/// `message` as it stands between the single quotes of a shell word.
pub open spec fn quoted_message(message: Seq<char>) -> Seq<char> {
    text::replace(message, "'"@, "'\"'\"'"@)
}

/// The command line that opens `path` in `editor`.
pub open spec fn editor_command(editor: Seq<char>, path: Seq<char>) -> Seq<char> {
    editor + " '"@ + quoted_path(path) + "'\r"@
}

/// The command line that shows `message`.
pub open spec fn echo_command(message: Seq<char>) -> Seq<char> {
    "echo '"@ + quoted_message(message) + "'\r"@
}

/// The command line that opens `path` in `editor`.
pub fn edit_line(editor: &str, path: &str) -> (r: String)
    ensures
        r@ == editor_command(editor@, path@),
{
    let quoted = text::replace_all(path, "'", "'\\''");
    let mut line = text::concat3(editor, " '", quoted.as_str());
    line.append("'\r");
    line
}

/// The command line that shows `message`.
pub fn echo_line(message: &str) -> (r: String)
    ensures
        r@ == echo_command(message@),
{
    let quoted = text::replace_all(message, "'", "'\"'\"'");
    text::concat3("echo '", quoted.as_str(), "'\r")
}

/// How a shell reads the next character of a word.
pub enum Quoting {
    Plain,
    Single,
    Double,
}

/// The word that a shell makes of `s`: quotes are dropped, a backslash keeps
/// the next character, and characters in quotes stand for themselves. None
/// where a quote is left open or something would be expanded.
pub open spec fn shell_word(s: Seq<char>, q: Quoting) -> Option<Seq<char>>
    decreases s.len(),
{
    if s.len() == 0 {
        if q is Plain {
            Some(Seq::empty())
        } else {
            None
        }
    } else {
        let c = s[0];
        let rest = s.drop_first();
        match q {
            Quoting::Plain => if c == '\'' {
                shell_word(rest, Quoting::Single)
            } else if c == '"' {
                shell_word(rest, Quoting::Double)
            } else if c == '\\' {
                if rest.len() == 0 {
                    None
                } else {
                    with_front(rest[0], shell_word(rest.drop_first(), Quoting::Plain))
                }
            } else {
                None
            },
            Quoting::Single => if c == '\'' {
                shell_word(rest, Quoting::Plain)
            } else {
                with_front(c, shell_word(rest, Quoting::Single))
            },
            Quoting::Double => if c == '"' {
                shell_word(rest, Quoting::Plain)
            } else if c == '$' || c == '`' || c == '\\' {
                None
            } else {
                with_front(c, shell_word(rest, Quoting::Double))
            },
        }
    }
}

/// A word with one more character before it.
pub open spec fn with_front(c: char, word: Option<Seq<char>>) -> Option<Seq<char>> {
    match word {
        Some(w) => Some(seq![c] + w),
        None => None,
    }
}

/// Replacing single quotes goes character by character.
proof fn lemma_replace_quote(s: Seq<char>, by: Seq<char>)
    ensures
        s.len() == 0 ==> text::replace(s, "'"@, by) == s,
        s.len() > 0 && s[0] == '\'' ==> text::replace(s, "'"@, by) == by + text::replace(
            s.drop_first(),
            "'"@,
            by,
        ),
        s.len() > 0 && s[0] != '\'' ==> text::replace(s, "'"@, by) == seq![s[0]] + text::replace(
            s.drop_first(),
            "'"@,
            by,
        ),
{
    reveal_strlit("'");
    let p = "'"@;
    assert(p =~= seq!['\'']);
    text::lemma_find_from(s, p, 0);
    if s.len() > 0 {
        let rest = s.drop_first();
        if s[0] == '\'' {
            assert(s.subrange(0, 1) =~= p);
            assert(text::occurs_at(s, p, 0));
            assert(s.skip(1) =~= rest);
            assert(s.take(0) =~= Seq::empty());
            assert(text::replace(s, p, by) =~= by + text::replace(rest, p, by));
        } else {
            text::lemma_find_from(rest, p, 0);
            assert(s.subrange(0, 1)[0] == s[0]);
            assert(!text::occurs_at(s, p, 0));
            assert forall|k: int| 0 <= k implies text::occurs_at(s, p, k + 1) == text::occurs_at(
                rest,
                p,
                k,
            ) by {
                if k + 2 <= s.len() {
                    assert(s.subrange(k + 1, k + 2) =~= rest.subrange(k, k + 1));
                }
            }
            match text::find(rest, p) {
                Some(j) => {
                    assert(text::occurs_at(s, p, j + 1));
                    let i = text::find(s, p)->0;
                    if i < j + 1 {
                        assert(text::occurs_at(rest, p, i - 1));
                    }
                    assert(i == j + 1);
                    assert(s.skip(i + 1) =~= rest.skip(j + 1));
                    assert(s.take(i) =~= seq![s[0]] + rest.take(j));
                    assert(text::replace(s, p, by) =~= seq![s[0]] + text::replace(rest, p, by));
                },
                None => {
                    if text::find(s, p) is Some {
                        let i = text::find(s, p)->0;
                        assert(text::occurs_at(rest, p, i - 1));
                    }
                    assert(text::replace(s, p, by) =~= seq![s[0]] + text::replace(rest, p, by));
                },
            }
        }
    } else {
        if text::find(s, p) is Some {
            assert(text::occurs_at(s, p, text::find(s, p)->0));
        }
    }
}

/// Escaped text followed by a closing quote reads back as the text.
proof fn lemma_escaped_reads_back(s: Seq<char>, by: Seq<char>)
    requires
        by == "'\\''"@ || by == "'\"'\"'"@,
    ensures
        shell_word(text::replace(s, "'"@, by) + "'"@, Quoting::Single) == Some(s),
    decreases s.len(),
{
    reveal_strlit("'");
    reveal_strlit("'\\''");
    reveal_strlit("'\"'\"'");
    lemma_replace_quote(s, by);
    let close = "'"@;
    assert(close =~= seq!['\'']);
    if s.len() == 0 {
        assert(s + close =~= close);
        assert(close.drop_first() =~= Seq::empty());
        reveal_with_fuel(shell_word, 2);
    } else {
        let rest = s.drop_first();
        lemma_escaped_reads_back(rest, by);
        let tail = text::replace(rest, "'"@, by) + close;
        let all = text::replace(s, "'"@, by) + close;
        assert(s =~= seq![s[0]] + rest);
        if s[0] == '\'' {
            assert(all =~= by + tail);
            let a1 = all.drop_first();
            let a2 = a1.drop_first();
            let a3 = a2.drop_first();
            assert(shell_word(all, Quoting::Single) == shell_word(a1, Quoting::Plain));
            if by == "'\\''"@ {
                assert(by =~= seq!['\'', '\\', '\'', '\'']);
                assert(a3 =~= seq!['\''] + tail);
                assert(a3.drop_first() =~= tail);
                assert(shell_word(a3, Quoting::Plain) == shell_word(tail, Quoting::Single));
                assert(shell_word(a1, Quoting::Plain) == with_front(
                    '\'',
                    shell_word(a3, Quoting::Plain),
                ));
            } else {
                assert(by =~= seq!['\'', '"', '\'', '"', '\'']);
                let a4 = a3.drop_first();
                assert(a4 =~= seq!['\''] + tail);
                assert(a4.drop_first() =~= tail);
                assert(shell_word(a1, Quoting::Plain) == shell_word(a2, Quoting::Double));
                assert(shell_word(a2, Quoting::Double) == with_front(
                    '\'',
                    shell_word(a3, Quoting::Double),
                ));
                assert(shell_word(a3, Quoting::Double) == shell_word(a4, Quoting::Plain));
                assert(shell_word(a4, Quoting::Plain) == shell_word(tail, Quoting::Single));
            }
        } else {
            assert(all =~= seq![s[0]] + tail);
            assert(all.drop_first() =~= tail);
        }
    }
}

/// A quoted path reaches the program as the path itself.
pub proof fn law_quoted_path_reads_back(path: Seq<char>)
    ensures
        shell_word("'"@ + quoted_path(path) + "'"@, Quoting::Plain) == Some(path),
{
    reveal_strlit("'");
    lemma_escaped_reads_back(path, "'\\''"@);
    let word = "'"@ + quoted_path(path) + "'"@;
    assert(word.drop_first() =~= quoted_path(path) + "'"@);
}

/// A quoted message is shown as the message itself.
pub proof fn law_quoted_message_reads_back(message: Seq<char>)
    ensures
        shell_word("'"@ + quoted_message(message) + "'"@, Quoting::Plain) == Some(message),
{
    reveal_strlit("'");
    lemma_escaped_reads_back(message, "'\"'\"'"@);
    let word = "'"@ + quoted_message(message) + "'"@;
    assert(word.drop_first() =~= quoted_message(message) + "'"@);
}

/// The line that opens a file in the editor has the editor first and one word
/// behind it, which a shell reads as the path; it ends with a return.
pub proof fn law_editor_opens_path(editor: Seq<char>, path: Seq<char>)
    ensures
        ({
            let word = "'"@ + quoted_path(path) + "'"@;
            &&& editor_command(editor, path) == editor + " "@ + word + "\r"@
            &&& shell_word(word, Quoting::Plain) == Some(path)
        }),
{
    law_quoted_path_reads_back(path);
    reveal_strlit(" '");
    reveal_strlit("'\r");
    reveal_strlit("'");
    reveal_strlit(" ");
    reveal_strlit("\r");
    let word = "'"@ + quoted_path(path) + "'"@;
    assert(editor_command(editor, path) =~= editor + " "@ + word + "\r"@);
}

/// The line that shows a message has one word behind `echo`, which a shell reads
/// as the message; it ends with a return.
pub proof fn law_echo_shows_message(message: Seq<char>)
    ensures
        ({
            let word = "'"@ + quoted_message(message) + "'"@;
            &&& echo_command(message) == "echo "@ + word + "\r"@
            &&& shell_word(word, Quoting::Plain) == Some(message)
        }),
{
    law_quoted_message_reads_back(message);
    reveal_strlit("echo '");
    reveal_strlit("echo ");
    reveal_strlit("'\r");
    reveal_strlit("'");
    reveal_strlit("\r");
    let word = "'"@ + quoted_message(message) + "'"@;
    assert(echo_command(message) =~= "echo "@ + word + "\r"@);
}

} // verus!
