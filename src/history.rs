//! Which shell the history comes from, and how its raw text becomes entries.
use crate::filter::{has_substring, matches_query};
use vstd::prelude::*;
use vstd::std_specs::iter::IteratorSpec;

verus! {

/// The characters of `s`, in order.
fn chars_vec(s: &str) -> (r: Vec<char>)
    ensures
        r@ == s@,
{
    broadcast use vstd::string::axiom_spec_iter, vstd::string::next_postcondition;

    let mut it = s.chars();
    let mut out: Vec<char> = Vec::new();
    loop
        invariant
            out@ + it.remaining() == s@,
            it.decrease() is Some,
        ensures
            out@ == s@,
        decreases it.decrease()->0,
    {
        match it.next() {
            Some(c) => {
                out.push(c);
            },
            None => {
                assert(out@ =~= s@);
                break;
            },
        }
    }
    out
}


/// Relies on `String: FromIterator<&char>`: collecting characters gives the
/// string of exactly those characters, in order.
#[verifier::external_body]
fn string_from_chars(cs: &Vec<char>) -> (r: String)
    ensures
        r@ == cs@,
{
    cs.iter().collect::<String>()
}

/// What follows the last `sep` in `s`; all of `s` when it holds no `sep`.
pub open spec fn after_last(s: Seq<char>, sep: char) -> Seq<char>
    decreases s.len(),
{
    if s.len() == 0 {
        s
    } else if s.last() == sep {
        Seq::empty()
    } else {
        after_last(s.drop_last(), sep).push(s.last())
    }
}

/// The pieces of `s` between occurrences of `sep`, in order: one more piece
/// than there are separators, so empty text gives one empty piece and a
/// trailing separator gives an empty last piece.
pub open spec fn split_on(s: Seq<char>, sep: char) -> Seq<Seq<char>>
    decreases s.len(),
{
    if s.len() == 0 {
        seq![Seq::empty()]
    } else {
        let prev = split_on(s.drop_last(), sep);
        if s.last() == sep {
            prev.push(Seq::empty())
        } else {
            prev.update(prev.len() - 1, prev.last().push(s.last()))
        }
    }
}

/// `split_on` never yields an empty list of pieces.
proof fn lemma_split_on_nonempty(s: Seq<char>, sep: char)
    ensures
        split_on(s, sep).len() >= 1,
    decreases s.len(),
{
    if s.len() > 0 {
        lemma_split_on_nonempty(s.drop_last(), sep);
    }
}

/// The character that ends the `: <time>:<duration>;` prefix of a line in
/// zsh's extended history format.
pub open spec fn zsh_separator() -> char {
    ';'
}

/// What follows the last `;` in `cs`, or all of `cs` when it holds none.
fn command_of(cs: &Vec<char>) -> (r: Vec<char>)
    ensures
        r@ == after_last(cs@, zsh_separator()),
{
    let mut tail: Vec<char> = Vec::new();
    let mut k: usize = 0;
    while k < cs.len()
        invariant
            k <= cs@.len(),
            tail@ == after_last(cs@.subrange(0, k as int), zsh_separator()),
        decreases cs@.len() - k,
    {
        assert(cs@.subrange(0, k + 1).drop_last() =~= cs@.subrange(0, k as int));
        if cs[k] == ';' {
            tail = Vec::new();
            assert(tail@ =~= Seq::<char>::empty());
        } else {
            tail.push(cs[k]);
        }
        k = k + 1;
    }
    assert(cs@.subrange(0, cs@.len() as int) =~= cs@);
    tail
}

/// The command of one line of a zsh history file: the text after the last
/// `;`, which drops the `: <time>:<duration>;` prefix. A line without `;` is
/// kept whole.
pub fn zsh_entry(line: &str) -> (r: String)
    ensures
        r@ == after_last(line@, zsh_separator()),
{
    let cs = chars_vec(line);
    string_from_chars(&command_of(&cs))
}

/// The pieces of `cs` between newlines, each as its characters.
fn split_lines(cs: &Vec<char>) -> (r: Vec<Vec<char>>)
    ensures
        r@.len() == split_on(cs@, '\n').len(),
        forall|i: int| 0 <= i < r@.len() ==> #[trigger] r@[i]@ == split_on(cs@, '\n')[i],
{
    let mut done: Vec<Vec<char>> = Vec::new();
    let mut cur: Vec<char> = Vec::new();
    let mut k: usize = 0;
    while k < cs.len()
        invariant
            k <= cs@.len(),
            done@.len() + 1 == split_on(cs@.subrange(0, k as int), '\n').len(),
            forall|i: int|
                0 <= i < done@.len() ==> #[trigger] done@[i]@ == split_on(
                    cs@.subrange(0, k as int),
                    '\n',
                )[i],
            cur@ == split_on(cs@.subrange(0, k as int), '\n').last(),
        decreases cs@.len() - k,
    {
        proof {
            lemma_split_on_nonempty(cs@.subrange(0, k as int), '\n');
        }
        assert(cs@.subrange(0, k + 1).drop_last() =~= cs@.subrange(0, k as int));
        if cs[k] == '\n' {
            done.push(cur);
            cur = Vec::new();
            assert(cur@ =~= Seq::<char>::empty());
        } else {
            cur.push(cs[k]);
        }
        k = k + 1;
    }
    done.push(cur);
    assert(cs@.subrange(0, cs@.len() as int) =~= cs@);
    done
}

/// Entries of fish's `history` output: one per line, in the order given.
pub fn parse_fish_history(text: &str) -> (r: Vec<String>)
    ensures
        r@.len() == split_on(text@, '\n').len(),
        forall|i: int| 0 <= i < r@.len() ==> #[trigger] r@[i]@ == split_on(text@, '\n')[i],
{
    let cs = chars_vec(text);
    let lines = split_lines(&cs);
    let mut out: Vec<String> = Vec::new();
    let mut k: usize = 0;
    while k < lines.len()
        invariant
            k <= lines@.len(),
            cs@ == text@,
            lines@.len() == split_on(cs@, '\n').len(),
            forall|i: int| 0 <= i < lines@.len() ==> #[trigger] lines@[i]@ == split_on(cs@, '\n')[i],
            out@.len() == k,
            forall|i: int| 0 <= i < k ==> #[trigger] out@[i]@ == split_on(cs@, '\n')[i],
        decreases lines@.len() - k,
    {
        out.push(string_from_chars(&lines[k]));
        k = k + 1;
    }
    out
}

/// Entries of a zsh history file: the command of each line (see `zsh_entry`),
/// most recent first, so the last line of the file comes first.
pub fn parse_zsh_history(text: &str) -> (r: Vec<String>)
    ensures
        r@.len() == split_on(text@, '\n').len(),
        forall|i: int|
            0 <= i < r@.len() ==> #[trigger] r@[i]@ == after_last(
                split_on(text@, '\n')[r@.len() - 1 - i],
                zsh_separator(),
            ),
{
    let cs = chars_vec(text);
    let lines = split_lines(&cs);
    let n = lines.len();
    let mut out: Vec<String> = Vec::new();
    let mut k: usize = 0;
    while k < n
        invariant
            k <= n == lines@.len(),
            cs@ == text@,
            lines@.len() == split_on(cs@, '\n').len(),
            forall|i: int| 0 <= i < lines@.len() ==> #[trigger] lines@[i]@ == split_on(cs@, '\n')[i],
            out@.len() == k,
            forall|i: int|
                0 <= i < k ==> #[trigger] out@[i]@ == after_last(
                    split_on(cs@, '\n')[n - 1 - i],
                    zsh_separator(),
                ),
        decreases n - k,
    {
        out.push(string_from_chars(&command_of(&lines[n - 1 - k])));
        k = k + 1;
    }
    out
}


/// The shells whose history can be read.
#[derive(Clone, Copy, Debug, PartialEq, Eq, Structural)]
pub enum ShellKind {
    Fish,
    Zsh,
    /// Neither of the above: no history can be read.
    Unknown,
}

/// The shell named by a `SHELL` value: fish if the value holds `fish`, else
/// zsh if it holds `zsh`, else unknown.
pub fn shell_kind(shell: &str) -> (r: ShellKind)
    ensures
        r == if has_substring(shell@, seq!['f', 'i', 's', 'h']) {
            ShellKind::Fish
        } else if has_substring(shell@, seq!['z', 's', 'h']) {
            ShellKind::Zsh
        } else {
            ShellKind::Unknown
        },
{
    let fish = "fish";
    let zsh = "zsh";
    proof {
        reveal_strlit("fish");
        reveal_strlit("zsh");
        assert(fish@ =~= seq!['f', 'i', 's', 'h']);
        assert(zsh@ =~= seq!['z', 's', 'h']);
    }
    if matches_query(shell, fish) {
        ShellKind::Fish
    } else if matches_query(shell, zsh) {
        ShellKind::Zsh
    } else {
        ShellKind::Unknown
    }
}

} // verus!
