//! What one line typed at the prompt asks for.
use vstd::prelude::*;

verus! {

/// Whether `c` has the Unicode `White_Space` property, which `char::is_whitespace`
/// tests: U+0009 to U+000D, U+0020, U+0085, U+00A0, U+1680, U+2000 to U+200A,
/// U+2028, U+2029, U+202F, U+205F and U+3000.
pub open spec fn is_white_space(c: char) -> bool {
    let n = c as u32;
    ||| 0x9 <= n <= 0xd
    ||| n == 0x20
    ||| n == 0x85
    ||| n == 0xa0
    ||| n == 0x1680
    ||| 0x2000 <= n <= 0x200a
    ||| n == 0x2028
    ||| n == 0x2029
    ||| n == 0x202f
    ||| n == 0x205f
    ||| n == 0x3000
}

/// `s` without its leading whitespace.
pub open spec fn trim_start(s: Seq<char>) -> Seq<char>
    decreases s.len(),
{
    if s.len() > 0 && is_white_space(s[0]) {
        trim_start(s.drop_first())
    } else {
        s
    }
}

/// `s` without its trailing whitespace.
pub open spec fn trim_end(s: Seq<char>) -> Seq<char>
    decreases s.len(),
{
    if s.len() > 0 && is_white_space(s.last()) {
        trim_end(s.drop_last())
    } else {
        s
    }
}

/// `s` without its leading and trailing whitespace.
pub open spec fn trimmed(s: Seq<char>) -> Seq<char> {
    trim_end(trim_start(s))
}

/// Calls `str::trim`, which removes leading and trailing whitespace as
/// `char::is_whitespace` defines it.
#[verifier::external_body]
fn trim(s: &str) -> (res: &str)
    ensures
        res@ == trimmed(s@),
{
    s.trim()
}

/// What a line at the prompt asks for.
#[derive(Debug)]
pub enum Command {
    /// A blank line: prompt again.
    Skip,
    /// `/exit` or `/quit`: leave the loop.
    Quit,
    /// Anything else: a user turn with this text.
    Say(String),
}

/// The mathematical value of a `Command`.
pub enum CommandView {
    Skip,
    Quit,
    Say(Seq<char>),
}

impl View for Command {
    type V = CommandView;

    open spec fn view(&self) -> CommandView {
        match self {
            Command::Skip => CommandView::Skip,
            Command::Quit => CommandView::Quit,
            Command::Say(s) => CommandView::Say(s@),
        }
    }
}

/// What a line whose trimmed text is `t` asks for.
pub open spec fn command_of(t: Seq<char>) -> CommandView {
    if t.len() == 0 {
        CommandView::Skip
    } else if t == "/exit"@ || t == "/quit"@ {
        CommandView::Quit
    } else {
        CommandView::Say(t)
    }
}

/// Reads a line typed at the prompt: blank lines are skipped, `/exit` and
/// `/quit` leave, and any other text, trimmed, is a user turn.
pub fn parse_command(line: &str) -> (res: Command)
    ensures
        res@ == command_of(trimmed(line@)),
        res is Skip <==> trimmed(line@).len() == 0,
        res is Quit <==> (trimmed(line@) == "/exit"@ || trimmed(line@) == "/quit"@),
        res matches Command::Say(s) ==> s@ == trimmed(line@),
{
    proof {
        lemma_only_blank_lines_are_skipped(trimmed(line@));
    }
    let t = trim(line);
    if t.is_empty() {
        Command::Skip
    } else {
        let s = t.to_owned();
        if s == "/exit".to_owned() || s == "/quit".to_owned() {
            Command::Quit
        } else {
            Command::Say(s)
        }
    }
}

/// Only a blank line is skipped and only `/exit` or `/quit` leaves: every
/// other trimmed text, however short, is a user turn with exactly that text.
pub proof fn lemma_only_blank_lines_are_skipped(t: Seq<char>)
    ensures
        command_of(t) is Skip <==> t.len() == 0,
        command_of(t) is Quit <==> (t == "/exit"@ || t == "/quit"@),
        t.len() > 0 && t != "/exit"@ && t != "/quit"@ ==> command_of(t) == CommandView::Say(t),
{
    reveal_strlit("/exit");
    reveal_strlit("/quit");
    assert("/exit"@.len() > 0);
    assert("/quit"@.len() > 0);
}

/// Trimming only removes: the trimmed text is a contiguous run of the line;
/// everything before and after it is whitespace; and a non-empty trimmed text
/// neither begins nor ends with whitespace.
pub proof fn lemma_trimmed_is_inner_run(s: Seq<char>)
    ensures
        exists|i: int, j: int|
            0 <= i <= j <= s.len() && #[trigger] s.subrange(i, j) == trimmed(s) && (forall|k: int|
                0 <= k < i ==> is_white_space(#[trigger] s[k])) && (forall|k: int|
                j <= k < s.len() ==> is_white_space(#[trigger] s[k])),
        trimmed(s).len() > 0 ==> !is_white_space(trimmed(s)[0]) && !is_white_space(
            trimmed(s).last(),
        ),
{
    let i = lemma_trim_start_run(s);
    let t = trim_start(s);
    let j = lemma_trim_end_run(t);
    assert(s.subrange(i, i + j) =~= trim_end(t));
    assert forall|k: int| i + j <= k < s.len() implies is_white_space(#[trigger] s[k]) by {
        assert(s[k] == t[k - i]);
    }
    lemma_trim_start_front(s);
}

proof fn lemma_trim_start_run(s: Seq<char>) -> (i: int)
    ensures
        0 <= i <= s.len(),
        trim_start(s) == s.skip(i),
        forall|k: int| 0 <= k < i ==> is_white_space(#[trigger] s[k]),
    decreases s.len(),
{
    if s.len() > 0 && is_white_space(s[0]) {
        let i = lemma_trim_start_run(s.drop_first());
        assert(s.skip(i + 1) =~= s.drop_first().skip(i));
        assert forall|k: int| 0 <= k < i + 1 implies is_white_space(#[trigger] s[k]) by {
            if k > 0 {
                assert(s[k] == s.drop_first()[k - 1]);
            }
        }
        i + 1
    } else {
        assert(s.skip(0) =~= s);
        0
    }
}

proof fn lemma_trim_end_run(s: Seq<char>) -> (j: int)
    ensures
        0 <= j <= s.len(),
        trim_end(s) == s.take(j),
        forall|k: int| j <= k < s.len() ==> is_white_space(#[trigger] s[k]),
        j > 0 ==> !is_white_space(s[j - 1]),
    decreases s.len(),
{
    if s.len() > 0 && is_white_space(s.last()) {
        let j = lemma_trim_end_run(s.drop_last());
        assert(s.take(j) =~= s.drop_last().take(j));
        assert forall|k: int| j <= k < s.len() implies is_white_space(#[trigger] s[k]) by {
            if k < s.len() - 1 {
                assert(s[k] == s.drop_last()[k]);
            }
        }
        if j > 0 {
            assert(s[j - 1] == s.drop_last()[j - 1]);
        }
        j
    } else {
        assert(s.take(s.len() as int) =~= s);
        s.len() as int
    }
}

proof fn lemma_trim_start_front(s: Seq<char>)
    ensures
        trim_start(s).len() > 0 ==> !is_white_space(trim_start(s)[0]),
        trim_end(trim_start(s)).len() > 0 ==> !is_white_space(trim_end(trim_start(s))[0])
            && !is_white_space(trim_end(trim_start(s)).last()),
    decreases s.len(),
{
    if s.len() > 0 && is_white_space(s[0]) {
        lemma_trim_start_front(s.drop_first());
    }
    let t = trim_start(s);
    let j = lemma_trim_end_run(t);
    if j > 0 {
        assert(trim_end(t)[0] == t[0]);
        assert(trim_end(t).last() == t[j - 1]);
    }
}

} // verus!
