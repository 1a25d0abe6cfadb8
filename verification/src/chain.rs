//! Two commands in a chain: what the first one prints becomes arguments of the second.
//!
//! The first command, the probe, names what the second is to act on, one name on a line.
//! The names are passed on as they are. If the probe names nothing, the second command
//! is not run at all.

use crate::command::{CommandSpec, CommandView};
use crate::decode::{decode, decoded, lemma_decoded_empty};
use crate::text::{
    lemma_lines, lemma_nonempty, lines_of, nonempty, nonempty_lines, nonempty_lines_of,
};
use vstd::prelude::*;

verus! {

/// The tokens in a probe's captured output: the nonempty lines of its text.
pub open spec fn tokens_of(stdout: Seq<u8>) -> Seq<Seq<char>> {
    nonempty_lines_of(decoded(stdout))
}

/// The command to run after a probe that gave `tokens`: none where there are no tokens,
/// and otherwise `follow_up` with the tokens after its own arguments.
pub open spec fn follow_up_of(follow_up: CommandView, tokens: Seq<Seq<char>>) -> Option<
    CommandView,
> {
    if tokens.len() == 0 {
        None
    } else {
        Some(follow_up.with_arguments(tokens))
    }
}

/// Every token holds at least one character and no line feed.
pub proof fn lemma_tokens(stdout: Seq<u8>)
    ensures
        forall|i: int|
            0 <= i < tokens_of(stdout).len() ==> (#[trigger] tokens_of(stdout)[i]).len() > 0,
        forall|i: int, j: int|
            0 <= i < tokens_of(stdout).len() && 0 <= j < tokens_of(stdout)[i].len()
                ==> #[trigger] tokens_of(stdout)[i][j] != '\n',
{
    let lines = lines_of(decoded(stdout));
    lemma_nonempty(lines);
    lemma_lines(decoded(stdout));
    assert forall|i: int, j: int|
        0 <= i < tokens_of(stdout).len() && 0 <= j < tokens_of(stdout)[i].len()
            implies #[trigger] tokens_of(stdout)[i][j] != '\n' by {
        let token = tokens_of(stdout)[i];
        assert(lines.contains(token));
        let k = choose|k: int| 0 <= k < lines.len() && lines[k] == token;
        assert(lines[k][j] != '\n');
    }
}

/// A text without characters has no nonempty line.
pub proof fn lemma_no_text_no_lines()
    ensures
        nonempty_lines_of(Seq::<char>::empty()) == Seq::<Seq<char>>::empty(),
{
    let none = Seq::<char>::empty();
    reveal_with_fuel(Seq::filter, 2);
    assert(lines_of(none) == seq![none]);
    assert(seq![none].drop_last() =~= Seq::<Seq<char>>::empty());
    assert(nonempty(seq![none]) =~= Seq::<Seq<char>>::empty());
}

/// A probe that printed nothing gives no tokens, and so no command to follow.
pub proof fn lemma_silent_probe(follow_up: CommandView)
    ensures
        tokens_of(Seq::<u8>::empty()) == Seq::<Seq<char>>::empty(),
        follow_up_of(follow_up, tokens_of(Seq::<u8>::empty())) is None,
{
    lemma_decoded_empty();
    lemma_no_text_no_lines();
}

/// The tokens in a probe's captured output.
pub fn orphan_tokens(stdout: &[u8]) -> (tokens: Vec<String>)
    ensures
        tokens.deep_view() == tokens_of(stdout@),
        stdout@.len() == 0 ==> tokens@.len() == 0,
{
    proof {
        if stdout@.len() == 0 {
            assert(stdout@ =~= Seq::<u8>::empty());
            lemma_silent_probe(CommandView { program: Seq::empty(), arguments: Seq::empty() });
        }
    }
    let text = decode(stdout);
    nonempty_lines(text.as_str())
}

/// The command to run after a probe that gave `tokens`, if any.
pub fn follow_up_command(follow_up: &CommandSpec, tokens: &Vec<String>) -> (next: Option<
    CommandSpec,
>)
    ensures
        next is None <==> tokens@.len() == 0,
        match next {
            Some(command) => Some(command@),
            None => None,
        } == follow_up_of(follow_up@, tokens.deep_view()),
{
    if tokens.len() == 0 {
        None
    } else {
        Some(follow_up.with_arguments(tokens))
    }
}

} // verus!
