//! The decisions of the interactive loop: what a token does in each state.

use crate::command::Command;
use crate::registry::{lookup, Entry, Registry};
use vstd::prelude::*;

verus! {

/// The state of the interactive loop.
#[derive(Clone, Copy, Debug, PartialEq, Eq, Structural)]
pub enum LoopState {
    /// The loop waits for the next token.
    AwaitingInput,
    /// The loop has ended.
    Terminated,
}

/// What the loop does with one token.
#[derive(Clone, Copy, Debug, PartialEq, Eq, Structural)]
pub enum Action {
    /// Run the command to its end, then read the next token.
    Run(Command),
    /// Leave the loop.
    Exit,
    /// Tell the user that the token names no command, then read the next.
    ReportUnknown,
    /// The loop has already ended: the token is not looked at.
    Nothing,
}

/// One step of the loop. A token that names the quit command ends the
/// loop; one that names another command runs it; one that names none is
/// reported. After the end nothing happens any more.
pub open spec fn step(entries: Seq<Entry>, state: LoopState, token: Seq<char>) -> (
    LoopState,
    Action,
) {
    match state {
        LoopState::Terminated => (LoopState::Terminated, Action::Nothing),
        LoopState::AwaitingInput => match lookup(entries, token) {
            Some(Command::Quit) => (LoopState::Terminated, Action::Exit),
            Some(command) => (LoopState::AwaitingInput, Action::Run(command)),
            None => (LoopState::AwaitingInput, Action::ReportUnknown),
        },
    }
}

/// The state after the loop has taken `tokens` one after the other from
/// `state`, and what it did with each.
pub open spec fn run(entries: Seq<Entry>, state: LoopState, tokens: Seq<Seq<char>>) -> (
    LoopState,
    Seq<Action>,
)
    decreases tokens.len(),
{
    if tokens.len() == 0 {
        (state, Seq::empty())
    } else {
        let before = run(entries, state, tokens.drop_last());
        let last = step(entries, before.0, tokens.last());
        (last.0, before.1.push(last.1))
    }
}

/// Decides what the loop does with `token` in `state`.
pub fn dispatch(registry: &Registry, state: LoopState, token: &str) -> (r: (LoopState, Action))
    ensures
        r == step(registry@, state, token@),
{
    match state {
        LoopState::Terminated => (LoopState::Terminated, Action::Nothing),
        LoopState::AwaitingInput => match registry.get(token) {
            Some(Command::Quit) => (LoopState::Terminated, Action::Exit),
            Some(command) => (LoopState::AwaitingInput, Action::Run(command)),
            None => (LoopState::AwaitingInput, Action::ReportUnknown),
        },
    }
}

/// Tokens that name no command run nothing and never end the loop: each is
/// reported, and the loop still waits for input.
pub proof fn lemma_unknown_tokens(entries: Seq<Entry>, tokens: Seq<Seq<char>>)
    requires
        forall|i: int| 0 <= i < tokens.len() ==> lookup(entries, #[trigger] tokens[i]) is None,
    ensures
        run(entries, LoopState::AwaitingInput, tokens).0 == LoopState::AwaitingInput,
        run(entries, LoopState::AwaitingInput, tokens).1.len() == tokens.len(),
        forall|i: int|
            0 <= i < tokens.len() ==> #[trigger] run(entries, LoopState::AwaitingInput, tokens).1[i]
                == Action::ReportUnknown,
    decreases tokens.len(),
{
    if tokens.len() > 0 {
        let front = tokens.drop_last();
        assert forall|i: int| 0 <= i < front.len() implies lookup(entries, #[trigger] front[i])
            is None by {
            assert(front[i] == tokens[i]);
        }
        lemma_unknown_tokens(entries, front);
        assert(lookup(entries, tokens[tokens.len() - 1]) is None);
    }
}

/// Once the loop has ended it stays ended, whatever tokens follow, and does
/// nothing with them.
pub proof fn lemma_terminated_stays(entries: Seq<Entry>, tokens: Seq<Seq<char>>)
    ensures
        run(entries, LoopState::Terminated, tokens).0 == LoopState::Terminated,
        run(entries, LoopState::Terminated, tokens).1.len() == tokens.len(),
        forall|i: int|
            0 <= i < tokens.len() ==> #[trigger] run(entries, LoopState::Terminated, tokens).1[i]
                == Action::Nothing,
    decreases tokens.len(),
{
    if tokens.len() > 0 {
        lemma_terminated_stays(entries, tokens.drop_last());
    }
}

/// The quit token ends the loop exactly once, however many other tokens
/// came before it or follow it. If `k` is the first position of `tokens`
/// that names the quit command, then the loop ends there: it leaves at
/// position `k` and at no other, every earlier token is run or reported,
/// and every later one is ignored.
pub proof fn lemma_quit_terminates_once(entries: Seq<Entry>, tokens: Seq<Seq<char>>, k: int)
    requires
        0 <= k < tokens.len(),
        lookup(entries, tokens[k]) == Some(Command::Quit),
        forall|i: int| 0 <= i < k ==> lookup(entries, #[trigger] tokens[i]) != Some(Command::Quit),
    ensures
        run(entries, LoopState::AwaitingInput, tokens).0 == LoopState::Terminated,
        run(entries, LoopState::AwaitingInput, tokens).1.len() == tokens.len(),
        forall|i: int|
            0 <= i < tokens.len() ==> (#[trigger] run(entries, LoopState::AwaitingInput, tokens).1[i]
                == Action::Exit <==> i == k),
        forall|i: int|
            0 <= i < k ==> #[trigger] run(entries, LoopState::AwaitingInput, tokens).1[i] == step(
                entries,
                LoopState::AwaitingInput,
                tokens[i],
            ).1,
        forall|i: int|
            k < i < tokens.len() ==> #[trigger] run(entries, LoopState::AwaitingInput, tokens).1[i]
                == Action::Nothing,
    decreases tokens.len(),
{
    let front = tokens.drop_last();
    let last = tokens.len() - 1;
    if k == last {
        lemma_before_quit(entries, front);
    } else {
        assert(front[k] == tokens[k]);
        assert forall|i: int| 0 <= i < k implies lookup(entries, #[trigger] front[i]) != Some(
            Command::Quit,
        ) by {
            assert(front[i] == tokens[i]);
        }
        lemma_quit_terminates_once(entries, front, k);
        assert forall|i: int| 0 <= i < k implies #[trigger] run(
            entries,
            LoopState::AwaitingInput,
            tokens,
        ).1[i] == step(entries, LoopState::AwaitingInput, tokens[i]).1 by {
            assert(front[i] == tokens[i]);
            assert(run(entries, LoopState::AwaitingInput, tokens).1[i] == run(
                entries,
                LoopState::AwaitingInput,
                front,
            ).1[i]);
        }
    }
}

/// While no token names the quit command the loop keeps waiting for input,
/// and each token is run or reported, never a reason to leave.
pub proof fn lemma_before_quit(entries: Seq<Entry>, tokens: Seq<Seq<char>>)
    requires
        forall|i: int|
            0 <= i < tokens.len() ==> lookup(entries, #[trigger] tokens[i]) != Some(Command::Quit),
    ensures
        run(entries, LoopState::AwaitingInput, tokens).0 == LoopState::AwaitingInput,
        run(entries, LoopState::AwaitingInput, tokens).1.len() == tokens.len(),
        forall|i: int|
            0 <= i < tokens.len() ==> #[trigger] run(entries, LoopState::AwaitingInput, tokens).1[i]
                == step(entries, LoopState::AwaitingInput, tokens[i]).1,
        forall|i: int|
            0 <= i < tokens.len() ==> #[trigger] run(entries, LoopState::AwaitingInput, tokens).1[i]
                != Action::Exit,
    decreases tokens.len(),
{
    if tokens.len() > 0 {
        let front = tokens.drop_last();
        assert forall|i: int| 0 <= i < front.len() implies lookup(entries, #[trigger] front[i])
            != Some(Command::Quit) by {
            assert(front[i] == tokens[i]);
        }
        lemma_before_quit(entries, front);
        assert(lookup(entries, tokens[tokens.len() - 1]) != Some(Command::Quit));
        assert forall|i: int| 0 <= i < tokens.len() implies #[trigger] run(
            entries,
            LoopState::AwaitingInput,
            tokens,
        ).1[i] == step(entries, LoopState::AwaitingInput, tokens[i]).1 by {
            if i < front.len() {
                assert(front[i] == tokens[i]);
            }
        }
    }
}

} // verus!
