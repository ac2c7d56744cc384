use vstd::prelude::*;

verus! {

/// The two states of the footer region: showing the command buffer, or
/// showing a transient error message.
#[derive(Clone, Copy, Debug, PartialEq, Eq, Structural)]
pub enum FooterState {
    Command,
    Error,
}

/// The state the footer renders on a draw cycle: ERROR whenever an error
/// message is set at the start of the cycle, COMMAND otherwise.
pub open spec fn footer_state_of(error: Option<Seq<char>>) -> FooterState {
    match error {
        Some(_) => FooterState::Error,
        None => FooterState::Command,
    }
}

/// The text the footer shows: the error message when one is set, the
/// command buffer otherwise.
pub open spec fn footer_text_of(error: Option<Seq<char>>, command: Seq<char>) -> Seq<char> {
    match error {
        Some(message) => message,
        None => command,
    }
}

/// Whether the draw cycle must clear the error field once the frame has
/// been shown and held for the fixed display delay: exactly when an error
/// was rendered.
pub open spec fn clears_error(error: Option<Seq<char>>) -> bool {
    error is Some
}

/// The error field after a draw cycle: cleared when an error was
/// rendered, untouched otherwise.
pub open spec fn error_after_cycle(error: Option<Seq<char>>) -> Option<Seq<char>> {
    if error is Some {
        None
    } else {
        error
    }
}

/// Selects the footer state for this draw cycle from the error field.
pub fn select_footer(error: &Option<String>) -> (s: FooterState)
    ensures
        s == footer_state_of(error.deep_view()),
{
    match error {
        Some(_) => FooterState::Error,
        None => FooterState::Command,
    }
}

/// The text the footer shows this cycle: the error message when one is
/// set, else the command buffer.
pub fn footer_text(error: &Option<String>, command: &str) -> (t: String)
    ensures
        t@ == footer_text_of(error.deep_view(), command@),
{
    match error {
        Some(message) => message.clone(),
        None => command.to_owned(),
    }
}

/// Law: an error message set at the start of a cycle renders the footer
/// in the ERROR state on that cycle and marks the field for clearing; the
/// following cycle starts with the field cleared and renders the COMMAND
/// state.
pub proof fn lemma_error_shown_for_one_cycle(message: Seq<char>)
    ensures
        footer_state_of(Some(message)) is Error,
        clears_error(Some(message)),
        error_after_cycle(Some(message)) is None,
        footer_state_of(error_after_cycle(Some(message))) is Command,
{
}

} // verus!
