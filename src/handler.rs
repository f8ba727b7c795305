use vstd::prelude::*;

use vstd::string::StringExecFns;

use crate::history::{lookup_spec, MessageRef, RenderHistory};
use crate::parser::{classify_message, classify_spec, MessageType};
use crate::render::{minimise_latex_error, minimised_spec, MathsRenderError};

verus! {

/// What to do about a message that was posted or edited.
#[derive(Debug, PartialEq, Eq, Structural, Clone, Copy)]
pub enum Reaction {
    /// Leave the message alone.
    Ignore,
    /// The message holds no maths: delete the earlier response, if any, and
    /// remove the bot's own reactions from the message.
    Retract { previous: Option<MessageRef> },
    /// The message holds maths: typeset its content.
    Render,
}

/// Decides what to do about message `source`, posted or edited by an author
/// who is or is not a bot, with text `content`. Forgets the response of a
/// message that no longer holds maths.
pub fn handle_message(
    history: &mut RenderHistory,
    source: MessageRef,
    author_is_bot: bool,
    content: &str,
) -> (r: Reaction)
    requires
        old(history).wf(),
    ensures
        final(history).wf(),
        author_is_bot ==> r == Reaction::Ignore && final(history)@ == old(history)@,
        !author_is_bot && classify_spec(content@) == MessageType::Plain ==> r == (Reaction::Retract {
            previous: lookup_spec(old(history)@, source),
        }) && final(history)@ == old(history)@.remove(source),
        !author_is_bot && classify_spec(content@) == MessageType::LaTeX ==> r == Reaction::Render
            && final(history)@ == old(history)@,
{
    if author_is_bot {
        return Reaction::Ignore;
    }
    match classify_message(content) {
        MessageType::Plain => {
            let previous = history.forget(source);
            Reaction::Retract { previous }
        },
        MessageType::LaTeX => Reaction::Render,
    }
}

/// The image for `source` was posted as `response`: records it and returns the
/// earlier response, which is now stale and is to be deleted, together with
/// the bot's own reactions on the source.
pub fn image_sent(history: &mut RenderHistory, source: MessageRef, response: MessageRef) -> (r:
    Option<MessageRef>)
    requires
        old(history).wf(),
    ensures
        final(history).wf(),
        final(history)@ == old(history)@.insert(source, response),
        r == lookup_spec(old(history)@, source),
{
    history.record(source, response)
}

/// The positions, in increasing order, of the reactions on a message that the
/// bot placed itself and is to remove: `placed_by_self[i]` tells whether it
/// placed reaction `i`. Reactions of other users are never chosen.
pub fn reactions_to_clear(placed_by_self: &Vec<bool>) -> (r: Vec<usize>)
    ensures
        forall|j: int, k: int| 0 <= j < k < r@.len() ==> r@[j] < r@[k],
        forall|j: int|
            0 <= j < r@.len() ==> r@[j] < placed_by_self@.len() && placed_by_self@[#[trigger] r@[j] as int],
        forall|i: int|
            0 <= i < placed_by_self@.len() && #[trigger] placed_by_self@[i] ==> r@.contains(
                i as usize,
            ),
{
    let mut r: Vec<usize> = Vec::new();
    let mut i: usize = 0;
    while i < placed_by_self.len()
        invariant
            i <= placed_by_self@.len(),
            forall|j: int, k: int| 0 <= j < k < r@.len() ==> r@[j] < r@[k],
            forall|j: int| 0 <= j < r@.len() ==> r@[j] < i,
            forall|j: int|
                0 <= j < r@.len() ==> r@[j] < placed_by_self@.len() && placed_by_self@[#[trigger] r@[j] as int],
            forall|m: int|
                0 <= m < i && #[trigger] placed_by_self@[m] ==> r@.contains(m as usize),
        decreases placed_by_self@.len() - i,
    {
        if placed_by_self[i] {
            let ghost before = r@;
            r.push(i);
            proof {
                assert(r@[before.len() as int] == i);
                assert forall|m: int|
                    0 <= m < i + 1 && #[trigger] placed_by_self@[m] implies r@.contains(m as usize) by {
                    if m < i {
                        let j = choose|j: int| 0 <= j < before.len() && before[j] == m as usize;
                        assert(r@[j] == m as usize);
                    }
                }
            }
        } else {
            proof {
                assert forall|m: int|
                    0 <= m < i + 1 && #[trigger] placed_by_self@[m] implies r@.contains(m as usize) by {
                    assert(m != i);
                }
            }
        }
        i = i + 1;
    }
    r
}

/// How the author is told that rendering failed.
#[derive(Debug)]
pub struct ErrorNotice {
    /// Reactions to put on the source message, in order.
    pub reactions: Vec<char>,
    /// The direct message to the author.
    pub message: String,
}

pub const WARNING: char = '\u{26a0}';

pub const ROBOT: char = '\u{1f916}';

pub const SKULL: char = '\u{2620}';

pub open spec fn latex_error_message(transcript: Seq<char>) -> Seq<char> {
    "\u{26a0} **An error occurred rendering your LaTeX** \u{26a0}\n\n```tex\n"@ + minimised_spec(
        transcript,
    ) + "\n```\nContact <@114301691804909569> for help \u{1f609}"@
}

pub open spec fn unexpected_error_message() -> Seq<char> {
    "\u{1f916}\u{2620} **An unexpected error occurred displaying your LaTeX** \u{2620}\u{1f916}\n\nThis may not be your fault \u{2013} Contact <@114301691804909569> for help \u{1f642}"@
}

/// The notice for a failed render: a typesetting error gets a warning
/// reaction and the transcript cut to its first error; any other failure gets
/// two reactions of its own and a generic apology that leaks nothing.
pub fn handle_error(e: &MathsRenderError) -> (r: ErrorNotice)
    ensures
        e is LatexError ==> r.reactions@ == seq![WARNING] && r.message@ == latex_error_message(
            e->LatexError_1@,
        ),
        !(e is LatexError) ==> r.reactions@ == seq![ROBOT, SKULL] && r.message@
            == unexpected_error_message(),
{
    match e {
        MathsRenderError::LatexError(_, output) => {
            let mut message = String::from_str(
                "\u{26a0} **An error occurred rendering your LaTeX** \u{26a0}\n\n```tex\n",
            );
            let minimised = minimise_latex_error(output.as_str());
            message.append(minimised.as_str());
            message.append("\n```\nContact <@114301691804909569> for help \u{1f609}");
            let mut reactions: Vec<char> = Vec::new();
            reactions.push(WARNING);
            assert(reactions@ =~= seq![WARNING]);
            ErrorNotice { reactions, message }
        },
        _ => {
            let message = String::from_str(
                "\u{1f916}\u{2620} **An unexpected error occurred displaying your LaTeX** \u{2620}\u{1f916}\n\nThis may not be your fault \u{2013} Contact <@114301691804909569> for help \u{1f642}",
            );
            let mut reactions: Vec<char> = Vec::new();
            reactions.push(ROBOT);
            reactions.push(SKULL);
            assert(reactions@ =~= seq![ROBOT, SKULL]);
            ErrorNotice { reactions, message }
        },
    }
}

/// An edit cycle on one source leaves one response at a time: rendering `r1`
/// then `r2` makes `r1` the stale response to delete and `r2` the recorded one,
/// and a later edit without maths hands back `r2` for deletion and leaves the
/// source with no response, whatever other sources hold.
pub proof fn lemma_edit_cycle(
    h: Map<MessageRef, MessageRef>,
    source: MessageRef,
    r1: MessageRef,
    r2: MessageRef,
)
    ensures
        ({
            let h1 = h.remove(source);
            let h2 = h1.insert(source, r1);
            let h3 = h2.insert(source, r2);
            let h4 = h3.remove(source);
            &&& lookup_spec(h1, source) == None::<MessageRef>
            &&& lookup_spec(h2, source) == Some(r1)
            &&& lookup_spec(h3, source) == Some(r2)
            &&& lookup_spec(h4, source) == None::<MessageRef>
            &&& h4 == h.remove(source)
        }),
{
    let h1 = h.remove(source);
    let h4 = h1.insert(source, r1).insert(source, r2).remove(source);
    assert(h4 =~= h.remove(source));
}

} // verus!
