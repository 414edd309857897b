//! The hover capability: when to look attribution up, and what to answer.
//!
//! A hover triggers a blame lookup only at character offset zero — the
//! protocol has no dedicated gutter-hover event, so the start of the line
//! stands in for the gutter. The protocol's zero-based line becomes the
//! tool's one-based line by adding one. Every failure along the way — wrong
//! offset, no usable path, a failed process, unparsable output — collapses to
//! an empty answer, never to a protocol error.

use vstd::prelude::*;
use crate::Blame;
use crate::command::range_of;
use crate::numfmt::dec_str;
use crate::parse::{
    all_ascii,
    ascii_chars,
    lossy_decoded,
    parse_blame,
    spec_author,
    spec_hash,
    spec_summary,
};

verus! {

/// The one-based line to query for a hover at the given zero-based position,
/// or nothing when the position does not trigger a lookup. A line so large
/// that no one-based equivalent exists triggers none either.
pub open spec fn spec_plan(line: u32, character: u32) -> Option<u32> {
    if character == 0 && line < u32::MAX {
        Some((line + 1) as u32)
    } else {
        None
    }
}

/// Decides whether a hover position triggers a blame lookup, and for which
/// one-based line. Only a lookup this function asks for may spawn the
/// external process.
pub fn plan_hover(line: u32, character: u32) -> (r: Option<u32>)
    ensures
        r == spec_plan(line, character),
        r matches Some(l) ==> l >= 1,
{
    if character == 0 && line < u32::MAX {
        Some(line + 1)
    } else {
        None
    }
}

/// Trigger law: a hover anywhere but at character offset zero plans no
/// lookup, whatever the line, so no external process is ever spawned for it.
pub proof fn lemma_gutter_only(line: u32, character: u32)
    requires
        character != 0,
    ensures
        spec_plan(line, character) is None,
{
}

/// Line translation law: a gutter hover on zero-based protocol line `line`
/// queries the one-based line `line + 1`, and the range argument handed to
/// the tool holds exactly that line at both ends.
pub proof fn lemma_line_translation(line: u32)
    requires
        line < u32::MAX,
    ensures
        spec_plan(line, 0) == Some((line + 1) as u32),
        range_of((line + 1) as u32) == dec_str((line + 1) as nat) + seq![','] + dec_str(
            (line + 1) as nat,
        ),
{
}

/// The hover text for a record: commit id, author identifier and summary,
/// space-joined, with no further markup.
pub open spec fn spec_rendered(b: Blame) -> Seq<char> {
    b.hash@ + seq![' '] + b.author@ + seq![' '] + b.summary@
}

/// Renders a record as the single line of hover text.
pub fn render_hover(b: &Blame) -> (r: String)
    ensures
        r@ == spec_rendered(*b),
{
    let mut s = b.hash.clone();
    let space = " ";
    proof {
        reveal_strlit(" ");
        assert(space@ =~= seq![' ']);
    }
    s.append(space);
    s.append(b.author.as_str());
    s.append(space);
    s.append(b.summary.as_str());
    s
}

/// The hover text that raw tool output `out` yields: the rendering of its
/// record, or nothing when any of the three fields is missing.
pub open spec fn spec_hover_text(out: Seq<u8>) -> Option<Seq<char>> {
    if spec_hash(out) is Some && spec_author(out) is Some && spec_summary(out) is Some {
        Some(
            lossy_decoded(spec_hash(out)->Some_0) + seq![' '] + lossy_decoded(
                spec_author(out)->Some_0,
            ) + seq![' '] + lossy_decoded(spec_summary(out)->Some_0),
        )
    } else {
        None
    }
}

/// Turns the outcome of the external invocation into the hover answer.
///
/// `outcome` is the captured standard output on success and nothing when the
/// process could not be started, exited with a nonzero status, or was never
/// run for want of a usable path. Every failure yields the empty answer; a
/// parsable output yields exactly its rendered record — for plain ASCII
/// fields, character for character.
pub fn hover_response(outcome: Option<Vec<u8>>) -> (r: Option<String>)
    ensures
        r is Some <==> (outcome matches Some(out) && spec_hover_text(out@) is Some),
        r matches Some(s) ==> (outcome matches Some(out) && spec_hover_text(out@) == Some(s@)),
        (outcome is Some && spec_hash(outcome->Some_0@) is Some && spec_author(outcome->Some_0@)
            is Some && spec_summary(outcome->Some_0@) is Some && all_ascii(
            spec_hash(outcome->Some_0@)->Some_0,
        ) && all_ascii(spec_author(outcome->Some_0@)->Some_0) && all_ascii(
            spec_summary(outcome->Some_0@)->Some_0,
        )) ==> (r matches Some(s) && s@ == ascii_chars(spec_hash(outcome->Some_0@)->Some_0)
            + seq![' '] + ascii_chars(spec_author(outcome->Some_0@)->Some_0) + seq![' ']
            + ascii_chars(spec_summary(outcome->Some_0@)->Some_0)),
{
    match outcome {
        None => None,
        Some(out) => match parse_blame(out.as_slice()) {
            None => None,
            Some(b) => Some(render_hover(&b)),
        },
    }
}

/// Completeness law: output whose header line can hold a commit id and in
/// which both labels occur after it always yields hover text, and that text
/// opens with the decoded abbreviated commit id.
pub proof fn lemma_response_complete(out: Seq<u8>)
    requires
        spec_hash(out) is Some,
        spec_author(out) is Some,
        spec_summary(out) is Some,
    ensures
        spec_hover_text(out) matches Some(t) && t == lossy_decoded(spec_hash(out)->Some_0)
            + seq![' '] + lossy_decoded(spec_author(out)->Some_0) + seq![' '] + lossy_decoded(
            spec_summary(out)->Some_0,
        ),
{
}

/// Rejection law: when any of the three fields is missing from the output,
/// no hover text comes back, whichever other fields are present.
pub proof fn lemma_response_rejects_partial(out: Seq<u8>)
    requires
        spec_hash(out) is None || spec_author(out) is None || spec_summary(out) is None,
    ensures
        spec_hover_text(out) is None,
{
}

} // verus!
