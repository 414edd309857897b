use helis::hover::{hover_response, plan_hover, render_hover};
use helis::Blame;

/// A lookup stand-in that records whether it was invoked.
struct RecordingLookup {
    invoked: bool,
}

impl RecordingLookup {
    fn new() -> Self {
        RecordingLookup { invoked: false }
    }

    fn run(&mut self, _line: u32) -> Option<Vec<u8>> {
        self.invoked = true;
        None
    }
}

#[test]
fn gutter_hover_plans_a_lookup() {
    assert_eq!(plan_hover(0, 0), Some(1));
    assert_eq!(plan_hover(9, 0), Some(10));
    assert_eq!(plan_hover(122, 0), Some(123));
}

#[test]
fn nonzero_character_never_invokes_the_lookup() {
    let mut lookup = RecordingLookup::new();
    for line in [0u32, 1, 5, 999, u32::MAX] {
        for character in [1u32, 2, 5, 80, u32::MAX] {
            let response = match plan_hover(line, character) {
                Some(query_line) => hover_response(lookup.run(query_line)),
                None => None,
            };
            assert!(response.is_none());
        }
    }
    assert!(!lookup.invoked);
}

#[test]
fn line_without_one_based_equivalent_plans_no_lookup() {
    // The protocol line is zero-based; the largest one has no one-based
    // counterpart in the same width and so triggers nothing.
    assert_eq!(plan_hover(u32::MAX, 0), None);
    assert_eq!(plan_hover(u32::MAX - 1, 0), Some(u32::MAX));
}

#[test]
fn hover_at_character_five_is_empty() {
    let mut lookup = RecordingLookup::new();
    let response = match plan_hover(3, 5) {
        Some(query_line) => hover_response(lookup.run(query_line)),
        None => None,
    };
    assert!(response.is_none());
    assert!(!lookup.invoked);
}

#[test]
fn failed_process_yields_empty_response() {
    // A nonzero exit status, an unstartable tool and an unresolvable
    // document all reach the library as an absent outcome.
    assert!(hover_response(None).is_none());
}

#[test]
fn successful_lookup_renders_one_line() {
    let out = "abcdef1234567890 1 1 1\n\
author Jane Doe\n\
author-mail <jane@example.com>\n\
author-time 1610000000\n\
author-tz +0000\n\
summary Fix bug in parser\n";
    let response = hover_response(Some(out.as_bytes().to_vec()));
    assert_eq!(
        response.as_deref(),
        Some("abcdef1 <jane@example.com> Fix bug in parser")
    );
}

#[test]
fn unparsable_output_yields_empty_response() {
    let out = "not porcelain at all";
    assert!(hover_response(Some(out.as_bytes().to_vec())).is_none());
}

#[test]
fn render_joins_fields_with_single_spaces() {
    let blame = Blame {
        hash: String::from("1234abc"),
        author: String::from("<a@b.c>"),
        summary: String::from("do the thing"),
    };
    assert_eq!(render_hover(&blame), "1234abc <a@b.c> do the thing");
}
