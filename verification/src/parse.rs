//! Extracting an attribution record from porcelain blame output.
//!
//! The first output line starts with the commit identifier; the record keeps
//! its first seven bytes, the abbreviated form. Among the following lines,
//! the one opening with `author-mail ` supplies the author identifier and the
//! one opening with `summary ` supplies the summary, in both cases as the
//! exact text after the fixed prefix. The first occurrence of each labelled
//! field wins. A record exists only when all three fields were found.

use vstd::prelude::*;
use crate::Blame;
use crate::lines::{spec_lines, lemma_spec_lines_nonempty, split_lines};

verus! {

/// How many bytes of the raw commit identifier the record keeps.
pub const HASH_LEN: usize = 7;

/// The label that introduces the author identifier, bytes of `"author-mail "`.
pub open spec fn author_prefix() -> Seq<u8> {
    seq![
        'a' as u8,
        'u' as u8,
        't' as u8,
        'h' as u8,
        'o' as u8,
        'r' as u8,
        '-' as u8,
        'm' as u8,
        'a' as u8,
        'i' as u8,
        'l' as u8,
        ' ' as u8,
    ]
}

/// The label that introduces the summary, bytes of `"summary "`.
pub open spec fn summary_prefix() -> Seq<u8> {
    seq!['s' as u8, 'u' as u8, 'm' as u8, 'm' as u8, 'a' as u8, 'r' as u8, 'y' as u8, ' ' as u8]
}

/// Whether `line` opens with `prefix`.
pub open spec fn has_prefix(line: Seq<u8>, prefix: Seq<u8>) -> bool {
    line.len() >= prefix.len() && line.subrange(0, prefix.len() as int) == prefix
}

/// The text after `prefix` on the first line of `lines` that opens with it.
pub open spec fn first_with_prefix(lines: Seq<Seq<u8>>, prefix: Seq<u8>) -> Option<Seq<u8>>
    decreases lines.len(),
{
    if lines.len() == 0 {
        None
    } else if has_prefix(lines[0], prefix) {
        Some(lines[0].skip(prefix.len() as int))
    } else {
        first_with_prefix(lines.drop_first(), prefix)
    }
}

/// Scanning one more line changes nothing once a match was found, and
/// otherwise decides by the new line alone.
pub proof fn lemma_first_with_prefix_push(lines: Seq<Seq<u8>>, prefix: Seq<u8>, x: Seq<u8>)
    ensures
        first_with_prefix(lines, prefix) is Some ==> first_with_prefix(lines.push(x), prefix)
            == first_with_prefix(lines, prefix),
        first_with_prefix(lines, prefix) is None && has_prefix(x, prefix)
            ==> first_with_prefix(lines.push(x), prefix) == Some(x.skip(prefix.len() as int)),
        first_with_prefix(lines, prefix) is None && !has_prefix(x, prefix)
            ==> first_with_prefix(lines.push(x), prefix) is None,
    decreases lines.len(),
{
    if lines.len() == 0 {
        assert(lines.push(x)[0] == x);
        assert(lines.push(x).drop_first() =~~= Seq::<Seq<u8>>::empty());
    } else {
        assert(lines.push(x)[0] == lines[0]);
        assert(lines.push(x).drop_first() =~~= lines.drop_first().push(x));
        lemma_first_with_prefix_push(lines.drop_first(), prefix, x);
    }
}

/// When `i` indexes the first line that opens with `prefix`, the scan yields
/// exactly the text of that line after the prefix.
pub proof fn lemma_first_with_prefix_at(lines: Seq<Seq<u8>>, prefix: Seq<u8>, i: int)
    requires
        0 <= i < lines.len(),
        has_prefix(lines[i], prefix),
        forall|k: int| 0 <= k < i ==> !has_prefix(lines[k], prefix),
    ensures
        first_with_prefix(lines, prefix) == Some(lines[i].skip(prefix.len() as int)),
    decreases i,
{
    if i > 0 {
        lemma_first_with_prefix_at(lines.drop_first(), prefix, i - 1);
    }
}

/// When no line opens with `prefix`, the scan yields nothing.
pub proof fn lemma_first_with_prefix_none(lines: Seq<Seq<u8>>, prefix: Seq<u8>)
    requires
        forall|k: int| 0 <= k < lines.len() ==> !has_prefix(lines[k], prefix),
    ensures
        first_with_prefix(lines, prefix) is None,
    decreases lines.len(),
{
    if lines.len() > 0 {
        lemma_first_with_prefix_none(lines.drop_first(), prefix);
    }
}

/// Field extraction law: when the header line can hold a commit id and lines
/// `i` and `j` are the first past it to open with the author and summary
/// labels, the parsed raw fields are exactly the first seven header bytes
/// and the text of those two lines after their fixed-width prefixes.
pub proof fn lemma_fields_exact(out: Seq<u8>, i: int, j: int)
    requires
        spec_lines(out)[0].len() >= HASH_LEN,
        1 <= i < spec_lines(out).len(),
        has_prefix(spec_lines(out)[i], author_prefix()),
        forall|k: int| 1 <= k < i ==> !has_prefix(spec_lines(out)[k], author_prefix()),
        1 <= j < spec_lines(out).len(),
        has_prefix(spec_lines(out)[j], summary_prefix()),
        forall|k: int| 1 <= k < j ==> !has_prefix(spec_lines(out)[k], summary_prefix()),
    ensures
        spec_hash(out) == Some(spec_lines(out)[0].subrange(0, HASH_LEN as int)),
        spec_author(out) == Some(spec_lines(out)[i].skip(author_prefix().len() as int)),
        spec_summary(out) == Some(spec_lines(out)[j].skip(summary_prefix().len() as int)),
{
    lemma_spec_lines_nonempty(out);
    let rest = spec_lines(out).drop_first();
    assert forall|k: int| 0 <= k < rest.len() implies rest[k] == spec_lines(out)[k + 1] by {}
    lemma_first_with_prefix_at(rest, author_prefix(), i - 1);
    lemma_first_with_prefix_at(rest, summary_prefix(), j - 1);
}

/// Rejection law: when no line past the header opens with one of the two
/// labels, or the header line is too short for a commit id, the
/// corresponding field is missing — and with it the whole record.
pub proof fn lemma_missing_marker(out: Seq<u8>)
    ensures
        (forall|k: int|
            1 <= k < spec_lines(out).len() ==> !has_prefix(spec_lines(out)[k], author_prefix()))
            ==> spec_author(out) is None,
        (forall|k: int|
            1 <= k < spec_lines(out).len() ==> !has_prefix(spec_lines(out)[k], summary_prefix()))
            ==> spec_summary(out) is None,
        spec_lines(out)[0].len() < HASH_LEN ==> spec_hash(out) is None,
{
    lemma_spec_lines_nonempty(out);
    let rest = spec_lines(out).drop_first();
    assert forall|k: int| 0 <= k < rest.len() implies rest[k] == spec_lines(out)[k + 1] by {}
    if forall|k: int|
        1 <= k < spec_lines(out).len() ==> !has_prefix(spec_lines(out)[k], author_prefix()) {
        lemma_first_with_prefix_none(rest, author_prefix());
    }
    if forall|k: int|
        1 <= k < spec_lines(out).len() ==> !has_prefix(spec_lines(out)[k], summary_prefix()) {
        lemma_first_with_prefix_none(rest, summary_prefix());
    }
}

/// The raw bytes of the abbreviated commit identifier, when the first output
/// line is long enough to hold one.
pub open spec fn spec_hash(out: Seq<u8>) -> Option<Seq<u8>> {
    if spec_lines(out)[0].len() >= HASH_LEN {
        Some(spec_lines(out)[0].subrange(0, HASH_LEN as int))
    } else {
        None
    }
}

/// The raw bytes of the author identifier: the text after `author-mail ` on
/// the first such line past the header line.
pub open spec fn spec_author(out: Seq<u8>) -> Option<Seq<u8>> {
    first_with_prefix(spec_lines(out).drop_first(), author_prefix())
}

/// The raw bytes of the summary: the text after `summary ` on the first such
/// line past the header line.
pub open spec fn spec_summary(out: Seq<u8>) -> Option<Seq<u8>> {
    first_with_prefix(spec_lines(out).drop_first(), summary_prefix())
}

/// Whether every byte is plain ASCII.
pub open spec fn all_ascii(bytes: Seq<u8>) -> bool {
    forall|i: int| 0 <= i < bytes.len() ==> bytes[i] < 128
}

/// The characters that plain ASCII bytes read as.
pub open spec fn ascii_chars(bytes: Seq<u8>) -> Seq<char> {
    bytes.map_values(|b: u8| b as char)
}

/// What a byte sequence reads as once invalid encoding is replaced by the
/// substitution character. The decoding depends on the bytes alone.
pub uninterp spec fn lossy_decoded(bytes: Seq<u8>) -> Seq<char>;

/// Relies on `String::from_utf8_lossy`: it decodes the bytes, substituting
/// for invalid sequences rather than failing, and leaves valid text — in
/// particular plain ASCII — unchanged.
#[verifier::external_body]
fn lossy_string(bytes: &[u8]) -> (r: String)
    ensures
        r@ == lossy_decoded(bytes@),
        all_ascii(bytes@) ==> r@ =~= ascii_chars(bytes@),
{
    String::from_utf8_lossy(bytes).into_owned()
}

/// The bytes `v[from..to]` as a fresh vector.
fn copy_range(v: &[u8], from: usize, to: usize) -> (r: Vec<u8>)
    requires
        from <= to <= v@.len(),
    ensures
        r@ == v@.subrange(from as int, to as int),
{
    let mut r: Vec<u8> = Vec::new();
    let mut i: usize = from;
    while i < to
        invariant
            from <= i <= to <= v@.len(),
            r@ =~= v@.subrange(from as int, i as int),
        decreases to - i,
    {
        r.push(v[i]);
        proof {
            assert(r@ =~= v@.subrange(from as int, i as int).push(v@[i as int]));
            assert(v@.subrange(from as int, i + 1 as int) =~= v@.subrange(
                from as int,
                i as int,
            ).push(v@[i as int]));
        }
        i = i + 1;
    }
    r
}

/// Whether `line` opens with the bytes of `prefix`.
fn starts_with(line: &[u8], prefix: &[u8]) -> (r: bool)
    ensures
        r == has_prefix(line@, prefix@),
{
    if line.len() < prefix.len() {
        return false;
    }
    let mut i: usize = 0;
    while i < prefix.len()
        invariant
            i <= prefix@.len() <= line@.len(),
            forall|k: int| 0 <= k < i ==> line@[k] == prefix@[k],
        decreases prefix@.len() - i,
    {
        if line[i] != prefix[i] {
            proof {
                assert(line@.subrange(0, prefix@.len() as int)[i as int] != prefix@[i as int]);
            }
            return false;
        }
        i = i + 1;
    }
    proof {
        assert(line@.subrange(0, prefix@.len() as int) =~= prefix@);
    }
    true
}

/// The bytes of `author_prefix()`.
fn author_prefix_bytes() -> (r: Vec<u8>)
    ensures
        r@ == author_prefix(),
{
    let r: Vec<u8> = vec![
        'a' as u8,
        'u' as u8,
        't' as u8,
        'h' as u8,
        'o' as u8,
        'r' as u8,
        '-' as u8,
        'm' as u8,
        'a' as u8,
        'i' as u8,
        'l' as u8,
        ' ' as u8,
    ];
    proof {
        assert(r@ =~= author_prefix());
    }
    r
}

/// The bytes of `summary_prefix()`.
fn summary_prefix_bytes() -> (r: Vec<u8>)
    ensures
        r@ == summary_prefix(),
{
    let r: Vec<u8> = vec![
        's' as u8,
        'u' as u8,
        'm' as u8,
        'm' as u8,
        'a' as u8,
        'r' as u8,
        'y' as u8,
        ' ' as u8,
    ];
    proof {
        assert(r@ =~= summary_prefix());
    }
    r
}

/// Parses porcelain blame output into an attribution record.
///
/// A record comes back exactly when the header line holds at least seven
/// bytes and both labelled fields occur after it; each field is the decoded
/// text of the corresponding raw bytes — for plain ASCII bytes, those very
/// characters. Otherwise the parse yields nothing — partial records are
/// never produced.
pub fn parse_blame(out: &[u8]) -> (r: Option<Blame>)
    ensures
        r is Some <==> (spec_hash(out@) is Some && spec_author(out@) is Some && spec_summary(out@)
            is Some),
        r matches Some(b) ==> b.hash@ == lossy_decoded(spec_hash(out@)->Some_0)
            && b.author@ == lossy_decoded(spec_author(out@)->Some_0)
            && b.summary@ == lossy_decoded(spec_summary(out@)->Some_0),
        r matches Some(b) ==> (all_ascii(spec_hash(out@)->Some_0) ==> b.hash@ == ascii_chars(
            spec_hash(out@)->Some_0,
        )) && (all_ascii(spec_author(out@)->Some_0) ==> b.author@ == ascii_chars(
            spec_author(out@)->Some_0,
        )) && (all_ascii(spec_summary(out@)->Some_0) ==> b.summary@ == ascii_chars(
            spec_summary(out@)->Some_0,
        )),
{
    let lines = split_lines(out);
    let ghost all = spec_lines(out@);
    proof {
        lemma_spec_lines_nonempty(out@);
        assert(lines@.map_values(|l: Vec<u8>| l@).len() == all.len());
        assert(lines@.map_values(|l: Vec<u8>| l@)[0] == all[0]);
    }
    let first = &lines[0];
    let hash: Option<String> = if first.len() >= HASH_LEN {
        let raw = copy_range(first.as_slice(), 0, HASH_LEN);
        Some(lossy_string(raw.as_slice()))
    } else {
        None
    };
    let author_label = author_prefix_bytes();
    let summary_label = summary_prefix_bytes();
    let mut author: Option<String> = None;
    let mut summary: Option<String> = None;
    let mut i: usize = 1;
    proof {
        assert(all.subrange(1, 1) =~~= Seq::<Seq<u8>>::empty());
    }
    while i < lines.len()
        invariant
            1 <= i <= lines@.len(),
            lines@.map_values(|l: Vec<u8>| l@) == all,
            all.len() >= 1,
            author_label@ == author_prefix(),
            summary_label@ == summary_prefix(),
            (match author {
                Some(s) => first_with_prefix(all.subrange(1, i as int), author_prefix())
                    matches Some(raw) && s@ == lossy_decoded(raw) && (all_ascii(raw)
                    ==> s@ == ascii_chars(raw)),
                None => first_with_prefix(all.subrange(1, i as int), author_prefix()) is None,
            }),
            (match summary {
                Some(s) => first_with_prefix(all.subrange(1, i as int), summary_prefix())
                    matches Some(raw) && s@ == lossy_decoded(raw) && (all_ascii(raw)
                    ==> s@ == ascii_chars(raw)),
                None => first_with_prefix(all.subrange(1, i as int), summary_prefix()) is None,
            }),
        decreases lines@.len() - i,
    {
        let ghost scanned = all.subrange(1, i as int);
        let line = &lines[i];
        proof {
            assert(line@ == all[i as int]);
            assert(all.subrange(1, i + 1 as int) =~~= scanned.push(all[i as int]));
            lemma_first_with_prefix_push(scanned, author_prefix(), line@);
            lemma_first_with_prefix_push(scanned, summary_prefix(), line@);
        }
        if author.is_none() && starts_with(line.as_slice(), author_label.as_slice()) {
            let raw = copy_range(line.as_slice(), author_label.len(), line.len());
            proof {
                assert(raw@ =~= line@.skip(author_prefix().len() as int));
            }
            author = Some(lossy_string(raw.as_slice()));
        }
        if summary.is_none() && starts_with(line.as_slice(), summary_label.as_slice()) {
            let raw = copy_range(line.as_slice(), summary_label.len(), line.len());
            proof {
                assert(raw@ =~= line@.skip(summary_prefix().len() as int));
            }
            summary = Some(lossy_string(raw.as_slice()));
        }
        i = i + 1;
    }
    proof {
        assert(all.subrange(1, all.len() as int) =~~= all.drop_first());
    }
    match (hash, author, summary) {
        (Some(hash), Some(author), Some(summary)) => Some(Blame { hash, author, summary }),
        _ => None,
    }
}

} // verus!
