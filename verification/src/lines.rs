//! Splitting raw tool output into lines.
//!
//! The porcelain format is line oriented; the byte `0x0a` terminates a line.
//! Splitting follows the usual convention: the result always holds one more
//! line than there are newline bytes, so empty input yields one empty line
//! and a trailing newline yields a trailing empty line.

use vstd::prelude::*;

verus! {

/// The line separator of the porcelain format.
pub const NEWLINE: u8 = 10;

/// The lines of `s`, split on the newline byte.
pub open spec fn spec_lines(s: Seq<u8>) -> Seq<Seq<u8>>
    decreases s.len(),
{
    if s.len() == 0 {
        seq![Seq::<u8>::empty()]
    } else if s.last() == NEWLINE {
        spec_lines(s.drop_last()).push(Seq::<u8>::empty())
    } else {
        let rest = spec_lines(s.drop_last());
        rest.update(rest.len() - 1, rest.last().push(s.last()))
    }
}

/// Splitting always yields at least one line.
pub proof fn lemma_spec_lines_nonempty(s: Seq<u8>)
    ensures
        spec_lines(s).len() >= 1,
    decreases s.len(),
{
    if s.len() != 0 {
        lemma_spec_lines_nonempty(s.drop_last());
    }
}

/// Splits `bytes` on the newline byte.
pub fn split_lines(bytes: &[u8]) -> (r: Vec<Vec<u8>>)
    ensures
        r@.map_values(|l: Vec<u8>| l@) == spec_lines(bytes@),
        r@.len() >= 1,
{
    let mut done: Vec<Vec<u8>> = Vec::new();
    let mut cur: Vec<u8> = Vec::new();
    let mut i: usize = 0;
    proof {
        assert(bytes@.subrange(0, 0) =~= Seq::<u8>::empty());
    }
    while i < bytes.len()
        invariant
            i <= bytes@.len(),
            done@.map_values(|l: Vec<u8>| l@).push(cur@) =~~= spec_lines(bytes@.subrange(0, i as int)),
        decreases bytes@.len() - i,
    {
        let ghost prefix = bytes@.subrange(0, i as int);
        let ghost old_done = done@;
        let ghost old_cur = cur@;
        let b = bytes[i];
        if b == NEWLINE {
            done.push(cur);
            cur = Vec::new();
        } else {
            cur.push(b);
        }
        i = i + 1;
        proof {
            let stepped = bytes@.subrange(0, i as int);
            assert(stepped.drop_last() =~= prefix);
            assert(stepped.last() == b);
            let rest = spec_lines(prefix);
            assert(rest == old_done.map_values(|l: Vec<u8>| l@).push(old_cur));
            if b == NEWLINE {
                assert(done@.map_values(|l: Vec<u8>| l@) =~~= old_done.map_values(
                    |l: Vec<u8>| l@,
                ).push(old_cur));
                assert(done@.map_values(|l: Vec<u8>| l@).push(cur@) =~~= spec_lines(stepped));
            } else {
                assert(rest.update(rest.len() - 1, rest.last().push(b)) =~~= old_done.map_values(
                    |l: Vec<u8>| l@,
                ).push(old_cur.push(b)));
                assert(done@.map_values(|l: Vec<u8>| l@).push(cur@) =~~= spec_lines(stepped));
            }
        }
    }
    proof {
        assert(bytes@.subrange(0, bytes@.len() as int) =~= bytes@);
    }
    done.push(cur);
    proof {
        assert(done@.map_values(|l: Vec<u8>| l@) =~~= spec_lines(bytes@));
    }
    done
}

} // verus!
