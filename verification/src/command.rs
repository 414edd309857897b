//! Building the version-control query for one file and one line.
//!
//! The tool is invoked as `git blame -p -L <line>,<line> <file-name>` with
//! the working directory set to the file's containing directory, so that the
//! tool can locate the repository root and resolve the bare file name
//! relative to it.

use vstd::prelude::*;
use crate::numfmt::{dec_str, u32_to_string};

verus! {

/// The index of the last `/` in `p`, or `-1` when there is none.
pub open spec fn last_slash_idx(p: Seq<char>) -> int
    decreases p.len(),
{
    if p.len() == 0 {
        -1
    } else if p.last() == '/' {
        p.len() - 1
    } else {
        last_slash_idx(p.drop_last())
    }
}

/// The last slash is where it says: a slash stands there and none after it.
pub proof fn lemma_last_slash_idx(p: Seq<char>)
    ensures
        last_slash_idx(p) >= 0 ==> -1 <= last_slash_idx(p) < p.len() && p[last_slash_idx(p)] == '/'
            && (forall|j: int| last_slash_idx(p) < j < p.len() ==> p[j] != '/'),
        last_slash_idx(p) < 0 ==> last_slash_idx(p) == -1 && (forall|j: int|
            0 <= j < p.len() ==> p[j] != '/'),
    decreases p.len(),
{
    if p.len() > 0 && p.last() != '/' {
        lemma_last_slash_idx(p.drop_last());
        assert forall|j: int| last_slash_idx(p) < j < p.len() implies p[j] != '/' by {
            if j < p.len() - 1 {
                assert(p.drop_last()[j] != '/');
            }
        }
    }
}

/// The bare file-name component of `p`: what follows the last slash.
pub open spec fn spec_file_name(p: Seq<char>) -> Seq<char> {
    p.subrange(last_slash_idx(p) + 1, p.len() as int)
}

/// The containing-directory component of `p`: what precedes the last slash,
/// or the root directory when the last slash is the leading one.
pub open spec fn spec_dir(p: Seq<char>) -> Seq<char> {
    if last_slash_idx(p) == 0 {
        seq!['/']
    } else {
        p.subrange(0, last_slash_idx(p))
    }
}

/// Whether `p` ends in a usable file name: the text after the last slash is
/// neither empty nor the parent-directory marker `..`.
pub open spec fn has_file_name(p: Seq<char>) -> bool {
    spec_file_name(p).len() > 0 && spec_file_name(p) != seq!['.', '.']
}

/// Splits an absolute path into its containing directory and its bare file
/// name, or yields nothing when the path has no file-name component.
pub fn split_path(path: &str) -> (r: Option<(String, String)>)
    requires
        path@.len() >= 1,
        path@[0] == '/',
    ensures
        r is Some <==> has_file_name(path@),
        r matches Some((dir, file)) ==> dir@ == spec_dir(path@) && file@ == spec_file_name(path@),
{
    let n = path.unicode_len();
    let mut i: usize = n;
    proof {
        lemma_last_slash_idx(path@);
    }
    while i > 0 && path.get_char(i - 1) != '/'
        invariant
            0 <= i <= n == path@.len(),
            path@[0] == '/',
            forall|j: int| i <= j < n ==> path@[j] != '/',
        decreases i,
    {
        i = i - 1;
    }
    proof {
        assert(i >= 1);
        assert(path@[i - 1] == '/');
        assert(last_slash_idx(path@) == i - 1) by {
            let k = last_slash_idx(path@);
            assert(k >= 0);
            if k < i - 1 {
                assert(path@[i - 1] != '/');
            }
            if k > i - 1 {
                assert(path@[k] != '/');
            }
        }
    }
    let file = path.substring_char(i, n);
    if file.unicode_len() == 0 {
        return None;
    }
    if file.unicode_len() == 2 && file.get_char(0) == '.' && file.get_char(1) == '.' {
        proof {
            assert(file@ =~= seq!['.', '.']);
        }
        return None;
    }
    proof {
        assert(file@ != seq!['.', '.']) by {
            if file@ =~= seq!['.', '.'] {
                assert(file@.len() == 2 && file@[0] == '.' && file@[1] == '.');
            }
        }
    }
    let dir = if i == 1 {
        let root = "/";
        proof {
            reveal_strlit("/");
            assert(root@ =~= spec_dir(path@));
        }
        root.to_owned()
    } else {
        let d = path.substring_char(0, i - 1);
        d.to_owned()
    };
    Some((dir, file.to_owned()))
}

/// The single-line range argument `<line>,<line>` handed to the tool: the
/// query line stands at both ends of the range.
pub open spec fn range_of(line: u32) -> Seq<char> {
    dec_str(line as nat) + seq![','] + dec_str(line as nat)
}

/// Renders the range argument for `line`.
pub fn range_arg(line: u32) -> (r: String)
    ensures
        r@ == range_of(line),
{
    let mut s = u32_to_string(line);
    let comma = ",";
    proof {
        reveal_strlit(",");
        assert(comma@ =~= seq![',']);
    }
    s.append(comma);
    let again = u32_to_string(line);
    s.append(again.as_str());
    s
}

/// The full argument list of the blame invocation for one file and one
/// one-based line: porcelain output, restricted to exactly that line.
pub fn blame_args(line: u32, file_name: &str) -> (r: Vec<String>)
    requires
        line >= 1,
    ensures
        r@.len() == 5,
        r@[0]@ == "blame"@,
        r@[1]@ == "-p"@,
        r@[2]@ == "-L"@,
        r@[3]@ == range_of(line),
        r@[4]@ == file_name@,
{
    let mut args: Vec<String> = Vec::new();
    args.push("blame".to_owned());
    args.push("-p".to_owned());
    args.push("-L".to_owned());
    args.push(range_arg(line));
    args.push(file_name.to_owned());
    args
}

} // verus!
