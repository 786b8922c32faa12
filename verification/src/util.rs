//! Small helpers: the index server's name chunking scheme.

use vstd::prelude::*;
use vstd::string::StrSliceExecFns;
use vstd::string::StringExecFns;

verus! {

/// The path prefix the index derives from a package name: names of one,
/// two or three characters go under "1/", "2/" or "3/{initial}/", longer
/// names under "{first two}/{next two}/".
pub open spec fn spec_chunk_name(s: Seq<char>) -> Seq<char> {
    if s.len() == 1 {
        seq!['1', '/'] + s
    } else if s.len() == 2 {
        seq!['2', '/'] + s
    } else if s.len() == 3 {
        seq!['3', '/'] + s.take(1) + seq!['/'] + s
    } else {
        s.take(2) + seq!['/'] + s.subrange(2, 4) + seq!['/'] + s
    }
}

/// Builds the index path prefix for a package name.
pub fn chunk_name(name: &str) -> (r: String)
    requires
        name@.len() > 0,
        name.is_ascii(),
    ensures
        r@ == spec_chunk_name(name@),
{
    let len = name.unicode_len();
    let mut out = String::new();
    if len == 1 {
        out.append("1/");
        out.append(name);
        proof {
            reveal_strlit("1/");
            assert(out@ =~= spec_chunk_name(name@));
        }
    } else if len == 2 {
        out.append("2/");
        out.append(name);
        proof {
            reveal_strlit("2/");
            assert(out@ =~= spec_chunk_name(name@));
        }
    } else if len == 3 {
        out.append("3/");
        out.append(name.substring_ascii(0, 1));
        out.append("/");
        out.append(name);
        proof {
            reveal_strlit("3/");
            reveal_strlit("/");
            assert(out@ =~= spec_chunk_name(name@));
        }
    } else {
        out.append(name.substring_ascii(0, 2));
        out.append("/");
        out.append(name.substring_ascii(2, 4));
        out.append("/");
        out.append(name);
        proof {
            reveal_strlit("/");
            assert(out@ =~= spec_chunk_name(name@));
        }
    }
    out
}

} // verus!
