//! The window enumerator: extracting window identifiers from the output of
//! the window-listing query, one line per window, the line's first
//! whitespace-delimited token being the identifier.

use vstd::prelude::*;

use crate::text::{first_token, first_token_str, lines_of, split_lines, views_of};

verus! {

/// The identifiers contributed by each line in turn: a line's first
/// whitespace-delimited token, skipping lines that hold none.
pub open spec fn ids_of_lines(lines: Seq<Seq<char>>) -> Seq<Seq<char>>
    decreases lines.len(),
{
    if lines.len() == 0 {
        Seq::empty()
    } else {
        let tok = first_token(lines[0]);
        (if tok.len() == 0 {
            Seq::<Seq<char>>::empty()
        } else {
            seq![tok]
        }) + ids_of_lines(lines.subrange(1, lines.len() as int))
    }
}

/// The window identifiers of a listing text: the first token of every
/// non-blank line. An empty listing yields no identifiers.
pub open spec fn window_ids_of(listing: Seq<char>) -> Seq<Seq<char>> {
    ids_of_lines(lines_of(listing))
}

/// Extracts the window identifiers from the output of the window-listing
/// query. Zero identifiers is a valid result, not an error.
pub fn list_window_ids(listing: &str) -> (r: Vec<String>)
    ensures
        views_of(r@) == window_ids_of(listing@),
{
    let lines = split_lines(listing);
    let n: usize = lines.len();
    let mut out: Vec<String> = Vec::new();
    let mut k: usize = 0;
    proof {
        assert(views_of(lines@).subrange(0, n as int) =~= views_of(lines@));
        assert(views_of(out@) + ids_of_lines(views_of(lines@)) =~= ids_of_lines(
            views_of(lines@),
        ));
    }
    while k < n
        invariant
            n == lines.len(),
            0 <= k <= n,
            n == views_of(lines@).len(),
            views_of(out@) + ids_of_lines(views_of(lines@).subrange(k as int, n as int))
                == ids_of_lines(views_of(lines@)),
        decreases n - k,
    {
        let tok = first_token_str(lines[k].as_str());
        proof {
            let all = views_of(lines@);
            let rem = all.subrange(k as int, n as int);
            assert(rem[0] == all[k as int]);
            assert(all[k as int] == lines@[k as int]@);
            assert(rem.subrange(1, rem.len() as int) =~= all.subrange(k + 1, n as int));
        }
        if tok.as_str().unicode_len() > 0 {
            proof {
                assert(views_of(out@.push(tok)) =~= views_of(out@) + seq![tok@]);
            }
            out.push(tok);
        }
        k += 1;
    }
    proof {
        assert(ids_of_lines(views_of(lines@).subrange(n as int, n as int)) =~= Seq::<
            Seq<char>,
        >::empty());
        assert(views_of(out@) =~= ids_of_lines(views_of(lines@)));
    }
    out
}

/// The command line of the window-listing query.
pub fn list_query() -> (r: String)
    ensures
        r@ == "wmctrl -l"@,
{
    String::from_str("wmctrl -l")
}

} // verus!
