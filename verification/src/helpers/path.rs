//! Display formatting for paths: current-directory prefixes are stripped.

use vstd::prelude::*;

verus! {

/// `s` with every leading repetition of `p` removed.
pub open spec fn strip_prefix_reps(s: Seq<char>, p: Seq<char>) -> Seq<char>
    decreases s.len(),
{
    if p.len() > 0 && s.len() >= p.len() && s.take(p.len() as int) == p {
        strip_prefix_reps(s.skip(p.len() as int), p)
    } else {
        s
    }
}

/// The display form of a path: leading `.\` and `./` prefixes stripped.
pub open spec fn display_path(s: Seq<char>) -> Seq<char> {
    strip_prefix_reps(strip_prefix_reps(s, ".\\"@), "./"@)
}

/// Display format for the path.
pub fn display(path: &str) -> (r: String)
    ensures
        r@ == display_path(path@),
{
    proof {
        reveal_strlit(".\\");
        reveal_strlit("./");
    }
    let n = path.unicode_len();
    let mut i: usize = 0;
    proof {
        assert(path@.skip(0) =~= path@);
    }
    while i < n && i + 1 < n && path.get_char(i) == '.' && path.get_char(i + 1) == '\\'
        invariant
            n == path@.len(),
            0 <= i <= n,
            strip_prefix_reps(path@, ".\\"@) == strip_prefix_reps(path@.skip(i as int), ".\\"@),
        decreases n - i,
    {
        proof {
            reveal_strlit(".\\");
            assert(path@.skip(i as int).take(2) =~= ".\\"@);
            assert(path@.skip(i as int).skip(2) =~= path@.skip(i + 2));
        }
        i = i + 2;
    }
    proof {
        reveal_strlit(".\\");
        assert(strip_prefix_reps(path@.skip(i as int), ".\\"@) == path@.skip(i as int)) by {
            if path@.skip(i as int).len() >= 2 && path@.skip(i as int).take(2) == ".\\"@ {
                assert(path@.skip(i as int).take(2)[0] == ".\\"@[0]);
                assert(path@.skip(i as int).take(2)[1] == ".\\"@[1]);
                assert(path@[i as int] == '.');
                assert(path@[i + 1] == '\\');
            }
        }
    }
    let ghost mid = path@.skip(i as int);
    let start = i;
    let mut j: usize = i;
    while j < n && j + 1 < n && path.get_char(j) == '.' && path.get_char(j + 1) == '/'
        invariant
            n == path@.len(),
            start <= j <= n,
            mid == path@.skip(start as int),
            strip_prefix_reps(mid, "./"@) == strip_prefix_reps(path@.skip(j as int), "./"@),
        decreases n - j,
    {
        proof {
            reveal_strlit("./");
            assert(path@.skip(j as int).take(2) =~= "./"@);
            assert(path@.skip(j as int).skip(2) =~= path@.skip(j + 2));
        }
        j = j + 2;
    }
    proof {
        reveal_strlit("./");
        assert(strip_prefix_reps(path@.skip(j as int), "./"@) == path@.skip(j as int)) by {
            if path@.skip(j as int).len() >= 2 && path@.skip(j as int).take(2) == "./"@ {
                assert(path@.skip(j as int).take(2)[0] == "./"@[0]);
                assert(path@.skip(j as int).take(2)[1] == "./"@[1]);
                assert(path@[j as int] == '.');
                assert(path@[j + 1] == '/');
            }
        }
    }
    let r = path.substring_char(j, n).to_owned();
    proof {
        assert(r@ =~= path@.skip(j as int));
    }
    r
}

} // verus!
