//! Names of the two report artifacts written for a session.

use vstd::prelude::*;

use crate::clock::filename_stamp;

verus! {

/// `s` with every space replaced by an underscore.
pub open spec fn underscored(s: Seq<char>) -> Seq<char> {
    s.map_values(
        |c: char|
            if c == ' ' {
                '_'
            } else {
                c
            },
    )
}

/// Name of the text artifact: the timestamp token, the test name with spaces
/// as underscores, and the fixed suffix.
pub open spec fn text_file_name(stamp: Seq<char>, name: Seq<char>) -> Seq<char> {
    stamp + "_"@ + underscored(name) + "_log.txt"@
}

/// Name of the tabular artifact: the same stem with the tabular suffix.
pub open spec fn csv_file_name(stamp: Seq<char>, name: Seq<char>) -> Seq<char> {
    stamp + "_"@ + underscored(name) + "_log.csv"@
}

fn underscore_name(s: &str) -> (r: String)
    ensures
        r@ == underscored(s@),
{
    proof {
        reveal_strlit("_");
    }
    let n = s.unicode_len();
    let mut out = String::new();
    let mut i: usize = 0;
    while i < n
        invariant
            0 <= i <= n,
            n == s@.len(),
            out@ == underscored(s@).take(i as int),
        decreases n - i,
    {
        let c = s.get_char(i);
        if c == ' ' {
            out.append("_");
        } else {
            out.append(s.substring_char(i, i + 1));
        }
        proof {
            reveal_strlit("_");
            assert(underscored(s@).len() == s@.len());
            assert(underscored(s@)[i as int] == if s@[i as int] == ' ' {
                '_'
            } else {
                s@[i as int]
            });
            assert(out@ =~= underscored(s@).take(i + 1));
        }
        i = i + 1;
    }
    proof {
        assert(underscored(s@).take(n as int) =~= underscored(s@));
    }
    out
}

/// Build the two artifact file names from a timestamp token and the test
/// name.
pub fn log_file_names(stamp: &str, test_name: &str) -> (r: (String, String))
    ensures
        r.0@ == text_file_name(stamp@, test_name@),
        r.1@ == csv_file_name(stamp@, test_name@),
{
    let u = underscore_name(test_name);
    let mut a = String::new();
    a.append(stamp);
    a.append("_");
    a.append(u.as_str());
    a.append("_log.txt");
    let mut b = String::new();
    b.append(stamp);
    b.append("_");
    b.append(u.as_str());
    b.append("_log.csv");
    proof {
        assert(a@ =~= text_file_name(stamp@, test_name@));
        assert(b@ =~= csv_file_name(stamp@, test_name@));
    }
    (a, b)
}

/// Build the two artifact file names stamped with the current local instant.
pub fn log_file_names_now(test_name: &str) -> (r: (String, String))
    ensures
        exists|stamp: Seq<char>|
            r.0@ == #[trigger] text_file_name(stamp, test_name@) && r.1@ == csv_file_name(
                stamp,
                test_name@,
            ),
{
    let stamp = filename_stamp();
    let r = log_file_names(stamp.as_str(), test_name);
    proof {
        assert(r.0@ == text_file_name(stamp@, test_name@));
    }
    r
}

} // verus!
