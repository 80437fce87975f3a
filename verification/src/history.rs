use vstd::prelude::*;

use crate::text::{dec_digits, usize_to_string};

verus! {

/// One history listing line: a four-space indent, the 1-based entry
/// number, two spaces, the entry, and a newline.
pub open spec fn history_line(idx: nat, entry: Seq<char>) -> Seq<char> {
    "    "@ + dec_digits(idx) + "  "@ + entry + "\n"@
}

/// The listing of the entries from `start` on, each line numbered by the
/// entry's position in the full history.
pub open spec fn history_listing(entries: Seq<Seq<char>>, start: int) -> Seq<char>
    decreases entries.len() - start,
    when 0 <= start <= entries.len()
{
    if start == entries.len() {
        Seq::empty()
    } else {
        history_line((start + 1) as nat, entries[start]) + history_listing(entries, start + 1)
    }
}

/// Renders the history entries from `start` on, one numbered line each,
/// the number being the entry's 1-based position in the full history.
pub fn render_history(entries: &Vec<String>, start: usize) -> (r: String)
    requires
        start <= entries@.len(),
    ensures
        r@ == history_listing(entries.deep_view(), start as int),
{
    let n: usize = entries.len();
    let mut s = String::new();
    let mut i: usize = start;
    proof {
        assert(s@ + history_listing(entries.deep_view(), start as int) =~= history_listing(
            entries.deep_view(),
            start as int,
        ));
    }
    while i < n
        invariant
            start <= i <= n,
            n == entries@.len(),
            n == entries.deep_view().len(),
            history_listing(entries.deep_view(), start as int) == s@ + history_listing(
                entries.deep_view(),
                i as int,
            ),
        decreases n - i,
    {
        let ghost dv = entries.deep_view();
        let ghost pre = s@;
        let num = usize_to_string(i + 1);
        s.append("    ");
        s.append(num.as_str());
        s.append("  ");
        s.append(entries[i].as_str());
        s.append("\n");
        proof {
            assert(s@ =~= pre + history_line((i + 1) as nat, dv[i as int]));
            assert(pre + (history_line((i + 1) as nat, dv[i as int]) + history_listing(
                dv,
                i as int + 1,
            )) =~= s@ + history_listing(dv, i as int + 1));
        }
        i += 1;
    }
    proof {
        assert(s@ + history_listing(entries.deep_view(), n as int) =~= s@);
    }
    s
}

} // verus!
