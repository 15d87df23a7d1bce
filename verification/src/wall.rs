//! Telling the operator something on every terminal.

use crate::text::{chars_of, range_eq, text_eq};
use vstd::prelude::*;
use vstd::string::*;

verus! {

/// Whether the entry `name` of the directory of pseudo-terminals is a
/// terminal to write to: every entry but the multiplexer.
pub open spec fn is_pts_target(name: Seq<char>) -> bool {
    name != "ptmx"@
}

/// Whether the entry `name` of the device directory is a terminal to write
/// to: its name begins with `tty` and is longer than that.
pub open spec fn is_tty_target(name: Seq<char>) -> bool {
    "tty"@.is_prefix_of(name) && name != "tty"@
}

/// The line that is written for `message`.
pub open spec fn wall_line_of(message: Seq<char>) -> Seq<char> {
    message + "\n"@
}

/// Tells whether the pseudo-terminal entry `name` is written to.
pub fn pts_target(name: &str) -> (r: bool)
    ensures
        r == is_pts_target(name@),
{
    !text_eq(name, "ptmx")
}

/// Tells whether the device entry `name` is written to.
pub fn tty_target(name: &str) -> (r: bool)
    ensures
        r == is_tty_target(name@),
{
    let chars = chars_of(name);
    let prefix = chars_of("tty");
    if chars.len() <= prefix.len() {
        proof {
            if "tty"@.is_prefix_of(name@) {
                assert(name@ =~= "tty"@);
            }
        }
        return false;
    }
    let same = range_eq(&chars, 0, prefix.len(), &prefix);
    proof {
        if "tty"@.is_prefix_of(name@) {
            assert(name@.subrange(0, prefix.len() as int) =~= "tty"@);
        }
        if same {
            assert("tty"@ =~= name@.subrange(0, prefix.len() as int));
        }
    }
    same
}

/// The line to write for `message`.
pub fn wall_line(message: &str) -> (r: String)
    ensures
        r@ == wall_line_of(message@),
{
    let mut line = String::from_str(message);
    line.append("\n");
    line
}

/// Picks from the entries of a directory, by `tty` the device directory and
/// else the directory of pseudo-terminals, those to write to, in their order.
pub fn wall_targets(entries: &Vec<String>, tty: bool) -> (r: Vec<String>)
    ensures
        crate::text::texts(r@) == crate::text::texts(entries@).filter(
            |name: Seq<char>|
                if tty {
                    is_tty_target(name)
                } else {
                    is_pts_target(name)
                },
        ),
{
    let ghost all = crate::text::texts(entries@);
    let ghost pred = |name: Seq<char>|
        if tty {
            is_tty_target(name)
        } else {
            is_pts_target(name)
        };
    let mut out: Vec<String> = Vec::new();
    let mut i: usize = 0;
    while i < entries.len()
        invariant
            i <= entries.len(),
            all == crate::text::texts(entries@),
            pred == |name: Seq<char>|
                if tty {
                    is_tty_target(name)
                } else {
                    is_pts_target(name)
                },
            crate::text::texts(out@) == all.take(i as int).filter(pred),
        decreases entries.len() - i,
    {
        let name = &entries[i];
        proof {
            assert(all.take(i + 1) == all.take(i as int).push(name@));
            all.take(i as int).lemma_filter_push(name@, pred);
        }
        let wanted = if tty {
            tty_target(name.as_str())
        } else {
            pts_target(name.as_str())
        };
        if wanted {
            let ghost before = out@;
            out.push(name.clone());
            assert(crate::text::texts(out@) =~= crate::text::texts(before).push(name@));
        }
        i += 1;
    }
    assert(all.take(entries.len() as int) == all);
    out
}

} // verus!
