//! The template emitter: folds extracted data into generated source text.
//! Each emission is a pure fold over the definition, stated exactly as a
//! concatenation of its parts.

use vstd::prelude::*;

use crate::Arm;
use crate::arrays::StrArrayDef;
use crate::enums::SizeConst;
use crate::text::{dec_str, usize_to_string};

verus! {

/// The text of one match arm per entry: `Self::<ident> => "<text>",` on a
/// line of its own, in order.
pub open spec fn arm_lines(arms: Seq<Arm>) -> Seq<char>
    decreases arms.len(),
{
    if arms.len() == 0 {
        Seq::empty()
    } else {
        arm_lines(arms.drop_last()) + "Self::"@ + arms.last().ident@ + " => \""@
            + arms.last().text@ + "\",\n"@
    }
}

/// The text of the entries of a string array: each double-quoted, followed
/// by a comma and a space, in order.
pub open spec fn quoted_entries(ss: Seq<Seq<char>>) -> Seq<char>
    decreases ss.len(),
{
    if ss.len() == 0 {
        Seq::empty()
    } else {
        quoted_entries(ss.drop_last()) + seq!['"'] + ss.last() + "\", "@
    }
}

/// Renders the size constant: one `impl` block holding `SIZE`.
pub fn render_size_const(d: &SizeConst) -> (r: String)
    ensures
        r@ == "impl "@ + d.name@ + " { pub const SIZE: usize = "@ + dec_str(d.size as nat)
            + "; }"@,
{
    let mut r = String::from_str("impl ");
    r.append(d.name.as_str());
    r.append(" { pub const SIZE: usize = ");
    let num = usize_to_string(d.size);
    r.append(num.as_str());
    r.append("; }");
    proof {
        assert(r@ =~= "impl "@ + d.name@ + " { pub const SIZE: usize = "@ + dec_str(
            d.size as nat,
        ) + "; }"@);
    }
    r
}

/// Renders a match-style body: one arm per entry, in declaration order.
pub fn render_arms(arms: &Vec<Arm>) -> (r: String)
    ensures
        r@ == arm_lines(arms@),
{
    let mut r = String::new();
    let mut i: usize = 0;
    while i < arms.len()
        invariant
            i <= arms@.len(),
            r@ == arm_lines(arms@.take(i as int)),
        decreases arms@.len() - i,
    {
        r.append("Self::");
        r.append(arms[i].ident.as_str());
        r.append(" => \"");
        r.append(arms[i].text.as_str());
        r.append("\",\n");
        i += 1;
        proof {
            assert(arms@.take(i as int).drop_last() =~= arms@.take(i - 1));
            assert(arms@.take(i as int).last() == arms@[i - 1]);
            assert(r@ =~= arm_lines(arms@.take(i as int)));
        }
    }
    proof {
        assert(arms@.take(arms@.len() as int) == arms@);
    }
    r
}

/// Renders the fixed-size string array: its declaration and every entry
/// in position order.
pub fn render_str_array(d: &StrArrayDef) -> (r: String)
    ensures
        r@ == "const "@ + d.name@ + ": [&'static str; "@ + dec_str(d.strings@.len() as nat)
            + "] = ["@ + quoted_entries(d.strings@.map_values(|s: String| s@)) + "];"@,
{
    let ghost entries = d.strings@.map_values(|s: String| s@);
    let mut r = String::from_str("const ");
    r.append(d.name.as_str());
    r.append(": [&'static str; ");
    let num = usize_to_string(d.strings.len());
    r.append(num.as_str());
    r.append("] = [");
    let ghost head = r@;
    let mut i: usize = 0;
    while i < d.strings.len()
        invariant
            i <= d.strings@.len(),
            entries == d.strings@.map_values(|s: String| s@),
            r@ == head + quoted_entries(entries.take(i as int)),
        decreases d.strings@.len() - i,
    {
        r.append("\"");
        r.append(d.strings[i].as_str());
        r.append("\", ");
        i += 1;
        proof {
            assert(entries.take(i as int).drop_last() =~= entries.take(i - 1));
            assert(entries.take(i as int).last() == entries[i - 1]);
            assert("\""@ =~= seq!['"']) by {
                reveal_strlit("\"");
            }
            assert(r@ =~= head + quoted_entries(entries.take(i as int)));
        }
    }
    r.append("];");
    proof {
        assert(entries.take(entries.len() as int) == entries);
        assert(r@ =~= "const "@ + d.name@ + ": [&'static str; "@ + dec_str(
            d.strings@.len() as nat,
        ) + "] = ["@ + quoted_entries(entries) + "];"@);
    }
    r
}

} // verus!
