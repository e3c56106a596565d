//! The messages that are shown to the user.

use vstd::prelude::*;
use crate::text::{decimal, push_decimal};

verus! {

/// A message with a position: the message, and on the next line the row and
/// the column.
pub open spec fn positioned(message: Seq<char>, row: nat, column: nat) -> Seq<char> {
    message + "\n --> row: "@ + decimal(row) + ", column: "@ + decimal(column)
}

/// The text of an error at a position in the source.
pub fn zeta_error_position(message: &str, row: usize, column: usize) -> (r: String)
    ensures
        r@ == positioned(message@, row as nat, column as nat),
{
    let mut out = String::new();
    out.append(message);
    out.append("\n --> row: ");
    push_decimal(&mut out, row as u128);
    out.append(", column: ");
    push_decimal(&mut out, column as u128);
    assert(out@ =~= positioned(message@, row as nat, column as nat));
    out
}

} // verus!
