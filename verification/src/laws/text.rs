//! What holds of the numbers in messages.

use vstd::prelude::*;

use crate::text::{decimal, digit};

verus! {

/// The number that decimal digits stand for, read from the left.
pub open spec fn number_read(text: Seq<char>) -> int {
    text.fold_left(0int, |n: int, c: char| n * 10 + (c as int - '0' as int))
}

/// A number in a message is made of decimal digits, starts with no zero unless it is zero, and is
/// read back as the number.
pub proof fn decimal_is_read_back(n: nat)
    ensures
        decimal(n).len() >= 1,
        forall|i: int| 0 <= i < decimal(n).len() ==> '0' <= #[trigger] decimal(n)[i] <= '9',
        n > 0 ==> decimal(n)[0] != '0',
        number_read(decimal(n)) == n,
    decreases n,
{
    let text = decimal(n);
    let read = |v: int, c: char| v * 10 + (c as int - '0' as int);
    if n >= 10 {
        decimal_is_read_back(n / 10);
        let rest = decimal(n / 10);
        assert(text.drop_last() =~= rest);
        assert(text.last() == digit(n % 10));
        assert(text.fold_left(0int, read) == read(rest.fold_left(0int, read), digit(n % 10)));
    } else {
        assert(text.drop_last() =~= Seq::empty());
        assert(text.drop_last().fold_left(0int, read) == 0);
        assert(text.fold_left(0int, read) == read(0, digit(n)));
    }
}

} // verus!
