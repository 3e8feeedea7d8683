//! How Brave writes its feature lists.

use crate::text::{chars_of, push_char};
use vstd::prelude::*;

verus! {

/// What Brave writes in place of `c`: the six characters `\u003C` for `>`,
/// and the character itself for any other.
pub open spec fn written_as(c: char) -> Seq<char> {
    if c == '>' {
        seq!['\\', 'u', '0', '0', '3', 'C']
    } else {
        seq![c]
    }
}

/// `line` with every `>` written as Brave writes it.
pub open spec fn symbols_replaced(line: Seq<char>) -> Seq<char>
    decreases line.len(),
{
    if line.len() == 0 {
        line
    } else {
        symbols_replaced(line.drop_last()) + written_as(line.last())
    }
}

/// Writes a feature's name as Brave writes it in its own files.
pub fn replace_symbols(line: &str) -> (r: String)
    ensures
        r@ == symbols_replaced(line@),
{
    let chars = chars_of(line);
    let mut r = String::new();
    let mut i: usize = 0;
    assert(chars@.take(0) =~= Seq::<char>::empty());
    while i < chars.len()
        invariant
            i <= chars.len(),
            chars@ == line@,
            r@ == symbols_replaced(chars@.take(i as int)),
        decreases chars.len() - i,
    {
        proof {
            let next = chars@.take(i + 1);
            assert(next.drop_last() == chars@.take(i as int));
            assert(next.last() == chars@[i as int]);
        }
        let ghost before = r@;
        if chars[i] == '>' {
            push_char(&mut r, '\\');
            push_char(&mut r, 'u');
            push_char(&mut r, '0');
            push_char(&mut r, '0');
            push_char(&mut r, '3');
            push_char(&mut r, 'C');
            assert(r@ =~= before + written_as('>'));
        } else {
            push_char(&mut r, chars[i]);
            assert(r@ =~= before + written_as(chars@[i as int]));
        }
        i = i + 1;
    }
    assert(chars@.take(chars.len() as int) == chars@);
    r
}

} // verus!
