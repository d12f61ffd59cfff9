//! Reading a move from a player's typed text: the decimal value of the
//! digits, with anything unparseable mapped to the `NO_MOVE` sentinel rather
//! than an error, as the interactive input source expects.

use vstd::prelude::*;

use crate::game::{Coordinate, NO_MOVE};

verus! {

/// The byte of the plus sign.
pub const BYTE_PLUS: u8 = 43;

/// The byte of the digit zero.
pub const BYTE_ZERO: u8 = 48;

/// The byte of the digit nine.
pub const BYTE_NINE: u8 = 57;

pub open spec fn is_dec_digit_byte(c: u8) -> bool {
    BYTE_ZERO <= c <= BYTE_NINE
}

pub open spec fn all_dec_digits(s: Seq<u8>) -> bool {
    forall|i: int| 0 <= i < s.len() ==> is_dec_digit_byte(#[trigger] s[i])
}

/// The value of a string of decimal digit bytes, most significant first.
pub open spec fn dec_value(s: Seq<u8>) -> int
    decreases s.len(),
{
    if s.len() == 0 {
        0
    } else {
        dec_value(s.drop_last()) * 10 + (s.last() - BYTE_ZERO)
    }
}

/// What `parse_coordinate` yields: the number the bytes spell (an optional
/// leading plus sign, then at least one digit, within the machine range), or
/// the `NO_MOVE` sentinel for any other text.
pub open spec fn parsed_coordinate(s: Seq<u8>) -> Coordinate {
    let digits = if s.len() > 0 && s[0] == BYTE_PLUS {
        s.skip(1)
    } else {
        s
    };
    if digits.len() > 0 && all_dec_digits(digits) && dec_value(digits) <= usize::MAX as int {
        dec_value(digits) as usize
    } else {
        NO_MOVE
    }
}

proof fn lemma_dec_value_nonneg(s: Seq<u8>)
    requires
        all_dec_digits(s),
    ensures
        dec_value(s) >= 0,
    decreases s.len(),
{
    if s.len() > 0 {
        assert(all_dec_digits(s.drop_last()));
        lemma_dec_value_nonneg(s.drop_last());
    }
}

/// A longer digit string never spells a smaller number.
proof fn lemma_dec_value_prefix_le(s: Seq<u8>, m: int)
    requires
        all_dec_digits(s),
        0 <= m <= s.len(),
    ensures
        dec_value(s.take(m)) <= dec_value(s),
    decreases s.len() - m,
{
    assert(all_dec_digits(s.take(m)));
    lemma_dec_value_nonneg(s.take(m));
    if m < s.len() {
        lemma_dec_value_prefix_le(s, m + 1);
        assert(s.take(m + 1).drop_last() =~= s.take(m));
        assert(s.take(m + 1).last() == s[m]);
    } else {
        assert(s.take(m) =~= s);
    }
}

/// Reads a move typed by a player, as the interactive source does: decimal
/// digits (an optional leading plus sign allowed) give the coordinate;
/// empty text, other characters, or a value beyond the machine range all map
/// to `NO_MOVE`, which then fails validation downstream.
pub fn parse_coordinate(input: &[u8]) -> (r: Coordinate)
    ensures
        r == parsed_coordinate(input@),
{
    let n = input.len();
    let start: usize = if n > 0 && input[0] == BYTE_PLUS {
        1
    } else {
        0
    };
    let ghost digits = if input@.len() > 0 && input@[0] == BYTE_PLUS {
        input@.skip(1)
    } else {
        input@
    };
    proof {
        assert(digits =~= input@.subrange(start as int, n as int));
    }
    if n == start {
        return NO_MOVE;
    }
    let mut value: usize = 0;
    let mut i: usize = start;
    while i < n
        invariant
            start <= i <= n,
            n == input@.len(),
            digits == (if input@.len() > 0 && input@[0] == BYTE_PLUS {
                input@.skip(1)
            } else {
                input@
            }),
            digits =~= input@.subrange(start as int, n as int),
            forall|j: int| start <= j < i ==> is_dec_digit_byte(#[trigger] input@[j]),
            value == dec_value(input@.subrange(start as int, i as int)),
        decreases n - i,
    {
        let c = input[i];
        if c < BYTE_ZERO || c > BYTE_NINE {
            proof {
                assert(!is_dec_digit_byte(digits[i - start]));
                assert(!all_dec_digits(digits));
            }
            return NO_MOVE;
        }
        let d = (c - BYTE_ZERO) as usize;
        let ghost prefix = input@.subrange(start as int, i as int);
        let ghost extended = input@.subrange(start as int, i + 1 as int);
        proof {
            assert(extended.drop_last() =~= prefix);
            assert(extended.last() == input@[i as int]);
        }
        if value > (usize::MAX - d) / 10 {
            proof {
                assert(dec_value(extended) > usize::MAX as int);
                assert(all_dec_digits(extended)) by {
                    assert(forall|j: int| 0 <= j < extended.len() ==> extended[j]
                        == input@[start + j]);
                }
                if all_dec_digits(digits) {
                    assert(extended =~= digits.take(i + 1 - start));
                    lemma_dec_value_prefix_le(digits, i + 1 - start);
                }
            }
            return NO_MOVE;
        }
        value = value * 10 + d;
        i = i + 1;
        proof {
            assert(input@.subrange(start as int, i as int) =~= extended);
        }
    }
    proof {
        assert(digits =~= input@.subrange(start as int, n as int));
        assert(all_dec_digits(digits)) by {
            assert(forall|j: int| 0 <= j < digits.len() ==> digits[j] == input@[start + j]);
        }
    }
    value
}

} // verus!
