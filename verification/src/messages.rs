//! The human-readable texts of the move-validation errors, built by verified
//! code: a decimal rendering of player ids and coordinates, spliced into the
//! five fixed message shapes.

use vstd::prelude::*;
use vstd::string::StringExecFns;

verus! {

/// The decimal digit character for a value below ten.
pub open spec fn dec_digit(d: int) -> char {
    if d == 0 {
        '0'
    } else if d == 1 {
        '1'
    } else if d == 2 {
        '2'
    } else if d == 3 {
        '3'
    } else if d == 4 {
        '4'
    } else if d == 5 {
        '5'
    } else if d == 6 {
        '6'
    } else if d == 7 {
        '7'
    } else if d == 8 {
        '8'
    } else {
        '9'
    }
}

/// The decimal rendering of a non-negative integer, most significant digit
/// first, with no leading zeros (a lone zero for zero itself).
pub open spec fn dec_rep(n: int) -> Seq<char>
    recommends
        n >= 0,
    decreases n,
{
    if n < 10 {
        seq![dec_digit(n)]
    } else {
        dec_rep(n / 10).push(dec_digit(n % 10))
    }
}

pub proof fn lemma_dec_rep_len(n: int)
    ensures
        dec_rep(n).len() >= 1,
    decreases n,
{
    if n >= 10 {
        lemma_dec_rep_len(n / 10);
    }
}

pub open spec fn is_digit_char(c: char) -> bool {
    ||| c == '0'
    ||| c == '1'
    ||| c == '2'
    ||| c == '3'
    ||| c == '4'
    ||| c == '5'
    ||| c == '6'
    ||| c == '7'
    ||| c == '8'
    ||| c == '9'
}

pub proof fn lemma_dec_rep_digits(n: int)
    ensures
        forall|i: int| 0 <= i < dec_rep(n).len() ==> is_digit_char(#[trigger] dec_rep(n)[i]),
    decreases n,
{
    if n >= 10 {
        lemma_dec_rep_digits(n / 10);
        assert forall|i: int| 0 <= i < dec_rep(n).len() implies is_digit_char(
            #[trigger] dec_rep(n)[i],
        ) by {
            if i < dec_rep(n / 10).len() {
                assert(dec_rep(n)[i] == dec_rep(n / 10)[i]);
            } else {
                assert(dec_rep(n)[i] == dec_digit(n % 10));
            }
        }
    }
}

pub open spec fn msg_unknown_player(p: int) -> Seq<char> {
    "player "@ + dec_rep(p) + " doesn't play this game"@
}

pub open spec fn msg_draw() -> Seq<char> {
    "game has finished with a draw"@
}

pub open spec fn msg_already_won(w: int) -> Seq<char> {
    "player "@ + dec_rep(w) + " has already won the game"@
}

pub open spec fn msg_outside_board(p: int, x: int) -> Seq<char> {
    "player "@ + dec_rep(p) + " made a move outside of board: "@ + dec_rep(x)
}

pub open spec fn msg_field_taken(p: int, x: int, o: int) -> Seq<char> {
    "player "@ + dec_rep(p) + " cannot mark field "@ + dec_rep(x)
        + " since it's already taken by player "@ + dec_rep(o)
}

/// Appends the character of a single decimal digit.
fn append_digit(s: &mut String, d: usize)
    requires
        d < 10,
    ensures
        final(s)@ == old(s)@ + seq![dec_digit(d as int)],
{
    proof {
        reveal_strlit("0");
        reveal_strlit("1");
        reveal_strlit("2");
        reveal_strlit("3");
        reveal_strlit("4");
        reveal_strlit("5");
        reveal_strlit("6");
        reveal_strlit("7");
        reveal_strlit("8");
        reveal_strlit("9");
    }
    if d == 0 {
        s.append("0");
    } else if d == 1 {
        s.append("1");
    } else if d == 2 {
        s.append("2");
    } else if d == 3 {
        s.append("3");
    } else if d == 4 {
        s.append("4");
    } else if d == 5 {
        s.append("5");
    } else if d == 6 {
        s.append("6");
    } else if d == 7 {
        s.append("7");
    } else if d == 8 {
        s.append("8");
    } else {
        s.append("9");
    }
    proof {
        assert(final(s)@ =~= old(s)@ + seq![dec_digit(d as int)]);
    }
}

/// Appends the decimal rendering of `n`.
fn append_dec(s: &mut String, n: usize)
    ensures
        final(s)@ == old(s)@ + dec_rep(n as int),
    decreases n,
{
    if n < 10 {
        append_digit(s, n);
    } else {
        append_dec(s, n / 10);
        append_digit(s, n % 10);
        proof {
            assert(final(s)@ =~= old(s)@ + dec_rep(n as int));
        }
    }
}

pub fn unknown_player_message(p: usize) -> (r: String)
    ensures
        r@ == msg_unknown_player(p as int),
{
    let mut s = String::from_str("player ");
    append_dec(&mut s, p);
    s.append(" doesn't play this game");
    proof {
        assert(s@ =~= msg_unknown_player(p as int));
    }
    s
}

pub fn draw_message() -> (r: String)
    ensures
        r@ == msg_draw(),
{
    String::from_str("game has finished with a draw")
}

pub fn already_won_message(w: usize) -> (r: String)
    ensures
        r@ == msg_already_won(w as int),
{
    let mut s = String::from_str("player ");
    append_dec(&mut s, w);
    s.append(" has already won the game");
    proof {
        assert(s@ =~= msg_already_won(w as int));
    }
    s
}

pub fn outside_board_message(p: usize, x: usize) -> (r: String)
    ensures
        r@ == msg_outside_board(p as int, x as int),
{
    let mut s = String::from_str("player ");
    append_dec(&mut s, p);
    s.append(" made a move outside of board: ");
    append_dec(&mut s, x);
    proof {
        assert(s@ =~= msg_outside_board(p as int, x as int));
    }
    s
}

pub fn field_taken_message(p: usize, x: usize, o: usize) -> (r: String)
    ensures
        r@ == msg_field_taken(p as int, x as int, o as int),
{
    let mut s = String::from_str("player ");
    append_dec(&mut s, p);
    s.append(" cannot mark field ");
    append_dec(&mut s, x);
    s.append(" since it's already taken by player ");
    append_dec(&mut s, o);
    proof {
        assert(s@ =~= msg_field_taken(p as int, x as int, o as int));
    }
    s
}

/// Two texts of the shape `"player " + digits + suffix` differ whenever their
/// suffixes differ in their second character, that character being no digit:
/// right after the digit run the texts cannot agree.
proof fn lemma_player_messages_differ(a: int, b: int, s1: Seq<char>, s2: Seq<char>)
    requires
        s1.len() >= 2,
        s2.len() >= 2,
        s1[0] == ' ',
        s2[0] == ' ',
        s1[1] != s2[1],
        !is_digit_char(s1[1]),
        !is_digit_char(s2[1]),
    ensures
        "player "@ + dec_rep(a) + s1 != "player "@ + dec_rep(b) + s2,
{
    reveal_strlit("player ");
    lemma_dec_rep_len(a);
    lemma_dec_rep_len(b);
    lemma_dec_rep_digits(a);
    lemma_dec_rep_digits(b);
    let m1 = "player "@ + dec_rep(a) + s1;
    let m2 = "player "@ + dec_rep(b) + s2;
    let l1 = dec_rep(a).len() as int;
    let l2 = dec_rep(b).len() as int;
    if m1 == m2 {
        if l1 == l2 {
            assert(m1[8 + l1] == s1[1]);
            assert(m2[8 + l2] == s2[1]);
        } else if l1 < l2 {
            assert(m1[7 + l1] == s1[0]);
            assert(m2[7 + l1] == dec_rep(b)[l1]);
            assert(is_digit_char(dec_rep(b)[l1]));
        } else {
            assert(m2[7 + l2] == s2[0]);
            assert(m1[7 + l2] == dec_rep(a)[l2]);
            assert(is_digit_char(dec_rep(a)[l2]));
        }
        assert(false);
    }
}

/// No two of the five rejection messages are the same text, whichever player
/// ids and coordinates they name: every validation failure is reported
/// distinctly and reproducibly.
pub proof fn lemma_messages_distinct(p: int, q: int, x: int, y: int, o: int)
    ensures
        msg_draw() != msg_unknown_player(p),
        msg_draw() != msg_already_won(p),
        msg_draw() != msg_outside_board(p, x),
        msg_draw() != msg_field_taken(p, x, o),
        msg_unknown_player(p) != msg_already_won(q),
        msg_unknown_player(p) != msg_outside_board(q, x),
        msg_unknown_player(p) != msg_field_taken(q, x, o),
        msg_already_won(p) != msg_outside_board(q, x),
        msg_already_won(p) != msg_field_taken(q, x, o),
        msg_outside_board(p, x) != msg_field_taken(q, y, o),
{
    reveal_strlit("player ");
    reveal_strlit("game has finished with a draw");
    reveal_strlit(" doesn't play this game");
    reveal_strlit(" has already won the game");
    reveal_strlit(" made a move outside of board: ");
    reveal_strlit(" cannot mark field ");
    assert(msg_draw()[0] == 'g');
    assert(msg_unknown_player(p)[0] == 'p');
    assert(msg_already_won(p)[0] == 'p');
    assert(msg_outside_board(p, x)[0] == 'p');
    assert(msg_field_taken(p, x, o)[0] == 'p');
    let s_unknown = " doesn't play this game"@;
    let s_won = " has already won the game"@;
    let s_out = " made a move outside of board: "@;
    let s_taken = " cannot mark field "@;
    assert(msg_unknown_player(p) == "player "@ + dec_rep(p) + s_unknown);
    assert(msg_already_won(q) == "player "@ + dec_rep(q) + s_won);
    assert(msg_outside_board(q, x) =~= "player "@ + dec_rep(q) + (s_out + dec_rep(x)));
    assert(msg_field_taken(q, x, o) =~= "player "@ + dec_rep(q) + (s_taken + dec_rep(x)
        + " since it's already taken by player "@ + dec_rep(o)));
    lemma_dec_rep_len(x);
    lemma_player_messages_differ(p, q, s_unknown, s_won);
    lemma_player_messages_differ(p, q, s_unknown, s_out + dec_rep(x));
    lemma_player_messages_differ(
        p,
        q,
        s_unknown,
        s_taken + dec_rep(x) + " since it's already taken by player "@ + dec_rep(o),
    );
    assert(msg_already_won(p) == "player "@ + dec_rep(p) + s_won);
    lemma_player_messages_differ(p, q, s_won, s_out + dec_rep(x));
    lemma_player_messages_differ(
        p,
        q,
        s_won,
        s_taken + dec_rep(x) + " since it's already taken by player "@ + dec_rep(o),
    );
    assert(msg_outside_board(p, x) =~= "player "@ + dec_rep(p) + (s_out + dec_rep(x)));
    assert(msg_field_taken(q, y, o) =~= "player "@ + dec_rep(q) + (s_taken + dec_rep(y)
        + " since it's already taken by player "@ + dec_rep(o)));
    lemma_dec_rep_len(y);
    lemma_player_messages_differ(
        p,
        q,
        s_out + dec_rep(x),
        s_taken + dec_rep(y) + " since it's already taken by player "@ + dec_rep(o),
    );
}

} // verus!
