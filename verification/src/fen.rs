//! The shape of a position text. The rules engine reads FEN leniently and
//! does not guard every table lookup it makes while reading, so a text is
//! only handed to it once its piece placement is known to describe a
//! board: eight rows of eight squares with one king for each side. The
//! shape makes the reading safe and no more: whether the position can be
//! played is for the engine's own check to say.

use crate::outcome::Side;
use vstd::prelude::*;
use vstd::string::*;
use vstd::utf8::*;

verus! {

/// Squares on a board, plus the seven separators between its rows.
pub const BOARD_CELLS: usize = 71;

const SPACE: u8 = 32;

const SLASH: u8 = 47;

const DIGIT_ZERO: u8 = 48;

const DIGIT_ONE: u8 = 49;

const DIGIT_EIGHT: u8 = 56;

const FIRST_KING: u8 = 75;

const SECOND_KING: u8 = 107;

/// The letters that stand for a piece: upper case for the first player,
/// lower case for the second.
pub open spec fn is_piece_letter(c: char) -> bool {
    ||| c == 'P' || c == 'N' || c == 'B' || c == 'R' || c == 'Q' || c == 'K'
    ||| c == 'p' || c == 'n' || c == 'b' || c == 'r' || c == 'q' || c == 'k'
}

/// A digit that stands for a run of empty squares.
pub open spec fn is_run_digit(c: char) -> bool {
    '1' <= c <= '8'
}

/// What one character of the placement puts on the board: a digit that
/// many empty squares, any other character itself.
pub open spec fn cells_of(c: char) -> Seq<Option<char>> {
    if is_run_digit(c) {
        Seq::new((c as int - '0' as int) as nat, |i: int| None::<char>)
    } else {
        seq![Some(c)]
    }
}

/// The placement with every run of empty squares written out.
pub open spec fn expand(placement: Seq<char>) -> Seq<Option<char>>
    decreases placement.len(),
{
    if placement.len() == 0 {
        Seq::empty()
    } else {
        expand(placement.drop_last()) + cells_of(placement.last())
    }
}

/// What may stand at index `k` of an expanded placement: a separator after
/// every eighth square, an empty square or a piece elsewhere.
pub open spec fn cell_fits(k: int, cell: Option<char>) -> bool {
    if k % 9 == 8 {
        cell == Some('/')
    } else {
        cell matches Some(c) ==> is_piece_letter(c)
    }
}

/// The start of a board: every cell so far is in place.
pub open spec fn is_board_prefix(cells: Seq<Option<char>>) -> bool {
    &&& cells.len() <= BOARD_CELLS
    &&& forall|k: int| 0 <= k < cells.len() ==> cell_fits(k, #[trigger] cells[k])
}

/// Eight rows of eight squares, separated by `/`.
pub open spec fn is_board(cells: Seq<Option<char>>) -> bool {
    cells.len() == BOARD_CELLS && is_board_prefix(cells)
}

/// How often `c` occurs in `text`.
pub open spec fn count_of(text: Seq<char>, c: char) -> nat
    decreases text.len(),
{
    if text.len() == 0 {
        0
    } else {
        count_of(text.drop_last(), c) + if text.last() == c {
            1nat
        } else {
            0nat
        }
    }
}

/// A piece placement: it describes a whole board, and each side has
/// exactly one king on it.
pub open spec fn is_placement(placement: Seq<char>) -> bool {
    &&& is_board(expand(placement))
    &&& count_of(placement, 'K') == 1
    &&& count_of(placement, 'k') == 1
}

/// How many pieces `side` has in a position text: the letters of its case
/// in the first field, upper for the first player and lower for the second.
pub open spec fn material_of(text: Seq<char>, side: Side) -> nat {
    let placement = first_field(text);
    match side {
        Side::First => count_of(placement, 'P') + count_of(placement, 'N') + count_of(
            placement,
            'B',
        ) + count_of(placement, 'R') + count_of(placement, 'Q') + count_of(placement, 'K'),
        Side::Second => count_of(placement, 'p') + count_of(placement, 'n') + count_of(
            placement,
            'b',
        ) + count_of(placement, 'r') + count_of(placement, 'q') + count_of(placement, 'k'),
    }
}

/// The side to move that a position text names: the first player where
/// its second field starts with `w`.
pub open spec fn side_of(text: Seq<char>) -> Side {
    if text[field_length(text) as int + 1] == 'w' {
        Side::First
    } else {
        Side::Second
    }
}

/// The length of the first field of `text`: what stands before its first
/// space.
pub open spec fn field_length(text: Seq<char>) -> nat
    decreases text.len(),
{
    if text.len() == 0 || text.first() == ' ' {
        0
    } else {
        1 + field_length(text.drop_first())
    }
}

/// The first field of `text`.
pub open spec fn first_field(text: Seq<char>) -> Seq<char> {
    text.take(field_length(text) as int)
}

/// `text` may be handed to the engine: it is plain ASCII, and its first
/// field is a piece placement.
pub open spec fn is_fen_shaped(text: Seq<char>) -> bool {
    is_ascii_chars(text) && is_placement(first_field(text))
}

/// The first field ends at the first space, or with the text.
pub proof fn lemma_field_length(text: Seq<char>, n: int)
    requires
        0 <= n <= text.len(),
        forall|j: int| 0 <= j < n ==> text[j] != ' ',
        n == text.len() || text[n] == ' ',
    ensures
        field_length(text) == n,
    decreases n,
{
    if n > 0 {
        let rest = text.drop_first();
        assert forall|j: int| 0 <= j < n - 1 implies rest[j] != ' ' by {
            assert(rest[j] == text[j + 1]);
        }
        lemma_field_length(rest, n - 1);
    }
}

/// Reading one more character appends its cells.
pub proof fn lemma_expand_step(placement: Seq<char>, i: int)
    requires
        0 <= i < placement.len(),
    ensures
        expand(placement.take(i + 1)) == expand(placement.take(i)) + cells_of(placement[i]),
        count_of(placement.take(i + 1), 'K') == count_of(placement.take(i), 'K') + if placement[i]
            == 'K' {
            1nat
        } else {
            0nat
        },
        count_of(placement.take(i + 1), 'k') == count_of(placement.take(i), 'k') + if placement[i]
            == 'k' {
            1nat
        } else {
            0nat
        },
{
    assert(placement.take(i + 1).drop_last() =~= placement.take(i));
}

/// What a part of the placement expands to is the start of what the whole
/// expands to.
pub proof fn lemma_expand_prefix(placement: Seq<char>, i: int)
    requires
        0 <= i <= placement.len(),
    ensures
        expand(placement.take(i)).len() <= expand(placement).len(),
        forall|k: int|
            0 <= k < expand(placement.take(i)).len() ==> expand(placement.take(i))[k] == expand(
                placement,
            )[k],
    decreases placement.len() - i,
{
    if i == placement.len() {
        assert(placement.take(i) =~= placement);
    } else {
        lemma_expand_step(placement, i);
        lemma_expand_prefix(placement, i + 1);
    }
}

/// A placement that goes wrong part of the way cannot describe a board.
pub proof fn lemma_bad_prefix(placement: Seq<char>, i: int)
    requires
        0 <= i <= placement.len(),
        !is_board_prefix(expand(placement.take(i))),
    ensures
        !is_board(expand(placement)),
{
    lemma_expand_prefix(placement, i);
    let part = expand(placement.take(i));
    let whole = expand(placement);
    if is_board(whole) {
        assert forall|k: int| 0 <= k < part.len() implies cell_fits(k, #[trigger] part[k]) by {
            assert(cell_fits(k, whole[k]));
        }
    }
}

/// An ASCII character and its byte are the same number.
proof fn lemma_ascii_byte(c: char)
    requires
        c <= '\u{7f}',
    ensures
        c as u8 == c as int,
        '0' as int == 48,
        '1' as int == 49,
        '8' as int == 56,
        ' ' as int == 32,
        '/' as int == 47,
        'P' as int == 80,
        'N' as int == 78,
        'B' as int == 66,
        'R' as int == 82,
        'Q' as int == 81,
        'K' as int == 75,
        'p' as int == 112,
        'n' as int == 110,
        'b' as int == 98,
        'r' as int == 114,
        'q' as int == 113,
        'k' as int == 107,
{
}

/// Whether the byte is the code of one of the twelve piece letters:
/// `PNBRQK` in upper case, then in lower case.
fn is_piece_byte(b: u8) -> (r: bool)
    ensures
        r == (b == 80 || b == 78 || b == 66 || b == 82 || b == 81 || b == 75 || b == 112 || b
            == 110 || b == 98 || b == 114 || b == 113 || b == 107),
{
    b == 80 || b == 78 || b == 66 || b == 82 || b == 81 || b == FIRST_KING || b == 112 || b == 110
        || b == 98 || b == 114 || b == 113 || b == SECOND_KING
}

/// Decides whether a text has the shape of a position: ASCII throughout,
/// and a first field that places one king per side on eight rows of eight
/// squares.
pub fn is_well_formed(text: &str) -> (r: bool)
    ensures
        r == is_fen_shaped(text@),
{
    if !text.is_ascii() {
        return false;
    }
    let bytes = text.as_bytes();
    proof {
        is_ascii_spec_bytes(text);
        assert forall|j: int| 0 <= j < text@.len() implies bytes@[j] == (#[trigger] text@[j]) as int by {
            lemma_ascii_byte(text@[j]);
        }
    }
    let mut n: usize = 0;
    while n < bytes.len() && bytes[n] != SPACE
        invariant
            n <= bytes.len(),
            bytes@.len() == text@.len(),
            forall|j: int| 0 <= j < text@.len() ==> bytes@[j] == (#[trigger] text@[j]) as int,
            is_ascii_chars(text@),
            forall|j: int| 0 <= j < n ==> text@[j] != ' ',
        decreases bytes.len() - n,
    {
        proof {
            lemma_ascii_byte(text@[n as int]);
        }
        n += 1;
    }
    proof {
        if n < bytes.len() {
            lemma_ascii_byte(text@[n as int]);
        }
        lemma_field_length(text@, n as int);
    }
    let ghost placement = first_field(text@);
    let mut rank: usize = 0;
    let mut file: usize = 0;
    let mut first_kings: usize = 0;
    let mut second_kings: usize = 0;
    let mut i: usize = 0;
    while i < n
        invariant
            i <= n <= bytes.len(),
            bytes@.len() == text@.len(),
            forall|j: int| 0 <= j < text@.len() ==> bytes@[j] == (#[trigger] text@[j]) as int,
            is_ascii_chars(text@),
            placement == text@.take(n as int),
            placement == first_field(text@),
            rank <= 7,
            file <= 8,
            expand(placement.take(i as int)).len() == rank * 9 + file,
            is_board_prefix(expand(placement.take(i as int))),
            i <= rank * 9 + file,
            first_kings == count_of(placement.take(i as int), 'K') <= i,
            second_kings == count_of(placement.take(i as int), 'k') <= i,
        decreases n - i,
    {
        let b = bytes[i];
        let ghost c = placement[i as int];
        let ghost before = expand(placement.take(i as int));
        let ghost after = expand(placement.take(i + 1));
        proof {
            lemma_ascii_byte(c);
            lemma_expand_step(placement, i as int);
            assert(forall|k: int| 0 <= k < before.len() ==> after[k] == before[k]);
        }
        let at = rank * 9 + file;
        if DIGIT_ONE <= b && b <= DIGIT_EIGHT {
            let run = (b - DIGIT_ZERO) as usize;
            assert(forall|k: int| at <= k < at + run ==> after[k] == None::<char>);
            if file + run > 8 {
                proof {
                    let k = rank * 9 + 8;
                    assert(!cell_fits(k, after[k]));
                    lemma_bad_prefix(placement, i + 1);
                }
                return false;
            }
            file = file + run;
        } else {
            assert(after[at as int] == Some(c));
            if b == SLASH {
                if file != 8 || rank == 7 {
                    proof {
                        assert(!is_board_prefix(after));
                        lemma_bad_prefix(placement, i + 1);
                    }
                    return false;
                }
                rank = rank + 1;
                file = 0;
            } else if is_piece_byte(b) {
                if file == 8 {
                    proof {
                        assert(!cell_fits(at as int, after[at as int]));
                        lemma_bad_prefix(placement, i + 1);
                    }
                    return false;
                }
                file = file + 1;
                if b == FIRST_KING {
                    first_kings = first_kings + 1;
                }
                if b == SECOND_KING {
                    second_kings = second_kings + 1;
                }
            } else {
                proof {
                    assert(!cell_fits(at as int, after[at as int]));
                    lemma_bad_prefix(placement, i + 1);
                }
                return false;
            }
        }
        i += 1;
    }
    assert(placement.take(i as int) =~= placement);
    rank == 7 && file == 8 && first_kings == 1 && second_kings == 1
}

} // verus!
