//! The rules engine, as this library sees it: a position is a board of the
//! `chess` crate, known to the proofs as a whole, with the marks of check
//! and pin that the engine keeps on it; its FEN text is one of the things
//! the engine reports of it, and two positions may share a text. What the
//! engine reports is named, not computed here.
//!
//! The engine's move generator and move maker do not guard their table
//! lookups, and the generator lists an en-passant capture without regard
//! to check or to what stands on the target square. They are therefore
//! only called on playable boards: ones that the engine's own sanity check
//! has passed, that hold no more material than the generator provides for,
//! and on which the target square of an en-passant capture is empty. A
//! move can lead out of those boards, so every board that a move produces
//! is checked again before anything is asked of it.

use crate::error::EvalError;
use crate::fen::{is_fen_shaped, is_well_formed, material_of, side_of};
use crate::outcome::{GameStatus, Side};
use std::str::FromStr;
use vstd::prelude::*;

verus! {

/// `chess::Board`, carried as it is: nothing inside it is read here.
#[verifier::external_type_specification]
#[verifier::external_body]
pub struct ExBoard(chess::Board);

/// The most pieces one side may have on the board. The engine's move
/// generator keeps one entry per movable piece in a fixed buffer sized for
/// the material of a real game; positions beyond it are not accepted.
pub const MAX_MATERIAL: u32 = 16;

/// One transition of the game: the square a piece leaves, the square it
/// arrives on (both numbered 0..64, a1 = 0, h1 = 7, h8 = 63), and for a
/// promoting pawn the index of the piece it becomes (1 knight, 2 bishop,
/// 3 rook, 4 queen).
#[derive(Clone, Copy, Debug, PartialEq, Eq, Structural)]
pub struct Move {
    pub source: u8,
    pub dest: u8,
    pub promotion: Option<u8>,
}

/// The name of a square in coordinate notation: its file letter, then its
/// row digit.
pub open spec fn square_text(square: u8) -> Seq<char> {
    seq![
        seq!['a', 'b', 'c', 'd', 'e', 'f', 'g', 'h'][(square % 8) as int],
        seq!['1', '2', '3', '4', '5', '6', '7', '8'][(square / 8) as int],
    ]
}

/// A move in coordinate notation: the two squares, then the letter of the
/// piece that a pawn becomes.
pub open spec fn move_text(mv: Move) -> Seq<char> {
    square_text(mv.source) + square_text(mv.dest) + match mv.promotion {
        None => Seq::<char>::empty(),
        Some(piece) => seq![seq!['p', 'n', 'b', 'r', 'q', 'k'][piece as int]],
    }
}

/// What a board holds, all of it: the pieces, the side to move, castling
/// rights, en-passant square, and the engine's marks of check and pin.
/// This is what stands for a position in the contracts.
pub uninterp spec fn board_state(board: chess::Board) -> Seq<char>;

/// The FEN text that the engine writes for a position. It leaves out the
/// marks of check and pin.
pub uninterp spec fn fen_text(position: Seq<char>) -> Seq<char>;

/// The position that the engine reads from a text; `None` where the
/// engine rejects the text.
pub uninterp spec fn engine_parse(text: Seq<char>) -> Option<Seq<char>>;

/// The status that the engine reports of a position.
pub uninterp spec fn engine_status(position: Seq<char>) -> GameStatus;

/// The side to move in a position, as its text has it.
pub open spec fn engine_side(position: Seq<char>) -> Side {
    side_of(fen_text(position))
}

/// The square of the pawn that may be captured en passant, if there is
/// one.
pub uninterp spec fn engine_en_passant(position: Seq<char>) -> Option<u8>;

/// Whether a piece stands on the square.
pub uninterp spec fn engine_occupied(position: Seq<char>, square: u8) -> bool;

/// The moves that the engine lists as legal in a position, in its order of
/// enumeration.
pub uninterp spec fn engine_moves(position: Seq<char>) -> Seq<Move>;

/// The board that results from playing a move, as its text. It need not
/// be playable.
pub uninterp spec fn engine_apply(position: Seq<char>, mv: Move) -> Seq<char>;

/// Whether the engine's own sanity check passes the position: the pieces
/// do not overlap, each side has one king, the side that is not to move is
/// not in check, and castling rights and en-passant square fit the board.
pub uninterp spec fn engine_sane(position: Seq<char>) -> bool;

/// Neither side has more pieces than the move generator provides for.
pub open spec fn within_material(position: Seq<char>) -> bool {
    &&& material_of(fen_text(position), Side::First) <= MAX_MATERIAL
    &&& material_of(fen_text(position), Side::Second) <= MAX_MATERIAL
}

/// The square on which a pawn lands that captures, en passant, the pawn on
/// `pawn`: one row on in the direction of the side to move, if that is on
/// the board.
pub open spec fn en_passant_target(pawn: u8, to_move: Side) -> Option<u8> {
    match to_move {
        Side::First => if pawn < 56 {
            Some((pawn + 8) as u8)
        } else {
            None
        },
        Side::Second => if 8 <= pawn < 64 {
            Some((pawn - 8) as u8)
        } else {
            None
        },
    }
}

/// Where a pawn may be captured en passant, the square that the capturing
/// pawn lands on is empty.
pub open spec fn en_passant_clear(position: Seq<char>) -> bool {
    match engine_en_passant(position) {
        None => true,
        Some(pawn) => match en_passant_target(pawn, engine_side(position)) {
            Some(target) => !engine_occupied(position, target),
            None => false,
        },
    }
}

/// The engine can be asked about the position: it passes the engine's
/// sanity check, is within `MAX_MATERIAL`, and an en-passant capture has
/// an empty square to land on.
pub open spec fn is_playable(position: Seq<char>) -> bool {
    engine_sane(position) && within_material(position) && en_passant_clear(position)
}

/// `text` is read as a position: it has the shape of one, the engine
/// accepts it, and the board it describes is playable.
pub open spec fn is_acceptable(text: Seq<char>) -> bool {
    &&& is_fen_shaped(text)
    &&& engine_parse(text) matches Some(position)
    &&& is_playable(position)
}

/// `mv` is among the moves that the engine lists in `position`.
pub open spec fn is_legal(position: Seq<char>, mv: Move) -> bool {
    engine_moves(position).contains(mv)
}

/// `Board::from_str`: reads a FEN text. The result is the board whose text
/// is named by `engine_parse`, or nothing where the engine refuses the text.
/// A board comes back only after the engine's sanity check has passed it.
/// While reading, the engine looks up the king of the side to move before
/// it has checked that there is one, and indexes into the en-passant field
/// by characters after measuring it in bytes: the text must have the shape
/// of a position for the reading itself to stay within bounds.
#[verifier::external_body]
fn parse_board(text: &str) -> (r: Option<chess::Board>)
    requires
        is_fen_shaped(text@),
    ensures
        match r {
            Some(board) => engine_parse(text@) == Some(board_state(board)) && engine_sane(
                board_state(board),
            ),
            None => engine_parse(text@) is None,
        },
{
    chess::Board::from_str(text).ok()
}

/// `ChessMove`'s `Display`: writes a move in coordinate notation. Squares
/// and piece are looked up by number, which must be in range.
#[verifier::external_body]
fn render_move(mv: Move) -> (r: String)
    requires
        mv.is_on_board(),
    ensures
        r@ == move_text(mv),
{
    chess::ChessMove::new(
        chess::ALL_SQUARES[mv.source as usize],
        chess::ALL_SQUARES[mv.dest as usize],
        mv.promotion.map(|i| chess::ALL_PIECES[i as usize]),
    ).to_string()
}

/// `Board::is_sane`, the engine's own check of a board. It counts the kings
/// before it looks one up, so it may be asked of any board.
#[verifier::external_body]
fn board_sane(board: &chess::Board) -> (r: bool)
    ensures
        r == engine_sane(board_state(*board)),
{
    board.is_sane()
}

/// `Board`'s `Display`: writes the board as FEN. It expects every piece to
/// have a colour, as on any board that passed the sanity check.
#[verifier::external_body]
fn render_board(board: &chess::Board) -> (r: String)
    requires
        engine_sane(board_state(*board)),
    ensures
        r@ == fen_text(board_state(*board)),
{
    board.to_string()
}

/// `BitBoard::popcnt` of `Board::color_combined`: how many pieces a side
/// has, which is how many of its letters the board's text holds.
#[verifier::external_body]
fn board_material(board: &chess::Board, side: Side) -> (r: u32)
    requires
        engine_sane(board_state(*board)),
    ensures
        r == material_of(fen_text(board_state(*board)), side),
{
    let color = match side {
        Side::First => chess::Color::White,
        Side::Second => chess::Color::Black,
    };
    board.color_combined(color).popcnt()
}

/// `Board::status`: checkmate is the decisive status, stalemate the drawn
/// one. It runs the move generator, which looks up the king of the side to
/// move and fills a buffer sized for `MAX_MATERIAL`.
#[verifier::external_body]
fn board_status(board: &chess::Board) -> (r: GameStatus)
    requires
        is_playable(board_state(*board)),
    ensures
        r == engine_status(board_state(*board)),
{
    match board.status() {
        chess::BoardStatus::Ongoing => GameStatus::Ongoing,
        chess::BoardStatus::Checkmate => GameStatus::Decisive,
        chess::BoardStatus::Stalemate => GameStatus::Drawn,
    }
}

/// `Board::side_to_move`: white is the first player, and the text has `w`
/// for its second field when white is to move.
#[verifier::external_body]
fn board_side(board: &chess::Board) -> (r: Side)
    requires
        engine_sane(board_state(*board)),
    ensures
        r == engine_side(board_state(*board)),
{
    match board.side_to_move() {
        chess::Color::White => Side::First,
        chess::Color::Black => Side::Second,
    }
}

/// `MoveGen::new_legal`: every move the generator lists, in its order,
/// each written as its squares and promotion piece. The generator looks up
/// the king of the side to move and fills a buffer sized for
/// `MAX_MATERIAL`.
#[verifier::external_body]
fn board_moves(board: &chess::Board) -> (r: Vec<Move>)
    requires
        is_playable(board_state(*board)),
    ensures
        r@ == engine_moves(board_state(*board)),
{
    chess::MoveGen::new_legal(board).map(
        |m| Move {
            source: m.get_source().to_int(),
            dest: m.get_dest().to_int(),
            promotion: m.get_promotion().map(|p| p.to_index() as u8),
        },
    ).collect()
}

/// `Board::en_passant`: the square of the pawn that may be captured en
/// passant, by its number.
#[verifier::external_body]
fn board_en_passant(board: &chess::Board) -> (r: Option<u8>)
    ensures
        r == engine_en_passant(board_state(*board)),
{
    board.en_passant().map(|square| square.to_int())
}

/// `Board::piece_on`: whether a piece stands on the square.
#[verifier::external_body]
fn board_occupied(board: &chess::Board, square: u8) -> (r: bool)
    requires
        square < 64,
    ensures
        r == engine_occupied(board_state(*board), square),
{
    board.piece_on(chess::ALL_SQUARES[square as usize]).is_some()
}

/// `Board::make_move_new`, which panics on a move that the generator did
/// not list, and looks up the king of the side that does not move. The turn
/// passes to the other side. The board that comes back need not be sane;
/// where it is, its text shows the turn passed.
#[verifier::external_body]
fn board_apply(board: &chess::Board, mv: Move) -> (r: chess::Board)
    requires
        is_playable(board_state(*board)),
        is_legal(board_state(*board), mv),
    ensures
        board_state(r) == engine_apply(board_state(*board), mv),
        engine_sane(board_state(r)) ==> engine_side(board_state(r)) == engine_side(
            board_state(*board),
        ).opponent_spec(),
{
    board.make_move_new(
        chess::ChessMove::new(
            chess::ALL_SQUARES[mv.source as usize],
            chess::ALL_SQUARES[mv.dest as usize],
            mv.promotion.map(|i| chess::ALL_PIECES[i as usize]),
        ),
    )
}

impl Move {
    /// Both squares are on the board and the promotion, if any, names a
    /// piece.
    pub open spec fn is_on_board(&self) -> bool {
        &&& self.source < 64
        &&& self.dest < 64
        &&& self.promotion matches Some(piece) ==> piece < 6
    }

    /// The move in coordinate notation, such as `e2e4` or `b7b8q`; `None`
    /// for a move that is not on the board.
    pub fn to_text(&self) -> (r: Option<String>)
        ensures
            match r {
                Some(text) => self.is_on_board() && text@ == move_text(*self),
                None => !self.is_on_board(),
            },
    {
        let piece_fits = match self.promotion {
            Some(piece) => piece < 6,
            None => true,
        };
        if self.source < 64 && self.dest < 64 && piece_fits {
            Some(render_move(*self))
        } else {
            None
        }
    }
}

/// A game state of the rules engine, always one that the engine can be
/// asked about. Its view stands for the board as a whole; `fen_text` of
/// the view is what `to_fen` writes.
#[derive(Clone, Copy, Debug)]
pub struct Position {
    board: chess::Board,
}

impl View for Position {
    type V = Seq<char>;

    closed spec fn view(&self) -> Seq<char> {
        board_state(self.board)
    }
}

impl Position {
    #[verifier::type_invariant]
    spec fn playable(self) -> bool {
        is_playable(board_state(self.board))
    }

    /// Whether an en-passant capture on the board would land on an empty
    /// square.
    fn en_passant_is_clear(board: &chess::Board) -> (r: bool)
        requires
            engine_sane(board_state(*board)),
        ensures
            r == en_passant_clear(board_state(*board)),
    {
        match board_en_passant(board) {
            None => true,
            Some(pawn) => match board_side(board) {
                Side::First => pawn < 56 && !board_occupied(board, pawn + 8),
                Side::Second => 8 <= pawn && pawn < 64 && !board_occupied(board, pawn - 8),
            },
        }
    }

    /// Takes a board as a position if it is playable.
    fn accept(board: chess::Board) -> (r: Option<Position>)
        ensures
            match r {
                Some(p) => p@ == board_state(board) && is_playable(p@),
                None => !is_playable(board_state(board)),
            },
    {
        if board_sane(&board) && board_material(&board, Side::First) <= MAX_MATERIAL
            && board_material(&board, Side::Second) <= MAX_MATERIAL
            && Position::en_passant_is_clear(&board) {
            Some(Position { board })
        } else {
            None
        }
    }

    /// Reads a position from FEN. The text is refused where it does not
    /// have the shape of a position, where the engine rejects it, where a
    /// side has more than `MAX_MATERIAL` pieces, or where it offers an
    /// en-passant capture onto an occupied square.
    pub fn from_fen(text: &str) -> (r: Result<Position, EvalError>)
        ensures
            match r {
                Ok(p) => is_acceptable(text@) && engine_parse(text@) == Some(p@),
                Err(e) => e == EvalError::InvalidPosition && !is_acceptable(text@),
            },
    {
        if !is_well_formed(text) {
            return Err(EvalError::InvalidPosition);
        }
        match parse_board(text) {
            None => Err(EvalError::InvalidPosition),
            Some(board) => match Position::accept(board) {
                Some(p) => Ok(p),
                None => Err(EvalError::InvalidPosition),
            },
        }
    }

    /// The FEN text of the position.
    pub fn to_fen(&self) -> (r: String)
        ensures
            r@ == fen_text(self@),
    {
        proof {
            use_type_invariant(self);
        }
        render_board(&self.board)
    }

    /// Whether the game goes on, and how it ended if not.
    pub fn status(&self) -> (r: GameStatus)
        ensures
            r == engine_status(self@),
    {
        proof {
            use_type_invariant(self);
        }
        board_status(&self.board)
    }

    /// The side whose turn it is.
    pub fn side_to_move(&self) -> (r: Side)
        ensures
            r == engine_side(self@),
    {
        proof {
            use_type_invariant(self);
        }
        board_side(&self.board)
    }

    /// The moves that the engine lists as legal, in its order.
    pub fn legal_moves(&self) -> (r: Vec<Move>)
        ensures
            r@ == engine_moves(self@),
    {
        proof {
            use_type_invariant(self);
        }
        board_moves(&self.board)
    }

    /// Plays a move that the engine lists here, giving the position after
    /// it and leaving this one as it was. The engine's word is not taken
    /// for the result: where the board after the move is not playable, the
    /// engine has broken its contract and the move fails.
    pub fn apply(&self, mv: Move) -> (r: Result<Position, EvalError>)
        requires
            is_legal(self@, mv),
        ensures
            match r {
                Ok(p) => {
                    &&& p@ == engine_apply(self@, mv)
                    &&& is_playable(p@)
                    &&& engine_side(p@) == engine_side(self@).opponent_spec()
                },
                Err(e) => e == EvalError::InvariantViolation && !is_playable(
                    engine_apply(self@, mv),
                ),
            },
    {
        proof {
            use_type_invariant(self);
        }
        match Position::accept(board_apply(&self.board, mv)) {
            Some(p) => Ok(p),
            None => Err(EvalError::InvariantViolation),
        }
    }

    /// Plays `mv` if the engine lists it here and it leads to a playable
    /// position; `None` otherwise.
    pub fn try_apply(&self, mv: Move) -> (r: Option<Position>)
        ensures
            match r {
                Some(p) => {
                    &&& is_legal(self@, mv)
                    &&& p@ == engine_apply(self@, mv)
                    &&& is_playable(p@)
                    &&& engine_side(p@) == engine_side(self@).opponent_spec()
                },
                None => !is_legal(self@, mv) || !is_playable(engine_apply(self@, mv)),
            },
    {
        let moves = self.legal_moves();
        let mut i: usize = 0;
        while i < moves.len()
            invariant
                i <= moves.len(),
                moves@ == engine_moves(self@),
                forall|j: int| 0 <= j < i ==> moves@[j] != mv,
            decreases moves.len() - i,
        {
            if moves[i] == mv {
                return match self.apply(mv) {
                    Ok(p) => Some(p),
                    Err(_) => None,
                };
            }
            i += 1;
        }
        None
    }
}

} // verus!
