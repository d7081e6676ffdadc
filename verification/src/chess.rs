//! The chess engine.
//!
//! The board is a 64-slot array addressed row by row from white's side:
//! slot 0 is a1, slot 7 is h1, slot 63 is h8.  The engine enforces
//! ownership and the special-move rules (castling, en passant, promotion)
//! but deliberately performs no general move-legality validation — path
//! blocking, pins, and check-escape enforcement are a client concern.
//! Likewise `is_checkmate` and `is_stalemate` are never set here; only
//! `is_check` is recomputed, by geometric reachability per piece kind.

use vstd::prelude::*;
use crate::types::{GameOutcome, Player};

verus! {

#[derive(Debug, Clone, Copy, PartialEq, Eq, Structural)]
pub enum PieceType {
    Pawn,
    Knight,
    Bishop,
    Rook,
    Queen,
    King,
}

#[derive(Debug, Clone, Copy, PartialEq, Eq, Structural)]
pub struct ChessPiece {
    pub piece_type: PieceType,
    pub owner: Player,
    pub has_moved: bool,
}

#[derive(Debug, Clone, Copy, PartialEq, Eq, Structural)]
pub struct CastlingRights {
    pub white_kingside: bool,
    pub white_queenside: bool,
    pub black_kingside: bool,
    pub black_queenside: bool,
}

impl Default for CastlingRights {
    /// All four rights intact.
    fn default() -> (r: CastlingRights)
        ensures
            r == (CastlingRights {
                white_kingside: true,
                white_queenside: true,
                black_kingside: true,
                black_queenside: true,
            }),
    {
        CastlingRights {
            white_kingside: true,
            white_queenside: true,
            black_kingside: true,
            black_queenside: true,
        }
    }
}

/// One entry of the append-only move history.
#[derive(Debug, Clone)]
pub struct ChessMoveRecord {
    pub from_square: u8,
    pub to_square: u8,
    pub piece: PieceType,
    pub captured: Option<PieceType>,
    pub promotion: Option<PieceType>,
    pub is_castle: bool,
    pub is_en_passant: bool,
    pub notation: String,
    pub timestamp: u64,
}

#[derive(Debug, Clone)]
pub struct ChessBoard {
    pub squares: Vec<Option<ChessPiece>>,
    pub active_player: Player,
    pub castling_rights: CastlingRights,
    pub en_passant_square: Option<u8>,
    pub halfmove_clock: u16,
    pub fullmove_number: u16,
    pub move_history: Vec<ChessMoveRecord>,
    pub is_check: bool,
    pub is_checkmate: bool,
    pub is_stalemate: bool,
    pub captured_white: Vec<PieceType>,
    pub captured_black: Vec<PieceType>,
}

// ---------------------------------------------------------------------------
// Board geometry.

/// The back-row piece of column `col` in the initial position.
pub open spec fn spec_back_piece(col: int) -> PieceType {
    if col == 0 || col == 7 {
        PieceType::Rook
    } else if col == 1 || col == 6 {
        PieceType::Knight
    } else if col == 2 || col == 5 {
        PieceType::Bishop
    } else if col == 3 {
        PieceType::Queen
    } else {
        PieceType::King
    }
}

/// The occupant of slot `i` in the initial position.
pub open spec fn spec_initial_square(i: int) -> Option<ChessPiece> {
    if 0 <= i < 8 {
        Some(ChessPiece { piece_type: spec_back_piece(i), owner: Player::One, has_moved: false })
    } else if 8 <= i < 16 {
        Some(ChessPiece { piece_type: PieceType::Pawn, owner: Player::One, has_moved: false })
    } else if 48 <= i < 56 {
        Some(ChessPiece { piece_type: PieceType::Pawn, owner: Player::Two, has_moved: false })
    } else if 56 <= i < 64 {
        Some(ChessPiece {
            piece_type: spec_back_piece(i - 56),
            owner: Player::Two,
            has_moved: false,
        })
    } else {
        None
    }
}

/// Absolute difference of two board coordinates.
pub open spec fn spec_abs_diff(a: int, b: int) -> int {
    if a >= b {
        a - b
    } else {
        b - a
    }
}

/// Whether a piece of kind `pt` owned by `owner` standing on `from` reaches
/// `to` geometrically.  Intervening pieces are deliberately ignored.
pub open spec fn spec_can_attack(from: int, to: int, pt: PieceType, owner: Player) -> bool {
    let rd = spec_abs_diff(to / 8, from / 8);
    let cd = spec_abs_diff(to % 8, from % 8);
    match pt {
        PieceType::Pawn => {
            let direction: int = if owner == Player::One {
                1
            } else {
                -1
            };
            cd == 1 && to / 8 - from / 8 == direction
        },
        PieceType::Knight => (rd == 2 && cd == 1) || (rd == 1 && cd == 2),
        PieceType::Bishop => rd == cd && rd > 0,
        PieceType::Rook => (rd == 0 || cd == 0) && (rd > 0 || cd > 0),
        PieceType::Queen => (rd == cd || rd == 0 || cd == 0) && (rd > 0 || cd > 0),
        PieceType::King => rd <= 1 && cd <= 1 && (rd > 0 || cd > 0),
    }
}

/// Whether slot `i` of `s` holds a piece of `by` that reaches `to`.
pub open spec fn spec_attacker_at(
    s: Seq<Option<ChessPiece>>,
    i: int,
    to: int,
    by: Player,
) -> bool {
    match s[i] {
        Some(p) => p.owner == by && spec_can_attack(i, to, p.piece_type, p.owner),
        None => false,
    }
}

/// Whether any piece of `by` reaches `to` geometrically.
pub open spec fn spec_attacked(s: Seq<Option<ChessPiece>>, to: int, by: Player) -> bool {
    exists|i: int| 0 <= i < s.len() && #[trigger] spec_attacker_at(s, i, to, by)
}

/// The first slot at or after `i` holding `player`'s king.
pub open spec fn spec_find_king_from(
    s: Seq<Option<ChessPiece>>,
    player: Player,
    i: int,
) -> Option<int>
    decreases s.len() - i,
{
    if i < 0 || i >= s.len() {
        None
    } else {
        match s[i] {
            Some(p) => if p.piece_type == PieceType::King && p.owner == player {
                Some(i)
            } else {
                spec_find_king_from(s, player, i + 1)
            },
            None => spec_find_king_from(s, player, i + 1),
        }
    }
}

// ---------------------------------------------------------------------------
// The functional model of one accepted move.

/// Whether the move is a castle: the king steps two files from its home
/// slot toward either rook slot.
pub open spec fn spec_is_castle(piece: ChessPiece, from: int, to: int) -> bool {
    piece.piece_type == PieceType::King && ((from == 4 && (to == 6 || to == 2)) || (from == 60 && (
    to == 62 || to == 58)))
}

/// Whether the move captures en passant: a pawn steps diagonally onto the
/// recorded en-passant slot with nothing on the destination.
pub open spec fn spec_is_en_passant(b: ChessBoard, piece: ChessPiece, from: int, to: int) -> bool {
    piece.piece_type == PieceType::Pawn && b.en_passant_square == Some(to as u8) && from % 8 != to
        % 8 && b.squares@[to] is None
}

/// The slot of the pawn removed by an en-passant capture.
pub open spec fn spec_ep_capture_slot(active: Player, to: int) -> int {
    if active == Player::One {
        to - 8
    } else {
        to + 8
    }
}

/// The en-passant slot recorded after the move: set only on a two-square
/// pawn advance, to the slot passed over.
pub open spec fn spec_new_en_passant(piece: ChessPiece, from: int, to: int) -> Option<u8> {
    if piece.piece_type == PieceType::Pawn && spec_abs_diff(to, from) == 16 {
        Some(((from + to) / 2) as u8)
    } else {
        None
    }
}

/// A rook picked up during castling: marked moved, absent slots stay empty.
pub open spec fn spec_moved_rook(sq: Option<ChessPiece>) -> Option<ChessPiece> {
    match sq {
        Some(p) => Some(
            ChessPiece { piece_type: p.piece_type, owner: p.owner, has_moved: true },
        ),
        None => None,
    }
}

/// The board after the castling rook (if any) has been relocated.
pub open spec fn spec_after_castle(
    s: Seq<Option<ChessPiece>>,
    is_castle: bool,
    to: int,
) -> Seq<Option<ChessPiece>> {
    if !is_castle {
        s
    } else if to == 6 {
        s.update(5, spec_moved_rook(s[7])).update(7, None)
    } else if to == 2 {
        s.update(3, spec_moved_rook(s[0])).update(0, None)
    } else if to == 62 {
        s.update(61, spec_moved_rook(s[63])).update(63, None)
    } else if to == 58 {
        s.update(59, spec_moved_rook(s[56])).update(56, None)
    } else {
        s
    }
}

/// The board after the en-passant victim (if any) has been removed.
pub open spec fn spec_after_en_passant(
    s: Seq<Option<ChessPiece>>,
    is_ep: bool,
    active: Player,
    to: int,
) -> Seq<Option<ChessPiece>> {
    if is_ep {
        s.update(spec_ep_capture_slot(active, to), None)
    } else {
        s
    }
}

/// The piece standing on the destination after the move: promoted when a
/// pawn reaches the last rank (queen unless told otherwise), marked moved.
pub open spec fn spec_final_piece(
    piece: ChessPiece,
    to: int,
    promotion: Option<PieceType>,
) -> ChessPiece {
    if piece.piece_type == PieceType::Pawn && (to / 8 == 0 || to / 8 == 7) {
        ChessPiece {
            piece_type: match promotion {
                Some(p) => p,
                None => PieceType::Queen,
            },
            owner: piece.owner,
            has_moved: true,
        }
    } else {
        ChessPiece { piece_type: piece.piece_type, owner: piece.owner, has_moved: true }
    }
}

/// The full board transformation of one accepted move.
pub open spec fn spec_squares_after(
    b: ChessBoard,
    piece: ChessPiece,
    from: int,
    to: int,
    promotion: Option<PieceType>,
) -> Seq<Option<ChessPiece>> {
    let s1 = spec_after_castle(b.squares@, spec_is_castle(piece, from, to), to);
    let s2 = spec_after_en_passant(
        s1,
        spec_is_en_passant(b, piece, from, to),
        b.active_player,
        to,
    );
    s2.update(to, Some(spec_final_piece(piece, to, promotion))).update(from, None)
}

/// Castling rights after the move: cleared for the owner on a king move,
/// and for the matching side when a rook leaves its home slot.
pub open spec fn spec_rights_after(
    r: CastlingRights,
    piece: ChessPiece,
    from: int,
) -> CastlingRights {
    let after_king = if piece.piece_type == PieceType::King {
        if piece.owner == Player::One {
            CastlingRights { white_kingside: false, white_queenside: false, ..r }
        } else {
            CastlingRights { black_kingside: false, black_queenside: false, ..r }
        }
    } else {
        r
    };
    if piece.piece_type == PieceType::Rook {
        if from == 0 {
            CastlingRights { white_queenside: false, ..after_king }
        } else if from == 7 {
            CastlingRights { white_kingside: false, ..after_king }
        } else if from == 56 {
            CastlingRights { black_queenside: false, ..after_king }
        } else if from == 63 {
            CastlingRights { black_kingside: false, ..after_king }
        } else {
            after_king
        }
    } else {
        after_king
    }
}

/// The capture list of the mover after the move: the captured piece kind is
/// appended, and an en-passant capture appends a pawn.
pub open spec fn spec_captures_after(
    list: Seq<PieceType>,
    captured: Option<ChessPiece>,
    is_ep: bool,
) -> Seq<PieceType> {
    let l1 = match captured {
        Some(c) => list.push(c.piece_type),
        None => list,
    };
    if is_ep {
        l1.push(PieceType::Pawn)
    } else {
        l1
    }
}

/// The halfmove clock after the move: reset by a pawn move or capture,
/// incremented otherwise.
pub open spec fn spec_halfmove_after(
    clock: u16,
    piece: ChessPiece,
    captured: Option<ChessPiece>,
) -> int {
    if piece.piece_type == PieceType::Pawn || captured is Some {
        0
    } else {
        clock + 1
    }
}

/// The check flag after the move: recomputed for the new active seat's
/// king by geometric reachability; left alone if that king is absent.
pub open spec fn spec_check_after(
    s: Seq<Option<ChessPiece>>,
    new_active: Player,
    old_flag: bool,
) -> bool {
    match spec_find_king_from(s, new_active, 0) {
        Some(k) => spec_attacked(s, k, new_active.spec_other()),
        None => old_flag,
    }
}

/// The outcome reported for the move, read from the post-move board.
pub open spec fn spec_outcome_after(b: ChessBoard) -> GameOutcome {
    if b.is_checkmate {
        GameOutcome::Winner(b.active_player.spec_other())
    } else if b.is_stalemate || b.halfmove_clock >= 100 {
        GameOutcome::Draw
    } else {
        GameOutcome::InProgress
    }
}

// ---------------------------------------------------------------------------
// Move notation.

pub open spec fn spec_file_char(col: int) -> char {
    if col == 0 {
        'a'
    } else if col == 1 {
        'b'
    } else if col == 2 {
        'c'
    } else if col == 3 {
        'd'
    } else if col == 4 {
        'e'
    } else if col == 5 {
        'f'
    } else if col == 6 {
        'g'
    } else {
        'h'
    }
}

pub open spec fn spec_rank_char(row: int) -> char {
    if row == 0 {
        '1'
    } else if row == 1 {
        '2'
    } else if row == 2 {
        '3'
    } else if row == 3 {
        '4'
    } else if row == 4 {
        '5'
    } else if row == 5 {
        '6'
    } else if row == 6 {
        '7'
    } else {
        '8'
    }
}

/// The letter naming a piece kind in notation; pawns contribute nothing.
pub open spec fn spec_piece_letter(pt: PieceType) -> Seq<char> {
    match pt {
        PieceType::Pawn => Seq::empty(),
        PieceType::Knight => seq!['N'],
        PieceType::Bishop => seq!['B'],
        PieceType::Rook => seq!['R'],
        PieceType::Queen => seq!['Q'],
        PieceType::King => seq!['K'],
    }
}

/// The letter naming the piece a pawn promotes to.
pub open spec fn spec_promo_char(pt: PieceType) -> char {
    match pt {
        PieceType::Rook => 'R',
        PieceType::Bishop => 'B',
        PieceType::Knight => 'N',
        _ => 'Q',
    }
}

/// The human-readable notation recorded for a move.
pub open spec fn spec_notation(
    from: int,
    to: int,
    piece: ChessPiece,
    captured: Option<PieceType>,
    promotion: Option<PieceType>,
    is_castle: bool,
) -> Seq<char> {
    if is_castle {
        if to % 8 > from % 8 {
            seq!['O', '-', 'O']
        } else {
            seq!['O', '-', 'O', '-', 'O']
        }
    } else {
        let capture_part = if captured is Some {
            if piece.piece_type == PieceType::Pawn {
                seq![spec_file_char(from % 8), 'x']
            } else {
                seq!['x']
            }
        } else {
            Seq::empty()
        };
        let promo_part = match promotion {
            Some(p) => seq!['=', spec_promo_char(p)],
            None => Seq::empty(),
        };
        spec_piece_letter(piece.piece_type) + capture_part + seq![
            spec_file_char(to % 8),
            spec_rank_char(to / 8),
        ] + promo_part
    }
}

// ---------------------------------------------------------------------------
// Rejection model.

/// Why a move is refused, in the order the checks run.
pub open spec fn spec_move_rejected(b: ChessBoard, from: int, to: int) -> bool {
    ||| from >= 64
    ||| to >= 64
    ||| b.squares@[from] is None
    ||| b.squares@[from]->Some_0.owner != b.active_player
    ||| (b.squares@[to] is Some && b.squares@[to]->Some_0.owner
        == b.squares@[from]->Some_0.owner)
}

/// The full effect of one accepted move on the board record.
pub open spec fn spec_move_applied(
    b: ChessBoard,
    post: ChessBoard,
    from: int,
    to: int,
    promotion: Option<PieceType>,
    timestamp: u64,
) -> bool {
    let piece = b.squares@[from]->Some_0;
    let captured = b.squares@[to];
    let is_ep = spec_is_en_passant(b, piece, from, to);
    &&& post.squares@ == spec_squares_after(b, piece, from, to, promotion)
    &&& post.active_player == b.active_player.spec_other()
    &&& post.castling_rights == spec_rights_after(b.castling_rights, piece, from)
    &&& post.en_passant_square == spec_new_en_passant(piece, from, to)
    &&& post.halfmove_clock == spec_halfmove_after(b.halfmove_clock, piece, captured)
    &&& post.fullmove_number == if b.active_player == Player::Two {
        b.fullmove_number + 1
    } else {
        b.fullmove_number as int
    }
    &&& post.captured_black@ == if b.active_player == Player::One {
        spec_captures_after(b.captured_black@, captured, is_ep)
    } else {
        b.captured_black@
    }
    &&& post.captured_white@ == if b.active_player == Player::Two {
        spec_captures_after(b.captured_white@, captured, is_ep)
    } else {
        b.captured_white@
    }
    &&& post.move_history@.len() == b.move_history@.len() + 1
    &&& post.move_history@.drop_last() == b.move_history@
    &&& {
        let rec = post.move_history@.last();
        &&& rec.from_square == from
        &&& rec.to_square == to
        &&& rec.piece == piece.piece_type
        &&& rec.captured == match captured {
            Some(c) => Some(c.piece_type),
            None => None::<PieceType>,
        }
        &&& rec.promotion == promotion
        &&& rec.is_castle == spec_is_castle(piece, from, to)
        &&& rec.is_en_passant == is_ep
        &&& rec.notation@ == spec_notation(
            from,
            to,
            piece,
            match captured {
                Some(c) => Some(c.piece_type),
                None => None::<PieceType>,
            },
            promotion,
            spec_is_castle(piece, from, to),
        )
        &&& rec.timestamp == timestamp
    }
    &&& post.is_check == spec_check_after(
        post.squares@,
        b.active_player.spec_other(),
        b.is_check,
    )
    &&& post.is_checkmate == b.is_checkmate
    &&& post.is_stalemate == b.is_stalemate
}

impl ChessBoard {
    /// Structural soundness: 64 slots, and any recorded en-passant slot is
    /// a slot a pawn can actually have passed over, so its victim slot is
    /// on the board.
    pub open spec fn wf(self) -> bool {
        &&& self.squares@.len() == 64
        &&& match self.en_passant_square {
            Some(e) => 8 <= e < 56,
            None => true,
        }
    }

    /// A fresh board in the initial position, white (seat one) to move.
    pub fn new() -> (board: ChessBoard)
        ensures
            board.wf(),
            board.squares@ == Seq::new(64, |i: int| spec_initial_square(i)),
            board.active_player == Player::One,
            board.castling_rights == (CastlingRights {
                white_kingside: true,
                white_queenside: true,
                black_kingside: true,
                black_queenside: true,
            }),
            board.en_passant_square is None,
            board.halfmove_clock == 0,
            board.fullmove_number == 1,
            board.move_history@.len() == 0,
            !board.is_check,
            !board.is_checkmate,
            !board.is_stalemate,
            board.captured_white@.len() == 0,
            board.captured_black@.len() == 0,
    {
        let mut board = ChessBoard {
            squares: Vec::new(),
            active_player: Player::One,
            castling_rights: CastlingRights::default(),
            en_passant_square: None,
            halfmove_clock: 0,
            fullmove_number: 1,
            move_history: Vec::new(),
            is_check: false,
            is_checkmate: false,
            is_stalemate: false,
            captured_white: Vec::new(),
            captured_black: Vec::new(),
        };
        board.setup_initial_position();
        board
    }

    /// Fills an empty square list with the initial position.
    fn setup_initial_position(&mut self)
        requires
            old(self).squares@.len() == 0,
        ensures
            final(self).squares@ == Seq::new(64, |i: int| spec_initial_square(i)),
            *final(self) == (ChessBoard { squares: final(self).squares, ..*old(self) }),
    {
        let mut i: usize = 0;
        while i < 64
            invariant
                i <= 64,
                self.squares@.len() == i,
                forall|k: int| 0 <= k < i ==> self.squares@[k] == spec_initial_square(k),
                *self == (ChessBoard { squares: self.squares, ..*old(self) }),
            decreases 64 - i,
        {
            let sq: Option<ChessPiece> = if i < 8 {
                Some(
                    ChessPiece {
                        piece_type: Self::back_piece(i),
                        owner: Player::One,
                        has_moved: false,
                    },
                )
            } else if i < 16 {
                Some(
                    ChessPiece { piece_type: PieceType::Pawn, owner: Player::One, has_moved: false },
                )
            } else if i >= 56 {
                Some(
                    ChessPiece {
                        piece_type: Self::back_piece(i - 56),
                        owner: Player::Two,
                        has_moved: false,
                    },
                )
            } else if i >= 48 {
                Some(
                    ChessPiece { piece_type: PieceType::Pawn, owner: Player::Two, has_moved: false },
                )
            } else {
                None
            };
            self.squares.push(sq);
            i = i + 1;
        }
        proof {
            assert(self.squares@ =~= Seq::new(64, |k: int| spec_initial_square(k)));
        }
    }

    /// Applies one move for the active seat.
    ///
    /// Checked, in order: both slots on the board, a piece on the source,
    /// owned by the active seat, and the destination free of the mover's
    /// own pieces.  A refused move leaves the board untouched.  An accepted
    /// move performs the special-move handling (castling rook relocation,
    /// en-passant removal, promotion), updates the en-passant slot,
    /// castling rights and counters, records the move, flips the active
    /// seat and recomputes the check flag.  No other legality validation is
    /// performed.
    #[verifier::rlimit(100)]
    pub fn make_move(
        &mut self,
        from: u8,
        to: u8,
        promotion: Option<PieceType>,
        timestamp: u64,
    ) -> (r: Result<GameOutcome, String>)
        requires
            old(self).wf(),
            old(self).halfmove_clock < u16::MAX,
            old(self).fullmove_number < u16::MAX,
        ensures
            final(self).wf(),
            r is Err <==> spec_move_rejected(*old(self), from as int, to as int),
            r is Err ==> *final(self) == *old(self),
            (from >= 64 || to >= 64) ==> r->Err_0@ == "Invalid square"@,
            (from < 64 && to < 64 && old(self).squares@[from as int] is None) ==> r->Err_0@
                == "No piece at source"@,
            (from < 64 && to < 64 && old(self).squares@[from as int] is Some && old(
                self,
            ).squares@[from as int]->Some_0.owner != old(self).active_player) ==> r->Err_0@
                == "Not your piece"@,
            (from < 64 && to < 64 && old(self).squares@[from as int] is Some && old(
                self,
            ).squares@[from as int]->Some_0.owner == old(self).active_player && old(
                self,
            ).squares@[to as int] is Some && old(self).squares@[to as int]->Some_0.owner == old(
                self,
            ).squares@[from as int]->Some_0.owner) ==> r->Err_0@ == "Cannot capture own piece"@,
            !spec_move_rejected(*old(self), from as int, to as int) ==> spec_move_applied(
                *old(self),
                *final(self),
                from as int,
                to as int,
                promotion,
                timestamp,
            ) && r == Ok::<GameOutcome, String>(spec_outcome_after(*final(self))),
    {
        if from >= 64 || to >= 64 {
            return Err("Invalid square".to_owned());
        }

        let piece = match self.squares[from as usize] {
            Some(p) => p,
            None => {
                return Err("No piece at source".to_owned());
            },
        };

        if piece.owner != self.active_player {
            return Err("Not your piece".to_owned());
        }

        let captured = self.squares[to as usize];

        // Record the capture before touching the board.
        match captured {
            Some(cap) => {
                if cap.owner == piece.owner {
                    return Err("Cannot capture own piece".to_owned());
                }
                match self.active_player {
                    Player::One => self.captured_black.push(cap.piece_type),
                    Player::Two => self.captured_white.push(cap.piece_type),
                }
            },
            None => {},
        }

        // Castling: relocate the matching rook.
        let is_castle = matches!(piece.piece_type, PieceType::King) && ((from == 4 && (to == 6 || to
            == 2)) || (from == 60 && (to == 62 || to == 58)));

        self.relocate_castling_rook(is_castle, to);

        // En passant: remove the bypassed pawn.
        let is_en_passant = matches!(piece.piece_type, PieceType::Pawn) && self.en_passant_square
            == Some(to) && from % 8 != to % 8 && captured.is_none();

        self.remove_en_passant_victim(is_en_passant, to);

        // Record the en-passant slot opened by a two-square pawn advance.
        self.en_passant_square = if matches!(piece.piece_type, PieceType::Pawn) {
            let diff = if to >= from {
                to - from
            } else {
                from - to
            };
            if diff == 16 {
                Some((from + to) / 2)
            } else {
                None
            }
        } else {
            None
        };

        // Promotion on the last rank; every moved piece is marked moved.
        let final_piece = if matches!(piece.piece_type, PieceType::Pawn) && (to / 8 == 0 || to / 8
            == 7) {
            ChessPiece {
                piece_type: match promotion {
                    Some(p) => p,
                    None => PieceType::Queen,
                },
                owner: piece.owner,
                has_moved: true,
            }
        } else {
            ChessPiece { piece_type: piece.piece_type, owner: piece.owner, has_moved: true }
        };

        self.squares[to as usize] = Some(final_piece);
        self.squares[from as usize] = None;

        // Castling rights follow the king and the rook home slots.
        self.clear_castling_rights(&piece, from);

        let captured_kind = match captured {
            Some(c) => Some(c.piece_type),
            None => None,
        };
        let notation = Self::generate_notation(from, to, &piece, captured_kind, promotion, is_castle);

        self.move_history.push(
            ChessMoveRecord {
                from_square: from,
                to_square: to,
                piece: piece.piece_type,
                captured: captured_kind,
                promotion,
                is_castle,
                is_en_passant,
                notation,
                timestamp,
            },
        );

        if matches!(piece.piece_type, PieceType::Pawn) || captured.is_some() {
            self.halfmove_clock = 0;
        } else {
            self.halfmove_clock = self.halfmove_clock + 1;
        }

        if self.active_player == Player::Two {
            self.fullmove_number = self.fullmove_number + 1;
        }

        self.active_player = self.active_player.other();

        self.update_game_status();

        proof {
            assert(self.move_history@.drop_last() =~= old(self).move_history@);
            assert(spec_move_applied(
                *old(self),
                *self,
                from as int,
                to as int,
                promotion,
                timestamp,
            ));
        }

        if self.is_checkmate {
            Ok(GameOutcome::Winner(self.active_player.other()))
        } else if self.is_stalemate || self.halfmove_clock >= 100 {
            Ok(GameOutcome::Draw)
        } else {
            Ok(GameOutcome::InProgress)
        }
    }

    /// A castling rook placed on its new slot, marked moved.
    fn rook_marked_moved(sq: Option<ChessPiece>) -> (r: Option<ChessPiece>)
        ensures
            r == spec_moved_rook(sq),
    {
        match sq {
            Some(p) => Some(
                ChessPiece { piece_type: p.piece_type, owner: p.owner, has_moved: true },
            ),
            None => None,
        }
    }

    /// Moves the rook matching a castling destination to its new slot.
    fn relocate_castling_rook(&mut self, is_castle: bool, to: u8)
        requires
            old(self).wf(),
        ensures
            final(self).squares@ == spec_after_castle(old(self).squares@, is_castle, to as int),
            *final(self) == (ChessBoard { squares: final(self).squares, ..*old(self) }),
    {
        if is_castle {
            if to == 6 {
                let rook = self.squares[7];
                self.squares[5] = Self::rook_marked_moved(rook);
                self.squares[7] = None;
            } else if to == 2 {
                let rook = self.squares[0];
                self.squares[3] = Self::rook_marked_moved(rook);
                self.squares[0] = None;
            } else if to == 62 {
                let rook = self.squares[63];
                self.squares[61] = Self::rook_marked_moved(rook);
                self.squares[63] = None;
            } else if to == 58 {
                let rook = self.squares[56];
                self.squares[59] = Self::rook_marked_moved(rook);
                self.squares[56] = None;
            }
        }
    }

    /// Removes the pawn bypassed by an en-passant capture and records it on
    /// the mover's capture list.
    fn remove_en_passant_victim(&mut self, is_en_passant: bool, to: u8)
        requires
            old(self).wf(),
            is_en_passant ==> 8 <= to < 56,
        ensures
            final(self).squares@ == spec_after_en_passant(
                old(self).squares@,
                is_en_passant,
                old(self).active_player,
                to as int,
            ),
            final(self).captured_black@ == if is_en_passant && old(self).active_player
                == Player::One {
                old(self).captured_black@.push(PieceType::Pawn)
            } else {
                old(self).captured_black@
            },
            final(self).captured_white@ == if is_en_passant && old(self).active_player
                == Player::Two {
                old(self).captured_white@.push(PieceType::Pawn)
            } else {
                old(self).captured_white@
            },
            *final(self) == (ChessBoard {
                squares: final(self).squares,
                captured_black: final(self).captured_black,
                captured_white: final(self).captured_white,
                ..*old(self)
            }),
    {
        if is_en_passant {
            let captured_pawn_sq: u8 = if self.active_player == Player::One {
                to - 8
            } else {
                to + 8
            };
            self.squares[captured_pawn_sq as usize] = None;
            match self.active_player {
                Player::One => self.captured_black.push(PieceType::Pawn),
                Player::Two => self.captured_white.push(PieceType::Pawn),
            }
        }
    }

    /// Clears the castling rights given up by moving `piece` off `from`.
    fn clear_castling_rights(&mut self, piece: &ChessPiece, from: u8)
        ensures
            final(self).castling_rights == spec_rights_after(
                old(self).castling_rights,
                *piece,
                from as int,
            ),
            *final(self) == (ChessBoard {
                castling_rights: final(self).castling_rights,
                ..*old(self)
            }),
    {
        if matches!(piece.piece_type, PieceType::King) {
            match piece.owner {
                Player::One => {
                    self.castling_rights.white_kingside = false;
                    self.castling_rights.white_queenside = false;
                },
                Player::Two => {
                    self.castling_rights.black_kingside = false;
                    self.castling_rights.black_queenside = false;
                },
            }
        }
        if matches!(piece.piece_type, PieceType::Rook) {
            if from == 0 {
                self.castling_rights.white_queenside = false;
            } else if from == 7 {
                self.castling_rights.white_kingside = false;
            } else if from == 56 {
                self.castling_rights.black_queenside = false;
            } else if from == 63 {
                self.castling_rights.black_kingside = false;
            }
        }
    }

    /// The first slot holding `player`'s king, if any.
    pub fn find_king(&self, player: Player) -> (r: Option<u8>)
        requires
            self.wf(),
        ensures
            match r {
                Some(k) => k < 64 && spec_find_king_from(self.squares@, player, 0) == Some(
                    k as int,
                ),
                None => spec_find_king_from(self.squares@, player, 0) is None,
            },
    {
        let mut i: usize = 0;
        while i < 64
            invariant
                i <= 64,
                self.wf(),
                spec_find_king_from(self.squares@, player, 0) == spec_find_king_from(
                    self.squares@,
                    player,
                    i as int,
                ),
            decreases 64 - i,
        {
            match self.squares[i] {
                Some(piece) => {
                    if matches!(piece.piece_type, PieceType::King) && piece.owner == player {
                        return Some(i as u8);
                    }
                },
                None => {},
            }
            i = i + 1;
        }
        None
    }

    /// Whether any piece of `by_player` reaches `square` geometrically.
    pub fn is_square_attacked(&self, square: u8, by_player: Player) -> (r: bool)
        requires
            self.wf(),
            square < 64,
        ensures
            r == spec_attacked(self.squares@, square as int, by_player),
    {
        let mut i: usize = 0;
        while i < 64
            invariant
                i <= 64,
                self.wf(),
                square < 64,
                forall|k: int|
                    0 <= k < i ==> !spec_attacker_at(self.squares@, k, square as int, by_player),
            decreases 64 - i,
        {
            match self.squares[i] {
                Some(piece) => {
                    if piece.owner == by_player {
                        if Self::can_piece_attack(i as u8, square, &piece) {
                            proof {
                                assert(spec_attacker_at(
                                    self.squares@,
                                    i as int,
                                    square as int,
                                    by_player,
                                ));
                            }
                            return true;
                        }
                    }
                },
                None => {},
            }
            i = i + 1;
        }
        false
    }

    /// Whether `piece` standing on `from` reaches `to` geometrically.
    pub fn can_piece_attack(from: u8, to: u8, piece: &ChessPiece) -> (r: bool)
        requires
            from < 64,
            to < 64,
        ensures
            r == spec_can_attack(from as int, to as int, piece.piece_type, piece.owner),
    {
        let from_row = from / 8;
        let from_col = from % 8;
        let to_row = to / 8;
        let to_col = to % 8;
        let row_diff = if to_row >= from_row {
            to_row - from_row
        } else {
            from_row - to_row
        };
        let col_diff = if to_col >= from_col {
            to_col - from_col
        } else {
            from_col - to_col
        };

        match piece.piece_type {
            PieceType::Pawn => {
                if piece.owner == Player::One {
                    col_diff == 1 && to_row == from_row + 1
                } else {
                    col_diff == 1 && from_row == to_row + 1
                }
            },
            PieceType::Knight => (row_diff == 2 && col_diff == 1) || (row_diff == 1 && col_diff
                == 2),
            PieceType::Bishop => row_diff == col_diff && row_diff > 0,
            PieceType::Rook => (row_diff == 0 || col_diff == 0) && (row_diff > 0 || col_diff > 0),
            PieceType::Queen => (row_diff == col_diff || row_diff == 0 || col_diff == 0) && (
            row_diff > 0 || col_diff > 0),
            PieceType::King => row_diff <= 1 && col_diff <= 1 && (row_diff > 0 || col_diff > 0),
        }
    }

    /// Recomputes the check flag for the seat now to move.
    fn update_game_status(&mut self)
        requires
            old(self).wf(),
        ensures
            *final(self) == (ChessBoard {
                is_check: spec_check_after(
                    old(self).squares@,
                    old(self).active_player,
                    old(self).is_check,
                ),
                ..*old(self)
            }),
    {
        match self.find_king(self.active_player) {
            Some(king_pos) => {
                let attacked = self.is_square_attacked(king_pos, self.active_player.other());
                self.is_check = attacked;
            },
            None => {},
        }
    }

    /// The file letter of column `col`.
    fn file_char(col: u8) -> (r: char)
        requires
            col < 8,
        ensures
            r == spec_file_char(col as int),
    {
        if col == 0 {
            'a'
        } else if col == 1 {
            'b'
        } else if col == 2 {
            'c'
        } else if col == 3 {
            'd'
        } else if col == 4 {
            'e'
        } else if col == 5 {
            'f'
        } else if col == 6 {
            'g'
        } else {
            'h'
        }
    }

    /// The rank digit of row `row`.
    fn rank_char(row: u8) -> (r: char)
        requires
            row < 8,
        ensures
            r == spec_rank_char(row as int),
    {
        if row == 0 {
            '1'
        } else if row == 1 {
            '2'
        } else if row == 2 {
            '3'
        } else if row == 3 {
            '4'
        } else if row == 4 {
            '5'
        } else if row == 5 {
            '6'
        } else if row == 6 {
            '7'
        } else {
            '8'
        }
    }

    /// Builds the human-readable notation recorded for a move.
    fn generate_notation(
        from: u8,
        to: u8,
        piece: &ChessPiece,
        captured: Option<PieceType>,
        promotion: Option<PieceType>,
        is_castle: bool,
    ) -> (s: String)
        requires
            from < 64,
            to < 64,
        ensures
            s@ == spec_notation(from as int, to as int, *piece, captured, promotion, is_castle),
    {
        let mut s = String::new();
        if is_castle {
            s.push('O');
            s.push('-');
            s.push('O');
            if to % 8 <= from % 8 {
                s.push('-');
                s.push('O');
            }
            proof {
                assert(s@ =~= spec_notation(
                    from as int,
                    to as int,
                    *piece,
                    captured,
                    promotion,
                    is_castle,
                ));
            }
            return s;
        }

        match piece.piece_type {
            PieceType::Pawn => {},
            PieceType::Knight => s.push('N'),
            PieceType::Bishop => s.push('B'),
            PieceType::Rook => s.push('R'),
            PieceType::Queen => s.push('Q'),
            PieceType::King => s.push('K'),
        }

        if captured.is_some() {
            if matches!(piece.piece_type, PieceType::Pawn) {
                s.push(Self::file_char(from % 8));
            }
            s.push('x');
        }

        s.push(Self::file_char(to % 8));
        s.push(Self::rank_char(to / 8));

        match promotion {
            Some(p) => {
                s.push('=');
                s.push(
                    match p {
                        PieceType::Rook => 'R',
                        PieceType::Bishop => 'B',
                        PieceType::Knight => 'N',
                        _ => 'Q',
                    },
                );
            },
            None => {},
        }

        proof {
            assert(s@ =~= spec_notation(
                from as int,
                to as int,
                *piece,
                captured,
                promotion,
                is_castle,
            ));
        }
        s
    }

    /// The back-row piece of column `col`.
    fn back_piece(col: usize) -> (r: PieceType)
        requires
            col < 8,
        ensures
            r == spec_back_piece(col as int),
    {
        if col == 0 || col == 7 {
            PieceType::Rook
        } else if col == 1 || col == 6 {
            PieceType::Knight
        } else if col == 2 || col == 5 {
            PieceType::Bishop
        } else if col == 3 {
            PieceType::Queen
        } else {
            PieceType::King
        }
    }
}

} // verus!
