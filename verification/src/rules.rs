//! The rules as statements about positions: capture en passant, castling,
//! promotion, which piece a described move names, what a move makes of a
//! position, and when a side has a move.
use crate::board::{EnPassantFault, MoveErrorKind};
use crate::parser::{coordinate_of, MoveKind, ParsedMoveView};
use crate::piece_types::{PieceColor, QuickPiece};
use crate::pieces::king::King;
use crate::pieces::rook::Rook;
use crate::pieces::{distance, on_board, AnyPiece, PieceMove};
use crate::position::{find_at, BoardView, PlayedMoveView};
use vstd::prelude::*;

verus! {

/// What is special about a move.
#[derive(Debug, PartialEq, Eq, Structural, Clone, Copy)]
pub enum MoveTag {
    /// A move onto an empty square.
    Ordinary,
    /// A move onto a square where a piece of the other side stands.
    Capture,
    /// A pawn's capture of the pawn that has just passed it.
    EnPassantCapture,
    /// The king castles and lands on the given file.
    Castle(usize),
    /// A pawn reaches its last rank and becomes the piece that the letter
    /// names.
    Promotion(char),
}

/// A move as the engine plays it: the letter of the piece, the square it
/// comes from, the square it goes to, and what is special about it.
#[derive(Debug, PartialEq, Eq, Clone, Copy)]
pub struct Move {
    pub piece: char,
    pub from: (usize, usize),
    pub to: (usize, usize),
    pub tag: MoveTag,
}

/// The text that names the piece of a promotion.
pub open spec fn promotion_text(tag: MoveTag) -> Option<Seq<char>> {
    match tag {
        MoveTag::Promotion(letter) => Some(seq![letter]),
        _ => None,
    }
}

/// Why the log does not allow a pawn of `color` to capture en passant onto
/// file `x_end`, rank `y_end`; nothing where it does. The capture needs the
/// destination on the passing rank of the mover, and as the last move that
/// of an opposing pawn which came two ranks down the destination's file
/// and stands right behind the destination.
pub open spec fn passing_fault(
    last: Option<PlayedMoveView>,
    color: PieceColor,
    x_end: int,
    y_end: int,
) -> Option<EnPassantFault> {
    if y_end != color.passing_rank() {
        Some(EnPassantFault::NotPassingRank)
    } else {
        match last {
            None => Some(EnPassantFault::NoLastMove),
            Some(played) => {
                if played.piece != seq!['P'] || played.color == color {
                    Some(EnPassantFault::LastMoveNotPawn)
                } else if played.start.0 != played.end.0 || played.start.0 != x_end {
                    Some(EnPassantFault::WrongFile)
                } else if played.end.1 != y_end - color.forward() {
                    Some(EnPassantFault::NotAdjacent)
                } else if played.start.1 != y_end + color.forward() {
                    Some(EnPassantFault::NotDoubleStep)
                } else {
                    None
                }
            },
        }
    }
}

impl BoardView {
    /// The move that was played last, if any was.
    pub open spec fn last_move(self) -> Option<PlayedMoveView> {
        if self.moves.len() > 0 {
            Some(self.moves.last())
        } else {
            None
        }
    }

    /// The step that only a capture en passant allows to a pawn: one file
    /// sideways and one rank ahead onto an empty square.
    pub open spec fn passing_step(
        self,
        color: PieceColor,
        x_start: int,
        y_start: int,
        x_end: int,
        y_end: int,
    ) -> bool {
        &&& on_board(x_start, y_start)
        &&& on_board(x_end, y_end)
        &&& distance(x_start, x_end) == 1
        &&& y_end == y_start + color.forward()
        &&& !self.grid[x_end][y_end].occupied()
    }

    /// The verdict on a move as a capture en passant by a pawn of `color`:
    /// `Ok(false)` where it is none (the piece is no pawn, or the step is
    /// not the passing step), `Ok(true)` where it is one and the log allows
    /// it, and the fault where the log does not.
    pub open spec fn passing_verdict(
        self,
        symbol: Seq<char>,
        color: PieceColor,
        x_start: int,
        y_start: int,
        x_end: int,
        y_end: int,
    ) -> Result<bool, EnPassantFault> {
        if symbol == seq!['P'] && self.passing_step(color, x_start, y_start, x_end, y_end) {
            match passing_fault(self.last_move(), color, x_end, y_end) {
                Some(fault) => Err(fault),
                None => Ok(true),
            }
        } else {
            Ok(false)
        }
    }

    /// The position without the pawn that a capture en passant takes: the
    /// opposing piece on the end square of the last move.
    pub open spec fn passed(self, color: PieceColor) -> BoardView {
        match self.last_move() {
            Some(played) => self.without(
                color.opposite(),
                played.end.0 as int,
                played.end.1 as int,
            ),
            None => self,
        }
    }
}

/// The piece once it has been moved: a king or a rook has lost the right
/// to castle.
pub open spec fn touched(piece: AnyPiece) -> AnyPiece {
    match piece {
        AnyPiece::King(king) => AnyPiece::King(King { has_moved: true, ..king }),
        AnyPiece::Rook(rook) => AnyPiece::Rook(Rook { has_moved: true, ..rook }),
        _ => piece,
    }
}

/// A piece that has been moved stands where it stood and shows the same.
pub proof fn lemma_touched(piece: AnyPiece)
    ensures
        touched(piece).square() == piece.square(),
        touched(piece).side() == piece.side(),
        touched(piece).content() == piece.content(),
        touched(piece) is King <==> piece is King,
        touched(piece) is Pawn <==> piece is Pawn,
        touched(piece) is Pawn ==> touched(piece) == piece,
{
}

/// The piece that a pawn of `color` becomes on the given square, if the
/// text names a knight, a bishop, a rook or a queen.
pub open spec fn promotion_piece(
    kind: Option<Seq<char>>,
    x: usize,
    y: usize,
    color: PieceColor,
) -> Option<AnyPiece> {
    match kind {
        Some(text) => if text == seq!['N'] || text == seq!['B'] || text == seq!['R'] || text
            == seq!['Q'] {
            AnyPiece::of_letter(text[0], x, y, color)
        } else {
            None
        },
        None => None,
    }
}

/// The piece to promote to that a described move names, if it names one.
pub open spec fn promotion_named(kind: MoveKind) -> Option<Seq<char>> {
    match kind {
        MoveKind::Promote(text) => Some(text),
        _ => None,
    }
}

/// The file on which the rook stands that castles with a king bound for
/// file `king_x_end`.
pub open spec fn rook_file(king_x_end: int) -> int {
    if king_x_end == 6 {
        7
    } else {
        0
    }
}

/// The file on which that rook lands: the one that the king crosses.
pub open spec fn rook_landing(king_x_end: int) -> int {
    if king_x_end == 6 {
        5
    } else {
        3
    }
}

/// Whether the piece fits the letter of a described move.
pub open spec fn fits_kind(piece: AnyPiece, letter: Seq<char>) -> bool {
    letter == seq![piece.letter()]
}

/// Whether the piece stands where a described move says that its piece
/// comes from, as far as it says.
pub open spec fn fits_origin(piece: AnyPiece, start: (Option<Seq<char>>, Option<Seq<char>>)) -> bool {
    &&& start.0 matches Some(file) ==> coordinate_of(file) == Some(piece.square().0)
    &&& start.1 matches Some(rank) ==> coordinate_of(rank) == Some(piece.square().1)
}

/// Whether a pawn's step by `files` files to the side fits the kind of a
/// described move: a capture goes one file to the side, a plain move stays
/// on its file, and a promotion does the one onto a piece and the other
/// onto an empty square.
pub open spec fn fits_pawn_step(kind: MoveKind, files: int, target: QuickPiece) -> bool {
    match kind {
        MoveKind::Take => files == 1,
        MoveKind::Move => files == 0,
        MoveKind::Promote(_) => if target.occupied() {
            files == 1
        } else {
            files == 0
        },
        _ => false,
    }
}

impl BoardView {
    /// Whether the piece at place `i` of the list of `color` can make the
    /// step to the given square that a move of kind `kind` describes: a
    /// move of its own, or for a pawn also the step of a capture en passant.
    pub open spec fn steps_to(self, color: PieceColor, i: int, kind: MoveKind, x: int, y: int) -> bool {
        let piece = self.pieces(color)[i];
        match piece {
            AnyPiece::Pawn(pawn) => {
                &&& pawn.reaches(x, y, self.grid) || self.passing_step(
                    color,
                    pawn.pos_x as int,
                    pawn.pos_y as int,
                    x,
                    y,
                )
                &&& fits_pawn_step(kind, distance(x, pawn.pos_x as int), self.grid[x][y])
            },
            _ => piece.reaches(x, y, self.grid),
        }
    }

    /// Whether the piece at place `i` of the list of `color` has the kind
    /// and the origin that the described move gives.
    pub open spec fn fits(self, color: PieceColor, i: int, described: ParsedMoveView) -> bool {
        &&& 0 <= i < self.pieces(color).len()
        &&& fits_kind(self.pieces(color)[i], described.piece)
        &&& fits_origin(self.pieces(color)[i], described.start)
    }

    /// Whether the piece at place `i` of the list of `color` fits the
    /// described move and can make its step to the given square.
    pub open spec fn candidate(
        self,
        color: PieceColor,
        i: int,
        described: ParsedMoveView,
        x: int,
        y: int,
    ) -> bool {
        &&& self.fits(color, i, described)
        &&& self.steps_to(color, i, described.kind, x, y)
    }

    /// The piece of `color` that a described move to the given square
    /// names: the only candidate, or why there is none.
    pub open spec fn resolution(
        self,
        color: PieceColor,
        described: ParsedMoveView,
        x: int,
        y: int,
    ) -> Result<int, MoveErrorKind> {
        if exists|i: int| self.candidate(color, i, described, x, y) {
            let i = choose|i: int| self.candidate(color, i, described, x, y);
            if forall|j: int| self.candidate(color, j, described, x, y) ==> j == i {
                Ok(i)
            } else {
                Err(MoveErrorKind::Ambiguous)
            }
        } else if exists|i: int| self.fits(color, i, described) {
            Err(MoveErrorKind::IllegalGeometry)
        } else {
            Err(MoveErrorKind::NoMatchingPiece)
        }
    }

    /// The king of `color` stands unmoved on the king's file, and on the
    /// same rank, in the corner of the side to which it is bound, stands an
    /// unmoved rook of its side.
    pub open spec fn castle_pieces_ready(self, color: PieceColor, king_x_end: int) -> bool {
        let own = self.pieces(color);
        let rank = self.king_square(color).1 as int;
        &&& king_x_end == 6 || king_x_end == 2
        &&& self.king_square(color).0 == 4
        &&& 0 <= rank < 8
        &&& find_at(own, 4, rank) matches Some(i) && own[i] matches AnyPiece::King(king)
            && !king.has_moved
        &&& find_at(own, rook_file(king_x_end), rank) matches Some(j) && own[j] matches AnyPiece::Rook(
            rook,
        ) && !rook.has_moved
    }

    /// Every square between the king and the rook is empty.
    pub open spec fn castle_path_clear(self, color: PieceColor, king_x_end: int) -> bool {
        let rank = self.king_square(color).1 as int;
        if king_x_end == 6 {
            !self.grid[5][rank].occupied() && !self.grid[6][rank].occupied()
        } else {
            !self.grid[1][rank].occupied() && !self.grid[2][rank].occupied()
                && !self.grid[3][rank].occupied()
        }
    }

    /// The king is not attacked where it stands, nor would it be on the
    /// square that it crosses or on the square where it lands.
    #[verifier::opaque]
    pub open spec fn castle_path_safe(self, color: PieceColor, king_x_end: int) -> bool {
        let rank = self.king_square(color).1 as int;
        &&& !self.in_check(color)
        &&& !self.exposes(4, rank, rook_landing(king_x_end), rank, color, color)
        &&& !self.exposes(4, rank, king_x_end, rank, color, color)
    }

    /// Whether the king of `color` may castle so as to land on file
    /// `king_x_end`.
    pub open spec fn can_castle(self, color: PieceColor, king_x_end: int) -> bool {
        &&& self.castle_pieces_ready(color, king_x_end)
        &&& self.castle_path_clear(color, king_x_end)
        &&& self.castle_path_safe(color, king_x_end)
    }

    /// The position with the piece at place `i` of the list of `color`
    /// exchanged for another.
    pub open spec fn with_piece(self, color: PieceColor, i: int, piece: AnyPiece) -> BoardView {
        self.with_pieces(color, self.pieces(color).update(i, piece))
    }

    /// The position after the king of `color` has castled: the king stands
    /// on file `king_x_end`, the rook beside it on the file that the king
    /// crossed, and neither may castle again.
    pub open spec fn castled(self, color: PieceColor, king_x_end: int) -> BoardView {
        let rank = self.king_square(color).1 as int;
        let i = find_at(self.pieces(color), 4, rank)->0;
        let j = find_at(self.pieces(color), rook_file(king_x_end), rank)->0;
        let with_king = self.applied(4, rank, king_x_end, rank, color);
        let with_rook = with_king.applied(
            rook_file(king_x_end),
            rank,
            rook_landing(king_x_end),
            rank,
            color,
        );
        let king_done = with_rook.with_piece(color, i, touched(with_rook.pieces(color)[i]));
        king_done.with_piece(color, j, touched(king_done.pieces(color)[j]))
    }

    /// The position after the first piece of `color` on the start square
    /// has moved to the end square: lifted there, it has lost the right to
    /// castle if it is a king or a rook, and has become `promoted` if that
    /// is given.
    pub open spec fn moved(
        self,
        color: PieceColor,
        x_start: int,
        y_start: int,
        x_end: int,
        y_end: int,
        promoted: Option<AnyPiece>,
    ) -> BoardView {
        let i = find_at(self.pieces(color), x_start, y_start)->0;
        let lifted = self.applied(x_start, y_start, x_end, y_end, color);
        let settled = match promoted {
            Some(piece) => piece,
            None => touched(lifted.pieces(color)[i]),
        };
        lifted.with_piece(color, i, settled)
    }

    /// The position with one more move in its log, played by the side of
    /// that move.
    pub open spec fn recorded(self, entry: PlayedMoveView) -> BoardView {
        BoardView { moves: self.moves.push(entry), ..self }
    }

    /// The position with the turn passed on.
    pub open spec fn turned(self) -> BoardView {
        BoardView { last_move_color: self.last_move_color.opposite(), ..self }
    }

    /// Whether the first piece of `color` on the start square is a pawn
    /// that reaches its last rank on rank `y_end`.
    pub open spec fn promotes(
        self,
        color: PieceColor,
        x_start: int,
        y_start: int,
        y_end: int,
    ) -> bool {
        &&& find_at(self.pieces(color), x_start, y_start) matches Some(i)
        &&& self.pieces(color)[i] is Pawn
        &&& y_end == color.back_rank()
    }

    /// Whether the first piece of `color` on the start square is a pawn
    /// that captures en passant on the end square, and may.
    pub open spec fn captures_passing(
        self,
        symbol: Seq<char>,
        color: PieceColor,
        x_start: int,
        y_start: int,
        x_end: int,
        y_end: int,
    ) -> bool {
        self.passing_verdict(symbol, color, x_start, y_start, x_end, y_end) == Ok::<
            bool,
            EnPassantFault,
        >(true)
    }

    /// The position after a move of a piece of `color` has been played for
    /// good: the pawn that a capture en passant takes has left the board,
    /// the piece has moved, a pawn on its last rank has become the piece
    /// that `promotion` names, the move stands in the log, and the
    /// fingerprint of the new placement is counted.
    pub open spec fn played(
        self,
        symbol: Seq<char>,
        color: PieceColor,
        x_start: int,
        y_start: int,
        x_end: int,
        y_end: int,
        promotion: Option<Seq<char>>,
    ) -> BoardView {
        let base = if self.captures_passing(symbol, color, x_start, y_start, x_end, y_end) {
            self.passed(color)
        } else {
            self
        };
        let promoted = if self.promotes(color, x_start, y_start, y_end) {
            promotion_piece(promotion, x_end as usize, y_end as usize, color)
        } else {
            None
        };
        base.moved(color, x_start, y_start, x_end, y_end, promoted).recorded(
            PlayedMoveView {
                piece: symbol,
                start: (x_start as usize, y_start as usize),
                end: (x_end as usize, y_end as usize),
                color,
                promotion,
            },
        ).counted()
    }
}

impl BoardView {
    /// What is special about the move of the piece at place `i` of the list
    /// of `color` to the given square, or why the move is refused: a pawn's
    /// diagonal step onto an empty square needs the last move to allow a
    /// capture en passant, and a pawn that reaches its last rank needs a
    /// piece to become.
    pub open spec fn tag_of(
        self,
        color: PieceColor,
        i: int,
        described: ParsedMoveView,
        x: int,
        y: int,
    ) -> Result<MoveTag, MoveErrorKind> {
        let from = self.pieces(color)[i].square();
        match self.passing_verdict(described.piece, color, from.0 as int, from.1 as int, x, y) {
            Err(fault) => Err(MoveErrorKind::InvalidEnPassant(fault)),
            Ok(passing) => if passing {
                Ok(MoveTag::EnPassantCapture)
            } else if self.promotes(color, from.0 as int, from.1 as int, y) {
                match promotion_piece(
                    promotion_named(described.kind),
                    x as usize,
                    y as usize,
                    color,
                ) {
                    Some(piece) => Ok(MoveTag::Promotion(piece.letter())),
                    None => Err(MoveErrorKind::InvalidPromotion),
                }
            } else if self.grid[x][y].occupied() {
                Ok(MoveTag::Capture)
            } else {
                Ok(MoveTag::Ordinary)
            },
        }
    }

    /// The move of the side to move that a description names, or why it
    /// names none. A castling is the king's move to the given file. Any
    /// other move needs a destination on the board and exactly one piece
    /// that fits the description and can make the step.
    pub open spec fn resolved(self, described: ParsedMoveView) -> Result<Move, MoveErrorKind> {
        let color = self.to_move();
        match described.kind {
            MoveKind::Castle(file) => Ok(
                Move {
                    piece: 'K',
                    from: self.king_square(color),
                    to: (file, self.king_square(color).1),
                    tag: MoveTag::Castle(file),
                },
            ),
            MoveKind::FinalResult(_) => Err(MoveErrorKind::Malformed),
            _ => match (coordinate_of(described.end.0), coordinate_of(described.end.1)) {
                (Some(x), Some(y)) => match self.resolution(color, described, x as int, y as int) {
                    Err(kind) => Err(kind),
                    Ok(i) => match self.tag_of(color, i, described, x as int, y as int) {
                        Err(kind) => Err(kind),
                        Ok(tag) => Ok(
                            Move {
                                piece: self.pieces(color)[i].letter(),
                                from: self.pieces(color)[i].square(),
                                to: (x, y),
                                tag,
                            },
                        ),
                    },
                },
                _ => Err(MoveErrorKind::Malformed),
            },
        }
    }

    /// Whether the move is one that the side to move can make on this
    /// position: its squares are on the board, its piece stands on the
    /// start square, no piece of its own side stands on the end square,
    /// and its tag says what the position says of it.
    pub open spec fn admits(self, mv: Move) -> bool {
        let color = self.to_move();
        let (x_start, y_start) = (mv.from.0 as int, mv.from.1 as int);
        let (x_end, y_end) = (mv.to.0 as int, mv.to.1 as int);
        match mv.tag {
            MoveTag::Castle(_) => mv.piece == 'K',
            _ => {
                &&& on_board(x_start, y_start)
                &&& on_board(x_end, y_end)
                &&& find_at(self.pieces(color), x_start, y_start) matches Some(i)
                &&& self.pieces(color)[i].letter() == mv.piece
                &&& !self.grid[x_end][y_end].holds(color)
                &&& mv.tag is EnPassantCapture <==> self.captures_passing(
                    seq![mv.piece],
                    color,
                    x_start,
                    y_start,
                    x_end,
                    y_end,
                )
                &&& mv.tag is Promotion <==> self.promotes(color, x_start, y_start, y_end)
                &&& mv.tag is Promotion ==> promotion_piece(
                    promotion_text(mv.tag),
                    mv.to.0,
                    mv.to.1,
                    color,
                ) is Some
                &&& mv.tag is Capture ==> self.grid[x_end][y_end].occupied()
                &&& mv.tag is Ordinary ==> !self.grid[x_end][y_end].occupied()
            },
        }
    }

    /// Whether the move is legal for the side to move: a castling where
    /// the king may castle, any other move where it does not leave the
    /// mover's own king attacked.
    pub open spec fn allowed(self, mv: Move) -> bool {
        let color = self.to_move();
        let (x_start, y_start) = (mv.from.0 as int, mv.from.1 as int);
        let (x_end, y_end) = (mv.to.0 as int, mv.to.1 as int);
        match mv.tag {
            MoveTag::Castle(file) => self.can_castle(color, file as int),
            MoveTag::EnPassantCapture => {
                &&& on_board(x_start, y_start)
                &&& on_board(x_end, y_end)
                &&& self.has_piece(color, x_start, y_start)
                &&& !self.passed(color).exposes(x_start, y_start, x_end, y_end, color, color)
            },
            _ => {
                &&& on_board(x_start, y_start)
                &&& on_board(x_end, y_end)
                &&& self.has_piece(color, x_start, y_start)
                &&& !self.exposes(x_start, y_start, x_end, y_end, color, color)
            },
        }
    }

    /// The entry of the log for a castling of the king of `color`.
    pub open spec fn castle_entry(self, color: PieceColor, king_x_end: int) -> PlayedMoveView {
        PlayedMoveView {
            piece: seq!['K'],
            start: (4, self.king_square(color).1),
            end: (king_x_end as usize, self.king_square(color).1),
            color,
            promotion: None,
        }
    }

    /// The position after the side to move has made the move, with the
    /// turn passed on.
    pub open spec fn committed(self, mv: Move) -> BoardView {
        let color = self.to_move();
        match mv.tag {
            MoveTag::Castle(file) => self.castled(color, file as int).recorded(
                self.castle_entry(color, file as int),
            ).counted().turned(),
            _ => self.played(
                seq![mv.piece],
                color,
                mv.from.0 as int,
                mv.from.1 as int,
                mv.to.0 as int,
                mv.to.1 as int,
                promotion_text(mv.tag),
            ).turned(),
        }
    }

    /// What becomes of a described move of the side to move: the position
    /// after it, with the turn passed on, or why it is refused. A move is
    /// played where the description names one and it is legal.
    pub open spec fn answer(self, described: ParsedMoveView) -> Result<BoardView, MoveErrorKind> {
        match self.resolved(described) {
            Err(kind) => Err(kind),
            Ok(mv) => if self.allowed(mv) {
                Ok(self.committed(mv))
            } else if mv.tag is Castle {
                Err(MoveErrorKind::InvalidCastle)
            } else {
                Err(MoveErrorKind::SelfCheck)
            },
        }
    }
}

impl BoardView {
    /// Whether the piece at place `i` of the list of `color` may move to
    /// the given square: by a move of its own that does not leave the king
    /// of its side attacked, or, if it is a pawn, by a capture en passant
    /// that the last move allows and that does not.
    #[verifier::opaque]
    pub open spec fn legal_step(self, color: PieceColor, i: int, x: int, y: int) -> bool {
        let piece = self.pieces(color)[i];
        let from_x = piece.square().0 as int;
        let from_y = piece.square().1 as int;
        &&& 0 <= i < self.pieces(color).len()
        &&& on_board(x, y)
        &&& on_board(from_x, from_y)
        &&& {
            ||| piece.reaches(x, y, self.grid) && !self.exposes(from_x, from_y, x, y, color, color)
            ||| {
                &&& piece is Pawn
                &&& self.passing_step(color, from_x, from_y, x, y)
                &&& passing_fault(self.last_move(), color, x, y) is None
                &&& !self.passed(color).exposes(from_x, from_y, x, y, color, color)
            }
        }
    }

    /// Whether the `k`-th of the squares that the shape of its movement
    /// allows to the piece at place `i` is one that it may move to.
    pub open spec fn listed_step(self, color: PieceColor, i: int, k: int) -> bool {
        let squares = self.pieces(color)[i].reachable();
        &&& 0 <= i < self.pieces(color).len()
        &&& 0 <= k < squares.len()
        &&& self.legal_step(color, i, squares[k].0 as int, squares[k].1 as int)
    }

    /// Whether a search finds a legal move for `color`: a piece with a
    /// legal step among the squares that the shape of its movement allows,
    /// or a castling to either side.
    pub open spec fn can_move(self, color: PieceColor) -> bool {
        ||| exists|i: int, k: int| self.listed_step(color, i, k)
        ||| self.can_castle(color, 6)
        ||| self.can_castle(color, 2)
    }

    /// The king of `color` is attacked and `color` has no move.
    pub open spec fn checkmated(self, color: PieceColor) -> bool {
        self.in_check(color) && !self.can_move(color)
    }

    /// The king of `color` is not attacked and `color` has no move.
    pub open spec fn stalemated(self, color: PieceColor) -> bool {
        !self.in_check(color) && !self.can_move(color)
    }
}

} // verus!