//! Reading moves in algebraic notation.
use crate::text::{first_char, is_letter, split_words, unit, words};
use vstd::prelude::*;

verus! {

/// A move as its notation describes it: the letter of the piece, what the
/// notation says of the square it comes from, the square it goes to, what
/// kind of move it is, and whether the notation claims check or mate.
#[derive(Debug, PartialEq)]
pub struct ParsedMove {
    pub piece_char: String,
    pub starting_coords: (Option<String>, Option<String>),
    pub end_coords: (String, String),
    pub move_type: MoveTypes,
    pub check_or_checkmate: CheckOrCheckMate,
}

/// The kinds of move that notation tells apart.
#[derive(Debug, Eq, PartialEq)]
pub enum MoveTypes {
    Move,
    Take,
    /// A pawn reaches its last rank and becomes the named piece.
    Promote(String),
    /// The king castles and ends on the given file.
    Castle(usize),
    FinalResult(GameResult),
}

/// How a game ended.
#[derive(Debug, Eq, PartialEq, Structural, Clone, Copy)]
pub enum GameResult {
    WhiteWin,
    BlackWin,
    Draw,
}

/// What the notation of a move claims of the opposing king.
#[derive(Debug, Eq, PartialEq, Structural, Clone, Copy)]
pub enum CheckOrCheckMate {
    Check,
    CheckMate,
    Neither,
}

/// Text that is no move in notation.
#[derive(Debug)]
pub struct ParseError {
    pub details: String,
}

/// The kind of a described move, as a value.
pub enum MoveKind {
    Move,
    Take,
    Promote(Seq<char>),
    Castle(usize),
    FinalResult(GameResult),
}

/// A described move, as a value.
pub struct ParsedMoveView {
    pub piece: Seq<char>,
    pub start: (Option<Seq<char>>, Option<Seq<char>>),
    pub end: (Seq<char>, Seq<char>),
    pub kind: MoveKind,
    pub check: CheckOrCheckMate,
}

impl View for MoveTypes {
    type V = MoveKind;

    open spec fn view(&self) -> MoveKind {
        match self {
            MoveTypes::Move => MoveKind::Move,
            MoveTypes::Take => MoveKind::Take,
            MoveTypes::Promote(kind) => MoveKind::Promote(kind@),
            MoveTypes::Castle(file) => MoveKind::Castle(*file),
            MoveTypes::FinalResult(result) => MoveKind::FinalResult(*result),
        }
    }
}

/// The text that an optional string holds.
pub open spec fn text_of(text: Option<String>) -> Option<Seq<char>> {
    match text {
        Some(s) => Some(s@),
        None => None,
    }
}

impl View for ParsedMove {
    type V = ParsedMoveView;

    open spec fn view(&self) -> ParsedMoveView {
        ParsedMoveView {
            piece: self.piece_char@,
            start: (text_of(self.starting_coords.0), text_of(self.starting_coords.1)),
            end: (self.end_coords.0@, self.end_coords.1@),
            kind: self.move_type@,
            check: self.check_or_checkmate,
        }
    }
}

impl ParsedMove {
    /// A described move.
    pub fn new(
        piece_char: String,
        starting_coords: (Option<String>, Option<String>),
        end_coords: (String, String),
        move_type: MoveTypes,
        check_or_checkmate: CheckOrCheckMate,
    ) -> (parsed: ParsedMove)
        ensures
            parsed == (ParsedMove {
                piece_char,
                starting_coords,
                end_coords,
                move_type,
                check_or_checkmate,
            }),
    {
        ParsedMove { piece_char, starting_coords, end_coords, move_type, check_or_checkmate }
    }
}

impl ParseError {
    /// A complaint with the given sentence.
    pub fn new(msg: &str) -> (error: ParseError)
        ensures
            error.details@ == msg@,
    {
        ParseError { details: String::from_str(msg) }
    }

    /// The sentence for the player.
    pub fn description(&self) -> (text: String)
        ensures
            text@ == self.details@,
    {
        self.details.clone()
    }
}

/// The file that a letter from `a` to `h` names, or the rank that a digit
/// from `1` to `8` names, counted from 0.
pub open spec fn coordinate_of(text: Seq<char>) -> Option<usize> {
    if text == seq!['a'] || text == seq!['1'] {
        Some(0)
    } else if text == seq!['b'] || text == seq!['2'] {
        Some(1)
    } else if text == seq!['c'] || text == seq!['3'] {
        Some(2)
    } else if text == seq!['d'] || text == seq!['4'] {
        Some(3)
    } else if text == seq!['e'] || text == seq!['5'] {
        Some(4)
    } else if text == seq!['f'] || text == seq!['6'] {
        Some(5)
    } else if text == seq!['g'] || text == seq!['7'] {
        Some(6)
    } else if text == seq!['h'] || text == seq!['8'] {
        Some(7)
    } else {
        None
    }
}

/// The file or rank that the text names, if it names one.
pub fn read_coordinate(coordinate: &str) -> (value: Option<usize>)
    ensures
        value == coordinate_of(coordinate@),
{
    if is_letter(coordinate, 'a') || is_letter(coordinate, '1') {
        Some(0)
    } else if is_letter(coordinate, 'b') || is_letter(coordinate, '2') {
        Some(1)
    } else if is_letter(coordinate, 'c') || is_letter(coordinate, '3') {
        Some(2)
    } else if is_letter(coordinate, 'd') || is_letter(coordinate, '4') {
        Some(3)
    } else if is_letter(coordinate, 'e') || is_letter(coordinate, '5') {
        Some(4)
    } else if is_letter(coordinate, 'f') || is_letter(coordinate, '6') {
        Some(5)
    } else if is_letter(coordinate, 'g') || is_letter(coordinate, '7') {
        Some(6)
    } else if is_letter(coordinate, 'h') || is_letter(coordinate, '8') {
        Some(7)
    } else {
        None
    }
}

/// The file or rank that the text names.
pub fn parse_coordinate(coordinate: &str) -> (value: usize)
    requires
        coordinate_of(coordinate@) is Some,
    ensures
        Some(value) == coordinate_of(coordinate@),
{
    match read_coordinate(coordinate) {
        Some(value) => value,
        None => 0,
    }
}

/// Whether the character names a file.
pub open spec fn is_file(c: char) -> bool {
    'a' <= c <= 'h'
}

/// Whether the character names a rank.
pub open spec fn is_rank(c: char) -> bool {
    '1' <= c <= '8'
}

/// The text of the single character at place `i`.
pub open spec fn one(text: Seq<char>, i: int) -> Seq<char> {
    seq![text[i]]
}

/// What the last character of a move's notation claims.
pub open spec fn claim(text: Seq<char>) -> CheckOrCheckMate {
    if text.len() > 0 && text.last() == '+' {
        CheckOrCheckMate::Check
    } else if text.len() > 0 && text.last() == '#' {
        CheckOrCheckMate::CheckMate
    } else {
        CheckOrCheckMate::Neither
    }
}

/// A described move of the piece named `piece`.
pub open spec fn description(
    text: Seq<char>,
    piece: Seq<char>,
    start: (Option<Seq<char>>, Option<Seq<char>>),
    end: (Seq<char>, Seq<char>),
    kind: MoveKind,
) -> Option<ParsedMoveView> {
    Some(ParsedMoveView { piece, start, end, kind, check: claim(text) })
}

/// The move of a pawn that the text describes, if it describes one. The
/// text starts with the pawn's file. A rank from 2 to 7 after it makes a
/// plain move. An `x` makes a capture on the square that follows, and a
/// promotion where `=` and a piece follow the square. A rank 1 or 8 makes
/// a promotion to the piece that follows it, with or without `=`.
pub open spec fn pawn_described(text: Seq<char>) -> Option<ParsedMoveView> {
    let pawn = seq!['P'];
    if text.len() < 2 {
        None
    } else if '2' <= text[1] <= '7' {
        description(
            text,
            pawn,
            (Some(one(text, 0)), None),
            (one(text, 0), one(text, 1)),
            MoveKind::Move,
        )
    } else if text[1] == 'x' {
        if text.len() < 4 {
            None
        } else if text.len() >= 6 && text[4] == '=' {
            description(
                text,
                pawn,
                (Some(one(text, 0)), None),
                (one(text, 2), one(text, 3)),
                MoveKind::Promote(one(text, 5)),
            )
        } else {
            description(
                text,
                pawn,
                (Some(one(text, 0)), None),
                (one(text, 2), one(text, 3)),
                MoveKind::Take,
            )
        }
    } else if text[1] == '1' || text[1] == '8' {
        if text.len() < 3 {
            None
        } else if text[2] == 'Q' || text[2] == 'R' || text[2] == 'B' || text[2] == 'N' {
            description(
                text,
                pawn,
                (None, None),
                (one(text, 0), one(text, 1)),
                MoveKind::Promote(one(text, 2)),
            )
        } else if text[2] == '=' && text.len() >= 4 {
            description(
                text,
                pawn,
                (None, None),
                (one(text, 0), one(text, 1)),
                MoveKind::Promote(one(text, 3)),
            )
        } else {
            None
        }
    } else {
        None
    }
}

/// The move of a piece that the text describes, if it describes one. The
/// text starts with the letter of the piece. Then comes the destination,
/// after an `x` where the move captures; before that may stand the file,
/// or the file and the rank, of the square that the piece comes from.
pub open spec fn piece_described(text: Seq<char>) -> Option<ParsedMoveView> {
    let piece = one(text, 0);
    if text.len() < 3 {
        None
    } else if text[1] == 'x' {
        if text.len() < 4 {
            None
        } else {
            description(text, piece, (None, None), (one(text, 2), one(text, 3)), MoveKind::Take)
        }
    } else if is_file(text[1]) {
        if is_file(text[2]) {
            if text.len() < 4 {
                None
            } else {
                description(
                    text,
                    piece,
                    (Some(one(text, 1)), None),
                    (one(text, 2), one(text, 3)),
                    MoveKind::Move,
                )
            }
        } else if is_rank(text[2]) {
            if text.len() >= 6 && text[3] == 'x' {
                description(
                    text,
                    piece,
                    (Some(one(text, 1)), Some(one(text, 2))),
                    (one(text, 4), one(text, 5)),
                    MoveKind::Take,
                )
            } else if text.len() >= 5 && is_file(text[3]) {
                description(
                    text,
                    piece,
                    (Some(one(text, 1)), Some(one(text, 2))),
                    (one(text, 3), one(text, 4)),
                    MoveKind::Move,
                )
            } else if text.len() >= 4 && (text[3] == 'x' || is_file(text[3])) {
                None
            } else {
                description(text, piece, (None, None), (one(text, 1), one(text, 2)), MoveKind::Move)
            }
        } else if text[2] == 'x' {
            if text.len() < 5 {
                None
            } else {
                description(
                    text,
                    piece,
                    (Some(one(text, 1)), None),
                    (one(text, 3), one(text, 4)),
                    MoveKind::Take,
                )
            }
        } else {
            None
        }
    } else {
        None
    }
}

/// The castling that the text describes, by its length alone: `O-O` for
/// the king's side and `O-O-O` for the queen's, each with or without a
/// claim of check.
pub open spec fn castle_described(text: Seq<char>) -> Option<ParsedMoveView> {
    let king = seq!['K'];
    let nowhere = (Seq::<char>::empty(), Seq::<char>::empty());
    if text.len() == 3 {
        Some(
            ParsedMoveView {
                piece: king,
                start: (None, None),
                end: nowhere,
                kind: MoveKind::Castle(6),
                check: CheckOrCheckMate::Neither,
            },
        )
    } else if text.len() == 4 {
        description(text, king, (None, None), nowhere, MoveKind::Castle(6))
    } else if text.len() == 5 {
        Some(
            ParsedMoveView {
                piece: king,
                start: (None, None),
                end: nowhere,
                kind: MoveKind::Castle(2),
                check: CheckOrCheckMate::Neither,
            },
        )
    } else if text.len() == 6 {
        description(text, king, (None, None), nowhere, MoveKind::Castle(2))
    } else {
        None
    }
}

/// The result of a game that the text names.
pub open spec fn result_of(text: Seq<char>) -> Option<GameResult> {
    if text == seq!['1', '-', '0'] {
        Some(GameResult::WhiteWin)
    } else if text == seq!['0', '-', '1'] {
        Some(GameResult::BlackWin)
    } else if text == seq!['1', '/', '2', '-', '1', '/', '2'] {
        Some(GameResult::Draw)
    } else {
        None
    }
}

/// The end of a game that the text describes, if it names a result.
pub open spec fn score_described(text: Seq<char>) -> Option<ParsedMoveView> {
    match result_of(text) {
        Some(result) => description(
            text,
            Seq::empty(),
            (None, None),
            (Seq::empty(), Seq::empty()),
            MoveKind::FinalResult(result),
        ),
        None => None,
    }
}

/// The move that the text describes, if it describes one: by its first
/// character the move of a pawn, the move of a piece, a castling, or the
/// result of the game.
pub open spec fn described(text: Seq<char>) -> Option<ParsedMoveView> {
    if text.len() == 0 {
        None
    } else if is_file(text[0]) {
        pawn_described(text)
    } else if text[0] == 'K' || text[0] == 'Q' || text[0] == 'R' || text[0] == 'B' || text[0]
        == 'N' {
        piece_described(text)
    } else if text[0] == 'O' {
        castle_described(text)
    } else if text[0] == '1' || text[0] == '0' {
        score_described(text)
    } else {
        None
    }
}

/// What a reading of a move came to, as a value.
pub open spec fn reading(outcome: Result<ParsedMove, ParseError>) -> Option<ParsedMoveView> {
    match outcome {
        Ok(parsed) => Some(parsed@),
        Err(_) => None,
    }
}

impl GameResult {
    /// The result that the text names, if it names one.
    pub fn read(input_string: &str) -> (result: Option<GameResult>)
        ensures
            result == result_of(input_string@),
    {
        let count = input_string.unicode_len();
        if count == 3 {
            let a = input_string.get_char(0);
            let b = input_string.get_char(1);
            let c = input_string.get_char(2);
            if a == '1' && b == '-' && c == '0' {
                assert(input_string@ =~= seq!['1', '-', '0']);
                Some(GameResult::WhiteWin)
            } else if a == '0' && b == '-' && c == '1' {
                assert(input_string@ =~= seq!['0', '-', '1']);
                Some(GameResult::BlackWin)
            } else {
                assert(seq!['1', '-', '0'][0] == '1' && seq!['1', '-', '0'][1] == '-' && seq![
                    '1',
                    '-',
                    '0',
                ][2] == '0');
                assert(seq!['0', '-', '1'][0] == '0' && seq!['0', '-', '1'][1] == '-' && seq![
                    '0',
                    '-',
                    '1',
                ][2] == '1');
                None
            }
        } else if count == 7 {
            let draw = input_string.get_char(0) == '1' && input_string.get_char(1) == '/'
                && input_string.get_char(2) == '2' && input_string.get_char(3) == '-'
                && input_string.get_char(4) == '1' && input_string.get_char(5) == '/'
                && input_string.get_char(6) == '2';
            let ghost wanted = seq!['1', '/', '2', '-', '1', '/', '2'];
            if draw {
                assert(input_string@ =~= wanted);
                Some(GameResult::Draw)
            } else {
                assert(wanted[0] == '1' && wanted[1] == '/' && wanted[2] == '2' && wanted[3] == '-'
                    && wanted[4] == '1' && wanted[5] == '/' && wanted[6] == '2');
                None
            }
        } else {
            None
        }
    }

    /// The result that the text names.
    pub fn from_string(input_string: &String) -> (result: GameResult)
        requires
            result_of(input_string@) is Some,
        ensures
            Some(result) == result_of(input_string@),
    {
        match GameResult::read(input_string.as_str()) {
            Some(result) => result,
            None => GameResult::Draw,
        }
    }
}

/// Whether the character names a file.
pub fn is_file_char(c: char) -> (file: bool)
    ensures
        file == is_file(c),
{
    'a' <= c && c <= 'h'
}

/// Whether the character names a rank.
pub fn is_rank_char(c: char) -> (rank: bool)
    ensures
        rank == is_rank(c),
{
    '1' <= c && c <= '8'
}

/// What the last character of a move's notation claims.
pub fn check_for_check_or_mate(move_string: &str) -> (claimed: CheckOrCheckMate)
    ensures
        claimed == claim(move_string@),
{
    let count = move_string.unicode_len();
    if count == 0 {
        return CheckOrCheckMate::Neither;
    }
    match move_string.get_char(count - 1) {
        '+' => CheckOrCheckMate::Check,
        '#' => CheckOrCheckMate::CheckMate,
        _ => CheckOrCheckMate::Neither,
    }
}

/// Reads the result of a game.
pub fn parse_final_score(move_string: String) -> (outcome: Result<ParsedMove, ParseError>)
    ensures
        reading(outcome) == score_described(move_string@),
{
    match GameResult::read(move_string.as_str()) {
        Some(result) => {
            Ok(
                ParsedMove::new(
                    String::new(),
                    (None, None),
                    (String::new(), String::new()),
                    MoveTypes::FinalResult(result),
                    check_for_check_or_mate(move_string.as_str()),
                ),
            )
        },
        None => Err(ParseError::new("Error parsing gameResults from string")),
    }
}

/// Reads a castling.
pub fn parse_castle(move_string: String) -> (outcome: Result<ParsedMove, ParseError>)
    ensures
        reading(outcome) == castle_described(move_string@),
{
    let count = move_string.as_str().unicode_len();
    proof {
        reveal_strlit("K");
        assert("K"@ =~= seq!['K']);
    }
    if count == 3 {
        Ok(
            ParsedMove::new(
                String::from_str("K"),
                (None, None),
                (String::new(), String::new()),
                MoveTypes::Castle(6),
                CheckOrCheckMate::Neither,
            ),
        )
    } else if count == 4 {
        Ok(
            ParsedMove::new(
                String::from_str("K"),
                (None, None),
                (String::new(), String::new()),
                MoveTypes::Castle(6),
                check_for_check_or_mate(move_string.as_str()),
            ),
        )
    } else if count == 5 {
        Ok(
            ParsedMove::new(
                String::from_str("K"),
                (None, None),
                (String::new(), String::new()),
                MoveTypes::Castle(2),
                CheckOrCheckMate::Neither,
            ),
        )
    } else if count == 6 {
        Ok(
            ParsedMove::new(
                String::from_str("K"),
                (None, None),
                (String::new(), String::new()),
                MoveTypes::Castle(2),
                check_for_check_or_mate(move_string.as_str()),
            ),
        )
    } else {
        Err(ParseError::new("String that starting with O was not a castling length move"))
    }
}

/// Reads the move of a piece other than a pawn.
pub fn parse_piece_move(move_string: String) -> (outcome: Result<ParsedMove, ParseError>)
    ensures
        reading(outcome) == piece_described(move_string@),
{
    let text = move_string.as_str();
    let count = text.unicode_len();
    if count < 3 {
        return Err(ParseError::new("oh no"));
    }
    let second = text.get_char(1);
    let third = text.get_char(2);
    let claimed = check_for_check_or_mate(text);
    if second == 'x' {
        if count < 4 {
            return Err(ParseError::new("oh no"));
        }
        Ok(
            ParsedMove::new(
                unit(text, 0),
                (None, None),
                (unit(text, 2), unit(text, 3)),
                MoveTypes::Take,
                claimed,
            ),
        )
    } else if is_file_char(second) {
        if is_file_char(third) {
            if count < 4 {
                return Err(ParseError::new("no"));
            }
            Ok(
                ParsedMove::new(
                    unit(text, 0),
                    (Some(unit(text, 1)), None),
                    (unit(text, 2), unit(text, 3)),
                    MoveTypes::Move,
                    claimed,
                ),
            )
        } else if is_rank_char(third) {
            if count >= 6 && text.get_char(3) == 'x' {
                Ok(
                    ParsedMove::new(
                        unit(text, 0),
                        (Some(unit(text, 1)), Some(unit(text, 2))),
                        (unit(text, 4), unit(text, 5)),
                        MoveTypes::Take,
                        claimed,
                    ),
                )
            } else if count >= 5 && is_file_char(text.get_char(3)) {
                Ok(
                    ParsedMove::new(
                        unit(text, 0),
                        (Some(unit(text, 1)), Some(unit(text, 2))),
                        (unit(text, 3), unit(text, 4)),
                        MoveTypes::Move,
                        claimed,
                    ),
                )
            } else if count >= 4 && (text.get_char(3) == 'x' || is_file_char(text.get_char(3))) {
                Err(ParseError::new("no"))
            } else {
                Ok(
                    ParsedMove::new(
                        unit(text, 0),
                        (None, None),
                        (unit(text, 1), unit(text, 2)),
                        MoveTypes::Move,
                        claimed,
                    ),
                )
            }
        } else if third == 'x' {
            if count < 5 {
                return Err(ParseError::new("no"));
            }
            Ok(
                ParsedMove::new(
                    unit(text, 0),
                    (Some(unit(text, 1)), None),
                    (unit(text, 3), unit(text, 4)),
                    MoveTypes::Take,
                    claimed,
                ),
            )
        } else {
            Err(ParseError::new("no"))
        }
    } else {
        Err(ParseError::new("oh no"))
    }
}

/// Reads the move of a pawn.
pub fn parse_pawn_move(move_string: String) -> (outcome: Result<ParsedMove, ParseError>)
    ensures
        reading(outcome) == pawn_described(move_string@),
{
    let text = move_string.as_str();
    let count = text.unicode_len();
    proof {
        reveal_strlit("P");
        assert("P"@ =~= seq!['P']);
    }
    if count < 2 {
        return Err(ParseError::new("This is not okay"));
    }
    let second = text.get_char(1);
    let claimed = check_for_check_or_mate(text);
    if '2' <= second && second <= '7' {
        Ok(
            ParsedMove::new(
                String::from_str("P"),
                (Some(unit(text, 0)), None),
                (unit(text, 0), unit(text, 1)),
                MoveTypes::Move,
                claimed,
            ),
        )
    } else if second == 'x' {
        if count < 4 {
            return Err(ParseError::new("This is not okay"));
        }
        if count >= 6 && text.get_char(4) == '=' {
            Ok(
                ParsedMove::new(
                    String::from_str("P"),
                    (Some(unit(text, 0)), None),
                    (unit(text, 2), unit(text, 3)),
                    MoveTypes::Promote(unit(text, 5)),
                    claimed,
                ),
            )
        } else {
            Ok(
                ParsedMove::new(
                    String::from_str("P"),
                    (Some(unit(text, 0)), None),
                    (unit(text, 2), unit(text, 3)),
                    MoveTypes::Take,
                    claimed,
                ),
            )
        }
    } else if second == '1' || second == '8' {
        if count < 3 {
            return Err(ParseError::new("This is not okay"));
        }
        let third = text.get_char(2);
        if third == 'Q' || third == 'R' || third == 'B' || third == 'N' {
            Ok(
                ParsedMove::new(
                    String::from_str("P"),
                    (None, None),
                    (unit(text, 0), unit(text, 1)),
                    MoveTypes::Promote(unit(text, 2)),
                    claimed,
                ),
            )
        } else if third == '=' && count >= 4 {
            Ok(
                ParsedMove::new(
                    String::from_str("P"),
                    (None, None),
                    (unit(text, 0), unit(text, 1)),
                    MoveTypes::Promote(unit(text, 3)),
                    claimed,
                ),
            )
        } else {
            Err(ParseError::new("This is not okay"))
        }
    } else {
        Err(ParseError::new("This is not okay"))
    }
}

/// Reads a move in notation: says what move the text describes, or that it
/// describes none.
pub fn parse_move(move_string: &str) -> (outcome: Result<ParsedMove, ParseError>)
    ensures
        reading(outcome) == described(move_string@),
{
    let first = match first_char(move_string) {
        Some(first) => first,
        None => {
            return Err(ParseError::new("Move did not start with a piece"));
        },
    };
    let owned = String::from_str(move_string);
    if is_file_char(first) {
        parse_pawn_move(owned)
    } else if first == 'K' || first == 'Q' || first == 'R' || first == 'B' || first == 'N' {
        parse_piece_move(owned)
    } else if first == 'O' {
        parse_castle(owned)
    } else if first == '1' || first == '0' {
        parse_final_score(owned)
    } else {
        Err(ParseError::new("Move did not start with a piece"))
    }
}

/// Reads the record of a game: its words three by three, each time the
/// number of a move, the move of white and the move of black. Words that
/// are left over at the end are dropped.
pub fn parse_game_moves(game_string: String) -> (moves_vector: Vec<
    (String, Result<ParsedMove, ParseError>, Result<ParsedMove, ParseError>),
>)
    ensures
        moves_vector@.len() == words(game_string@).len() / 3,
        forall|k: int|
            0 <= k < moves_vector@.len() ==> {
                &&& (#[trigger] moves_vector@[k]).0@ == words(game_string@)[3 * k]
                &&& reading(moves_vector@[k].1) == described(words(game_string@)[3 * k + 1])
                &&& reading(moves_vector@[k].2) == described(words(game_string@)[3 * k + 2])
            },
{
    let mut moves_vector: Vec<
        (String, Result<ParsedMove, ParseError>, Result<ParsedMove, ParseError>),
    > = Vec::new();
    let moves = split_words(game_string.as_str());
    let ghost all = words(game_string@);
    let total = moves.len();
    let count = total / 3;
    let mut turn: usize = 0;
    while turn < count
        invariant
            all == words(game_string@),
            total == moves@.len(),
            moves@.len() == all.len(),
            forall|k: int| 0 <= k < moves@.len() ==> (#[trigger] moves@[k])@ == all[k],
            count == moves@.len() / 3,
            turn <= count,
            moves_vector@.len() == turn,
            forall|k: int|
                0 <= k < turn ==> {
                    &&& (#[trigger] moves_vector@[k]).0@ == all[3 * k]
                    &&& reading(moves_vector@[k].1) == described(all[3 * k + 1])
                    &&& reading(moves_vector@[k].2) == described(all[3 * k + 2])
                },
        decreases count - turn,
    {
        assert(count * 3 <= moves@.len());
        assert(turn * 3 + 2 < moves@.len());
        let index = turn * 3;
        let move_number: String = moves[index].clone();
        let white = parse_move(moves[index + 1].as_str());
        let black = parse_move(moves[index + 2].as_str());
        moves_vector.push((move_number, white, black));
        turn = turn + 1;
    }
    moves_vector
}

} // verus!