//! What a front end needs of a game in progress: its state, how it answers
//! the player's messages, what a typed line asks for, and which picture
//! shows each square.
use crate::board::{sentence, Board, MoveErrorKind};
use crate::game::{file_name_from_piece, is_board_check_mate, picture_name, player_move};
use crate::parser::described;
use crate::piece_types::PieceColor;

use crate::position::{find_at, BoardView};
use crate::text::{contains_text, occurs, to_chars};
use vstd::prelude::*;

verus! {

/// What a front end tells a game in progress.
#[derive(Debug)]
pub enum Message {
    IncrementPressed,
    DecrementPressed,
    /// The player has changed the text of the move being typed.
    InputChanged(String),
    /// The player asks for the typed move to be played.
    PlayMove,
}

/// A message to a game, as a value.
pub enum MessageView {
    IncrementPressed,
    DecrementPressed,
    InputChanged(Seq<char>),
    PlayMove,
}

impl View for Message {
    type V = MessageView;

    open spec fn view(&self) -> MessageView {
        match self {
            Message::IncrementPressed => MessageView::IncrementPressed,
            Message::DecrementPressed => MessageView::DecrementPressed,
            Message::InputChanged(text) => MessageView::InputChanged(text@),
            Message::PlayMove => MessageView::PlayMove,
        }
    }
}

impl Clone for Message {
    fn clone(&self) -> (copy: Message)
        ensures
            copy@ == self@,
    {
        match self {
            Message::IncrementPressed => Message::IncrementPressed,
            Message::DecrementPressed => Message::DecrementPressed,
            Message::InputChanged(text) => Message::InputChanged(text.clone()),
            Message::PlayMove => Message::PlayMove,
        }
    }
}

/// A game in progress as a front end sees it: the position, whether the
/// game goes on, the text of the move being typed, what to tell the player
/// about the last attempt, and a counter.
pub struct Session {
    pub game_continue: bool,
    pub wrong_move_string: String,
    pub text_value: String,
    pub board: Board,
    pub value: i32,
}

/// A game in progress, as a value.
pub struct SessionView {
    pub game_continue: bool,
    pub wrong_move_string: Seq<char>,
    pub text_value: Seq<char>,
    pub board: BoardView,
    pub value: i32,
}

impl View for Session {
    type V = SessionView;

    open spec fn view(&self) -> SessionView {
        SessionView {
            game_continue: self.game_continue,
            wrong_move_string: self.wrong_move_string@,
            text_value: self.text_value@,
            board: self.board@,
            value: self.value,
        }
    }
}

/// The line that names the winner.
pub open spec fn winner_line(winner: PieceColor) -> &'static str {
    match winner {
        PieceColor::WHITE => "WHITE Wins with checkmate",
        PieceColor::BLACK => "BLACK Wins with checkmate",
    }
}

/// The line that names the side to move.
pub open spec fn turn_line(to_move: PieceColor) -> &'static str {
    match to_move {
        PieceColor::WHITE => "CurrentMoveColor:WHITE",
        PieceColor::BLACK => "CurrentMoveColor:BLACK",
    }
}

impl SessionView {
    /// The game after the typed move has been asked for. A game that is
    /// over stays as it is, and so does one whose typed text is `draw`.
    /// A move that is refused leaves its reason for the player. A move that
    /// is played and mates ends the game and names the winner; any other
    /// move that is played clears the typed text.
    pub open spec fn asked(self) -> SessionView {
        if !self.game_continue || self.text_value == "draw"@ {
            self
        } else {
            match described(self.text_value) {
                None => SessionView {
                    wrong_move_string: sentence(MoveErrorKind::Unreadable)@,
                    ..self
                },
                Some(parsed) => match self.board.answer(parsed) {
                    Err(kind) => SessionView { wrong_move_string: sentence(kind)@, ..self },
                    Ok(after) => if after.checkmated(after.to_move()) {
                        SessionView {
                            board: after,
                            game_continue: false,
                            wrong_move_string: winner_line(after.last_move_color)@,
                            ..self
                        }
                    } else {
                        SessionView { board: after, text_value: Seq::empty(), ..self }
                    },
                },
            }
        }
    }

    /// The game after a message.
    pub open spec fn after(self, message: MessageView) -> SessionView {
        match message {
            MessageView::IncrementPressed => SessionView {
                value: if self.value < i32::MAX {
                    (self.value + 1) as i32
                } else {
                    self.value
                },
                ..self
            },
            MessageView::DecrementPressed => SessionView {
                value: if self.value > i32::MIN {
                    (self.value - 1) as i32
                } else {
                    self.value
                },
                ..self
            },
            MessageView::InputChanged(text) => SessionView { text_value: text, ..self },
            MessageView::PlayMove => self.asked(),
        }
    }
}

impl Session {
    /// A game at its start.
    pub fn new() -> (session: Session)
        ensures
            session.board.consistent(),
            session@ == (SessionView {
                game_continue: true,
                wrong_move_string: Seq::empty(),
                text_value: Seq::empty(),
                board: crate::setup::standard_position().counted(),
                value: 0,
            }),
    {
        Session {
            game_continue: true,
            wrong_move_string: String::new(),
            text_value: String::new(),
            board: Board::new(),
            value: 0,
        }
    }

    /// The title of the window that shows the game.
    pub fn title(&self) -> (title: String)
        ensures
            title@ == "Counter - Iced"@,
    {
        String::from_str("Counter - Iced")
    }

    /// The line that names the side to move.
    pub fn turn(&self) -> (line: String)
        ensures
            line@ == turn_line(self@.board.to_move())@,
    {
        match self.board.last_move_color {
            PieceColor::BLACK => String::from_str("CurrentMoveColor:WHITE"),
            PieceColor::WHITE => String::from_str("CurrentMoveColor:BLACK"),
        }
    }

    /// Takes a message from the front end: counts, takes the typed text,
    /// or plays the typed move.
    pub fn update(&mut self, message: Message)
        requires
            old(self).board.consistent(),
        ensures
            final(self).board.consistent(),
            final(self)@ == old(self)@.after(message@),
    {
        match message {
            Message::IncrementPressed => {
                if self.value < i32::MAX {
                    self.value = self.value + 1;
                }
            },
            Message::DecrementPressed => {
                if self.value > i32::MIN {
                    self.value = self.value - 1;
                }
            },
            Message::InputChanged(string_value) => {
                self.text_value = string_value;
            },
            Message::PlayMove => {
                if !self.game_continue {
                    return ;
                }
                if self.text_value == String::from_str("draw") {
                    return ;
                }
                match player_move(&mut self.board, self.text_value.as_str()) {
                    Ok(_) => {
                        proof {
                            self.board.lemma_files();
                            crate::agreement::lemma_consistent_shaped(self.board@);
                        }
                        let last_move_color = self.board.last_move_color;
                        if is_board_check_mate(&last_move_color, &mut self.board) {
                            self.game_continue = false;
                            self.wrong_move_string = match last_move_color {
                                PieceColor::WHITE => String::from_str("WHITE Wins with checkmate"),
                                PieceColor::BLACK => String::from_str("BLACK Wins with checkmate"),
                            };
                        } else {
                            self.text_value = String::new();
                        }
                    },
                    Err(error) => {
                        self.wrong_move_string = error.description();
                    },
                }
            },
        }
    }
}

/// What a line typed at the prompt asks for.
#[derive(Debug, PartialEq, Eq, Structural, Clone, Copy)]
pub enum Request {
    /// To show the position: the line holds `print`.
    Show,
    /// To offer a draw: the line holds `draw`, and not `print`.
    OfferDraw,
    /// To play the line as a move.
    Play,
}

/// What a line typed at the prompt asks for.
pub open spec fn requested(line: Seq<char>) -> Request {
    if occurs(line, "print"@) {
        Request::Show
    } else if occurs(line, "draw"@) {
        Request::OfferDraw
    } else {
        Request::Play
    }
}

/// What a line typed at the prompt asks for.
pub fn request_of(line: &str) -> (request: Request)
    ensures
        request == requested(line@),
{
    if contains_text(line, "print") {
        Request::Show
    } else if contains_text(line, "draw") {
        Request::OfferDraw
    } else {
        Request::Play
    }
}

/// Whether an answer to the offer of a draw accepts it: it holds a `y`,
/// small or capital.
pub open spec fn accepting(answer: Seq<char>) -> bool {
    exists|i: int| 0 <= i < answer.len() && (#[trigger] answer[i] == 'y' || answer[i] == 'Y')
}

/// Whether an answer to the offer of a draw accepts it.
pub fn accepts_draw(answer: &str) -> (accepted: bool)
    ensures
        accepted == accepting(answer@),
{
    let chars = to_chars(answer);
    let mut index: usize = 0;
    while index < chars.len()
        invariant
            chars@ == answer@,
            index <= chars@.len(),
            forall|i: int| 0 <= i < index ==> !(#[trigger] chars@[i] == 'y' || chars@[i] == 'Y'),
        decreases chars@.len() - index,
    {
        if chars[index] == 'y' || chars[index] == 'Y' {
            return true;
        }
        index = index + 1;
    }
    false
}

/// The name of the picture that shows a square: that of the black piece
/// on it, else that of the white piece on it, else that of an empty square.
pub open spec fn picture_at(b: BoardView, x: int, y: int) -> &'static str {
    match find_at(b.black, x, y) {
        Some(j) => picture_name(b.black[j], PieceColor::BLACK),
        None => match find_at(b.white, x, y) {
            Some(i) => picture_name(b.white[i], PieceColor::WHITE),
            None => "Empty.png",
        },
    }
}

/// The name of the picture that shows the given square.
pub fn picture_of_square(board: &Board, x_coord: usize, y_coord: usize) -> (name: String)
    ensures
        name@ == picture_at(board@, x_coord as int, y_coord as int)@,
{
    match board.index_of_piece(x_coord, y_coord, &PieceColor::BLACK) {
        Some(index) => file_name_from_piece(&board.live_black_pieces[index], &PieceColor::BLACK),
        None => match board.index_of_piece(x_coord, y_coord, &PieceColor::WHITE) {
            Some(index) => file_name_from_piece(
                &board.live_white_pieces[index],
                &PieceColor::WHITE,
            ),
            None => String::from_str("Empty.png"),
        },
    }
}

/// The names of the pictures that show the board, file by file and within
/// a file rank by rank.
pub fn picture_names(board: &Board) -> (names: Vec<Vec<String>>)
    ensures
        names@.len() == 8,
        forall|x: int, y: int|
            0 <= x < 8 && 0 <= y < 8 ==> (#[trigger] names@[x]@[y])@ == picture_at(board@, x, y)@,
        forall|x: int| 0 <= x < 8 ==> (#[trigger] names@[x])@.len() == 8,
{
    let mut names: Vec<Vec<String>> = Vec::new();
    let mut x: usize = 0;
    while x < 8
        invariant
            x <= 8,
            names@.len() == x,
            forall|a: int| 0 <= a < x ==> (#[trigger] names@[a])@.len() == 8,
            forall|a: int, c: int|
                0 <= a < x && 0 <= c < 8 ==> (#[trigger] names@[a]@[c])@ == picture_at(
                    board@,
                    a,
                    c,
                )@,
        decreases 8 - x,
    {
        let mut file: Vec<String> = Vec::new();
        let mut y: usize = 0;
        while y < 8
            invariant
                x < 8,
                y <= 8,
                file@.len() == y,
                forall|c: int|
                    0 <= c < y ==> (#[trigger] file@[c])@ == picture_at(board@, x as int, c)@,
            decreases 8 - y,
        {
            file.push(picture_of_square(board, x, y));
            y = y + 1;
        }
        names.push(file);
        x = x + 1;
    }
    names
}

} // verus!
