use vstd::prelude::*;

verus! {

/// The code of the colour of the wild cards.
pub const BLACK: i32 = 4;

/// The code of the text of a card that makes the next player draw two.
pub const DRAW_TWO: i32 = 12;

/// The code of the text of a wild card.
pub const WILD: i32 = 13;

/// The code of the text of a wild card that makes the next player draw four.
pub const DRAW_FOUR: i32 = 14;

/// The code of no text.
pub const EMPTY: i32 = 15;

/// The colours of the cards, in the order of their codes.
#[derive(Clone, Copy, Debug, PartialEq, Eq, Structural)]
pub enum CardColor {
    Red,
    Yellow,
    Green,
    Blue,
    Black,
}

impl CardColor {
    /// The code that stands for this colour in a card.
    pub open spec fn spec_code(self) -> i32 {
        match self {
            CardColor::Red => 0,
            CardColor::Yellow => 1,
            CardColor::Green => 2,
            CardColor::Blue => 3,
            CardColor::Black => 4,
        }
    }

    #[verifier::when_used_as_spec(spec_code)]
    pub fn code(self) -> (code: i32)
        ensures
            code == self.spec_code(),
    {
        match self {
            CardColor::Red => 0,
            CardColor::Yellow => 1,
            CardColor::Green => 2,
            CardColor::Blue => 3,
            CardColor::Black => 4,
        }
    }
}

/// The texts of the cards, in the order of their codes.
#[derive(Clone, Copy, Debug, PartialEq, Eq, Structural)]
pub enum CardText {
    Zero,
    One,
    Two,
    Three,
    Four,
    Five,
    Six,
    Seven,
    Eight,
    Nine,
    Skip,
    Reverse,
    DrawTwo,
    Wild,
    DrawFour,
    Empty,
}

impl CardText {
    /// The code that stands for this text in a card.
    pub open spec fn spec_code(self) -> i32 {
        match self {
            CardText::Zero => 0,
            CardText::One => 1,
            CardText::Two => 2,
            CardText::Three => 3,
            CardText::Four => 4,
            CardText::Five => 5,
            CardText::Six => 6,
            CardText::Seven => 7,
            CardText::Eight => 8,
            CardText::Nine => 9,
            CardText::Skip => 10,
            CardText::Reverse => 11,
            CardText::DrawTwo => 12,
            CardText::Wild => 13,
            CardText::DrawFour => 14,
            CardText::Empty => 15,
        }
    }

    #[verifier::when_used_as_spec(spec_code)]
    pub fn code(self) -> (code: i32)
        ensures
            code == self.spec_code(),
    {
        match self {
            CardText::Zero => 0,
            CardText::One => 1,
            CardText::Two => 2,
            CardText::Three => 3,
            CardText::Four => 4,
            CardText::Five => 5,
            CardText::Six => 6,
            CardText::Seven => 7,
            CardText::Eight => 8,
            CardText::Nine => 9,
            CardText::Skip => 10,
            CardText::Reverse => 11,
            CardText::DrawTwo => 12,
            CardText::Wild => 13,
            CardText::DrawFour => 14,
            CardText::Empty => 15,
        }
    }
}

/// A card: the codes of its colour and of its text.
#[derive(Clone, Copy, Debug, PartialEq, Eq, Structural)]
pub struct Card {
    pub color: i32,
    pub text: i32,
}

impl View for Card {
    type V = Card;

    open spec fn view(&self) -> Card {
        *self
    }
}

/// The settings that a start-game request carries.
#[derive(Clone, Copy, Debug, PartialEq, Eq, Structural)]
pub struct StartGameSettings {
    pub round_time: i32,
}

impl View for StartGameSettings {
    type V = StartGameSettings;

    open spec fn view(&self) -> StartGameSettings {
        *self
    }
}

/// A request to draw `number` cards.
#[derive(Clone, Copy, Debug, PartialEq, Eq, Structural)]
pub struct Draw {
    pub number: i32,
}

/// The notice that a player passes.
#[derive(Clone, Copy, Debug, PartialEq, Eq, Structural)]
pub struct Skip {}

/// A request to play a card, with the colour that the player names for
/// what follows.
#[derive(Clone, Copy, Debug, PartialEq, Eq, Structural)]
pub struct Play {
    pub card: Card,
    pub next_color: i32,
}

/// What a player asks for.
#[derive(Clone, Copy, Debug, PartialEq, Eq, Structural)]
pub enum Operation {
    Draw(Draw),
    Skip(Skip),
    Play(Play),
}

/// The payload of a user-operation message.
#[derive(Clone, Copy, Debug, PartialEq, Eq, Structural)]
pub struct UserOperation {
    pub operation: Operation,
}

impl View for UserOperation {
    type V = Operation;

    open spec fn view(&self) -> Operation {
        self.operation
    }
}

/// The notice that opens a game, for one player: the player's hand, the
/// card that lies face up, and the seat of the player who moves first.
#[derive(Debug, PartialEq, Eq)]
pub struct GameStart {
    pub init_handcards: Vec<Card>,
    pub flipped_card: Card,
    pub first_player: u32,
}

/// The answer to a player who drew: the cards.
#[derive(Debug, PartialEq, Eq)]
pub struct DrawRsp {
    pub cards: Vec<Card>,
}

/// What a notice says.
#[derive(Debug, PartialEq, Eq)]
pub enum Notice {
    GameStart(GameStart),
    Draw(Draw),
    DrawRsp(DrawRsp),
    Skip(Skip),
    Play(Play),
}

/// The model of what a notice says.
pub enum NoticeView {
    GameStart { init_handcards: Seq<Card>, flipped_card: Card, first_player: u32 },
    Draw(Draw),
    DrawRsp(Seq<Card>),
    Skip(Skip),
    Play(Play),
}

/// The payload of a notification.
#[derive(Debug, PartialEq, Eq)]
pub struct NotifyMsg {
    pub msg: Notice,
}

impl View for NotifyMsg {
    type V = NoticeView;

    open spec fn view(&self) -> NoticeView {
        match self.msg {
            Notice::GameStart(start) => NoticeView::GameStart {
                init_handcards: start.init_handcards@,
                flipped_card: start.flipped_card,
                first_player: start.first_player,
            },
            Notice::Draw(draw) => NoticeView::Draw(draw),
            Notice::DrawRsp(rsp) => NoticeView::DrawRsp(rsp.cards@),
            Notice::Skip(skip) => NoticeView::Skip(skip),
            Notice::Play(play) => NoticeView::Play(play),
        }
    }
}

} // verus!
