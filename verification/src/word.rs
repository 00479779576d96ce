//! The instruction vocabulary.

use vstd::prelude::*;
use rand::rngs::StdRng;
use vstd::string::StringExecFns;
use crate::numeric::{one_place_string, one_place_text};
use crate::random::roll_below;

verus! {

/// One instruction of the stack machine. The comment of each variant gives
/// its stack effect: operands before `--`, results after.
#[derive(Debug, Clone, Copy, PartialEq, Eq, Structural)]
pub enum Word {
    /// `( a -- a a )`
    Dup,
    /// `( a -- )`
    Drop,
    /// `( a b -- b a )`
    Swap,
    /// `( a b -- a b a )`
    Over,
    /// `( a b c -- b c a )`
    Rot,
    /// `( -- n )` pushes the numeric literal.
    PushFloat(i64),
    /// `( -- bool )` pushes the boolean literal.
    PushBool(bool),
    /// `( -- n )` pushes the front smell distance.
    SmellFront,
    /// `( -- n )` pushes the back smell distance.
    SmellBack,
    /// `( -- n )` pushes the left smell distance.
    SmellLeft,
    /// `( -- n )` pushes the right smell distance.
    SmellRight,
    /// `( -- n )` pushes the agent's energy.
    Energy,
    /// `( a b -- a+b )`
    Add,
    /// `( a b -- a-b )`
    Sub,
    /// `( a b -- a*b )`
    Mul,
    /// `( a b -- a/b )`
    Div,
    /// `( a b -- bool )`, `a < b`
    Lt,
    /// `( a b -- bool )`, `a > b`
    Gt,
    /// `( a b -- bool )`, `a` equals `b` within the tolerance
    Eq,
    /// `( bool bool -- bool )`
    And,
    /// `( bool bool -- bool )`
    Or,
    /// `( bool -- bool )`
    Not,
    /// `( bool -- )` begins a conditional.
    If,
    /// `( -- )` ends a conditional.
    Then,
    /// `( -- )` begins the alternative branch.
    Else,
    /// `( -- )` label marker 0.
    Label0,
    /// `( -- )` label marker 1.
    Label1,
    /// `( -- )` label marker 2.
    Label2,
    /// `( -- )` label marker 3.
    Label3,
    /// `( -- )` jumps to label 0.
    Jump0,
    /// `( -- )` jumps to label 1.
    Jump1,
    /// `( -- )` jumps to label 2.
    Jump2,
    /// `( -- )` jumps to label 3.
    Jump3,
    /// `( n -- )` moves forward.
    MoveForward,
    /// `( n -- )` moves backward.
    MoveBackward,
    /// `( n -- )` turns left, in degrees.
    TurnLeft,
    /// `( n -- )` turns right, in degrees.
    TurnRight,
    /// `( -- )` eats from a nearby plant.
    Eat,
    /// `( -- )` reproduces.
    Split,
    /// `( -- )` does nothing.
    Nop,
}

/// Presentation category of a word.
#[derive(Debug, Clone, Copy, PartialEq, Eq, Structural)]
pub enum WordCategory {
    /// Stack manipulation.
    Stack,
    /// Sensors and literals.
    Sensor,
    /// Arithmetic, comparison and logic.
    Arithmetic,
    /// Conditionals, labels and jumps.
    Control,
    /// Movement and resource actions.
    Action,
    /// The no-op.
    Special,
}

impl Word {
    /// The category of each word.
    pub open spec fn spec_category(self) -> WordCategory {
        match self {
            Word::Dup | Word::Drop | Word::Swap | Word::Over | Word::Rot => WordCategory::Stack,
            Word::PushFloat(_) | Word::PushBool(_) | Word::SmellFront | Word::SmellBack
            | Word::SmellLeft | Word::SmellRight | Word::Energy => WordCategory::Sensor,
            Word::Add | Word::Sub | Word::Mul | Word::Div | Word::Lt | Word::Gt | Word::Eq
            | Word::And | Word::Or | Word::Not => WordCategory::Arithmetic,
            Word::If | Word::Then | Word::Else | Word::Label0 | Word::Label1 | Word::Label2
            | Word::Label3 | Word::Jump0 | Word::Jump1 | Word::Jump2 | Word::Jump3 => {
                WordCategory::Control
            },
            Word::MoveForward | Word::MoveBackward | Word::TurnLeft | Word::TurnRight
            | Word::Eat | Word::Split => WordCategory::Action,
            Word::Nop => WordCategory::Special,
        }
    }

    /// The stack-effect notation of each word.
    pub open spec fn spec_stack_effect(self) -> Seq<char> {
        match self {
            Word::Dup => "( a -- a a )"@,
            Word::Drop => "( a -- )"@,
            Word::Swap => "( a b -- b a )"@,
            Word::Over => "( a b -- a b a )"@,
            Word::Rot => "( a b c -- b c a )"@,
            Word::PushFloat(_) | Word::SmellFront | Word::SmellBack | Word::SmellLeft
            | Word::SmellRight | Word::Energy => "( -- n )"@,
            Word::PushBool(_) => "( -- bool )"@,
            Word::Add | Word::Sub | Word::Mul | Word::Div => "( a b -- result )"@,
            Word::Lt | Word::Gt | Word::Eq => "( a b -- bool )"@,
            Word::And | Word::Or => "( bool bool -- bool )"@,
            Word::Not => "( bool -- bool )"@,
            Word::If => "( bool -- )"@,
            Word::MoveForward | Word::MoveBackward | Word::TurnLeft | Word::TurnRight => {
                "( n -- )"@
            },
            _ => "( -- )"@,
        }
    }

    /// Returns the category of this word.
    pub fn category(&self) -> (c: WordCategory)
        ensures
            c == self.spec_category(),
    {
        match self {
            Word::Dup | Word::Drop | Word::Swap | Word::Over | Word::Rot => WordCategory::Stack,
            Word::PushFloat(_) | Word::PushBool(_) | Word::SmellFront | Word::SmellBack
            | Word::SmellLeft | Word::SmellRight | Word::Energy => WordCategory::Sensor,
            Word::Add | Word::Sub | Word::Mul | Word::Div | Word::Lt | Word::Gt | Word::Eq
            | Word::And | Word::Or | Word::Not => WordCategory::Arithmetic,
            Word::If | Word::Then | Word::Else | Word::Label0 | Word::Label1 | Word::Label2
            | Word::Label3 | Word::Jump0 | Word::Jump1 | Word::Jump2 | Word::Jump3 => {
                WordCategory::Control
            },
            Word::MoveForward | Word::MoveBackward | Word::TurnLeft | Word::TurnRight
            | Word::Eat | Word::Split => WordCategory::Action,
            Word::Nop => WordCategory::Special,
        }
    }

    /// Returns the stack-effect notation of this word.
    pub fn stack_effect(&self) -> (s: &'static str)
        ensures
            s@ == self.spec_stack_effect(),
    {
        match self {
            Word::Dup => "( a -- a a )",
            Word::Drop => "( a -- )",
            Word::Swap => "( a b -- b a )",
            Word::Over => "( a b -- a b a )",
            Word::Rot => "( a b c -- b c a )",
            Word::PushFloat(_) | Word::SmellFront | Word::SmellBack | Word::SmellLeft
            | Word::SmellRight | Word::Energy => "( -- n )",
            Word::PushBool(_) => "( -- bool )",
            Word::Add | Word::Sub | Word::Mul | Word::Div => "( a b -- result )",
            Word::Lt | Word::Gt | Word::Eq => "( a b -- bool )",
            Word::And | Word::Or => "( bool bool -- bool )",
            Word::Not => "( bool -- bool )",
            Word::If => "( bool -- )",
            Word::MoveForward | Word::MoveBackward | Word::TurnLeft | Word::TurnRight => {
                "( n -- )"
            },
            _ => "( -- )",
        }
    }

    /// How many equally likely details the kind of a random word chooses
    /// among; 1 where the kind alone fixes the word.
    pub open spec fn spec_detail_span(kind: u32) -> u32 {
        if 20 <= kind <= 24 {
            190_000
        } else if 25 <= kind <= 29 {
            850_000
        } else if 30 <= kind <= 34 {
            450_000_000
        } else if 35 <= kind <= 39 {
            2
        } else if 96 <= kind <= 98 {
            4
        } else if 99 <= kind {
            8
        } else {
            1
        }
    }

    /// The word that a kind and a detail stand for. Of 100 kinds, 20 are
    /// sensors, 20 literals, 15 comparisons, 10 conditionals, 10 arithmetic,
    /// 14 movement, 7 actions, 3 labels, and one is shared by the jumps and a
    /// few others. A numeric literal lies in `[0.01, 0.2)`, `[0.05, 0.9)` or
    /// `[50, 500)`.
    pub open spec fn spec_from_rolls(kind: u32, detail: u32) -> Word {
        if kind <= 4 {
            Word::SmellFront
        } else if kind <= 9 {
            Word::SmellBack
        } else if kind <= 14 {
            Word::SmellLeft
        } else if kind <= 19 {
            Word::SmellRight
        } else if kind <= 24 {
            Word::PushFloat((10_000 + detail) as i64)
        } else if kind <= 29 {
            Word::PushFloat((50_000 + detail) as i64)
        } else if kind <= 34 {
            Word::PushFloat((50_000_000 + detail) as i64)
        } else if kind <= 39 {
            Word::PushBool(detail % 2 == 1)
        } else if kind <= 44 {
            Word::Lt
        } else if kind <= 49 {
            Word::Gt
        } else if kind <= 54 {
            Word::Eq
        } else if kind <= 59 {
            Word::If
        } else if kind <= 62 {
            Word::Then
        } else if kind <= 64 {
            Word::Else
        } else if kind <= 67 {
            Word::Add
        } else if kind <= 70 {
            Word::Sub
        } else if kind <= 72 {
            Word::Mul
        } else if kind <= 74 {
            Word::Div
        } else if kind <= 78 {
            Word::MoveForward
        } else if kind <= 80 {
            Word::MoveBackward
        } else if kind <= 84 {
            Word::TurnLeft
        } else if kind <= 88 {
            Word::TurnRight
        } else if kind <= 93 {
            Word::Eat
        } else if kind <= 95 {
            Word::Split
        } else if kind <= 98 {
            if detail % 4 == 0 {
                Word::Label0
            } else if detail % 4 == 1 {
                Word::Label1
            } else if detail % 4 == 2 {
                Word::Label2
            } else {
                Word::Label3
            }
        } else if detail % 8 == 0 {
            Word::Jump0
        } else if detail % 8 == 1 {
            Word::Jump1
        } else if detail % 8 == 2 {
            Word::Jump2
        } else if detail % 8 == 3 {
            Word::Jump3
        } else if detail % 8 == 4 {
            Word::Dup
        } else if detail % 8 == 5 {
            Word::Swap
        } else if detail % 8 == 6 {
            Word::Energy
        } else {
            Word::Nop
        }
    }

    /// Whether the random generator can produce this word.
    pub open spec fn drawable(self) -> bool {
        exists|kind: u32, detail: u32|
            kind < 100 && detail < Self::spec_detail_span(kind) && self == Self::spec_from_rolls(
                kind,
                detail,
            )
    }

    /// Returns the number of details that the kind chooses among.
    pub fn detail_span(kind: u32) -> (span: u32)
        ensures
            span == Self::spec_detail_span(kind),
            span >= 1,
    {
        if 20 <= kind && kind <= 24 {
            190_000
        } else if 25 <= kind && kind <= 29 {
            850_000
        } else if 30 <= kind && kind <= 34 {
            450_000_000
        } else if 35 <= kind && kind <= 39 {
            2
        } else if 96 <= kind && kind <= 98 {
            4
        } else if 99 <= kind {
            8
        } else {
            1
        }
    }

    /// Returns the word that a kind and a detail stand for.
    pub fn from_rolls(kind: u32, detail: u32) -> (w: Word)
        ensures
            w == Self::spec_from_rolls(kind, detail),
    {
        if kind <= 4 {
            Word::SmellFront
        } else if kind <= 9 {
            Word::SmellBack
        } else if kind <= 14 {
            Word::SmellLeft
        } else if kind <= 19 {
            Word::SmellRight
        } else if kind <= 24 {
            Word::PushFloat(10_000 + detail as i64)
        } else if kind <= 29 {
            Word::PushFloat(50_000 + detail as i64)
        } else if kind <= 34 {
            Word::PushFloat(50_000_000 + detail as i64)
        } else if kind <= 39 {
            Word::PushBool(detail % 2 == 1)
        } else if kind <= 44 {
            Word::Lt
        } else if kind <= 49 {
            Word::Gt
        } else if kind <= 54 {
            Word::Eq
        } else if kind <= 59 {
            Word::If
        } else if kind <= 62 {
            Word::Then
        } else if kind <= 64 {
            Word::Else
        } else if kind <= 67 {
            Word::Add
        } else if kind <= 70 {
            Word::Sub
        } else if kind <= 72 {
            Word::Mul
        } else if kind <= 74 {
            Word::Div
        } else if kind <= 78 {
            Word::MoveForward
        } else if kind <= 80 {
            Word::MoveBackward
        } else if kind <= 84 {
            Word::TurnLeft
        } else if kind <= 88 {
            Word::TurnRight
        } else if kind <= 93 {
            Word::Eat
        } else if kind <= 95 {
            Word::Split
        } else if kind <= 98 {
            let slot: u32 = detail % 4;
            if slot == 0 {
                Word::Label0
            } else if slot == 1 {
                Word::Label1
            } else if slot == 2 {
                Word::Label2
            } else {
                Word::Label3
            }
        } else {
            let slot: u32 = detail % 8;
            if slot == 0 {
                Word::Jump0
            } else if slot == 1 {
                Word::Jump1
            } else if slot == 2 {
                Word::Jump2
            } else if slot == 3 {
                Word::Jump3
            } else if slot == 4 {
                Word::Dup
            } else if slot == 5 {
                Word::Swap
            } else if slot == 6 {
                Word::Energy
            } else {
                Word::Nop
            }
        }
    }

    /// Draws a random word: a kind out of 100, then a detail where the kind
    /// leaves a choice.
    pub fn random(rng: &mut StdRng) -> (w: Word)
        ensures
            w.drawable(),
    {
        let kind: u32 = roll_below(rng, 100);
        let span: u32 = Self::detail_span(kind);
        let detail: u32 = if span > 1 {
            roll_below(rng, span)
        } else {
            0
        };
        Self::from_rolls(kind, detail)
    }

    /// The display token of each word: a literal shows its value, a numeric
    /// one with one place after the point; every other word has a fixed
    /// token.
    pub open spec fn spec_token(self) -> Seq<char> {
        match self {
            Word::PushFloat(v) => one_place_text(v as int),
            Word::PushBool(b) => if b {
                "true"@
            } else {
                "false"@
            },
            Word::Dup => "dup"@,
            Word::Drop => "drop"@,
            Word::Swap => "swap"@,
            Word::Over => "over"@,
            Word::Rot => "rot"@,
            Word::SmellFront => "smell-front"@,
            Word::SmellBack => "smell-back"@,
            Word::SmellLeft => "smell-left"@,
            Word::SmellRight => "smell-right"@,
            Word::Energy => "energy"@,
            Word::Add => "+"@,
            Word::Sub => "-"@,
            Word::Mul => "*"@,
            Word::Div => "/"@,
            Word::Lt => "<"@,
            Word::Gt => ">"@,
            Word::Eq => "="@,
            Word::And => "and"@,
            Word::Or => "or"@,
            Word::Not => "not"@,
            Word::If => "if"@,
            Word::Then => "then"@,
            Word::Else => "else"@,
            Word::Label0 => "label0"@,
            Word::Label1 => "label1"@,
            Word::Label2 => "label2"@,
            Word::Label3 => "label3"@,
            Word::Jump0 => "jump0"@,
            Word::Jump1 => "jump1"@,
            Word::Jump2 => "jump2"@,
            Word::Jump3 => "jump3"@,
            Word::MoveForward => "move-forward"@,
            Word::MoveBackward => "move-backward"@,
            Word::TurnLeft => "turn-left"@,
            Word::TurnRight => "turn-right"@,
            Word::Eat => "eat"@,
            Word::Split => "split"@,
            Word::Nop => "nop"@,
        }
    }

    /// Returns the display token of this word.
    pub fn to_text(&self) -> (s: String)
        ensures
            s@ == self.spec_token(),
    {
        match self {
            Word::PushFloat(v) => one_place_string(*v),
            Word::PushBool(b) => if *b {
                String::from_str("true")
            } else {
                String::from_str("false")
            },
            Word::Dup => String::from_str("dup"),
            Word::Drop => String::from_str("drop"),
            Word::Swap => String::from_str("swap"),
            Word::Over => String::from_str("over"),
            Word::Rot => String::from_str("rot"),
            Word::SmellFront => String::from_str("smell-front"),
            Word::SmellBack => String::from_str("smell-back"),
            Word::SmellLeft => String::from_str("smell-left"),
            Word::SmellRight => String::from_str("smell-right"),
            Word::Energy => String::from_str("energy"),
            Word::Add => String::from_str("+"),
            Word::Sub => String::from_str("-"),
            Word::Mul => String::from_str("*"),
            Word::Div => String::from_str("/"),
            Word::Lt => String::from_str("<"),
            Word::Gt => String::from_str(">"),
            Word::Eq => String::from_str("="),
            Word::And => String::from_str("and"),
            Word::Or => String::from_str("or"),
            Word::Not => String::from_str("not"),
            Word::If => String::from_str("if"),
            Word::Then => String::from_str("then"),
            Word::Else => String::from_str("else"),
            Word::Label0 => String::from_str("label0"),
            Word::Label1 => String::from_str("label1"),
            Word::Label2 => String::from_str("label2"),
            Word::Label3 => String::from_str("label3"),
            Word::Jump0 => String::from_str("jump0"),
            Word::Jump1 => String::from_str("jump1"),
            Word::Jump2 => String::from_str("jump2"),
            Word::Jump3 => String::from_str("jump3"),
            Word::MoveForward => String::from_str("move-forward"),
            Word::MoveBackward => String::from_str("move-backward"),
            Word::TurnLeft => String::from_str("turn-left"),
            Word::TurnRight => String::from_str("turn-right"),
            Word::Eat => String::from_str("eat"),
            Word::Split => String::from_str("split"),
            Word::Nop => String::from_str("nop"),
        }
    }
}

} // verus!
