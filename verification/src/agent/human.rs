//! The player at the keyboard, and the grammar of the lines it types.
//!
//! A line is `next <x> <y>`, or `<x> <y>` for short, or `prev`, `exit` or
//! `help`, with `x` and `y` from 0 to 2. Keywords are matched as written.

use crate::agent::AgentType;
use crate::agent::Command;
use crate::text;
use crate::text::parse_number;
use crate::text::split_words;
use crate::text::to_chars;
use vstd::prelude::*;

verus! {

/// Why a line is no command.
#[derive(Clone, Copy, PartialEq, Eq, Debug, Structural)]
pub enum ParseError {
    /// No column is given.
    MissingX,
    /// The column is not a number.
    InvalidX,
    /// No row is given.
    MissingY,
    /// The row is not a number.
    InvalidY,
    /// Something follows the row.
    TooManyArguments,
    /// The column or the row is not one of 0, 1, 2.
    OutOfRange,
}

impl ParseError {
    /// What the player is told.
    pub open spec fn text(self) -> Seq<char> {
        match self {
            ParseError::MissingX => "xを指定してください"@,
            ParseError::InvalidX => "xは数字で指定してください"@,
            ParseError::MissingY => "yを指定してください"@,
            ParseError::InvalidY => "yは数字で指定してください"@,
            ParseError::TooManyArguments => "引数が多すぎます"@,
            ParseError::OutOfRange => "x yは0から2の間で指定してください"@,
        }
    }

    /// What the player is told.
    pub fn message(&self) -> (r: &'static str)
        ensures
            r@ == self.text(),
    {
        match self {
            ParseError::MissingX => "xを指定してください",
            ParseError::InvalidX => "xは数字で指定してください",
            ParseError::MissingY => "yを指定してください",
            ParseError::InvalidY => "yは数字で指定してください",
            ParseError::TooManyArguments => "引数が多すぎます",
            ParseError::OutOfRange => "x yは0から2の間で指定してください",
        }
    }
}

/// The placement that `words` write: a column, then a row, and nothing more.
///
/// The words are judged from the left, and the first fault found is the one
/// reported.
pub open spec fn coordinates(words: Seq<Seq<char>>) -> Result<Command, ParseError> {
    if words.len() == 0 {
        Err(ParseError::MissingX)
    } else if text::number(words[0]) is None {
        Err(ParseError::InvalidX)
    } else if words.len() == 1 {
        Err(ParseError::MissingY)
    } else if text::number(words[1]) is None {
        Err(ParseError::InvalidY)
    } else if words.len() > 2 {
        Err(ParseError::TooManyArguments)
    } else if text::number(words[0])->0 < 3 && text::number(words[1])->0 < 3 {
        Ok(Command::Next(text::number(words[0])->0, text::number(words[1])->0))
    } else {
        Err(ParseError::OutOfRange)
    }
}

/// The command that `line` writes.
///
/// After `next` come the coordinates. `prev`, `exit` and `help` stand for
/// themselves, whatever follows them. Any other line, the empty one
/// included, is read as coordinates.
pub open spec fn command_of(line: Seq<char>) -> Result<Command, ParseError> {
    let words = text::words(line);
    if words.len() > 0 && words[0] == "next"@ {
        coordinates(words.skip(1))
    } else if words.len() > 0 && words[0] == "prev"@ {
        Ok(Command::Prev)
    } else if words.len() > 0 && words[0] == "exit"@ {
        Ok(Command::Exit)
    } else if words.len() > 0 && words[0] == "help"@ {
        Ok(Command::Help)
    } else {
        coordinates(words)
    }
}

/// A placement that a line writes names a cell of the board.
pub proof fn lemma_command_in_range(line: Seq<char>)
    ensures
        command_of(line) matches Ok(cmd) ==> cmd.in_range(),
{
}

/// Whether `word` is spelled as `keyword` is.
pub fn word_is(word: &Vec<char>, keyword: &str) -> (r: bool)
    ensures
        r == (word@ == keyword@),
{
    let n = keyword.unicode_len();
    if word.len() != n {
        return false;
    }
    let mut i: usize = 0;
    while i < n
        invariant
            i <= n,
            n == word@.len(),
            n == keyword@.len(),
            forall|j: int| 0 <= j < i ==> word@[j] == keyword@[j],
        decreases n - i,
    {
        if word[i] != keyword.get_char(i) {
            return false;
        }
        i += 1;
    }
    assert(word@ =~= keyword@);
    true
}

/// The player who types its commands.
pub struct HumanAgent {
    agent_type: AgentType,
}

impl HumanAgent {
    /// The mark the agent plays.
    pub closed spec fn mark(&self) -> AgentType {
        self.agent_type
    }

    /// An agent that plays `agent_type`.
    pub fn new(agent_type: AgentType) -> (r: Self)
        ensures
            r.mark() == agent_type,
    {
        Self { agent_type }
    }

    /// The mark the agent plays.
    pub fn agent_type(&self) -> (r: AgentType)
        ensures
            r == self.mark(),
    {
        self.agent_type
    }

    /// Whether column `x` and row `y` name a cell of the board.
    pub fn validate_x_y(&self, x: usize, y: usize) -> (r: bool)
        ensures
            r == (x < 3 && y < 3),
    {
        x < 3 && y < 3
    }

    /// Reads a placement from the words of a line, starting at word `from`.
    pub fn try_parse_x_y(&self, words: &Vec<Vec<char>>, from: usize) -> (r: Result<
        Command,
        ParseError,
    >)
        requires
            from <= words.len(),
        ensures
            r == coordinates(text::texts(words@).skip(from as int)),
            r matches Ok(cmd) ==> cmd.in_range(),
    {
        let ghost rest = text::texts(words@).skip(from as int);
        let left = words.len() - from;
        if left == 0 {
            return Err(ParseError::MissingX);
        }
        assert(rest[0] == words@[from as int]@);
        let x = match parse_number(&words[from]) {
            Some(x) => x,
            None => {
                return Err(ParseError::InvalidX);
            },
        };
        if left == 1 {
            return Err(ParseError::MissingY);
        }
        assert(rest[1] == words@[from + 1]@);
        let y = match parse_number(&words[from + 1]) {
            Some(y) => y,
            None => {
                return Err(ParseError::InvalidY);
            },
        };
        if left > 2 {
            return Err(ParseError::TooManyArguments);
        }
        if self.validate_x_y(x, y) {
            Ok(Command::Next(x, y))
        } else {
            Err(ParseError::OutOfRange)
        }
    }

    /// Reads the command that a line writes.
    pub fn parse_command(&self, command: &str) -> (r: Result<Command, ParseError>)
        ensures
            r == command_of(command@),
            r matches Ok(cmd) ==> cmd.in_range(),
    {
        let chars = to_chars(command);
        let words = split_words(&chars);
        assert(text::texts(words@).skip(0) =~= text::texts(words@));
        if words.len() == 0 {
            return self.try_parse_x_y(&words, 0);
        }
        assert(text::texts(words@)[0] == words@[0]@);
        if word_is(&words[0], "next") {
            self.try_parse_x_y(&words, 1)
        } else if word_is(&words[0], "prev") {
            Ok(Command::Prev)
        } else if word_is(&words[0], "exit") {
            Ok(Command::Exit)
        } else if word_is(&words[0], "help") {
            Ok(Command::Help)
        } else {
            self.try_parse_x_y(&words, 0)
        }
    }
}

} // verus!
