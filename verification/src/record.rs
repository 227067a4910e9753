//! The end of a game: how the score stands against the recorded high
//! score, and what to tell the player.

use crate::text::{decimal, parse_high_score, parse_spec, push_decimal, push_text};
use vstd::prelude::*;
use vstd::string::StringSliceAdditionalSpecFns;

verus! {

/// How the final score stands against the record.
#[derive(Clone, Copy, Debug, PartialEq, Eq, Structural)]
pub enum Verdict {
    /// The score reaches or beats the recorded high score.
    NewHighScore,
    /// The recorded high score, which the score does not reach.
    Beaten(u32),
    /// No high score is recorded.
    NoRecord,
}

/// What to do at the end of a game.
#[derive(Clone, Copy, Debug, PartialEq, Eq, Structural)]
pub struct Finish {
    pub verdict: Verdict,
    /// Whether the score is to be recorded as the new high score.
    pub save: bool,
}

/// The end of a game with `score` when `recorded` is the high score on
/// record. The score is recorded when it exceeds the record, or, without a
/// record, when it is more than nothing. A score that equals the record
/// counts as a high score and is not recorded again.
pub open spec fn finish_spec(score: u32, recorded: Option<u32>) -> Finish {
    match recorded {
        Some(high) => Finish {
            verdict: if score >= high {
                Verdict::NewHighScore
            } else {
                Verdict::Beaten(high)
            },
            save: score > high,
        },
        None => Finish { verdict: Verdict::NoRecord, save: score > 0 },
    }
}

/// The high score that the content of the record file stands for. A file
/// that is missing or cannot be read is no content; a content that is no
/// number is no record.
pub open spec fn recorded_spec(content: Option<Seq<u8>>) -> Option<u32> {
    match content {
        Some(bytes) => parse_spec(bytes),
        None => None,
    }
}

/// What the player is told at the end, without a line end.
pub open spec fn end_message_spec(score: u32, verdict: Verdict) -> Seq<u8> {
    match verdict {
        Verdict::NewHighScore => "New high score! You got ".spec_bytes() + decimal(score as nat),
        Verdict::Beaten(high) => "You got ".spec_bytes() + decimal(score as nat)
            + ", the high score is ".spec_bytes() + decimal(high as nat)
            + ". Try again!".spec_bytes(),
        Verdict::NoRecord => "You got ".spec_bytes() + decimal(score as nat) + "!".spec_bytes(),
    }
}

/// Settles the end of a game with `score` against the high score on record.
pub fn judge(score: u32, recorded: Option<u32>) -> (finish: Finish)
    ensures
        finish == finish_spec(score, recorded),
{
    match recorded {
        Some(high) => Finish {
            verdict: if score >= high {
                Verdict::NewHighScore
            } else {
                Verdict::Beaten(high)
            },
            save: score > high,
        },
        None => Finish { verdict: Verdict::NoRecord, save: score > 0 },
    }
}

/// The high score that the content of the record file stands for.
pub fn read_record(content: Option<&Vec<u8>>) -> (recorded: Option<u32>)
    ensures
        recorded == recorded_spec(
            match content {
                Some(bytes) => Some(bytes@),
                None => None,
            },
        ),
{
    match content {
        Some(bytes) => parse_high_score(bytes),
        None => None,
    }
}

/// The content of the record file for a high score of `score`.
pub fn write_record(score: u32) -> (content: Vec<u8>)
    ensures
        content@ == decimal(score as nat),
{
    let mut content: Vec<u8> = Vec::new();
    push_decimal(&mut content, score);
    content
}

/// What the player is told at the end, without a line end.
pub fn end_message(score: u32, verdict: Verdict) -> (message: Vec<u8>)
    ensures
        message@ == end_message_spec(score, verdict),
{
    let mut message: Vec<u8> = Vec::new();
    match verdict {
        Verdict::NewHighScore => {
            push_text(&mut message, "New high score! You got ");
            push_decimal(&mut message, score);
        },
        Verdict::Beaten(high) => {
            push_text(&mut message, "You got ");
            push_decimal(&mut message, score);
            push_text(&mut message, ", the high score is ");
            push_decimal(&mut message, high);
            push_text(&mut message, ". Try again!");
        },
        Verdict::NoRecord => {
            push_text(&mut message, "You got ");
            push_decimal(&mut message, score);
            push_text(&mut message, "!");
        },
    }
    proof {
        assert(message@ =~= end_message_spec(score, verdict));
    }
    message
}

} // verus!
