//! The instruction that a client sends: one line, a verb first.

use vstd::prelude::*;
use vstd::string::StringExecFns;
use crate::text::{split, split_text, texts, lemma_split_len};

verus! {

/// What a client may ask for.
#[derive(Debug, PartialEq, Eq)]
pub enum Instruction {
    /// The resources that the backend manages.
    List,
    /// The destruction of the named resource.
    Kill(String),
}

/// An instruction as contracts speak of it.
pub enum InstructionView {
    List,
    Kill(Seq<char>),
}

impl View for Instruction {
    type V = InstructionView;

    open spec fn view(&self) -> InstructionView {
        match self {
            Instruction::List => InstructionView::List,
            Instruction::Kill(name) => InstructionView::Kill(name@),
        }
    }
}

/// The words of the first line of `message`: what stands before the first
/// line feed, cut at each space.
pub open spec fn words(message: Seq<char>) -> Seq<Seq<char>> {
    split(split(message, '\n')[0], ' ')
}

/// The first word of the first line.
pub open spec fn verb(message: Seq<char>) -> Seq<char> {
    words(message)[0]
}

/// The second word of the first line, empty where the line has one word only.
pub open spec fn argument(message: Seq<char>) -> Seq<char> {
    if words(message).len() > 1 {
        words(message)[1]
    } else {
        Seq::<char>::empty()
    }
}

/// The instruction that `message` holds, if its verb is known.
pub open spec fn instruction(message: Seq<char>) -> Option<InstructionView> {
    if verb(message) == "list"@ {
        Some(InstructionView::List)
    } else if verb(message) == "kill"@ {
        Some(InstructionView::Kill(argument(message)))
    } else {
        None
    }
}

impl Instruction {
    /// Reads the instruction in what a client sent. Only the first line counts,
    /// and of it the first word and, for `kill`, the second.
    pub fn parse(message: &str) -> (parsed: Option<Instruction>)
        ensures
            (match parsed {
                Some(found) => instruction(message@) == Some(found@),
                None => instruction(message@).is_none(),
            }),
    {
        proof {
            lemma_split_len(message@, '\n');
            lemma_split_len(split(message@, '\n')[0], ' ');
        }
        let lines = split_text(message, '\n');
        let words = split_text(lines[0].as_str(), ' ');
        if words[0] == String::from_str("list") {
            Some(Instruction::List)
        } else if words[0] == String::from_str("kill") {
            if words.len() > 1 {
                Some(Instruction::Kill(words[1].clone()))
            } else {
                Some(Instruction::Kill(String::new()))
            }
        } else {
            None
        }
    }
}

} // verus!
