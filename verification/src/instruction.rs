//! Decoding an incoming request into one of the two operations.
//!
//! A request is a 1-byte operation tag (0 for create, 1 for update) followed
//! by the name and the message, each as a 4-byte little-endian byte length
//! and UTF-8 bytes.  Any other tag, and any payload that is truncated,
//! malformed or not fully consumed, is refused.

use vstd::prelude::*;

use crate::codec::read_string;
use crate::codec::spec_read_string;
use crate::error::StudentIntroError;

verus! {

/// A decoded request.
#[derive(Debug)]
pub enum StudentIntroInstruction {
    /// Create a record under the requester's identity.
    AddStudentIntro { name: String, msg: String },
    /// Replace the message of the requester's existing record.
    UpdateStudentIntro { name: String, msg: String },
}

/// The mathematical value of a decoded request.
pub enum InstructionView {
    Add { name: Seq<char>, msg: Seq<char> },
    Update { name: Seq<char>, msg: Seq<char> },
}

impl View for StudentIntroInstruction {
    type V = InstructionView;

    open spec fn view(&self) -> InstructionView {
        match self {
            StudentIntroInstruction::AddStudentIntro { name, msg } => InstructionView::Add {
                name: name@,
                msg: msg@,
            },
            StudentIntroInstruction::UpdateStudentIntro { name, msg } => InstructionView::Update {
                name: name@,
                msg: msg@,
            },
        }
    }
}

/// What request bytes decode to, if anything: the tag must be 0 or 1, both
/// texts must parse, and the payload must be fully consumed.
pub open spec fn spec_unpack(bytes: Seq<u8>) -> Option<InstructionView> {
    if bytes.len() < 1 {
        None
    } else {
        let tag = bytes[0];
        if tag != 0u8 && tag != 1u8 {
            None
        } else {
            match spec_read_string(bytes, 1) {
                None => None,
                Some((name, j)) => match spec_read_string(bytes, j) {
                    None => None,
                    Some((msg, k)) => if k == bytes.len() {
                        if tag == 0u8 {
                            Some(InstructionView::Add { name, msg })
                        } else {
                            Some(InstructionView::Update { name, msg })
                        }
                    } else {
                        None
                    },
                },
            }
        }
    }
}

impl StudentIntroInstruction {
    /// Decodes request bytes, refusing with `InvalidInstruction` exactly the
    /// byte strings that encode no request.
    pub fn unpack(input: &[u8]) -> (r: Result<StudentIntroInstruction, StudentIntroError>)
        ensures
            match r {
                Ok(ins) => spec_unpack(input@) == Some(ins@),
                Err(e) => spec_unpack(input@) is None && e == StudentIntroError::InvalidInstruction,
            },
    {
        if input.len() < 1 {
            return Err(StudentIntroError::InvalidInstruction);
        }
        let tag: u8 = input[0];
        if tag != 0 && tag != 1 {
            return Err(StudentIntroError::InvalidInstruction);
        }
        let (name, j) = match read_string(input, 1) {
            Some(p) => p,
            None => {
                return Err(StudentIntroError::InvalidInstruction);
            },
        };
        let (msg, k) = match read_string(input, j) {
            Some(p) => p,
            None => {
                return Err(StudentIntroError::InvalidInstruction);
            },
        };
        if k != input.len() {
            return Err(StudentIntroError::InvalidInstruction);
        }
        if tag == 0 {
            Ok(StudentIntroInstruction::AddStudentIntro { name, msg })
        } else {
            Ok(StudentIntroInstruction::UpdateStudentIntro { name, msg })
        }
    }
}

} // verus!
