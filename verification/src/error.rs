//! Why an edit is refused.
use vstd::prelude::*;

use crate::model::{Stored, Timeline, TimelineModel};
use crate::text::{cat4, cat5, count_usize, decimal, Str};

verus! {

/// Why an anchor names no clip.
#[derive(Debug)]
pub struct AnchorMiss {
    /// The reason, with the candidates that came close.
    pub text: String,
}

impl View for AnchorMiss {
    type V = Str;

    open spec fn view(&self) -> Str {
        self.text@
    }
}

impl Stored for AnchorMiss {
    fn copied(&self) -> (r: AnchorMiss) {
        AnchorMiss { text: self.text.clone() }
    }
}

/// Why an envelope is refused.
#[derive(Debug)]
pub enum ApplyError {
    /// An anchor names no clip.
    AnchorMiss {
        /// The place of the op in the envelope.
        index: usize,
        /// Why the anchor missed.
        miss: AnchorMiss,
    },
    /// An op asks for what it cannot have.
    Invalid {
        /// The place of the op in the envelope.
        index: usize,
        /// What is wrong.
        message: String,
    },
    /// The edited timeline is malformed.
    OtioInvalid {
        /// The place of the last op in the envelope.
        index: usize,
        /// What is wrong.
        message: String,
    },
    /// The op is not offered.
    NotImplemented {
        /// The place of the op in the envelope.
        index: usize,
        /// What the op is called.
        op: String,
    },
}

/// What an [`ApplyError`] says.
#[verifier::ext_equal]
pub enum Refusal {
    AnchorMiss { index: usize, miss: Str },
    Invalid { index: usize, message: Str },
    OtioInvalid { index: usize, message: Str },
    NotImplemented { index: usize, op: Str },
}

impl View for ApplyError {
    type V = Refusal;

    open spec fn view(&self) -> Refusal {
        match *self {
            ApplyError::AnchorMiss { index, miss } => Refusal::AnchorMiss { index, miss: miss@ },
            ApplyError::Invalid { index, message } => Refusal::Invalid { index, message: message@ },
            ApplyError::OtioInvalid { index, message } => Refusal::OtioInvalid {
                index,
                message: message@,
            },
            ApplyError::NotImplemented { index, op } => Refusal::NotImplemented { index, op: op@ },
        }
    }
}

/// The text of a refusal.
pub open spec fn refusal_text(e: Refusal) -> Str {
    match e {
        Refusal::AnchorMiss { index, miss } => "op #"@ + decimal(index as nat) + ": "@ + miss,
        Refusal::Invalid { index, message } => "op #"@ + decimal(index as nat)
            + ": invalid field: "@ + message,
        Refusal::OtioInvalid { index, message } => "op #"@ + decimal(index as nat)
            + ": OTIO validation failed after apply: "@ + message,
        Refusal::NotImplemented { index, op } => "op #"@ + decimal(index as nat) + ": '"@ + op
            + "' not yet implemented (deferred to a later batch)"@,
    }
}

impl ApplyError {
    /// The text of the error.
    pub fn text(&self) -> (r: String)
        ensures
            r@ == refusal_text(self@),
    {
        match self {
            ApplyError::AnchorMiss { index, miss } => cat4(
                "op #",
                count_usize(*index).as_str(),
                ": ",
                miss.text.as_str(),
            ),
            ApplyError::Invalid { index, message } => cat4(
                "op #",
                count_usize(*index).as_str(),
                ": invalid field: ",
                message.as_str(),
            ),
            ApplyError::OtioInvalid { index, message } => cat4(
                "op #",
                count_usize(*index).as_str(),
                ": OTIO validation failed after apply: ",
                message.as_str(),
            ),
            ApplyError::NotImplemented { index, op } => cat5(
                "op #",
                count_usize(*index).as_str(),
                ": '",
                op.as_str(),
                "' not yet implemented (deferred to a later batch)",
            ),
        }
    }
}

/// The refusal of a bad field.
pub open spec fn bad(index: usize, message: Str) -> Refusal {
    Refusal::Invalid { index, message }
}

/// The refusal of a bad field.
pub fn invalid(index: usize, message: String) -> (r: ApplyError)
    ensures
        r@ == bad(index, message@),
{
    ApplyError::Invalid { index, message }
}

/// The refusal of a bad field, with a fixed message.
pub fn invalid_str(index: usize, message: &str) -> (r: ApplyError)
    ensures
        r@ == bad(index, message@),
{
    ApplyError::Invalid { index, message: message.to_owned() }
}

/// What an op comes to: the edited timeline with a line that says what was
/// done, or a refusal.
pub type Done = Result<(TimelineModel, Str), Refusal>;

/// Whether a result is the given outcome.
pub open spec fn shows(r: Result<(Timeline, String), ApplyError>, o: Done) -> bool {
    match r {
        Ok(p) => o == Ok::<(TimelineModel, Str), Refusal>((p.0@, p.1@)),
        Err(e) => o == Err::<(TimelineModel, Str), Refusal>(e@),
    }
}

/// Whether a check came out as stated.
pub open spec fn checks(r: Result<(), ApplyError>, o: Result<(), Refusal>) -> bool {
    match r {
        Ok(_) => o is Ok,
        Err(e) => o == Err::<(), Refusal>(e@),
    }
}

} // verus!
