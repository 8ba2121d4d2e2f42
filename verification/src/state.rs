//! The persisted record: an initialization flag, an immutable name and a
//! mutable message.  Storage for a record always spans exactly
//! [`MAX_RECORD_SIZE`] bytes, of which only a prefix is meaningful.

use vstd::prelude::*;

verus! {

/// Fixed capacity of a record's storage in bytes.  The encoded record (flag,
/// length-prefixed name, length-prefixed message) must always fit in it.
pub const MAX_RECORD_SIZE: usize = 1000;

/// A persisted record.
#[derive(Debug, Clone)]
pub struct StudentIntroAccountState {
    /// True once the record has been written at least once.
    pub is_initialized: bool,
    /// Chosen by the owner; part of the address derivation; immutable after
    /// creation.
    pub name: String,
    /// Free-text payload; the only field an update may change.
    pub msg: String,
}

/// The mathematical value of a record: the flag and the two texts as
/// character sequences.
pub struct RecordView {
    pub is_initialized: bool,
    pub name: Seq<char>,
    pub msg: Seq<char>,
}

impl View for StudentIntroAccountState {
    type V = RecordView;

    open spec fn view(&self) -> RecordView {
        RecordView { is_initialized: self.is_initialized, name: self.name@, msg: self.msg@ }
    }
}

impl PartialEq for StudentIntroAccountState {
    fn eq(&self, other: &Self) -> (r: bool) {
        self.is_initialized == other.is_initialized && self.name == other.name && self.msg
            == other.msg
    }
}

impl vstd::std_specs::cmp::PartialEqSpecImpl for StudentIntroAccountState {
    open spec fn obeys_eq_spec() -> bool {
        true
    }

    open spec fn eq_spec(&self, other: &Self) -> bool {
        self@ == other@
    }
}

impl Eq for StudentIntroAccountState {}

impl StudentIntroAccountState {
    /// The stored flag, used as a precondition gate by update.
    pub fn is_initialized(&self) -> (b: bool)
        ensures
            b == self.is_initialized,
    {
        self.is_initialized
    }
}

} // verus!
