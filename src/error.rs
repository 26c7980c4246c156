//! Error reporting for callers across the boundary: each execution context
//! owns one slot that holds the last error, read and cleared explicitly.
use vstd::prelude::*;

verus! {

/// Category of an error that fits no other.
pub const GENERAL_ERROR: u32 = 0;

/// Category of a failed read or write, or a malformed encoding.
pub const IO_ERROR: u32 = 1;

/// Category of a failure of the field hash or of the proof verifier.
pub const CRYPTO_ERROR: u32 = 2;

/// An argument that must be present was absent.
#[derive(Debug, Clone)]
pub struct NullPointerError(pub String);

/// The short name of an error category.
pub open spec fn category_name(category: u32) -> Seq<char> {
    if category == GENERAL_ERROR {
        "General"@
    } else if category == IO_ERROR {
        "Unable to read/write"@
    } else if category == CRYPTO_ERROR {
        "Crypto error"@
    } else {
        "Unknown"@
    }
}

/// A short description of an error's category.
pub fn zendoo_get_category_name(category: u32) -> (r: &'static str)
    ensures
        r@ == category_name(category),
{
    if category == GENERAL_ERROR {
        "General"
    } else if category == IO_ERROR {
        "Unable to read/write"
    } else if category == CRYPTO_ERROR {
        "Crypto error"
    } else {
        "Unknown"
    }
}

/// An error as the caller sees it: a message and a category.
#[derive(Debug, Clone)]
pub struct Error {
    /// What went wrong, for people; empty where there was no error.
    pub msg: String,
    /// One of the categories above.
    pub category: u32,
}

impl Default for Error {
    /// The error reported when none has occurred.
    fn default() -> (r: Error)
        ensures
            r.msg@ == Seq::<char>::empty(),
            r.category == GENERAL_ERROR,
    {
        Error { msg: String::new(), category: GENERAL_ERROR }
    }
}

/// The last error of one execution context, if any.
pub struct ErrorSlot {
    last: Option<Error>,
}

impl ErrorSlot {
    /// The message and category held, if any.
    pub closed spec fn spec_last(&self) -> Option<(Seq<char>, u32)> {
        match self.last {
            Some(e) => Some((e.msg@, e.category)),
            None => None,
        }
    }

    /// A slot that holds no error.
    pub fn new() -> (r: ErrorSlot)
        ensures
            r.spec_last() == None::<(Seq<char>, u32)>,
    {
        ErrorSlot { last: None }
    }
}

/// What reading the slot gives: the error held, or an empty message of the
/// general category.
pub open spec fn reported(last: Option<(Seq<char>, u32)>) -> (Seq<char>, u32) {
    match last {
        Some(e) => e,
        None => (Seq::empty(), GENERAL_ERROR),
    }
}

/// Records `msg` under `category` as the last error, replacing the one held.
pub fn set_last_error(slot: &mut ErrorSlot, msg: String, category: u32)
    ensures
        final(slot).spec_last() == Some((msg@, category)),
{
    slot.last = Some(Error { msg, category });
}

/// Records `msg` as the last error, of the general category.
pub fn set_general_error(slot: &mut ErrorSlot, msg: String)
    ensures
        final(slot).spec_last() == Some((msg@, GENERAL_ERROR)),
{
    set_last_error(slot, msg, GENERAL_ERROR);
}

/// The last error recorded, or the default error where none is held.
pub fn zendoo_get_last_error(slot: &ErrorSlot) -> (r: Error)
    ensures
        (r.msg@, r.category) == reported(slot.spec_last()),
{
    match &slot.last {
        Some(e) => Error { msg: e.msg.clone(), category: e.category },
        None => Error::default(),
    }
}

/// Forgets the last error.
pub fn zendoo_clear_error(slot: &mut ErrorSlot)
    ensures
        final(slot).spec_last() == None::<(Seq<char>, u32)>,
{
    slot.last = None;
}

/// Reading the slot gives back what was last recorded, and after clearing it
/// gives an empty message of the general category.
pub proof fn lemma_error_slot(msg: Seq<char>, category: u32)
    ensures
        reported(Some((msg, category))) == (msg, category),
        reported(None) == (Seq::<char>::empty(), GENERAL_ERROR),
{
}

} // verus!
