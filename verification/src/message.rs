//! A dialog message for the caller's user interface: the text and what
//! kind of dialog carries it. The rendering itself is the interface
//! layer's business.

use vstd::prelude::*;

verus! {

/// What a dialog asks of the user.
#[derive(Clone, Copy, Debug, PartialEq, Eq, Structural)]
pub enum DialogType {
    /// A notice the user dismisses with a confirmation button.
    Acknowledge,
    /// A progress notice with nothing to press.
    Progress,
}

/// One message to show the user.
#[derive(Debug)]
pub struct Message {
    content: String,
    dialog_type: DialogType,
}

impl Message {
    /// The text shown.
    pub closed spec fn spec_content(self) -> Seq<char> {
        self.content@
    }

    /// The dialog kind.
    pub closed spec fn spec_dialog_type(self) -> DialogType {
        self.dialog_type
    }

    pub fn new(content: &str, dialog_type: DialogType) -> (m: Self)
        ensures
            m.spec_content() == content@,
            m.spec_dialog_type() == dialog_type,
    {
        Message { content: content.to_owned(), dialog_type }
    }

    /// The text shown.
    pub fn content(&self) -> (r: &str)
        ensures
            r@ == self.spec_content(),
    {
        self.content.as_str()
    }

    /// The dialog kind.
    pub fn dialog_type(&self) -> (r: DialogType)
        ensures
            r == self.spec_dialog_type(),
    {
        self.dialog_type
    }
}

} // verus!
