//! What a tab may read and change while it is shown or closed.
use crate::app::Config;
use crate::documents::{DocumentContext, Documents};
use crate::mailbox::{clone_sender, AppMessageSender};
use vstd::prelude::*;

verus! {

/// The parts of the application that tabs work on: the preferences, the
/// sending end of the mailbox and the document registry.
pub struct TabContext {
    pub config: Config,
    pub sender: AppMessageSender,
    pub documents: Documents,
}

impl TabContext {
    /// What a document may use while it is shown. A document does not know
    /// of tabs or of other documents.
    pub fn document_context(&self) -> (context: DocumentContext)
        ensures
            context.config == self.config,
            context.sender == self.sender,
    {
        DocumentContext { config: self.config, sender: clone_sender(&self.sender) }
    }
}

} // verus!
