//! Text documents.
use crate::app::{AppMessage, MessageSource};
use crate::documents::loader::{DocumentContent, LoaderState};
use crate::documents::DocumentKey;
use crate::mailbox::{clone_context, AppMessageSender};
use crate::paths::path_clone;
use egui::Context;
use std::path::PathBuf;
use vstd::prelude::*;

verus! {

/// Why the text of a document could not be loaded.
#[derive(Clone, Copy, Debug, PartialEq, Eq, Structural)]
pub enum TextLoaderError {
    /// The file could not be read as text.
    Error,
}

/// The text of a document together with the progress of loading it.
pub type TextDocumentContent = DocumentContent<String, TextLoaderError>;

/// A document whose content is text.
pub struct TextDocument {
    /// The file that the text comes from, or will be saved to.
    pub path: PathBuf,
    /// The text and the progress of loading it.
    pub loader: TextDocumentContent,
}

impl TextDocument {
    /// A new document at `path` that holds a placeholder text. Nothing is
    /// loaded.
    pub fn create_new(path: PathBuf) -> (document: Self)
        ensures
            document.path == path,
            document.loader@ matches LoaderState::Loaded(text) && text@ == "example content"@,
    {
        Self { path, loader: DocumentContent::new("example content".to_owned()) }
    }

    /// The document for the file at `path`, whose text is yet to be loaded.
    /// The worker that loads it announces the end of its work by a refresh
    /// entry that names `document_key` as its source.
    pub fn from_path(path: PathBuf, ctx: &Context, document_key: DocumentKey, sender: AppMessageSender) -> (document:
        Self)
        ensures
            document.path == path,
            document.loader@ matches LoaderState::Loading(Some(request)) && request.path == path
                && request.ctx == *ctx && request.sender == sender && request.on_loaded_message == (
                MessageSource::Document(document_key),
                AppMessage::Refresh,
            ),
    {
        let message = (MessageSource::Document(document_key), AppMessage::Refresh);
        let loader = DocumentContent::load(path_clone(&path), clone_context(ctx), message, sender);
        Self { path, loader }
    }
}

} // verus!
