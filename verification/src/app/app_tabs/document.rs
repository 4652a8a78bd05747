//! The tab that shows a document.
use crate::app::tabs::{CloseOutcome, Tab, TabKey, TabLabel, TabLabelView};
use crate::context::TabContext;
use crate::documents::{DocumentKey, DocumentKind};
use std::path::PathBuf;
use vstd::prelude::*;

verus! {

/// A tab that shows one document of the registry. The tab refers to the
/// document by its key; it does not own it.
#[derive(Debug)]
pub struct DocumentTab {
    pub title: String,
    pub path: PathBuf,
    pub document_key: DocumentKey,
}

impl DocumentTab {
    /// The tab with the given title for the document under `document_key`,
    /// whose content belongs to the file at `path`.
    pub fn new(title: String, path: PathBuf, document_key: DocumentKey) -> (tab: Self)
        ensures
            tab == (DocumentTab { title, path, document_key }),
    {
        Self { title, path, document_key }
    }

    /// The document that the tab shows, if the registry holds it. A tab whose
    /// document is not there shows a notice in its place.
    pub fn document<'a>(&self, context: &'a TabContext) -> (document: Option<&'a DocumentKind>)
        ensures
            match document {
                Some(d) => context.documents@.contains_key(self.document_key) && *d
                    == context.documents@[self.document_key],
                None => !context.documents@.contains_key(self.document_key),
            },
    {
        context.documents.get(self.document_key)
    }
}

impl DocumentTab {
    /// The document that the tab shows, if the registry holds it, for
    /// changing it in place.
    pub fn document_mut<'a>(&self, context: &'a mut TabContext) -> (document: Option<&'a mut DocumentKind>)
        ensures
            final(context).config == old(context).config,
            final(context).sender == old(context).sender,
            match document {
                Some(d) => old(context).documents@.contains_key(self.document_key) && *d == old(context).documents@[self.document_key] && final(context).documents@ == old(context).documents@.insert(self.document_key, *final(d)),
                None => !old(context).documents@.contains_key(self.document_key) && final(context).documents@ == old(context).documents@,
            },
    {
        context.documents.get_mut(self.document_key)
    }
}

impl Tab for DocumentTab {
    type Context = TabContext;

    open spec fn title(&self) -> TabLabelView {
        TabLabelView::Text(self.title@)
    }

    open spec fn closes_to(
        &self,
        tab_key: TabKey,
        context: TabContext,
        tab_after: Self,
        context_after: TabContext,
        outcome: CloseOutcome,
    ) -> bool {
        &&& outcome == CloseOutcome::Close
        &&& tab_after == *self
        &&& context_after.documents@ == context.documents@.remove(self.document_key)
        &&& context_after.documents.count() == if context.documents@.contains_key(self.document_key) {
            context.documents.count() - 1
        } else {
            context.documents.count() as int
        }
        &&& context_after.config == context.config
        &&& context_after.sender == context.sender
    }

    fn label(&self) -> (label: TabLabel) {
        TabLabel::Text(self.title.clone())
    }

    fn on_close(&mut self, _tab_key: &TabKey, context: &mut TabContext) -> (outcome: CloseOutcome) {
        match context.documents.remove(self.document_key) {
            Some(DocumentKind::ImageDocument(document)) => document.forget_existing_image(),
            _ => {},
        }
        CloseOutcome::Close
    }
}

} // verus!
