//! Carrying out the entries of the mailbox.
use crate::app::app_tabs::new::KindChoice;
use crate::app::app_tabs::TabKind;
use crate::app::{AppMessage, DispatchError, DocumentError, MessageSource, TemplateApp};
use crate::documents::MAX_DOCUMENTS;
use crate::mailbox::{drain, Entry};
use egui::{Context, TextureHandle};
use std::path::PathBuf;
use url::Url;
use vstd::prelude::*;

verus! {

/// The error of `outcome`, if it has one.
pub open spec fn failure_of(outcome: Result<(), DispatchError>) -> Option<DispatchError> {
    match outcome {
        Ok(_) => None,
        Err(error) => Some(error),
    }
}

impl TemplateApp {
    /// Whether carrying out the mailbox entry of `source` and `message` may
    /// take the application from `self` to `after`, and fail with `failure`
    /// if that is an error.
    ///
    /// A refresh changes nothing: the content that it announces is in its
    /// loader already. A request to create a document must come from a tab of
    /// the registry. It fails if and only if the document cannot be created;
    /// else the new document goes to the document registry, and the tab that
    /// shows it takes the place of the tab that asked. An entry that fails
    /// changes nothing.
    pub open spec fn dispatches_to<F: Fn(&Url) -> TextureHandle>(
        self,
        after: Self,
        ctx: Context,
        source: MessageSource,
        message: AppMessage,
        make_texture: F,
        failure: Option<DispatchError>,
    ) -> bool {
        match message {
            AppMessage::Refresh => after == self && failure is None,
            AppMessage::CreateDocument(args) => match source {
                MessageSource::Document(_) => after == self && failure == Some(
                    DispatchError::UnexpectedSource,
                ),
                MessageSource::Tab(tab_key) => {
                    if !self.tabs@.contains_key(tab_key) {
                        after == self && failure == Some(DispatchError::UnknownTab)
                    } else {
                        match self.creation_failure(args) {
                            Some(error) => after == self && failure == Some(
                                DispatchError::Document(error),
                            ),
                            None => failure is None && exists|tab: TabKind, middle: Self|
                                {
                                    &&& self.creates_from(middle, ctx, args, make_texture, tab)
                                    &&& after.tabs@ == middle.tabs@.insert(tab_key, tab)
                                    &&& after.tabs.counter() == middle.tabs.counter()
                                    &&& after.context == middle.context
                                    &&& after.state == middle.state
                                },
                        }
                    }
                },
            },
        }
    }

    /// Carries out one mailbox entry.
    pub fn dispatch<F: Fn(&Url) -> TextureHandle>(
        &mut self,
        ctx: &Context,
        source: MessageSource,
        message: AppMessage,
        make_texture: &F,
    ) -> (outcome: Result<(), DispatchError>)
        requires
            forall|u: Url| call_requires(*make_texture, (&u,)),
        ensures
            old(self).dispatches_to(
                *final(self),
                *ctx,
                source,
                message,
                *make_texture,
                failure_of(outcome),
            ),
    {
        match message {
            AppMessage::Refresh => Ok(()),
            AppMessage::CreateDocument(args) => {
                match source {
                    MessageSource::Document(_) => Err(DispatchError::UnexpectedSource),
                    MessageSource::Tab(tab_key) => {
                        if self.tabs.get(&tab_key).is_none() {
                            return Err(DispatchError::UnknownTab);
                        }
                        match self.create_document_tab_inner(ctx, args, make_texture) {
                            Ok(document_tab_kind) => {
                                let ghost middle = *self;
                                assert(old(self).creates_from(
                                    middle,
                                    *ctx,
                                    args,
                                    *make_texture,
                                    document_tab_kind,
                                ));
                                match self.tabs.get_mut(&tab_key) {
                                    Some(tab_kind) => {
                                        *tab_kind = document_tab_kind;
                                    },
                                    None => {},
                                }
                                Ok(())
                            },
                            Err(error) => Err(DispatchError::Document(error)),
                        }
                    },
                }
            },
        }
    }

    /// Whether `states` are the states that the application passes through
    /// when it carries out `entries` one after the other, from `self` to
    /// `after`. The entries are carried out in their order. The first entry
    /// that fails ends the run; its error is `failure`, and the entries
    /// behind it are dropped.
    #[verifier::opaque]
    pub open spec fn runs_to<F: Fn(&Url) -> TextureHandle>(
        self,
        after: Self,
        ctx: Context,
        entries: Seq<Entry>,
        make_texture: F,
        states: Seq<Self>,
        failure: Option<DispatchError>,
    ) -> bool {
        &&& 1 <= states.len() <= entries.len() + 1
        &&& states[0] == self
        &&& states.last() == after
        &&& forall|i: int|
            0 <= i < states.len() - 1 ==> (#[trigger] states[i]).dispatches_to(
                states[i + 1],
                ctx,
                entries[i].0,
                entries[i].1,
                make_texture,
                None,
            )
        &&& match failure {
            None => states.len() == entries.len() + 1,
            Some(error) => states.len() <= entries.len() && after.dispatches_to(
                after,
                ctx,
                entries[states.len() - 1].0,
                entries[states.len() - 1].1,
                make_texture,
                failure,
            ),
        }
    }

    /// Carries out the entries that were taken from the mailbox, in the
    /// order in which they arrived.
    pub fn process_messages<F: Fn(&Url) -> TextureHandle>(
        &mut self,
        ctx: &Context,
        entries: Vec<Entry>,
        make_texture: &F,
    ) -> (outcome: Result<(), DispatchError>)
        requires
            forall|u: Url| call_requires(*make_texture, (&u,)),
        ensures
            exists|states: Seq<Self>|
                old(self).runs_to(
                    *final(self),
                    *ctx,
                    entries@,
                    *make_texture,
                    states,
                    failure_of(outcome),
                ),
    {
        let ghost mut states: Seq<Self> = seq![*self];
        let ghost all = entries@;
        for entry in it: entries
            invariant
                it.seq() == all,
                forall|u: Url| call_requires(*make_texture, (&u,)),
                states.len() == it.index() + 1,
                states[0] == *old(self),
                states.last() == *self,
                forall|i: int|
                    0 <= i < states.len() - 1 ==> (#[trigger] states[i]).dispatches_to(
                        states[i + 1],
                        *ctx,
                        all[i].0,
                        all[i].1,
                        *make_texture,
                        None,
                    ),
        {
            let (source, message) = entry;
            match self.dispatch(ctx, source, message, make_texture) {
                Ok(()) => {
                    proof {
                        states = states.push(*self);
                    }
                },
                Err(error) => {
                    proof {
                        reveal(TemplateApp::runs_to);
                    }
                    assert(old(self).runs_to(*self, *ctx, all, *make_texture, states, Some(error)));
                    return Err(error);
                },
            }
        }
        proof {
            reveal(TemplateApp::runs_to);
        }
        assert(old(self).runs_to(*self, *ctx, all, *make_texture, states, None));
        Ok(())
    }

    /// Takes the entries that have arrived out of the mailbox and carries
    /// them out, in the order in which they arrived.
    pub fn read_messages<F: Fn(&Url) -> TextureHandle>(&mut self, ctx: &Context, make_texture: &F) -> (outcome:
        Result<(), DispatchError>)
        requires
            forall|u: Url| call_requires(*make_texture, (&u,)),
        ensures
            exists|entries: Seq<Entry>, states: Seq<Self>|
                old(self).runs_to(
                    *final(self),
                    *ctx,
                    entries,
                    *make_texture,
                    states,
                    failure_of(outcome),
                ),
    {
        let entries = drain(&self.state.receiver, ctx);
        self.process_messages(ctx, entries, make_texture)
    }

}

} // verus!
