//! The kinds of tab that the workspace shows.
use crate::app::app_tabs::document::DocumentTab;
use crate::app::app_tabs::home::HomeTab;
use crate::app::app_tabs::new::NewTab;
use crate::app::tabs::{CloseOutcome, Tab, TabKey, TabLabel, TabLabelView};
use crate::context::TabContext;
use vstd::prelude::*;

pub mod document;
pub mod home;
pub mod new;

verus! {

/// A tab of the workspace.
pub enum TabKind {
    Home(HomeTab),
    Document(DocumentTab),
    New(NewTab),
}

impl Tab for TabKind {
    type Context = TabContext;

    open spec fn title(&self) -> TabLabelView {
        match self {
            TabKind::Home(tab) => tab.title(),
            TabKind::Document(tab) => tab.title(),
            TabKind::New(tab) => tab.title(),
        }
    }

    open spec fn closes_to(
        &self,
        tab_key: TabKey,
        context: TabContext,
        tab_after: Self,
        context_after: TabContext,
        outcome: CloseOutcome,
    ) -> bool {
        match (*self, tab_after) {
            (TabKind::Home(tab), TabKind::Home(after)) => tab.closes_to(
                tab_key,
                context,
                after,
                context_after,
                outcome,
            ),
            (TabKind::Document(tab), TabKind::Document(after)) => tab.closes_to(
                tab_key,
                context,
                after,
                context_after,
                outcome,
            ),
            (TabKind::New(tab), TabKind::New(after)) => tab.closes_to(
                tab_key,
                context,
                after,
                context_after,
                outcome,
            ),
            _ => false,
        }
    }

    fn label(&self) -> (label: TabLabel) {
        match self {
            TabKind::Home(tab) => tab.label(),
            TabKind::Document(tab) => tab.label(),
            TabKind::New(tab) => tab.label(),
        }
    }

    fn on_close(&mut self, tab_key: &TabKey, context: &mut TabContext) -> (outcome: CloseOutcome) {
        match self {
            TabKind::Home(tab) => tab.on_close(tab_key, context),
            TabKind::Document(tab) => tab.on_close(tab_key, context),
            TabKind::New(tab) => tab.on_close(tab_key, context),
        }
    }
}

} // verus!
