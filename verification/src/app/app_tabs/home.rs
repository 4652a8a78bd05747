//! The home tab.
use crate::app::tabs::{CloseOutcome, Tab, TabKey, TabLabel, TabLabelView};
use crate::context::TabContext;
use vstd::prelude::*;

verus! {

/// The tab that greets the user and offers the start-up preference.
#[derive(Clone, Copy, Debug)]
pub struct HomeTab {
    pub show_on_startup: bool,
}

impl Default for HomeTab {
    fn default() -> (tab: Self)
        ensures
            !tab.show_on_startup,
    {
        HomeTab { show_on_startup: false }
    }
}

impl Tab for HomeTab {
    type Context = TabContext;

    open spec fn title(&self) -> TabLabelView {
        TabLabelView::Message("home-tab-label"@)
    }

    open spec fn closes_to(
        &self,
        tab_key: TabKey,
        context: TabContext,
        tab_after: Self,
        context_after: TabContext,
        outcome: CloseOutcome,
    ) -> bool {
        outcome == CloseOutcome::Close && tab_after == *self && context_after == context
    }

    fn label(&self) -> (label: TabLabel) {
        TabLabel::Message("home-tab-label".to_owned())
    }

    fn on_close(&mut self, _tab_key: &TabKey, _context: &mut TabContext) -> (outcome: CloseOutcome) {
        CloseOutcome::Close
    }
}

} // verus!
