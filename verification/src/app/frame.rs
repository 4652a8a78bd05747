//! The work of one frame.
use crate::app::app_tabs::home::HomeTab;
use crate::app::app_tabs::new::KindChoice;
use crate::app::app_tabs::TabKind;
use crate::app::layout::{apply_change, layout_after, layout_after_maybe, LayoutChange};
use crate::app::tabs::TabKey;
use crate::app::messages::failure_of;
use crate::app::{
    hands_out, has_home, is_empty_form, is_first_home, AppState, DispatchError, TemplateApp,
};
use crate::documents::DocumentKey;
use crate::mailbox::{drain, Entry};
use egui::{Context, TextureHandle};
use url::Url;
use vstd::prelude::*;

verus! {

/// The buttons of the toolbar.
#[derive(Clone, Copy, Debug, PartialEq, Eq, Structural)]
pub enum ToolbarButton {
    /// Show the home tab.
    Home,
    /// Open a form for a new document.
    New,
    /// Open a file.
    Open,
    /// Close all tabs.
    CloseAll,
}

/// What a click on a toolbar button leads to.
#[derive(Clone, Copy, Debug, PartialEq, Eq, Structural)]
pub enum ToolbarAction {
    /// The layout is to change.
    Change(LayoutChange),
    /// The user is to pick the file to open.
    PickFile,
}

/// The keys that the layout holds after `action` has been carried out, if it
/// held `layout` before.
pub open spec fn layout_after_action(layout: Seq<TabKey>, action: ToolbarAction) -> Seq<TabKey> {
    match action {
        ToolbarAction::Change(change) => layout_after(layout, change),
        ToolbarAction::PickFile => layout,
    }
}

/// What a frame asks of the surroundings of the application.
pub struct FrameOutcome {
    /// What the clicks on the toolbar lead to, click by click. To be carried
    /// out in this order.
    pub actions: Vec<ToolbarAction>,
    /// What the start-up work asks of the layout, if anything. To be carried
    /// out after `actions`.
    pub startup: Option<LayoutChange>,
    /// The keys of the tabs whose documents were made anew by the start-up
    /// work and now wait for a worker.
    pub restored: Vec<TabKey>,
    /// The keys that the layout holds when it has carried out all of this.
    pub layout: Vec<TabKey>,
}

/// What happened inside a frame, step by step.
pub struct FrameTrace {
    /// The states that carrying out the entries went through.
    pub run: Seq<TemplateApp>,
    /// The state after the entries were carried out.
    pub after_entries: TemplateApp,
    /// The state before the first click and after every click.
    pub clicks: Seq<TemplateApp>,
    /// The keys of the layout before the first click and after every click.
    pub layouts: Seq<Seq<TabKey>>,
    /// The state after the clicks were handled.
    pub after_clicks: TemplateApp,
    /// The keys of the layout after the clicks were handled.
    pub clicked_layout: Seq<TabKey>,
    /// The state after the home tab was seen to.
    pub home: TemplateApp,
    /// The document keys that were saved in the document tabs.
    pub avoid: Seq<DocumentKey>,
    /// The kinds of the documents that were made anew.
    pub kinds: Seq<KindChoice>,
    /// The states that making the documents anew went through.
    pub restores: Seq<TemplateApp>,
    /// The state after the start-up work.
    pub after_startup: TemplateApp,
}

impl TemplateApp {
    /// Whether a click on `button`, while the layout holds `layout`, may
    /// take the application from `self` to `after` and lead to `action`.
    #[verifier::opaque]
    pub open spec fn clicks_to(self, after: Self, button: ToolbarButton, layout: Seq<TabKey>, action: ToolbarAction) -> bool {
        &&& after.context == self.context
        &&& after.state == self.state
        &&& match button {
            ToolbarButton::Home => match action {
                ToolbarAction::Change(LayoutChange::Activate(key)) => is_first_home(
                    self.tabs@,
                    layout,
                    key,
                ) && after.tabs == self.tabs,
                ToolbarAction::Change(LayoutChange::Push(key)) => !has_home(self.tabs@, layout)
                    && !self.tabs@.contains_key(key) && hands_out(self.tabs, after.tabs, key)
                    && after.tabs@ == self.tabs@.insert(
                    key,
                    TabKind::Home(HomeTab { show_on_startup: false }),
                ),
                _ => false,
            },
            ToolbarButton::New => action matches ToolbarAction::Change(LayoutChange::Push(key))
                && !self.tabs@.contains_key(key) && hands_out(self.tabs, after.tabs, key)
                && after.tabs@.dom() == self.tabs@.dom().insert(key)
                && is_empty_form(after.tabs@[key]) && forall|k: TabKey|
                self.tabs@.contains_key(k) ==> after.tabs@[k] == self.tabs@[k],
            ToolbarButton::Open => action == ToolbarAction::PickFile && after.tabs == self.tabs,
            ToolbarButton::CloseAll => action == ToolbarAction::Change(LayoutChange::Clear)
                && after.tabs == self.tabs,
        }
    }

    /// Handles a click on `button` while the layout holds `layout`.
    pub fn on_toolbar(&mut self, button: ToolbarButton, layout: &[TabKey]) -> (action: ToolbarAction)
        ensures
            old(self).clicks_to(*final(self), button, layout@, action),
    {
        proof {
            reveal(TemplateApp::clicks_to);
        }
        match button {
            ToolbarButton::Home => ToolbarAction::Change(self.show_home_tab(layout)),
            ToolbarButton::New => ToolbarAction::Change(self.add_new_tab()),
            ToolbarButton::Open => ToolbarAction::PickFile,
            ToolbarButton::CloseAll => ToolbarAction::Change(LayoutChange::Clear),
        }
    }

    /// Whether `clicks` are the states that the application passes through,
    /// and `layouts` the keys that the layout holds, when the clicks on the
    /// buttons `clicked` are handled one after the other and lead to
    /// `actions`: from `self` and `layout` to `after` and `layout_after`.
    #[verifier::opaque]
    pub open spec fn all_clicks_to(
        self,
        after: Self,
        layout: Seq<TabKey>,
        layout_after: Seq<TabKey>,
        clicked: Seq<ToolbarButton>,
        actions: Seq<ToolbarAction>,
        clicks: Seq<Self>,
        layouts: Seq<Seq<TabKey>>,
    ) -> bool {
        &&& clicks.len() == clicked.len() + 1
        &&& layouts.len() == clicked.len() + 1
        &&& actions.len() == clicked.len()
        &&& clicks[0] == self
        &&& clicks.last() == after
        &&& layouts[0] == layout
        &&& layouts.last() == layout_after
        &&& forall|i: int|
            0 <= i < clicked.len() ==> (#[trigger] clicks[i]).clicks_to(
                clicks[i + 1],
                clicked[i],
                layouts[i],
                actions[i],
            )
        &&& forall|i: int|
            0 <= i < clicked.len() ==> layouts[i + 1] == layout_after_action(
                #[trigger] layouts[i],
                actions[i],
            )
    }

    /// Handles the clicks on the toolbar buttons `clicked`, in their order.
    /// `layout` are the keys that the layout holds; what the clicks ask of
    /// the layout is carried out on this list at once, so that every click
    /// is handled as if the layout had done what the clicks before it asked.
    pub fn handle_clicks(&mut self, clicked: &[ToolbarButton], layout: &mut Vec<TabKey>) -> (actions: Vec<
        ToolbarAction,
    >)
        ensures
            exists|clicks: Seq<Self>, layouts: Seq<Seq<TabKey>>|
                old(self).all_clicks_to(
                    *final(self),
                    old(layout)@,
                    final(layout)@,
                    clicked@,
                    actions@,
                    clicks,
                    layouts,
                ),
            final(self).context == old(self).context,
            final(self).state == old(self).state,
    {
        let mut actions: Vec<ToolbarAction> = Vec::new();
        let ghost mut clicks: Seq<Self> = seq![*self];
        let ghost mut layouts: Seq<Seq<TabKey>> = seq![layout@];
        let mut i: usize = 0;
        while i < clicked.len()
            invariant
                i <= clicked.len(),
                clicks.len() == i + 1,
                layouts.len() == i + 1,
                actions@.len() == i,
                clicks[0] == *old(self),
                layouts[0] == old(layout)@,
                clicks.last() == *self,
                layouts.last() == layout@,
                self.context == old(self).context,
                self.state == old(self).state,
                forall|j: int|
                    0 <= j < i ==> (#[trigger] clicks[j]).clicks_to(
                        clicks[j + 1],
                        clicked@[j],
                        layouts[j],
                        actions@[j],
                    ),
                forall|j: int|
                    0 <= j < i ==> layouts[j + 1] == layout_after_action(
                        #[trigger] layouts[j],
                        actions@[j],
                    ),
            decreases clicked.len() - i,
        {
            let ghost before = *self;
            let ghost layout_before = layout@;
            let action = self.on_toolbar(clicked[i], layout.as_slice());
            match action {
                ToolbarAction::Change(change) => apply_change(layout, change),
                ToolbarAction::PickFile => {},
            }
            assert(layout@ == layout_after_action(layout_before, action));
            assert(before.clicks_to(*self, clicked@[i as int], layout_before, action));
            assert(self.context == before.context && self.state == before.state) by {
                reveal(TemplateApp::clicks_to);
            }
            let ghost old_clicks = clicks;
            let ghost old_layouts = layouts;
            let ghost old_actions = actions@;
            actions.push(action);
            proof {
                clicks = clicks.push(*self);
                layouts = layouts.push(layout@);
                assert forall|j: int| 0 <= j < i + 1 implies (#[trigger] clicks[j]).clicks_to(
                    clicks[j + 1],
                    clicked@[j],
                    layouts[j],
                    actions@[j],
                ) by {
                    if j < i {
                        assert(old_clicks[j].clicks_to(
                            old_clicks[j + 1],
                            clicked@[j],
                            old_layouts[j],
                            old_actions[j],
                        ));
                    }
                }
                assert forall|j: int| 0 <= j < i + 1 implies layouts[j + 1] == layout_after_action(
                    #[trigger] layouts[j],
                    actions@[j],
                ) by {
                    if j < i {
                        assert(old_layouts[j + 1] == layout_after_action(old_layouts[j], old_actions[j]));
                    }
                }
            }
            i = i + 1;
        }
        proof {
            reveal(TemplateApp::all_clicks_to);
            assert(old(self).all_clicks_to(
                *self,
                old(layout)@,
                layout@,
                clicked@,
                actions@,
                clicks,
                layouts,
            ));
        }
        actions
    }

    /// This state with the start-up work marked as done.
    pub open spec fn started(self) -> Self {
        TemplateApp {
            tabs: self.tabs,
            context: self.context,
            state: AppState {
                startup_done: true,
                sender: self.state.sender,
                receiver: self.state.receiver,
            },
        }
    }

    /// Whether the start-up work may take the application from `self` to
    /// `after`, and the layout from `layout` to `layout_after`. The work is
    /// done once: the home tab is seen to, which leads to `home` and may ask
    /// the layout for `startup`, and then the documents of the document tabs
    /// under the keys `restored` are made anew. When the work was done
    /// before, nothing happens.
    #[verifier::opaque]
    pub open spec fn starts_to(
        self,
        after: Self,
        ctx: Context,
        layout: Seq<TabKey>,
        layout_after: Seq<TabKey>,
        startup: Option<LayoutChange>,
        restored: Seq<TabKey>,
        home: Self,
        kinds: Seq<KindChoice>,
        restores: Seq<Self>,
        avoid: Seq<DocumentKey>,
    ) -> bool {
        if self.state.startup_done {
            &&& after == self
            &&& layout_after == layout
            &&& startup is None
            &&& restored.len() == 0
        } else {
            &&& self.started().sees_to_home(home, layout, startup)
            &&& layout_after == layout_after_maybe(layout, startup)
            &&& home.restores_all_to(after, ctx, restored, kinds, restores, avoid)
        }
    }

    /// Does the start-up work if it has not been done: sees to the home tab
    /// and makes the documents of the document tabs anew. Returns what the
    /// layout is asked for, which is carried out on `layout` at once, and
    /// the keys of the tabs whose documents now wait for a worker.
    pub fn startup(&mut self, ctx: &Context, layout: &mut Vec<TabKey>) -> (done: (
        Option<LayoutChange>,
        Vec<TabKey>,
    ))
        ensures
            exists|home: Self, kinds: Seq<KindChoice>, restores: Seq<Self>, avoid: Seq<DocumentKey>|
                old(self).starts_to(
                    *final(self),
                    *ctx,
                    old(layout)@,
                    final(layout)@,
                    done.0,
                    done.1@,
                    home,
                    kinds,
                    restores,
                    avoid,
                ),
            final(self).state.startup_done,
    {
        if self.state.startup_done {
            let done: (Option<LayoutChange>, Vec<TabKey>) = (None, Vec::new());
            proof {
                reveal(TemplateApp::starts_to);
                assert(old(self).starts_to(
                    *self,
                    *ctx,
                    old(layout)@,
                    layout@,
                    done.0,
                    done.1@,
                    *self,
                    Seq::empty(),
                    Seq::empty(),
                    Seq::empty(),
                ));
            }
            return done;
        }
        self.state.startup_done = true;
        assert(*self == old(self).started());
        let startup = self.show_home_tab_on_startup(layout.as_slice());
        match startup {
            Some(change) => apply_change(layout, change),
            None => {},
        }
        let ghost home = *self;
        assert(home.state.startup_done) by {
            reveal(TemplateApp::sees_to_home);
        }
        let restored = self.restore_documents_on_startup(ctx);
        let ghost witness: (Seq<KindChoice>, Seq<Self>, Seq<DocumentKey>) = choose|
            kinds: Seq<KindChoice>,
            states: Seq<Self>,
            avoid: Seq<DocumentKey>,
        | home.restores_all_to(*self, *ctx, restored@, kinds, states, avoid);
        let done = (startup, restored);
        proof {
            reveal(TemplateApp::starts_to);
            assert(old(self).starts_to(
                *self,
                *ctx,
                old(layout)@,
                layout@,
                done.0,
                done.1@,
                home,
                witness.0,
                witness.1,
                witness.2,
            ));
        }
        done
    }

    /// Whether a frame that finds `entries` in the mailbox may take the
    /// application from `self` to `after` with `outcome`, as `trace` tells
    /// it, when the layout holds `layout` and the toolbar buttons `clicked`
    /// were clicked.
    ///
    /// A frame carries out the entries of the mailbox; if one fails, the
    /// frame ends there with its error. Then it handles the clicks. Then, if
    /// it is the first frame, it does the start-up work. At last it removes
    /// from the registry every tab that the layout does not hold.
    pub open spec fn frame_to<F: Fn(&Url) -> TextureHandle>(
        self,
        after: Self,
        ctx: Context,
        entries: Seq<Entry>,
        layout: Seq<TabKey>,
        clicked: Seq<ToolbarButton>,
        make_texture: F,
        outcome: Result<FrameOutcome, DispatchError>,
        trace: FrameTrace,
    ) -> bool {
        match outcome {
            Err(error) => self.runs_to(after, ctx, entries, make_texture, trace.run, Some(error)),
            Ok(frame) => {
                &&& self.runs_to(trace.after_entries, ctx, entries, make_texture, trace.run, None)
                &&& trace.after_entries.all_clicks_to(
                    trace.after_clicks,
                    layout,
                    trace.clicked_layout,
                    clicked,
                    frame.actions@,
                    trace.clicks,
                    trace.layouts,
                )
                &&& trace.after_clicks.starts_to(
                    trace.after_startup,
                    ctx,
                    trace.clicked_layout,
                    frame.layout@,
                    frame.startup,
                    frame.restored@,
                    trace.home,
                    trace.kinds,
                    trace.restores,
                    trace.avoid,
                )
                &&& after.tabs@ == trace.after_startup.tabs@.restrict(frame.layout@.to_set())
                &&& after.tabs.counter() == trace.after_startup.tabs.counter()
                &&& after.context == trace.after_startup.context
                &&& after.state == trace.after_startup.state
            },
        }
    }

    /// Does the work of one frame on the entries that were found in the
    /// mailbox. `layout` are the keys that the layout holds, in its order;
    /// `clicked` are the toolbar buttons that were clicked, in the order of
    /// the clicks; `make_texture` makes the placeholder texture of a new
    /// image.
    pub fn run_frame<F: Fn(&Url) -> TextureHandle>(
        &mut self,
        ctx: &Context,
        entries: Vec<Entry>,
        layout: &[TabKey],
        clicked: &[ToolbarButton],
        make_texture: &F,
    ) -> (outcome: Result<FrameOutcome, DispatchError>)
        requires
            forall|u: Url| call_requires(*make_texture, (&u,)),
        ensures
            exists|trace: FrameTrace|
                old(self).frame_to(
                    *final(self),
                    *ctx,
                    entries@,
                    layout@,
                    clicked@,
                    *make_texture,
                    outcome,
                    trace,
                ),
            outcome matches Ok(frame) ==> final(self).state.startup_done && final(self).tabs@.dom().subset_of(
                frame.layout@.to_set(),
            ),
    {
        let ghost taken = entries@;
        let processed = self.process_messages(ctx, entries, make_texture);
        let ghost run = choose|states: Seq<Self>|
            old(self).runs_to(*self, *ctx, taken, *make_texture, states, failure_of(processed));
        let ghost after_entries = *self;
        match processed {
            Ok(()) => {},
            Err(error) => {
                proof {
                    let trace = FrameTrace {
                        run,
                        after_entries,
                        clicks: Seq::empty(),
                        layouts: Seq::empty(),
                        after_clicks: after_entries,
                        clicked_layout: Seq::empty(),
                        home: after_entries,
                        avoid: Seq::empty(),
                        kinds: Seq::empty(),
                        restores: Seq::empty(),
                        after_startup: after_entries,
                    };
                    assert(old(self).frame_to(
                        *self,
                        *ctx,
                        taken,
                        layout@,
                        clicked@,
                        *make_texture,
                        Err::<FrameOutcome, DispatchError>(error),
                        trace,
                    ));
                }
                return Err(error);
            },
        }

        let mut live = copy_keys(layout);
        let actions = self.handle_clicks(clicked, &mut live);
        let ghost chain: (Seq<Self>, Seq<Seq<TabKey>>) = choose|clicks: Seq<Self>, layouts: Seq<Seq<TabKey>>|
            after_entries.all_clicks_to(*self, layout@, live@, clicked@, actions@, clicks, layouts);
        let ghost after_clicks = *self;
        let ghost clicked_layout = live@;

        let done = self.startup(ctx, &mut live);
        let ghost begun: (Self, Seq<KindChoice>, Seq<Self>, Seq<DocumentKey>) = choose|
            home: Self,
            kinds: Seq<KindChoice>,
            restores: Seq<Self>,
            avoid: Seq<DocumentKey>,
        |
            after_clicks.starts_to(
                *self,
                *ctx,
                clicked_layout,
                live@,
                done.0,
                done.1@,
                home,
                kinds,
                restores,
                avoid,
            );
        let ghost after_startup = *self;
        let ghost started_layout = live@;
        let ghost restored_keys = done.1@;
        let ghost asked = done.0;
        self.cleanup_tabs(live.as_slice());
        let (startup, restored) = done;
        let frame = FrameOutcome { actions, startup, restored, layout: live };
        proof {
            let trace = FrameTrace {
                run,
                after_entries,
                clicks: chain.0,
                layouts: chain.1,
                after_clicks,
                clicked_layout,
                home: begun.0,
                avoid: begun.3,
                kinds: begun.1,
                restores: begun.2,
                after_startup,
            };
            assert(frame.layout@ == started_layout);
            assert(frame.restored@ == restored_keys);
            assert(frame.startup == asked);
            assert(old(self).runs_to(after_entries, *ctx, taken, *make_texture, run, None));
            assert(after_entries.all_clicks_to(
                after_clicks,
                layout@,
                clicked_layout,
                clicked@,
                frame.actions@,
                chain.0,
                chain.1,
            ));
            assert(after_clicks.starts_to(
                after_startup,
                *ctx,
                clicked_layout,
                frame.layout@,
                frame.startup,
                frame.restored@,
                begun.0,
                begun.1,
                begun.2,
                begun.3,
            ));
            assert(old(self).frame_to(
                *self,
                *ctx,
                taken,
                layout@,
                clicked@,
                *make_texture,
                Ok::<FrameOutcome, DispatchError>(frame),
                trace,
            ));
        }
        Ok(frame)
    }

    /// Does the work of one frame, before the tabs are drawn: takes the
    /// entries that have arrived out of the mailbox and runs the frame on
    /// them.
    pub fn update<F: Fn(&Url) -> TextureHandle>(
        &mut self,
        ctx: &Context,
        layout: &[TabKey],
        clicked: &[ToolbarButton],
        make_texture: &F,
    ) -> (outcome: Result<FrameOutcome, DispatchError>)
        requires
            forall|u: Url| call_requires(*make_texture, (&u,)),
        ensures
            exists|entries: Seq<Entry>, trace: FrameTrace|
                old(self).frame_to(
                    *final(self),
                    *ctx,
                    entries,
                    layout@,
                    clicked@,
                    *make_texture,
                    outcome,
                    trace,
                ),
            outcome matches Ok(frame) ==> final(self).state.startup_done && final(self).tabs@.dom().subset_of(
                frame.layout@.to_set(),
            ),
    {
        let entries = drain(&self.state.receiver, ctx);
        self.run_frame(ctx, entries, layout, clicked, make_texture)
    }
}

/// A list with the keys of `layout`, in the same order.
fn copy_keys(layout: &[TabKey]) -> (keys: Vec<TabKey>)
    ensures
        keys@ == layout@,
{
    let mut keys: Vec<TabKey> = Vec::new();
    let mut i: usize = 0;
    while i < layout.len()
        invariant
            i <= layout.len(),
            keys@ == layout@.subrange(0, i as int),
        decreases layout.len() - i,
    {
        keys.push(layout[i]);
        i = i + 1;
    }
    assert(layout@.subrange(0, layout.len() as int) == layout@);
    keys
}

} // verus!
