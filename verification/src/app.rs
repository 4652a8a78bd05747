//! The application state and the messages that drive it.
use crate::app::app_tabs::home::HomeTab;
use crate::app::app_tabs::new::{KindChoice, NewTab};
use crate::app::app_tabs::TabKind;
use crate::app::layout::LayoutChange;
use crate::app::tabs::{first_free_after, TabKey, Tabs};
use crate::context::TabContext;
use crate::documents::{DocumentKey, DocumentKind, Documents};
use crate::mailbox::{channel, clone_sender, AppMessageReceiver, AppMessageSender};
use std::path::PathBuf;
use vstd::prelude::*;

pub mod app_tabs;
pub mod frame;
pub mod layout;
pub mod messages;
pub mod opening;
pub mod tabs;

verus! {

/// What a mailbox entry asks the application to do.
#[derive(Debug)]
pub enum AppMessage {
    /// Content became available: repaint.
    Refresh,
    /// Create a document and show it in place of the tab that asks.
    CreateDocument(DocumentArgs),
}

/// Who sent a mailbox entry.
#[derive(Clone, Copy, Debug, PartialEq, Eq, Structural)]
pub enum MessageSource {
    Document(DocumentKey),
    Tab(TabKey),
}

/// What is needed to create a document.
#[derive(Debug)]
pub struct DocumentArgs {
    /// The name of the document, without extension.
    pub name: String,
    /// The directory that the document goes to.
    pub directory: PathBuf,
    /// The kind of document.
    pub kind: KindChoice,
}

/// The preferences of the user.
#[derive(Clone, Copy, Debug, PartialEq, Eq, Structural)]
pub struct Config {
    pub show_home_tab_on_startup: bool,
}

impl Default for Config {
    fn default() -> (config: Self)
        ensures
            config.show_home_tab_on_startup,
    {
        Self { show_home_tab_on_startup: true }
    }
}

/// Whether `tabs` holds a home tab under `key`.
pub open spec fn shows_home(tabs: Map<TabKey, TabKind>, key: TabKey) -> bool {
    tabs.contains_key(key) && tabs[key] is Home
}

/// Whether `key` is the first key of `layout` under which `tabs` holds a home
/// tab.
pub open spec fn is_first_home(tabs: Map<TabKey, TabKind>, layout: Seq<TabKey>, key: TabKey) -> bool {
    exists|i: int|
        {
            &&& 0 <= i < layout.len()
            &&& #[trigger] layout[i] == key
            &&& shows_home(tabs, key)
            &&& forall|j: int| 0 <= j < i ==> !shows_home(tabs, #[trigger] layout[j])
        }
}

/// Whether a home tab is on screen.
pub open spec fn has_home(tabs: Map<TabKey, TabKind>, layout: Seq<TabKey>) -> bool {
    exists|i: int| 0 <= i < layout.len() && shows_home(tabs, #[trigger] layout[i])
}

/// Whether `key` is the key that a registry hands out when it goes from
/// `before` to `after` by adding a tab: the first free key after the counter,
/// at which the counter then stands.
pub open spec fn hands_out(
    before: Tabs<TabKind, TabContext>,
    after: Tabs<TabKind, TabContext>,
    key: TabKey,
) -> bool {
    first_free_after(before.counter(), before@.dom(), key) && after.counter() == key.0
}

/// Whether `tab` is a form for a new document in which nothing is entered.
pub open spec fn is_empty_form(tab: TabKind) -> bool {
    &&& tab matches TabKind::New(form)
    &&& form.fields.name@.len() == 0
    &&& form.fields.kind is None
    &&& form.fields.directory is None
}

/// Why a document could not be opened or created.
#[derive(Clone, Copy, Debug, PartialEq, Eq, Structural)]
pub enum DocumentError {
    /// The path does not end in a file name, so the tab would have no title.
    NoFileName,
    /// The extension of the file is none that the application can show.
    UnsupportedKind,
    /// The path is not absolute, so the image has no address.
    NoFileUrl,
    /// The document registry is full.
    RegistryFull,
}

/// Why a mailbox entry could not be carried out.
#[derive(Clone, Copy, Debug, PartialEq, Eq, Structural)]
pub enum DispatchError {
    /// The tab that sent the entry is not in the registry.
    UnknownTab,
    /// Only a tab can ask for a document to be created.
    UnexpectedSource,
    /// The document could not be created.
    Document(DocumentError),
}

/// The part of the application state that is made anew at every start.
pub struct AppState {
    /// Whether the start-up work has been done.
    pub startup_done: bool,
    /// The sending end of the mailbox.
    pub sender: AppMessageSender,
    /// The receiving end of the mailbox.
    pub receiver: AppMessageReceiver,
}

impl AppState {
    /// The state at the start: a new mailbox, and the start-up work still to
    /// do.
    pub fn init() -> (state: Self)
        ensures
            !state.startup_done,
    {
        let (sender, receiver) = channel();
        Self { startup_done: false, sender, receiver }
    }
}

/// The application: the tab registry, what the tabs work on, and the state
/// of the running program.
pub struct TemplateApp {
    pub tabs: Tabs<TabKind, TabContext>,
    pub context: TabContext,
    pub state: AppState,
}

impl Default for TemplateApp {
    /// The application as it is when nothing was saved: one home tab, the
    /// default preferences, no documents.
    fn default() -> (app: Self)
        ensures
            app.tabs@ == Map::<TabKey, TabKind>::empty().insert(
                TabKey(1),
                TabKind::Home(HomeTab { show_on_startup: false }),
            ),
            app.context.config.show_home_tab_on_startup,
            app.context.documents@ == Map::<DocumentKey, DocumentKind>::empty(),
            app.context.documents.count() == 0,
            app.context.sender == app.state.sender,
            !app.state.startup_done,
    {
        let mut tabs = Tabs::new();
        let key = tabs.add(TabKind::Home(HomeTab::default()));
        proof {
            crate::app::tabs::lemma_next_key_when_free(0, Map::<TabKey, TabKind>::empty().dom(), key);
        }
        Self::with_saved(tabs, Config::default())
    }
}

impl TemplateApp {
    /// The application at the start of the program: with the tabs and the
    /// preferences that were saved, if any were, and else as `default` makes
    /// it. There are no documents yet, and the start-up work is still to do.
    pub fn new(saved: Option<(Tabs<TabKind, TabContext>, Config)>) -> (app: Self)
        ensures
            saved matches Some(parts) ==> app.tabs == parts.0 && app.context.config == parts.1,
            saved is None ==> app.tabs@ == Map::<TabKey, TabKind>::empty().insert(
                TabKey(1),
                TabKind::Home(HomeTab { show_on_startup: false }),
            ) && app.context.config.show_home_tab_on_startup,
            app.context.documents@ == Map::<DocumentKey, DocumentKind>::empty(),
            app.context.documents.count() == 0,
            app.context.sender == app.state.sender,
            !app.state.startup_done,
    {
        match saved {
            Some((tabs, config)) => Self::with_saved(tabs, config),
            None => Self::default(),
        }
    }

    /// The application at the start of the program with the given tabs and
    /// preferences.
    fn with_saved(tabs: Tabs<TabKind, TabContext>, config: Config) -> (app: Self)
        ensures
            app.tabs == tabs,
            app.context.config == config,
            app.context.documents@ == Map::<DocumentKey, DocumentKind>::empty(),
            app.context.documents.count() == 0,
            app.context.sender == app.state.sender,
            !app.state.startup_done,
    {
        let state = AppState::init();
        let context = TabContext {
            config,
            sender: clone_sender(&state.sender),
            documents: Documents::new(),
        };
        Self { tabs, context, state }
    }

    /// The key of the home tab that is on screen, if there is one: the first
    /// key of `layout` that belongs to a home tab.
    pub fn find_home_tab(&self, layout: &[TabKey]) -> (home: Option<TabKey>)
        ensures
            match home {
                Some(key) => is_first_home(self.tabs@, layout@, key),
                None => !has_home(self.tabs@, layout@),
            },
    {
        let mut i: usize = 0;
        while i < layout.len()
            invariant
                i <= layout.len(),
                forall|j: int| 0 <= j < i ==> !shows_home(self.tabs@, #[trigger] layout@[j]),
            decreases layout.len() - i,
        {
            let key = layout[i];
            match self.tabs.get(&key) {
                Some(TabKind::Home(_)) => {
                    return Some(key);
                },
                _ => {},
            }
            i = i + 1;
        }
        None
    }

    /// Adds `tab_kind` to the registry and asks the layout to show it.
    pub fn add_tab(&mut self, tab_kind: TabKind) -> (change: LayoutChange)
        ensures
            change matches LayoutChange::Push(key) && !old(self).tabs@.contains_key(key)
                && final(self).tabs@ == old(self).tabs@.insert(key, tab_kind) && hands_out(
                old(self).tabs,
                final(self).tabs,
                key,
            ),
            final(self).context == old(self).context,
            final(self).state == old(self).state,
    {
        let tab_id = self.tabs.add(tab_kind);
        LayoutChange::Push(tab_id)
    }

    /// Adds a tab with an empty form for a new document.
    pub fn add_new_tab(&mut self) -> (change: LayoutChange)
        ensures
            change matches LayoutChange::Push(key) && !old(self).tabs@.contains_key(key)
                && hands_out(old(self).tabs, final(self).tabs, key)
                && final(self).tabs@.dom() == old(self).tabs@.dom().insert(key)
                && is_empty_form(final(self).tabs@[key])
                && forall|k: TabKey| old(self).tabs@.contains_key(k) ==> final(self).tabs@[k] == old(self).tabs@[k],
            final(self).context == old(self).context,
            final(self).state == old(self).state,
    {
        self.add_tab(TabKind::New(NewTab::default()))
    }

    /// Brings the home tab to the front. If no home tab is on screen, a new
    /// one is added; a second one never is.
    pub fn show_home_tab(&mut self, layout: &[TabKey]) -> (change: LayoutChange)
        ensures
            match change {
                LayoutChange::Activate(key) => is_first_home(old(self).tabs@, layout@, key) && final(self).tabs == old(self).tabs,
                LayoutChange::Push(key) => !has_home(old(self).tabs@, layout@) && !old(self).tabs@.contains_key(key)
                    && hands_out(old(self).tabs, final(self).tabs, key) && final(self).tabs@ == old(self).tabs@.insert(
                    key,
                    TabKind::Home(HomeTab { show_on_startup: false }),
                ),
                _ => false,
            },
            final(self).context == old(self).context,
            final(self).state == old(self).state,
    {
        match self.find_home_tab(layout) {
            Some(home_tab_key) => LayoutChange::Activate(home_tab_key),
            None => self.add_tab(TabKind::Home(HomeTab::default())),
        }
    }

    /// Whether seeing to the home tab at the start of the program, while the
    /// layout holds `layout`, may take the application from `self` to
    /// `after` and ask the layout for `change`. If the preferences ask for
    /// the home tab, it is brought to the front, or added if none is on
    /// screen; if they do not, the home tab on screen is taken off.
    #[verifier::opaque]
    pub open spec fn sees_to_home(self, after: Self, layout: Seq<TabKey>, change: Option<LayoutChange>) -> bool {
        &&& after.context == self.context
        &&& after.state == self.state
        &&& match change {
            Some(LayoutChange::Activate(key)) => self.context.config.show_home_tab_on_startup
                && is_first_home(self.tabs@, layout, key) && after.tabs == self.tabs,
            Some(LayoutChange::Push(key)) => self.context.config.show_home_tab_on_startup
                && !has_home(self.tabs@, layout) && !self.tabs@.contains_key(key) && hands_out(
                self.tabs,
                after.tabs,
                key,
            ) && after.tabs@
                == self.tabs@.insert(key, TabKind::Home(HomeTab { show_on_startup: false })),
            Some(LayoutChange::Remove(key)) => !self.context.config.show_home_tab_on_startup
                && is_first_home(self.tabs@, layout, key) && after.tabs == self.tabs,
            Some(LayoutChange::Clear) => false,
            None => !self.context.config.show_home_tab_on_startup && !has_home(self.tabs@, layout)
                && after.tabs == self.tabs,
        }
    }

    /// Sees to the home tab at the start of the program, as the preferences
    /// say: brings it on screen, or takes it off.
    pub fn show_home_tab_on_startup(&mut self, layout: &[TabKey]) -> (change: Option<LayoutChange>)
        ensures
            old(self).sees_to_home(*final(self), layout@, change),
    {
        proof {
            reveal(TemplateApp::sees_to_home);
        }
        if self.context.config.show_home_tab_on_startup {
            Some(self.show_home_tab(layout))
        } else {
            match self.find_home_tab(layout) {
                Some(home_tab_key) => Some(LayoutChange::Remove(home_tab_key)),
                None => None,
            }
        }
    }

    /// Reconciles the registry with the layout: removes every tab whose key
    /// the layout does not hold. The layout can drop a tab without saying
    /// so; this is how the registry learns of it. The documents of such tabs
    /// stay in the document registry.
    pub fn cleanup_tabs(&mut self, layout: &[TabKey])
        ensures
            final(self).tabs@ == old(self).tabs@.restrict(layout@.to_set()),
            final(self).tabs.counter() == old(self).tabs.counter(),
            final(self).context == old(self).context,
            final(self).state == old(self).state,
    {
        self.tabs.retain_all(layout);
    }
}

} // verus!
