//! Opening, creating and restoring documents.
use crate::app::app_tabs::document::DocumentTab;
use crate::app::app_tabs::new::KindChoice;
use crate::app::app_tabs::TabKind;
use crate::app::layout::LayoutChange;
use crate::app::tabs::TabKey;
use crate::app::{
    hands_out, AppMessage, DocumentArgs, DocumentError, MessageSource, TemplateApp,
};
use crate::documents::image::{file_url, file_url_of, ImageDocument};
use crate::documents::loader::LoaderState;
use crate::documents::text::TextDocument;
use crate::documents::{DocumentKey, DocumentKind, MAX_DOCUMENTS};
use crate::mailbox::{clone_sender, AppMessageSender};
use crate::paths::{
    extension_of_path, file_name_of, path_clone, path_extension, path_file_name, path_push, pushed,
};
use egui::{Context, TextureHandle};
use std::path::PathBuf;
use url::Url;
use vstd::prelude::*;
use vstd::string::StringExecFns;

verus! {

/// The kind of document that a file with the given extension holds, if the
/// application can show it. Extensions are compared letter by letter.
pub open spec fn kind_of_extension(extension: Seq<char>) -> Option<KindChoice> {
    if extension == "txt"@ {
        Some(KindChoice::Text)
    } else if extension == "bmp"@ || extension == "png"@ || extension == "jpeg"@ || extension
        == "jpg"@ {
        Some(KindChoice::Image)
    } else {
        None
    }
}

/// The kind of document that a file with the given extension holds, if the
/// application can show it.
pub fn document_kind_for(extension: &str) -> (kind: Option<KindChoice>)
    ensures
        kind == kind_of_extension(extension@),
{
    let extension = extension.to_owned();
    if extension == "txt".to_owned() {
        Some(KindChoice::Text)
    } else if extension == "bmp".to_owned() || extension == "png".to_owned() || extension
        == "jpeg".to_owned() || extension == "jpg".to_owned() {
        Some(KindChoice::Image)
    } else {
        None
    }
}

/// The extension that the file of a new document of the given kind gets.
pub open spec fn extension_of(kind: KindChoice) -> Seq<char> {
    match kind {
        KindChoice::Text => ".txt"@,
        KindChoice::Image => ".bmp"@,
    }
}

/// The name of the file of a new document: the name of the document with the
/// extension of its kind.
pub fn file_name_for(name: String, kind: KindChoice) -> (file_name: String)
    ensures
        file_name@ == name@ + extension_of(kind),
{
    let mut file_name = name;
    match kind {
        KindChoice::Text => file_name.append(".txt"),
        KindChoice::Image => file_name.append(".bmp"),
    }
    file_name
}

/// The kind of document that the file at `path` holds, as its extension
/// says, if the application can show it.
pub open spec fn kind_of_path(path: PathBuf) -> Option<KindChoice> {
    match extension_of_path(path) {
        Some(extension) => kind_of_extension(extension),
        None => None,
    }
}

/// The file of the new document that `args` describe: in their directory,
/// named after the document and its kind.
pub open spec fn new_document_path(args: DocumentArgs) -> PathBuf {
    pushed(args.directory, args.name@ + extension_of(args.kind))
}

/// The address that a new document of `kind` at `path` needs: the file
/// address of the path for an image, none for a text.
pub open spec fn new_document_url(kind: KindChoice, path: PathBuf) -> Option<Url> {
    match kind {
        KindChoice::Text => None,
        KindChoice::Image => file_url_of(path),
    }
}

/// Whether `document` is a new document of the given kind for the file at
/// `path`: one that holds its placeholder content and waits for nothing. The
/// placeholder of an image is a texture that `make_texture` made for `url`,
/// the address of the image.
pub open spec fn is_new_document<F: Fn(&Url) -> TextureHandle>(
    document: DocumentKind,
    kind: KindChoice,
    path: PathBuf,
    ctx: Context,
    url: Option<Url>,
    make_texture: F,
) -> bool {
    match (kind, document) {
        (KindChoice::Text, DocumentKind::TextDocument(text)) => {
            &&& text.path == path
            &&& text.loader@ matches LoaderState::Loaded(content)
            &&& content@ == "example content"@
        },
        (KindChoice::Image, DocumentKind::ImageDocument(image)) => {
            &&& image.path == path
            &&& image.context == ctx
            &&& image.loader@ matches LoaderState::Loaded(content)
            &&& url == Some(content.0)
            &&& call_ensures(make_texture, (&content.0,), content.1)
        },
        _ => false,
    }
}

/// Whether `document` is of the given kind, belongs to the file at `path`,
/// and waits for its content to be loaded by a worker that works with `ctx`
/// and announces the end of its work through `sender`, by a refresh entry
/// that names `key` as its source.
pub open spec fn is_loading_document(
    document: DocumentKind,
    kind: KindChoice,
    path: PathBuf,
    ctx: Context,
    sender: AppMessageSender,
    key: DocumentKey,
) -> bool {
    match (kind, document) {
        (KindChoice::Text, DocumentKind::TextDocument(text)) => {
            &&& text.path == path
            &&& text.loader@ matches LoaderState::Loading(Some(request))
            &&& request.path == path
            &&& request.ctx == ctx
            &&& request.sender == sender
            &&& request.on_loaded_message == (MessageSource::Document(key), AppMessage::Refresh)
        },
        (KindChoice::Image, DocumentKind::ImageDocument(image)) => {
            &&& image.path == path
            &&& image.context == ctx
            &&& image.loader@ matches LoaderState::Loading(Some(request))
            &&& request.path == path
            &&& request.ctx == ctx
            &&& request.sender == sender
            &&& request.on_loaded_message == (MessageSource::Document(key), AppMessage::Refresh)
        },
        _ => false,
    }
}

/// The document keys of the document tabs of `tabs` whose tab keys lie below
/// `bound`, in ascending order of the tab keys.
pub open spec fn saved_keys_below(tabs: Map<TabKey, TabKind>, bound: int) -> Seq<DocumentKey>
    decreases bound,
{
    if bound <= 0 {
        Seq::empty()
    } else {
        let rest = saved_keys_below(tabs, bound - 1);
        let key = TabKey((bound - 1) as usize);
        if tabs.contains_key(key) && tabs[key] is Document {
            rest.push(tabs[key]->Document_0.document_key)
        } else {
            rest
        }
    }
}

/// The document keys that are saved with `tabs`: one for every document
/// tab, in ascending order of the tab keys.
pub open spec fn saved_keys(tabs: Map<TabKey, TabKind>) -> Seq<DocumentKey> {
    saved_keys_below(tabs, usize::MAX + 1)
}

/// The document tabs of `tabs` whose tab keys lie below `bound`.
pub open spec fn document_tabs_below(tabs: Map<TabKey, TabKind>, bound: int) -> Set<TabKey> {
    Set::new(|k: TabKey| k.0 < bound && tabs.contains_key(k) && tabs[k] is Document)
}

/// Where no document tab lies between two bounds, the saved keys below the
/// one are those below the other.
proof fn lemma_no_saved_keys_between(tabs: Map<TabKey, TabKind>, low: int, high: int)
    requires
        0 <= low <= high <= usize::MAX + 1,
        forall|k: TabKey| low <= k.0 < high ==> !(tabs.contains_key(k) && tabs[k] is Document),
    ensures
        saved_keys_below(tabs, high) == saved_keys_below(tabs, low),
    decreases high - low,
{
    if low < high {
        lemma_no_saved_keys_between(tabs, low, high - 1);
        let key = TabKey((high - 1) as usize);
        assert(!(tabs.contains_key(key) && tabs[key] is Document));
    }
}

/// The saved keys hold the document key of every document tab, and nothing
/// else; there are as many as there are document tabs.
pub proof fn lemma_saved_keys_are_the_saved(tabs: Map<TabKey, TabKind>, bound: int)
    requires
        0 <= bound <= usize::MAX + 1,
    ensures
        forall|k: TabKey|
            k.0 < bound && #[trigger] tabs.contains_key(k) && tabs[k] is Document ==> saved_keys_below(
                tabs,
                bound,
            ).contains(tabs[k]->Document_0.document_key),
        forall|j: int|
            0 <= j < saved_keys_below(tabs, bound).len() ==> is_saved_key(
                tabs,
                #[trigger] saved_keys_below(tabs, bound)[j],
            ),
        document_tabs_below(tabs, bound).finite(),
        saved_keys_below(tabs, bound).len() == document_tabs_below(tabs, bound).len(),
    decreases bound,
{
    if bound <= 0 {
        assert(document_tabs_below(tabs, bound) =~= Set::empty());
    } else {
        lemma_saved_keys_are_the_saved(tabs, bound - 1);
        let rest = saved_keys_below(tabs, bound - 1);
        let now = saved_keys_below(tabs, bound);
        let key = TabKey((bound - 1) as usize);
        if tabs.contains_key(key) && tabs[key] is Document {
            assert(now == rest.push(tabs[key]->Document_0.document_key));
            assert(document_tabs_below(tabs, bound) =~= document_tabs_below(tabs, bound - 1).insert(key));
            assert forall|k: TabKey|
                k.0 < bound && #[trigger] tabs.contains_key(k) && tabs[k] is Document implies now.contains(
                    tabs[k]->Document_0.document_key,
                ) by {
                if k == key {
                    assert(now[now.len() - 1] == tabs[k]->Document_0.document_key);
                } else {
                    assert(k.0 < bound - 1);
                    let wanted = tabs[k]->Document_0.document_key;
                    let j = choose|j: int| 0 <= j < rest.len() && rest[j] == wanted;
                    assert(now[j] == wanted);
                }
            }
            assert forall|j: int| 0 <= j < now.len() implies is_saved_key(tabs, #[trigger] now[j]) by {
                if j < rest.len() {
                    assert(now[j] == rest[j]);
                } else {
                    assert(tabs.contains_key(key) && tabs[key] is Document && tabs[key]->Document_0.document_key
                        == now[j]);
                }
            }
        } else {
            assert(now == rest);
            assert(document_tabs_below(tabs, bound) =~= document_tabs_below(tabs, bound - 1));
            assert forall|k: TabKey|
                k.0 < bound && #[trigger] tabs.contains_key(k) && tabs[k] is Document implies now.contains(
                    tabs[k]->Document_0.document_key,
                ) by {
                assert(k != key);
                assert(k.0 < bound - 1);
            }
        }
    }
}

/// Different document tabs are no more than there are saved keys.
proof fn lemma_restored_are_saved(tabs: Map<TabKey, TabKind>, restored: Seq<TabKey>)
    requires
        forall|i: int, j: int| 0 <= i < j < restored.len() ==> restored[i].0 < restored[j].0,
        forall|i: int| 0 <= i < restored.len() ==> restorable(tabs, #[trigger] restored[i]),
    ensures
        restored.len() <= saved_keys(tabs).len(),
{
    let all = document_tabs_below(tabs, usize::MAX + 1);
    lemma_saved_keys_are_the_saved(tabs, usize::MAX + 1);
    assert(restored.no_duplicates());
    restored.unique_seq_to_set();
    assert(restored.to_set().subset_of(all)) by {
        assert forall|k: TabKey| restored.to_set().contains(k) implies all.contains(k) by {
            let i = choose|i: int| 0 <= i < restored.len() && restored[i] == k;
            assert(restorable(tabs, restored[i]));
        }
    }
    vstd::set_lib::lemma_len_subset(restored.to_set(), all);
}

/// Whether `key` is the document key of a document tab of `tabs`.
pub open spec fn is_saved_key(tabs: Map<TabKey, TabKind>, key: DocumentKey) -> bool {
    exists|k: TabKey|
        #[trigger] tabs.contains_key(k) && tabs[k] is Document && tabs[k]->Document_0.document_key == key
}

/// Whether `tabs` holds under `key` a document tab whose file is of `kind`.
pub open spec fn restorable_as(tabs: Map<TabKey, TabKind>, key: TabKey, kind: KindChoice) -> bool {
    &&& tabs.contains_key(key)
    &&& tabs[key] matches TabKind::Document(tab)
    &&& kind_of_path(tab.path) == Some(kind)
}

/// Whether `tabs` holds under `key` a document tab whose file is of a kind
/// that the application can show.
pub open spec fn restorable(tabs: Map<TabKey, TabKind>, key: TabKey) -> bool {
    &&& tabs.contains_key(key)
    &&& tabs[key] matches TabKind::Document(tab)
    &&& kind_of_path(tab.path) is Some
}

/// Whether `after` holds the tabs of `before` with the same titles and files,
/// whatever documents they refer to.
pub open spec fn same_files(before: Map<TabKey, TabKind>, after: Map<TabKey, TabKind>) -> bool {
    &&& after.dom() == before.dom()
    &&& forall|k: TabKey| #[trigger]
        before.contains_key(k) ==> match (before[k], after[k]) {
            (TabKind::Document(b), TabKind::Document(a)) => a.title == b.title && a.path == b.path,
            (b, a) => a == b,
        }
}

/// Whether `key` occurs in `keys`.
fn document_key_is_among(keys: &[DocumentKey], key: DocumentKey) -> (found: bool)
    ensures
        found == keys@.contains(key),
{
    let mut i: usize = 0;
    while i < keys.len()
        invariant
            i <= keys.len(),
            forall|j: int| 0 <= j < i ==> keys@[j] != key,
        decreases keys.len() - i,
    {
        if keys[i] == key {
            return true;
        }
        i = i + 1;
    }
    false
}

/// Different keys that all occur in `avoid` are no more than `avoid` has.
proof fn lemma_distinct_within(held: Seq<DocumentKey>, avoid: Seq<DocumentKey>)
    requires
        held.no_duplicates(),
        forall|j: int| 0 <= j < held.len() ==> avoid.contains(#[trigger] held[j]),
    ensures
        held.len() <= avoid.len(),
{
    held.unique_seq_to_set();
    avoid.lemma_cardinality_of_set();
    vstd::seq_lib::seq_to_set_is_finite(avoid);
    assert(held.to_set().subset_of(avoid.to_set())) by {
        assert forall|k: DocumentKey| held.to_set().contains(k) implies avoid.to_set().contains(k) by {
            let j = choose|j: int| 0 <= j < held.len() && held[j] == k;
            assert(avoid.contains(held[j]));
        }
    }
    vstd::set_lib::lemma_len_subset(held.to_set(), avoid.to_set());
}

impl TemplateApp {
    /// The document of the given kind for the file at `path`, to be stored
    /// under `new_key`. Its content is yet to be loaded.
    pub fn document_from_path(
        path: PathBuf,
        ctx: &Context,
        sender: AppMessageSender,
        new_key: DocumentKey,
        kind: KindChoice,
    ) -> (document: DocumentKind)
        ensures
            is_loading_document(document, kind, path, *ctx, sender, new_key),
    {
        match kind {
            KindChoice::Text => DocumentKind::TextDocument(
                TextDocument::from_path(path, ctx, new_key, sender),
            ),
            KindChoice::Image => DocumentKind::ImageDocument(
                ImageDocument::from_path(path, ctx, new_key, sender),
            ),
        }
    }

    /// Whether `after` is `self` with one more document and one more tab:
    /// the document of `kind` for the file at `path`, waiting to be loaded,
    /// and under `tab_key` the tab that shows it with `title`.
    pub open spec fn opens_to(
        self,
        after: Self,
        ctx: Context,
        path: PathBuf,
        title: Seq<char>,
        kind: KindChoice,
        tab_key: TabKey,
    ) -> bool {
        &&& after.context.config == self.context.config
        &&& after.context.sender == self.context.sender
        &&& after.state == self.state
        &&& !self.tabs@.contains_key(tab_key)
        &&& hands_out(self.tabs, after.tabs, tab_key)
        &&& after.tabs@.contains_key(tab_key)
        &&& after.tabs@[tab_key] matches TabKind::Document(tab)
        &&& after.tabs@ == self.tabs@.insert(tab_key, TabKind::Document(tab))
        &&& tab.title@ == title
        &&& tab.path == path
        &&& !self.context.documents@.contains_key(tab.document_key)
        &&& after.context.documents@.contains_key(tab.document_key)
        &&& after.context.documents@ == self.context.documents@.insert(
            tab.document_key,
            after.context.documents@[tab.document_key],
        )
        &&& after.context.documents.count() == self.context.documents.count() + 1
        &&& is_loading_document(
            after.context.documents@[tab.document_key],
            kind,
            path,
            ctx,
            self.state.sender,
            tab.document_key,
        )
    }

    /// Opens the file at `path`, which holds a document of `kind`, in a new
    /// tab with the given title. The content is yet to be loaded.
    pub fn open_document(&mut self, ctx: &Context, path: PathBuf, title: String, kind: KindChoice) -> (change:
        LayoutChange)
        requires
            old(self).context.documents.count() <= MAX_DOCUMENTS,
        ensures
            change matches LayoutChange::Push(tab_key) && old(self).opens_to(
                *final(self),
                *ctx,
                path,
                title@,
                kind,
                tab_key,
            ),
    {
        let sender = clone_sender(&self.state.sender);
        let document_path = path_clone(&path);
        let make = |new_key: DocumentKey| -> (document: DocumentKind)
            ensures
                is_loading_document(document, kind, path, *ctx, sender, new_key),
            { Self::document_from_path(document_path, ctx, sender, new_key, kind) };
        let document_key = self.context.documents.insert_with_key(make);
        let tab_kind = TabKind::Document(DocumentTab::new(title, path, document_key));
        self.add_tab(tab_kind)
    }

    /// Why the file at `path` cannot be opened, if it cannot: the registry
    /// is full, or else the path has no file name, or else its extension is
    /// none that the application can show.
    pub open spec fn opening_failure(self, path: PathBuf) -> Option<DocumentError> {
        if self.context.documents.count() > MAX_DOCUMENTS {
            Some(DocumentError::RegistryFull)
        } else if file_name_of(path) is None {
            Some(DocumentError::NoFileName)
        } else if kind_of_path(path) is None {
            Some(DocumentError::UnsupportedKind)
        } else {
            None
        }
    }

    /// Opens the file at `path` in a new tab, titled with the file name. The
    /// extension of the file says what kind of document it holds.
    pub fn open_file(&mut self, ctx: &Context, path: PathBuf) -> (opened: Result<LayoutChange, DocumentError>)
        ensures
            match opened {
                Ok(change) => {
                    &&& old(self).opening_failure(path) is None
                    &&& change matches LayoutChange::Push(tab_key)
                    &&& old(self).opens_to(
                        *final(self),
                        *ctx,
                        path,
                        file_name_of(path).unwrap(),
                        kind_of_path(path).unwrap(),
                        tab_key,
                    )
                },
                Err(error) => old(self).opening_failure(path) == Some(error) && *final(self) == *old(
                    self,
                ),
            },
    {
        if self.context.documents.is_full() {
            return Err(DocumentError::RegistryFull);
        }
        let title = match path_file_name(&path) {
            Some(title) => title,
            None => {
                return Err(DocumentError::NoFileName);
            },
        };
        let kind = match path_extension(&path) {
            Some(extension) => document_kind_for(extension.as_str()),
            None => None,
        };
        match kind {
            Some(kind) => Ok(self.open_document(ctx, path, title, kind)),
            None => Err(DocumentError::UnsupportedKind),
        }
    }

    /// Whether `after` is `self` with one more document: a new document of
    /// `kind` for the file at `path`, which `tab` shows with `title`. The
    /// tab is not in the registry yet.
    pub open spec fn creates_to<F: Fn(&Url) -> TextureHandle>(
        self,
        after: Self,
        ctx: Context,
        kind: KindChoice,
        path: PathBuf,
        title: Seq<char>,
        url: Option<Url>,
        make_texture: F,
        tab: TabKind,
    ) -> bool {
        &&& after.tabs == self.tabs
        &&& after.context.config == self.context.config
        &&& after.context.sender == self.context.sender
        &&& after.state == self.state
        &&& tab matches TabKind::Document(document_tab)
        &&& document_tab.title@ == title
        &&& document_tab.path == path
        &&& !self.context.documents@.contains_key(document_tab.document_key)
        &&& after.context.documents@.contains_key(document_tab.document_key)
        &&& after.context.documents@ == self.context.documents@.insert(
            document_tab.document_key,
            after.context.documents@[document_tab.document_key],
        )
        &&& after.context.documents.count() == self.context.documents.count() + 1
        &&& is_new_document(
            after.context.documents@[document_tab.document_key],
            kind,
            path,
            ctx,
            url,
            make_texture,
        )
    }

    /// Creates a new document of `kind` for the file at `path` and the tab
    /// that shows it with `title`. An image needs its address `url`, for
    /// which `make_texture` makes the placeholder texture.
    pub fn new_document_tab<F: Fn(&Url) -> TextureHandle>(
        &mut self,
        ctx: &Context,
        kind: KindChoice,
        path: PathBuf,
        title: String,
        url: Option<Url>,
        make_texture: &F,
    ) -> (created: Result<TabKind, DocumentError>)
        requires
            forall|u: Url| call_requires(*make_texture, (&u,)),
        ensures
            match created {
                Ok(tab) => old(self).context.documents.count() <= MAX_DOCUMENTS && !(kind
                    == KindChoice::Image && url is None) && old(self).creates_to(
                    *final(self),
                    *ctx,
                    kind,
                    path,
                    title@,
                    (if kind == KindChoice::Image {
                        url
                    } else {
                        None
                    }),
                    *make_texture,
                    tab,
                ),
                Err(error) => *final(self) == *old(self) && error == (if old(
                    self,
                ).context.documents.count() > MAX_DOCUMENTS {
                    DocumentError::RegistryFull
                } else {
                    DocumentError::NoFileUrl
                }) && (error == DocumentError::NoFileUrl ==> kind == KindChoice::Image && url is None),
            },
    {
        if self.context.documents.is_full() {
            return Err(DocumentError::RegistryFull);
        }
        let document_kind = match kind {
            KindChoice::Text => DocumentKind::TextDocument(TextDocument::create_new(path_clone(&path))),
            KindChoice::Image => {
                match url {
                    Some(url) => {
                        let texture = make_texture(&url);
                        DocumentKind::ImageDocument(
                            ImageDocument::create_new(path_clone(&path), ctx, (url, texture)),
                        )
                    },
                    None => {
                        return Err(DocumentError::NoFileUrl);
                    },
                }
            },
        };
        let document_key = self.context.documents.insert(document_kind);
        Ok(TabKind::Document(DocumentTab::new(title, path, document_key)))
    }

    /// Why the document that `args` describe cannot be created, if it
    /// cannot: the registry is full, or else the path of its file has no
    /// file name, or else it is an image and its path has no file address.
    pub open spec fn creation_failure(self, args: DocumentArgs) -> Option<DocumentError> {
        let path = new_document_path(args);
        if self.context.documents.count() > MAX_DOCUMENTS {
            Some(DocumentError::RegistryFull)
        } else if file_name_of(path) is None {
            Some(DocumentError::NoFileName)
        } else if args.kind == KindChoice::Image && file_url_of(path) is None {
            Some(DocumentError::NoFileUrl)
        } else {
            None
        }
    }

    /// Whether `after` is `self` with the new document that `args` describe,
    /// which `tab` shows: the document is for the file of `args`, and the
    /// title of the tab is the name of that file.
    pub open spec fn creates_from<F: Fn(&Url) -> TextureHandle>(
        self,
        after: Self,
        ctx: Context,
        args: DocumentArgs,
        make_texture: F,
        tab: TabKind,
    ) -> bool {
        self.creates_to(
            after,
            ctx,
            args.kind,
            new_document_path(args),
            file_name_of(new_document_path(args)).unwrap(),
            new_document_url(args.kind, new_document_path(args)),
            make_texture,
            tab,
        )
    }

    /// Creates the document that `args` describe, in the directory and under
    /// the name that they give, and the tab that shows it. The tab is not
    /// added to the registry.
    pub fn create_document_tab_inner<F: Fn(&Url) -> TextureHandle>(
        &mut self,
        ctx: &Context,
        args: DocumentArgs,
        make_texture: &F,
    ) -> (created: Result<TabKind, DocumentError>)
        requires
            forall|u: Url| call_requires(*make_texture, (&u,)),
        ensures
            match created {
                Ok(tab) => old(self).creation_failure(args) is None && old(self).creates_from(
                    *final(self),
                    *ctx,
                    args,
                    *make_texture,
                    tab,
                ),
                Err(error) => old(self).creation_failure(args) == Some(error) && *final(self) == *old(
                    self,
                ),
            },
    {
        if self.context.documents.is_full() {
            return Err(DocumentError::RegistryFull);
        }
        let DocumentArgs { name, directory, kind } = args;
        let name = file_name_for(name, kind);
        let mut path = directory;
        path_push(&mut path, name.as_str());
        let title = match path_file_name(&path) {
            Some(title) => title,
            None => {
                return Err(DocumentError::NoFileName);
            },
        };
        let url = match kind {
            KindChoice::Text => None,
            KindChoice::Image => file_url(&path),
        };
        self.new_document_tab(ctx, kind, path, title, url, make_texture)
    }

    /// Creates the document that `args` describe and shows it in a new tab.
    pub fn create_document_tab<F: Fn(&Url) -> TextureHandle>(
        &mut self,
        ctx: &Context,
        args: DocumentArgs,
        make_texture: &F,
    ) -> (created: Result<LayoutChange, DocumentError>)
        requires
            forall|u: Url| call_requires(*make_texture, (&u,)),
        ensures
            match created {
                Ok(change) => {
                    &&& old(self).creation_failure(args) is None
                    &&& change matches LayoutChange::Push(tab_key)
                    &&& exists|tab: TabKind, middle: Self|
                        {
                            &&& old(self).creates_from(middle, *ctx, args, *make_texture, tab)
                            &&& !middle.tabs@.contains_key(tab_key)
                            &&& hands_out(middle.tabs, final(self).tabs, tab_key)
                            &&& final(self).tabs@ == middle.tabs@.insert(tab_key, tab)
                            &&& final(self).context == middle.context
                            &&& final(self).state == middle.state
                        }
                },
                Err(error) => old(self).creation_failure(args) == Some(error) && *final(self) == *old(
                    self,
                ),
            },
    {
        match self.create_document_tab_inner(ctx, args, make_texture) {
            Ok(tab_kind) => {
                let ghost middle = *self;
                let change = self.add_tab(tab_kind);
                assert(old(self).creates_from(middle, *ctx, args, *make_texture, tab_kind));
                Ok(change)
            },
            Err(error) => Err(error),
        }
    }

    /// Stores a document of `kind` for the file at `path`, waiting to be
    /// loaded, under a key that the registry did not hold and that is none
    /// of `avoid`. The registry may hand out a key of `avoid`; the document
    /// under it is held back until a key comes that is none of them, and is
    /// taken out again then.
    pub fn load_document(&mut self, ctx: &Context, path: &PathBuf, kind: KindChoice, avoid: &[DocumentKey]) -> (key:
        DocumentKey)
        requires
            old(self).context.documents.count() + avoid@.len() <= MAX_DOCUMENTS,
        ensures
            final(self).tabs == old(self).tabs,
            final(self).state == old(self).state,
            final(self).context.config == old(self).context.config,
            final(self).context.sender == old(self).context.sender,
            !avoid@.contains(key),
            !old(self).context.documents@.contains_key(key),
            final(self).context.documents@.contains_key(key),
            final(self).context.documents@ == old(self).context.documents@.insert(
                key,
                final(self).context.documents@[key],
            ),
            final(self).context.documents.count() == old(self).context.documents.count() + 1,
            is_loading_document(
                final(self).context.documents@[key],
                kind,
                *path,
                *ctx,
                old(self).state.sender,
                key,
            ),
    {
        let ghost before = self.context.documents@;
        let ghost start = self.context.documents.count();
        let mut held: Vec<DocumentKey> = Vec::new();
        let mut found: Option<DocumentKey> = None;
        while found.is_none()
            invariant
                self.tabs == old(self).tabs,
                self.state == old(self).state,
                self.context.config == old(self).context.config,
                self.context.sender == old(self).context.sender,
                before == old(self).context.documents@,
                start == old(self).context.documents.count(),
                start + avoid@.len() <= MAX_DOCUMENTS,
                held@.no_duplicates(),
                forall|j: int|
                    0 <= j < held@.len() ==> avoid@.contains(#[trigger] held@[j]) && !before.contains_key(
                        held@[j],
                    ),
                forall|k: DocumentKey|
                    self.context.documents@.contains_key(k) <==> before.contains_key(k) || held@.contains(k)
                        || found == Some(k),
                forall|k: DocumentKey|
                    before.contains_key(k) ==> self.context.documents@[k] == before[k],
                self.context.documents.count() == start + held@.len() + (if found is Some {
                    1int
                } else {
                    0int
                }),
                found matches Some(k) ==> !avoid@.contains(k) && !before.contains_key(k) && !held@.contains(k)
                    && is_loading_document(
                        self.context.documents@[k],
                        kind,
                        *path,
                        *ctx,
                        self.state.sender,
                        k,
                    ),
            decreases avoid@.len() - held@.len() + (if found is None { 1int } else { 0int }),
        {
            proof {
                lemma_distinct_within(held@, avoid@);
            }
            let sender = clone_sender(&self.state.sender);
            let document_path = path_clone(path);
            let make = |new_key: DocumentKey| -> (document: DocumentKind)
                ensures
                    is_loading_document(document, kind, *path, *ctx, sender, new_key),
                { Self::document_from_path(document_path, ctx, sender, new_key, kind) };
            let ghost stored = self.context.documents@;
            let ghost held_before = held@;
            let key = self.context.documents.insert_with_key(make);
            if document_key_is_among(avoid, key) {
                assert(!held@.contains(key));
                held.push(key);
                proof {
                    assert(held@ == held_before.push(key));
                    assert forall|k: DocumentKey| held@.contains(k) <==> held_before.contains(k) || k
                        == key by {
                        if held_before.contains(k) {
                            let j = choose|j: int| 0 <= j < held_before.len() && held_before[j] == k;
                            assert(held@[j] == k);
                        }
                        if k == key {
                            assert(held@[held@.len() - 1] == k);
                        }
                    }
                    assert forall|k: DocumentKey|
                        self.context.documents@.contains_key(k) <==> stored.contains_key(k) || k == key by {}
                    assert forall|j: int| 0 <= j < held@.len() implies avoid@.contains(
                        #[trigger] held@[j],
                    ) && !before.contains_key(held@[j]) by {
                        if j == held@.len() - 1 {
                        }
                    }
                    lemma_distinct_within(held@, avoid@);
                }
            } else {
                found = Some(key);
            }
        }
        let key = match found {
            Some(key) => key,
            None => unreached(),
        };
        let ghost document = self.context.documents@[key];
        let mut j: usize = 0;
        while j < held.len()
            invariant
                j <= held.len(),
                self.tabs == old(self).tabs,
                self.state == old(self).state,
                self.context.config == old(self).context.config,
                self.context.sender == old(self).context.sender,
                before == old(self).context.documents@,
                start == old(self).context.documents.count(),
                held@.no_duplicates(),
                !held@.contains(key),
                !before.contains_key(key),
                forall|i: int| 0 <= i < held@.len() ==> !before.contains_key(#[trigger] held@[i]),
                forall|k: DocumentKey|
                    self.context.documents@.contains_key(k) <==> before.contains_key(k) || k == key
                        || exists|m: int| j <= m < held@.len() && #[trigger] held@[m] == k,
                forall|k: DocumentKey|
                    before.contains_key(k) ==> self.context.documents@[k] == before[k],
                self.context.documents@[key] == document,
                self.context.documents.count() == start + 1 + held@.len() - j,
            decreases held.len() - j,
        {
            let ghost holding = self.context.documents@;
            assert(holding.contains_key(held@[j as int]));
            self.context.documents.remove(held[j]);
            proof {
                assert forall|k: DocumentKey|
                    self.context.documents@.contains_key(k) <==> before.contains_key(k) || k == key
                        || exists|m: int| j + 1 <= m < held@.len() && #[trigger] held@[m] == k by {
                    if holding.contains_key(k) && k != held@[j as int] && !before.contains_key(k) && k
                        != key {
                        let m = choose|m: int| j <= m < held@.len() && #[trigger] held@[m] == k;
                        assert(m != j);
                    }
                    if exists|m: int| j + 1 <= m < held@.len() && #[trigger] held@[m] == k {
                        let m = choose|m: int| j + 1 <= m < held@.len() && #[trigger] held@[m] == k;
                        assert(held@[m] != held@[j as int]);
                    }
                }
            }
            j = j + 1;
        }
        assert(self.context.documents@ =~= before.insert(key, document));
        key
    }

    /// Whether `after` is `self` with the document tab under `tab_key` given
    /// its document again: a document of `kind` for the file of the tab,
    /// waiting to be loaded, under a key that the document registry did not
    /// hold and that is none of `avoid`; the tab now refers to that key.
    /// Nothing else differs.
    pub open spec fn restores_to(
        self,
        after: Self,
        ctx: Context,
        tab_key: TabKey,
        kind: KindChoice,
        avoid: Seq<DocumentKey>,
    ) -> bool {
        &&& after.context.config == self.context.config
        &&& after.context.sender == self.context.sender
        &&& after.state == self.state
        &&& after.tabs.counter() == self.tabs.counter()
        &&& self.tabs@.contains_key(tab_key)
        &&& self.tabs@[tab_key] matches TabKind::Document(before)
        &&& after.tabs@.contains_key(tab_key)
        &&& after.tabs@[tab_key] matches TabKind::Document(tab)
        &&& after.tabs@ == self.tabs@.insert(tab_key, TabKind::Document(tab))
        &&& tab.title == before.title
        &&& tab.path == before.path
        &&& !avoid.contains(tab.document_key)
        &&& !self.context.documents@.contains_key(tab.document_key)
        &&& after.context.documents@.contains_key(tab.document_key)
        &&& after.context.documents@ == self.context.documents@.insert(
            tab.document_key,
            after.context.documents@[tab.document_key],
        )
        &&& after.context.documents.count() == self.context.documents.count() + 1
        &&& is_loading_document(
            after.context.documents@[tab.document_key],
            kind,
            before.path,
            ctx,
            self.state.sender,
            tab.document_key,
        )
    }

    /// Gives the document tab under `tab_key` its document again, which is
    /// of `kind`, under a key that is none of `avoid`. Does nothing if there
    /// is no document tab under the key, or if the document registry has no
    /// room for one document beside as many as `avoid` has keys, and says
    /// so.
    pub fn restore_document(
        &mut self,
        ctx: &Context,
        tab_key: TabKey,
        kind: KindChoice,
        avoid: &[DocumentKey],
    ) -> (restored: bool)
        ensures
            restored == (old(self).tabs@.contains_key(tab_key) && old(self).tabs@[tab_key] is Document
                && old(self).context.documents.count() + avoid@.len() <= MAX_DOCUMENTS),
            restored ==> old(self).restores_to(*final(self), *ctx, tab_key, kind, avoid@),
            !restored ==> *final(self) == *old(self),
    {
        if avoid.len() > MAX_DOCUMENTS || self.context.documents.len() > MAX_DOCUMENTS - avoid.len() {
            return false;
        }
        let path = match self.tabs.get(&tab_key) {
            Some(TabKind::Document(document_tab)) => path_clone(&document_tab.path),
            _ => {
                return false;
            },
        };
        let new_key = self.load_document(ctx, &path, kind, avoid);
        match self.tabs.get_mut(&tab_key) {
            Some(TabKind::Document(document_tab)) => {
                document_tab.document_key = new_key;
            },
            _ => {},
        }
        true
    }

    /// Whether `states` are the states that the application passes through
    /// when the document tabs under the keys `restored` are given their
    /// documents again, one after the other, of the kinds `kinds`, under
    /// keys that are none of `avoid`.
    ///
    /// `avoid` are the keys that were saved with the tabs: the document key
    /// of every document tab of `self`, in ascending order of the tab keys. `restored` lists, in ascending
    /// order, the key of every document tab whose file is of a kind that
    /// the application can show, as long as the document registry has room;
    /// from the first tab for which it has none, no tab is restored.
    #[verifier::opaque]
    pub open spec fn restores_all_to(
        self,
        after: Self,
        ctx: Context,
        restored: Seq<TabKey>,
        kinds: Seq<KindChoice>,
        states: Seq<Self>,
        avoid: Seq<DocumentKey>,
    ) -> bool {
        &&& states.len() == restored.len() + 1
        &&& kinds.len() == restored.len()
        &&& states[0] == self
        &&& states.last() == after
        &&& forall|i: int|
            0 <= i < restored.len() ==> (#[trigger] states[i]).restores_to(
                states[i + 1],
                ctx,
                restored[i],
                kinds[i],
                avoid,
            )
        &&& forall|i: int, j: int| 0 <= i < j < restored.len() ==> restored[i].0 < restored[j].0
        &&& avoid == saved_keys(self.tabs@)
        &&& restored.len() <= avoid.len()
        &&& forall|i: int|
            0 <= i < restored.len() ==> restorable_as(self.tabs@, #[trigger] restored[i], kinds[i])
        &&& forall|k: TabKey|
            #[trigger] restorable(self.tabs@, k) && !restored.contains(k)
                ==> after.context.documents.count() + avoid.len() > MAX_DOCUMENTS
        &&& forall|k: TabKey, i: int|
            #[trigger] restorable(self.tabs@, k) && 0 <= i < restored.len() && k.0 < (
            #[trigger] restored[i]).0 ==> restored.contains(k)
        &&& after.context.documents.count() == self.context.documents.count() + restored.len()
    }

    /// The document keys of all document tabs, in ascending order of the
    /// keys of the tabs.
    pub fn saved_document_keys(&self) -> (saved: Vec<DocumentKey>)
        ensures
            saved@ == saved_keys(self.tabs@),
    {
        let ids = self.tabs.ids();
        let mut saved: Vec<DocumentKey> = Vec::new();
        let ghost mut bound: int = 0;
        let mut i: usize = 0;
        while i < ids.len()
            invariant
                i <= ids.len(),
                ids@.to_set() == self.tabs@.dom(),
                forall|a: int, b: int| 0 <= a < b < ids.len() ==> ids[a].0 < ids[b].0,
                0 <= bound <= usize::MAX + 1,
                forall|a: int| 0 <= a < i ==> (#[trigger] ids@[a]).0 < bound,
                forall|a: int| i <= a < ids.len() ==> bound <= (#[trigger] ids@[a]).0,
                saved@ == saved_keys_below(self.tabs@, bound),
            decreases ids.len() - i,
        {
            let key = ids[i];
            proof {
                assert(ids@.to_set().contains(ids@[i as int]));
                assert forall|k: TabKey| bound <= k.0 < key.0 implies !(self.tabs@.contains_key(k)
                    && self.tabs@[k] is Document) by {
                    if self.tabs@.contains_key(k) {
                        assert(ids@.to_set().contains(k));
                        let a = choose|a: int| 0 <= a < ids@.len() && ids@[a] == k;
                        if a > i {
                            assert(ids[i as int].0 < ids[a].0);
                        }
                    }
                }
                lemma_no_saved_keys_between(self.tabs@, bound, key.0 as int);
                assert(TabKey(((key.0 + 1) - 1) as usize) == key);
            }
            match self.tabs.get(&key) {
                Some(TabKind::Document(document_tab)) => {
                    saved.push(document_tab.document_key);
                },
                _ => {},
            }
            proof {
                assert(saved@ == saved_keys_below(self.tabs@, key.0 + 1));
                assert forall|a: int| i + 1 <= a < ids.len() implies key.0 + 1 <= (#[trigger] ids@[a]).0 by {
                    assert(ids[i as int].0 < ids[a].0);
                }
                assert forall|a: int| 0 <= a < i + 1 implies (#[trigger] ids@[a]).0 < key.0 + 1 by {
                    if a < i {
                        assert(ids[a].0 < ids[i as int].0);
                    }
                }
                bound = key.0 + 1;
            }
            i = i + 1;
        }
        proof {
            assert forall|k: TabKey| bound <= k.0 < usize::MAX + 1 implies !(self.tabs@.contains_key(k)
                && self.tabs@[k] is Document) by {
                if self.tabs@.contains_key(k) {
                    assert(ids@.to_set().contains(k));
                    let a = choose|a: int| 0 <= a < ids@.len() && ids@[a] == k;
                    assert(ids@[a].0 < bound);
                }
            }
            lemma_no_saved_keys_between(self.tabs@, bound, usize::MAX + 1);
        }
        saved
    }

    /// Gives every document tab its document again. Documents are not
    /// saved with the tabs: when the program starts, the document registry
    /// is empty, and the keys in the tabs are stale. Every document tab whose
    /// file is of a kind that the application can show gets a new document,
    /// waiting to be loaded, and the key of that document, which is none of
    /// the keys that were saved in the tabs. Returns the keys of these tabs,
    /// in ascending order.
    pub fn restore_documents_on_startup(&mut self, ctx: &Context) -> (restored: Vec<TabKey>)
        ensures
            exists|kinds: Seq<KindChoice>, states: Seq<Self>, avoid: Seq<DocumentKey>|
                old(self).restores_all_to(*final(self), *ctx, restored@, kinds, states, avoid),
            final(self).state == old(self).state,
            final(self).context.config == old(self).context.config,
            final(self).context.sender == old(self).context.sender,
            final(self).tabs@.dom() == old(self).tabs@.dom(),
            final(self).tabs.counter() == old(self).tabs.counter(),
    {
        let saved = self.saved_document_keys();
        let avoid = saved.as_slice();
        let ids = self.tabs.ids();
        let mut restored: Vec<TabKey> = Vec::new();
        let ghost mut kinds: Seq<KindChoice> = Seq::empty();
        let ghost mut states: Seq<Self> = seq![*self];
        let mut i: usize = 0;
        while i < ids.len()
            invariant
                i <= ids.len(),
                ids@.to_set() == old(self).tabs@.dom(),
                forall|a: int, b: int| 0 <= a < b < ids.len() ==> ids[a].0 < ids[b].0,
                self.state == old(self).state,
                self.context.config == old(self).context.config,
                self.context.sender == old(self).context.sender,
                self.tabs@.dom() == old(self).tabs@.dom(),
                self.tabs.counter() == old(self).tabs.counter(),
                same_files(old(self).tabs@, self.tabs@),
                states.len() == restored.len() + 1,
                kinds.len() == restored.len(),
                states[0] == *old(self),
                states.last() == *self,
                forall|j: int|
                    0 <= j < restored.len() ==> (#[trigger] states[j]).restores_to(
                        states[j + 1],
                        *ctx,
                        restored@[j],
                        kinds[j],
                        avoid@,
                    ),
                forall|a: int, b: int| 0 <= a < b < restored.len() ==> restored@[a].0 < restored@[b].0,
                forall|j: int|
                    0 <= j < restored.len() ==> exists|a: int|
                        0 <= a < i && ids@[a] == #[trigger] restored@[j],
                forall|j: int|
                    0 <= j < restored.len() ==> restorable_as(
                        old(self).tabs@,
                        #[trigger] restored@[j],
                        kinds[j],
                    ),
                self.context.documents.count() == old(self).context.documents.count() + restored.len(),
                self.context.documents.count() + avoid@.len() <= MAX_DOCUMENTS ==> forall|a: int|
                    0 <= a < i && restorable(old(self).tabs@, #[trigger] ids@[a]) ==> restored@.contains(
                        ids@[a],
                    ),
                forall|k: TabKey, j: int|
                    #[trigger] restorable(old(self).tabs@, k) && 0 <= j < restored.len() && k.0 < (
                    #[trigger] restored@[j]).0 ==> restored@.contains(k),
            decreases ids.len() - i,
        {
            let tab_key = ids[i];
            let ghost before = *self;
            let ghost restored_before = restored@;
            assert(ids@.to_set().contains(ids@[i as int]));
            let extension = match self.tabs.get(&tab_key) {
                Some(TabKind::Document(document_tab)) => path_extension(&document_tab.path),
                _ => None,
            };
            let kind = match extension {
                Some(extension) => document_kind_for(extension.as_str()),
                None => None,
            };
            let mut done = false;
            match kind {
                Some(kind) => {
                    done = self.restore_document(ctx, tab_key, kind, avoid);
                    if done {
                        proof {
                            assert forall|j: int| 0 <= j < restored.len() implies restored@[j].0
                                < tab_key.0 by {
                                let a = choose|a: int| 0 <= a < i && ids@[a] == restored@[j];
                                assert(ids[a].0 < ids[i as int].0);
                            }
                            assert forall|k: TabKey|
                                #[trigger] restorable(old(self).tabs@, k) && k.0
                                    < tab_key.0 implies restored@.contains(k) by {
                                assert(ids@.to_set().contains(k));
                                let a = choose|a: int| 0 <= a < ids@.len() && ids@[a] == k;
                                if a >= i {
                                    if a > i {
                                        assert(ids[i as int].0 < ids[a].0);
                                    }
                                }
                                assert(restorable(old(self).tabs@, ids@[a]));
                            }
                            states = states.push(*self);
                            kinds = kinds.push(kind);
                        }
                        restored.push(tab_key);
                        proof {
                            assert(restored@[restored@.len() - 1] == tab_key);
                            assert forall|k: TabKey| restored_before.contains(k) implies restored@.contains(
                                k,
                            ) by {
                                let j = choose|j: int| 0 <= j < restored_before.len() && restored_before[j] == k;
                                assert(restored@[j] == k);
                            }
                        }
                    }
                },
                None => {},
            }
            proof {
                assert(done || *self == before);
                assert(same_files(old(self).tabs@, self.tabs@)) by {
                    assert(same_files(old(self).tabs@, before.tabs@));
                    assert(self.tabs@.dom() =~= old(self).tabs@.dom());
                    assert forall|k: TabKey| #[trigger]
                        old(self).tabs@.contains_key(k) implies match (old(self).tabs@[k], self.tabs@[k]) {
                        (TabKind::Document(b), TabKind::Document(a)) => a.title == b.title && a.path
                            == b.path,
                        (b, a) => a == b,
                    } by {
                        assert(before.tabs@.contains_key(k));
                    }
                }
                assert(restorable(old(self).tabs@, tab_key) ==> done || self.context.documents.count()
                    + avoid@.len() > MAX_DOCUMENTS);
                if self.context.documents.count() + avoid@.len() <= MAX_DOCUMENTS {
                    assert forall|a: int|
                        0 <= a < i + 1 && restorable(
                            old(self).tabs@,
                            #[trigger] ids@[a],
                        ) implies restored@.contains(ids@[a]) by {
                        if a < i {
                            assert(restored_before.contains(ids@[a]));
                            let j = choose|j: int|
                                0 <= j < restored_before.len() && restored_before[j] == ids@[a];
                            assert(restored@[j] == ids@[a]);
                        } else {
                            assert(done);
                            assert(restored@[restored@.len() - 1] == tab_key);
                        }
                    }
                }
                assert forall|j: int| 0 <= j < restored.len() implies exists|a: int|
                    0 <= a < i + 1 && ids@[a] == #[trigger] restored@[j] by {
                    if j < restored_before.len() {
                        let a = choose|a: int| 0 <= a < i && ids@[a] == restored_before[j];
                        assert(ids@[a] == restored@[j]);
                    } else {
                        assert(ids@[i as int] == restored@[j]);
                    }
                }
            }
            i = i + 1;
        }
        proof {
            lemma_restored_are_saved(old(self).tabs@, restored@);
            reveal(TemplateApp::restores_all_to);
            assert forall|k: TabKey|
                #[trigger] restorable(old(self).tabs@, k) && !restored@.contains(
                    k,
                ) implies self.context.documents.count() + avoid@.len() > MAX_DOCUMENTS by {
                assert(ids@.to_set().contains(k));
                let a = choose|a: int| 0 <= a < ids@.len() && ids@[a] == k;
                assert(restorable(old(self).tabs@, ids@[a]));
            }
        }
        assert(old(self).restores_all_to(*self, *ctx, restored@, kinds, states, avoid@));
        restored
    }
}

} // verus!
