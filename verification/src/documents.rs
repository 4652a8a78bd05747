//! Documents and the registry that owns them.
use crate::app::Config;
use crate::documents::image::ImageDocument;
use crate::documents::loader::{after_start, started_request, LoadRequest, LoaderState};
use crate::documents::text::TextDocument;
use crate::mailbox::AppMessageSender;
use slotmap::{DefaultKey, Key, KeyData, SlotMap};
use std::path::PathBuf;
use vstd::prelude::*;

pub mod image;
pub mod loader;
pub mod text;

verus! {

/// The bit of a key's number that marks an occupied slot. The numbers of all
/// keys have it set.
pub const OCCUPIED_BIT: u64 = 0x1_0000_0000;

/// The largest number of documents beside which a registry accepts another
/// one.
pub const MAX_DOCUMENTS: usize = 0xffff_fffd;

/// Identifies one document of the registry. A key holds the slot that the
/// document lives in and the generation of that slot, packed into one number.
/// The generation tells the documents apart that live in one slot one after
/// the other.
#[derive(Clone, Copy, Debug, PartialEq, Eq, Structural, Hash)]
pub struct DocumentKey {
    raw: u64,
}

impl DocumentKey {
    #[verifier::type_invariant]
    spec fn well_formed(self) -> bool {
        self.raw & OCCUPIED_BIT == OCCUPIED_BIT
    }

    /// The number of the key.
    pub closed spec fn number(self) -> u64 {
        self.raw
    }

    /// The number of the key, by which it can be stored and made again.
    pub fn raw(self) -> (raw: u64)
        ensures
            raw == self.number(),
            raw & OCCUPIED_BIT == OCCUPIED_BIT,
    {
        proof {
            use_type_invariant(self);
        }
        self.raw
    }

    /// The key with the number `raw`, the occupied bit set.
    pub fn from_raw(raw: u64) -> (key: Self)
        ensures
            key.number() == raw | OCCUPIED_BIT,
    {
        assert((raw | OCCUPIED_BIT) & OCCUPIED_BIT == OCCUPIED_BIT) by (bit_vector);
        DocumentKey { raw: raw | OCCUPIED_BIT }
    }
}

/// A document of one of the kinds that the workspace can show.
pub enum DocumentKind {
    TextDocument(TextDocument),
    ImageDocument(ImageDocument),
}

impl DocumentKind {
    /// The file that the document belongs to.
    pub open spec fn file(self) -> PathBuf {
        match self {
            DocumentKind::TextDocument(document) => document.path,
            DocumentKind::ImageDocument(document) => document.path,
        }
    }

    /// The request for a worker that the loader of the document holds, if
    /// it is loading and no worker has taken the request yet.
    pub open spec fn pending(self) -> Option<LoadRequest> {
        match self {
            DocumentKind::TextDocument(document) => started_request(document.loader@),
            DocumentKind::ImageDocument(document) => started_request(document.loader@),
        }
    }

    /// Whether the loader of the document is loading.
    pub open spec fn loading(self) -> bool {
        match self {
            DocumentKind::TextDocument(document) => document.loader@ is Loading,
            DocumentKind::ImageDocument(document) => document.loader@ is Loading,
        }
    }

    /// The file that the document belongs to.
    pub fn path(&self) -> (path: &PathBuf)
        ensures
            *path == self.file(),
    {
        match self {
            DocumentKind::TextDocument(document) => &document.path,
            DocumentKind::ImageDocument(document) => &document.path,
        }
    }

    /// Whether the content of the document is still being loaded.
    pub fn is_loading(&self) -> (loading: bool)
        ensures
            loading == self.loading(),
    {
        match self {
            DocumentKind::TextDocument(document) => document.loader.is_loading(),
            DocumentKind::ImageDocument(document) => document.loader.is_loading(),
        }
    }

    /// Hands out the request to load the content of the document, if the
    /// document waits for its content and no worker has the request yet. The
    /// document is of the same kind afterwards, and only its request is gone.
    pub fn start(&mut self) -> (request: Option<LoadRequest>)
        ensures
            request == old(self).pending(),
            final(self).pending() is None,
            final(self).file() == old(self).file(),
            match (*old(self), *final(self)) {
                (DocumentKind::TextDocument(before), DocumentKind::TextDocument(after)) => after.loader@
                    == after_start(before.loader@),
                (DocumentKind::ImageDocument(before), DocumentKind::ImageDocument(after)) => after.loader@
                    == after_start(before.loader@) && after.context == before.context,
                _ => false,
            },
    {
        match self {
            DocumentKind::TextDocument(document) => document.loader.start(),
            DocumentKind::ImageDocument(document) => document.loader.start(),
        }
    }
}

/// What a document may use while it is shown: the preferences and the
/// sending end of the mailbox.
pub struct DocumentContext {
    pub config: Config,
    pub sender: AppMessageSender,
}

/// The slot map that stores the documents. A `DocumentKey` holds the number
/// that `KeyData::as_ffi` gives for a key of the slot map, and
/// `KeyData::from_ffi` makes the key of that number again.
#[verifier::external_body]
pub struct DocumentSlots {
    slots: SlotMap<DefaultKey, DocumentKind>,
}

/// The documents that a slot map holds, each under the number of its key.
/// There are finitely many.
pub uninterp spec fn slot_entries(slots: DocumentSlots) -> Map<u64, DocumentKind>;

/// `SlotMap::new`: a slot map that holds nothing.
#[verifier::external_body]
fn slots_new() -> (made: DocumentSlots)
    ensures
        slot_entries(made).dom() == Set::<u64>::empty(),
{
    DocumentSlots { slots: SlotMap::new() }
}

/// `SlotMap::len`: the number of documents held.
#[verifier::external_body]
fn slots_len(slots: &DocumentSlots) -> (len: usize)
    ensures
        len == slot_entries(*slots).len(),
{
    slots.slots.len()
}

/// `SlotMap::insert`: stores `document` in a free slot and returns the key of
/// that slot, which no document held before is stored under. It panics when
/// the slot map is full, which it is not while it holds at most
/// `MAX_DOCUMENTS` documents.
#[verifier::external_body]
fn slots_insert(slots: &mut DocumentSlots, document: DocumentKind) -> (key: DocumentKey)
    requires
        slot_entries(*old(slots)).len() <= MAX_DOCUMENTS,
    ensures
        !slot_entries(*old(slots)).contains_key(key.raw),
        slot_entries(*final(slots)) == slot_entries(*old(slots)).insert(key.raw, document),
        slot_entries(*final(slots)).dom().finite(),
{
    DocumentKey { raw: slots.slots.insert(document).data().as_ffi() }
}

/// `SlotMap::insert_with_key`: picks the key of a free slot, which no
/// document held before is stored under, calls `make` with that key, stores
/// what `make` returns under the key, and returns the key. It panics when
/// the slot map is full, which it is not while it holds at most
/// `MAX_DOCUMENTS` documents.
#[verifier::external_body]
fn slots_insert_with_key<F: FnOnce(DocumentKey) -> DocumentKind>(
    slots: &mut DocumentSlots,
    make: F,
) -> (key: DocumentKey)
    requires
        slot_entries(*old(slots)).len() <= MAX_DOCUMENTS,
        forall|k: DocumentKey| call_requires(make, (k,)),
    ensures
        !slot_entries(*old(slots)).contains_key(key.raw),
        slot_entries(*final(slots)).contains_key(key.raw),
        call_ensures(make, (key,), slot_entries(*final(slots))[key.raw]),
        slot_entries(*final(slots)) == slot_entries(*old(slots)).insert(
            key.raw,
            slot_entries(*final(slots))[key.raw],
        ),
        slot_entries(*final(slots)).dom().finite(),
{
    DocumentKey {
        raw: slots.slots.insert_with_key(|k| make(DocumentKey { raw: k.data().as_ffi() })).data().as_ffi(),
    }
}

/// `SlotMap::get`: the document stored under `key`, if there is one.
#[verifier::external_body]
fn slots_get(slots: &DocumentSlots, key: DocumentKey) -> (document: Option<&DocumentKind>)
    ensures
        match document {
            Some(d) => slot_entries(*slots).contains_key(key.raw) && *d == slot_entries(*slots)[key.raw],
            None => !slot_entries(*slots).contains_key(key.raw),
        },
{
    slots.slots.get(DefaultKey::from(KeyData::from_ffi(key.raw)))
}

/// `SlotMap::get_mut`: a mutable reference to the document stored under
/// `key`, if there is one. Whatever is written through the reference is what
/// the slot map then holds under `key`; nothing else in it changes.
#[verifier::external_body]
fn slots_get_mut(slots: &mut DocumentSlots, key: DocumentKey) -> (document: Option<&mut DocumentKind>)
    ensures
        slot_entries(*final(slots)).dom() == slot_entries(*old(slots)).dom(),
        match document {
            Some(d) => slot_entries(*old(slots)).contains_key(key.raw) && *d == slot_entries(
                *old(slots),
            )[key.raw] && slot_entries(*final(slots)) == slot_entries(*old(slots)).insert(
                key.raw,
                *final(d),
            ),
            None => !slot_entries(*old(slots)).contains_key(key.raw) && slot_entries(*final(slots))
                == slot_entries(*old(slots)),
        },
{
    slots.slots.get_mut(DefaultKey::from(KeyData::from_ffi(key.raw)))
}

/// `SlotMap::remove`: takes the document stored under `key` out of the slot
/// map and returns it, if there is one.
#[verifier::external_body]
fn slots_remove(slots: &mut DocumentSlots, key: DocumentKey) -> (document: Option<DocumentKind>)
    ensures
        slot_entries(*final(slots)) == slot_entries(*old(slots)).remove(key.raw),
        slot_entries(*final(slots)).dom().finite(),
        match document {
            Some(d) => slot_entries(*old(slots)).contains_key(key.raw) && d == slot_entries(
                *old(slots),
            )[key.raw],
            None => !slot_entries(*old(slots)).contains_key(key.raw),
        },
{
    slots.slots.remove(DefaultKey::from(KeyData::from_ffi(key.raw)))
}

/// Storing a document under a key that was free makes the number of
/// documents one more.
proof fn lemma_count_after_insert(before: Map<u64, DocumentKind>, after: Map<u64, DocumentKind>, key: u64)
    requires
        after.dom().finite(),
        !before.contains_key(key),
        after.dom() == before.dom().insert(key),
    ensures
        before.dom().finite(),
        after.len() == before.len() + 1,
{
    vstd::set_lib::lemma_len_subset(before.dom(), after.dom());
}

/// Taking the document under a key out makes the number of documents one
/// less if there was one, and leaves it else.
proof fn lemma_count_after_remove(before: Map<u64, DocumentKind>, after: Map<u64, DocumentKind>, key: u64)
    requires
        after.dom().finite(),
        after.dom() == before.dom().remove(key),
    ensures
        before.dom().finite(),
        before.contains_key(key) ==> after.len() == before.len() - 1,
        !before.contains_key(key) ==> after.len() == before.len(),
{
    if before.contains_key(key) {
        assert(before.dom() =~= after.dom().insert(key));
    } else {
        assert(before.dom() =~= after.dom());
    }
}

/// The document registry: the one owner of every document. Tabs refer to
/// documents by key.
pub struct Documents {
    slots: DocumentSlots,
}

impl View for Documents {
    type V = Map<DocumentKey, DocumentKind>;

    closed spec fn view(&self) -> Map<DocumentKey, DocumentKind> {
        Map::new(
            |k: DocumentKey| slot_entries(self.slots).contains_key(k.raw),
            |k: DocumentKey| slot_entries(self.slots)[k.raw],
        )
    }
}

impl Documents {
    /// The number of documents in the registry.
    pub closed spec fn count(&self) -> nat {
        slot_entries(self.slots).len()
    }

    /// A registry without documents.
    pub fn new() -> (documents: Self)
        ensures
            documents@ == Map::<DocumentKey, DocumentKind>::empty(),
            documents.count() == 0,
    {
        let documents = Documents { slots: slots_new() };
        assert(documents@ =~= Map::<DocumentKey, DocumentKind>::empty());
        assert(slot_entries(documents.slots) =~= Map::empty());
        documents
    }

    /// The number of documents in the registry.
    pub fn len(&self) -> (len: usize)
        ensures
            len == self.count(),
    {
        slots_len(&self.slots)
    }

    /// Whether the registry has no room for another document.
    pub fn is_full(&self) -> (full: bool)
        ensures
            full == (self.count() > MAX_DOCUMENTS),
    {
        slots_len(&self.slots) > MAX_DOCUMENTS
    }

    /// Stores `document` and returns the key under which it can be found.
    pub fn insert(&mut self, document: DocumentKind) -> (key: DocumentKey)
        requires
            old(self).count() <= MAX_DOCUMENTS,
        ensures
            !old(self)@.contains_key(key),
            final(self)@ == old(self)@.insert(key, document),
            final(self).count() == old(self).count() + 1,
    {
        let key = slots_insert(&mut self.slots, document);
        proof {
            assert(self@ =~= old(self)@.insert(key, document));
            lemma_count_after_insert(slot_entries(old(self).slots), slot_entries(self.slots), key.raw);
        }
        key
    }

    /// Picks the key for a new document, has `make` build the document for
    /// that key, stores it and returns the key.
    pub fn insert_with_key<F: FnOnce(DocumentKey) -> DocumentKind>(&mut self, make: F) -> (key:
        DocumentKey)
        requires
            old(self).count() <= MAX_DOCUMENTS,
            forall|k: DocumentKey| call_requires(make, (k,)),
        ensures
            !old(self)@.contains_key(key),
            final(self)@.contains_key(key),
            call_ensures(make, (key,), final(self)@[key]),
            final(self)@ == old(self)@.insert(key, final(self)@[key]),
            final(self).count() == old(self).count() + 1,
    {
        let key = slots_insert_with_key(&mut self.slots, make);
        proof {
            assert(self@ =~= old(self)@.insert(key, self@[key]));
            lemma_count_after_insert(slot_entries(old(self).slots), slot_entries(self.slots), key.raw);
        }
        key
    }

    /// The document stored under `key`, if the key is live.
    pub fn get(&self, key: DocumentKey) -> (document: Option<&DocumentKind>)
        ensures
            match document {
                Some(d) => self@.contains_key(key) && *d == self@[key],
                None => !self@.contains_key(key),
            },
    {
        slots_get(&self.slots, key)
    }

    /// The document stored under `key`, if the key is live, for changing it
    /// in place.
    pub fn get_mut(&mut self, key: DocumentKey) -> (document: Option<&mut DocumentKind>)
        ensures
            final(self).count() == old(self).count(),
            match document {
                Some(d) => old(self)@.contains_key(key) && *d == old(self)@[key] && final(self)@
                    == old(self)@.insert(key, *final(d)),
                None => !old(self)@.contains_key(key) && final(self)@ == old(self)@,
            },
    {
        slots_get_mut(&mut self.slots, key)
    }

    /// Takes the document stored under `key` out of the registry and returns
    /// it, if the key is live.
    pub fn remove(&mut self, key: DocumentKey) -> (document: Option<DocumentKind>)
        ensures
            final(self)@ == old(self)@.remove(key),
            match document {
                Some(d) => old(self)@.contains_key(key) && d == old(self)@[key] && final(self).count()
                    == old(self).count() - 1,
                None => !old(self)@.contains_key(key) && final(self).count() == old(self).count(),
            },
    {
        let document = slots_remove(&mut self.slots, key);
        proof {
            assert(self@ =~= old(self)@.remove(key));
            lemma_count_after_remove(slot_entries(old(self).slots), slot_entries(self.slots), key.raw);
        }
        document
    }
}

} // verus!
