use std::path::PathBuf;
use tabbed_documents::documents::loader::LoaderState;
use tabbed_documents::documents::text::TextDocument;
use tabbed_documents::documents::{DocumentKey, DocumentKind, Documents, MAX_DOCUMENTS, OCCUPIED_BIT};

fn text(path: &str) -> DocumentKind {
    DocumentKind::TextDocument(TextDocument::create_new(PathBuf::from(path)))
}

fn path_of(documents: &Documents, key: DocumentKey) -> Option<PathBuf> {
    documents.get(key).map(|document| document.path().clone())
}

#[test]
fn new_document_registry_is_empty() {
    let documents = Documents::new();
    assert_eq!(documents.len(), 0);
    assert!(!documents.is_full());
    assert!(documents.get(DocumentKey::from_raw(0)).is_none());
}

#[test]
fn insert_stores_under_a_new_key() {
    let mut documents = Documents::new();
    let a = documents.insert(text("/a.txt"));
    let b = documents.insert(text("/b.txt"));
    assert_ne!(a, b);
    assert_eq!(documents.len(), 2);
    assert_eq!(path_of(&documents, a), Some(PathBuf::from("/a.txt")));
    assert_eq!(path_of(&documents, b), Some(PathBuf::from("/b.txt")));
}

#[test]
fn insert_with_key_shows_the_factory_the_key_that_it_returns() {
    let mut documents = Documents::new();
    documents.insert(text("/first.txt"));
    let mut seen: Option<DocumentKey> = None;
    let key = documents.insert_with_key(|key| {
        seen = Some(key);
        text(&format!("/{}.txt", key.raw()))
    });
    assert_eq!(seen, Some(key));
    assert_eq!(path_of(&documents, key), Some(PathBuf::from(format!("/{}.txt", key.raw()))));
    assert_eq!(documents.len(), 2);
}

#[test]
fn get_mut_changes_the_document_in_place() {
    let mut documents = Documents::new();
    let a = documents.insert(text("/a.txt"));
    let b = documents.insert(text("/b.txt"));
    match documents.get_mut(a) {
        Some(DocumentKind::TextDocument(document)) => document.path = PathBuf::from("/changed.txt"),
        _ => panic!("the key is live"),
    }
    assert_eq!(path_of(&documents, a), Some(PathBuf::from("/changed.txt")));
    assert_eq!(path_of(&documents, b), Some(PathBuf::from("/b.txt")));
}

#[test]
fn remove_takes_the_document_out() {
    let mut documents = Documents::new();
    let a = documents.insert(text("/a.txt"));
    let b = documents.insert(text("/b.txt"));
    let removed = documents.remove(a);
    assert_eq!(removed.map(|document| document.path().clone()), Some(PathBuf::from("/a.txt")));
    assert!(documents.get(a).is_none());
    assert!(documents.get_mut(a).is_none());
    assert!(documents.remove(a).is_none());
    assert_eq!(documents.len(), 1);
    assert_eq!(path_of(&documents, b), Some(PathBuf::from("/b.txt")));
}

#[test]
fn a_removed_key_does_not_resolve_to_the_next_document_in_its_slot() {
    let mut documents = Documents::new();
    let stale = documents.insert(text("/old.txt"));
    documents.remove(stale);
    let fresh = documents.insert(text("/new.txt"));
    assert_ne!(stale, fresh);
    assert!(documents.get(stale).is_none());
    assert_eq!(path_of(&documents, fresh), Some(PathBuf::from("/new.txt")));
}

#[test]
fn keys_survive_being_saved_as_numbers() {
    let mut documents = Documents::new();
    let key = documents.insert(text("/a.txt"));
    let raw = key.raw();
    assert_eq!(raw & OCCUPIED_BIT, OCCUPIED_BIT);
    assert_eq!(DocumentKey::from_raw(raw), key);
    assert_eq!(path_of(&documents, DocumentKey::from_raw(raw)), Some(PathBuf::from("/a.txt")));
}

#[test]
fn from_raw_sets_the_occupied_bit() {
    assert_eq!(DocumentKey::from_raw(5).raw(), 5 | OCCUPIED_BIT);
    assert_eq!(DocumentKey::from_raw(0x3_0000_0007).raw(), 0x3_0000_0007);
    assert_eq!(DocumentKey::from_raw(0x2_0000_0007).raw(), 0x3_0000_0007);
}

#[test]
fn the_registry_is_far_from_full() {
    assert_eq!(MAX_DOCUMENTS, 0xffff_fffd);
}

#[test]
fn document_kind_dispatches_to_its_variant() {
    let mut document = text("/a.txt");
    assert_eq!(document.path(), &PathBuf::from("/a.txt"));
    assert!(!document.is_loading());
    assert!(document.start().is_none());
    match &document {
        DocumentKind::TextDocument(text) => assert_eq!(text.loader.content().map(|c| c.as_str()), Some("example content")),
        DocumentKind::ImageDocument(_) => panic!("a text document was made"),
    }
    let _ = LoaderState::<u8, u8>::Loaded(1);
}

#[test]
fn the_number_of_documents_follows_inserts_and_removes() {
    let mut documents = Documents::new();
    assert_eq!(documents.len(), 0);
    let a = documents.insert(text("/a.txt"));
    assert_eq!(documents.len(), 1);
    let b = documents.insert_with_key(|_| text("/b.txt"));
    assert_eq!(documents.len(), 2);
    assert!(documents.get_mut(a).is_some());
    assert_eq!(documents.len(), 2);
    assert!(documents.remove(a).is_some());
    assert_eq!(documents.len(), 1);
    assert!(documents.remove(a).is_none());
    assert_eq!(documents.len(), 1);
    assert!(documents.remove(b).is_some());
    assert_eq!(documents.len(), 0);
}
