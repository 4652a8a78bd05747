use std::path::PathBuf;
use tabbed_documents::app::{AppMessage, MessageSource};
use tabbed_documents::documents::image::{file_url, poll_step, ImageDocument, ImageLoaderError, PollStep, TexturePolled};
use tabbed_documents::documents::loader::DocumentContent;
use tabbed_documents::documents::text::{TextDocument, TextLoaderError};
use tabbed_documents::documents::{DocumentKey, DocumentKind, Documents};
use tabbed_documents::mailbox::{channel, drain, send};

#[test]
fn a_new_loader_is_loaded_at_once() {
    let mut loader: DocumentContent<String, TextLoaderError> = DocumentContent::new("ready".to_string());
    assert_eq!(loader.content(), Some(&"ready".to_string()));
    assert!(!loader.is_loading());
    assert!(!loader.is_error());
    assert_eq!(loader.error(), None);
    assert!(loader.start().is_none());
    loader.update(Some(Ok("other".to_string())));
    assert_eq!(loader.content(), Some(&"ready".to_string()));
    loader.update(Some(Err(TextLoaderError::Error)));
    assert_eq!(loader.content(), Some(&"ready".to_string()));
    loader.update(None);
    assert_eq!(loader.content(), Some(&"ready".to_string()));
}

fn loading() -> DocumentContent<String, TextLoaderError> {
    let (sender, _receiver) = channel();
    DocumentContent::load(
        PathBuf::from("/tmp/notes.txt"),
        egui::Context::default(),
        (MessageSource::Document(DocumentKey::from_raw(1)), AppMessage::Refresh),
        sender,
    )
}

#[test]
fn a_loading_loader_waits_for_the_worker() {
    let mut loader = loading();
    assert!(loader.is_loading());
    assert_eq!(loader.content(), None);
    assert!(loader.content_mut().is_none());
    assert!(!loader.is_error());
    loader.update(None);
    loader.update(None);
    assert!(loader.is_loading());
    assert_eq!(loader.content(), None);
}

#[test]
fn the_request_is_handed_out_once() {
    let mut loader = loading();
    let request = loader.start().expect("the request is there");
    assert_eq!(request.path, PathBuf::from("/tmp/notes.txt"));
    assert!(matches!(request.on_loaded_message.0, MessageSource::Document(key) if key == DocumentKey::from_raw(1)));
    assert!(matches!(request.on_loaded_message.1, AppMessage::Refresh));
    assert!(loader.is_loading());
    assert!(loader.start().is_none());
    loader.update(Some(Ok("text".to_string())));
    assert!(loader.start().is_none());
}

#[test]
fn a_loader_becomes_loaded_when_the_work_succeeds() {
    let mut loader = loading();
    loader.update(Some(Ok("hello".to_string())));
    assert_eq!(loader.content(), Some(&"hello".to_string()));
    assert!(!loader.is_loading());
    assert!(!loader.is_error());
    loader.update(Some(Err(TextLoaderError::Error)));
    assert_eq!(loader.content(), Some(&"hello".to_string()));
    loader.update(Some(Ok("again".to_string())));
    assert_eq!(loader.content(), Some(&"hello".to_string()));
}

#[test]
fn a_loader_becomes_failed_when_the_work_fails() {
    let mut loader = loading();
    loader.update(Some(Err(TextLoaderError::Error)));
    assert!(loader.is_error());
    assert_eq!(loader.error(), Some(&TextLoaderError::Error));
    assert_eq!(loader.content(), None);
    loader.update(Some(Ok("late".to_string())));
    assert!(loader.is_error());
    assert_eq!(loader.content(), None);
    loader.update(None);
    assert_eq!(loader.content(), None);
}

#[test]
fn content_mut_edits_the_content() {
    let mut loader: DocumentContent<String, TextLoaderError> = DocumentContent::new("ab".to_string());
    match loader.content_mut() {
        Some(content) => content.push('c'),
        None => panic!("the content is loaded"),
    }
    assert_eq!(loader.content(), Some(&"abc".to_string()));
}

#[test]
fn opening_notes_loads_hello_and_queues_a_refresh() {
    let ctx = egui::Context::default();
    let (sender, receiver) = channel();
    let mut documents = Documents::new();
    let path = PathBuf::from("notes.txt");
    let key = documents.insert_with_key(|key| {
        DocumentKind::TextDocument(TextDocument::from_path(path.clone(), &ctx, key, sender))
    });
    let document = match documents.get_mut(key) {
        Some(DocumentKind::TextDocument(document)) => document,
        _ => panic!("a text document was stored"),
    };
    assert_eq!(document.path, path);
    assert!(document.loader.is_loading());
    assert_eq!(document.loader.content(), None);

    let request = document.loader.start().expect("the request is there");
    assert_eq!(request.path, path);
    let loaded: Result<String, TextLoaderError> = Ok("hello".to_string());
    send(&request.sender, request.on_loaded_message).expect("the mailbox is open");

    document.loader.update(None);
    assert!(document.loader.is_loading());
    document.loader.update(Some(loaded));
    assert_eq!(document.loader.content(), Some(&"hello".to_string()));

    let entries = drain(&receiver, &ctx);
    assert_eq!(entries.len(), 1);
    assert!(matches!(entries[0].0, MessageSource::Document(source) if source == key));
    assert!(matches!(entries[0].1, AppMessage::Refresh));
}

#[test]
fn opening_a_missing_file_ends_in_error_for_good() {
    let ctx = egui::Context::default();
    let (sender, receiver) = channel();
    let mut document = TextDocument::from_path(PathBuf::from("/no/such/file.txt"), &ctx, DocumentKey::from_raw(3), sender);
    let request = document.loader.start().expect("the request is there");
    send(&request.sender, request.on_loaded_message).expect("the mailbox is open");
    document.loader.update(Some(Err(TextLoaderError::Error)));
    assert!(document.loader.is_error());
    for _ in 0..5 {
        document.loader.update(None);
        assert_eq!(document.loader.content(), None);
    }
    assert_eq!(drain(&receiver, &ctx).len(), 1);
}

#[test]
fn a_new_text_document_holds_its_placeholder() {
    let document = TextDocument::create_new(PathBuf::from("/tmp/new.txt"));
    assert_eq!(document.path, PathBuf::from("/tmp/new.txt"));
    assert_eq!(document.loader.content(), Some(&"example content".to_string()));
}

fn texture(ctx: &egui::Context, url: &url::Url) -> egui::TextureHandle {
    ctx.load_texture(url.as_str(), egui::ColorImage::filled([2, 2], egui::Color32::RED), Default::default())
}

#[test]
fn a_new_image_document_holds_its_placeholder() {
    let ctx = egui::Context::default();
    let path = PathBuf::from("/tmp/new.bmp");
    let url = file_url(&path).expect("the path is absolute");
    assert_eq!(url.as_str(), "file:///tmp/new.bmp");
    let handle = texture(&ctx, &url);
    let id = handle.id();
    let document = ImageDocument::create_new(path.clone(), &ctx, (url.clone(), handle));
    assert_eq!(document.path, path);
    match document.loader.content() {
        Some((stored_url, stored_texture)) => {
            assert_eq!(stored_url, &url);
            assert_eq!(stored_texture.id(), id);
        },
        None => panic!("the placeholder is there"),
    }
    document.forget_existing_image();
}

#[test]
fn a_relative_path_has_no_file_url() {
    assert!(file_url(&PathBuf::from("relative/new.bmp")).is_none());
}

#[test]
fn an_image_document_from_a_path_waits_for_its_image() {
    let ctx = egui::Context::default();
    let (sender, receiver) = channel();
    let key = DocumentKey::from_raw(9);
    let mut document = ImageDocument::from_path(PathBuf::from("/tmp/picture.png"), &ctx, key, sender);
    assert!(document.loader.is_loading());
    document.forget_existing_image();
    let request = document.loader.start().expect("the request is there");
    assert_eq!(request.path, PathBuf::from("/tmp/picture.png"));
    send(&request.sender, request.on_loaded_message).expect("the mailbox is open");
    let entries = drain(&receiver, &ctx);
    assert_eq!(entries.len(), 1);
    assert!(matches!(entries[0].0, MessageSource::Document(source) if source == key));
    document.loader.update(Some(Err(ImageLoaderError::Error)));
    assert!(document.loader.is_error());
    assert!(document.loader.content().is_none());
}

#[test]
fn a_worker_waits_for_a_pending_texture_and_ends_on_the_others() {
    assert!(matches!(poll_step::<u8>(TexturePolled::Pending), PollStep::Wait));
    assert!(matches!(poll_step(TexturePolled::Ready(7u8)), PollStep::Finish(7)));
    assert!(matches!(poll_step::<u8>(TexturePolled::Failed), PollStep::GiveUp(ImageLoaderError::Error)));
}
