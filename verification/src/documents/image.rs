//! Image documents.
use crate::app::{AppMessage, MessageSource};
use crate::documents::loader::{DocumentContent, LoaderState};
use crate::documents::DocumentKey;
use crate::mailbox::{clone_context, AppMessageSender};
use crate::paths::path_clone;
use egui::{Context, TextureHandle};
use std::path::PathBuf;
use url::Url;
use vstd::prelude::*;

verus! {

#[verifier::external_type_specification]
#[verifier::external_body]
pub struct ExUrl(Url);

#[verifier::external_type_specification]
#[verifier::external_body]
pub struct ExTextureHandle(TextureHandle);

/// Why an image could not be loaded.
#[derive(Clone, Copy, Debug, PartialEq, Eq, Structural)]
pub enum ImageLoaderError {
    /// The file could not be read or decoded.
    Error,
}

/// `Context::forget_image`: drops what the user-interface context has cached
/// for the image at `url`, so that the image is read anew when it is next
/// asked for.
#[verifier::external_body]
fn context_forget_image(ctx: &Context, url: &Url) {
    ctx.forget_image(url.as_str())
}

/// The address of the file at a path in the `file` scheme. Only an absolute
/// path has one.
pub uninterp spec fn file_url_of(path: PathBuf) -> Option<Url>;

/// `Url::from_file_path`: the address of the file at `path` in the `file`
/// scheme, which exists if the path is absolute. The result is the file
/// address of the path.
#[verifier::external_body]
fn url_from_file_path(path: &PathBuf) -> (url: Option<Url>)
    ensures
        url == file_url_of(*path),
{
    Url::from_file_path(path).ok()
}

/// The address under which the user-interface context knows the image of
/// the file at `path`. Only an absolute path has one.
pub fn file_url(path: &PathBuf) -> (url: Option<Url>)
    ensures
        url == file_url_of(*path),
{
    url_from_file_path(path)
}

/// What a look at the texture of an image found.
pub enum TexturePolled<T> {
    /// The texture is still being made.
    Pending,
    /// The texture is there.
    Ready(T),
    /// The texture cannot be made.
    Failed,
}

/// What a worker that waits for a texture does next.
pub enum PollStep<T> {
    /// Wait a while and look again.
    Wait,
    /// End with the texture.
    Finish(T),
    /// End with an error.
    GiveUp(ImageLoaderError),
}

/// What a worker does after a look at the texture: it waits while the
/// texture is pending, ends with it when it is ready, and gives up when it
/// cannot be made.
pub fn poll_step<T>(polled: TexturePolled<T>) -> (step: PollStep<T>)
    ensures
        match polled {
            TexturePolled::Pending => step is Wait,
            TexturePolled::Ready(texture) => step == PollStep::Finish(texture),
            TexturePolled::Failed => step == PollStep::<T>::GiveUp(ImageLoaderError::Error),
        },
{
    match polled {
        TexturePolled::Pending => PollStep::Wait,
        TexturePolled::Ready(texture) => PollStep::Finish(texture),
        TexturePolled::Failed => PollStep::GiveUp(ImageLoaderError::Error),
    }
}

/// A document whose content is an image: the address under which the
/// user-interface context knows the image, and the texture that shows it.
pub struct ImageDocument {
    /// The file that the image comes from, or will be saved to.
    pub path: PathBuf,
    /// The image and the progress of loading it.
    pub loader: DocumentContent<(Url, TextureHandle), ImageLoaderError>,
    /// The user-interface context that holds the texture.
    pub context: Context,
}

impl ImageDocument {
    /// A new document at `path` that shows `placeholder`. Nothing is loaded.
    pub fn create_new(path: PathBuf, ctx: &Context, placeholder: (Url, TextureHandle)) -> (document: Self)
        ensures
            document.path == path,
            document.context == *ctx,
            document.loader@ == LoaderState::<(Url, TextureHandle), ImageLoaderError>::Loaded(
                placeholder,
            ),
    {
        Self { path, context: clone_context(ctx), loader: DocumentContent::new(placeholder) }
    }

    /// The document for the file at `path`, whose image is yet to be loaded.
    /// The worker that loads it announces the end of its work by a refresh
    /// entry that names `document_key` as its source.
    pub fn from_path(path: PathBuf, ctx: &Context, document_key: DocumentKey, sender: AppMessageSender) -> (document:
        Self)
        ensures
            document.path == path,
            document.context == *ctx,
            document.loader@ matches LoaderState::Loading(Some(request)) && request.path == path
                && request.ctx == *ctx && request.sender == sender && request.on_loaded_message == (
                MessageSource::Document(document_key),
                AppMessage::Refresh,
            ),
    {
        let message = (MessageSource::Document(document_key), AppMessage::Refresh);
        let loader = DocumentContent::load(path_clone(&path), clone_context(ctx), message, sender);
        Self { path, loader, context: clone_context(ctx) }
    }

    /// Has the user-interface context forget the image, if one is loaded, so
    /// that it is read from its file again when it is next opened. Call this
    /// when the document is discarded.
    pub fn forget_existing_image(&self) {
        if let Some((url, _existing_texture)) = self.loader.content() {
            context_forget_image(&self.context, url);
        }
    }
}

} // verus!
