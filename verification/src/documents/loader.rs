//! The content loader: the state machine that stands between a document and
//! the background work that fetches its content.
use crate::mailbox::{AppMessageSender, Entry};
use egui::Context;
use std::path::PathBuf;
use vstd::prelude::*;

verus! {

/// One unit of background work: load the content found at `path`, then send
/// `on_loaded_message` through `sender`, then hand the result back to the
/// loader.
pub struct LoadRequest {
    /// Where the content is.
    pub path: PathBuf,
    /// The user-interface context that the load function may need.
    pub ctx: Context,
    /// The mailbox entry that tells the application that the work is done.
    pub on_loaded_message: Entry,
    /// The sending end of the mailbox, for the worker.
    pub sender: AppMessageSender,
}

/// Where a loader stands.
pub enum LoaderState<T, E> {
    /// The content is being loaded. The request is still here if no worker
    /// has taken it yet.
    Loading(Option<LoadRequest>),
    /// The content is available.
    Loaded(T),
    /// Loading failed.
    Error(E),
}

/// The state that follows `state` when the background work is observed and
/// `finished` is its outcome, or `None` if the work is still running.
pub open spec fn after_update<T, E>(state: LoaderState<T, E>, finished: Option<Result<T, E>>) -> LoaderState<T, E> {
    match (state, finished) {
        (LoaderState::Loading(_), Some(Ok(content))) => LoaderState::Loaded(content),
        (LoaderState::Loading(_), Some(Err(error))) => LoaderState::Error(error),
        _ => state,
    }
}

/// The state that follows `state` when a worker asks for the request.
pub open spec fn after_start<T, E>(state: LoaderState<T, E>) -> LoaderState<T, E> {
    match state {
        LoaderState::Loading(Some(_)) => LoaderState::Loading(None),
        _ => state,
    }
}

/// The request that a worker gets when it asks in `state`.
pub open spec fn started_request<T, E>(state: LoaderState<T, E>) -> Option<LoadRequest> {
    match state {
        LoaderState::Loading(Some(request)) => Some(request),
        _ => None,
    }
}

/// A loader for content that exists already has no request for a worker and
/// stays as it is, whatever is observed.
pub proof fn law_new_loader_is_settled<T, E>(content: T, finished: Option<Result<T, E>>)
    ensures
        started_request(LoaderState::<T, E>::Loaded(content)) is None,
        after_start(LoaderState::<T, E>::Loaded(content)) == LoaderState::<T, E>::Loaded(content),
        after_update(LoaderState::<T, E>::Loaded(content), finished) == LoaderState::<T, E>::Loaded(
            content,
        ),
{
}

/// A loader that is loading moves to exactly one final state when the end of
/// the work is observed: to `Loaded` with the content if the work succeeded,
/// to `Error` with the error if it failed. Until then it keeps loading.
pub proof fn law_loading_ends_once<T, E>(request: Option<LoadRequest>, finished: Option<Result<T, E>>)
    ensures
        match finished {
            Some(Ok(content)) => after_update(LoaderState::<T, E>::Loading(request), finished)
                == LoaderState::<T, E>::Loaded(content),
            Some(Err(error)) => after_update(LoaderState::<T, E>::Loading(request), finished)
                == LoaderState::<T, E>::Error(error),
            None => after_update(LoaderState::<T, E>::Loading(request), finished)
                == LoaderState::<T, E>::Loading(request),
        },
{
}

/// A final state is final: a loader that is not loading stays as it is,
/// whatever is observed and whoever asks for a request.
pub proof fn law_final_states_stay<T, E>(state: LoaderState<T, E>, finished: Option<Result<T, E>>)
    requires
        !(state is Loading),
    ensures
        after_update(state, finished) == state,
        after_start(state) == state,
        started_request(state) is None,
{
}

/// The request of a loader is handed out once: after a worker has asked,
/// there is none, in this state and in all that follow.
pub proof fn law_request_is_handed_out_once<T, E>(state: LoaderState<T, E>, finished: Option<Result<T, E>>)
    ensures
        started_request(after_start(state)) is None,
        started_request(after_update(after_start(state), finished)) is None,
        started_request(after_start(after_update(state, finished))) is None,
{
}

/// The content of a document together with the progress of loading it.
pub struct DocumentContent<T: Send + 'static, E: Send + 'static> {
    state: LoaderState<T, E>,
}

impl<T: Send + 'static, E: Send + 'static> View for DocumentContent<T, E> {
    type V = LoaderState<T, E>;

    closed spec fn view(&self) -> LoaderState<T, E> {
        self.state
    }
}

impl<T: Send + 'static, E: Send + 'static> DocumentContent<T, E> {
    /// The content, once it is loaded.
    pub fn content(&self) -> (content: Option<&T>)
        ensures
            match content {
                Some(c) => self@ == LoaderState::<T, E>::Loaded(*c),
                None => !(self@ is Loaded),
            },
    {
        match &self.state {
            LoaderState::Loaded(content) => Some(content),
            _ => None,
        }
    }

    /// The content, once it is loaded, for changing it in place.
    pub fn content_mut(&mut self) -> (content: Option<&mut T>)
        ensures
            match content {
                Some(c) => old(self)@ == LoaderState::<T, E>::Loaded(*c) && final(self)@
                    == LoaderState::<T, E>::Loaded(*final(c)),
                None => !(old(self)@ is Loaded) && final(self)@ == old(self)@,
            },
    {
        match &mut self.state {
            LoaderState::Loaded(content) => Some(content),
            _ => None,
        }
    }

    /// Whether loading failed.
    pub fn is_error(&self) -> (failed: bool)
        ensures
            failed == (self@ is Error),
    {
        matches!(self.state, LoaderState::Error(_))
    }

    /// Whether the content is still being loaded.
    pub fn is_loading(&self) -> (loading: bool)
        ensures
            loading == (self@ is Loading),
    {
        matches!(self.state, LoaderState::Loading(_))
    }

    /// Why loading failed, if it did.
    pub fn error(&self) -> (error: Option<&E>)
        ensures
            match error {
                Some(e) => self@ == LoaderState::<T, E>::Error(*e),
                None => !(self@ is Error),
            },
    {
        match &self.state {
            LoaderState::Error(error) => Some(error),
            _ => None,
        }
    }

    /// A loader for content that exists already. No work is requested.
    pub fn new(content: T) -> (loader: Self)
        ensures
            loader@ == LoaderState::<T, E>::Loaded(content),
    {
        Self { state: LoaderState::Loaded(content) }
    }

    /// A loader for the content found at `path`. It starts out loading, with
    /// one request for a worker to take.
    pub fn load(path: PathBuf, ctx: Context, on_loaded_message: Entry, sender: AppMessageSender) -> (loader: Self)
        ensures
            loader@ == LoaderState::<T, E>::Loading(
                Some(LoadRequest { path, ctx, on_loaded_message, sender }),
            ),
    {
        Self { state: LoaderState::Loading(Some(LoadRequest { path, ctx, on_loaded_message, sender })) }
    }

    /// Hands the load request to the caller, who must have a worker carry it
    /// out. The request is handed out once; afterwards, and in every other
    /// state, there is none.
    pub fn start(&mut self) -> (request: Option<LoadRequest>)
        ensures
            request == started_request(old(self)@),
            final(self)@ == after_start(old(self)@),
    {
        match &mut self.state {
            LoaderState::Loading(request) => request.take(),
            _ => None,
        }
    }

    /// Takes note of the background work. `finished` is the outcome of the
    /// work if it has ended, `None` if it is still running. A loader that is
    /// loading moves to its final state when the work has ended; a loader in
    /// a final state stays as it is.
    pub fn update(&mut self, finished: Option<Result<T, E>>)
        ensures
            final(self)@ == after_update(old(self)@, finished),
    {
        match &self.state {
            LoaderState::Loading(_) => {
                match finished {
                    Some(Ok(content)) => {
                        self.state = LoaderState::Loaded(content);
                    },
                    Some(Err(error)) => {
                        self.state = LoaderState::Error(error);
                    },
                    None => {},
                }
            },
            _ => {},
        }
    }
}

} // verus!
