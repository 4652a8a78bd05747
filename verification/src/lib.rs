//! The core of a tabbed document workspace.
//!
//! A docking layout shows tabs: a home tab, forms for new documents, and
//! tabs that show text or image documents. The layout belongs to the user
//! interface; this library keeps what stands behind it:
//!
//! - the tab registry, which stores the tabs under stable keys and is
//!   reconciled with the layout once per frame;
//! - the document registry, which owns the documents that tabs refer to by
//!   key;
//! - the content loader, the state machine between a document and the
//!   background work that fetches its content;
//! - the mailbox, through which workers and tabs reach the frame loop, and
//!   the dispatch of its entries;
//! - the work of a frame, from the entries of the mailbox to the requests
//!   that go back to the layout.
//!
//! The library draws nothing, starts no thread and touches no file. It says
//! what is to be done, and its caller does it.
pub mod app;
pub mod context;
pub mod documents;
pub mod mailbox;
pub mod paths;

pub use app::TemplateApp;
