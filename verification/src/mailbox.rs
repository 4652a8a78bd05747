//! The mailbox: a queue through which workers and tabs send entries to the
//! loop that owns the workspace.
use crate::app::{AppMessage, MessageSource};
use egui::Context;
use egui_inbox::{SendError, UiInbox, UiInboxSender};
use vstd::prelude::*;

verus! {

#[verifier::external_type_specification]
#[verifier::external_body]
#[verifier::reject_recursive_types(T)]
pub struct ExUiInbox<T>(UiInbox<T>);

#[verifier::external_type_specification]
#[verifier::external_body]
#[verifier::reject_recursive_types(T)]
pub struct ExUiInboxSender<T>(UiInboxSender<T>);

#[verifier::external_type_specification]
#[verifier::external_body]
#[verifier::reject_recursive_types(T)]
pub struct ExSendError<T>(SendError<T>);

#[verifier::external_type_specification]
#[verifier::external_body]
pub struct ExContext(Context);

/// One entry of the mailbox: who sent it, and what it asks for.
pub type Entry = (MessageSource, AppMessage);

/// The sending end of the mailbox. It can be duplicated and handed to
/// workers on other threads.
pub type AppMessageSender = UiInboxSender<Entry>;

/// The receiving end of the mailbox.
pub type AppMessageReceiver = UiInbox<Entry>;

/// Why an entry could not be queued.
#[derive(Clone, Copy, Debug, PartialEq, Eq, Structural)]
pub enum MailboxError {
    /// The receiving end no longer exists.
    Closed,
}

/// `UiInbox::channel`: a new, empty queue with one sending end.
#[verifier::external_body]
fn inbox_channel() -> (ends: (AppMessageSender, AppMessageReceiver)) {
    UiInbox::channel()
}

/// `UiInboxSender::clone`: another sending end of the same queue. A sending
/// end is a shared pointer to its queue and nothing else, and the copy holds
/// the same pointer: it is the same value as `sender`.
#[verifier::external_body]
fn inbox_sender_clone(sender: &AppMessageSender) -> (copy: AppMessageSender)
    ensures
        copy == *sender,
{
    sender.clone()
}

/// `UiInboxSender::send`: queues `entry` behind the entries already queued
/// and asks for a repaint, unless the receiving end was dropped. Other
/// threads may use the queue at the same time, so nothing is stated of what
/// it holds.
#[verifier::external_body]
fn inbox_send(sender: &AppMessageSender, entry: Entry) -> (sent: Result<(), SendError<Entry>>) {
    sender.send(entry)
}

/// `UiInbox::read`: takes every queued entry out of the queue, oldest first.
/// Other threads may use the queue at the same time, so nothing is stated of
/// what comes out.
#[verifier::external_body]
fn inbox_read(receiver: &AppMessageReceiver, ctx: &Context) -> (entries: Vec<Entry>) {
    receiver.read(ctx).collect()
}

/// `Context::clone`: another handle to the same user-interface context. A
/// `Context` is a shared pointer and compares by identity, and the copy holds
/// the same pointer: it equals `ctx`.
#[verifier::external_body]
fn context_clone(ctx: &Context) -> (copy: Context)
    ensures
        copy == *ctx,
{
    ctx.clone()
}

/// Another handle to the user-interface context `ctx`: the same context.
pub fn clone_context(ctx: &Context) -> (copy: Context)
    ensures
        copy == *ctx,
{
    context_clone(ctx)
}

/// A new mailbox: its sending end and its receiving end.
pub fn channel() -> (ends: (AppMessageSender, AppMessageReceiver)) {
    inbox_channel()
}

/// Another sending end of the mailbox that `sender` belongs to: the same
/// sending end, to be handed to another owner.
pub fn clone_sender(sender: &AppMessageSender) -> (copy: AppMessageSender)
    ensures
        copy == *sender,
{
    inbox_sender_clone(sender)
}

/// Queues `entry`. Never blocks. Fails if the receiving end no longer
/// exists, in which case the entry is dropped.
pub fn send(sender: &AppMessageSender, entry: Entry) -> (sent: Result<(), MailboxError>) {
    sent_or_closed(inbox_send(sender, entry))
}

/// Takes all entries that were queued since the last drain, in the order in
/// which they arrived. Repaints that later entries ask for go to `ctx`.
pub fn drain(receiver: &AppMessageReceiver, ctx: &Context) -> (entries: Vec<Entry>) {
    inbox_read(receiver, ctx)
}

/// What `send` reports when the queue answers `result`: the entry is queued
/// if the queue took it; if the queue handed it back, the mailbox is closed.
pub fn sent_or_closed(result: Result<(), SendError<Entry>>) -> (sent: Result<(), MailboxError>)
    ensures
        match result {
            Ok(_) => sent is Ok,
            Err(_) => sent == Err::<(), MailboxError>(MailboxError::Closed),
        },
{
    match result {
        Ok(()) => Ok(()),
        Err(_) => Err(MailboxError::Closed),
    }
}

} // verus!
