//! The tab with the form for a new document.
use crate::app::tabs::{CloseOutcome, Tab, TabKey, TabLabel, TabLabelView};
use crate::app::{AppMessage, DocumentArgs, MessageSource};
use crate::context::TabContext;
use crate::mailbox::{send, Entry};
use crate::paths::path_clone;
use std::path::PathBuf;
use validator::{ValidateLength, ValidateRequired};
use vstd::prelude::*;

verus! {

/// The least number of characters that the name of a document has.
pub const NAME_MIN_LENGTH: u64 = 1;

/// The kinds of document that the form can create.
#[derive(Clone, Copy, Debug, PartialEq, Eq, Structural)]
pub enum KindChoice {
    Text,
    Image,
}

/// The fields of the form.
#[derive(Clone, Copy, Debug, PartialEq, Eq, Structural)]
pub enum FormField {
    Name,
    Kind,
    Directory,
}

/// What the user has entered into the form.
pub struct NewTabForm {
    /// The name of the document, without extension. It must not be empty.
    pub name: String,
    /// The kind of document. It must be chosen.
    pub kind: Option<KindChoice>,
    /// The directory that the document goes to. It must be chosen.
    pub directory: Option<PathBuf>,
}

/// What became of a submitted form.
#[derive(Clone, Copy, Debug, PartialEq, Eq, Structural)]
pub enum SubmitOutcome {
    /// A field of the form is not filled in as it must be. Nothing was sent.
    Invalid,
    /// The request to create the document is in the mailbox.
    Sent,
    /// The mailbox has no receiving end any more. Nothing was sent.
    MailboxClosed,
}

/// `ValidateLength::validate_length` of a `String`, with a minimum only:
/// whether the text has at least `min` characters.
#[verifier::external_body]
fn text_has_length(text: &String, min: u64) -> (valid: bool)
    ensures
        valid == (text@.len() >= min),
{
    text.validate_length(Some(min), None, None)
}

/// `ValidateRequired::validate_required` of an `Option`: whether a value is
/// there.
#[verifier::external_body]
fn value_is_given<T>(value: &Option<T>) -> (valid: bool)
    ensures
        valid == (*value is Some),
{
    value.validate_required()
}

/// The identifier of the message that tells the user what is wrong with
/// `field` when its value is not acceptable.
pub open spec fn error_code_of(field: FormField) -> Seq<char> {
    match field {
        FormField::Name => "form-new-name-error-length"@,
        FormField::Kind => "form-common-error-required"@,
        FormField::Directory => "form-common-error-required"@,
    }
}

impl NewTabForm {
    /// Whether the value of `field` is acceptable.
    pub open spec fn accepts(&self, field: FormField) -> bool {
        match field {
            FormField::Name => self.name@.len() >= NAME_MIN_LENGTH,
            FormField::Kind => self.kind is Some,
            FormField::Directory => self.directory is Some,
        }
    }

    /// Whether every field is acceptable.
    pub open spec fn valid(&self) -> bool {
        self.accepts(FormField::Name) && self.accepts(FormField::Kind) && self.accepts(
            FormField::Directory,
        )
    }

    /// The message identifier of the error in `field`, if the value of the
    /// field is not acceptable.
    pub fn field_error(&self, field: FormField) -> (code: Option<&'static str>)
        ensures
            match code {
                Some(c) => !self.accepts(field) && c@ == error_code_of(field),
                None => self.accepts(field),
            },
    {
        match field {
            FormField::Name => {
                if text_has_length(&self.name, NAME_MIN_LENGTH) {
                    None
                } else {
                    Some("form-new-name-error-length")
                }
            },
            FormField::Kind => {
                if value_is_given(&self.kind) {
                    None
                } else {
                    Some("form-common-error-required")
                }
            },
            FormField::Directory => {
                if value_is_given(&self.directory) {
                    None
                } else {
                    Some("form-common-error-required")
                }
            },
        }
    }

    /// Whether every field is acceptable.
    pub fn validate(&self) -> (valid: bool)
        ensures
            valid == self.valid(),
    {
        self.field_error(FormField::Name).is_none() && self.field_error(FormField::Kind).is_none()
            && self.field_error(FormField::Directory).is_none()
    }

    /// What is needed to create the document that the form describes, if
    /// every field is acceptable.
    pub fn document_args(&self) -> (args: Option<DocumentArgs>)
        ensures
            match args {
                Some(a) => self.valid() && a.name == self.name && Some(a.directory) == self.directory
                    && Some(a.kind) == self.kind,
                None => !self.valid(),
            },
    {
        if !self.validate() {
            return None;
        }
        match (&self.kind, &self.directory) {
            (Some(kind), Some(directory)) => Some(
                DocumentArgs { name: self.name.clone(), directory: path_clone(directory), kind: *kind },
            ),
            _ => None,
        }
    }
}

/// The tab with the form for a new document.
pub struct NewTab {
    pub fields: NewTabForm,
}

impl Default for NewTab {
    fn default() -> (tab: Self)
        ensures
            tab.fields.name@.len() == 0,
            tab.fields.kind is None,
            tab.fields.directory is None,
    {
        NewTab { fields: NewTabForm { name: String::new(), kind: None, directory: None } }
    }
}

impl NewTab {
    /// The mailbox entry that asks the application to create the document
    /// that the form describes and to show it in place of this tab, which is
    /// stored under `tab_key`. There is none while a field is not acceptable.
    pub fn request(&self, tab_key: &TabKey) -> (entry: Option<Entry>)
        ensures
            match entry {
                Some(e) => {
                    &&& self.fields.valid()
                    &&& e.0 == MessageSource::Tab(*tab_key)
                    &&& e.1 matches AppMessage::CreateDocument(a)
                    &&& a.name == self.fields.name
                    &&& Some(a.directory) == self.fields.directory
                    &&& Some(a.kind) == self.fields.kind
                },
                None => !self.fields.valid(),
            },
    {
        match self.fields.document_args() {
            Some(args) => Some((MessageSource::Tab(*tab_key), AppMessage::CreateDocument(args))),
            None => None,
        }
    }

    /// Submits the form: if every field is acceptable, sends the request to
    /// create the document to the mailbox.
    pub fn on_submit(&self, tab_key: &TabKey, context: &TabContext) -> (outcome: SubmitOutcome)
        ensures
            outcome == SubmitOutcome::Invalid <==> !self.fields.valid(),
    {
        match self.request(tab_key) {
            Some(entry) => {
                match send(&context.sender, entry) {
                    Ok(()) => SubmitOutcome::Sent,
                    Err(_) => SubmitOutcome::MailboxClosed,
                }
            },
            None => SubmitOutcome::Invalid,
        }
    }
}

impl Tab for NewTab {
    type Context = TabContext;

    open spec fn title(&self) -> TabLabelView {
        TabLabelView::Text("New"@)
    }

    open spec fn closes_to(
        &self,
        tab_key: TabKey,
        context: TabContext,
        tab_after: Self,
        context_after: TabContext,
        outcome: CloseOutcome,
    ) -> bool {
        outcome == CloseOutcome::Close && tab_after == *self && context_after == context
    }

    fn label(&self) -> (label: TabLabel) {
        TabLabel::Text("New".to_owned())
    }

    fn on_close(&mut self, _tab_key: &TabKey, _context: &mut TabContext) -> (outcome: CloseOutcome) {
        CloseOutcome::Close
    }
}

} // verus!
