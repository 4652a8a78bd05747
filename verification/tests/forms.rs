use std::path::PathBuf;
use tabbed_documents::app::app_tabs::new::{FormField, KindChoice, NewTab, NewTabForm, SubmitOutcome};
use tabbed_documents::app::tabs::{CloseOutcome, Tab, TabKey, TabLabel};
use tabbed_documents::app::{AppMessage, Config, MessageSource};
use tabbed_documents::context::TabContext;
use tabbed_documents::documents::Documents;
use tabbed_documents::mailbox::{channel, drain, AppMessageReceiver};

fn filled() -> NewTabForm {
    NewTabForm { name: "notes".to_string(), kind: Some(KindChoice::Text), directory: Some(PathBuf::from("/tmp")) }
}

fn context() -> (TabContext, AppMessageReceiver) {
    let (sender, receiver) = channel();
    (TabContext { config: Config::default(), sender, documents: Documents::new() }, receiver)
}

#[test]
fn an_empty_form_has_an_error_in_every_field() {
    let tab = NewTab::default();
    assert_eq!(tab.fields.field_error(FormField::Name), Some("form-new-name-error-length"));
    assert_eq!(tab.fields.field_error(FormField::Kind), Some("form-common-error-required"));
    assert_eq!(tab.fields.field_error(FormField::Directory), Some("form-common-error-required"));
    assert!(!tab.fields.validate());
    assert!(tab.fields.document_args().is_none());
}

#[test]
fn a_filled_form_is_valid() {
    let form = filled();
    assert_eq!(form.field_error(FormField::Name), None);
    assert_eq!(form.field_error(FormField::Kind), None);
    assert_eq!(form.field_error(FormField::Directory), None);
    assert!(form.validate());
    let args = form.document_args().expect("the form is valid");
    assert_eq!(args.name, "notes");
    assert_eq!(args.directory, PathBuf::from("/tmp"));
    assert_eq!(args.kind, KindChoice::Text);
}

#[test]
fn one_missing_field_makes_the_form_invalid() {
    let mut form = filled();
    form.name = String::new();
    assert_eq!(form.field_error(FormField::Name), Some("form-new-name-error-length"));
    assert_eq!(form.field_error(FormField::Kind), None);
    assert!(!form.validate());

    let mut form = filled();
    form.kind = None;
    assert_eq!(form.field_error(FormField::Kind), Some("form-common-error-required"));
    assert!(!form.validate());

    let mut form = filled();
    form.directory = None;
    assert_eq!(form.field_error(FormField::Directory), Some("form-common-error-required"));
    assert!(!form.validate());
    assert!(form.document_args().is_none());
}

#[test]
fn a_name_of_one_character_is_long_enough() {
    let mut form = filled();
    form.name = "é".to_string();
    assert_eq!(form.field_error(FormField::Name), None);
    assert!(form.validate());
}

#[test]
fn the_request_names_the_tab_as_its_source() {
    let tab = NewTab { fields: filled() };
    match tab.request(&TabKey(7)) {
        Some((MessageSource::Tab(key), AppMessage::CreateDocument(args))) => {
            assert_eq!(key, TabKey(7));
            assert_eq!(args.name, "notes");
            assert_eq!(args.directory, PathBuf::from("/tmp"));
            assert_eq!(args.kind, KindChoice::Text);
        },
        _ => panic!("a valid form makes a request"),
    }
    assert!(NewTab::default().request(&TabKey(7)).is_none());
}

#[test]
fn submitting_a_valid_form_queues_the_request() {
    let ctx = egui::Context::default();
    let (context, receiver) = context();
    let tab = NewTab { fields: filled() };
    assert_eq!(tab.on_submit(&TabKey(3), &context), SubmitOutcome::Sent);
    let entries = drain(&receiver, &ctx);
    assert_eq!(entries.len(), 1);
    assert_eq!(entries[0].0, MessageSource::Tab(TabKey(3)));
    assert!(matches!(&entries[0].1, AppMessage::CreateDocument(args) if args.name == "notes"));
}

#[test]
fn submitting_an_invalid_form_queues_nothing() {
    let ctx = egui::Context::default();
    let (context, receiver) = context();
    assert_eq!(NewTab::default().on_submit(&TabKey(3), &context), SubmitOutcome::Invalid);
    assert!(drain(&receiver, &ctx).is_empty());
}

#[test]
fn submitting_to_a_closed_mailbox_is_reported() {
    let (context, receiver) = context();
    drop(receiver);
    let tab = NewTab { fields: filled() };
    assert_eq!(tab.on_submit(&TabKey(3), &context), SubmitOutcome::MailboxClosed);
}

#[test]
fn the_form_tab_is_called_new_and_closes_freely() {
    let (mut context, _receiver) = context();
    let mut tab = NewTab::default();
    match tab.label() {
        TabLabel::Text(text) => assert_eq!(text, "New"),
        TabLabel::Message(id) => panic!("unexpected message {}", id),
    }
    assert_eq!(tab.on_close(&TabKey(1), &mut context), CloseOutcome::Close);
}
