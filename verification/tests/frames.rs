use std::path::PathBuf;
use tabbed_documents::app::app_tabs::document::DocumentTab;
use tabbed_documents::app::app_tabs::home::HomeTab;
use tabbed_documents::app::app_tabs::new::{KindChoice, NewTab, NewTabForm, SubmitOutcome};
use tabbed_documents::app::app_tabs::TabKind;
use tabbed_documents::app::frame::{ToolbarAction, ToolbarButton};
use tabbed_documents::app::layout::LayoutChange;
use tabbed_documents::app::tabs::{TabKey, Tabs};
use tabbed_documents::app::{AppMessage, Config, DispatchError, DocumentArgs, DocumentError, MessageSource, TemplateApp};
use tabbed_documents::documents::{DocumentKey, DocumentKind};
use tabbed_documents::mailbox::send;

fn texture(ctx: &egui::Context, url: &url::Url) -> egui::TextureHandle {
    ctx.load_texture(url.as_str(), egui::ColorImage::filled([2, 2], egui::Color32::RED), Default::default())
}

fn kinds(app: &TemplateApp) -> Vec<(TabKey, &'static str)> {
    app.tabs
        .iter()
        .into_iter()
        .map(|(key, tab)| {
            (
                key,
                match tab {
                    TabKind::Home(_) => "home",
                    TabKind::Document(_) => "document",
                    TabKind::New(_) => "new",
                },
            )
        })
        .collect()
}

fn text_args(name: &str) -> DocumentArgs {
    DocumentArgs { name: name.to_string(), directory: PathBuf::from("/tmp"), kind: KindChoice::Text }
}

fn title_of(app: &TemplateApp, key: TabKey) -> String {
    match app.tabs.get(&key) {
        Some(TabKind::Document(tab)) => tab.title.clone(),
        _ => panic!("a document tab is stored under the key"),
    }
}

#[test]
fn a_refresh_changes_nothing() {
    let ctx = egui::Context::default();
    let mut app = TemplateApp::default();
    let make = |url: &url::Url| texture(&ctx, url);
    assert_eq!(app.dispatch(&ctx, MessageSource::Document(DocumentKey::from_raw(1)), AppMessage::Refresh, &make), Ok(()));
    assert_eq!(app.dispatch(&ctx, MessageSource::Tab(TabKey(42)), AppMessage::Refresh, &make), Ok(()));
    assert_eq!(kinds(&app), vec![(TabKey(1), "home")]);
    assert_eq!(app.context.documents.len(), 0);
}

#[test]
fn a_create_request_replaces_the_tab_that_asked() {
    let ctx = egui::Context::default();
    let mut app = TemplateApp::default();
    let make = |url: &url::Url| texture(&ctx, url);
    let form = match app.add_new_tab() {
        LayoutChange::Push(key) => key,
        other => panic!("unexpected {:?}", other),
    };
    assert_eq!(app.dispatch(&ctx, MessageSource::Tab(form), AppMessage::CreateDocument(text_args("notes")), &make), Ok(()));
    assert_eq!(kinds(&app), vec![(TabKey(1), "home"), (form, "document")]);
    assert_eq!(title_of(&app, form), "notes.txt");
    assert_eq!(app.context.documents.len(), 1);
    let tab = match app.tabs.get(&form) {
        Some(TabKind::Document(tab)) => tab,
        _ => panic!("a document tab is stored"),
    };
    assert!(matches!(tab.document(&app.context), Some(DocumentKind::TextDocument(document)) if document.loader.content().is_some()));
}

#[test]
fn a_create_request_fails_without_changing_anything() {
    let ctx = egui::Context::default();
    let mut app = TemplateApp::default();
    let make = |url: &url::Url| texture(&ctx, url);
    assert_eq!(
        app.dispatch(&ctx, MessageSource::Tab(TabKey(9)), AppMessage::CreateDocument(text_args("notes")), &make),
        Err(DispatchError::UnknownTab)
    );
    assert_eq!(
        app.dispatch(&ctx, MessageSource::Document(DocumentKey::from_raw(1)), AppMessage::CreateDocument(text_args("notes")), &make),
        Err(DispatchError::UnexpectedSource)
    );
    let image = DocumentArgs { name: "drawing".to_string(), directory: PathBuf::from("relative"), kind: KindChoice::Image };
    assert_eq!(
        app.dispatch(&ctx, MessageSource::Tab(TabKey(1)), AppMessage::CreateDocument(image), &make),
        Err(DispatchError::Document(DocumentError::NoFileUrl))
    );
    assert_eq!(kinds(&app), vec![(TabKey(1), "home")]);
    assert_eq!(app.context.documents.len(), 0);
}

#[test]
fn entries_are_carried_out_in_order_until_one_fails() {
    let ctx = egui::Context::default();
    let mut app = TemplateApp::default();
    let make = |url: &url::Url| texture(&ctx, url);
    let entries = vec![
        (MessageSource::Tab(TabKey(1)), AppMessage::CreateDocument(text_args("first"))),
        (MessageSource::Document(DocumentKey::from_raw(1)), AppMessage::Refresh),
        (MessageSource::Tab(TabKey(1)), AppMessage::CreateDocument(text_args("second"))),
    ];
    assert_eq!(app.process_messages(&ctx, entries, &make), Ok(()));
    assert_eq!(title_of(&app, TabKey(1)), "second.txt");
    assert_eq!(app.context.documents.len(), 2);

    let entries = vec![
        (MessageSource::Tab(TabKey(1)), AppMessage::CreateDocument(text_args("third"))),
        (MessageSource::Tab(TabKey(8)), AppMessage::CreateDocument(text_args("lost"))),
        (MessageSource::Tab(TabKey(1)), AppMessage::CreateDocument(text_args("fourth"))),
    ];
    assert_eq!(app.process_messages(&ctx, entries, &make), Err(DispatchError::UnknownTab));
    assert_eq!(title_of(&app, TabKey(1)), "third.txt");
    assert_eq!(app.context.documents.len(), 3);
    assert_eq!(app.process_messages(&ctx, Vec::new(), &make), Ok(()));
}

#[test]
fn read_messages_takes_the_entries_from_the_mailbox() {
    let ctx = egui::Context::default();
    let mut app = TemplateApp::default();
    let make = |url: &url::Url| texture(&ctx, url);
    let form = match app.add_new_tab() {
        LayoutChange::Push(key) => key,
        other => panic!("unexpected {:?}", other),
    };
    let tab = NewTab {
        fields: NewTabForm { name: "notes".to_string(), kind: Some(KindChoice::Text), directory: Some(PathBuf::from("/tmp")) },
    };
    assert_eq!(tab.on_submit(&form, &app.context), SubmitOutcome::Sent);
    send(&app.state.sender, (MessageSource::Document(DocumentKey::from_raw(1)), AppMessage::Refresh)).expect("the mailbox is open");
    assert_eq!(app.read_messages(&ctx, &make), Ok(()));
    assert_eq!(kinds(&app), vec![(TabKey(1), "home"), (form, "document")]);
    assert_eq!(title_of(&app, form), "notes.txt");
    assert_eq!(app.read_messages(&ctx, &make), Ok(()));
    assert_eq!(app.context.documents.len(), 1);
}

#[test]
fn toolbar_buttons_lead_to_their_actions() {
    let mut app = TemplateApp::default();
    let layout = [TabKey(1)];
    assert_eq!(app.on_toolbar(ToolbarButton::Home, &layout), ToolbarAction::Change(LayoutChange::Activate(TabKey(1))));
    assert_eq!(app.on_toolbar(ToolbarButton::New, &layout), ToolbarAction::Change(LayoutChange::Push(TabKey(2))));
    assert_eq!(app.on_toolbar(ToolbarButton::Open, &layout), ToolbarAction::PickFile);
    assert_eq!(app.on_toolbar(ToolbarButton::CloseAll, &layout), ToolbarAction::Change(LayoutChange::Clear));
    assert_eq!(app.on_toolbar(ToolbarButton::Home, &[]), ToolbarAction::Change(LayoutChange::Push(TabKey(3))));
    assert_eq!(kinds(&app), vec![(TabKey(1), "home"), (TabKey(2), "new"), (TabKey(3), "home")]);
}

#[test]
fn clicks_see_what_the_clicks_before_them_asked_for() {
    let mut app = TemplateApp::default();
    let mut layout = vec![TabKey(1)];
    let actions = app.handle_clicks(
        &[ToolbarButton::CloseAll, ToolbarButton::Home, ToolbarButton::Home, ToolbarButton::Open, ToolbarButton::New],
        &mut layout,
    );
    assert_eq!(
        actions,
        vec![
            ToolbarAction::Change(LayoutChange::Clear),
            ToolbarAction::Change(LayoutChange::Push(TabKey(2))),
            ToolbarAction::Change(LayoutChange::Activate(TabKey(2))),
            ToolbarAction::PickFile,
            ToolbarAction::Change(LayoutChange::Push(TabKey(3))),
        ]
    );
    assert_eq!(layout, vec![TabKey(2), TabKey(3)]);
    assert_eq!(kinds(&app), vec![(TabKey(1), "home"), (TabKey(2), "home"), (TabKey(3), "new")]);
}

#[test]
fn startup_work_is_done_once() {
    let ctx = egui::Context::default();
    let entries = vec![
        (TabKey(1), TabKind::Home(HomeTab::default())),
        (TabKey(2), TabKind::Document(DocumentTab::new("a.txt".to_string(), PathBuf::from("/data/a.txt"), DocumentKey::from_raw(77)))),
    ];
    let mut app = TemplateApp::new(Some((Tabs::from_entries(2, entries), Config { show_home_tab_on_startup: false })));
    let mut layout = vec![TabKey(1), TabKey(2)];
    let (change, restored) = app.startup(&ctx, &mut layout);
    assert_eq!(change, Some(LayoutChange::Remove(TabKey(1))));
    assert_eq!(restored, vec![TabKey(2)]);
    assert_eq!(layout, vec![TabKey(2)]);
    assert!(app.state.startup_done);
    assert_eq!(app.context.documents.len(), 1);

    let (change, restored) = app.startup(&ctx, &mut layout);
    assert_eq!(change, None);
    assert_eq!(restored, Vec::<TabKey>::new());
    assert_eq!(layout, vec![TabKey(2)]);
    assert_eq!(app.context.documents.len(), 1);
}

#[test]
fn the_first_frame_starts_up_and_reconciles() {
    let ctx = egui::Context::default();
    let make = |url: &url::Url| texture(&ctx, url);
    let entries = vec![
        (TabKey(1), TabKind::Home(HomeTab::default())),
        (TabKey(2), TabKind::Document(DocumentTab::new("a.txt".to_string(), PathBuf::from("/data/a.txt"), DocumentKey::from_raw(77)))),
        (TabKey(3), TabKind::New(NewTab::default())),
    ];
    let mut app = TemplateApp::new(Some((Tabs::from_entries(3, entries), Config::default())));
    let frame = app.update(&ctx, &[TabKey(2), TabKey(1)], &[], &make).expect("no entry fails");
    assert_eq!(frame.actions, Vec::<ToolbarAction>::new());
    assert_eq!(frame.startup, Some(LayoutChange::Activate(TabKey(1))));
    assert_eq!(frame.restored, vec![TabKey(2)]);
    assert_eq!(frame.layout, vec![TabKey(2), TabKey(1)]);
    assert!(app.state.startup_done);
    assert_eq!(kinds(&app), vec![(TabKey(1), "home"), (TabKey(2), "document")]);
    assert_eq!(app.context.documents.len(), 1);

    let frame = app.update(&ctx, &[TabKey(2), TabKey(1)], &[], &make).expect("no entry fails");
    assert_eq!(frame.startup, None);
    assert_eq!(frame.restored, Vec::<TabKey>::new());
    assert_eq!(kinds(&app), vec![(TabKey(1), "home"), (TabKey(2), "document")]);
    assert_eq!(app.context.documents.len(), 1);
}

#[test]
fn a_frame_handles_entries_then_clicks_then_reconciles() {
    let ctx = egui::Context::default();
    let make = |url: &url::Url| texture(&ctx, url);
    let mut app = TemplateApp::default();
    let first = app.update(&ctx, &[TabKey(1)], &[ToolbarButton::New], &make).expect("no entry fails");
    assert_eq!(first.actions, vec![ToolbarAction::Change(LayoutChange::Push(TabKey(2)))]);
    assert_eq!(first.startup, Some(LayoutChange::Activate(TabKey(1))));
    assert_eq!(first.layout, vec![TabKey(1), TabKey(2)]);
    assert_eq!(kinds(&app), vec![(TabKey(1), "home"), (TabKey(2), "new")]);

    send(&app.state.sender, (MessageSource::Tab(TabKey(2)), AppMessage::CreateDocument(text_args("notes")))).expect("the mailbox is open");
    let second = app
        .update(&ctx, &[TabKey(1), TabKey(2)], &[ToolbarButton::Open, ToolbarButton::CloseAll, ToolbarButton::Home], &make)
        .expect("no entry fails");
    assert_eq!(
        second.actions,
        vec![
            ToolbarAction::PickFile,
            ToolbarAction::Change(LayoutChange::Clear),
            ToolbarAction::Change(LayoutChange::Push(TabKey(3))),
        ]
    );
    assert_eq!(second.startup, None);
    assert_eq!(second.layout, vec![TabKey(3)]);
    assert_eq!(kinds(&app), vec![(TabKey(3), "home")]);
    assert_eq!(app.context.documents.len(), 1);
}

#[test]
fn a_frame_ends_at_an_entry_that_fails() {
    let ctx = egui::Context::default();
    let make = |url: &url::Url| texture(&ctx, url);
    let mut app = TemplateApp::default();
    send(&app.state.sender, (MessageSource::Tab(TabKey(5)), AppMessage::CreateDocument(text_args("notes")))).expect("the mailbox is open");
    let outcome = app.update(&ctx, &[], &[ToolbarButton::New], &make);
    assert!(matches!(outcome, Err(DispatchError::UnknownTab)));
    assert!(!app.state.startup_done);
    assert_eq!(kinds(&app), vec![(TabKey(1), "home")]);
}

#[test]
fn tabs_that_the_layout_lost_are_removed_but_their_documents_stay() {
    let ctx = egui::Context::default();
    let mut app = TemplateApp::default();
    let tab_key = match app.open_file(&ctx, PathBuf::from("/home/user/notes.txt")) {
        Ok(LayoutChange::Push(key)) => key,
        other => panic!("unexpected {:?}", other),
    };
    app.cleanup_tabs(&[TabKey(1)]);
    assert!(app.tabs.get(&tab_key).is_none());
    assert_eq!(kinds(&app), vec![(TabKey(1), "home")]);
    assert_eq!(app.context.documents.len(), 1);
    app.cleanup_tabs(&[TabKey(1)]);
    assert_eq!(kinds(&app), vec![(TabKey(1), "home")]);
}

#[test]
fn a_frame_runs_on_the_entries_that_it_is_given() {
    let ctx = egui::Context::default();
    let make = |url: &url::Url| texture(&ctx, url);
    let mut app = TemplateApp::default();
    let entries = vec![(MessageSource::Tab(TabKey(1)), AppMessage::CreateDocument(text_args("given")))];
    let frame = app.run_frame(&ctx, entries, &[TabKey(1)], &[ToolbarButton::New], &make).expect("no entry fails");
    assert_eq!(frame.actions, vec![ToolbarAction::Change(LayoutChange::Push(TabKey(2)))]);
    assert_eq!(frame.startup, Some(LayoutChange::Push(TabKey(3))));
    assert_eq!(frame.restored, vec![TabKey(1)]);
    assert_eq!(frame.layout, vec![TabKey(1), TabKey(2), TabKey(3)]);
    assert_eq!(title_of(&app, TabKey(1)), "given.txt");
    assert_eq!(kinds(&app), vec![(TabKey(1), "document"), (TabKey(2), "new"), (TabKey(3), "home")]);
    assert_eq!(app.context.documents.len(), 2);
}
