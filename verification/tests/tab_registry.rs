use tabbed_documents::app::tabs::{AppTabViewer, CloseOutcome, Tab, TabKey, TabLabel, Tabs};
use tabbed_documents::app::app_tabs::home::HomeTab;
use tabbed_documents::app::app_tabs::TabKind;
use tabbed_documents::context::TabContext;

#[test]
fn new_registry_is_empty() {
    let tabs: Tabs<u32, ()> = Tabs::new();
    assert_eq!(tabs.ids(), Vec::<TabKey>::new());
    assert_eq!(tabs.next_id(), 0);
    assert_eq!(tabs.get(&TabKey(0)), None);
    assert_eq!(tabs.get(&TabKey(1)), None);
}

#[test]
fn add_returns_keys_that_resolve() {
    let mut tabs: Tabs<u32, ()> = Tabs::new();
    let first = tabs.add(10);
    let second = tabs.add(20);
    assert_ne!(first, second);
    assert_eq!(first, TabKey(1));
    assert_eq!(second, TabKey(2));
    assert_eq!(tabs.next_id(), 2);
    assert_eq!(tabs.get(&first), Some(&10));
    assert_eq!(tabs.get(&second), Some(&20));
    assert_eq!(tabs.get(&TabKey(3)), None);
}

#[test]
fn add_skips_keys_that_are_live() {
    let mut tabs: Tabs<u32, ()> = Tabs::from_entries(0, vec![(TabKey(1), 10), (TabKey(2), 20), (TabKey(4), 40)]);
    assert_eq!(tabs.add(30), TabKey(3));
    assert_eq!(tabs.add(50), TabKey(5));
    assert_eq!(tabs.ids(), vec![TabKey(1), TabKey(2), TabKey(3), TabKey(4), TabKey(5)]);
}

#[test]
fn add_wraps_around_past_the_largest_key() {
    let mut tabs: Tabs<u32, ()> = Tabs::from_entries(usize::MAX - 1, vec![(TabKey(0), 7)]);
    assert_eq!(tabs.add(1), TabKey(usize::MAX));
    assert_eq!(tabs.add(2), TabKey(1));
    assert_eq!(tabs.next_id(), 1);
    assert_eq!(tabs.get(&TabKey(0)), Some(&7));
    assert_eq!(tabs.get(&TabKey(usize::MAX)), Some(&1));
    assert_eq!(tabs.get(&TabKey(1)), Some(&2));
}

#[test]
fn get_mut_changes_the_tab_in_place() {
    let mut tabs: Tabs<u32, ()> = Tabs::new();
    let first = tabs.add(10);
    let second = tabs.add(20);
    match tabs.get_mut(&first) {
        Some(tab) => *tab = 11,
        None => panic!("the key is live"),
    }
    assert_eq!(tabs.get(&first), Some(&11));
    assert_eq!(tabs.get(&second), Some(&20));
    assert!(tabs.get_mut(&TabKey(9)).is_none());
}

#[test]
fn iter_yields_tabs_in_ascending_key_order() {
    let tabs: Tabs<u32, ()> = Tabs::from_entries(9, vec![(TabKey(5), 50), (TabKey(2), 20), (TabKey(8), 80)]);
    let entries = tabs.iter();
    assert_eq!(entries, vec![(TabKey(2), &20), (TabKey(5), &50), (TabKey(8), &80)]);
    assert_eq!(tabs.ids(), vec![TabKey(2), TabKey(5), TabKey(8)]);
}

#[test]
fn iter_mut_reaches_every_tab() {
    let mut tabs: Tabs<u32, ()> = Tabs::from_entries(9, vec![(TabKey(5), 50), (TabKey(2), 20), (TabKey(8), 80)]);
    let mut seen = Vec::new();
    for (key, tab) in tabs.iter_mut() {
        seen.push(key);
        *tab += key.0 as u32;
    }
    assert_eq!(seen, vec![TabKey(2), TabKey(5), TabKey(8)]);
    assert_eq!(tabs.iter(), vec![(TabKey(2), &22), (TabKey(5), &55), (TabKey(8), &88)]);
}

#[test]
fn from_entries_keeps_the_later_of_two_entries_with_one_key() {
    let tabs: Tabs<u32, ()> = Tabs::from_entries(3, vec![(TabKey(1), 10), (TabKey(1), 11)]);
    assert_eq!(tabs.iter(), vec![(TabKey(1), &11)]);
    assert_eq!(tabs.next_id(), 3);
}

#[test]
fn retain_all_removes_tabs_that_the_layout_lost() {
    let mut tabs: Tabs<u32, ()> = Tabs::new();
    let a = tabs.add(1);
    let b = tabs.add(2);
    let c = tabs.add(3);
    tabs.retain_all(&[c, a, TabKey(77)]);
    assert_eq!(tabs.ids(), vec![a, c]);
    assert_eq!(tabs.get(&b), None);
    assert_eq!(tabs.get(&a), Some(&1));
    assert_eq!(tabs.get(&c), Some(&3));
    assert_eq!(tabs.next_id(), 3);
}

#[test]
fn retain_all_with_no_keys_empties_the_registry() {
    let mut tabs: Tabs<u32, ()> = Tabs::new();
    tabs.add(1);
    tabs.add(2);
    tabs.retain_all(&[]);
    assert_eq!(tabs.ids(), Vec::<TabKey>::new());
}

#[test]
fn reconciling_twice_changes_nothing_the_second_time() {
    let mut tabs: Tabs<u32, ()> = Tabs::new();
    let a = tabs.add(1);
    let _b = tabs.add(2);
    let c = tabs.add(3);
    let live = [a, c];
    tabs.retain_all(&live);
    let once: Vec<(TabKey, u32)> = tabs.iter().into_iter().map(|(key, tab)| (key, *tab)).collect();
    tabs.retain_all(&live);
    let twice: Vec<(TabKey, u32)> = tabs.iter().into_iter().map(|(key, tab)| (key, *tab)).collect();
    assert_eq!(once, twice);
    assert_eq!(twice, vec![(a, 1), (c, 3)]);
}

#[test]
fn keys_resolve_until_removed_and_never_after() {
    let mut tabs: Tabs<&'static str, ()> = Tabs::new();
    let a = tabs.add("a");
    let b = tabs.add("b");
    assert_eq!(tabs.get(&a), Some(&"a"));
    assert_eq!(tabs.get(&b), Some(&"b"));
    let c = tabs.add("c");
    assert_eq!(tabs.get(&a), Some(&"a"));
    tabs.retain_all(&[b, c]);
    assert_eq!(tabs.get(&a), None);
    let d = tabs.add("d");
    assert_ne!(d, a);
    assert_eq!(tabs.get(&a), None);
    assert_eq!(tabs.get(&b), Some(&"b"));
    assert_eq!(tabs.get(&d), Some(&"d"));
    tabs.retain_all(&[d]);
    assert_eq!(tabs.get(&b), None);
    assert_eq!(tabs.get(&c), None);
    assert_eq!(tabs.get(&d), Some(&"d"));
}

fn empty_context() -> TabContext {
    let (sender, _receiver) = tabbed_documents::mailbox::channel();
    TabContext {
        config: tabbed_documents::app::Config::default(),
        sender,
        documents: tabbed_documents::documents::Documents::new(),
    }
}

#[test]
fn close_removes_a_tab_that_agrees() {
    let mut tabs: Tabs<TabKind, TabContext> = Tabs::new();
    let home = tabs.add(TabKind::Home(HomeTab::default()));
    let other = tabs.add(TabKind::Home(HomeTab::default()));
    let mut context = empty_context();
    assert_eq!(tabs.close(&home, &mut context), CloseOutcome::Close);
    assert!(tabs.get(&home).is_none());
    assert!(tabs.get(&other).is_some());
    assert_eq!(tabs.ids(), vec![other]);
}

#[test]
fn title_is_the_label_of_the_tab() {
    let mut tabs: Tabs<TabKind, TabContext> = Tabs::new();
    let home = tabs.add(TabKind::Home(HomeTab::default()));
    match tabs.title(&home) {
        TabLabel::Message(id) => assert_eq!(id, "home-tab-label"),
        TabLabel::Text(text) => panic!("unexpected text {}", text),
    }
    match HomeTab::default().label() {
        TabLabel::Message(id) => assert_eq!(id, "home-tab-label"),
        TabLabel::Text(text) => panic!("unexpected text {}", text),
    }
}

#[test]
fn the_viewer_titles_and_closes_tabs() {
    let mut tabs: Tabs<TabKind, TabContext> = Tabs::new();
    let home = tabs.add(TabKind::Home(HomeTab::default()));
    let other = tabs.add(TabKind::Home(HomeTab::default()));
    let mut context = empty_context();
    let viewer = AppTabViewer { tabs: &mut tabs, context: &mut context };
    assert!(matches!(viewer.title(&home), TabLabel::Message(id) if id == "home-tab-label"));
    assert_eq!(viewer.on_close(&home), CloseOutcome::Close);
    assert_eq!(tabs.ids(), vec![other]);
}
