use embedded_multi_page_hmi::page::{BasicPage, MenuPage, ShutdownPage, StartupPage, TextPage};
use embedded_multi_page_hmi::{
    Interaction, PageBaseInterface, PageError, PageInteractionInterface, PageInterface,
    PageManager, PageNavigation,
};
use embedded_multi_page_hmi::map_interaction_to_navigation;
use std::cell::RefCell;
use std::rc::Rc;

/// A display driver that records everything rendered to it, readable from
/// outside the manager.
#[derive(Clone)]
struct Recorder(Rc<RefCell<Vec<String>>>);

fn recorder() -> Recorder {
    Recorder(Rc::new(RefCell::new(Vec::new())))
}

impl PageInterface<Recorder> for TextPage {
    fn display(&self, display_driver: &mut Recorder) {
        display_driver.0.borrow_mut().push(self.text.to_string());
    }
}

impl PageInterface<Recorder> for StartupPage {
    fn display(&self, display_driver: &mut Recorder) {
        display_driver.0.borrow_mut().push(self.0.text.to_string());
    }
}

impl PageInterface<Recorder> for ShutdownPage {
    fn display(&self, display_driver: &mut Recorder) {
        display_driver.0.borrow_mut().push(self.0.text.to_string());
    }
}

fn text_page(title: &'static str) -> TextPage {
    TextPage::new(BasicPage::new(title, None), title)
}

#[test]
fn end_to_end_home_then_lefts_then_rights() {
    // A row registered as Home, foo, bar, baz. Going home lands on the
    // rightmost root sibling; Left walks back through the row and wraps
    // around at its end; Right stops at the end of the row.
    let log = recorder();
    let mut m = PageManager::new(log.clone(), Box::new(text_page("Home")));
    m.register(Box::new(text_page("foo")));
    m.register(Box::new(text_page("bar")));
    m.register(Box::new(text_page("baz")));

    m.dispatch(PageNavigation::Home).unwrap();
    for _ in 0..3 {
        m.dispatch(PageNavigation::Left).unwrap();
    }
    for _ in 0..4 {
        m.dispatch(PageNavigation::Right).unwrap();
    }
    for _ in 0..4 {
        m.dispatch(PageNavigation::Left).unwrap();
    }

    let expected = vec![
        "Home", "foo", "bar", "baz", "bar", "foo", "Home", "Home", "foo", "bar", "baz", "Home",
    ];
    assert_eq!(*log.0.borrow(), expected);
}

#[test]
fn startup_page_hands_over_to_home_when_its_lifetime_ends() {
    let mut m = PageManager::new(recorder(), Box::new(StartupPage::new("Home", 100)));
    m.register_startup(Box::new(StartupPage::new("Welcome", 2)));

    // while the startup lifetime runs, starting answers SystemStart again
    let first = m.dispatch(PageNavigation::SystemStart).unwrap();
    assert_eq!(first, PageNavigation::SystemStart);
    // once the lifetime is over the startup page hands over to home
    let second = m.dispatch(PageNavigation::SystemStart).unwrap();
    assert_eq!(second, PageNavigation::Home);
}

#[test]
fn shutdown_page_lifetime_ends_the_run() {
    let mut m = PageManager::new(
        recorder(),
        Box::new(ShutdownPage::new("active", 100)),
    );
    m.register_shutdown(Box::new(ShutdownPage::new("Bye", 2)));

    // the first stop request shows the shutdown page and succeeds
    let first = m.dispatch(PageNavigation::SystemStop);
    assert_eq!(first.unwrap(), PageNavigation::SystemStop);
    // the second one finds the lifetime exhausted: the error that tells
    // the run loop to end
    let second: Result<PageNavigation, PageError> = m.dispatch(PageNavigation::SystemStop);
    assert!(second.is_err());
}

#[test]
fn stopping_without_a_shutdown_page_reports_the_stop() {
    let mut m = PageManager::new(recorder(), Box::new(text_page("Home")));
    let r = m.dispatch(PageNavigation::SystemStop).unwrap();
    assert_eq!(r, PageNavigation::SystemStop);
}

#[test]
fn activate_down_and_up_bool_returns() {
    let mut m = PageManager::new(recorder(), Box::new(text_page("Home")));
    assert!(!m.activate_down(), "no children yet");
    assert!(!m.activate_up(), "already at the top");
    m.register_sub(Box::new(text_page("child")));
    assert!(m.activate_up(), "expected ascent to Home");
    assert!(m.activate_down(), "expected descent to child");
    assert!(!m.activate_down(), "the child has no children");
}

/// A page set of two kinds, as an embedding application would define it.
enum DemoPage<'a> {
    Text(TextPage),
    Menu(MenuPage<'a>),
}

impl<'a> PageBaseInterface for DemoPage<'a> {
    fn update(
        &mut self,
        title_of_subpages: Option<&Vec<String>>,
    ) -> Result<PageNavigation, PageError> {
        match self {
            DemoPage::Text(p) => p.update(title_of_subpages),
            DemoPage::Menu(p) => p.update(title_of_subpages),
        }
    }

    fn title(&self) -> &str {
        match self {
            DemoPage::Text(p) => p.title(),
            DemoPage::Menu(p) => p.title(),
        }
    }
}

impl<'a> PageInteractionInterface for DemoPage<'a> {
    fn dispatch(&mut self, interaction: Interaction) -> PageNavigation {
        match self {
            DemoPage::Text(p) => p.dispatch(interaction),
            DemoPage::Menu(p) => p.dispatch(interaction),
        }
    }
}

impl<'a> PageInterface<Vec<String>> for DemoPage<'a> {
    fn display(&self, display_driver: &mut Vec<String>) {
        match self {
            DemoPage::Text(p) => display_driver.push(p.text.to_string()),
            DemoPage::Menu(p) => display_driver.push(p.sub_titles.clone()),
        }
    }
}

#[test]
fn menu_page_renders_the_titles_of_its_children() {
    let menu = MenuPage::new(BasicPage::new("Main", None), None);
    let mut m = PageManager::new(Vec::new(), DemoPage::Menu(menu));
    m.register_sub(DemoPage::Text(text_page("foo")));
    m.register(DemoPage::Text(text_page("bar")));

    // go back to the menu and tick it: the label list holds both children,
    // with the selected first entry bracketed
    m.dispatch(PageNavigation::Home).unwrap();
    // the menu was rendered once for the Home dispatch; the children were
    // collected in registration order
    m.update().unwrap();

    // descending by interaction reaches the first child
    let r = m.dispatch_interaction(Interaction::Action).unwrap();
    assert_eq!(r, PageNavigation::Update);
}

#[test]
fn map_interaction_follows_the_default_table() {
    assert_eq!(
        map_interaction_to_navigation(Interaction::Action),
        PageNavigation::Update
    );
    assert_eq!(
        map_interaction_to_navigation(Interaction::Next),
        PageNavigation::Left
    );
    assert_eq!(
        map_interaction_to_navigation(Interaction::Previous),
        PageNavigation::Right
    );
    assert_eq!(
        map_interaction_to_navigation(Interaction::Back),
        PageNavigation::Up
    );
    assert_eq!(
        map_interaction_to_navigation(Interaction::Home),
        PageNavigation::Home
    );
}
