use tasknet::client::{
    account_label, connection_label, titlebar_buttons, update, Action, Model, Msg, NavTarget, Page,
    SocketState, Urls,
};
use tasknet::document::Document;
use tasknet::task::{Id, Status, Task};
use tasknet::time::DateTime;

fn parts(v: &[&str]) -> Vec<String> {
    v.iter().map(|s| s.to_string()).collect()
}

fn document_with(id: Id) -> Document {
    let mut d = Document::new();
    d.update_task(Task::new_at(id, DateTime(0)));
    d
}

#[test]
fn urls_of_the_pages() {
    assert!(Urls::home().is_empty());
    assert_eq!(Urls::auth(), parts(&["auth"]));
    let id = Id(0x67e5_5044_10b1_426f_9247_bb68_0e5f_e0c8);
    assert_eq!(Urls::view_task(&id), parts(&["view", "67e55044-10b1-426f-9247-bb680e5fe0c8"]));
}

#[test]
fn page_init_routes_hash_paths() {
    let id = Id(42);
    let d = document_with(id);
    assert_eq!(Page::init(&Urls::view_task(&id), &d), Page::ViewTask(id));
    assert_eq!(Page::init(&Urls::view_task(&Id(43)), &d), Page::Home);
    assert_eq!(Page::init(&parts(&["view"]), &d), Page::Home);
    assert_eq!(Page::init(&parts(&["view", "not-an-id"]), &d), Page::Home);
    assert_eq!(Page::init(&parts(&["auth"]), &d), Page::Auth);
    assert_eq!(Page::init(&parts(&["auth", "more"]), &d), Page::Auth);
    assert_eq!(Page::init(&parts(&["settings"]), &d), Page::Settings);
    assert_eq!(Page::init(&Urls::settings(), &d), Page::Settings);
    assert_eq!(Page::init(&parts(&["other"]), &d), Page::Home);
    assert_eq!(Page::init(&[], &d), Page::Home);
}

fn navigated(a: Action) -> Vec<String> {
    match a {
        Action::Navigate(p) => p,
        _ => panic!("expected navigation"),
    }
}

#[test]
fn navigation_messages() {
    let mut m = Model { page: Page::Home, reconnecting: false };
    let mut d = Document::new();
    assert!(navigated(update(Msg::SelectTask(None), &mut m, &mut d)).is_empty());
    assert_eq!(navigated(update(Msg::SelectTask(Some(Id(7))), &mut m, &mut d)), Urls::view_task(&Id(7)));
    assert_eq!(navigated(update(Msg::GoAuth, &mut m, &mut d)), parts(&["auth"]));
    assert_eq!(navigated(update(Msg::GoSettings, &mut m, &mut d)), parts(&["settings"]));
    assert!(matches!(update(Msg::OnRenderTick, &mut m, &mut d), Action::Nothing));
    assert_eq!(d.tasks().len(), 0);
}

#[test]
fn create_task_adds_and_shows_it() {
    let mut m = Model { page: Page::Home, reconnecting: false };
    let mut d = Document::new();
    let url = navigated(update(Msg::CreateTask, &mut m, &mut d));
    assert_eq!(d.tasks().len(), 1);
    let id = *d.tasks()[0].id();
    assert_eq!((id.0 >> 76) & 0xf, 4);
    assert_eq!(url, Urls::view_task(&id));
    assert!(matches!(update(Msg::UrlChanged(url), &mut m, &mut d), Action::Nothing));
    assert_eq!(m.page, Page::ViewTask(id));
}

#[test]
fn recur_tick_spawns_children() {
    let mut m = Model { page: Page::Home, reconnecting: false };
    let mut d = Document::new();
    let mut t = Task::new_at(Id(1), DateTime(0));
    t.set_recur(Some(tasknet::task::Recur { amount: 1, unit: tasknet::task::RecurUnit::Day }));
    d.update_task(t);
    assert!(matches!(update(Msg::OnRecurTick, &mut m, &mut d), Action::Nothing));
    assert_eq!(d.tasks().len(), 2);
    let child = d.tasks().iter().find(|t| *t.id() != Id(1)).unwrap();
    assert_eq!(*child.parent(), Some(Id(1)));
    assert_eq!(*child.status(), Status::Pending);
}

#[test]
fn reconnection_starts_once() {
    let mut m = Model { page: Page::Home, reconnecting: false };
    let mut d = Document::new();
    assert!(matches!(update(Msg::WebSocketClosed { was_clean: true }, &mut m, &mut d), Action::Nothing));
    assert!(!m.reconnecting);
    assert!(matches!(
        update(Msg::WebSocketClosed { was_clean: false }, &mut m, &mut d),
        Action::StartReconnecting
    ));
    assert!(m.reconnecting);
    assert!(matches!(update(Msg::WebSocketFailed, &mut m, &mut d), Action::Nothing));
    assert!(matches!(update(Msg::ReconnectWebSocket, &mut m, &mut d), Action::Reconnect));
    assert!(matches!(update(Msg::WebSocketOpened, &mut m, &mut d), Action::Nothing));
    assert!(!m.reconnecting);
    assert!(matches!(update(Msg::WebSocketFailed, &mut m, &mut d), Action::StartReconnecting));
}

#[test]
fn title_bar_labels() {
    assert_eq!(connection_label(SocketState::Connecting), "Connecting");
    assert_eq!(connection_label(SocketState::Open), "Connected");
    assert_eq!(connection_label(SocketState::Closing), "Disconnected");
    assert_eq!(connection_label(SocketState::Closed), "Disconnected");
    assert_eq!(account_label(true), "Account");
    assert_eq!(account_label(false), "Sign in");
}

#[test]
fn auth_links_go_to_the_server() {
    assert!(tasknet::client::is_auth_request(&parts(&["auth", "google"])));
    assert!(!tasknet::client::is_auth_request(&parts(&["view"])));
    assert!(!tasknet::client::is_auth_request(&[]));
}

#[test]
fn title_bar_buttons_signed_out_and_in() {
    let out = titlebar_buttons(false, SocketState::Open);
    let labels: Vec<&str> = out.iter().map(|b| b.label).collect();
    assert_eq!(labels, vec!["Sign in before syncing", "Sign in", "Settings", "Create"]);
    assert!(out[0].disabled);
    assert!(!out[1].disabled && !out[2].disabled && !out[3].disabled);
    assert_eq!(out[0].target, NavTarget::Reconnect);
    assert_eq!(out[2].target, NavTarget::Settings);
    assert!(matches!(out[2].target.msg(), Msg::GoSettings));
    assert!(matches!(out[3].target.msg(), Msg::CreateTask));
    let inn = titlebar_buttons(true, SocketState::Connecting);
    let labels: Vec<&str> = inn.iter().map(|b| b.label).collect();
    assert_eq!(labels, vec!["Connecting", "Account", "Settings", "Create"]);
    assert!(!inn[0].disabled);
}
