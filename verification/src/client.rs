//! The web client's top level: which page a URL shows, the URLs of the
//! pages, and how the client reacts to navigation, to its recurrence timer
//! and to its sync connection opening, closing and failing. Talking to the
//! browser and to the server is left to the caller, which performs the
//! action each message gives.
use vstd::prelude::*;

use crate::document::{tick_safe, due_ids, insert_all, spawned, Document};
use crate::task::{is_v4_uuid, parsed_uuid, uuid_text, Id, TaskModel};
use crate::text::{same_text, strings_view};
use crate::time::DateTime;

verus! {

/// The pages of the client.
#[derive(Clone, Copy, Debug, PartialEq, Eq, Structural)]
pub enum Page {
    Home,
    ViewTask(Id),
    Auth,
    Settings,
}

/// The hash path part that leads to a task's page.
pub open spec fn view_part() -> Seq<char> {
    seq!['v', 'i', 'e', 'w']
}

/// The hash path part that leads to the sign-in page.
pub open spec fn auth_part() -> Seq<char> {
    seq!['a', 'u', 't', 'h']
}

/// The hash path part that leads to the settings page.
pub open spec fn settings_part() -> Seq<char> {
    seq!['s', 'e', 't', 't', 'i', 'n', 'g', 's']
}

/// The page a URL with hash path `parts` shows: `view/<id>` shows the task
/// with that identifier if the document holds it, `auth` the sign-in page,
/// `settings` the settings page, anything else the task list. Parts after
/// those are not looked at.
pub open spec fn page_for(parts: Seq<Seq<char>>, tasks: Map<Id, TaskModel>) -> Page {
    if parts.len() >= 1 && parts[0] == view_part() {
        if parts.len() >= 2 {
            match parsed_uuid(parts[1]) {
                Some(v) => if tasks.contains_key(Id(v)) {
                    Page::ViewTask(Id(v))
                } else {
                    Page::Home
                },
                None => Page::Home,
            }
        } else {
            Page::Home
        }
    } else if parts.len() >= 1 && parts[0] == auth_part() {
        Page::Auth
    } else if parts.len() >= 1 && parts[0] == settings_part() {
        Page::Settings
    } else {
        Page::Home
    }
}

proof fn lemma_part_literals()
    ensures
        "view"@ == view_part(),
        "auth"@ == auth_part(),
        "settings"@ == settings_part(),
{
    reveal_strlit("view");
    reveal_strlit("auth");
    reveal_strlit("settings");
    assert("view"@ =~= view_part());
    assert("auth"@ =~= auth_part());
    assert("settings"@ =~= settings_part());
}

impl Page {
    /// The page a URL with hash path `parts` shows.
    pub fn init(parts: &[String], document: &Document) -> (p: Page)
        ensures
            p == page_for(strings_view(parts@), document@),
    {
        proof {
            lemma_part_literals();
        }
        if parts.len() >= 1 && same_text(parts[0].as_str(), "view") {
            if parts.len() >= 2 {
                match Id::from_str(parts[1].as_str()) {
                    Ok(id) => if document.get_task(&id).is_some() {
                        Page::ViewTask(id)
                    } else {
                        Page::Home
                    },
                    Err(_) => Page::Home,
                }
            } else {
                Page::Home
            }
        } else if parts.len() >= 1 && same_text(parts[0].as_str(), "auth") {
            Page::Auth
        } else if parts.len() >= 1 && same_text(parts[0].as_str(), "settings") {
            Page::Settings
        } else {
            Page::Home
        }
    }
}

/// Whether a link to the URL with path `path` is left to the browser: the
/// sign-in flow under `auth` is served by the server, not by the client.
pub fn is_auth_request(path: &[String]) -> (r: bool)
    ensures
        r == (path@.len() >= 1 && path@[0]@ == auth_part()),
{
    proof {
        lemma_part_literals();
    }
    path.len() >= 1 && same_text(path[0].as_str(), "auth")
}

/// The hash paths of the client's pages.
pub struct Urls;

/// The hash path of a task's page.
pub open spec fn task_url(id: Id) -> Seq<Seq<char>> {
    seq![view_part(), uuid_text(id.0)]
}

impl Urls {
    /// The task list: the empty hash path.
    pub fn home() -> (r: Vec<String>)
        ensures
            strings_view(r@) == Seq::<Seq<char>>::empty(),
    {
        let r: Vec<String> = Vec::new();
        assert(strings_view(r@) =~= Seq::<Seq<char>>::empty());
        r
    }

    /// The sign-in page: `auth`.
    pub fn auth() -> (r: Vec<String>)
        ensures
            strings_view(r@) == seq![auth_part()],
    {
        proof {
            lemma_part_literals();
        }
        let mut r: Vec<String> = Vec::new();
        r.push("auth".to_owned());
        assert(strings_view(r@) =~= seq![auth_part()]);
        r
    }

    /// The settings page: `settings`.
    pub fn settings() -> (r: Vec<String>)
        ensures
            strings_view(r@) == seq![settings_part()],
    {
        proof {
            lemma_part_literals();
        }
        let mut r: Vec<String> = Vec::new();
        r.push("settings".to_owned());
        assert(strings_view(r@) =~= seq![settings_part()]);
        r
    }

    /// A task's page: `view/<id>`; the identifier's text reads back as it.
    pub fn view_task(id: &Id) -> (r: Vec<String>)
        ensures
            strings_view(r@) == task_url(*id),
            parsed_uuid(uuid_text(id.0)) == Some(id.0),
    {
        proof {
            lemma_part_literals();
        }
        let mut r: Vec<String> = Vec::new();
        r.push("view".to_owned());
        r.push(id.to_string());
        assert(strings_view(r@) =~= task_url(*id));
        r
    }
}

/// Law: a task's URL shows that task's page while the document holds the
/// task, and the task list once it does not; the empty path shows the task
/// list, `auth` the sign-in page and `settings` the settings page.
pub proof fn law_urls_route(id: Id, tasks: Map<Id, TaskModel>)
    requires
        parsed_uuid(uuid_text(id.0)) == Some(id.0),
    ensures
        tasks.contains_key(id) ==> page_for(task_url(id), tasks) == Page::ViewTask(id),
        !tasks.contains_key(id) ==> page_for(task_url(id), tasks) == Page::Home,
        page_for(Seq::<Seq<char>>::empty(), tasks) == Page::Home,
        page_for(seq![auth_part()], tasks) == Page::Auth,
        page_for(seq![settings_part()], tasks) == Page::Settings,
{
    assert(view_part() != auth_part());
    assert(view_part()[0] != settings_part()[0]);
    assert(auth_part()[0] != settings_part()[0]);
}

// ------------------------------------------------------------------
//  Messages
// ------------------------------------------------------------------

/// The client's state: the page it shows, and whether it is trying to
/// reconnect its sync connection.
pub struct Model {
    pub page: Page,
    pub reconnecting: bool,
}

/// What the client reacts to at the top level.
pub enum Msg {
    /// Show a task's page, or the task list.
    SelectTask(Option<Id>),
    /// Add an empty task and show its page.
    CreateTask,
    /// Show the sign-in page.
    GoAuth,
    /// Show the settings page.
    GoSettings,
    /// The clock ticked (the ages shown change).
    OnRenderTick,
    /// The recurrence timer fired.
    OnRecurTick,
    /// The URL changed to one with this hash path.
    UrlChanged(Vec<String>),
    WebSocketOpened,
    WebSocketClosed { was_clean: bool },
    WebSocketFailed,
    /// A reconnection attempt is due.
    ReconnectWebSocket,
}

/// What the caller does after a message.
pub enum Action {
    Nothing,
    /// Go to the URL with this hash path.
    Navigate(Vec<String>),
    /// Start retrying the sync connection, with growing delays.
    StartReconnecting,
    /// Open a new sync connection.
    Reconnect,
}

/// The contents of an action, as plain values.
pub enum ActionView {
    Nothing,
    Navigate(Seq<Seq<char>>),
    StartReconnecting,
    Reconnect,
}

impl View for Action {
    type V = ActionView;

    open spec fn view(&self) -> ActionView {
        match self {
            Action::Nothing => ActionView::Nothing,
            Action::Navigate(parts) => ActionView::Navigate(strings_view(parts@)),
            Action::StartReconnecting => ActionView::StartReconnecting,
            Action::Reconnect => ActionView::Reconnect,
        }
    }
}

/// Whether the sync connection is being retried after an event, and whether
/// the event starts the retrying: a connection that opens stops it; one
/// that closes uncleanly, or fails, starts it unless it already runs.
pub open spec fn socket_step(reconnecting: bool, msg: Msg) -> (bool, bool) {
    match msg {
        Msg::WebSocketOpened => (false, false),
        Msg::WebSocketClosed { was_clean } => if !was_clean && !reconnecting {
            (true, true)
        } else {
            (reconnecting, false)
        },
        Msg::WebSocketFailed => if !reconnecting {
            (true, true)
        } else {
            (reconnecting, false)
        },
        _ => (reconnecting, false),
    }
}

/// Law: the retrying of the sync connection is started only when it does
/// not already run, and it runs afterwards; an open connection ends it.
pub proof fn law_single_reconnector(reconnecting: bool, msg: Msg)
    ensures
        socket_step(reconnecting, msg).1 ==> !reconnecting && socket_step(reconnecting, msg).0,
        msg is WebSocketOpened ==> !socket_step(reconnecting, msg).0,
        socket_step(reconnecting, msg).0 ==> reconnecting || socket_step(reconnecting, msg).1,
{
}

/// Handles a top-level message: navigation gives the URL to go to, a new
/// task is added and shown, the recurrence timer spawns the children that
/// are due, a URL change picks the page, and the connection events decide
/// whether to start retrying the connection.
pub fn update(msg: Msg, model: &mut Model, document: &mut Document) -> (action: Action)
    requires
        msg is OnRecurTick ==> tick_safe(old(document)@),
    ensures
        final(model).reconnecting == socket_step(old(model).reconnecting, msg).0,
        (action@ is StartReconnecting) == socket_step(old(model).reconnecting, msg).1,
        final(model).page == (match msg {
            Msg::UrlChanged(parts) => page_for(strings_view(parts@), old(document)@),
            _ => old(model).page,
        }),
        match msg {
            Msg::SelectTask(None) => action@ == ActionView::Navigate(Seq::<Seq<char>>::empty())
                && final(document)@ == old(document)@,
            Msg::SelectTask(Some(id)) => action@ == ActionView::Navigate(task_url(id))
                && final(document)@ == old(document)@,
            Msg::CreateTask => exists|id: Id, entry: DateTime|
                is_v4_uuid(id.0) && action@ == ActionView::Navigate(task_url(id)) && final(document)@ == old(
                    document,
                )@.insert(id, TaskModel::fresh(id, entry)),
            Msg::GoAuth => action@ == ActionView::Navigate(seq![auth_part()]) && final(document)@
                == old(document)@,
            Msg::GoSettings => action@ == ActionView::Navigate(seq![settings_part()])
                && final(document)@ == old(document)@,
            Msg::OnRecurTick => action@ is Nothing && exists|at: DateTime, fresh: Seq<Id>|
                (forall|k: int| 0 <= k < fresh.len() ==> is_v4_uuid(#[trigger] fresh[k].0))
                && final(document)@ == insert_all(
                    old(document)@,
                    spawned(old(document)@, due_ids(old(document)@, old(document).order(), at), fresh, at),
                ),
            Msg::ReconnectWebSocket => action@ is Reconnect && final(document)@ == old(document)@,
            Msg::WebSocketClosed { .. } | Msg::WebSocketFailed => final(document)@ == old(document)@,
            _ => action@ is Nothing && final(document)@ == old(document)@,
        },
{
    match msg {
        Msg::SelectTask(None) => Action::Navigate(Urls::home()),
        Msg::SelectTask(Some(id)) => Action::Navigate(Urls::view_task(&id)),
        Msg::CreateTask => {
            let id = document.new_task();
            Action::Navigate(Urls::view_task(&id))
        },
        Msg::GoAuth => Action::Navigate(Urls::auth()),
        Msg::GoSettings => Action::Navigate(Urls::settings()),
        Msg::OnRenderTick => Action::Nothing,
        Msg::OnRecurTick => {
            let _ = document.recur_tick();
            Action::Nothing
        },
        Msg::UrlChanged(parts) => {
            model.page = Page::init(parts.as_slice(), document);
            Action::Nothing
        },
        Msg::WebSocketOpened => {
            model.reconnecting = false;
            Action::Nothing
        },
        Msg::WebSocketClosed { was_clean } => {
            if !was_clean && !model.reconnecting {
                model.reconnecting = true;
                Action::StartReconnecting
            } else {
                Action::Nothing
            }
        },
        Msg::WebSocketFailed => {
            if !model.reconnecting {
                model.reconnecting = true;
                Action::StartReconnecting
            } else {
                Action::Nothing
            }
        },
        Msg::ReconnectWebSocket => Action::Reconnect,
    }
}

// ------------------------------------------------------------------
//  The title bar
// ------------------------------------------------------------------

/// The state of the sync websocket.
#[derive(Clone, Copy, Debug, PartialEq, Eq, Structural)]
pub enum SocketState {
    Connecting,
    Open,
    Closing,
    Closed,
}

/// The text the title bar shows for the sync connection.
pub open spec fn connection_text(state: SocketState) -> Seq<char> {
    match state {
        SocketState::Connecting => seq!['C', 'o', 'n', 'n', 'e', 'c', 't', 'i', 'n', 'g'],
        SocketState::Open => seq!['C', 'o', 'n', 'n', 'e', 'c', 't', 'e', 'd'],
        _ => seq!['D', 'i', 's', 'c', 'o', 'n', 'n', 'e', 'c', 't', 'e', 'd'],
    }
}

/// The text the title bar shows for the sync connection.
pub fn connection_label(state: SocketState) -> (r: &'static str)
    ensures
        r@ == connection_text(state),
{
    proof {
        reveal_strlit("Connecting");
        reveal_strlit("Connected");
        reveal_strlit("Disconnected");
        assert("Connecting"@ =~= connection_text(SocketState::Connecting));
        assert("Connected"@ =~= connection_text(SocketState::Open));
        assert("Disconnected"@ =~= connection_text(SocketState::Closed));
    }
    match state {
        SocketState::Connecting => "Connecting",
        SocketState::Open => "Connected",
        SocketState::Closing | SocketState::Closed => "Disconnected",
    }
}

/// The text of the title bar's account button: `Account` when signed in,
/// `Sign in` otherwise.
pub fn account_label(signed_in: bool) -> (r: &'static str)
    ensures
        r@ == (if signed_in {
            seq!['A', 'c', 'c', 'o', 'u', 'n', 't']
        } else {
            seq!['S', 'i', 'g', 'n', ' ', 'i', 'n']
        }),
{
    proof {
        reveal_strlit("Account");
        reveal_strlit("Sign in");
        assert("Account"@ =~= seq!['A', 'c', 'c', 'o', 'u', 'n', 't']);
        assert("Sign in"@ =~= seq!['S', 'i', 'g', 'n', ' ', 'i', 'n']);
    }
    if signed_in {
        "Account"
    } else {
        "Sign in"
    }
}

/// Where a title-bar button leads.
#[derive(Clone, Copy, Debug, PartialEq, Eq, Structural)]
pub enum NavTarget {
    /// Reconnect the sync connection.
    Reconnect,
    /// The sign-in page.
    Auth,
    /// The settings page.
    Settings,
    /// A new task.
    Create,
}

impl NavTarget {
    /// The message a click on a button to this target sends.
    pub fn msg(self) -> (m: Msg)
        ensures
            match self {
                NavTarget::Reconnect => m is ReconnectWebSocket,
                NavTarget::Auth => m is GoAuth,
                NavTarget::Settings => m is GoSettings,
                NavTarget::Create => m is CreateTask,
            },
    {
        match self {
            NavTarget::Reconnect => Msg::ReconnectWebSocket,
            NavTarget::Auth => Msg::GoAuth,
            NavTarget::Settings => Msg::GoSettings,
            NavTarget::Create => Msg::CreateTask,
        }
    }
}

/// A button of the title bar.
pub struct NavButton {
    pub label: &'static str,
    pub target: NavTarget,
    pub disabled: bool,
}

/// The text of the title bar's connection button: the connection's state
/// when signed in, and a request to sign in first otherwise.
pub open spec fn connection_button_text(signed_in: bool, state: SocketState) -> Seq<char> {
    if signed_in {
        connection_text(state)
    } else {
        seq![
            'S', 'i', 'g', 'n', ' ', 'i', 'n', ' ', 'b', 'e', 'f', 'o', 'r', 'e', ' ', 's', 'y', 'n',
            'c', 'i', 'n', 'g'
        ]
    }
}

/// The title bar's buttons, in order: the connection button (which
/// reconnects, and is disabled until signed in), the account button, the
/// settings button and the button that creates a task.
pub fn titlebar_buttons(signed_in: bool, state: SocketState) -> (r: Vec<NavButton>)
    ensures
        r@.len() == 4,
        r@[0].label@ == connection_button_text(signed_in, state),
        r@[0].target == NavTarget::Reconnect,
        r@[0].disabled == !signed_in,
        r@[1].label@ == (if signed_in {
            seq!['A', 'c', 'c', 'o', 'u', 'n', 't']
        } else {
            seq!['S', 'i', 'g', 'n', ' ', 'i', 'n']
        }),
        r@[1].target == NavTarget::Auth,
        !r@[1].disabled,
        r@[2].label@ == seq!['S', 'e', 't', 't', 'i', 'n', 'g', 's'],
        r@[2].target == NavTarget::Settings,
        !r@[2].disabled,
        r@[3].label@ == seq!['C', 'r', 'e', 'a', 't', 'e'],
        r@[3].target == NavTarget::Create,
        !r@[3].disabled,
{
    proof {
        reveal_strlit("Sign in before syncing");
        reveal_strlit("Settings");
        reveal_strlit("Create");
        assert("Sign in before syncing"@ =~= connection_button_text(false, state));
        assert("Settings"@ =~= seq!['S', 'e', 't', 't', 'i', 'n', 'g', 's']);
        assert("Create"@ =~= seq!['C', 'r', 'e', 'a', 't', 'e']);
    }
    let connection = if signed_in {
        connection_label(state)
    } else {
        "Sign in before syncing"
    };
    let mut r: Vec<NavButton> = Vec::new();
    r.push(NavButton { label: connection, target: NavTarget::Reconnect, disabled: !signed_in });
    r.push(NavButton { label: account_label(signed_in), target: NavTarget::Auth, disabled: false });
    r.push(NavButton { label: "Settings", target: NavTarget::Settings, disabled: false });
    r.push(NavButton { label: "Create", target: NavTarget::Create, disabled: false });
    r
}

} // verus!
