//! The application shell: which page is shown, and which chat is open.

use crate::tdlib::auth::{Phase, PhaseView};
use crate::text::{all_views, same_text};
use vstd::prelude::*;

verus! {

/// A page of the navigation.
#[derive(Debug)]
pub enum Page {
    /// What to do without credentials.
    Credentials,
    /// A spinner while TDLib connects.
    Loading,
    Phone,
    Code,
    Password,
    Qr,
    Registration,
    /// The chats.
    Main,
    Closed,
    /// Something went wrong, in words.
    Error { text: String },
}

/// The mathematical value of a [`Page`].
pub enum PageView {
    Credentials,
    Loading,
    Phone,
    Code,
    Password,
    Qr,
    Registration,
    Main,
    Closed,
    Error { text: Seq<char> },
}

impl View for Page {
    type V = PageView;

    open spec fn view(&self) -> PageView {
        match *self {
            Page::Credentials => PageView::Credentials,
            Page::Loading => PageView::Loading,
            Page::Phone => PageView::Phone,
            Page::Code => PageView::Code,
            Page::Password => PageView::Password,
            Page::Qr => PageView::Qr,
            Page::Registration => PageView::Registration,
            Page::Main => PageView::Main,
            Page::Closed => PageView::Closed,
            Page::Error { text } => PageView::Error { text: text@ },
        }
    }
}

impl PageView {
    /// The tag that finds a page.
    pub open spec fn tag(self) -> Seq<char> {
        match self {
            PageView::Credentials => "credentials"@,
            PageView::Loading => "loading"@,
            PageView::Phone => "login-phone"@,
            PageView::Code => "login-code"@,
            PageView::Password => "login-password"@,
            PageView::Qr => "login-qr"@,
            PageView::Registration => "registration"@,
            PageView::Main => "main"@,
            PageView::Closed => "closed"@,
            PageView::Error { .. } => "error"@,
        }
    }

    /// The title and the text of a page that only says something.
    pub open spec fn status(self) -> Option<(Seq<char>, Seq<char>)> {
        match self {
            PageView::Registration => Some(
                (
                    "Registration required"@,
                    "Creating a new Telegram account isn't supported yet."@,
                ),
            ),
            PageView::Closed => Some(
                ("Signed out"@, "Your session has ended. Restart Paloma to sign in again."@),
            ),
            PageView::Error { text } => Some(("Something went wrong"@, text)),
            _ => None,
        }
    }
}

impl Page {
    /// The tag that finds the page.
    pub fn tag(&self) -> (r: String)
        ensures
            r@ == self@.tag(),
    {
        match self {
            Page::Credentials => "credentials".to_owned(),
            Page::Loading => "loading".to_owned(),
            Page::Phone => "login-phone".to_owned(),
            Page::Code => "login-code".to_owned(),
            Page::Password => "login-password".to_owned(),
            Page::Qr => "login-qr".to_owned(),
            Page::Registration => "registration".to_owned(),
            Page::Main => "main".to_owned(),
            Page::Closed => "closed".to_owned(),
            Page::Error { .. } => "error".to_owned(),
        }
    }

    /// The title and the text, for a page that only says something.
    pub fn status(&self) -> (r: Option<(String, String)>)
        ensures
            match r {
                Some((title, text)) => self@.status() == Some((title@, text@)),
                None => self@.status() is None,
            },
    {
        match self {
            Page::Registration => Some(
                (
                    "Registration required".to_owned(),
                    "Creating a new Telegram account isn't supported yet.".to_owned(),
                ),
            ),
            Page::Closed => Some(
                (
                    "Signed out".to_owned(),
                    "Your session has ended. Restart Paloma to sign in again.".to_owned(),
                ),
            ),
            Page::Error { text } => Some(("Something went wrong".to_owned(), text.clone())),
            _ => None,
        }
    }
}

/// What the navigation does.
#[derive(Debug)]
pub enum Route {
    Stay,
    /// Go back to the page with this tag.
    PopTo { tag: String },
    /// Put a new page on top.
    Push { page: Page },
    /// Show this page alone.
    Replace { page: Page },
}

/// The mathematical value of a [`Route`].
pub enum RouteView {
    Stay,
    PopTo { tag: Seq<char> },
    Push { page: PageView },
    Replace { page: PageView },
}

impl View for Route {
    type V = RouteView;

    open spec fn view(&self) -> RouteView {
        match *self {
            Route::Stay => RouteView::Stay,
            Route::PopTo { tag } => RouteView::PopTo { tag: tag@ },
            Route::Push { page } => RouteView::Push { page: page@ },
            Route::Replace { page } => RouteView::Replace { page: page@ },
        }
    }
}

/// Whether the page with this tag is on top. `stack` holds the tags of the
/// pages, from the bottom up.
pub open spec fn is_visible(stack: Seq<Seq<char>>, tag: Seq<char>) -> bool {
    stack.len() > 0 && stack.last() == tag
}

/// Bring a page to the top: go back to it where it is below, else put it on
/// top.
pub open spec fn ensured(stack: Seq<Seq<char>>, page: PageView) -> RouteView {
    if is_visible(stack, page.tag()) {
        RouteView::Stay
    } else if stack.contains(page.tag()) {
        RouteView::PopTo { tag: page.tag() }
    } else {
        RouteView::Push { page }
    }
}

/// Where a phase leads.
pub open spec fn routed(stack: Seq<Seq<char>>, phase: PhaseView) -> RouteView {
    match phase {
        PhaseView::Connecting => ensured(stack, PageView::Loading),
        PhaseView::WaitPhone => if is_visible(stack, PageView::Phone.tag()) {
            RouteView::Stay
        } else {
            RouteView::Replace { page: PageView::Phone }
        },
        PhaseView::WaitCode => ensured(stack, PageView::Code),
        PhaseView::WaitPassword => ensured(stack, PageView::Password),
        PhaseView::WaitQr(_) => ensured(stack, PageView::Qr),
        PhaseView::WaitRegistration => RouteView::Replace { page: PageView::Registration },
        PhaseView::Ready => if stack.contains(PageView::Main.tag()) {
            RouteView::Stay
        } else {
            RouteView::Replace { page: PageView::Main }
        },
        PhaseView::Closed => RouteView::Replace { page: PageView::Closed },
        PhaseView::Error(text) => RouteView::Replace { page: PageView::Error { text } },
    }
}

fn has_tag(stack: &Vec<String>, tag: &str) -> (r: bool)
    ensures
        r == all_views(stack@).contains(tag@),
{
    for i in 0..stack.len()
        invariant
            forall|k: int| 0 <= k < i ==> (#[trigger] all_views(stack@)[k]) != tag@,
    {
        if same_text(stack[i].as_str(), tag) {
            assert(all_views(stack@)[i as int] == tag@);
            return true;
        }
    }
    false
}

/// Whether the page with this tag is on top.
pub fn visible_tag_is(stack: &Vec<String>, tag: &str) -> (r: bool)
    ensures
        r == is_visible(all_views(stack@), tag@),
{
    if stack.len() == 0 {
        false
    } else {
        assert(all_views(stack@).last() == stack@.last()@);
        same_text(stack[stack.len() - 1].as_str(), tag)
    }
}

/// Brings a page to the top.
pub fn ensure_page(stack: &Vec<String>, page: Page) -> (r: Route)
    ensures
        r@ == ensured(all_views(stack@), page@),
{
    let tag: String = page.tag();
    if visible_tag_is(stack, tag.as_str()) {
        Route::Stay
    } else if has_tag(stack, tag.as_str()) {
        Route::PopTo { tag }
    } else {
        Route::Push { page }
    }
}

/// Where a phase leads. `stack` holds the tags of the pages, from the bottom
/// up.
pub fn route_phase(stack: &Vec<String>, phase: &Phase) -> (r: Route)
    ensures
        r@ == routed(all_views(stack@), phase@),
{
    match phase {
        Phase::Connecting => ensure_page(stack, Page::Loading),
        Phase::WaitPhone => if visible_tag_is(stack, "login-phone") {
            Route::Stay
        } else {
            Route::Replace { page: Page::Phone }
        },
        Phase::WaitCode => ensure_page(stack, Page::Code),
        Phase::WaitPassword => ensure_page(stack, Page::Password),
        Phase::WaitQr(_) => ensure_page(stack, Page::Qr),
        Phase::WaitRegistration => Route::Replace { page: Page::Registration },
        Phase::Ready => if has_tag(stack, "main") {
            Route::Stay
        } else {
            Route::Replace { page: Page::Main }
        },
        Phase::Closed => Route::Replace { page: Page::Closed },
        Phase::Error(text) => Route::Replace { page: Page::Error { text: text.clone() } },
    }
}

/// The page that is shown at the start.
pub open spec fn starting_page(has_credentials: bool) -> PageView {
    if has_credentials {
        PageView::Loading
    } else {
        PageView::Credentials
    }
}

/// The first page: without credentials it says what to do, and no client is
/// made.
pub fn first_page(has_credentials: bool) -> (r: Page)
    ensures
        r@ == starting_page(has_credentials),
{
    if has_credentials {
        Page::Loading
    } else {
        Page::Credentials
    }
}

// --- The open chat -----------------------------------------------------------

/// What happens when a chat of the sidebar is activated.
#[derive(Clone, Copy, Debug, PartialEq, Eq, Structural)]
pub enum Activation {
    /// It is open: just show it.
    Reveal,
    /// Close the chat that is open, if any, and open this one.
    Open { close: Option<i64> },
}

/// The content pane: at most one chat is open.
#[derive(Clone, Copy, Debug, PartialEq, Eq, Structural)]
pub struct MainPane {
    pub current: Option<i64>,
}

impl MainPane {
    /// No chat is open.
    pub fn new() -> (r: MainPane)
        ensures
            r == (MainPane { current: None }),
    {
        MainPane { current: None }
    }

    /// The pane once a chat was activated, and what is to be done.
    pub open spec fn activated(self, chat_id: i64) -> (MainPane, Activation) {
        (
            MainPane { current: Some(chat_id) },
            if self.current == Some(chat_id) {
                Activation::Reveal
            } else {
                Activation::Open { close: self.current }
            },
        )
    }

    /// A chat was activated.
    pub fn activate(&mut self, chat_id: i64) -> (r: Activation)
        ensures
            (*final(self), r) == old(self).activated(chat_id),
    {
        match self.current {
            Some(open) => if open == chat_id {
                return Activation::Reveal;
            },
            None => {},
        }
        let close: Option<i64> = self.current;
        self.current = Some(chat_id);
        Activation::Open { close }
    }

    /// Whether a photo that arrived late for `chat_id` is still wanted.
    pub fn is_current(&self, chat_id: i64) -> (r: bool)
        ensures
            r == (self.current == Some(chat_id)),
    {
        match self.current {
            Some(open) => open == chat_id,
            None => false,
        }
    }
}

/// The title of the content page of a chat.
pub open spec fn titled(title: Seq<char>) -> Seq<char> {
    if title.len() == 0 {
        "Chat"@
    } else {
        title
    }
}

/// The title of the content page; a chat without a title is just a chat.
pub fn content_title(title: &str) -> (r: String)
    ensures
        r@ == titled(title@),
{
    if title.is_empty() {
        "Chat".to_owned()
    } else {
        title.to_owned()
    }
}

// --- Laws --------------------------------------------------------------------

/// The position of a tag.
pub open spec fn position_of(stack: Seq<Seq<char>>, tag: Seq<char>) -> int {
    choose|i: int| 0 <= i < stack.len() && stack[i] == tag
}

/// The stack after a route.
pub open spec fn applied(stack: Seq<Seq<char>>, route: RouteView) -> Seq<Seq<char>> {
    match route {
        RouteView::Stay => stack,
        RouteView::PopTo { tag } => stack.take(position_of(stack, tag) + 1),
        RouteView::Push { page } => stack.push(page.tag()),
        RouteView::Replace { page } => seq![page.tag()],
    }
}

/// The page of a phase.
pub open spec fn page_of(phase: PhaseView) -> PageView {
    match phase {
        PhaseView::Connecting => PageView::Loading,
        PhaseView::WaitPhone => PageView::Phone,
        PhaseView::WaitCode => PageView::Code,
        PhaseView::WaitPassword => PageView::Password,
        PhaseView::WaitQr(_) => PageView::Qr,
        PhaseView::WaitRegistration => PageView::Registration,
        PhaseView::Ready => PageView::Main,
        PhaseView::Closed => PageView::Closed,
        PhaseView::Error(text) => PageView::Error { text },
    }
}

/// Every phase brings its page to the top, except that a session which is
/// ready again leaves whatever lies above its main page.
pub proof fn phase_shows_its_page(stack: Seq<Seq<char>>, phase: PhaseView)
    ensures
        applied(stack, routed(stack, phase)).contains(page_of(phase).tag()),
        !(phase is Ready && stack.contains(PageView::Main.tag())) ==> is_visible(
            applied(stack, routed(stack, phase)),
            page_of(phase).tag(),
        ),
{
    let route = routed(stack, phase);
    let after = applied(stack, route);
    let tag = page_of(phase).tag();
    match route {
        RouteView::PopTo { tag } => {
            let i = position_of(stack, tag);
            assert(0 <= i < stack.len() && stack[i] == tag);
            assert(after.last() == tag);
        },
        _ => {},
    }
    if after.len() > 0 && after.last() == tag {
        assert(after[after.len() - 1] == tag);
    }
}

/// TDLib reports that it is ready after every reconnect; the second report
/// changes nothing, so an open chat, its draft and its scroll position stay.
pub proof fn ready_twice_changes_nothing(stack: Seq<Seq<char>>)
    ensures
        ({
            let after = applied(stack, routed(stack, PhaseView::Ready));
            routed(after, PhaseView::Ready) == RouteView::Stay
        }),
{
    let after = applied(stack, routed(stack, PhaseView::Ready));
    if !stack.contains(PageView::Main.tag()) {
        assert(after[0] == PageView::Main.tag());
    }
}

/// Going back to a page never brings a page up that was not there.
pub proof fn going_back_adds_nothing(stack: Seq<Seq<char>>, page: PageView)
    requires
        stack.contains(page.tag()),
    ensures
        applied(stack, ensured(stack, page)).is_prefix_of(stack),
{
    let i = position_of(stack, page.tag());
    assert(0 <= i < stack.len() && stack[i] == page.tag());
}

/// Every page has a tag of its own.
pub proof fn tags_are_distinct(a: PageView, b: PageView)
    requires
        a.tag() == b.tag(),
    ensures
        a == b || a is Error && b is Error,
{
    reveal_strlit("credentials");
    reveal_strlit("loading");
    reveal_strlit("login-phone");
    reveal_strlit("login-code");
    reveal_strlit("login-password");
    reveal_strlit("login-qr");
    reveal_strlit("registration");
    reveal_strlit("main");
    reveal_strlit("closed");
    reveal_strlit("error");
    let s = a.tag();
    let t = b.tag();
    assert(s.len() == t.len());
    assert(s[0] == t[0]);
    assert(s[3] == t[3]);
}

/// A step of the login is put on top of the ones before it, so that the user can
/// go back; a new login, a session that is ready or over, and an error stand
/// alone.
pub proof fn login_steps_pile_up(stack: Seq<Seq<char>>, phase: PhaseView)
    ensures
        ({
            let after = applied(stack, routed(stack, phase));
            let tag = page_of(phase).tag();
            &&& (phase is Connecting || phase is WaitCode || phase is WaitPassword
                || phase is WaitQr) && !stack.contains(tag) ==> after == stack.push(tag)
            &&& phase is WaitRegistration || phase is Closed || phase is Error ==> after == seq![
                tag,
            ]
            &&& phase is WaitPhone && !(stack.len() > 0 && stack.last() == tag) ==> after == seq![
                tag,
            ]
            &&& phase is Ready && !stack.contains(tag) ==> after == seq![tag]
            &&& stack.len() > 0 && stack.last() == tag && !(phase is WaitRegistration
                || phase is Closed || phase is Error) ==> after == stack
        }),
{
    let tag = page_of(phase).tag();
    if stack.len() > 0 && stack.last() == tag {
        assert(stack[stack.len() - 1] == tag);
        assert(stack.contains(tag));
    }
}

/// An error page says what went wrong, and only pages that just say something
/// have a text.
pub proof fn error_page_says_the_error(stack: Seq<Seq<char>>, text: Seq<char>, page: PageView)
    ensures
        routed(stack, PhaseView::Error(text)) matches RouteView::Replace { page } && (
        page.status() matches Some((_, said)) && said == text),
        page.status() is Some <==> page is Registration || page is Closed || page is Error,
{
}

/// Activating the chat that is open just shows it; any other closes that chat and
/// takes its place.
pub proof fn one_chat_is_open(pane: MainPane, chat_id: i64, other: i64)
    ensures
        pane.activated(chat_id).0.current == Some(chat_id),
        pane.activated(chat_id).0.activated(chat_id) == (
            pane.activated(chat_id).0,
            Activation::Reveal,
        ),
        other != chat_id ==> pane.activated(other).0.activated(chat_id).1 == (Activation::Open {
            close: Some(other),
        }),
        pane.current is None ==> pane.activated(chat_id).1 == (Activation::Open { close: None }),
{
}

/// A chat goes by its title, and by something where it has none.
pub proof fn chats_have_a_title(title: Seq<char>)
    ensures
        title.len() > 0 ==> titled(title) == title,
        titled(title).len() > 0,
{
    reveal_strlit("Chat");
}

/// Without credentials the user is asked for them; with them the first phase finds
/// its page shown already.
pub proof fn start_needs_credentials(stack: Seq<Seq<char>>)
    ensures
        starting_page(false) is Credentials,
        routed(seq![starting_page(true).tag()], PhaseView::Connecting) == RouteView::Stay,
{
}

} // verus!
