//! The authorization of a session, as a sequence of phases.

use crate::config::{str_view, Credentials, CredentialsView};
use crate::text::{chars_of, string_of};
use vstd::prelude::*;

verus! {

/// What TDLib wants next to authorize the session.
#[derive(Debug)]
pub enum AuthorizationState {
    WaitTdlibParameters,
    WaitPhoneNumber,
    WaitPremiumPurchase,
    WaitEmailAddress,
    WaitEmailCode,
    WaitCode,
    WaitOtherDeviceConfirmation { link: String },
    WaitRegistration,
    WaitPassword,
    Ready,
    LoggingOut,
    Closing,
    Closed,
}

/// The mathematical value of an [`AuthorizationState`].
pub enum AuthorizationStateView {
    WaitTdlibParameters,
    WaitPhoneNumber,
    WaitPremiumPurchase,
    WaitEmailAddress,
    WaitEmailCode,
    WaitCode,
    WaitOtherDeviceConfirmation { link: Seq<char> },
    WaitRegistration,
    WaitPassword,
    Ready,
    LoggingOut,
    Closing,
    Closed,
}

impl View for AuthorizationState {
    type V = AuthorizationStateView;

    open spec fn view(&self) -> AuthorizationStateView {
        match *self {
            AuthorizationState::WaitTdlibParameters => AuthorizationStateView::WaitTdlibParameters,
            AuthorizationState::WaitPhoneNumber => AuthorizationStateView::WaitPhoneNumber,
            AuthorizationState::WaitPremiumPurchase => AuthorizationStateView::WaitPremiumPurchase,
            AuthorizationState::WaitEmailAddress => AuthorizationStateView::WaitEmailAddress,
            AuthorizationState::WaitEmailCode => AuthorizationStateView::WaitEmailCode,
            AuthorizationState::WaitCode => AuthorizationStateView::WaitCode,
            AuthorizationState::WaitOtherDeviceConfirmation { link } => {
                AuthorizationStateView::WaitOtherDeviceConfirmation { link: link@ }
            },
            AuthorizationState::WaitRegistration => AuthorizationStateView::WaitRegistration,
            AuthorizationState::WaitPassword => AuthorizationStateView::WaitPassword,
            AuthorizationState::Ready => AuthorizationStateView::Ready,
            AuthorizationState::LoggingOut => AuthorizationStateView::LoggingOut,
            AuthorizationState::Closing => AuthorizationStateView::Closing,
            AuthorizationState::Closed => AuthorizationStateView::Closed,
        }
    }
}

/// The authentication phase that the user sees.
#[derive(Clone, Debug)]
pub enum Phase {
    /// Waiting for the first real prompt.
    Connecting,
    /// A phone number is wanted.
    WaitPhone,
    /// A login code was sent.
    WaitCode,
    /// The two-factor password is wanted.
    WaitPassword,
    /// This tg:// link is to be shown as a QR code.
    WaitQr(String),
    /// A new account: first and last name are wanted.
    WaitRegistration,
    /// Logged in.
    Ready,
    /// Logging out, or the session is closed.
    Closed,
    /// Something went wrong, in words.
    Error(String),
}

/// The mathematical value of a [`Phase`].
pub enum PhaseView {
    Connecting,
    WaitPhone,
    WaitCode,
    WaitPassword,
    WaitQr(Seq<char>),
    WaitRegistration,
    Ready,
    Closed,
    Error(Seq<char>),
}

impl View for Phase {
    type V = PhaseView;

    open spec fn view(&self) -> PhaseView {
        match *self {
            Phase::Connecting => PhaseView::Connecting,
            Phase::WaitPhone => PhaseView::WaitPhone,
            Phase::WaitCode => PhaseView::WaitCode,
            Phase::WaitPassword => PhaseView::WaitPassword,
            Phase::WaitQr(link) => PhaseView::WaitQr(link@),
            Phase::WaitRegistration => PhaseView::WaitRegistration,
            Phase::Ready => PhaseView::Ready,
            Phase::Closed => PhaseView::Closed,
            Phase::Error(e) => PhaseView::Error(e@),
        }
    }
}

/// The phase of an authorization state.
pub open spec fn phase_of(state: AuthorizationStateView) -> PhaseView {
    match state {
        AuthorizationStateView::WaitTdlibParameters => PhaseView::Connecting,
        AuthorizationStateView::WaitPhoneNumber => PhaseView::WaitPhone,
        AuthorizationStateView::WaitCode => PhaseView::WaitCode,
        AuthorizationStateView::WaitPassword => PhaseView::WaitPassword,
        AuthorizationStateView::WaitOtherDeviceConfirmation { link } => PhaseView::WaitQr(link),
        AuthorizationStateView::WaitRegistration => PhaseView::WaitRegistration,
        AuthorizationStateView::Ready => PhaseView::Ready,
        AuthorizationStateView::LoggingOut
        | AuthorizationStateView::Closing
        | AuthorizationStateView::Closed => PhaseView::Closed,
        AuthorizationStateView::WaitEmailAddress
        | AuthorizationStateView::WaitEmailCode
        | AuthorizationStateView::WaitPremiumPurchase => PhaseView::Error(
            "unsupported auth step"@,
        ),
    }
}

/// The state of authorization changed. Returns the phase, and whether the
/// parameters of TDLib are to be sent.
pub fn step(state: AuthorizationState) -> (r: (Phase, bool))
    ensures
        r.0@ == phase_of(state@),
        r.1 == (state is WaitTdlibParameters),
{
    match state {
        AuthorizationState::WaitTdlibParameters => (Phase::Connecting, true),
        AuthorizationState::WaitPhoneNumber => (Phase::WaitPhone, false),
        AuthorizationState::WaitCode => (Phase::WaitCode, false),
        AuthorizationState::WaitPassword => (Phase::WaitPassword, false),
        AuthorizationState::WaitOtherDeviceConfirmation { link } => (Phase::WaitQr(link), false),
        AuthorizationState::WaitRegistration => (Phase::WaitRegistration, false),
        AuthorizationState::Ready => (Phase::Ready, false),
        AuthorizationState::LoggingOut | AuthorizationState::Closing | AuthorizationState::Closed => (
            Phase::Closed,
            false,
        ),
        AuthorizationState::WaitEmailAddress
        | AuthorizationState::WaitEmailCode
        | AuthorizationState::WaitPremiumPurchase => (
            Phase::Error("unsupported auth step".to_owned()),
            false,
        ),
    }
}

/// The value of an authorization state that an update may carry.
pub open spec fn state_view(state: Option<AuthorizationState>) -> Option<AuthorizationStateView> {
    match state {
        Some(s) => Some(s@),
        None => None,
    }
}

/// An update arrived, with the authorization state if it carries one. Returns
/// what [`step`] says of that state; other updates bring no phase.
pub fn heard(state: Option<AuthorizationState>) -> (r: Option<(Phase, bool)>)
    ensures
        match state_view(state) {
            Some(s) => r matches Some((phase, wants_parameters)) && phase@ == phase_of(s)
                && wants_parameters == (s is WaitTdlibParameters),
            None => r is None,
        },
{
    match state {
        Some(s) => Some(step(s)),
        None => None,
    }
}

/// The phases that a series of updates brings.
pub open spec fn phases(updates: Seq<Option<AuthorizationStateView>>) -> Seq<PhaseView>
    decreases updates.len(),
{
    if updates.len() == 0 {
        Seq::empty()
    } else {
        let before = phases(updates.drop_last());
        match updates.last() {
            Some(state) => before.push(phase_of(state)),
            None => before,
        }
    }
}

/// How many of the first `n` updates carry an authorization state.
pub open spec fn states_among(updates: Seq<Option<AuthorizationStateView>>, n: int) -> nat
    decreases n,
{
    if n <= 0 {
        0
    } else if updates[n - 1] is Some {
        states_among(updates, n - 1) + 1
    } else {
        states_among(updates, n - 1)
    }
}

/// The answer to the parameters of TDLib arrived, with the error if they were
/// refused. Returns the phase to show, if any.
pub fn parameters_answered(error: Option<String>) -> (r: Option<Phase>)
    ensures
        match error {
            Some(e) => r is Some && r->0@ == PhaseView::Error(e@),
            None => r is None,
        },
{
    match error {
        Some(e) => Some(Phase::Error(e)),
        None => None,
    }
}

// --- Parameters --------------------------------------------------------------

/// The parameters of TDLib.
#[derive(Debug)]
pub struct TdlibParameters {
    pub use_test_dc: bool,
    pub database_directory: String,
    pub files_directory: String,
    pub database_encryption_key: String,
    pub use_file_database: bool,
    pub use_chat_info_database: bool,
    pub use_message_database: bool,
    pub use_secret_chats: bool,
    pub api_id: i32,
    pub api_hash: String,
    pub system_language_code: String,
    pub device_model: String,
    pub system_version: String,
    pub application_version: String,
}

/// The mathematical value of [`TdlibParameters`].
pub struct ParametersView {
    pub use_test_dc: bool,
    pub database_directory: Seq<char>,
    pub files_directory: Seq<char>,
    pub database_encryption_key: Seq<char>,
    pub use_file_database: bool,
    pub use_chat_info_database: bool,
    pub use_message_database: bool,
    pub use_secret_chats: bool,
    pub api_id: i32,
    pub api_hash: Seq<char>,
    pub system_language_code: Seq<char>,
    pub device_model: Seq<char>,
    pub system_version: Seq<char>,
    pub application_version: Seq<char>,
}

impl View for TdlibParameters {
    type V = ParametersView;

    open spec fn view(&self) -> ParametersView {
        ParametersView {
            use_test_dc: self.use_test_dc,
            database_directory: self.database_directory@,
            files_directory: self.files_directory@,
            database_encryption_key: self.database_encryption_key@,
            use_file_database: self.use_file_database,
            use_chat_info_database: self.use_chat_info_database,
            use_message_database: self.use_message_database,
            use_secret_chats: self.use_secret_chats,
            api_id: self.api_id,
            api_hash: self.api_hash@,
            system_language_code: self.system_language_code@,
            device_model: self.device_model@,
            system_version: self.system_version@,
            application_version: self.application_version@,
        }
    }
}

/// The parameters for a session: everything is kept in the database, and files
/// lie beside it.
pub open spec fn parameters(
    credentials: CredentialsView,
    database: Seq<char>,
    language: Seq<char>,
    version: Seq<char>,
) -> ParametersView {
    ParametersView {
        use_test_dc: false,
        database_directory: database,
        files_directory: Seq::empty(),
        database_encryption_key: Seq::empty(),
        use_file_database: true,
        use_chat_info_database: true,
        use_message_database: true,
        use_secret_chats: true,
        api_id: credentials.api_id,
        api_hash: credentials.api_hash,
        system_language_code: language,
        device_model: "Paloma"@,
        system_version: Seq::empty(),
        application_version: version,
    }
}

/// The parameters for a session with these credentials.
pub fn tdlib_parameters(
    credentials: &Credentials,
    database: &str,
    language: &str,
    version: &str,
) -> (r: TdlibParameters)
    ensures
        r@ == parameters(credentials@, database@, language@, version@),
{
    TdlibParameters {
        use_test_dc: false,
        database_directory: database.to_owned(),
        files_directory: String::new(),
        database_encryption_key: String::new(),
        use_file_database: true,
        use_chat_info_database: true,
        use_message_database: true,
        use_secret_chats: true,
        api_id: credentials.api_id,
        api_hash: credentials.api_hash.clone(),
        system_language_code: language.to_owned(),
        device_model: "Paloma".to_owned(),
        system_version: String::new(),
        application_version: version.to_owned(),
    }
}

/// `s` up to its first `_` or `.`.
pub open spec fn language_part(s: Seq<char>) -> Seq<char>
    decreases s.len(),
{
    if s.len() == 0 || s.first() == '_' || s.first() == '.' {
        Seq::empty()
    } else {
        seq![s.first()] + language_part(s.drop_first())
    }
}

/// The language of a locale, `en` where it names none.
pub open spec fn language_of(lang: Option<Seq<char>>) -> Seq<char> {
    match lang {
        Some(l) => if language_part(l).len() > 0 {
            language_part(l)
        } else {
            "en"@
        },
        None => "en"@,
    }
}

/// The language code of a locale such as `de_AT.UTF-8`.
pub fn system_language_code(lang: Option<&str>) -> (r: String)
    ensures
        r@ == language_of(str_view(lang)),
{
    let lang: &str = match lang {
        Some(l) => l,
        None => {
            return "en".to_owned();
        },
    };
    let v: Vec<char> = chars_of(lang);
    let mut n: usize = 0;
    assert(v@.take(0) + language_part(v@.skip(0)) =~= language_part(v@)) by {
        assert(v@.skip(0) =~= v@);
    }
    while n < v.len() && v[n] != '_' && v[n] != '.'
        invariant
            n <= v@.len(),
            v@.take(n as int) + language_part(v@.skip(n as int)) == language_part(v@),
        decreases v@.len() - n,
    {
        let ghost k = n as int;
        assert(v@.skip(k).drop_first() =~= v@.skip(k + 1));
        assert(v@.take(k + 1) + language_part(v@.skip(k + 1)) =~= v@.take(k) + (seq![v@[k]]
            + language_part(v@.skip(k + 1))));
        n = n + 1;
    }
    assert(language_part(v@.skip(n as int)) =~= Seq::empty());
    assert(language_part(v@) =~= v@.take(n as int));
    if n == 0 {
        "en".to_owned()
    } else {
        let r: String = string_of(v.as_slice(), 0, n);
        assert(r@ =~= v@.take(n as int));
        r
    }
}

// --- Laws --------------------------------------------------------------------

proof fn lemma_states_among(
    a: Seq<Option<AuthorizationStateView>>,
    b: Seq<Option<AuthorizationStateView>>,
    n: int,
)
    requires
        0 <= n <= a.len(),
        n <= b.len(),
        forall|i: int| 0 <= i < n ==> a[i] == b[i],
    ensures
        states_among(a, n) == states_among(b, n),
    decreases n,
{
    if n > 0 {
        lemma_states_among(a, b, n - 1);
    }
}

/// Every update of the authorization state brings exactly one phase, the phase
/// of that state, in the order of the updates. Other updates bring none.
pub proof fn one_phase_per_state(updates: Seq<Option<AuthorizationStateView>>)
    ensures
        phases(updates).len() == states_among(updates, updates.len() as int),
        forall|i: int|
            0 <= i < updates.len() && (#[trigger] updates[i]) is Some ==> states_among(updates, i)
                < phases(updates).len() && phases(updates)[states_among(updates, i) as int]
                == phase_of(updates[i]->0),
    decreases updates.len(),
{
    if updates.len() > 0 {
        let before = updates.drop_last();
        let n = before.len() as int;
        one_phase_per_state(before);
        lemma_states_among(before, updates, n);
        assert forall|i: int| 0 <= i < updates.len() && (#[trigger] updates[i]) is Some implies
            states_among(updates, i) < phases(updates).len() && phases(
            updates,
        )[states_among(updates, i) as int] == phase_of(updates[i]->0) by {
            lemma_states_among(before, updates, i);
            if i < n {
                assert(before[i] == updates[i]);
            }
        }
    }
}

/// What arrives later changes nothing in the phases so far.
pub proof fn phases_only_grow(
    earlier: Seq<Option<AuthorizationStateView>>,
    later: Seq<Option<AuthorizationStateView>>,
)
    ensures
        phases(earlier + later) == phases(earlier) + phases(later),
    decreases later.len(),
{
    if later.len() == 0 {
        assert(earlier + later =~= earlier);
        assert(phases(earlier) + phases(later) =~= phases(earlier));
    } else {
        phases_only_grow(earlier, later.drop_last());
        assert((earlier + later).drop_last() =~= earlier + later.drop_last());
        assert(phases(earlier + later) =~= phases(earlier) + phases(later));
    }
}

/// A phase tells which state brought it: each step of the login has its own, the
/// link of a QR code is kept, a session that ends is closed in whatever way it
/// ends, and only steps that are not supported are errors.
pub proof fn phases_tell_states_apart(state: AuthorizationStateView)
    ensures
        phase_of(state) is Connecting <==> state is WaitTdlibParameters,
        phase_of(state) is WaitPhone <==> state is WaitPhoneNumber,
        phase_of(state) is WaitCode <==> state is WaitCode,
        phase_of(state) is WaitPassword <==> state is WaitPassword,
        phase_of(state) is WaitQr <==> state is WaitOtherDeviceConfirmation,
        state matches AuthorizationStateView::WaitOtherDeviceConfirmation { link } ==> phase_of(
            state,
        ) == PhaseView::WaitQr(link),
        phase_of(state) is WaitRegistration <==> state is WaitRegistration,
        phase_of(state) is Ready <==> state is Ready,
        phase_of(state) is Closed <==> state is LoggingOut || state is Closing || state is Closed,
        phase_of(state) is Error <==> state is WaitEmailAddress || state is WaitEmailCode
            || state is WaitPremiumPurchase,
{
}

/// A session is opened with the credentials, the database, the language and the
/// version that it is given. Everything is kept in the database, on the real
/// servers, and nothing is encrypted with a key of ours.
pub proof fn session_is_opened_as_asked(
    credentials: CredentialsView,
    database: Seq<char>,
    language: Seq<char>,
    version: Seq<char>,
)
    ensures
        ({
            let p = parameters(credentials, database, language, version);
            &&& p.api_id == credentials.api_id
            &&& p.api_hash == credentials.api_hash
            &&& p.database_directory == database
            &&& p.system_language_code == language
            &&& p.application_version == version
            &&& p.use_file_database && p.use_chat_info_database && p.use_message_database
            &&& p.use_secret_chats
            &&& !p.use_test_dc
            &&& p.database_encryption_key.len() == 0
            &&& p.files_directory.len() == 0
            &&& p.device_model.len() > 0
        }),
{
    reveal_strlit("Paloma");
}

/// The language is what a locale says before its first `_` or `.`, and English
/// where that is nothing.
pub proof fn language_comes_first(locale: Seq<char>, k: int)
    requires
        0 <= k <= locale.len(),
        forall|i: int| 0 <= i < k ==> locale[i] != '_' && locale[i] != '.',
        k < locale.len() ==> locale[k] == '_' || locale[k] == '.',
    ensures
        language_part(locale) == locale.take(k),
        k > 0 ==> language_of(Some(locale)) == locale.take(k),
        k == 0 ==> language_of(Some(locale)) == "en"@,
        language_of(None) == "en"@,
    decreases k,
{
    if k > 0 {
        let rest = locale.drop_first();
        assert forall|i: int| 0 <= i < k - 1 implies rest[i] != '_' && rest[i] != '.' by {
            assert(rest[i] == locale[i + 1]);
        }
        language_comes_first(rest, k - 1);
        assert(seq![locale[0]] + rest.take(k - 1) =~= locale.take(k));
    } else {
        assert(locale.take(0) =~= Seq::empty());
    }
}

} // verus!
