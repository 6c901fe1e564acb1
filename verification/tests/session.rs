//! The session: authorization, the client, files, pages and labels.

use paloma::app::{
    content_title, ensure_page, first_page, route_phase, visible_tag_is, Activation, MainPane,
    Page, Route,
};
use paloma::config::Credentials;
use paloma::format::{
    date_separator, label_text, message_time, pattern, same_date, same_local_day, sidebar_time,
    Label, LocalDate,
};
use paloma::tdlib::auth::{
    heard, parameters_answered, step, system_language_code, tdlib_parameters, AuthorizationState, Phase,
};
use paloma::tdlib::check::{check_credentials, Check, CheckAction};
use paloma::tdlib::client::{pump, Polled, Pump, Sent, TdClient};
use paloma::tdlib::files::{Download, FileStore};
use paloma::ui::login::entry::{code, password, phone, Entry};
use paloma::ui::login::qr::{can_render, qr_image, render_qr};

#[test]
fn phases_of_states() {
    let cases: Vec<(AuthorizationState, &str, bool)> = vec![
        (AuthorizationState::WaitTdlibParameters, "Connecting", true),
        (AuthorizationState::WaitPhoneNumber, "WaitPhone", false),
        (AuthorizationState::WaitCode, "WaitCode", false),
        (AuthorizationState::WaitPassword, "WaitPassword", false),
        (
            AuthorizationState::WaitOtherDeviceConfirmation { link: "tg://x".to_string() },
            "WaitQr(\"tg://x\")",
            false,
        ),
        (AuthorizationState::WaitRegistration, "WaitRegistration", false),
        (AuthorizationState::Ready, "Ready", false),
        (AuthorizationState::LoggingOut, "Closed", false),
        (AuthorizationState::Closing, "Closed", false),
        (AuthorizationState::Closed, "Closed", false),
        (AuthorizationState::WaitEmailAddress, "Error(\"unsupported auth step\")", false),
        (AuthorizationState::WaitEmailCode, "Error(\"unsupported auth step\")", false),
        (AuthorizationState::WaitPremiumPurchase, "Error(\"unsupported auth step\")", false),
    ];
    for (state, expected, sends) in cases {
        let (phase, parameters) = step(state);
        assert_eq!(format!("{phase:?}"), expected);
        assert_eq!(parameters, sends);
    }
    assert!(parameters_answered(None).is_none());
    assert!(matches!(parameters_answered(Some("bad".to_string())), Some(Phase::Error(e)) if e == "bad"));
}

#[test]
fn only_authorization_updates_bring_phases() {
    let updates = vec![
        None,
        Some(AuthorizationState::WaitTdlibParameters),
        None,
        Some(AuthorizationState::WaitCode),
        Some(AuthorizationState::Ready),
        None,
    ];
    let phases: Vec<String> = updates
        .into_iter()
        .filter_map(heard)
        .map(|(phase, parameters)| format!("{phase:?} {parameters}"))
        .collect();
    assert_eq!(phases, ["Connecting true", "WaitCode false", "Ready false"]);
}

#[test]
fn parameters_of_a_session() {
    let c = Credentials { api_id: 42, api_hash: "h".to_string() };
    let p = tdlib_parameters(&c, "/db", "de", "1.2.3");
    assert!(!p.use_test_dc);
    assert_eq!((p.database_directory.as_str(), p.files_directory.as_str()), ("/db", ""));
    assert_eq!(p.database_encryption_key, "");
    assert!(p.use_file_database && p.use_chat_info_database);
    assert!(p.use_message_database && p.use_secret_chats);
    assert_eq!((p.api_id, p.api_hash.as_str()), (42, "h"));
    assert_eq!((p.system_language_code.as_str(), p.device_model.as_str()), ("de", "Paloma"));
    assert_eq!((p.system_version.as_str(), p.application_version.as_str()), ("", "1.2.3"));
}

#[test]
fn languages_of_locales() {
    assert_eq!(system_language_code(Some("de_AT.UTF-8")), "de");
    assert_eq!(system_language_code(Some("C.UTF-8")), "C");
    assert_eq!(system_language_code(Some("fr")), "fr");
    assert_eq!(system_language_code(Some("")), "en");
    assert_eq!(system_language_code(Some("_x")), "en");
    assert_eq!(system_language_code(None), "en");
}

#[test]
fn the_check_sends_parameters_once() {
    let c = check_credentials(None, None);
    assert_eq!((c.api_id, c.api_hash.len()), (123456, 32));
    let c = check_credentials(Some("77"), Some("x"));
    assert_eq!((c.api_id, c.api_hash.as_str()), (77, "x"));
    assert_eq!(check_credentials(Some(" 77"), None).api_id, 123456);
    let mut check = Check::new();
    assert_eq!(check.step(&AuthorizationState::Closing), CheckAction::Ignore);
    assert_eq!(
        check.step(&AuthorizationState::WaitTdlibParameters),
        CheckAction::SendParameters
    );
    assert_eq!(check.step(&AuthorizationState::WaitTdlibParameters), CheckAction::Ignore);
    assert_eq!(check.step(&AuthorizationState::WaitPhoneNumber), CheckAction::Succeed);
}

#[test]
fn subscribers_that_are_gone_are_dropped() {
    let mut c = TdClient::new(3);
    assert_eq!(c.client_id(), 3);
    assert_eq!((c.subscribe(), c.subscribe(), c.subscribe()), (1, 2, 3));
    c.dispatch(&vec![Sent::Delivered, Sent::Closed, Sent::Full]);
    assert_eq!(c.subscribers(), &vec![1, 3]);
    assert_eq!(c.subscribe(), 4);
    assert_eq!(c.subscribers(), &vec![1, 3, 4]);
    assert!(c.running());
    c.shutdown();
    assert!(!c.running());
}

#[test]
fn subscribers_get_what_was_sent_since_they_came() {
    // Each inbox is filled as `subscribers` says; the second one leaves.
    let mut c = TdClient::new(1);
    let mut inboxes: Vec<(u64, Vec<char>)> = vec![];
    let send = |c: &mut TdClient, inboxes: &mut Vec<(u64, Vec<char>)>, update: char, gone: u64| {
        let mut sent = vec![];
        for id in c.subscribers() {
            if *id == gone {
                sent.push(Sent::Closed);
            } else {
                inboxes.iter_mut().find(|(n, _)| n == id).unwrap().1.push(update);
                sent.push(Sent::Delivered);
            }
        }
        c.dispatch(&sent);
    };
    inboxes.push((c.subscribe(), vec![]));
    send(&mut c, &mut inboxes, 'a', 0);
    inboxes.push((c.subscribe(), vec![]));
    inboxes.push((c.subscribe(), vec![]));
    send(&mut c, &mut inboxes, 'b', 0);
    send(&mut c, &mut inboxes, 'c', 2);
    send(&mut c, &mut inboxes, 'd', 0);
    assert_eq!(c.subscribers(), &vec![1, 3]);
    assert_eq!(
        inboxes,
        [(1, vec!['a', 'b', 'c', 'd']), (2, vec!['b']), (3, vec!['b', 'c', 'd'])]
    );
}

#[test]
fn the_pump_rests_and_stops() {
    assert_eq!(pump(true, Polled::Nothing), Pump::Pause);
    assert_eq!(pump(true, Polled::Update { delivered: true }), Pump::Poll);
    assert_eq!(pump(true, Polled::Update { delivered: false }), Pump::Stop);
    assert_eq!(pump(false, Polled::Nothing), Pump::Stop);
}

#[test]
fn files_are_downloaded_once() {
    let mut f = FileStore::new(8);
    assert_eq!(f.client_id(), 8);
    assert!(matches!(f.download(0, 1, 1), Download::Ignored));
    assert!(matches!(
        f.download(5, 16, 1),
        Download::Fetch { file_id: 5, priority: 16 }
    ));
    assert!(matches!(f.download(5, 8, 2), Download::Queued));
    assert!(matches!(f.download(6, 8, 3), Download::Fetch { file_id: 6, priority: 8 }));
    assert!(f.cached(5).is_none());
    let d = f.resolve(5, Some("/a".to_string())).unwrap();
    assert_eq!((d.waiters, d.path.as_str()), (vec![1, 2], "/a"));
    assert_eq!(f.cached(5).as_deref(), Some("/a"));
    match f.download(5, 1, 4) {
        Download::Deliver { path } => assert_eq!(path, "/a"),
        other => panic!("{other:?}"),
    }
    // A failed download is tried again.
    assert!(f.resolve(6, None).is_none());
    assert!(matches!(f.download(6, 8, 5), Download::Fetch { .. }));
    assert!(f.resolve(6, Some(String::new())).is_none());
    assert!(f.cached(6).is_none());
    // Nobody waits: the path is kept all the same.
    assert_eq!(f.resolve(7, Some("/c".to_string())).unwrap().waiters.len(), 0);
    assert_eq!(f.cached(7).as_deref(), Some("/c"));
}

fn stack(tags: &[&str]) -> Vec<String> {
    tags.iter().map(|t| t.to_string()).collect()
}

fn route(tags: &[&str], phase: Phase) -> String {
    format!("{:?}", route_phase(&stack(tags), &phase))
}

#[test]
fn phases_route_to_pages() {
    assert_eq!(route(&["loading"], Phase::Connecting), "Stay");
    assert_eq!(route(&[], Phase::Connecting), "Push { page: Loading }");
    assert_eq!(route(&["loading"], Phase::WaitPhone), "Replace { page: Phone }");
    assert_eq!(route(&["login-phone"], Phase::WaitPhone), "Stay");
    assert_eq!(route(&["login-phone"], Phase::WaitCode), "Push { page: Code }");
    assert_eq!(
        route(&["login-phone", "login-code", "login-password"], Phase::WaitCode),
        "PopTo { tag: \"login-code\" }"
    );
    assert_eq!(
        route(&["login-phone"], Phase::WaitPassword),
        "Push { page: Password }"
    );
    assert_eq!(
        route(&["login-phone", "login-qr"], Phase::WaitQr("x".to_string())),
        "Stay"
    );
    assert_eq!(
        route(&["login-phone"], Phase::WaitRegistration),
        "Replace { page: Registration }"
    );
    assert_eq!(route(&["login-phone"], Phase::Ready), "Replace { page: Main }");
    assert_eq!(route(&["main"], Phase::Ready), "Stay");
    assert_eq!(route(&["main"], Phase::Closed), "Replace { page: Closed }");
    assert_eq!(
        route(&["main"], Phase::Error("e".to_string())),
        "Replace { page: Error { text: \"e\" } }"
    );
}

#[test]
fn pages_have_tags_and_texts() {
    assert!(visible_tag_is(&stack(&["a", "b"]), "b"));
    assert!(!visible_tag_is(&stack(&["a", "b"]), "a"));
    assert!(!visible_tag_is(&stack(&[]), "a"));
    assert!(matches!(ensure_page(&stack(&["login-qr"]), Page::Qr), Route::Stay));
    assert!(matches!(first_page(true), Page::Loading));
    assert!(matches!(first_page(false), Page::Credentials));
    assert_eq!(Page::Credentials.tag(), "credentials");
    assert_eq!(Page::Main.tag(), "main");
    assert!(Page::Main.status().is_none());
    let (title, text) = Page::Closed.status().unwrap();
    assert_eq!(title, "Signed out");
    assert_eq!(text, "Your session has ended. Restart Paloma to sign in again.");
    let (title, text) = Page::Error { text: "oops".to_string() }.status().unwrap();
    assert_eq!((title.as_str(), text.as_str()), ("Something went wrong", "oops"));
    assert_eq!(Page::Registration.status().unwrap().0, "Registration required");
}

#[test]
fn one_chat_is_open_at_a_time() {
    let mut p = MainPane::new();
    assert_eq!(p.activate(4), Activation::Open { close: None });
    assert_eq!(p.activate(4), Activation::Reveal);
    assert_eq!(p.activate(5), Activation::Open { close: Some(4) });
    assert!(p.is_current(5));
    assert!(!p.is_current(4));
    assert!(!MainPane::new().is_current(0));
    assert_eq!(content_title(""), "Chat");
    assert_eq!(content_title("Ann"), "Ann");
}

fn date(year: i32, month: i32, day: i32) -> LocalDate {
    LocalDate { year, month, day }
}

#[test]
fn sidebar_labels_by_day() {
    let now = date(2025, 3, 2);
    let back = [
        Some(date(2025, 3, 1)),
        Some(date(2025, 2, 28)),
        Some(date(2025, 2, 27)),
        Some(date(2025, 2, 26)),
        Some(date(2025, 2, 25)),
        Some(date(2025, 2, 24)),
    ];
    let label = |d: LocalDate| sidebar_time(Some(d), Some(now), &back);
    assert_eq!(label(now), Label::Clock);
    assert_eq!(label(date(2025, 3, 1)), Label::Yesterday);
    assert_eq!(label(date(2025, 2, 28)), Label::Weekday);
    assert_eq!(label(date(2025, 2, 24)), Label::Weekday);
    assert_eq!(label(date(2025, 2, 23)), Label::Date);
    assert_eq!(label(date(2024, 3, 2)), Label::Date);
    assert_eq!(label(date(2025, 3, 3)), Label::Date);
    assert_eq!(sidebar_time(None, Some(now), &back), Label::Nothing);
    assert_eq!(sidebar_time(Some(now), None, &back), Label::Nothing);
    assert_eq!(sidebar_time(Some(date(2025, 3, 1)), Some(now), &[]), Label::Date);
    assert_eq!(
        sidebar_time(Some(date(2025, 2, 28)), Some(now), &[None, back[1]]),
        Label::Weekday
    );
}

#[test]
fn separator_labels_by_day() {
    let now = date(2025, 1, 1);
    let yesterday = Some(date(2024, 12, 31));
    let label = |d: LocalDate| date_separator(Some(d), Some(now), yesterday);
    assert_eq!(label(now), Label::Today);
    assert_eq!(label(date(2024, 12, 31)), Label::Yesterday);
    assert_eq!(label(date(2025, 8, 9)), Label::DayMonth);
    assert_eq!(label(date(2024, 12, 30)), Label::DayMonthYear);
    assert_eq!(date_separator(None, Some(now), yesterday), Label::Nothing);
    assert_eq!(message_time(Some(now)), Label::Clock);
    assert_eq!(message_time(None), Label::Nothing);
    assert!(same_date(now, now));
    assert!(!same_local_day(None, None));
    assert!(same_local_day(Some(now), Some(now)));
}

#[test]
fn labels_have_patterns_and_texts() {
    assert_eq!(pattern(Label::Clock).as_deref(), Some("%H:%M"));
    assert_eq!(pattern(Label::Weekday).as_deref(), Some("%a"));
    assert_eq!(pattern(Label::Date).as_deref(), Some("%d/%m/%y"));
    assert_eq!(pattern(Label::DayMonth).as_deref(), Some("%e %B"));
    assert_eq!(pattern(Label::DayMonthYear).as_deref(), Some("%e %B %Y"));
    assert_eq!(pattern(Label::Today), None);
    assert_eq!(label_text(Label::Today, None), "Today");
    assert_eq!(label_text(Label::Yesterday, None), "Yesterday");
    assert_eq!(label_text(Label::Nothing, Some("x".to_string())), "");
    assert_eq!(label_text(Label::Clock, Some("14:30".to_string())), "14:30");
    assert_eq!(label_text(Label::Weekday, None), "");
    assert_eq!(label_text(Label::DayMonth, Some(" 9 August".to_string())), "9 August");
}

#[test]
fn login_entries() {
    assert!(matches!(phone("  +43 1 "), Entry::Submit { text } if text == "+43 1"));
    assert!(matches!(phone(" "), Entry::Hint { text } if text == "Enter your phone number"));
    assert!(matches!(code(" 12345\n"), Entry::Submit { text } if text == "12345"));
    assert!(matches!(code(""), Entry::Hint { text } if text == "Enter the login code"));
    assert!(matches!(password(" p "), Entry::Submit { text } if text == " p "));
    assert!(matches!(password(" "), Entry::Submit { text } if text == " "));
    assert!(matches!(password(""), Entry::Hint { text } if text == "Enter your password"));
}

#[test]
fn links_become_qr_codes() {
    let link = "tg://login?token=abc";
    let image = render_qr(link, 321).unwrap();
    assert_eq!(image.file_name, "paloma-qr-321.svg");
    let expected = qrcode::QrCode::new(link.as_bytes())
        .unwrap()
        .render::<qrcode::render::svg::Color>()
        .min_dimensions(240, 240)
        .dark_color(qrcode::render::svg::Color("#000000"))
        .light_color(qrcode::render::svg::Color("#ffffff"))
        .build();
    assert_eq!(image.svg, expected);
    assert!(image.svg.starts_with("<?xml"));
    let long = "x".repeat(6000);
    assert!(can_render(&long));
    assert!(render_qr(&long, 1).is_none());
}

#[test]
fn links_that_can_be_rendered() {
    assert!(can_render(""));
    assert!(can_render("tg://login?token=abc"));
    // The texts that split into the most segments, and plain ones.
    for part in ["a1234", "aABCDEFG", "x", "7", "A", "\u{7f}"] {
        let text: String = part.chars().cycle().take(213).collect();
        assert!(can_render(&text));
        assert!(render_qr(&text, 1).is_some());
        assert!(!can_render(&format!("{text}x")));
    }
    assert!(render_qr("", 1).is_some());
    assert!(!can_render("tg://\u{80}"));
    assert!(!can_render(&"7".repeat(5601)));
    assert!(can_render(&"7".repeat(5602)));
    assert!(render_qr(&"7".repeat(5602), 1).is_none());
    assert!(render_qr(&"é".repeat(5602), 1).is_none());
}

#[test]
fn images_need_a_code() {
    assert!(qr_image(None, 1).is_none());
    let i = qr_image(Some("<svg/>".to_string()), 0).unwrap();
    assert_eq!((i.file_name.as_str(), i.svg.as_str()), ("paloma-qr-0.svg", "<svg/>"));
}
