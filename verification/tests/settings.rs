use mtui::config::{
    base, cookie, sapisid, unusable_message, Base, CookieFile, Cookies, CoverStyle, Discord,
    IconTheme, ImageRenderer, Import, Presence, Removal, Settings,
};
use mtui::session::{
    argument_message, arguments, cookie_header, failure_of, failure_reason, has_signing_cookie,
    helper_name, helper_request, import, leftover_message, missing_message, outcome,
    ArgumentError, Happening, FORCE_ARG, HELPER_ARG, HELPER_NAME, PROFILE_ARG, SESSION_NAME,
};

/// Reads a settings file: the fields that it has, whatever else is in it.
fn read(body: &str) -> Settings {
    let value: serde_json::Value = serde_json::from_str(body).unwrap();
    let name = |key: &str| value.get(key).and_then(|v| v.as_str()).map(str::to_string);
    Settings::load(Settings::read(
        value.get("start_in_tray").and_then(|v| v.as_bool()),
        &name("icon_theme"),
        &name("cover_style"),
        &name("image_renderer"),
    ))
}

fn list(args: &[&str]) -> Vec<String> {
    args.iter().map(|arg| arg.to_string()).collect()
}

#[test]
fn finds_the_signing_cookie_in_a_real_header() {
    // A browser sends a dozen of these in one line, in no fixed order.
    let header = "VISITOR_INFO1_LIVE=abc; YSC=def; SAPISID=ThE0nEtHaTmAtTeRs; \
                  __Secure-1PSID=xyz; PREF=tz=Asia.Ho_Chi_Minh";
    assert_eq!(sapisid(header).as_deref(), Some("ThE0nEtHaTmAtTeRs"));
}

#[test]
fn falls_back_to_the_third_party_cookie() {
    // A browser restricting third-party cookies issues `__Secure-3PAPISID`
    // and not always `SAPISID`; they carry the same value for signing.
    let header = "YSC=def; __Secure-3PAPISID=SameValue; PREF=x";
    assert_eq!(sapisid(header).as_deref(), Some("SameValue"));
}

#[test]
fn a_cookie_name_that_merely_ends_in_sapisid_is_not_it() {
    // `__Secure-1PAPISID` is a different cookie and signing with it fails
    // in a way that looks exactly like an expired session.
    let header = "__Secure-1PAPISID=wrong; HSID=x";
    assert_eq!(sapisid(header), None);
}

#[test]
fn a_header_with_nothing_to_sign_with_is_rejected() {
    assert_eq!(sapisid("YSC=def; PREF=x"), None);
    assert_eq!(sapisid(""), None);
    // A value containing `=` (base64 padding) survives the split.
    assert_eq!(sapisid("SAPISID=pad==").as_deref(), Some("pad=="));
}

#[test]
fn cookies_are_found_by_their_name() {
    assert_eq!(cookie("a=1; b=2", "b").as_deref(), Some("2"));
    assert_eq!(cookie("a=1; a=2", "a").as_deref(), Some("1"));
    assert_eq!(cookie("a=1", "A"), None);
    let cookies = Cookies::from_header(" SAPISID=x; PREF=y \n").unwrap();
    assert_eq!(cookies.header(), "SAPISID=x; PREF=y");
    assert_eq!(cookies.sapisid(), "x");
    assert!(Cookies::from_header("PREF=y").is_none());
}

fn imported(header: &str) -> Option<Import> {
    Some(Import {
        browser: SESSION_NAME.to_string(),
        header: header.to_string(),
        at: 0,
    })
}

#[test]
fn the_imported_session_comes_before_the_file() {
    assert!(matches!(Cookies::load(None), CookieFile::Empty));
    assert!(matches!(Cookies::load(Some("  ")), CookieFile::Empty));
    assert!(matches!(Cookies::load(Some("PREF=y")), CookieFile::Unusable));
    let chosen = Cookies::available(
        &imported("SAPISID=imported"),
        Cookies::load(Some("SAPISID=file")),
    );
    match chosen {
        CookieFile::Session(c) => assert_eq!(c.sapisid(), "imported"),
        _ => panic!("there is a session"),
    }
    let fallen = Cookies::available(&imported("PREF=y"), Cookies::load(Some("SAPISID=file")));
    match fallen {
        CookieFile::Session(c) => assert_eq!(c.sapisid(), "file"),
        _ => panic!("there is a file"),
    }
    assert!(unusable_message("/tmp/x").starts_with("/tmp/x has no SAPISID cookie in it."));
}

#[test]
fn signing_out_forgets_both_sessions() {
    assert_eq!(Cookies::forget(Removal::Removed, Removal::Missing), Ok(()));
    let busy = || Removal::Failed("busy".to_string());
    assert_eq!(
        Cookies::forget(Removal::Missing, busy()),
        Err("busy".to_string())
    );
    assert_eq!(
        Cookies::forget(Removal::Failed("locked".to_string()), busy()),
        Err("locked".to_string())
    );
    assert_eq!(Import::forget(Removal::Missing), Ok(()));
}

#[test]
fn old_or_empty_settings_default_to_the_terminal() {
    assert!(!Settings::default().start_in_tray);
    let settings: Settings = read("{}");
    assert!(!settings.start_in_tray);
    assert_eq!(settings.icon_theme, IconTheme::Signal);
    assert_eq!(settings.cover_style, CoverStyle::Pixel);
    assert_eq!(settings.image_renderer, ImageRenderer::Automatic);

    let legacy: Settings = read(r#"{"start_in_tray":true}"#);
    assert!(legacy.start_in_tray);
    assert_eq!(legacy.icon_theme, IconTheme::Signal);
    assert_eq!(legacy.cover_style, CoverStyle::Pixel);
    assert_eq!(legacy.image_renderer, ImageRenderer::Automatic);
}

#[test]
fn the_tray_preference_round_trips() {
    let chosen = Settings {
        start_in_tray: true,
        icon_theme: IconTheme::Wave,
        cover_style: CoverStyle::ColoredAscii,
        image_renderer: ImageRenderer::Kitty,
    };
    let body = format!(
        r#"{{"start_in_tray":{},"icon_theme":"{}","cover_style":"{}","image_renderer":"{}"}}"#,
        chosen.start_in_tray,
        chosen.icon_theme.config_name(),
        chosen.cover_style.config_name(),
        chosen.image_renderer.config_name(),
    );
    let settings = read(&body);
    assert!(settings.start_in_tray);
    assert_eq!(settings.icon_theme, IconTheme::Wave);
    assert_eq!(settings.cover_style, CoverStyle::ColoredAscii);
    assert_eq!(settings.image_renderer, ImageRenderer::Kitty);
}

#[test]
fn a_spoiled_settings_file_is_as_if_nothing_had_been_chosen() {
    let settings = read(r#"{"start_in_tray":true,"icon_theme":"plaid"}"#);
    assert!(!settings.start_in_tray);
    assert_eq!(settings.icon_theme, IconTheme::Signal);
}

#[test]
fn cover_styles_cycle_and_use_stable_config_names() {
    assert_eq!(CoverStyle::Pixel.next(), CoverStyle::ColoredAscii);
    assert_eq!(CoverStyle::ColoredAscii.next(), CoverStyle::Pixel);
    assert_eq!(CoverStyle::Pixel.previous(), CoverStyle::ColoredAscii);
    assert_eq!(CoverStyle::ColoredAscii.config_name(), "colored-ascii");
}

#[test]
fn image_renderers_cycle_and_use_stable_config_names() {
    assert_eq!(ImageRenderer::Automatic.next(), ImageRenderer::Kitty);
    assert_eq!(ImageRenderer::Kitty.next(), ImageRenderer::PixelArt);
    assert_eq!(ImageRenderer::PixelArt.next(), ImageRenderer::Automatic);
    assert_eq!(ImageRenderer::Automatic.previous(), ImageRenderer::PixelArt);
    assert_eq!(ImageRenderer::PixelArt.config_name(), "pixel-art");
}

#[test]
fn icon_themes_cycle_and_use_stable_config_names() {
    assert_eq!(IconTheme::Signal.next(), IconTheme::Wave);
    assert_eq!(IconTheme::Signal.previous(), IconTheme::Mono);
    assert_eq!(IconTheme::Wave.next(), IconTheme::Orbit);
    assert_eq!(IconTheme::Orbit.next(), IconTheme::Mono);
    assert_eq!(IconTheme::Mono.next(), IconTheme::Signal);
    assert_eq!(IconTheme::Wave.config_name(), "wave");
}

#[test]
fn names_lead_back_to_the_choice() {
    assert_eq!(IconTheme::from_config_name("orbit"), Some(IconTheme::Orbit));
    assert_eq!(IconTheme::from_config_name("Orbit"), None);
    assert_eq!(
        CoverStyle::from_config_name("pixel"),
        Some(CoverStyle::Pixel)
    );
    assert_eq!(
        ImageRenderer::from_config_name("automatic"),
        Some(ImageRenderer::Automatic)
    );
}

#[test]
fn config_lives_where_the_platform_says() {
    assert_eq!(base(true, true, Some(true), true), Some(Base::AppData));
    assert_eq!(base(true, false, Some(true), true), None);
    assert_eq!(base(false, false, Some(true), true), Some(Base::Xdg));
    assert_eq!(base(false, false, Some(false), true), Some(Base::HomeConfig));
    assert_eq!(base(false, false, None, false), None);
    assert!(!Presence::load(None));
    assert!(Presence::load(Some(Presence { enabled: true })));
    let named = |id: &str| Discord {
        application_id: id.to_string(),
    };
    assert_eq!(named("  ").application_id(), None);
    assert_eq!(named(" 42 ").application_id().as_deref(), Some("42"));
}

#[test]
fn private_arguments_are_distinct() {
    assert_ne!(PROFILE_ARG, FORCE_ARG);
}

#[test]
fn helper_flag_is_private_and_unambiguous() {
    assert!(HELPER_ARG.starts_with("--mtui-"));
    assert_ne!(HELPER_ARG, FORCE_ARG);
}

#[test]
fn companion_is_named_after_the_player() {
    assert_eq!(helper_name(""), HELPER_NAME);
    assert_eq!(helper_name(".exe"), "mtui-sign-in.exe");
    assert_eq!(
        missing_message("/bin/mtui-sign-in", "/bin/mtui"),
        "the YouTube Music sign-in helper is missing; install /bin/mtui-sign-in beside /bin/mtui"
    );
}

#[test]
fn the_arguments_of_the_window_are_read() {
    assert_eq!(
        arguments(&list(&["--profile", "/tmp/p", "--clear-session"])),
        Ok((1, true))
    );
    assert_eq!(arguments(&list(&["--profile", "/tmp/p"])), Ok((1, false)));
    assert_eq!(arguments(&list(&[])), Err(ArgumentError::NoProfile));
    assert_eq!(
        arguments(&list(&["--profile", "/tmp/p", "--what"])),
        Err(ArgumentError::Unknown(2))
    );
    assert_eq!(
        argument_message(&ArgumentError::Unknown(2), "--what"),
        "unknown sign-in helper argument: --what"
    );
    assert_eq!(
        argument_message(&ArgumentError::NoProfile, ""),
        "the sign-in helper needs a profile path"
    );
    assert_eq!(helper_request(&list(&["--other"])), None);
    assert_eq!(helper_request(&list(&[HELPER_ARG])), Some(false));
    assert_eq!(helper_request(&list(&[FORCE_ARG, HELPER_ARG])), Some(true));
}

#[test]
fn waits_for_a_cookie_that_can_sign_music_requests() {
    assert!(!has_signing_cookie("YSC=x; PREF=y"));
    assert!(has_signing_cookie("YSC=x; SAPISID=secret"));
    assert!(has_signing_cookie("__Secure-3PAPISID=secret; PREF=y"));
    assert!(!has_signing_cookie("SAPISID=  "));
}

#[test]
fn the_window_closes_once_it_can_sign() {
    let pair = |name: &str, value: &str| (name.to_string(), value.to_string());
    assert_eq!(
        cookie_header(&vec![pair("YSC", "x"), pair("SAPISID", "s")]),
        "YSC=x; SAPISID=s"
    );
    assert_eq!(
        outcome(Happening::Looked(Ok(vec![pair("SAPISID", "s")]))),
        Some(Ok("SAPISID=s".to_string()))
    );
    assert_eq!(outcome(Happening::Looked(Ok(vec![pair("YSC", "x")]))), None);
    assert_eq!(
        outcome(Happening::Looked(Err("gone".to_string()))),
        Some(Err("gone".to_string()))
    );
    assert_eq!(
        outcome(Happening::Closed),
        Some(Err("YouTube Music sign-in was cancelled".to_string()))
    );
    assert_eq!(outcome(Happening::Other), None);
}

#[test]
fn what_the_window_printed_is_kept() {
    let kept = import(" SAPISID=s; YSC=x \n", 17).unwrap();
    assert_eq!(kept.browser, SESSION_NAME);
    assert_eq!(kept.header, "SAPISID=s; YSC=x");
    assert_eq!(kept.at, 17);
    assert_eq!(
        import("YSC=x", 17).unwrap_err(),
        "YouTube Music did not provide a signing cookie"
    );
}

#[test]
fn the_first_thing_the_window_said_is_why_it_failed() {
    assert_eq!(failure_reason("\n  no display \nmore"), "no display");
    assert_eq!(
        failure_reason("\n"),
        "the sign-in window closed without a session"
    );
    assert_eq!(failure_of(b"bad \xff byte\n"), "bad \u{fffd} byte");
    assert_eq!(
        leftover_message("/tmp/p", "denied"),
        "could not clear the sign-in window data at /tmp/p: denied"
    );
}
