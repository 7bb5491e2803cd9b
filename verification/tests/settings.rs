use protonvpn::protocol::ConnectionProtocol;
use protonvpn::settings::{
    ask_enum, ask_for_settings, configure, edit, initialize, protocol_names, read_secret, read_value,
    tier_names, LineReader, Setting, Settings, SettingsError,
};
use protonvpn::tier::PlanTier;
use protonvpn::user::UserConfig;

#[test]
fn cli_hooks_test_configure() {
    let mut stdin = LineReader::new("0\nhybras\n");
    let mut stdout = String::new();

    let expected = UserConfig { username: "hybras".into(), ..Default::default() };
    let mut config = UserConfig::default();

    configure(&mut config, &mut stdin, &mut stdout)
        .expect("Failed to interact with user to get config");
    assert_eq!(expected, config);
}

#[test]
fn test_initialize() {
    let mut stdin = LineReader::new("hybras\nshitty password\n2\n1\n");
    let mut stdout = String::new();

    let expected = UserConfig {
        username: "hybras".into(),
        password: "shitty password".into(),
        tier: PlanTier::Plus,
        protocol: ConnectionProtocol::TCP,
        ..Default::default()
    };
    let mut config = UserConfig::default();

    initialize(&mut config, &mut stdin, &mut stdout)
        .expect("Failed to interact with user to get config");
    assert_eq!(expected, config);
}

#[test]
fn configure_test_configure() {
    let mut stdin = LineReader::new("0\nhybras\n");
    let mut stdout = String::new();

    let expected = UserConfig::new("hybras".into(), "".into());
    let mut config = UserConfig::default();

    configure(&mut config, &mut stdin, &mut stdout)
        .expect("Failed to interact with user to get config");
    assert_eq!(expected, config);
}

#[test]
fn test_ask_for_settings() {
    let mut stdin = LineReader::new("hybras\nshitty password\n2\n1\n");
    let mut stdout = String::new();

    let expected = UserConfig {
        username: "hybras".into(),
        password: "shitty password".into(),
        tier: PlanTier::Plus,
        protocol: ConnectionProtocol::TCP,
        ..Default::default()
    };
    let mut config = UserConfig::default();

    ask_for_settings(&mut config, &mut stdin, &mut stdout)
        .expect("Failed to interact with user to get config");
    assert_eq!(expected, config);
}

#[test]
fn test_set_username() {
    let input = LineReader::new("hello\n");
    let output = String::new();
    let mut settings = Settings::new(UserConfig::default(), output, input);
    let old = settings.set_username();
    let user_config = settings.inner();
    match old {
        Ok(old) => {
            assert_eq!(user_config.username, "hello");
            assert_eq!(old, "");
        }
        Err(_) => assert!(false, "Setting username failed"),
    }
}

#[test]
fn test_set_tier() {
    let input = LineReader::new("2\n");
    let output = String::new();
    let mut settings = Settings::new(UserConfig::default(), output, input);
    let old = settings.set_tier();
    let user_config = settings.inner();
    match old {
        Ok(old) => {
            assert_eq!(user_config.tier, PlanTier::Plus);
            assert_eq!(old, PlanTier::Free);
        }
        Err(_) => assert!(false, "Setting Tier failed"),
    }
}

#[test]
fn test_set_pass() {
    let input = LineReader::new("password\n");
    let output = String::new();
    let user = UserConfig::default();
    let mut settings = Settings::new(user, output, input);

    let old = settings.set_password().unwrap();
    let output = settings.stdout.clone();
    let user = settings.inner();

    assert_eq!("password", user.password);
    assert_eq!("", old);
    assert_eq!("Enter password: \n", output);
}

#[test]
fn set_protocol_reads_an_index() {
    let mut settings =
        Settings::new(UserConfig::default(), String::new(), LineReader::new("1\n"));
    assert_eq!(settings.set_protocol(), Ok(ConnectionProtocol::UDP));
    assert_eq!(settings.into_inner().protocol, ConnectionProtocol::TCP);
}

#[test]
fn enum_field_prints_every_option_with_its_index() {
    let mut stdin = LineReader::new("3\n");
    let mut stdout = String::new();
    let picked = ask_enum("Plan Tier", &tier_names(), &mut stdin, &mut stdout);
    assert_eq!(picked, Ok(3));
    assert_eq!(
        stdout,
        "Plan Tier: \n\t0) Free\n\t1) Basic\n\t2) Plus\n\t3) Visionary\nEnter Plan Tier: "
    );
}

#[test]
fn enum_field_asks_again_after_an_invalid_line() {
    let mut stdin = LineReader::new("nine\n7\n\n 1 \nrest\n");
    let mut stdout = String::new();
    let picked = ask_enum("Connection Protocol", &protocol_names(), &mut stdin, &mut stdout);
    assert_eq!(picked, Ok(1));
    assert_eq!(
        stdout,
        "Connection Protocol: \n\t0) UDP\n\t1) TCP\n\
         Enter Connection Protocol: Enter a 𝑣𝑎𝑙𝑖𝑑 number\n\
         Enter Connection Protocol: Enter a 𝑣𝑎𝑙𝑖𝑑 number\n\
         Enter Connection Protocol: Enter a 𝑣𝑎𝑙𝑖𝑑 number\n\
         Enter Connection Protocol: "
    );
    assert_eq!(read_value("x", &mut stdin, &mut stdout), "rest");
}

#[test]
fn enum_field_fails_when_the_input_ends() {
    let mut stdin = LineReader::new("4\n");
    let mut stdout = String::new();
    let picked = ask_enum("Plan Tier", &tier_names(), &mut stdin, &mut stdout);
    assert_eq!(picked, Err(SettingsError::EndOfInput));
}

#[test]
fn value_field_is_trimmed() {
    let mut stdin = LineReader::new("  hybras \t\r\n");
    let mut stdout = String::new();
    assert_eq!(read_value("username", &mut stdin, &mut stdout), "hybras");
    assert_eq!(stdout, "Enter your username: ");
}

#[test]
fn secret_keeps_blanks_and_loses_the_line_end() {
    let mut stdin = LineReader::new(" a b \r\nnext");
    let mut stdout = String::new();
    assert_eq!(read_secret(&mut stdin, &mut stdout), " a b ");
    assert_eq!(read_secret(&mut stdin, &mut stdout), "next");
    assert_eq!(read_secret(&mut stdin, &mut stdout), "");
}

#[test]
fn initialize_leaves_settings_alone_when_input_ends_early() {
    let mut stdin = LineReader::new("hybras\nsecret\n2\n");
    let mut stdout = String::new();
    let mut config = UserConfig::new("before".into(), "old".into());
    let r = initialize(&mut config, &mut stdin, &mut stdout);
    assert_eq!(r, Err(SettingsError::EndOfInput));
    assert_eq!(config, UserConfig::new("before".into(), "old".into()));
}

#[test]
fn configure_rejects_a_line_that_spells_no_number() {
    for input in ["x\n", "\n", "", "256\n", "-1\n", "1 2\n", "++1\n"] {
        let mut stdin = LineReader::new(input);
        let mut stdout = String::new();
        let mut config = UserConfig::default();
        let r = configure(&mut config, &mut stdin, &mut stdout);
        assert_eq!(r, Err(SettingsError::GarbageValue), "{:?}", input);
        assert_eq!(config, UserConfig::default());
        assert_eq!(
            stdout,
            "Options: \n0) Username\n1) Password\n2) Tier\n3) Protocol\nEnter Option: \n"
        );
    }
}

#[test]
fn configure_sets_nothing_for_a_number_that_names_no_setting() {
    for input in ["4\nhybras\n", "255\n", " 17 \n", "+9\n"] {
        let mut stdin = LineReader::new(input);
        let mut stdout = String::new();
        let mut config = UserConfig::new("u".into(), "p".into());
        let r = configure(&mut config, &mut stdin, &mut stdout);
        assert_eq!(r, Ok(()), "{:?}", input);
        assert_eq!(config, UserConfig::new("u".into(), "p".into()));
        assert_eq!(
            stdout,
            "Options: \n0) Username\n1) Password\n2) Tier\n3) Protocol\nEnter Option: \n"
        );
    }
}

#[test]
fn menu_numbers_and_the_order_of_all_settings() {
    assert_eq!(
        Setting::order(),
        vec![Setting::Username, Setting::Password, Setting::Tier, Setting::Protocol]
    );
    for (i, setting) in Setting::order().into_iter().enumerate() {
        assert_eq!(Setting::from_index(i), Some(setting));
    }
    assert_eq!(Setting::from_index(4), None);
    assert_eq!(Setting::from_index(usize::MAX), None);
    let names: Vec<&str> = Setting::order().into_iter().map(Setting::name).collect();
    assert_eq!(names, vec!["Username", "Password", "Tier", "Protocol"]);
}

#[test]
fn one_setting_is_asked_for_by_its_kind() {
    let mut stdin = LineReader::new("n\ns\n1\n+1\n");
    let mut stdout = String::new();
    let mut config = UserConfig::default();
    for setting in Setting::order() {
        assert_eq!(edit(setting, &mut config, &mut stdin, &mut stdout), Ok(()));
    }
    let expected = UserConfig {
        tier: PlanTier::Basic,
        protocol: ConnectionProtocol::TCP,
        ..UserConfig::new("n".into(), "s".into())
    };
    assert_eq!(config, expected);
    assert_eq!(
        edit(Setting::Tier, &mut config, &mut stdin, &mut stdout),
        Err(SettingsError::EndOfInput)
    );
    assert_eq!(config, expected);
}

#[test]
fn secret_keeps_a_carriage_return_that_no_line_feed_follows() {
    let mut stdout = String::new();
    let mut stdin = LineReader::new("abc\r");
    assert_eq!(read_secret(&mut stdin, &mut stdout), "abc\r");
    let mut stdin = LineReader::new("abc\r\n");
    assert_eq!(read_secret(&mut stdin, &mut stdout), "abc");
    let mut stdin = LineReader::new("abc\r\r\n\r\n\n");
    assert_eq!(read_secret(&mut stdin, &mut stdout), "abc\r");
    assert_eq!(read_secret(&mut stdin, &mut stdout), "");
    assert_eq!(read_secret(&mut stdin, &mut stdout), "");
    assert_eq!(read_secret(&mut stdin, &mut stdout), "");
    let mut stdin = LineReader::new("\r");
    assert_eq!(read_secret(&mut stdin, &mut stdout), "\r");
}

#[test]
fn value_field_loses_every_kind_of_white_space_around_it() {
    let mut stdin = LineReader::new("\u{a0}\u{2003} hy bras\u{3000}\u{85}\r\n");
    let mut stdout = String::new();
    assert_eq!(read_value("username", &mut stdin, &mut stdout), "hy bras");
    let mut stdin = LineReader::new("\u{2009}+2\u{2028}\n");
    assert_eq!(ask_enum("Plan Tier", &tier_names(), &mut stdin, &mut stdout), Ok(2));
}

#[test]
fn configure_sets_exactly_one_field() {
    let mut stdin = LineReader::new("2\n3\n");
    let mut stdout = String::new();
    let mut config = UserConfig::new("u".into(), "p".into());
    assert_eq!(configure(&mut config, &mut stdin, &mut stdout), Ok(()));
    let expected = UserConfig { tier: PlanTier::Visionary, ..UserConfig::new("u".into(), "p".into()) };
    assert_eq!(config, expected);

    let mut stdin = LineReader::new("1\ns3cret\n");
    let mut config = UserConfig::new("u".into(), "p".into());
    assert_eq!(configure(&mut config, &mut stdin, &mut stdout), Ok(()));
    assert_eq!(config, UserConfig::new("u".into(), "s3cret".into()));

    let mut stdin = LineReader::new("3\n1\n");
    let mut config = UserConfig::new("u".into(), "p".into());
    assert_eq!(configure(&mut config, &mut stdin, &mut stdout), Ok(()));
    assert_eq!(config.protocol, ConnectionProtocol::TCP);
}

#[test]
fn default_settings() {
    let u = UserConfig::default();
    assert_eq!(u.username, "");
    assert_eq!(u.password, "");
    assert_eq!(u.tier, PlanTier::Free);
    assert_eq!(u.protocol, ConnectionProtocol::UDP);
    assert!(u.dns_leak_protection);
    assert!(u.custom_dns.is_empty());
    assert_eq!(u.check_update_interval, 3);
    assert_eq!(u.killswitch, 0);
    assert!(!u.split_tunnel);
    assert_eq!(u.api_domain, "https://api.protonvpn.ch/");
}
