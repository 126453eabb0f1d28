use ircbot::config::{Bot, Config, PluginConfig};
use ircbot::message::{encode_line, parse_line};
use ircbot::plugins::{
    build_plugin, build_plugins, enabled_plugins, user_text_of, EchoPlugin, PluginError, PluginKind, PluginSetup,
};
use ircbot::weather::split_first_word;

fn bot(host: &str) -> Bot {
    Bot {
        host: host.to_string(),
        port: 6667,
        use_tls: false,
        nick: "n".to_string(),
        ident: "i".to_string(),
        real_name: "r".to_string(),
        channels: vec![],
    }
}

fn weather_section(key: Option<&str>) -> PluginConfig {
    let mut c = PluginConfig::new();
    c.insert("other".to_string(), "x".to_string());
    if let Some(k) = key {
        c.insert("openweathermap-apikey".to_string(), k.to_string());
    }
    c
}

#[test]
fn plugin_config_insert_and_get() {
    let mut c = PluginConfig::new();
    assert!(c.get("a").is_none());
    c.insert("a".to_string(), "1".to_string());
    c.insert("b".to_string(), "2".to_string());
    c.insert("a".to_string(), "3".to_string());
    assert_eq!(c.get("a").map(|s| s.as_str()), Some("3"));
    assert_eq!(c.get("b").map(|s| s.as_str()), Some("2"));
    assert!(c.get("c").is_none());
}

#[test]
fn find_bot_by_host() {
    let cfg = Config { bots: vec![bot("irc.a"), bot("irc.b")], plugins: vec![] };
    assert_eq!(cfg.find_bot("irc.b").unwrap().host, "irc.b");
    assert!(cfg.find_bot("irc.c").is_err());
}

#[test]
fn registry_enables_weather_only() {
    assert_eq!(enabled_plugins(), vec![PluginKind::Weather]);
    assert_eq!(PluginKind::Weather.name(), "weather");
    assert_eq!(PluginKind::Echo.name(), "echo");
}

#[test]
fn weather_needs_a_section_and_a_key() {
    assert_eq!(build_plugin(PluginKind::Weather, None).err(), Some(PluginError::MissingSection(PluginKind::Weather)));
    let no_key = weather_section(None);
    assert_eq!(
        build_plugin(PluginKind::Weather, Some(&no_key)).err(),
        Some(PluginError::MissingOption(PluginKind::Weather))
    );
    let with_key = weather_section(Some("k123"));
    match build_plugin(PluginKind::Weather, Some(&with_key)) {
        Ok(PluginSetup::Weather { api_key }) => assert_eq!(api_key, "k123"),
        _ => panic!("expected a weather setup"),
    }
    assert!(matches!(build_plugin(PluginKind::Echo, None), Ok(PluginSetup::Echo)));
}

#[test]
fn building_all_plugins_fails_as_one() {
    let cfg = Config { bots: vec![], plugins: vec![("echo".to_string(), weather_section(Some("k")))] };
    assert_eq!(build_plugins(&cfg).err(), Some(PluginError::MissingSection(PluginKind::Weather)));
    let cfg = Config {
        bots: vec![],
        plugins: vec![
            ("weather".to_string(), weather_section(Some("k1"))),
            ("weather".to_string(), weather_section(Some("k2"))),
        ],
    };
    let built = build_plugins(&cfg).unwrap();
    assert_eq!(built.len(), 1);
    assert_eq!(built[0].0, PluginKind::Weather);
    match &built[0].1 {
        PluginSetup::Weather { api_key } => assert_eq!(api_key, "k1"),
        PluginSetup::Echo => panic!("expected a weather setup"),
    }
}

#[test]
fn split_first_word_cases() {
    assert_eq!(split_first_word("\\w London, UK"), ("\\w", Some("London, UK")));
    assert_eq!(split_first_word("\\w"), ("\\w", None));
    assert_eq!(split_first_word(""), ("", None));
    assert_eq!(split_first_word(" x"), ("", Some("x")));
    assert_eq!(split_first_word("a "), ("a", Some("")));
}

#[test]
fn echo_thanks_the_sender() {
    let echo = EchoPlugin::new();
    let m = parse_line(":nick!id@host PRIVMSG #chan :hi \"there\"").unwrap();
    let reply = echo.reply(&m).unwrap();
    let user = m.source_as_user().unwrap();
    assert_eq!(user_text_of(&user), format!("{:?}", user));
    assert_eq!(
        encode_line(&reply).unwrap(),
        "PRIVMSG #chan :Hey User { nick: \"nick\", ident: \"id\", host: \"host\" } thanks for saying `hi \"there\"'! Much appreciated\r\n"
    );
    assert!(echo.reply(&parse_line(":nick!id@host NOTICE #chan :hi").unwrap()).is_none());
    assert!(echo.reply(&parse_line(":server PRIVMSG #chan :hi").unwrap()).is_none());
    assert!(echo.reply(&parse_line(":nick!id@host PRIVMSG #chan a b").unwrap()).is_none());
}

#[test]
fn echo_text_layout() {
    assert_eq!(ircbot::plugins::echo_text_of("U", "x"), "Hey U thanks for saying `x'! Much appreciated");
}
