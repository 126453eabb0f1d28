use ircbot::weather::{
    db_path, get_icon, nick_key, parse_request, parse_units, units_named, LocationError, LocationSource, OwmQuery, Speed,
    Temperature, UserConfig, UserDb, Units, WeatherRequest,
};

#[test]
fn requests_are_read_from_the_first_word() {
    match parse_request("\\w London, UK") {
        Some(WeatherRequest::Weather(LocationSource::Given(l))) => assert_eq!(l, "London, UK"),
        _ => panic!("expected a weather request"),
    }
    match parse_request("\\t @SomeNick") {
        Some(WeatherRequest::Time(LocationSource::SavedOf(n))) => assert_eq!(n, "somenick"),
        _ => panic!("expected a time request"),
    }
    assert!(matches!(parse_request("\\w"), Some(WeatherRequest::Weather(LocationSource::SavedOfSender))));
    assert!(matches!(parse_request("\\wset"), Some(WeatherRequest::SetLocation(None))));
    match parse_request("\\wset Porto") {
        Some(WeatherRequest::SetLocation(Some(l))) => assert_eq!(l, "Porto"),
        _ => panic!("expected a location"),
    }
    match parse_request("\\units Metric") {
        Some(WeatherRequest::SetUnits(Some(u))) => assert_eq!(u, "Metric"),
        _ => panic!("expected units"),
    }
    assert!(parse_request("hello there").is_none());
    assert!(parse_request("\\weather x").is_none());
}

#[test]
fn units_by_name() {
    assert_eq!(parse_units("Metric"), Some(Units::metric()));
    assert_eq!(parse_units("IMPERIAL"), Some(Units::imperial()));
    assert_eq!(parse_units("kelvin"), None);
    assert_eq!(units_named("Metric"), None);
    assert_eq!(units_named("metric"), Some(Units { temperature: Temperature::Celsius, speed: Speed::KMH }));
    assert_eq!(nick_key("NiCk"), "nick");
}

#[test]
fn queries_are_classified() {
    assert_eq!(OwmQuery::from_text("id:1234").to_param(), "id=1234");
    assert_eq!(OwmQuery::from_text("90210").to_param(), "zip=90210");
    assert_eq!(OwmQuery::from_text("Paris, FR").to_param(), "q=Paris, FR");
    assert_eq!(OwmQuery::from_text("").to_param(), "zip=");
    assert_eq!(OwmQuery::from_text("id").to_param(), "q=id");
}

#[test]
fn icons_and_paths() {
    assert_eq!(get_icon("01d"), Some("\u{2600}\u{FE0F}"));
    assert_eq!(get_icon("04n"), Some("\u{2601}\u{FE0F}"));
    assert_eq!(get_icon("99x"), None);
    assert_eq!(db_path("irc.example"), "data/irc.example-weather");
}

#[test]
fn preference_table_forgets_empty_users() {
    let mut db = UserDb::new();
    assert!(db.get("a").is_none());
    db.set_user_units("a", None);
    assert!(db.get("a").is_none());
    db.set_user_units("a", Some(Units::metric()));
    let c = db.get("a").unwrap();
    assert_eq!((c.location, c.units), (None, Some(Units::metric())));
    db.set_user_location("a", Some("Lisbon".to_string()));
    let c = db.get("a").unwrap();
    assert_eq!((c.location.as_deref(), c.units), (Some("Lisbon"), Some(Units::metric())));
    db.set_user_units("a", None);
    let c = db.get("a").unwrap();
    assert_eq!((c.location.as_deref(), c.units), (Some("Lisbon"), None));
    db.set_user_location("a", None);
    assert!(db.get("a").is_none());
    assert!(db.entries().is_empty());
}

#[test]
fn preference_table_keeps_other_users() {
    let mut db = UserDb::new();
    db.insert("b".to_string(), UserConfig { location: Some("Oslo".to_string()), units: None });
    db.set_user_location("a", Some("Rome".to_string()));
    db.set_user_location("a", None);
    assert_eq!(db.get("b").unwrap().location.as_deref(), Some("Oslo"));
    assert_eq!(db.entries().len(), 1);
}

#[test]
fn locations_resolve_from_the_table() {
    let mut db = UserDb::new();
    db.set_user_location("alice", Some("Oslo".to_string()));
    match db.resolve_location(LocationSource::Given("Rome".to_string()), "bob") {
        Ok((q, n)) => assert_eq!((q.as_str(), n), ("Rome", None)),
        Err(_) => panic!("expected the given location"),
    }
    match db.resolve_location(LocationSource::SavedOf("alice".to_string()), "bob") {
        Ok((q, n)) => assert_eq!((q.as_str(), n.as_deref()), ("Oslo", Some("alice"))),
        Err(_) => panic!("expected alice's location"),
    }
    match db.resolve_location(LocationSource::SavedOf("carol".to_string()), "bob") {
        Err(LocationError::UnknownUser(n)) => assert_eq!(n, "carol"),
        _ => panic!("expected an unknown user"),
    }
    assert!(matches!(db.resolve_location(LocationSource::SavedOfSender, "bob"), Err(LocationError::NoSavedLocation)));
    match db.resolve_location(LocationSource::SavedOfSender, "alice") {
        Ok((q, n)) => assert_eq!((q.as_str(), n.as_deref()), ("Oslo", Some("alice"))),
        Err(_) => panic!("expected the sender's location"),
    }
}

#[test]
fn unit_labels() {
    assert_eq!(Speed::KMH.label(), "Km/h");
    assert_eq!(Speed::MPH.label(), "mph");
    assert_eq!(Temperature::Celsius.label(), "\u{B0}C");
    assert_eq!(Temperature::Fahrenheit.label(), "\u{B0}F");
}
