use bookmarker::dispatch::{
    autocomplete_reply, command_reply, pong, route, DispatchError, Interaction, Registry,
    RegistryError, ResponseKind, Route,
};

#[test]
fn ping_yields_pong() {
    let reg = Registry::new();
    assert_eq!(route(&reg, &Interaction::Ping), Ok(Route::Pong));
    let e: bookmarker::dispatch::Envelope<String> = pong();
    assert_eq!(e.kind.tag(), 1);
    assert!(e.data.is_none());
}

#[test]
fn unknown_command_is_reported() {
    let reg = Registry::standard();
    let r = route(&reg, &Interaction::Command { name: "greet".to_string() });
    assert_eq!(r, Err(DispatchError::UnknownCommand("greet".to_string())));
}

#[test]
fn command_matches_exact_name() {
    let reg = Registry::standard();
    assert_eq!(route(&reg, &Interaction::Command { name: "help".to_string() }), Ok(Route::Command(0)));
    assert_eq!(route(&reg, &Interaction::Command { name: "Bookmark".to_string() }), Ok(Route::Command(1)));
    assert_eq!(
        route(&reg, &Interaction::Command { name: "hel".to_string() }),
        Err(DispatchError::UnknownCommand("hel".to_string()))
    );
}

#[test]
fn autocomplete_uses_command_names() {
    let reg = Registry::standard();
    assert_eq!(
        route(&reg, &Interaction::Autocomplete { name: "Bookmark".to_string() }),
        Ok(Route::Autocomplete(1))
    );
    assert_eq!(
        route(&reg, &Interaction::Autocomplete { name: "x".to_string() }),
        Err(DispatchError::UnknownCommand("x".to_string()))
    );
}

#[test]
fn component_first_prefix_wins() {
    let mut reg = Registry::new();
    reg.add_component("a").unwrap();
    reg.add_component("ab").unwrap();
    assert_eq!(route(&reg, &Interaction::Component { custom_id: "ab:x".to_string() }), Ok(Route::Component(0)));
}

#[test]
fn component_prefix_routes_standard_handlers() {
    let reg = Registry::standard();
    assert_eq!(
        route(&reg, &Interaction::Component { custom_id: "color:5793266:1/2/3".to_string() }),
        Ok(Route::Component(1))
    );
    assert_eq!(route(&reg, &Interaction::Component { custom_id: "delete".to_string() }), Ok(Route::Component(0)));
    assert_eq!(
        route(&reg, &Interaction::Component { custom_id: "bookmark".to_string() }),
        Err(DispatchError::UnknownComponent("bookmark".to_string()))
    );
}

#[test]
fn unsupported_kind_is_not_implemented() {
    let reg = Registry::standard();
    assert_eq!(route(&reg, &Interaction::Unsupported { kind: 5 }), Err(DispatchError::NotImplemented(5)));
}

#[test]
fn empty_name_is_refused_at_registration() {
    let mut reg = Registry::new();
    assert_eq!(reg.add_command(""), Err(RegistryError::EmptyName));
    assert_eq!(reg.add_component(""), Err(RegistryError::EmptyName));
    assert_eq!(route(&reg, &Interaction::Command { name: "".to_string() }), Err(DispatchError::UnknownCommand(String::new())));
}

#[test]
fn envelopes_carry_kind_tags() {
    let c = command_reply("hi".to_string());
    assert_eq!(c.kind, ResponseKind::ChannelMessageWithSource);
    assert_eq!(c.kind.tag(), 4);
    assert_eq!(c.data.as_deref(), Some("hi"));
    let a: bookmarker::dispatch::Envelope<String> = autocomplete_reply(None);
    assert_eq!(a.kind.tag(), 8);
    assert!(a.data.is_none());
    assert_eq!(ResponseKind::UpdateMessage.tag(), 7);
}
