use keyscript::key_defs::{
    input_ev_dummy_time, make_key, syn_report, InputEvGroup, InputEvent, KeyClickActionWithMods,
    KeyModifierFlags, TimeVal, EV_KEY, EV_SYN,
};
use keyscript::registry::{KeyLookupError, KeyRegistry};

#[test]
fn exact_names_resolve() {
    let keys = KeyRegistry::new();
    assert_eq!(keys.lookup(b"ENTER"), Ok(make_key(28)));
    assert_eq!(keys.lookup(b"A"), Ok(make_key(30)));
    assert_eq!(keys.lookup(b"Z"), Ok(make_key(44)));
    assert_eq!(keys.lookup(b"0"), Ok(make_key(11)));
    assert_eq!(keys.lookup(b"F4"), Ok(make_key(62)));
    assert_eq!(keys.lookup(b"F24"), Ok(make_key(194)));
    assert_eq!(keys.lookup(b"KP0"), Ok(make_key(82)));
    assert_eq!(keys.lookup(b"KP7"), Ok(make_key(71)));
    assert_eq!(keys.lookup(b"ESC"), Ok(make_key(1)));
    assert_eq!(keys.lookup(b"TAB"), Ok(make_key(15)));
    assert_eq!(keys.lookup(b"SPACE"), Ok(make_key(57)));
    assert_eq!(keys.lookup(b"MINUS"), Ok(make_key(12)));
    assert_eq!(keys.lookup(b"SLASH"), Ok(make_key(53)));
    assert_eq!(keys.lookup(b"CAPSLOCK"), Ok(make_key(58)));
    assert_eq!(keys.lookup(b"LEFT"), Ok(make_key(105)));
    assert_eq!(keys.lookup(b"RIGHT"), Ok(make_key(106)));
    assert_eq!(keys.lookup(b"UP"), Ok(make_key(103)));
    assert_eq!(keys.lookup(b"DOWN"), Ok(make_key(108)));
    assert_eq!(keys.lookup(b"LEFTMETA"), Ok(make_key(125)));
    assert_eq!(keys.lookup(b"RIGHTMETA"), Ok(make_key(126)));
    assert_eq!(keys.lookup(b"LEFTALT"), Ok(make_key(56)));
    assert_eq!(keys.lookup(b"RIGHTALT"), Ok(make_key(100)));
    assert_eq!(keys.lookup(b"LEFTSHIFT"), Ok(make_key(42)));
    assert_eq!(keys.lookup(b"RIGHTSHIFT"), Ok(make_key(54)));
    assert_eq!(keys.lookup(b"LEFTCTRL"), Ok(make_key(29)));
    assert_eq!(keys.lookup(b"RIGHTCTRL"), Ok(make_key(97)));
}

#[test]
fn aliases_resolve() {
    let keys = KeyRegistry::new();
    assert_eq!(keys.lookup(b"a"), Ok(make_key(30)));
    assert_eq!(keys.lookup(b"CTRL"), keys.lookup(b"LEFTCTRL"));
    assert_eq!(keys.lookup(b"SHIFT"), keys.lookup(b"LEFTSHIFT"));
    assert_eq!(keys.lookup(b"ALT"), keys.lookup(b"LEFTALT"));
    assert_eq!(keys.lookup(b"META"), keys.lookup(b"LEFTMETA"));
    assert_eq!(keys.lookup(b"CAPS"), keys.lookup(b"CAPSLOCK"));
    assert_eq!(keys.lookup(b"-"), keys.lookup(b"MINUS"));
    assert_eq!(keys.lookup(b" "), keys.lookup(b"SPACE"));
    assert_eq!(keys.lookup(b"'"), keys.lookup(b"APOSTROPHE"));
    assert_eq!(keys.lookup(b","), keys.lookup(b"COMMA"));
    assert_eq!(keys.lookup(b"."), keys.lookup(b"DOT"));
    assert_eq!(keys.lookup(b";"), keys.lookup(b"SEMICOLON"));
    assert_eq!(keys.lookup(b"="), keys.lookup(b"EQUAL"));
}

#[test]
fn repeated_lookups_give_the_same_key() {
    let keys = KeyRegistry::new();
    let names: Vec<&[u8]> = vec![b"ENTER", b"A", b"F12", b"KPENTER", b"CTRL", b"-", b"q"];
    for name in names {
        let first = keys.lookup(name);
        assert!(first.is_ok());
        assert_eq!(keys.lookup(name), first);
        assert_eq!(KeyRegistry::new().lookup(name), first);
    }
}

#[test]
fn unknown_names_fail_as_unknown_key_names() {
    let keys = KeyRegistry::new();
    assert_eq!(keys.lookup(b"ENTERT"), Err(KeyLookupError::UnknownKeyName));
    assert_eq!(keys.lookup(b"enter"), Err(KeyLookupError::UnknownKeyName));
    assert_eq!(keys.lookup(b"ENTE"), Err(KeyLookupError::UnknownKeyName));
    assert_eq!(keys.lookup(b""), Err(KeyLookupError::UnknownKeyName));
    assert_eq!(keys.lookup(b"KEY_ENTER"), Err(KeyLookupError::UnknownKeyName));
    assert_eq!(keys.lookup(b"ctrl"), Err(KeyLookupError::UnknownKeyName));
    assert_eq!(keys.events(b"nothing"), Err(KeyLookupError::UnknownKeyName));
}

#[test]
fn event_templates_share_the_code_and_differ_in_value() {
    let group = InputEvGroup::new(make_key(30));
    let zero = TimeVal { tv_sec: 0, tv_usec: 0 };
    assert_eq!(group.up, InputEvent { event_type: EV_KEY, code: 30, value: 0, time: zero });
    assert_eq!(group.down, InputEvent { event_type: EV_KEY, code: 30, value: 1, time: zero });
    assert_eq!(group.repeat, InputEvent { event_type: EV_KEY, code: 30, value: 2, time: zero });
    assert_eq!(group.to_key(), make_key(30));
    assert_eq!(KeyRegistry::new().events(b"ENTER"), Ok(InputEvGroup::new(make_key(28))));
    assert_eq!(InputEvGroup::new(make_key(65535)).to_key().code, 65535);
}

#[test]
fn the_dummy_time_is_zero() {
    assert_eq!(input_ev_dummy_time(), TimeVal { tv_sec: 0, tv_usec: 0 });
    assert_eq!(
        syn_report(),
        InputEvent { event_type: EV_SYN, code: 0, value: 0, time: TimeVal { tv_sec: 0, tv_usec: 0 } }
    );
}

#[test]
fn modifiers_do_not_depend_on_order() {
    let mut first = KeyModifierFlags::new();
    first.shift();
    first.ctrl();
    let mut second = KeyModifierFlags::new();
    second.ctrl();
    second.shift();
    second.shift();
    assert_eq!(first, second);
    assert_eq!(
        first,
        KeyModifierFlags { shift: true, ctrl: true, alt: false, meta: false }
    );
    let mut third = KeyModifierFlags::default();
    assert_eq!(third, KeyModifierFlags::new());
    third.alt();
    third.meta();
    third.apply_from(&first);
    assert_eq!(third, KeyModifierFlags { shift: true, ctrl: true, alt: true, meta: true });
    assert_eq!(KeyClickActionWithMods::new(make_key(1)).modifiers, KeyModifierFlags::new());
    assert_eq!(KeyClickActionWithMods::new_with_mods(make_key(1), first).modifiers, first);
    assert_eq!(KeyClickActionWithMods::new_with_mods(make_key(1), first).key.code, 1);
}
