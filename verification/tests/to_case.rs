use winmd::{append, method_to_snake, to_snake, to_upper, Case, MethodKind};

#[test]
fn to_snake_works() {
    assert_eq!(to_snake("Windows"), "windows".to_owned());

    assert_eq!(to_snake("ApplicationModel"), "application_model".to_owned());

    assert_eq!(method_to_snake("foo", MethodKind::Normal), "foo".to_owned());

    assert_eq!(
        method_to_snake("UIProgramming", MethodKind::Normal),
        "ui_programming".to_owned()
    );

    assert_eq!(
        method_to_snake("UIProgramming", MethodKind::Setter),
        "set_ui_programming".to_owned()
    );

    assert_eq!(
        method_to_snake("CreateUInt8Array", MethodKind::Normal),
        "create_uint8_array".to_owned()
    );

    assert_eq!(
        method_to_snake("Socks", MethodKind::Remove),
        "remove_socks".to_owned()
    );

    assert_eq!(to_snake("appointmentId"), "appointment_id".to_owned());

    assert_eq!(method_to_snake("a", MethodKind::Normal), "a".to_owned());

    assert_eq!(
        method_to_snake("CreateField_Default", MethodKind::Normal),
        "create_field_default".to_owned()
    );

    assert!(to_snake("WinRT") == "winrt");
}

#[test]
fn to_upper_works() {
    assert_eq!(to_upper("Windows"), "WINDOWS".to_owned());

    assert_eq!(to_upper("ApplicationModel"), "APPLICATION_MODEL".to_owned());

    assert_eq!(to_upper("foo"), "FOO".to_owned());

    assert_eq!(to_upper("UIProgramming"), "UI_PROGRAMMING".to_owned());

    assert_eq!(
        to_upper("CreateUInt8Array"),
        "CREATE_UINT8_ARRAY".to_owned()
    );

    assert_eq!(to_upper("appointmentId"), "APPOINTMENT_ID".to_owned());

    assert_eq!(to_upper("a"), "A".to_owned());
    assert_eq!(to_upper("A"), "A".to_owned());

    assert_eq!(
        to_upper("CreateField_Default"),
        "CREATE_FIELD_DEFAULT".to_owned()
    );

    assert!(to_upper("WinRT") == "WINRT");
}

#[test]
fn well_known_names_convert() {
    assert_eq!(to_snake("Windows"), "windows");
    assert_eq!(to_snake("ApplicationModel"), "application_model");
    assert_eq!(method_to_snake("UIProgramming", MethodKind::Normal), "ui_programming");
    assert_eq!(method_to_snake("UIProgramming", MethodKind::Setter), "set_ui_programming");
    assert_eq!(to_snake("CreateUInt8Array"), "create_uint8_array");
    assert_eq!(to_upper("CreateField_Default"), "CREATE_FIELD_DEFAULT");
    assert_eq!(to_snake("WinRT"), "winrt");
}

#[test]
fn to_snake_is_method_to_snake_without_a_prefix() {
    for name in ["Windows", "UIProgramming", "CreateUInt8Array", "AABc", "a", "WinRT", "X_Y"] {
        assert_eq!(to_snake(name), method_to_snake(name, MethodKind::Normal));
        assert_eq!(
            method_to_snake(name, MethodKind::Setter),
            format!("set_{}", to_snake(name))
        );
        assert_eq!(
            method_to_snake(name, MethodKind::Remove),
            format!("remove_{}", to_snake(name))
        );
    }
}

#[test]
fn manual_fixup_takes_the_prefix_too() {
    assert_eq!(method_to_snake("WinRT", MethodKind::Setter), "set_winrt");
    assert_eq!(method_to_snake("WinRT", MethodKind::Remove), "remove_winrt");
    // Only the exact name is converted by hand.
    assert_eq!(to_snake("WinRTx"), "win_rtx");
    assert_eq!(to_snake("winRT"), "win_rt");
    assert_eq!(to_upper("WinRt"), "WIN_RT");
}

#[test]
fn append_adds_to_what_is_there() {
    assert_eq!(append(String::from("x_"), "FooBar", Case::Upper), "x_FOO_BAR");
    assert_eq!(append(String::from("Keep"), "FooBar", Case::Lower), "Keepfoo_bar");
    assert_eq!(append(String::new(), "FooBar", Case::Lower), "foo_bar");
    assert_eq!(append(String::from("get_"), "WinRT", Case::Lower), "get_winrt");
}

#[test]
fn boundary_after_lowercase() {
    assert_eq!(to_snake("aB"), "ab");
    assert_eq!(to_snake("aBc"), "a_bc");
    assert_eq!(to_snake("aBC"), "a_bc");
    assert_eq!(to_snake("abCd"), "ab_cd");
    assert_eq!(to_upper("abCd"), "AB_CD");
}

#[test]
fn boundary_before_lowercase_needs_two_characters_passed() {
    // One character has passed since the start: no boundary before `B`.
    assert_eq!(to_snake("ABc"), "abc");
    // Two have passed: a boundary.
    assert_eq!(to_snake("AABc"), "aa_bc");
    assert_eq!(to_upper("AABc"), "AA_BC");
    // After a boundary the count starts again with the character that
    // started the word.
    assert_eq!(to_snake("aBCd"), "a_bcd");
    assert_eq!(to_snake("aBCDe"), "a_bc_de");
    assert_eq!(to_snake("HTTPServer"), "http_server");
    assert_eq!(to_upper("HTTPServer"), "HTTP_SERVER");
}

#[test]
fn first_and_last_characters_never_start_a_word() {
    assert_eq!(to_snake("fooB"), "foob");
    assert_eq!(to_snake("AB"), "ab");
    assert_eq!(to_snake("A"), "a");
    assert_eq!(to_upper("fooB"), "FOOB");
    assert_eq!(to_snake("fooBa"), "foo_ba");
}

#[test]
fn no_second_underscore_after_an_underscore() {
    assert_eq!(to_snake("Foo_Bar"), "foo_bar");
    assert_eq!(to_snake("Foo__Bar"), "foo__bar");
    assert_eq!(to_snake("_Foo"), "_foo");
    assert_eq!(to_snake("a_Bc"), "a_bc");
    assert_eq!(to_upper("Foo_Bar"), "FOO_BAR");
}

#[test]
fn digits_are_neither_case() {
    assert_eq!(to_snake("UInt8"), "uint8");
    assert_eq!(to_snake("Int32Value"), "int32_value");
    assert_eq!(to_snake("A1B"), "a1b");
    assert_eq!(to_snake("Ab1Cd"), "ab1_cd");
    assert_eq!(to_upper("Int32Value"), "INT32_VALUE");
}

#[test]
fn name_in_the_wanted_form_is_left_alone() {
    for name in ["windows", "application_model", "create_uint8_array", "a", "_", "a_b_c", "x1_y2", "__"] {
        assert_eq!(to_snake(name), name);
    }
    for name in ["WINDOWS", "APPLICATION_MODEL", "CREATE_UINT8_ARRAY", "A", "_", "A_B_C", "X1_Y2"] {
        assert_eq!(to_upper(name), name);
    }
}

#[test]
fn converting_twice_changes_nothing_more() {
    for name in [
        "Windows",
        "ApplicationModel",
        "UIProgramming",
        "CreateUInt8Array",
        "CreateField_Default",
        "appointmentId",
        "WinRT",
        "AABc",
        "A",
        "x",
        "HTTPServer2Go",
    ] {
        let snake = to_snake(name);
        assert_eq!(to_snake(&snake), snake);
        let upper = to_upper(name);
        assert_eq!(to_upper(&upper), upper);
    }
}

#[test]
fn letters_beyond_ascii_follow_unicode() {
    assert_eq!(to_snake("\u{c4}rger"), "\u{e4}rger");
    assert_eq!(to_snake("caf\u{c9}Bar"), "caf_\u{e9}bar");
    assert_eq!(to_snake("\u{394}elta"), "\u{3b4}elta");
    assert_eq!(to_upper("\u{e4}Bc"), "\u{c4}_BC");
    // One character may become several.
    assert_eq!(to_upper("stra\u{df}e"), "STRASSE");
    assert_eq!(to_snake("\u{130}x"), "i\u{307}x");
    // A character inside a lowercase name that is not uppercase is left
    // alone, whatever its lowercase would be.
    assert_eq!(to_snake("a\u{1c5}b"), "a\u{1c5}b");
    assert_eq!(to_snake("\u{1c5}b"), "\u{1c6}b");
    assert_eq!(to_snake("ab\u{1c5}"), "ab\u{1c6}");
    assert_eq!(to_upper("a\u{1c5}b"), "A\u{1c4}B");
}

#[test]
fn characters_are_counted_not_bytes() {
    // `\u{c9}` takes two bytes but is one character: after it one character
    // has passed, so no word starts at `A`.
    assert_eq!(to_snake("\u{c9}Ab"), "\u{e9}ab");
    assert_eq!(to_snake("\u{c9}AAb"), "\u{e9}a_ab");
}
