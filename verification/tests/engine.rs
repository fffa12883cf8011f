use gsettings_gen::enumeration::{variant_by_value, variant_index, variant_nick, variant_value};
use gsettings_gen::generators::{Error, GetResult, KeyGenerators, Override};
use gsettings_gen::schema::{Enum, EnumVariant, Key, KeyRange, KeySignature};

fn plain_key(name: &str, signature: KeySignature, default: &str) -> Key {
    Key {
        name: name.to_string(),
        signature,
        default: default.to_string(),
        summary: None,
        range: None,
    }
}

fn type_sig(code: &str) -> KeySignature {
    KeySignature::Type(code.to_string())
}

fn audio_enum() -> Enum {
    Enum {
        variants: vec![
            EnumVariant { nick: "microphone".to_string(), value: 0 },
            EnumVariant { nick: "desktop-audio".to_string(), value: 1 },
            EnumVariant { nick: "both".to_string(), value: 2 },
        ],
    }
}

#[test]
fn name_skip_dominates_name_override() {
    let mut gens = KeyGenerators::with_defaults(Vec::new());
    gens.add_key_name_overrides(vec![
        (
            "window-width".to_string(),
            Override::Define { arg_type: "u16".to_string(), ret_type: "u16".to_string() },
        ),
        ("window-width".to_string(), Override::Skip),
    ]);
    let key = plain_key("window-width", type_sig("i"), "100");
    match gens.get(&key) {
        Ok(GetResult::Skip) => {}
        _ => panic!("a name-skipped entry must produce no bundle"),
    }
}

#[test]
fn name_override_beats_signature_override_and_builtin() {
    let mut gens = KeyGenerators::with_defaults(Vec::new());
    gens.add_signature_overrides(vec![(
        type_sig("i"),
        Override::Define { arg_type: "i64".to_string(), ret_type: "i64".to_string() },
    )]);
    gens.add_key_name_overrides(vec![(
        "window-width".to_string(),
        Override::Define { arg_type: "u16".to_string(), ret_type: "u16".to_string() },
    )]);
    let key = plain_key("window-width", type_sig("i"), "100");
    let kg = match gens.get(&key) {
        Ok(GetResult::Generate(kg)) => kg,
        _ => panic!("expected a generator"),
    };
    let bundle = kg.generate().expect("types are valid");
    assert!(bundle.getter.contains("-> u16"));
    assert!(bundle.setter.contains("value: u16"));
}

#[test]
fn signature_override_beats_builtin() {
    let mut gens = KeyGenerators::with_defaults(Vec::new());
    gens.add_signature_overrides(vec![(
        type_sig("i"),
        Override::Define { arg_type: "i64".to_string(), ret_type: "i64".to_string() },
    )]);
    let key = plain_key("window-width", type_sig("i"), "100");
    let kg = match gens.get(&key) {
        Ok(GetResult::Generate(kg)) => kg,
        _ => panic!("expected a generator"),
    };
    let bundle = kg.generate().expect("types are valid");
    assert!(bundle.getter.contains("-> i64"));
}

#[test]
fn later_signature_override_replaces_earlier() {
    let mut gens = KeyGenerators::with_defaults(Vec::new());
    gens.add_signature_overrides(vec![
        (
            type_sig("i"),
            Override::Define { arg_type: "i64".to_string(), ret_type: "i64".to_string() },
        ),
        (
            type_sig("i"),
            Override::Define { arg_type: "i16".to_string(), ret_type: "i16".to_string() },
        ),
    ]);
    let key = plain_key("window-width", type_sig("i"), "100");
    let kg = match gens.get(&key) {
        Ok(GetResult::Generate(kg)) => kg,
        _ => panic!("expected a generator"),
    };
    let bundle = kg.generate().expect("types are valid");
    assert!(bundle.getter.contains("-> i16"));
}

#[test]
fn enum_variant_round_trip() {
    let enum_ = audio_enum();
    for index in 0..3 {
        let nick = variant_nick(&enum_, index).to_string();
        assert_eq!(variant_index(&enum_, nick.as_str()), Some(index));
    }
}

#[test]
fn enum_decode_unknown_nick() {
    let enum_ = audio_enum();
    assert_eq!(variant_index(&enum_, "speakers"), None);
}

#[test]
fn enum_value_round_trip() {
    let enum_ = audio_enum();
    for index in 0..3 {
        let value = variant_value(&enum_, index);
        assert_eq!(variant_by_value(&enum_, value), Some(index));
    }
    assert_eq!(variant_by_value(&enum_, 7), None);
}

#[test]
fn docs_empty_summary_no_range() {
    let key = Key {
        name: "is-maximized".to_string(),
        signature: type_sig("b"),
        default: "false".to_string(),
        summary: Some(String::new()),
        range: None,
    };
    let gens = KeyGenerators::with_defaults(Vec::new());
    let kg = match gens.get(&key) {
        Ok(GetResult::Generate(kg)) => kg,
        _ => panic!("expected a generator"),
    };
    assert_eq!(kg.docs(), "\ndefault: false");
}

#[test]
fn docs_summary_and_both_bounds() {
    let key = Key {
        name: "volume".to_string(),
        signature: type_sig("d"),
        default: "0.5".to_string(),
        summary: Some("Playback volume".to_string()),
        range: Some(KeyRange { min: Some("0".to_string()), max: Some("1".to_string()) }),
    };
    let gens = KeyGenerators::with_defaults(Vec::new());
    let kg = match gens.get(&key) {
        Ok(GetResult::Generate(kg)) => kg,
        _ => panic!("expected a generator"),
    };
    assert_eq!(kg.docs(), "Playback volume\n\ndefault: 0.5\n\nmin: 0; max: 1");
}

#[test]
fn docs_min_only() {
    let key = Key {
        name: "window-width".to_string(),
        signature: type_sig("i"),
        default: "100".to_string(),
        summary: None,
        range: Some(KeyRange { min: Some("1".to_string()), max: Some(String::new()) }),
    };
    let gens = KeyGenerators::with_defaults(Vec::new());
    let kg = match gens.get(&key) {
        Ok(GetResult::Generate(kg)) => kg,
        _ => panic!("expected a generator"),
    };
    assert_eq!(kg.docs(), "\ndefault: 100\n\nmin: 1");
}

#[test]
fn builtin_bool_bundle() {
    let key = plain_key("is-maximized", type_sig("b"), "false");
    let gens = KeyGenerators::with_defaults(Vec::new());
    let kg = match gens.get(&key) {
        Ok(GetResult::Generate(kg)) => kg,
        _ => panic!("expected a generator"),
    };
    assert!(kg.auxiliary().is_none());
    let bundle = kg.generate().expect("bool is a valid type");
    assert_eq!(
        bundle.getter,
        "pub fn is_maximized(&self) -> bool {\n    gio::prelude::SettingsExtManual::get(&self.0, \"is-maximized\")\n}\n"
    );
    assert!(bundle.setter.starts_with("pub fn set_is_maximized(&self, value: bool)"));
    assert!(bundle.try_setter.starts_with("pub fn try_set_is_maximized(&self, value: bool)"));
    assert!(bundle.try_setter.contains("std::result::Result<(), gio::glib::BoolError>"));
    assert!(bundle.connect_changed.starts_with("pub fn connect_is_maximized_changed"));
    assert!(bundle.bind.starts_with("pub fn bind_is_maximized"));
    assert!(bundle.bind.contains("gio::BindingBuilder"));
    assert!(bundle.create_action.starts_with("pub fn create_is_maximized_action"));
}

#[test]
fn string_generator_borrows_in_owns_out() {
    let key = plain_key("theme", type_sig("s"), "'light'");
    let gens = KeyGenerators::with_defaults(Vec::new());
    let kg = match gens.get(&key) {
        Ok(GetResult::Generate(kg)) => kg,
        _ => panic!("expected a generator"),
    };
    let bundle = kg.generate().expect("string types are valid");
    assert!(bundle.setter.contains("value: &str"));
    assert!(bundle.getter.contains("-> String"));
}

#[test]
fn unknown_signature_is_reported_not_generated() {
    let key = plain_key("mystery", type_sig("q"), "0");
    let gens = KeyGenerators::with_defaults(Vec::new());
    match gens.get(&key) {
        Ok(GetResult::Unknown) => {}
        _ => panic!("an unhandled signature must resolve to Unknown"),
    }
}

#[test]
fn missing_enum_definition_is_fatal() {
    let key = plain_key("source", KeySignature::Enum("missing".to_string()), "'microphone'");
    let gens = KeyGenerators::with_defaults(Vec::new());
    match gens.get(&key) {
        Err(Error::MissingEnum { enum_name }) => assert_eq!(enum_name, "missing"),
        _ => panic!("a missing enum definition must abort the pass"),
    }
}

#[test]
fn enum_entry_generates_type_and_conversions() {
    let key = plain_key(
        "preferred-audio-source",
        KeySignature::Enum("org.example.AudioSource".to_string()),
        "'microphone'",
    );
    let gens = KeyGenerators::with_defaults(vec![(
        "org.example.AudioSource".to_string(),
        audio_enum(),
    )]);
    let kg = match gens.get(&key) {
        Ok(GetResult::Generate(kg)) => kg,
        _ => panic!("expected a generator"),
    };
    let aux = kg.auxiliary().expect("an enum entry carries an auxiliary declaration");
    assert!(aux.contains("pub enum PreferredAudioSource {\n    Microphone,\n    DesktopAudio,\n    Both,\n}"));
    assert!(aux.contains("PreferredAudioSource::DesktopAudio => \"desktop-audio\","));
    assert!(aux.contains("\"desktop-audio\" => std::option::Option::Some(PreferredAudioSource::DesktopAudio),"));
    assert!(aux.contains("PreferredAudioSource::DesktopAudio => 1,"));
    assert!(aux.contains("1 => std::option::Option::Some(PreferredAudioSource::DesktopAudio),"));
    assert!(aux.contains("_ => std::option::Option::None,"));
    let bundle = kg.generate().expect("the generated enum name is a valid type");
    assert!(bundle.getter.contains("-> PreferredAudioSource"));
    assert!(bundle.setter.contains("value: PreferredAudioSource"));
}

#[test]
fn enum_aux_formats_negative_and_multi_digit_values() {
    let enum_ = Enum {
        variants: vec![
            EnumVariant { nick: "below".to_string(), value: -3 },
            EnumVariant { nick: "above".to_string(), value: 120 },
        ],
    };
    let key = plain_key("offset-mode", KeySignature::Enum("org.example.Offset".to_string()), "'below'");
    let gens = KeyGenerators::with_defaults(vec![("org.example.Offset".to_string(), enum_)]);
    let kg = match gens.get(&key) {
        Ok(GetResult::Generate(kg)) => kg,
        _ => panic!("expected a generator"),
    };
    let aux = kg.auxiliary().expect("an enum entry carries an auxiliary declaration");
    assert!(aux.contains("OffsetMode::Below => -3,"));
    assert!(aux.contains("-3 => std::option::Option::Some(OffsetMode::Below),"));
    assert!(aux.contains("OffsetMode::Above => 120,"));
    assert!(aux.contains("120 => std::option::Option::Some(OffsetMode::Above),"));
}

#[test]
fn signature_skip_suppresses_every_such_entry() {
    let mut gens = KeyGenerators::with_defaults(Vec::new());
    gens.add_signature_overrides(vec![(type_sig("as"), Override::Skip)]);
    let with_docs = Key {
        name: "invalid-words".to_string(),
        signature: type_sig("as"),
        default: "[]".to_string(),
        summary: Some("Words to highlight".to_string()),
        range: None,
    };
    let bare = plain_key("other-words", type_sig("as"), "['a']");
    for key in [with_docs, bare] {
        match gens.get(&key) {
            Ok(GetResult::Skip) => {}
            _ => panic!("a signature-skipped entry must produce no bundle"),
        }
    }
}

#[test]
fn invalid_type_expression_is_fatal_and_named() {
    let mut gens = KeyGenerators::with_defaults(Vec::new());
    gens.add_key_name_overrides(vec![(
        "window-width".to_string(),
        Override::Define { arg_type: "not a type!!".to_string(), ret_type: "u16".to_string() },
    )]);
    let key = plain_key("window-width", type_sig("i"), "100");
    let kg = match gens.get(&key) {
        Ok(GetResult::Generate(kg)) => kg,
        _ => panic!("expected a generator"),
    };
    match kg.generate() {
        Err(Error::InvalidType { type_string }) => assert_eq!(type_string, "not a type!!"),
        _ => panic!("an invalid type expression must abort synthesis"),
    }
}

#[test]
fn builtin_integer_types() {
    let gens = KeyGenerators::with_defaults(Vec::new());
    for (code, mapped) in [("u", "u32"), ("x", "i64"), ("t", "u64")] {
        let key = plain_key("some-count", type_sig(code), "0");
        let kg = match gens.get(&key) {
            Ok(GetResult::Generate(kg)) => kg,
            _ => panic!("expected a generator for `{}`", code),
        };
        let bundle = kg.generate().expect("integer types are valid");
        assert!(bundle.getter.contains(&format!("-> {}", mapped)));
        assert!(bundle.setter.contains(&format!("value: {}", mapped)));
    }
}

#[test]
fn define_after_skip_restores_generation_for_signature() {
    let mut gens = KeyGenerators::with_defaults(Vec::new());
    gens.add_signature_overrides(vec![
        (type_sig("i"), Override::Skip),
        (
            type_sig("i"),
            Override::Define { arg_type: "i16".to_string(), ret_type: "i16".to_string() },
        ),
    ]);
    let key = plain_key("window-width", type_sig("i"), "100");
    let kg = match gens.get(&key) {
        Ok(GetResult::Generate(kg)) => kg,
        _ => panic!("the later Define must replace the earlier Skip"),
    };
    let bundle = kg.generate().expect("types are valid");
    assert!(bundle.getter.contains("-> i16"));
}

#[test]
fn define_call_after_skip_call_restores_generation_for_name() {
    let mut gens = KeyGenerators::with_defaults(Vec::new());
    gens.add_key_name_overrides(vec![("window-width".to_string(), Override::Skip)]);
    gens.add_key_name_overrides(vec![(
        "window-width".to_string(),
        Override::Define { arg_type: "u16".to_string(), ret_type: "u16".to_string() },
    )]);
    let key = plain_key("window-width", type_sig("i"), "100");
    let kg = match gens.get(&key) {
        Ok(GetResult::Generate(kg)) => kg,
        _ => panic!("the later call's Define must replace the earlier call's Skip"),
    };
    let bundle = kg.generate().expect("types are valid");
    assert!(bundle.getter.contains("-> u16"));
}

#[test]
fn skip_call_after_define_call_suppresses_for_signature() {
    let mut gens = KeyGenerators::with_defaults(Vec::new());
    gens.add_signature_overrides(vec![(
        type_sig("i"),
        Override::Define { arg_type: "i16".to_string(), ret_type: "i16".to_string() },
    )]);
    gens.add_signature_overrides(vec![(type_sig("i"), Override::Skip)]);
    let key = plain_key("window-width", type_sig("i"), "100");
    match gens.get(&key) {
        Ok(GetResult::Skip) => {}
        _ => panic!("the later call's Skip must replace the earlier call's Define"),
    }
}

#[test]
fn signature_skip_beats_name_define() {
    let mut gens = KeyGenerators::with_defaults(Vec::new());
    gens.add_signature_overrides(vec![(type_sig("i"), Override::Skip)]);
    gens.add_key_name_overrides(vec![(
        "window-width".to_string(),
        Override::Define { arg_type: "u16".to_string(), ret_type: "u16".to_string() },
    )]);
    let key = plain_key("window-width", type_sig("i"), "100");
    match gens.get(&key) {
        Ok(GetResult::Skip) => {}
        _ => panic!("a signature-scoped skip must win over a name-scoped mapping"),
    }
}

#[test]
fn later_override_call_replaces_earlier_call() {
    let mut gens = KeyGenerators::with_defaults(Vec::new());
    gens.add_key_name_overrides(vec![(
        "window-width".to_string(),
        Override::Define { arg_type: "u16".to_string(), ret_type: "u16".to_string() },
    )]);
    gens.add_key_name_overrides(vec![(
        "window-width".to_string(),
        Override::Define { arg_type: "u8".to_string(), ret_type: "u8".to_string() },
    )]);
    let key = plain_key("window-width", type_sig("i"), "100");
    let kg = match gens.get(&key) {
        Ok(GetResult::Generate(kg)) => kg,
        _ => panic!("expected a generator"),
    };
    let bundle = kg.generate().expect("types are valid");
    assert!(bundle.getter.contains("-> u8"));
}

#[test]
fn override_for_other_name_leaves_entry_alone() {
    let mut gens = KeyGenerators::with_defaults(Vec::new());
    gens.add_key_name_overrides(vec![("other-key".to_string(), Override::Skip)]);
    let key = plain_key("is-maximized", type_sig("b"), "false");
    let kg = match gens.get(&key) {
        Ok(GetResult::Generate(kg)) => kg,
        _ => panic!("a skip of another name must not suppress this entry"),
    };
    let bundle = kg.generate().expect("bool is a valid type");
    assert!(bundle.getter.contains("-> bool"));
}

#[test]
fn docs_summary_without_range() {
    let key = Key {
        name: "invalid-words".to_string(),
        signature: type_sig("as"),
        default: "[]".to_string(),
        summary: Some("Words to highlight".to_string()),
        range: None,
    };
    let gens = KeyGenerators::with_defaults(Vec::new());
    let kg = match gens.get(&key) {
        Ok(GetResult::Generate(kg)) => kg,
        _ => panic!("expected a generator"),
    };
    assert_eq!(kg.docs(), "Words to highlight\n\ndefault: []");
}

#[test]
fn builtin_pair_and_slice_types() {
    let gens = KeyGenerators::with_defaults(Vec::new());
    let pair = plain_key("dimensions", type_sig("(ii)"), "(20, 20)");
    let kg = match gens.get(&pair) {
        Ok(GetResult::Generate(kg)) => kg,
        _ => panic!("expected a generator"),
    };
    let bundle = kg.generate().expect("pair types are valid");
    assert!(bundle.getter.contains("-> (i32, i32)"));

    let words = plain_key("invalid-words", type_sig("as"), "[]");
    let kg = match gens.get(&words) {
        Ok(GetResult::Generate(kg)) => kg,
        _ => panic!("expected a generator"),
    };
    let bundle = kg.generate().expect("slice types are valid");
    assert!(bundle.setter.contains("value: &[&str]"));
    assert!(bundle.getter.contains("-> Vec<String>"));
}
