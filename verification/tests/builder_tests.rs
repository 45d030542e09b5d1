use gul::compiler::builder::{parse_target, Builder, Target};

#[test]
fn known_targets_build() {
    assert_eq!(Builder::new("native".to_string(), false).build(), Ok(()));
    assert_eq!(Builder::new("wasm".to_string(), true).build(), Ok(()));
    assert_eq!(Builder::new("esp32".to_string(), false).build(), Ok(()));
}

#[test]
fn unknown_target_is_named_in_the_error() {
    let error = Builder::new("bogus".to_string(), false).build().unwrap_err();
    assert_eq!(error, "Unknown target: bogus");
    assert!(error.contains("bogus"));
    assert_eq!(
        Builder::new("Native".to_string(), false).build(),
        Err("Unknown target: Native".to_string())
    );
    assert_eq!(Builder::new(String::new(), true).build(), Err("Unknown target: ".to_string()));
}

#[test]
fn target_names_are_exact() {
    assert_eq!(parse_target("native"), Some(Target::Native));
    assert_eq!(parse_target("wasm"), Some(Target::Wasm));
    assert_eq!(parse_target("esp32"), Some(Target::Esp32));
    assert_eq!(parse_target("esp"), None);
    assert_eq!(parse_target(" wasm"), None);
}
