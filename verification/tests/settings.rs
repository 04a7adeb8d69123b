use promptforge_cli::settings::{
    gateway_from_env, optional_env, redacted_text, required_env, Gateway, Variable,
};

fn present(text: &str) -> Variable {
    Variable::Present(text.to_owned())
}

#[test]
fn the_gateway_debug_output_redacts_the_key() {
    let gateway = Gateway {
        url: "http://127.0.0.1:8081/v1".to_owned(),
        key: "top-secret".to_owned(),
    };
    let text = gateway.debug_text();
    assert!(text.contains("<redacted>"), "{text}");
    assert!(!text.contains("top-secret"), "{text}");
    assert_eq!(
        text,
        "Gateway { url: \"http://127.0.0.1:8081/v1\", key: \"<redacted>\" }"
    );
    let other = Gateway {
        url: "http://127.0.0.1:8081/v1".to_owned(),
        key: "another".to_owned(),
    };
    assert_eq!(other.debug_text(), text);
    assert_eq!(redacted_text("U"), "Gateway { url: U, key: \"<redacted>\" }");
}

#[test]
fn a_required_variable_is_trimmed_and_named_in_every_failure() {
    assert_eq!(required_env("V", &present(" a b\t\n"), "h"), Ok("a b".to_owned()));
    assert_eq!(
        required_env("V", &present("\u{2003}\u{a0}x\u{3000}\u{85}"), "h"),
        Ok("x".to_owned())
    );
    // A zero width space is no white space.
    assert_eq!(
        required_env("V", &present("\u{200b}"), "h"),
        Ok("\u{200b}".to_owned())
    );
    assert_eq!(required_env("V", &present(" \r\n"), "h"), Err("V is empty; h".to_owned()));
    assert_eq!(required_env("V", &present(""), "h"), Err("V is empty; h".to_owned()));
    assert_eq!(
        required_env("V", &Variable::NotPresent, "h"),
        Err("V is not set; h".to_owned())
    );
    assert_eq!(
        required_env("V", &Variable::NotUnicode, "h"),
        Err("V is not valid Unicode; h".to_owned())
    );
}

#[test]
fn a_blank_optional_variable_counts_as_unset() {
    assert_eq!(optional_env(&present("  m  ")), Some("m".to_owned()));
    assert_eq!(optional_env(&present(" \t ")), None);
    assert_eq!(optional_env(&Variable::NotPresent), None);
    assert_eq!(optional_env(&Variable::NotUnicode), None);
}

#[test]
fn the_gateway_needs_both_variables() {
    let gateway = gateway_from_env(&present(" u "), &present("k ")).expect("both are set");
    assert_eq!((gateway.url.as_str(), gateway.key.as_str()), ("u", "k"));

    let error = gateway_from_env(&Variable::NotPresent, &Variable::NotPresent).err();
    assert_eq!(
        error.as_deref(),
        Some(
            "PROMPTFORGE_GATEWAY_URL is not set; \
             set it to the gateway API root, e.g. http://127.0.0.1:8081/v1"
        )
    );
    let error = gateway_from_env(&present("u"), &present(" ")).err();
    assert_eq!(
        error.as_deref(),
        Some(
            "PROMPTFORGE_GATEWAY_API_KEY is empty; \
             set it to the gateway's shared bearer token ([server] api_key)"
        )
    );
}
