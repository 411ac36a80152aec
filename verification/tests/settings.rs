use useless_bot::config_reader::{keyword_dict_from_config, parse_keyword_response_config, ConfigValue};
use useless_bot::data::KeywordResponse;
use useless_bot::env_variable_error::EnvVariableError;
use useless_bot::env_variables::{
    application_id, facebook_alternate_preview, facebook_link_replace_enabled, greeting, gulid_id,
    prefix, token, use_guild_commands,
};

#[test]
fn required_variables() {
    assert!(matches!(token(Some("abc".to_string())), Ok(t) if t == "abc"));
    match token(None) {
        Err(e) => assert_eq!(e.message(), "Required environment variable is missing: TOKEN"),
        Ok(_) => panic!("expected an error"),
    }
    assert!(matches!(
        application_id(None),
        Err(EnvVariableError::RequiredVariableMissing(n)) if n == "APPLICATION_ID"
    ));
}

#[test]
fn defaults() {
    assert_eq!(prefix(None), "!");
    assert_eq!(prefix(Some("?".to_string())), "?");
    assert_eq!(greeting(None), "Oh Hi!");
    assert_eq!(greeting(Some("Yo".to_string())), "Yo");
}

#[test]
fn switches() {
    assert!(!use_guild_commands(None));
    assert!(use_guild_commands(Some("TRUE".to_string())));
    assert!(facebook_link_replace_enabled(Some("True".to_string())));
    assert!(!facebook_alternate_preview(Some("yes".to_string())));
    assert!(!facebook_alternate_preview(Some(" true".to_string())));
}

#[test]
fn guild_ids() {
    assert!(matches!(gulid_id(Some("1234".to_string())), Ok(1234)));
    assert!(matches!(gulid_id(Some("+7".to_string())), Ok(7)));
    assert!(matches!(
        gulid_id(None),
        Err(EnvVariableError::RequiredVariableMissing(n)) if n == "GUILD_ID"
    ));
    for bad in ["", "12a", " 1", "-1", "18446744073709551616", "+"] {
        match gulid_id(Some(bad.to_string())) {
            Err(EnvVariableError::InvalidVariableFormat(expected, _)) => assert_eq!(expected, "number"),
            _ => panic!("expected a format error for {:?}", bad),
        }
    }
    match gulid_id(Some("abc".to_string())) {
        Err(EnvVariableError::InvalidVariableFormat(_, got)) => {
            assert_eq!(got, "abc".parse::<u64>().unwrap_err().to_string())
        }
        _ => panic!("expected a format error"),
    }
    let e = EnvVariableError::InvalidVariableFormat("number".to_string(), "bad".to_string());
    assert_eq!(e.message(), "Environment variable has an invalid format: required number but got bad");
}

#[test]
fn keyword_table_from_entries() {
    let d = keyword_dict_from_config(vec![
        ("hi".to_string(), ConfigValue::Text("hello".to_string())),
        ("pick".to_string(), ConfigValue::List(vec![Some("a".to_string()), None, Some("b".to_string())])),
        ("n".to_string(), ConfigValue::Other),
    ]);
    assert!(matches!(d.get("hi"), Some(KeywordResponse::Value(s)) if s == "hello"));
    assert!(matches!(d.get("pick"), Some(KeywordResponse::List(l)) if l == &vec!["a".to_string(), "b".to_string()]));
    assert!(d.get("n").is_none());
}

#[test]
fn keyword_table_from_yaml() {
    let d = parse_keyword_response_config("hi: hello\npick:\n  - a\n  - 3\n  - b\nnum: 5\n").ok().unwrap();
    assert!(matches!(d.get("hi"), Some(KeywordResponse::Value(s)) if s == "hello"));
    assert!(matches!(d.get("pick"), Some(KeywordResponse::List(l)) if l == &vec!["a".to_string(), "b".to_string()]));
    assert!(d.get("num").is_none());
    assert!(parse_keyword_response_config("- just\n- a list\n").is_err());
}
