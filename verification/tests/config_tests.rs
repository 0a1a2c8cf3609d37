use laplace::codec::{deserialize, serialize};
use laplace::config::{load, ConfigError, Main, PowerPreference, Render, Root};

fn root(dir: Option<&str>, pref: PowerPreference) -> Root {
    Root {
        main: Main { log_directory: dir.map(|s| s.to_string()) },
        render: Render { preferred_gpu: pref },
    }
}

#[test]
fn serialize_default_exact() {
    let text = serialize(&Root::default());
    assert_eq!(text, "[main]\n\n[render]\npreferred_gpu = \"NoPreference\"\n");
}

#[test]
fn serialize_with_log_directory_exact() {
    let c = root(Some("/var/log/laplace"), PowerPreference::LowPower);
    let text = serialize(&c);
    assert_eq!(
        text,
        "[main]\nlog_directory = \"/var/log/laplace\"\n\n[render]\npreferred_gpu = \"LowPower\"\n"
    );
}

#[test]
fn serialize_escapes_quotes_and_backslashes() {
    let c = root(Some("C:\\odd \"dir\""), PowerPreference::HighPerformance);
    let text = serialize(&c);
    assert_eq!(
        text,
        "[main]\nlog_directory = \"C:\\\\odd \\\"dir\\\"\"\n\n[render]\npreferred_gpu = \"HighPerformance\"\n"
    );
}

#[test]
fn round_trip_default() {
    let c = Root::default();
    assert_eq!(deserialize(&serialize(&c)), Some(c));
}

#[test]
fn round_trip_with_path() {
    let c = root(Some("/home/user/.logs"), PowerPreference::LowPower);
    assert_eq!(deserialize(&serialize(&c)), Some(c));
}

#[test]
fn round_trip_with_special_characters() {
    let c = root(Some("a\\b\"c\nd"), PowerPreference::HighPerformance);
    assert_eq!(deserialize(&serialize(&c)), Some(c));
}

#[test]
fn round_trip_every_power_mode() {
    for pref in [
        PowerPreference::NoPreference,
        PowerPreference::LowPower,
        PowerPreference::HighPerformance,
    ] {
        let c = root(None, pref);
        assert_eq!(deserialize(&serialize(&c)), Some(c));
    }
}

#[test]
fn deserialize_missing_pref_key_defaults() {
    let c = deserialize("[main]\n\n[render]\n").expect("well-formed");
    assert_eq!(c.render.preferred_gpu, PowerPreference::NoPreference);
    assert_eq!(c.main.log_directory, None);
}

#[test]
fn deserialize_rejects_malformed_text() {
    assert_eq!(deserialize(""), None);
    assert_eq!(deserialize("nonsense"), None);
    assert_eq!(deserialize("[main]\n"), None);
    // unknown power-mode name
    assert_eq!(
        deserialize("[main]\n\n[render]\npreferred_gpu = \"Turbo\"\n"),
        None
    );
    // unterminated quoted value
    assert_eq!(deserialize("[main]\nlog_directory = \"oops\n\n[render]\n"), None);
    // lone backslash escape
    assert_eq!(
        deserialize("[main]\nlog_directory = \"a\\b\"\n\n[render]\n"),
        None
    );
    // trailing bytes after the document
    assert_eq!(
        deserialize("[main]\n\n[render]\npreferred_gpu = \"LowPower\"\nx"),
        None
    );
}

#[test]
fn load_missing_file_creates_default() {
    let out = load(None).expect("defaults");
    assert!(out.created_default);
    assert_eq!(out.config, Root::default());
}

#[test]
fn load_reads_back_created_default() {
    // what the host persists after a default-creating load…
    let first = load(None).expect("defaults");
    let persisted = serialize(&first.config);
    // …loads back as an equal document
    let second = load(Some(&persisted)).expect("parses");
    assert!(!second.created_default);
    assert_eq!(second.config, first.config);
}

#[test]
fn load_rejects_invalid_contents() {
    assert_eq!(load(Some("not a config")), Err(ConfigError::Parse));
}

#[test]
fn default_document_values() {
    let c = Root::default();
    assert_eq!(c.main.log_directory, None);
    assert_eq!(c.render.preferred_gpu, PowerPreference::NoPreference);
}
