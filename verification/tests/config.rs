//! The per-application config file and the credential store it selects.
use cli_engine::config::{
    config_file_path, credential_store_env_var, decode_store, encode_store, load,
    resolve_credential_store, resolve_credential_store_with, ConfigFile, CredentialStore,
    CredentialsConfig, EngineConfig,
};
use cli_engine::toml_doc::quote_run;

fn doc_config(toml: &str) -> ConfigFile {
    ConfigFile::from_contents(None, Some(toml))
}

#[test]
fn parses_known_variants_case_insensitively() {
    assert_eq!("auto".parse(), Ok(CredentialStore::Auto));
    assert_eq!("Keyring".parse(), Ok(CredentialStore::Keyring));
    assert_eq!("KEYCHAIN".parse(), Ok(CredentialStore::Keyring));
    assert_eq!("  file  ".parse(), Ok(CredentialStore::File));
}

#[test]
fn rejects_unknown_variant() {
    let err = "vault".parse::<CredentialStore>().expect_err("should reject");
    assert!(err.to_text().contains("vault"));
}

#[test]
fn display_round_trips_through_from_str() {
    for store in [CredentialStore::Auto, CredentialStore::Keyring, CredentialStore::File] {
        assert_eq!(store.as_str().parse(), Ok(store));
    }
}

#[test]
fn env_var_name_is_derived_from_app_id() {
    assert_eq!(credential_store_env_var("godaddy"), "GODADDY_CREDENTIAL_STORE");
    assert_eq!(credential_store_env_var("my-cli"), "MY_CLI_CREDENTIAL_STORE");
}

#[test]
fn deserializes_store_from_toml() {
    let config = load(Some("[credentials]\nstore = \"file\"\n"));
    assert_eq!(config.credentials.store, Some(CredentialStore::File));
}

#[test]
fn deserialize_rejects_bad_store_value() {
    assert!("nope".parse::<CredentialStore>().is_err(), "bad store value should fail to parse");
    let config = load(Some("[credentials]\nstore = \"nope\"\n"));
    assert_eq!(config.credentials.store, None);
}

#[test]
fn unknown_keys_are_ignored() {
    let config = load(Some("future_section = true\n[credentials]\nstore = \"auto\"\n"));
    assert_eq!(config.credentials.store, Some(CredentialStore::Auto));
}

#[test]
fn resolution_precedence_flag_beats_env_beats_file() {
    let file = EngineConfig {
        credentials: CredentialsConfig { store: Some(CredentialStore::Keyring) },
    };
    // flag wins over everything
    assert_eq!(
        resolve_credential_store_with(Some(CredentialStore::Auto), Some("file"), &file),
        CredentialStore::Auto
    );
    // env wins over file
    assert_eq!(
        resolve_credential_store_with(None, Some("file"), &file),
        CredentialStore::File
    );
    // file wins over default
    assert_eq!(resolve_credential_store_with(None, None, &file), CredentialStore::Keyring);
}

#[test]
fn resolution_defaults_to_keyring() {
    assert_eq!(
        resolve_credential_store_with(None, None, &EngineConfig::default()),
        CredentialStore::Keyring
    );
}

#[test]
fn resolution_ignores_invalid_env_and_falls_through() {
    let file = EngineConfig {
        credentials: CredentialsConfig { store: Some(CredentialStore::File) },
    };
    // invalid env is ignored, so the file value applies
    assert_eq!(
        resolve_credential_store_with(None, Some("garbage"), &file),
        CredentialStore::File
    );
    // invalid env with no file falls through to the default
    assert_eq!(
        resolve_credential_store_with(None, Some("garbage"), &EngineConfig::default()),
        CredentialStore::Keyring
    );
}

#[test]
fn the_contents_of_the_file_select_a_store() {
    let contents = "[credentials]\nstore = \"file\"\n";
    assert_eq!(resolve_credential_store(None, None, Some(contents)), CredentialStore::File);
    assert_eq!(
        resolve_credential_store(None, Some("auto"), Some(contents)),
        CredentialStore::Auto
    );
    assert_eq!(resolve_credential_store(None, None, None), CredentialStore::Keyring);
}

#[test]
fn config_file_path_rejects_unsafe_app_id() {
    assert_eq!(config_file_path("../evil", Some("/base")), None);
    assert_eq!(config_file_path("a/b", Some("/base")), None);
}

#[test]
fn config_file_path_uses_xdg_config_home() {
    assert_eq!(
        config_file_path("myapp", Some("/tmp/cli-engine-config-path-test")),
        Some("/tmp/cli-engine-config-path-test/myapp/config.toml".to_owned())
    );
    assert_eq!(config_file_path("myapp", None), None);
}

#[test]
fn credential_store_flag_encodes_round_trips() {
    for store in [
        None,
        Some(CredentialStore::Auto),
        Some(CredentialStore::Keyring),
        Some(CredentialStore::File),
    ] {
        assert_eq!(decode_store(encode_store(store)), store);
    }
}

#[test]
fn engine_and_consumer_sections_coexist() {
    let cfg =
        doc_config("[credentials]\nstore = \"file\"\n[deploy]\nregion = \"eu\"\nreplicas = 1\n");
    assert_eq!(cfg.engine().credentials.store, Some(CredentialStore::File));
    assert_eq!(cfg.get("deploy.region").as_deref(), Some("eu"));
}

#[test]
fn get_reads_dotted_scalar() {
    let cfg = doc_config("[credentials]\nstore = \"file\"\n[deploy]\nreplicas = 3\n");
    assert_eq!(cfg.get("credentials.store").as_deref(), Some("file"));
    assert_eq!(cfg.get("deploy.replicas").as_deref(), Some("3"));
    assert_eq!(cfg.get("deploy.missing"), None);
    assert_eq!(cfg.get("nope.at.all"), None);
}

#[test]
fn set_infers_scalar_types() {
    let mut cfg = ConfigFile::empty();
    assert!(cfg.set("telemetry.enabled", "true").is_ok());
    assert!(cfg.set("deploy.replicas", "5").is_ok());
    assert!(cfg.set("deploy.region", "us-west").is_ok());
    assert_eq!(cfg.get("telemetry.enabled").as_deref(), Some("true"));
    assert_eq!(cfg.get("deploy.replicas").as_deref(), Some("5"));
    assert_eq!(cfg.get("deploy.region").as_deref(), Some("us-west"));
    // bool/int stored as scalars, not quoted strings
    assert!(cfg.to_toml_string().contains("enabled = true"));
    assert!(cfg.to_toml_string().contains("replicas = 5"));
}

#[test]
fn set_stores_floats_as_numbers() {
    let mut cfg = ConfigFile::empty();
    assert!(cfg.set("deploy.ratio", "2.5").is_ok());
    assert_eq!(cfg.get("deploy.ratio").as_deref(), Some("2.5"));
    assert!(cfg.to_toml_string().contains("ratio = 2.5"));
}

#[test]
fn set_validates_engine_store_key() {
    let mut cfg = ConfigFile::empty();
    assert!(cfg.set("credentials.store", "bogus").is_err());
    assert!(cfg.set("credentials.store", "file").is_ok());
    assert_eq!(cfg.engine().credentials.store, Some(CredentialStore::File));
}

#[test]
fn set_rejects_unknown_engine_reserved_keys() {
    let mut cfg = ConfigFile::empty();
    // Unknown keys in [credentials] are rejected to prevent silent no-ops.
    assert!(
        cfg.set("credentials.unknown_future_key", "foo").is_err(),
        "unknown credentials key should be rejected"
    );
    assert!(
        cfg.set("credentials.timeout", "30").is_err(),
        "unknown credentials.timeout should be rejected"
    );
    // Consumer-owned tables are unrestricted.
    assert!(
        cfg.set("deploy.region", "us-west").is_ok(),
        "consumer-owned keys should be accepted"
    );
}

#[test]
fn set_rejects_empty_key_segments() {
    let mut cfg = ConfigFile::empty();
    assert!(cfg.set("a..b", "x").is_err());
    assert!(cfg.set("", "x").is_err());
}

#[test]
fn set_refuses_to_descend_into_a_value() {
    let mut cfg = doc_config("deploy = 1\n");
    let err = cfg.set("deploy.region", "eu").expect_err("deploy is no table");
    assert_eq!(err.to_text(), "config key \"deploy\" is not a table");
    assert_eq!(cfg.get("deploy").as_deref(), Some("1"));
}

#[test]
fn set_keeps_other_keys() {
    let mut cfg = doc_config("[deploy]\nregion = \"us\"\nreplicas = 3\n");
    assert!(cfg.set("deploy.region", "eu").is_ok());
    assert_eq!(cfg.get("deploy.region").as_deref(), Some("eu"));
    assert_eq!(cfg.get("deploy.replicas").as_deref(), Some("3"));
}

#[test]
fn set_preserves_comments_and_other_tables() {
    let mut cfg =
        doc_config("# keep me\n[credentials]\nstore = \"file\"\n\n[deploy]\nregion = \"us\"\n");
    assert!(cfg.set("deploy.region", "eu").is_ok());
    let rendered = cfg.to_toml_string();
    assert!(rendered.contains("# keep me"), "comment preserved: {rendered}");
    assert!(rendered.contains("store = \"file\""), "other table preserved");
    assert!(rendered.contains("region = \"eu\""), "value updated");
}

#[test]
fn load_and_save_round_trip() {
    let path = config_file_path("roundtrip", Some("/base"));
    let mut cfg = ConfigFile::from_contents(path, None);
    assert!(cfg.path().is_some());
    assert!(cfg.set("deploy.region", "us-west").is_ok());
    let Ok((path, contents)) = cfg.to_save() else {
        panic!("a path is known");
    };
    assert_eq!(path, "/base/roundtrip/config.toml");
    let reloaded = ConfigFile::from_contents(Some(path), Some(contents.as_str()));
    assert_eq!(reloaded.get("deploy.region").as_deref(), Some("us-west"));
}

#[test]
fn malformed_file_loads_as_empty() {
    let cfg = doc_config("not = valid = toml");
    assert_eq!(cfg.engine().credentials.store, None);
    assert_eq!(cfg.get("anything"), None);
}

#[test]
fn default_config_has_no_path_and_save_errors() {
    let cfg = ConfigFile::empty();
    assert!(cfg.path().is_none());
    assert!(cfg.to_save().is_err(), "save without a path should error");
}

#[test]
fn changes_are_read_back_from_the_saved_text() {
    let texts = [
        "",
        "# just a comment",
        "a.b = 1\nc = 2 # two\na.d = 3\n",
        "[a.b]\nx = 1\n",
        "[a]\nb.c = 1\n",
        "[[list.items]]\nid = 1\n[list.items.sub]\nk = 2\n[other]\n[[list.items]]\nid = 2\n",
        "[b.c]\n[[x.y]]\n[b.d]\n[x.w]\nk = 1\n",
        "inline = { p = 1, q.r = 2 }\r\n[ 'a' . \"b\" ]\r\nm = \"\"\"\r\none\r\ntwo\"\"\"\r\n",
    ];
    let keys = ["a.b.n", "a.n", "n", "x.k", "list.n", "fresh.deep.er", "a.sp ace", "q'u\"o.t\te"];
    let values = ["true", "-7", "2.50", "inf", "text", "two\nlines", "tab\t\"'\"\"\"'''", "", "\\ \r\n\u{0}"];
    for text in texts {
        for key in keys {
            for value in values {
                let mut file = doc_config(text);
                if file.set(key, value).is_err() {
                    continue;
                }
                let loaded = doc_config(&file.to_toml_string());
                assert!(file.get(key).is_some());
                assert_eq!(loaded.get(key), file.get(key), "{text:?} {key:?} {value:?}");
                for other in ["a.b.x", "a.b.c", "a.d", "c", "x.w.k", "inline", "inline.q.r"] {
                    let before = file.get(other);
                    assert_eq!(loaded.get(other), before, "{text:?} {key:?} {other:?}");
                }
            }
        }
    }
}

#[test]
fn a_table_below_a_dotted_key_may_not_be_read_back() {
    let text = "[t.a.c]\nx = 1\n[t]\nb.d = 1\n";
    let mut file = doc_config(text);
    assert!(file.set("t.b.k", "5").is_ok());
    assert!(file.set("t.n.z", "6").is_ok());
    assert!(file.set("t.a.y", "7").is_ok());
    let loaded = doc_config(&file.to_toml_string());
    for (key, value) in [("t.b.k", "5"), ("t.n.z", "6"), ("t.a.y", "7"), ("t.b.d", "1")] {
        assert_eq!(loaded.get(key).as_deref(), Some(value), "{key}");
    }
    let mut file = doc_config(text);
    assert!(file.set("t.b.e.z", "5").is_ok());
    assert_eq!(file.get("t.b.e.z").as_deref(), Some("5"));
    assert_eq!(doc_config(&file.to_toml_string()).get("t.b.e.z"), None);
}

#[test]
fn a_key_of_too_many_parts_is_not_read_back() {
    let deep = vec!["k"; 79].join(".");
    let mut file = ConfigFile::empty();
    assert!(file.set(&deep, "1").is_ok());
    assert_eq!(doc_config(&file.to_toml_string()).get(&deep).as_deref(), Some("1"));

    let deeper = vec!["k"; 81].join(".");
    let mut file = ConfigFile::empty();
    assert!(file.set(&deeper, "1").is_ok());
    assert_eq!(file.get(&deeper).as_deref(), Some("1"));
    assert_eq!(doc_config(&file.to_toml_string()).get(&deeper), None);
}

#[test]
fn a_refused_change_leaves_the_text_alone() {
    let text = "# kept\n[deploy]   # here\nregion = \"eu\"\n";
    let mut file = doc_config(text);
    assert_eq!(file.to_toml_string(), text);
    for (key, value) in [("deploy.region.x", "1"), ("a..b", "1"), ("credentials.store", "nope")] {
        assert!(file.set(key, value).is_err(), "{key}");
        assert_eq!(file.to_toml_string(), text);
    }
    assert!(file.set("deploy.region", "us").is_ok());
    assert_eq!(file.to_toml_string(), "# kept\n[deploy]   # here\nregion = \"us\"\n");
}

#[test]
fn long_runs_of_quotation_marks_are_told() {
    assert!(!quote_run(&"'".repeat(255)));
    assert!(quote_run(&"'".repeat(256)));
    assert!(quote_run(&format!("x{}y", "\"".repeat(300))));
    assert!(!quote_run(&"'\"".repeat(300)));
    assert!(!quote_run(&format!("{}x{}", "'".repeat(200), "'".repeat(200))));
    let mut file = ConfigFile::empty();
    assert!(file.set("a.b", &"'".repeat(300)).is_ok());
    assert!(!file.can_be_written());
    assert_eq!(file.get("a.b"), Some("'".repeat(300)));
    let mut file = ConfigFile::empty();
    assert!(file.set("a.b", &"'".repeat(255)).is_ok());
    assert!(file.can_be_written());
    let loaded = doc_config(&file.to_toml_string());
    assert_eq!(loaded.get("a.b"), Some("'".repeat(255)));
}

#[test]
fn values_are_told_without_the_white_space_around_them() {
    let file = doc_config("a =   [1, 2]   \nb = \"  text \"\n[t]\nk = 1\n");
    assert_eq!(file.get("a").as_deref(), Some("[1, 2]"));
    assert_eq!(file.get("b").as_deref(), Some("  text "));
    assert_eq!(file.get("t").as_deref(), Some("k = 1\n"));
}
