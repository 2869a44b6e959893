use gobley_uniffi_bindgen::{ConfigKotlinTarget, DocTable, DocValue, KotlinBindingGenerator};

fn doc_value(v: &toml::Value) -> DocValue {
    match v {
        toml::Value::String(s) => DocValue::Str(s.clone()),
        toml::Value::Boolean(b) => DocValue::Bool(*b),
        toml::Value::Integer(i) => DocValue::Int(*i),
        toml::Value::Array(a) => DocValue::Array(a.iter().map(doc_value).collect()),
        toml::Value::Table(t) => DocValue::Table(doc_table(t)),
        _ => DocValue::Other,
    }
}

fn doc_table(t: &toml::value::Table) -> DocTable {
    let mut out = DocTable::new();
    for (k, v) in t {
        out.push(k.clone(), doc_value(v));
    }
    out
}

fn parse_doc(s: &str) -> DocTable {
    let v: toml::Value = toml::from_str(s).unwrap();
    match v {
        toml::Value::Table(t) => doc_table(&t),
        _ => panic!("configuration document is not a table"),
    }
}

#[test]
fn test_config_parsing_nested_format() {
    let generator = KotlinBindingGenerator::new();
    let toml_str = r#"
        [bindings.kotlin]
        package_name = "com.example.test"
        kotlin_multiplatform = true
        "#;
    let root_toml = parse_doc(toml_str);
    let config = generator.new_config(&root_toml).unwrap();

    assert_eq!(config.package_name, Some("com.example.test".to_string()));
    assert!(config.kotlin_multiplatform);
}

#[test]
fn test_config_parsing_flat_format() {
    let generator = KotlinBindingGenerator::new();
    let toml_str = r#"
        package_name = "com.example.test"
        kotlin_multiplatform = true
        "#;
    let root_toml = parse_doc(toml_str);
    let config = generator.new_config(&root_toml).unwrap();

    assert_eq!(config.package_name, Some("com.example.test".to_string()));
    assert!(config.kotlin_multiplatform);
}

#[test]
fn test_kmp_flag_overrides_config() {
    let generator = KotlinBindingGenerator::new().with_multiplatform(true);
    let toml_str = r#"
        [bindings.kotlin]
        package_name = "com.example.test"
        kotlin_multiplatform = false
        "#;
    let root_toml = parse_doc(toml_str);
    let config = generator.new_config(&root_toml).unwrap();

    // CLI flag should override config file setting
    assert!(config.kotlin_multiplatform);
    // Should have default targets
    assert_eq!(config.kotlin_targets.len(), 3);
}

#[test]
fn test_kotlin_targets_defaults() {
    let generator = KotlinBindingGenerator::new().with_multiplatform(true);
    let toml_str = r#"
        [bindings.kotlin]
        package_name = "com.example.test"
        "#;
    let root_toml = parse_doc(toml_str);
    let config = generator.new_config(&root_toml).unwrap();

    // Should have default targets when multiplatform is enabled
    assert!(config.kotlin_multiplatform);
    assert_eq!(config.kotlin_targets.len(), 3);
    assert!(config.kotlin_targets.contains(&ConfigKotlinTarget::Jvm));
    assert!(config.kotlin_targets.contains(&ConfigKotlinTarget::Android));
    assert!(config.kotlin_targets.contains(&ConfigKotlinTarget::Native));
}

#[test]
fn test_explicit_targets_preserved() {
    let generator = KotlinBindingGenerator::new().with_multiplatform(true);
    let toml_str = r#"
        [bindings.kotlin]
        package_name = "com.example.test"
        kotlin_targets = ["jvm"]
        "#;
    let root_toml = parse_doc(toml_str);
    let config = generator.new_config(&root_toml).unwrap();

    // Explicit targets should be preserved
    assert_eq!(config.kotlin_targets.len(), 1);
    assert!(config.kotlin_targets.contains(&ConfigKotlinTarget::Jvm));
}

#[test]
fn nested_shape_shadows_conflicting_root_keys() {
    let generator = KotlinBindingGenerator::new();
    let toml_str = r#"
        package_name = "com.root.pkg"
        kotlin_multiplatform = true

        [bindings.kotlin]
        package_name = "com.nested.pkg"
        "#;
    let config = generator.new_config(&parse_doc(toml_str)).unwrap();
    assert_eq!(config.package_name, Some("com.nested.pkg".to_string()));
    assert!(!config.kotlin_multiplatform);
}

#[test]
fn unrecognized_keys_are_ignored() {
    let generator = KotlinBindingGenerator::new();
    let toml_str = r#"
        package_name = "com.example.test"
        some_future_key = 17
        "#;
    let config = generator.new_config(&parse_doc(toml_str)).unwrap();
    assert_eq!(config.package_name, Some("com.example.test".to_string()));
}

#[test]
fn absent_keys_yield_defaults() {
    let generator = KotlinBindingGenerator::new();
    let config = generator.new_config(&parse_doc("")).unwrap();
    assert_eq!(config.package_name, None);
    assert_eq!(config.cdylib_name, None);
    assert!(!config.kotlin_multiplatform);
    assert_eq!(config.kotlin_targets.len(), 0);
    assert_eq!(config.external_packages.entries.len(), 0);
}

#[test]
fn repeated_targets_collapse() {
    let generator = KotlinBindingGenerator::new();
    let toml_str = r#"
        kotlin_targets = ["jvm", "jvm", "native"]
        "#;
    let config = generator.new_config(&parse_doc(toml_str)).unwrap();
    assert_eq!(config.kotlin_targets.len(), 2);
    assert_eq!(config.kotlin_targets[0], ConfigKotlinTarget::Jvm);
    assert_eq!(config.kotlin_targets[1], ConfigKotlinTarget::Native);
}

#[test]
fn external_packages_are_read() {
    let generator = KotlinBindingGenerator::new();
    let toml_str = r#"
        [external_packages]
        other_crate = "com.other.pkg"
        "#;
    let config = generator.new_config(&parse_doc(toml_str)).unwrap();
    let got = config.external_packages.get(&"other_crate".to_string());
    assert_eq!(got, Some(&"com.other.pkg".to_string()));
    assert_eq!(config.external_packages.get(&"missing".to_string()), None);
}

#[test]
fn mistyped_package_name_is_reported() {
    let generator = KotlinBindingGenerator::new();
    let err = generator
        .new_config(&parse_doc("package_name = false"))
        .unwrap_err();
    assert_eq!(err.key, "package_name");
}

#[test]
fn mistyped_cdylib_name_is_reported() {
    let generator = KotlinBindingGenerator::new();
    let err = generator
        .new_config(&parse_doc("cdylib_name = 3"))
        .unwrap_err();
    assert_eq!(err.key, "cdylib_name");
}

#[test]
fn mistyped_multiplatform_flag_is_reported() {
    let generator = KotlinBindingGenerator::new();
    let err = generator
        .new_config(&parse_doc("kotlin_multiplatform = \"yes\""))
        .unwrap_err();
    assert_eq!(err.key, "kotlin_multiplatform");
}

#[test]
fn unknown_target_is_reported() {
    let generator = KotlinBindingGenerator::new();
    let err = generator
        .new_config(&parse_doc("kotlin_targets = [\"jvm\", \"wasm\"]"))
        .unwrap_err();
    assert_eq!(err.key, "kotlin_targets");
}

#[test]
fn mistyped_target_list_is_reported() {
    let generator = KotlinBindingGenerator::new();
    let err = generator
        .new_config(&parse_doc("kotlin_targets = \"jvm\""))
        .unwrap_err();
    assert_eq!(err.key, "kotlin_targets");
}

#[test]
fn mistyped_external_packages_are_reported() {
    let generator = KotlinBindingGenerator::new();
    let toml_str = r#"
        [external_packages]
        other_crate = 3
        "#;
    let err = generator.new_config(&parse_doc(toml_str)).unwrap_err();
    assert_eq!(err.key, "external_packages");
}

#[test]
fn non_table_nested_value_is_reported() {
    let generator = KotlinBindingGenerator::new();
    let toml_str = r#"
        [bindings]
        kotlin = "not a table"
        "#;
    let err = generator.new_config(&parse_doc(toml_str)).unwrap_err();
    assert_eq!(err.key, "bindings.kotlin");
}

#[test]
fn first_offending_key_wins() {
    let generator = KotlinBindingGenerator::new();
    let toml_str = r#"
        package_name = 1
        cdylib_name = 2
        "#;
    let err = generator.new_config(&parse_doc(toml_str)).unwrap_err();
    assert_eq!(err.key, "package_name");
}

#[test]
fn config_error_message_names_the_key() {
    let generator = KotlinBindingGenerator::new();
    let err = generator
        .new_config(&parse_doc("package_name = false"))
        .unwrap_err();
    assert_eq!(
        err.message(),
        "invalid configuration value for key `package_name`"
    );
}

#[test]
fn forcing_multiplatform_keeps_explicit_flag_and_targets() {
    let generator = KotlinBindingGenerator::new().with_multiplatform(true);
    let toml_str = r#"
        kotlin_multiplatform = true
        kotlin_targets = ["android", "jvm"]
        "#;
    let config = generator.new_config(&parse_doc(toml_str)).unwrap();
    assert!(config.kotlin_multiplatform);
    assert_eq!(
        config.kotlin_targets,
        vec![ConfigKotlinTarget::Android, ConfigKotlinTarget::Jvm]
    );
}
