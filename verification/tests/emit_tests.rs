use gobley_uniffi_bindgen::emit::{format_diagnostic, plan_component_writes};
use gobley_uniffi_bindgen::link::effective_package_name;
use gobley_uniffi_bindgen::paths::{bindings_destination, cinterop_destination};
use gobley_uniffi_bindgen::{
    Bindings, Config, GenerationSettings, InterfaceDescription, PackageMap,
};

fn config(multiplatform: bool) -> Config {
    Config {
        package_name: Some("com.example.app".to_string()),
        cdylib_name: None,
        kotlin_multiplatform: multiplatform,
        kotlin_targets: Vec::new(),
        external_packages: PackageMap::new(),
    }
}

fn settings(try_format_code: bool) -> GenerationSettings {
    GenerationSettings {
        out_dir: "/out".to_string(),
        try_format_code,
        cdylib: None,
    }
}

fn ci() -> InterfaceDescription {
    InterfaceDescription {
        namespace: "example".to_string(),
        crate_name: "example_crate".to_string(),
    }
}

fn bundle(jvm: bool, header: bool) -> Bindings {
    Bindings {
        common: "common text".to_string(),
        jvm: if jvm { Some("jvm text".to_string()) } else { None },
        android: None,
        native: None,
        stub: None,
        header: if header { Some("header text".to_string()) } else { None },
    }
}

#[test]
fn multiplatform_destination_is_exact() {
    let (dir, path) = bindings_destination(
        &"/out".to_string(),
        &"example".to_string(),
        "jvm",
        true,
        &"com.example.app".to_string(),
    );
    assert_eq!(dir, "/out/jvmMain/kotlin/com/example/app");
    assert_eq!(path, "/out/jvmMain/kotlin/com/example/app/example.jvm.kt");
}

#[test]
fn single_target_destination_is_exact() {
    let (dir, path) = bindings_destination(
        &"/out".to_string(),
        &"example".to_string(),
        "jvm",
        false,
        &"com.example.app".to_string(),
    );
    assert_eq!(dir, "/out/main/kotlin/com/example/app");
    assert_eq!(path, "/out/main/kotlin/com/example/app/example.jvm.kt");
}

#[test]
fn destination_is_deterministic() {
    let a = bindings_destination(
        &"/out".to_string(),
        &"example".to_string(),
        "native",
        true,
        &"com.example.app".to_string(),
    );
    let b = bindings_destination(
        &"/out".to_string(),
        &"example".to_string(),
        "native",
        true,
        &"com.example.app".to_string(),
    );
    assert_eq!(a, b);
}

#[test]
fn header_destination_is_keyed_by_namespace() {
    let (dir, path) = cinterop_destination(&"/out".to_string(), &"example".to_string());
    assert_eq!(dir, "/out/nativeInterop/cinterop/headers/example");
    assert_eq!(path, "/out/nativeInterop/cinterop/headers/example/example.h");
}

#[test]
fn single_target_variants_collapse_without_collision() {
    let actions = plan_component_writes(&settings(false), &ci(), &config(false), bundle(true, false));
    assert_eq!(actions.len(), 2);
    assert_eq!(actions[0].dir, actions[1].dir);
    assert_ne!(actions[0].path, actions[1].path);
    assert_eq!(actions[0].path, "/out/main/kotlin/com/example/app/example.common.kt");
    assert_eq!(actions[1].path, "/out/main/kotlin/com/example/app/example.jvm.kt");
}

#[test]
fn plan_routes_every_present_blob() {
    let actions = plan_component_writes(&settings(false), &ci(), &config(true), bundle(true, true));
    assert_eq!(actions.len(), 3);
    assert_eq!(actions[0].path, "/out/commonMain/kotlin/com/example/app/example.common.kt");
    assert_eq!(actions[0].content, "common text");
    assert_eq!(actions[1].path, "/out/jvmMain/kotlin/com/example/app/example.jvm.kt");
    assert_eq!(actions[1].content, "jvm text");
    assert_eq!(actions[2].path, "/out/nativeInterop/cinterop/headers/example/example.h");
    assert_eq!(actions[2].content, "header text");
}

#[test]
fn plan_ignores_the_formatting_switch() {
    let with_format = plan_component_writes(&settings(true), &ci(), &config(true), bundle(true, true));
    let without_format =
        plan_component_writes(&settings(false), &ci(), &config(true), bundle(true, true));
    assert_eq!(with_format.len(), without_format.len());
    for (a, b) in with_format.iter().zip(without_format.iter()) {
        assert_eq!(a.path, b.path);
        assert_eq!(a.content, b.content);
    }
}

#[test]
fn formatter_failure_becomes_a_warning() {
    let warning = format_diagnostic(
        Err("No such file or directory".to_string()),
        &"example.common.kt".to_string(),
    );
    assert_eq!(
        warning,
        Some(
            "Warning: Unable to auto-format example.common.kt using ktlint: No such file or directory"
                .to_string()
        )
    );
}

#[test]
fn formatter_success_needs_no_diagnostic() {
    let warning = format_diagnostic(Ok(()), &"example.common.kt".to_string());
    assert_eq!(warning, None);
}

#[test]
fn effective_package_name_prefers_the_explicit_choice() {
    let explicit = config(false);
    assert_eq!(
        effective_package_name(&explicit, &"example".to_string()),
        "com.example.app"
    );
    let mut derived = config(false);
    derived.package_name = None;
    assert_eq!(
        effective_package_name(&derived, &"example".to_string()),
        "uniffi.example"
    );
}
