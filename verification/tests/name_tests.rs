use krew_wasm::context::{build_context, forced_args, WasiArgs};
use krew_wasm::errors::KrewWapcError;
use krew_wasm::name::{
    file_name, invocation_mode, launcher_alias, module_name_of_filename, plugin_arg_name,
    strip_tag, strip_wasm, verbose_from_env, InvocationMode,
};
use krew_wasm::text::{parse_port, split_char};

#[test]
fn module_names_drop_tag_and_extension() {
    assert_eq!(module_name_of_filename("view.wasm:v1"), "view");
    assert_eq!(module_name_of_filename("view.wasm"), "view");
    assert_eq!(module_name_of_filename("view"), "view");
    assert_eq!(module_name_of_filename("view:v1:v2"), "view:v1");
    assert_eq!(module_name_of_filename("view.wasm:"), "view.wasm:");
}

#[test]
fn tag_stripping_needs_something_after_the_colon() {
    assert_eq!(strip_tag("a:b"), "a");
    assert_eq!(strip_tag("a:"), "a:");
    assert_eq!(strip_tag("a"), "a");
    assert_eq!(strip_wasm("a.wasm"), "a");
    assert_eq!(strip_wasm("a.wasmx"), "a.wasmx");
}

#[test]
fn launcher_aliases_carry_the_kubectl_prefix() {
    assert_eq!(launcher_alias("view"), "kubectl-view");
    assert_eq!(plugin_arg_name("view.wasm"), "kubectl-view");
    assert_eq!(plugin_arg_name("kubectl-view.wasm"), "kubectl-view");
    assert_eq!(plugin_arg_name("kubectl-view"), "kubectl-view");
}

#[test]
fn invocation_mode_is_resolved_from_argv0() {
    assert!(matches!(invocation_mode("krew-wasm"), InvocationMode::Native));
    assert!(matches!(invocation_mode("./krew-wasm"), InvocationMode::Native));
    assert!(matches!(invocation_mode("target/debug/krew-wasm"), InvocationMode::Native));
    match invocation_mode("/usr/local/bin/kubectl-view") {
        InvocationMode::Wrapper(name) => assert_eq!(name, "view"),
        other => panic!("expected wrapper mode, got {:?}", other),
    }
    match invocation_mode("plain-name") {
        InvocationMode::Wrapper(name) => assert_eq!(name, "plain-name"),
        other => panic!("expected wrapper mode, got {:?}", other),
    }
}

#[test]
fn verbose_needs_the_exact_value_one() {
    assert!(verbose_from_env(Some("1")));
    assert!(!verbose_from_env(Some("0")));
    assert!(!verbose_from_env(Some("true")));
    assert!(!verbose_from_env(None));
}

#[test]
fn file_names_are_the_last_path_component() {
    assert_eq!(file_name("/usr/bin/kubectl-view"), "kubectl-view");
    assert_eq!(file_name("kubectl-view"), "kubectl-view");
    assert_eq!(file_name("a/b"), "b");
}

#[test]
fn ports_parse_as_bounded_decimals() {
    assert_eq!(parse_port("6443"), Some(6443));
    assert_eq!(parse_port("0"), Some(0));
    assert_eq!(parse_port("080"), Some(80));
    assert_eq!(parse_port("65535"), Some(65535));
    assert_eq!(parse_port("65536"), None);
    assert_eq!(parse_port(""), None);
    assert_eq!(parse_port("80a"), None);
}

#[test]
fn splitting_keeps_empty_pieces() {
    assert_eq!(split_char("a::b", ':'), vec!["a", "", "b"]);
    assert_eq!(split_char("", ':'), vec![""]);
    assert_eq!(split_char("abc", ':'), vec!["abc"]);
    assert_eq!(split_char(":", ':'), vec!["", ""]);
}

#[test]
fn explicit_arguments_get_the_launcher_name_first() {
    let args = forced_args(
        "kubectl-view".to_string(),
        vec!["get".to_string(), "pods".to_string()],
    );
    assert_eq!(args, vec!["kubectl-view", "get", "pods"]);
}

#[test]
fn context_building_needs_home_and_cluster_config() {
    let err = build_context(None, Some("https://10.0.0.5:6443"), WasiArgs::Inherit)
        .expect_err("no home directory");
    assert!(matches!(err, KrewWapcError::ConfigError));
    let err = build_context(Some("/home/user".to_string()), None, WasiArgs::Inherit)
        .expect_err("no cluster configuration");
    assert!(matches!(err, KrewWapcError::ConfigError));
    let err = build_context(Some("/home/user".to_string()), Some("bogus"), WasiArgs::Inherit)
        .expect_err("malformed server URL");
    assert!(matches!(err, KrewWapcError::ConfigError));
    let err = build_context(
        Some("/home/user".to_string()),
        Some("gopher://host"),
        WasiArgs::Inherit,
    )
    .expect_err("unknown scheme");
    assert!(matches!(err, KrewWapcError::UnknownScheme));
    let ctx = build_context(
        Some("/home/user".to_string()),
        Some("https://10.0.0.5:6443"),
        WasiArgs::Inherit,
    )
    .expect("a usable configuration");
    assert_eq!(ctx.preopen_dir, "/home/user");
    assert_eq!(ctx.endpoint.host, "10.0.0.5");
    assert_eq!(ctx.endpoint.port, 6443);
    assert!(ctx.inherit_stdio);
    assert!(ctx.inherit_env);
    assert!(matches!(ctx.args, WasiArgs::Inherit));
}
