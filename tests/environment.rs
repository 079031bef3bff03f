use cargo_apple::synth::{
    env_triple, host_overlay, include_dir, macos_sdk_root, synthesize, ArchEnv, EnvVar, SdkLayout,
    SynthesisError,
};
use cargo_apple::target::Target;
use cargo_apple::text::join_path;
use cargo_apple::{macos_from_platform, profile_from_configuration, Profile};

fn layout(sdk: bool, inc: bool, mac: bool) -> SdkLayout {
    SdkLayout {
        sdk_root: "/sdk".to_string(),
        sdk_root_is_dir: sdk,
        include_dir_is_dir: inc,
        macos_sdk_root_is_dir: mac,
    }
}

fn arches(a: &[&str]) -> Vec<String> {
    a.iter().map(|s| s.to_string()).collect()
}

fn pairs(vars: &[EnvVar]) -> Vec<(String, String)> {
    vars.iter().map(|v| (v.name.clone(), v.value.clone())).collect()
}

fn value(env: &ArchEnv, name: &str) -> String {
    env.vars.iter().find(|v| v.name == name).unwrap().value.clone()
}

const MAC: &str = "-isysroot /sdk/../../../../MacOSX.platform/Developer/SDKs/MacOSX.sdk";

#[test]
fn two_arches_get_own_triple_flags_and_same_host_flags() {
    let envs = synthesize(&layout(true, true, true), &arches(&["arm64", "x86_64"]), false).unwrap();
    assert_eq!(envs.len(), 2);
    assert_eq!(envs[0].target, Target::Aarch64);
    assert_eq!(envs[1].target, Target::X86_64);
    assert_eq!(envs[0].arch, "arm64");
    assert_eq!(value(&envs[0], "CFLAGS_aarch64_apple_ios"), "-isysroot /sdk");
    assert_eq!(value(&envs[0], "CXXFLAGS_aarch64_apple_ios"), "-isysroot /sdk");
    assert_eq!(value(&envs[0], "OBJC_INCLUDE_PATH_aarch64_apple_ios"), "/sdk/usr/include");
    assert_eq!(value(&envs[1], "CFLAGS_x86_64_apple_ios"), "-isysroot /sdk");
    assert!(envs[0].vars.iter().all(|v| !v.name.contains("x86_64_apple_ios")));
    assert!(envs[1].vars.iter().all(|v| !v.name.contains("aarch64")));
    let host = pairs(&host_overlay("/sdk"));
    assert_eq!(pairs(&envs[0].vars[..5]), host);
    assert_eq!(pairs(&envs[1].vars[..5]), host);
    assert_eq!(envs[0].vars.len(), 8);
}

#[test]
fn host_overlay_entries() {
    let host = pairs(&host_overlay("/sdk"));
    let expected: Vec<(String, String)> = vec![
        ("MAC_FLAGS", MAC),
        ("CFLAGS_x86_64_apple_darwin", MAC),
        ("CXXFLAGS_x86_64_apple_darwin", MAC),
        ("OBJC_INCLUDE_PATH_x86_64_apple_darwin", "/sdk/usr/include"),
        ("RUST_BACKTRACE", "1"),
    ]
    .into_iter()
    .map(|(a, b)| (a.to_string(), b.to_string()))
    .collect();
    assert_eq!(host, expected);
}

#[test]
fn unknown_arch_is_named() {
    match synthesize(&layout(true, true, true), &arches(&["armv7"]), false) {
        Err(SynthesisError::ArchInvalid { arch }) => assert_eq!(arch, "armv7"),
        other => panic!("unexpected {:?}", other),
    }
}

#[test]
fn unknown_arch_after_valid_one_fails_whole_call() {
    match synthesize(&layout(true, true, true), &arches(&["arm64", "i386", "armv7"]), false) {
        Err(SynthesisError::ArchInvalid { arch }) => assert_eq!(arch, "i386"),
        other => panic!("unexpected {:?}", other),
    }
}

#[test]
fn missing_sdk_root_is_rejected() {
    match synthesize(&layout(false, false, false), &arches(&["arm64"]), false) {
        Err(SynthesisError::SdkRootInvalid { sdk_root }) => assert_eq!(sdk_root, "/sdk"),
        other => panic!("unexpected {:?}", other),
    }
}

#[test]
fn missing_include_dir_is_rejected() {
    match synthesize(&layout(true, false, true), &arches(&["arm64"]), true) {
        Err(SynthesisError::IncludeDirInvalid { include_dir }) => {
            assert_eq!(include_dir, "/sdk/usr/include")
        }
        other => panic!("unexpected {:?}", other),
    }
}

#[test]
fn missing_macos_sdk_root_is_rejected_unless_for_host() {
    match synthesize(&layout(true, true, false), &arches(&["arm64"]), false) {
        Err(SynthesisError::MacosSdkRootInvalid { macos_sdk_root }) => assert_eq!(
            macos_sdk_root,
            "/sdk/../../../../MacOSX.platform/Developer/SDKs/MacOSX.sdk"
        ),
        other => panic!("unexpected {:?}", other),
    }
    let envs = synthesize(&layout(true, true, false), &arches(&["arm64"]), true).unwrap();
    assert_eq!(envs[0].target, Target::Macos);
}

#[test]
fn path_helpers() {
    assert_eq!(include_dir("/sdk/"), "/sdk/usr/include");
    assert_eq!(macos_sdk_root(""), "../../../../MacOSX.platform/Developer/SDKs/MacOSX.sdk");
    assert_eq!(join_path("a", "b"), "a/b");
    assert_eq!(env_triple("arm64"), Some("aarch64_apple_ios"));
    assert_eq!(env_triple("x86_64"), Some("x86_64_apple_ios"));
    assert_eq!(env_triple("armv7"), None);
}

#[test]
fn platform_and_configuration() {
    assert!(macos_from_platform("macOS"));
    assert!(!macos_from_platform("macos"));
    assert!(!macos_from_platform("iOS"));
    assert_eq!(profile_from_configuration("release"), Profile::Release);
    assert_eq!(profile_from_configuration("Release"), Profile::Debug);
    assert_eq!(profile_from_configuration("debug"), Profile::Debug);
}
