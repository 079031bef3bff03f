use cargo_apple::device::{chosen_target, pick_device, DevicePick};
use cargo_apple::select::{needs_device, resolve, select};
use cargo_apple::target::Target;

fn keys(ks: &[&str]) -> Vec<String> {
    ks.iter().map(|k| k.to_string()).collect()
}

#[test]
fn explicit_keys_keep_order_and_drop_repeats() {
    let r = select(&keys(&["x86_64", "aarch64", "x86_64"]), Some(Target::Aarch64)).unwrap();
    assert_eq!(r, vec![Target::X86_64, Target::Aarch64]);
}

#[test]
fn explicit_single_key_other_than_default() {
    let r = select(&keys(&["x86_64"]), None).unwrap();
    assert_eq!(r, vec![Target::X86_64]);
}

#[test]
fn default_key_among_others_is_resolved_explicitly() {
    let r = select(&keys(&["aarch64", "x86_64"]), Some(Target::X86_64)).unwrap();
    assert_eq!(r, vec![Target::Aarch64, Target::X86_64]);
}

#[test]
fn invalid_key_fails_whole_selection() {
    let r = select(&keys(&["aarch64", "x86_64", "armv7"]), None);
    match r {
        Err(e) => assert_eq!(e.name, "armv7"),
        Ok(_) => panic!("an invalid key was accepted"),
    }
}

#[test]
fn first_invalid_key_is_named() {
    let r = resolve(&keys(&["foo", "bar"]));
    assert_eq!(r.unwrap_err().name, "foo");
}

#[test]
fn single_device_is_selected_without_prompt() {
    let pick = pick_device(1, false);
    assert_eq!(pick, DevicePick::Chosen(0));
    let detected = chosen_target(pick, &vec![Target::X86_64], None);
    assert_eq!(detected, Some(Target::X86_64));
    assert_eq!(select(&keys(&[]), detected).unwrap(), vec![Target::X86_64]);
    assert_eq!(select(&keys(&["aarch64"]), detected).unwrap(), vec![Target::X86_64]);
}

#[test]
fn no_device_falls_back_to_all_targets() {
    let pick = pick_device(0, false);
    assert_eq!(pick, DevicePick::NoDevice);
    let detected = chosen_target(pick, &vec![], None);
    assert_eq!(detected, None);
    assert_eq!(select(&keys(&[]), detected).unwrap(), vec![Target::Aarch64, Target::X86_64]);
}

#[test]
fn several_devices_prompt_or_stay_ambiguous() {
    assert_eq!(pick_device(3, false), DevicePick::Prompt);
    assert_eq!(pick_device(3, true), DevicePick::Ambiguous);
    let ts = vec![Target::Aarch64, Target::X86_64];
    assert_eq!(chosen_target(DevicePick::Prompt, &ts, Some(1)), Some(Target::X86_64));
    assert_eq!(chosen_target(DevicePick::Prompt, &ts, None), None);
    assert_eq!(chosen_target(DevicePick::Ambiguous, &ts, Some(0)), None);
}

#[test]
fn needs_device_only_without_explicit_choice() {
    assert!(needs_device(&keys(&[])));
    assert!(needs_device(&keys(&["aarch64"])));
    assert!(needs_device(&keys(&["aarch64", "aarch64"])));
    assert!(!needs_device(&keys(&["x86_64"])));
    assert!(!needs_device(&keys(&["aarch64", "x86_64"])));
}

#[test]
fn registry_lookups() {
    assert_eq!(Target::all(), vec![Target::Aarch64, Target::X86_64]);
    assert_eq!(Target::default_key(), "aarch64");
    assert_eq!(Target::for_name("x86_64").unwrap(), Target::X86_64);
    assert_eq!(Target::for_name("macos").unwrap_err().name, "macos");
    assert_eq!(Target::for_arch("arm64"), Some(Target::Aarch64));
    assert_eq!(Target::for_arch("x86_64"), Some(Target::X86_64));
    assert_eq!(Target::for_arch("aarch64"), None);
    assert_eq!(Target::Aarch64.triple(), "aarch64-apple-ios");
    assert_eq!(Target::macos().triple(), "x86_64-apple-darwin");
    assert!(!Target::macos().is_mobile());
    assert_eq!(Target::X86_64.key(), "x86_64");
}
