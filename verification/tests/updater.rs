use openless::updater::{beta_manifest_urls, map_abi_to_arch, stable_manifest_urls, version_is_newer};
#[test]
fn version_is_newer_detects_patch_bump() {
    assert!(version_is_newer("1.3.9", "1.3.8"));
    assert!(!version_is_newer("1.3.8", "1.3.9"));
    assert!(!version_is_newer("1.3.8", "1.3.8"));
}

#[test]
fn version_is_newer_handles_beta_suffix() {
    assert!(version_is_newer("1.3.8-1", "1.3.8"));
    assert!(!version_is_newer("1.3.8", "1.3.8-1"));
}

#[test]
fn stable_manifest_urls_use_latest_download_path() {
    let urls = stable_manifest_urls("aarch64");
    assert_eq!(urls.len(), 2);
    assert!(urls[0].contains("latest-android-aarch64-mirror.json"));
    assert!(urls[1].ends_with("latest-android-aarch64.json"));
    assert!(!urls[1].contains("-beta"));
}

#[test]
fn beta_manifest_urls_include_tag_and_beta_suffix() {
    let urls = beta_manifest_urls("aarch64", "v1.3.8-1-beta-tauri");
    assert!(urls[0].contains("/releases/download/v1.3.8-1-beta-tauri/"));
    assert!(urls[1].ends_with("latest-android-aarch64-beta.json"));
}

#[test]
fn map_abi_to_arch_maps_arm64() {
    assert_eq!(map_abi_to_arch("arm64-v8a"), "aarch64");
}
