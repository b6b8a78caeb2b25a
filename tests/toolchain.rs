use merve::error::BuildError;
use merve::target::Target;
use merve::toolchain::{
    host_tag, ndk_major_version, resolve_toolchain, runtime_settings, sysroot_lib, wasi_root,
    HostOs, ToolchainDecision, ToolchainInputs,
};

fn inputs(arch: &str, os: &str) -> ToolchainInputs {
    ToolchainInputs {
        host: HostOs::Linux,
        target_arch: arch.to_string(),
        target_os: os.to_string(),
        target_features: None,
        ndk_root: None,
        ndk_properties: None,
        wasi_sdk: None,
        wasi_root_exists: true,
    }
}

fn android(major: &str) -> ToolchainInputs {
    let mut i = inputs("aarch64", "android");
    i.ndk_root = Some("/ndk".to_string());
    i.ndk_properties = Some(format!(
        "Pkg.Desc = Android NDK\nPkg.Revision = {major}.1.7171670\n"
    ));
    i
}

fn decide(triple: &str, i: &ToolchainInputs) -> Result<ToolchainDecision, BuildError> {
    resolve_toolchain(&Target::parse(triple).unwrap(), i)
}

#[test]
fn ndk_21_uses_legacy_layout() {
    let d = decide("aarch64-linux-android", &android("21")).unwrap();
    assert_eq!(
        d.flags,
        vec![
            "--sysroot=/ndk/sysroot".to_string(),
            "-isystem/ndk/sources/cxx-stl/llvm-libc++/include".to_string()
        ]
    );
    assert!(!d.adjust_runtime);
    assert_eq!(d.compiler, None);
}

#[test]
fn ndk_22_uses_unified_layout() {
    let d = decide("armv7-linux-androideabi", &android("22")).unwrap();
    assert_eq!(
        d.flags,
        vec!["--sysroot=/ndk/toolchains/llvm/prebuilt/linux-x86_64/sysroot".to_string()]
    );
    let mut mac = android("23");
    mac.host = HostOs::Macos;
    let d = decide("aarch64-linux-android", &mac).unwrap();
    assert_eq!(
        d.flags,
        vec!["--sysroot=/ndk/toolchains/llvm/prebuilt/darwin-x86_64/sysroot".to_string()]
    );
}

#[test]
fn ndk_unsupported_host() {
    let mut i = android("25");
    i.host = HostOs::Other;
    assert_eq!(
        decide("aarch64-linux-android", &i).err(),
        Some(BuildError::UnsupportedHost)
    );
    let mut old = android("20");
    old.host = HostOs::Other;
    assert!(decide("aarch64-linux-android", &old).is_ok());
}

#[test]
fn ndk_missing_resources_abort() {
    let mut i = android("22");
    i.ndk_root = None;
    assert_eq!(
        decide("aarch64-linux-android", &i).err(),
        Some(BuildError::MissingEnvironment)
    );
    let mut i = android("22");
    i.ndk_properties = None;
    assert_eq!(
        decide("aarch64-linux-android", &i).err(),
        Some(BuildError::MissingFile)
    );
    let mut i = android("22");
    i.ndk_properties = Some("Pkg.Revision = 22.1\n".to_string());
    assert_eq!(
        decide("aarch64-linux-android", &i).err(),
        Some(BuildError::MalformedVersionDescriptor)
    );
}

#[test]
fn ndk_version_text() {
    assert_eq!(ndk_major_version("Pkg.Revision = 21.4.7075529"), Ok(21));
    assert_eq!(ndk_major_version("x\nPkg_Revision = 9.0.1\n"), Ok(9));
    assert_eq!(
        ndk_major_version("Pkg.Revision = 1.2\nPkg.Revision = 26.0.5\n"),
        Ok(26)
    );
    assert_eq!(ndk_major_version("Pkg.Revision = 007.1.2"), Ok(7));
    assert_eq!(ndk_major_version("Pkg.Revision = 4294967295.0.0"), Ok(u32::MAX));
    assert_eq!(
        ndk_major_version("Pkg.Revision = 4294967296.0.0"),
        Err(BuildError::MalformedVersionDescriptor)
    );
    assert_eq!(
        ndk_major_version("Pkg\nRevision = 22.0.0"),
        Err(BuildError::MalformedVersionDescriptor)
    );
    assert_eq!(
        ndk_major_version(""),
        Err(BuildError::MalformedVersionDescriptor)
    );
}

#[test]
fn wasi_atomics_selects_threads() {
    let mut i = inputs("wasm32", "wasi");
    i.target_features = Some("atomics,bulk-memory".to_string());
    let d = decide("wasm32-wasip1-threads", &i).unwrap();
    assert_eq!(
        d.link_search,
        vec!["/opt/wasi-sdk/share/wasi-sysroot/lib/wasm32-wasip1-threads".to_string()]
    );
    i.target_features = Some("bulk-memory".to_string());
    let d = decide("wasm32-wasip1", &i).unwrap();
    assert_eq!(
        d.link_search,
        vec!["/opt/wasi-sdk/share/wasi-sysroot/lib/wasm32-wasip1".to_string()]
    );
    i.target_features = None;
    let d = decide("wasm32-wasip1", &i).unwrap();
    assert_eq!(
        d.link_search,
        vec!["/opt/wasi-sdk/share/wasi-sysroot/lib/wasm32-wasip1".to_string()]
    );
}

#[test]
fn wasi_settings() {
    let mut i = inputs("wasm32", "wasi");
    i.wasi_sdk = Some("/sdk".to_string());
    let d = decide("wasm32-wasip1", &i).unwrap();
    assert_eq!(d.compiler.as_deref(), Some("/sdk/bin/clang++"));
    assert_eq!(d.flags, vec!["-fno-exceptions".to_string()]);
    assert_eq!(d.cpp_stdlib.as_deref(), Some("c++"));
    assert_eq!(d.link_libs, vec!["c++abi".to_string()]);
    assert_eq!(d.target_override, None);
    assert!(d.extra_files.is_empty());
    assert!(d.adjust_runtime);
}

#[test]
fn wasi_freestanding_target() {
    let d = decide("wasm32-unknown-unknown", &inputs("wasm32", "unknown")).unwrap();
    assert_eq!(d.target_override.as_deref(), Some("wasm32-wasip1"));
    assert_eq!(d.link_libs, vec!["c++abi".to_string(), "c".to_string()]);
    assert_eq!(d.extra_files, vec!["wasi_to_unknown.cpp".to_string()]);
}

#[test]
fn wasi_missing_root_aborts() {
    let mut i = inputs("wasm32", "wasi");
    i.wasi_root_exists = false;
    assert_eq!(
        decide("wasm32-wasip1", &i).err(),
        Some(BuildError::MissingToolchainRoot)
    );
}

#[test]
fn emscripten_and_desktop_are_plain() {
    let mut i = inputs("wasm32", "emscripten");
    i.wasi_root_exists = false;
    let d = decide("wasm32-unknown-emscripten", &i).unwrap();
    assert_eq!(d.compiler, None);
    assert!(d.flags.is_empty() && d.link_libs.is_empty() && d.link_search.is_empty());
    assert!(d.adjust_runtime);
    let d = decide("x86_64-unknown-linux-gnu", &inputs("x86_64", "linux")).unwrap();
    assert!(d.flags.is_empty());
    assert!(d.adjust_runtime);
}

#[test]
fn host_tags() {
    assert_eq!(host_tag(HostOs::Windows), Ok("windows-x86_64"));
    assert_eq!(host_tag(HostOs::Linux), Ok("linux-x86_64"));
    assert_eq!(host_tag(HostOs::Macos), Ok("darwin-x86_64"));
    assert_eq!(host_tag(HostOs::Other), Err(BuildError::UnsupportedHost));
}

#[test]
fn wasi_root_default() {
    assert_eq!(wasi_root(&None), "/opt/wasi-sdk");
    assert_eq!(wasi_root(&Some("/x".to_string())), "/x");
    assert_eq!(sysroot_lib(&Some("+atomics".to_string())), "wasm32-wasip1-threads");
}

#[test]
fn runtime_choices() {
    let r = runtime_settings(true, true, true);
    assert!(r.static_crt);
    assert_eq!(r.no_default_lib.as_deref(), Some("libcmt.lib"));
    assert_eq!(r.cpp_stdlib, None);
    let r = runtime_settings(false, true, true);
    assert!(!r.static_crt);
    assert_eq!(r.no_default_lib, None);
    assert_eq!(r.cpp_stdlib.as_deref(), Some("c++"));
    let r = runtime_settings(false, true, false);
    assert_eq!(r.cpp_stdlib, None);
    let r = runtime_settings(false, false, true);
    assert_eq!(r.cpp_stdlib, None);
}
