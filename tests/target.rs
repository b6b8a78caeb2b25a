use merve::error::BuildError;
use merve::target::{target_arch, Target};

#[test]
fn triple_round_trip_each_length() {
    for s in [
        "x86_64-apple",
        "aarch64-linux-android",
        "x86_64-unknown-linux-gnu",
        "armv7-linux-androideabi",
        "wasm32-unknown-unknown",
        "a--b",
        "-",
    ] {
        let t = Target::parse(s).unwrap();
        assert_eq!(t.to_string(), s);
    }
}

#[test]
fn triple_components() {
    let t = Target::parse("x86_64-unknown-linux-gnu").unwrap();
    assert_eq!(t.architecture, "x86_64");
    assert_eq!(t.vendor, "unknown");
    assert_eq!(t.system.as_deref(), Some("linux"));
    assert_eq!(t.abi.as_deref(), Some("gnu"));
    assert_eq!(
        t.as_strs(),
        ("x86_64", "unknown", Some("linux"), Some("gnu"))
    );
    let t = Target::parse("wasm32-wasip1").unwrap();
    assert_eq!(t.system, None);
    assert_eq!(t.abi, None);
    assert_eq!(t.as_strs(), ("wasm32", "wasip1", None, None));
}

#[test]
fn triple_extra_components_dropped() {
    let t = Target::parse("a-b-c-d-e").unwrap();
    assert_eq!(t.abi.as_deref(), Some("d"));
    assert_eq!(t.to_string(), "a-b-c-d");
}

#[test]
fn triple_too_short_is_refused() {
    assert_eq!(Target::parse("x86_64").unwrap_err(), BuildError::MalformedTriple);
    assert_eq!(Target::parse("").unwrap_err(), BuildError::MalformedTriple);
}

#[test]
fn architecture_aliases() {
    assert_eq!(target_arch("armv7"), "arm");
    assert_eq!(target_arch("aarch64"), "arm64");
    assert_eq!(target_arch("i686"), "x86");
    assert_eq!(target_arch("x86_64"), "x86_64");
    assert_eq!(target_arch("arm"), "arm");
    assert_eq!(target_arch("armv7s"), "armv7s");
    assert_eq!(target_arch(""), "");
}
