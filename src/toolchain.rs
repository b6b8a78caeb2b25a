use vstd::prelude::*;

use crate::error::BuildError;
use crate::target::{Target, TargetModel};
use crate::text::{occurs_at, occurs_at_pos, occurs_in, occurs_in_str, str_eq};

verus! {

/// The operating system of the machine that runs the build.
#[derive(Debug, Clone, Copy, PartialEq, Eq, Structural)]
pub enum HostOs {
    Windows,
    Linux,
    Macos,
    Other,
}

/// The prebuilt-toolchain directory tag of a build host.
pub open spec fn host_tag_of(host: HostOs) -> Option<Seq<char>> {
    match host {
        HostOs::Windows => Some("windows-x86_64"@),
        HostOs::Linux => Some("linux-x86_64"@),
        HostOs::Macos => Some("darwin-x86_64"@),
        HostOs::Other => None,
    }
}

/// The prebuilt-toolchain directory tag of a build host; `UnsupportedHost`
/// for any host but the three desktop systems.
pub fn host_tag(host: HostOs) -> (r: Result<&'static str, BuildError>)
    ensures
        match host_tag_of(host) {
            Some(tag) => r is Ok && r->Ok_0@ == tag,
            None => r == Err::<&'static str, BuildError>(BuildError::UnsupportedHost),
        },
{
    match host {
        HostOs::Windows => Ok("windows-x86_64"),
        HostOs::Linux => Ok("linux-x86_64"),
        HostOs::Macos => Ok("darwin-x86_64"),
        HostOs::Other => Err(BuildError::UnsupportedHost),
    }
}

// ---------------------------------------------------------------------------
// The NDK version file
pub open spec fn is_digit(c: char) -> bool {
    '0' <= c && c <= '9'
}

/// The first position at or after `i` that holds no ASCII digit.
pub open spec fn digit_end(s: Seq<char>, i: int) -> int
    decreases s.len() - i,
{
    if 0 <= i < s.len() && is_digit(s[i]) {
        digit_end(s, i + 1)
    } else {
        i
    }
}

/// The number that a string of ASCII digits writes in base ten.
pub open spec fn digits_value(d: Seq<char>) -> nat
    decreases d.len(),
{
    if d.len() == 0 {
        0
    } else {
        digits_value(d.drop_last()) * 10 + ((d.last() as u32 - '0' as u32) as nat)
    }
}

/// Where the revision digits start, for a match at `p`.
pub open spec fn revision_digits(p: int) -> int {
    p + 15
}

/// Whether `Pkg<any char but a line feed>Revision = D.D.D` starts at `p`,
/// each `D` a run of ASCII digits.
pub open spec fn revision_at(s: Seq<char>, p: int) -> bool {
    let q = revision_digits(p);
    let m1 = digit_end(s, q);
    let m2 = digit_end(s, m1 + 1);
    &&& occurs_at(s, "Pkg"@, p)
    &&& p + 3 < s.len()
    &&& s[p + 3] != '\n'
    &&& occurs_at(s, "Revision = "@, p + 4)
    &&& q < m1 < s.len()
    &&& s[m1] == '.'
    &&& m1 + 1 < m2 < s.len()
    &&& s[m2] == '.'
    &&& m2 + 1 < s.len()
    &&& is_digit(s[m2 + 1])
}

/// The leftmost position at or after `p` where a revision line starts.
pub open spec fn first_revision_from(s: Seq<char>, p: int) -> Option<int>
    decreases s.len() + 1 - p,
{
    if p < 0 || p > s.len() {
        None
    } else if revision_at(s, p) {
        Some(p)
    } else {
        first_revision_from(s, p + 1)
    }
}

/// The major version that the leftmost revision line of the version file
/// gives; `MalformedVersionDescriptor` when there is none or it exceeds `u32`.
pub open spec fn ndk_major(s: Seq<char>) -> Result<u32, BuildError> {
    match first_revision_from(s, 0) {
        None => Err(BuildError::MalformedVersionDescriptor),
        Some(p) => {
            let v = digits_value(
                s.subrange(revision_digits(p), digit_end(s, revision_digits(p))),
            );
            if v <= u32::MAX {
                Ok(v as u32)
            } else {
                Err(BuildError::MalformedVersionDescriptor)
            }
        },
    }
}

pub proof fn lemma_digit_end(s: Seq<char>, i: int)
    requires
        0 <= i <= s.len(),
    ensures
        i <= digit_end(s, i) <= s.len(),
        forall|k: int| i <= k < digit_end(s, i) ==> is_digit(s[k]),
    decreases s.len() - i,
{
    if i < s.len() && is_digit(s[i]) {
        lemma_digit_end(s, i + 1);
    }
}

/// A prefix of a digit string never writes a larger number.
pub proof fn lemma_digits_prefix(d: Seq<char>, k: int)
    requires
        0 <= k <= d.len(),
        forall|j: int| 0 <= j < d.len() ==> is_digit(d[j]),
    ensures
        digits_value(d.subrange(0, k)) <= digits_value(d),
    decreases d.len(),
{
    if k < d.len() {
        lemma_digits_prefix(d.drop_last(), k);
        assert(d.drop_last().subrange(0, k) =~= d.subrange(0, k));
    } else {
        assert(d.subrange(0, k) =~= d);
    }
}

fn digit_end_at(s: &str, n: usize, i: usize) -> (r: usize)
    requires
        n == s@.len(),
        i <= n,
    ensures
        r == digit_end(s@, i as int),
        i <= r <= n,
{
    let mut j: usize = i;
    while j < n && '0' <= s.get_char(j) && s.get_char(j) <= '9'
        invariant
            i <= j <= n,
            n == s@.len(),
            digit_end(s@, j as int) == digit_end(s@, i as int),
        decreases n - j,
    {
        j = j + 1;
    }
    j
}

fn revision_at_pos(s: &str, n: usize, p: usize) -> (r: bool)
    requires
        n == s@.len(),
        p <= n,
    ensures
        r == revision_at(s@, p as int),
{
    proof {
        reveal_strlit("Pkg");
        reveal_strlit("Revision = ");
    }
    if n - p <= 15 || !occurs_at_pos(s, "Pkg", p) || s.get_char(p + 3) == '\n' {
        return false;
    }
    if !occurs_at_pos(s, "Revision = ", p + 4) {
        return false;
    }
    let q = p + 15;
    let m1 = digit_end_at(s, n, q);
    if m1 == q || m1 >= n || s.get_char(m1) != '.' {
        return false;
    }
    let m2 = digit_end_at(s, n, m1 + 1);
    if m2 == m1 + 1 || m2 >= n || s.get_char(m2) != '.' {
        return false;
    }
    m2 + 1 < n && '0' <= s.get_char(m2 + 1) && s.get_char(m2 + 1) <= '9'
}

/// The NDK major version from the text of its version file, as `ndk_major`
/// states.
pub fn ndk_major_version(text: &str) -> (r: Result<u32, BuildError>)
    ensures
        r == ndk_major(text@),
{
    let n = text.unicode_len();
    let mut p: usize = 0;
    let mut found = false;
    while p < n && !found
        invariant
            n == text@.len(),
            p <= n,
            !found ==> first_revision_from(text@, p as int) == first_revision_from(text@, 0),
            found ==> p < n && first_revision_from(text@, 0) == Some(p as int) && revision_at(
                text@,
                p as int,
            ),
        decreases n - p + (if found {
            0int
        } else {
            1int
        }),
    {
        if revision_at_pos(text, n, p) {
            found = true;
        } else {
            p = p + 1;
        }
    }
    if !found {
        assert(!revision_at(text@, n as int));
        assert(first_revision_from(text@, n + 1) is None);
        return Err(BuildError::MalformedVersionDescriptor);
    }
    assert(revision_at(text@, p as int));
    let q = p + 15;
    let m1 = digit_end_at(text, n, q);
    let ghost d = text@.subrange(q as int, m1 as int);
    proof {
        lemma_digit_end(text@, q as int);
    }
    let mut acc: u64 = 0;
    let mut k: usize = q;
    while k < m1
        invariant
            q <= k <= m1 <= n,
            n == text@.len(),
            d == text@.subrange(q as int, m1 as int),
            q == revision_digits(p as int),
            m1 == digit_end(text@, q as int),
            first_revision_from(text@, 0) == Some(p as int),
            forall|j: int| q <= j < m1 ==> is_digit(text@[j]),
            acc == digits_value(text@.subrange(q as int, k as int)),
            acc <= u32::MAX,
        decreases m1 - k,
    {
        let c = text.get_char(k);
        let digit: u64 = (c as u32 - '0' as u32) as u64;
        acc = acc * 10 + digit;
        assert(text@.subrange(q as int, k + 1).drop_last() =~= text@.subrange(q as int, k as int));
        assert(text@.subrange(q as int, k + 1).last() == c);
        assert(acc == digits_value(text@.subrange(q as int, k + 1)));
        k = k + 1;
        if acc > 0xFFFF_FFFF {
            proof {
                assert forall|j: int| 0 <= j < d.len() implies is_digit(d[j]) by {
                    assert(d[j] == text@[q + j]);
                }
                lemma_digits_prefix(d, k - q);
                assert(d.subrange(0, k - q) =~= text@.subrange(q as int, k as int));
                assert(digits_value(d.subrange(0, k - q)) > u32::MAX);
                assert(digits_value(d) > u32::MAX);
            }
            return Err(BuildError::MalformedVersionDescriptor);
        }
    }
    Ok(acc as u32)
}

// ---------------------------------------------------------------------------
// The decision table
/// The facts about the build that the toolchain choice depends on.
pub struct ToolchainInputs {
    /// The system that runs the build.
    pub host: HostOs,
    /// The architecture of the compile target (`wasm32`, `x86_64`, ...).
    pub target_arch: String,
    /// The operating system of the compile target (`unknown`, `wasi`, ...).
    pub target_os: String,
    /// The comma-separated target feature list, when it is known.
    pub target_features: Option<String>,
    /// The configured NDK root.
    pub ndk_root: Option<String>,
    /// The text of the NDK version file; `None` when it cannot be read.
    pub ndk_properties: Option<String>,
    /// The configured WebAssembly toolchain root.
    pub wasi_sdk: Option<String>,
    /// Whether the toolchain root that `wasi_root` picks exists.
    pub wasi_root_exists: bool,
}

/// The inputs as plain values.
pub struct InputsModel {
    pub host: HostOs,
    pub target_arch: Seq<char>,
    pub target_os: Seq<char>,
    pub target_features: Option<Seq<char>>,
    pub ndk_root: Option<Seq<char>>,
    pub ndk_properties: Option<Seq<char>>,
    pub wasi_sdk: Option<Seq<char>>,
    pub wasi_root_exists: bool,
}

impl View for ToolchainInputs {
    type V = InputsModel;

    open spec fn view(&self) -> InputsModel {
        InputsModel {
            host: self.host,
            target_arch: self.target_arch@,
            target_os: self.target_os@,
            target_features: crate::target::opt_view(self.target_features),
            ndk_root: crate::target::opt_view(self.ndk_root),
            ndk_properties: crate::target::opt_view(self.ndk_properties),
            wasi_sdk: crate::target::opt_view(self.wasi_sdk),
            wasi_root_exists: self.wasi_root_exists,
        }
    }
}

/// What the compiler invocation is to be given for a target.
pub struct ToolchainDecision {
    /// A compiler binary to use in place of the default one.
    pub compiler: Option<String>,
    /// Extra compilation flags, in order.
    pub flags: Vec<String>,
    /// Directories to search for libraries at link time.
    pub link_search: Vec<String>,
    /// Libraries to link.
    pub link_libs: Vec<String>,
    /// The C++ standard library implementation to select.
    pub cpp_stdlib: Option<String>,
    /// A compile target string to use in place of the default one.
    pub target_override: Option<String>,
    /// Further source files, relative to the package root, to compile.
    pub extra_files: Vec<String>,
    /// Whether the compiler-family adjustments of `runtime_settings` apply.
    pub adjust_runtime: bool,
}

/// A decision as plain values.
pub struct DecisionModel {
    pub compiler: Option<Seq<char>>,
    pub flags: Seq<Seq<char>>,
    pub link_search: Seq<Seq<char>>,
    pub link_libs: Seq<Seq<char>>,
    pub cpp_stdlib: Option<Seq<char>>,
    pub target_override: Option<Seq<char>>,
    pub extra_files: Seq<Seq<char>>,
    pub adjust_runtime: bool,
}

pub open spec fn strings_view(v: Seq<String>) -> Seq<Seq<char>> {
    v.map_values(|s: String| s@)
}

impl View for ToolchainDecision {
    type V = DecisionModel;

    open spec fn view(&self) -> DecisionModel {
        DecisionModel {
            compiler: crate::target::opt_view(self.compiler),
            flags: strings_view(self.flags@),
            link_search: strings_view(self.link_search@),
            link_libs: strings_view(self.link_libs@),
            cpp_stdlib: crate::target::opt_view(self.cpp_stdlib),
            target_override: crate::target::opt_view(self.target_override),
            extra_files: strings_view(self.extra_files@),
            adjust_runtime: self.adjust_runtime,
        }
    }
}

/// Whether the triple's system names the mobile NDK platform.
pub open spec fn is_mobile(system: Option<Seq<char>>) -> bool {
    system == Some("android"@) || system == Some("androideabi"@)
}

/// Whether the compile target is WebAssembly outside the browser runtime.
pub open spec fn is_wasi(arch: Seq<char>, os: Seq<char>) -> bool {
    occurs_at(arch, "wasm"@, 0) && os != "emscripten"@
}

/// The WebAssembly toolchain root: the configured one, else a fixed default.
pub open spec fn wasi_root_of(configured: Option<Seq<char>>) -> Seq<char> {
    match configured {
        Some(p) => p,
        None => "/opt/wasi-sdk"@,
    }
}

/// The sysroot library directory: the threaded one when the feature list
/// names atomics.
pub open spec fn sysroot_lib_of(features: Option<Seq<char>>) -> Seq<char> {
    match features {
        Some(f) => if occurs_in(f, "atomics"@) {
            "wasm32-wasip1-threads"@
        } else {
            "wasm32-wasip1"@
        },
        None => "wasm32-wasip1"@,
    }
}

/// A decision that changes nothing.
pub open spec fn plain_decision(adjust_runtime: bool) -> DecisionModel {
    DecisionModel {
        compiler: None,
        flags: Seq::empty(),
        link_search: Seq::empty(),
        link_libs: Seq::empty(),
        cpp_stdlib: None,
        target_override: None,
        extra_files: Seq::empty(),
        adjust_runtime,
    }
}

/// NDK before the unified layout: a sysroot and a C++ headers path directly
/// under the root.
pub open spec fn legacy_ndk(ndk: Seq<char>) -> DecisionModel {
    DecisionModel {
        flags: seq![
            "--sysroot="@ + ndk + "/sysroot"@,
            "-isystem"@ + ndk + "/sources/cxx-stl/llvm-libc++/include"@,
        ],
        ..plain_decision(false)
    }
}

/// NDK with the unified layout: the sysroot of the host-tagged toolchain.
pub open spec fn unified_ndk(ndk: Seq<char>, tag: Seq<char>) -> DecisionModel {
    DecisionModel {
        flags: seq!["--sysroot="@ + ndk + "/toolchains/llvm/prebuilt/"@ + tag + "/sysroot"@],
        ..plain_decision(false)
    }
}

/// The WebAssembly toolchain settings; a freestanding target also gets an
/// explicit target, the C library and the entry-point adaptor.
pub open spec fn wasi_decision(root: Seq<char>, lib: Seq<char>, freestanding: bool) -> DecisionModel {
    DecisionModel {
        compiler: Some(root + "/bin/clang++"@),
        flags: seq!["-fno-exceptions"@],
        link_search: seq![root + "/share/wasi-sysroot/lib/"@ + lib],
        link_libs: if freestanding {
            seq!["c++abi"@, "c"@]
        } else {
            seq!["c++abi"@]
        },
        cpp_stdlib: Some("c++"@),
        target_override: if freestanding {
            Some("wasm32-wasip1"@)
        } else {
            None
        },
        extra_files: if freestanding {
            seq!["wasi_to_unknown.cpp"@]
        } else {
            Seq::empty()
        },
        adjust_runtime: true,
    }
}

/// The major version from which the NDK has the unified layout.
pub open spec fn unified_ndk_major() -> u32 {
    22
}

/// The toolchain decision for a triple and the build facts.
pub open spec fn decide(t: TargetModel, i: InputsModel) -> Result<DecisionModel, BuildError> {
    if is_mobile(t.2) {
        match i.ndk_root {
            None => Err(BuildError::MissingEnvironment),
            Some(ndk) => match i.ndk_properties {
                None => Err(BuildError::MissingFile),
                Some(props) => match ndk_major(props) {
                    Err(e) => Err(e),
                    Ok(major) => if major < unified_ndk_major() {
                        Ok(legacy_ndk(ndk))
                    } else {
                        match host_tag_of(i.host) {
                            None => Err(BuildError::UnsupportedHost),
                            Some(tag) => Ok(unified_ndk(ndk, tag)),
                        }
                    },
                },
            },
        }
    } else if is_wasi(i.target_arch, i.target_os) {
        if !i.wasi_root_exists {
            Err(BuildError::MissingToolchainRoot)
        } else {
            Ok(
                wasi_decision(
                    wasi_root_of(i.wasi_sdk),
                    sysroot_lib_of(i.target_features),
                    i.target_os == "unknown"@,
                ),
            )
        }
    } else {
        Ok(plain_decision(true))
    }
}

/// For a mobile target with a readable version file and a supported host,
/// the version picks the layout: below 22 the legacy sysroot and headers
/// path, from 22 on the host-tagged unified toolchain.
pub proof fn lemma_ndk_version_boundary(t: TargetModel, i: InputsModel)
    requires
        is_mobile(t.2),
        i.ndk_root is Some,
        i.ndk_properties is Some,
        ndk_major(i.ndk_properties->0) is Ok,
        host_tag_of(i.host) is Some,
    ensures
        ndk_major(i.ndk_properties->0)->Ok_0 < 22 ==> decide(t, i) == Ok::<
            DecisionModel,
            BuildError,
        >(legacy_ndk(i.ndk_root->0)),
        ndk_major(i.ndk_properties->0)->Ok_0 >= 22 ==> decide(t, i) == Ok::<
            DecisionModel,
            BuildError,
        >(unified_ndk(i.ndk_root->0, host_tag_of(i.host)->0)),
{
}

/// For a WebAssembly target whose toolchain root exists, the library
/// directory searched is the threaded one exactly when the feature list
/// names atomics.
pub proof fn lemma_atomics_selects_threads(t: TargetModel, i: InputsModel)
    requires
        !is_mobile(t.2),
        is_wasi(i.target_arch, i.target_os),
        i.wasi_root_exists,
    ensures
        decide(t, i) is Ok,
        decide(t, i)->Ok_0.link_search == seq![
            wasi_root_of(i.wasi_sdk) + "/share/wasi-sysroot/lib/"@ + (if i.target_features is Some
                && occurs_in(i.target_features->0, "atomics"@) {
                "wasm32-wasip1-threads"@
            } else {
                "wasm32-wasip1"@
            }),
        ],
{
}

/// A missing NDK root, a version file without a revision line, and a missing
/// WebAssembly toolchain root each end the decision with an error.
pub proof fn lemma_missing_resources_abort(t: TargetModel, i: InputsModel)
    ensures
        is_mobile(t.2) && i.ndk_root is None ==> decide(t, i) == Err::<DecisionModel, BuildError>(
            BuildError::MissingEnvironment,
        ),
        is_mobile(t.2) && i.ndk_root is Some && i.ndk_properties is Some && first_revision_from(
            i.ndk_properties->0,
            0,
        ) is None ==> decide(t, i) == Err::<DecisionModel, BuildError>(
            BuildError::MalformedVersionDescriptor,
        ),
        !is_mobile(t.2) && is_wasi(i.target_arch, i.target_os) && !i.wasi_root_exists ==> decide(
            t,
            i,
        ) == Err::<DecisionModel, BuildError>(BuildError::MissingToolchainRoot),
{
}

/// The WebAssembly toolchain root: the configured one, else a fixed default.
pub fn wasi_root(configured: &Option<String>) -> (r: String)
    ensures
        r@ == wasi_root_of(crate::target::opt_view(*configured)),
{
    match configured {
        Some(p) => p.clone(),
        None => String::from_str("/opt/wasi-sdk"),
    }
}

/// The sysroot library directory for a target feature list.
pub fn sysroot_lib(features: &Option<String>) -> (r: &'static str)
    ensures
        r@ == sysroot_lib_of(crate::target::opt_view(*features)),
{
    match features {
        Some(f) => if occurs_in_str(f.as_str(), "atomics") {
            "wasm32-wasip1-threads"
        } else {
            "wasm32-wasip1"
        },
        None => "wasm32-wasip1",
    }
}

fn joined3(a: &str, b: &str, c: &str) -> (r: String)
    ensures
        r@ == a@ + b@ + c@,
{
    let mut r = String::from_str(a);
    r.append(b);
    r.append(c);
    r
}

fn one_string(s: String) -> (r: Vec<String>)
    ensures
        strings_view(r@) == seq![s@],
{
    let mut r: Vec<String> = Vec::new();
    r.push(s);
    assert(strings_view(r@) =~= seq![s@]);
    r
}

fn plain(adjust_runtime: bool) -> (r: ToolchainDecision)
    ensures
        r@ == plain_decision(adjust_runtime),
{
    let r = ToolchainDecision {
        compiler: None,
        flags: Vec::new(),
        link_search: Vec::new(),
        link_libs: Vec::new(),
        cpp_stdlib: None,
        target_override: None,
        extra_files: Vec::new(),
        adjust_runtime,
    };
    assert(strings_view(r.flags@) =~= Seq::empty());
    assert(strings_view(r.link_search@) =~= Seq::empty());
    assert(strings_view(r.link_libs@) =~= Seq::empty());
    assert(strings_view(r.extra_files@) =~= Seq::empty());
    r
}

fn mobile_decision(ndk: &String, properties: &Option<String>, host: HostOs) -> (r: Result<
    ToolchainDecision,
    BuildError,
>)
    ensures
        match crate::target::opt_view(*properties) {
            None => r == Err::<ToolchainDecision, BuildError>(BuildError::MissingFile),
            Some(props) => match ndk_major(props) {
                Err(e) => r == Err::<ToolchainDecision, BuildError>(e),
                Ok(major) => if major < unified_ndk_major() {
                    r is Ok && r->Ok_0@ == legacy_ndk(ndk@)
                } else {
                    match host_tag_of(host) {
                        None => r == Err::<ToolchainDecision, BuildError>(
                            BuildError::UnsupportedHost,
                        ),
                        Some(tag) => r is Ok && r->Ok_0@ == unified_ndk(ndk@, tag),
                    }
                },
            },
        },
{
    let props = match properties {
        None => {
            return Err(BuildError::MissingFile);
        },
        Some(p) => p,
    };
    let major = match ndk_major_version(props.as_str()) {
        Err(e) => {
            return Err(e);
        },
        Ok(m) => m,
    };
    let mut r = plain(false);
    if major < 22 {
        let sysroot = joined3("--sysroot=", ndk.as_str(), "/sysroot");
        let headers = joined3("-isystem", ndk.as_str(), "/sources/cxx-stl/llvm-libc++/include");
        let ghost (a, b) = (sysroot@, headers@);
        let mut flags: Vec<String> = Vec::new();
        flags.push(sysroot);
        flags.push(headers);
        assert(strings_view(flags@) =~= seq![a, b]);
        r.flags = flags;
        Ok(r)
    } else {
        let tag = match host_tag(host) {
            Err(e) => {
                return Err(e);
            },
            Ok(t) => t,
        };
        let mut flag = joined3("--sysroot=", ndk.as_str(), "/toolchains/llvm/prebuilt/");
        flag.append(tag);
        flag.append("/sysroot");
        r.flags = one_string(flag);
        Ok(r)
    }
}

fn wasi_settings(root: String, lib: &str, freestanding: bool) -> (r: ToolchainDecision)
    ensures
        r@ == wasi_decision(root@, lib@, freestanding),
{
    let compiler = joined3(root.as_str(), "/bin/clang++", "");
    let search = joined3(root.as_str(), "/share/wasi-sysroot/lib/", lib);
    let mut link_libs: Vec<String> = Vec::new();
    link_libs.push(String::from_str("c++abi"));
    let mut extra_files: Vec<String> = Vec::new();
    let mut target_override: Option<String> = None;
    if freestanding {
        target_override = Some(String::from_str("wasm32-wasip1"));
        link_libs.push(String::from_str("c"));
        extra_files.push(String::from_str("wasi_to_unknown.cpp"));
        assert(strings_view(link_libs@) =~= seq!["c++abi"@, "c"@]);
    } else {
        assert(strings_view(link_libs@) =~= seq!["c++abi"@]);
    }
    let r = ToolchainDecision {
        compiler: Some(compiler),
        flags: one_string(String::from_str("-fno-exceptions")),
        link_search: one_string(search),
        link_libs,
        cpp_stdlib: Some(String::from_str("c++")),
        target_override,
        extra_files,
        adjust_runtime: true,
    };
    proof {
        reveal_strlit("");
        let m = wasi_decision(root@, lib@, freestanding);
        assert(r@.compiler == m.compiler) by {
            assert(root@ + "/bin/clang++"@ + ""@ =~= root@ + "/bin/clang++"@);
        }
        assert(r@.extra_files =~= m.extra_files);
    }
    r
}

/// The toolchain settings for a target, as `decide` states: the NDK
/// settings for the mobile systems, the WebAssembly toolchain for wasm
/// targets outside the browser runtime, and nothing for the rest. Each
/// missing precondition is an error.
pub fn resolve_toolchain(target: &Target, inputs: &ToolchainInputs) -> (r: Result<
    ToolchainDecision,
    BuildError,
>)
    ensures
        match decide(target@, inputs@) {
            Ok(m) => r is Ok && r->Ok_0@ == m,
            Err(e) => r == Err::<ToolchainDecision, BuildError>(e),
        },
{
    let mobile = match &target.system {
        Some(s) => str_eq(s.as_str(), "android") || str_eq(s.as_str(), "androideabi"),
        None => false,
    };
    if mobile {
        match &inputs.ndk_root {
            None => Err(BuildError::MissingEnvironment),
            Some(ndk) => mobile_decision(ndk, &inputs.ndk_properties, inputs.host),
        }
    } else if occurs_at_pos(inputs.target_arch.as_str(), "wasm", 0) && !str_eq(
        inputs.target_os.as_str(),
        "emscripten",
    ) {
        if !inputs.wasi_root_exists {
            return Err(BuildError::MissingToolchainRoot);
        }
        let root = wasi_root(&inputs.wasi_sdk);
        let lib = sysroot_lib(&inputs.target_features);
        let freestanding = str_eq(inputs.target_os.as_str(), "unknown");
        Ok(wasi_settings(root, lib, freestanding))
    } else {
        Ok(plain(true))
    }
}

/// How the C and C++ runtimes are linked once the compiler is known.
pub struct RuntimeSettings {
    /// Link the C runtime statically.
    pub static_crt: bool,
    /// A default runtime library to keep out of the link.
    pub no_default_lib: Option<String>,
    /// The C++ standard library implementation to select.
    pub cpp_stdlib: Option<String>,
}

/// For an MSVC-like compiler, a static runtime without the default dynamic
/// one; else, for a Clang-like compiler with the alternate C++ library
/// requested, that library; else nothing.
pub fn runtime_settings(like_msvc: bool, like_clang: bool, alternate_cpp_lib: bool) -> (r:
    RuntimeSettings)
    ensures
        r.static_crt == like_msvc,
        like_msvc ==> r.no_default_lib is Some && r.no_default_lib->0@ == "libcmt.lib"@,
        !like_msvc ==> r.no_default_lib is None,
        (!like_msvc && like_clang && alternate_cpp_lib) ==> r.cpp_stdlib is Some
            && r.cpp_stdlib->0@ == "c++"@,
        !(!like_msvc && like_clang && alternate_cpp_lib) ==> r.cpp_stdlib is None,
{
    if like_msvc {
        RuntimeSettings {
            static_crt: true,
            no_default_lib: Some(String::from_str("libcmt.lib")),
            cpp_stdlib: None,
        }
    } else if like_clang && alternate_cpp_lib {
        RuntimeSettings {
            static_crt: false,
            no_default_lib: None,
            cpp_stdlib: Some(String::from_str("c++")),
        }
    } else {
        RuntimeSettings { static_crt: false, no_default_lib: None, cpp_stdlib: None }
    }
}

} // verus!
