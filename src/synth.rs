use vstd::prelude::*;
use vstd::string::*;
use crate::target::{for_arch_spec, Target};
use crate::text::{join_path, join_spec, str_eq};

verus! {

/// One environment variable of an overlay.
#[derive(Clone, Debug)]
pub struct EnvVar {
    pub name: String,
    pub value: String,
}

pub open spec fn vars_view(vs: Seq<EnvVar>) -> Seq<(Seq<char>, Seq<char>)> {
    vs.map_values(|v: EnvVar| (v.name@, v.value@))
}

/// The SDK root that Xcode handed over, and which of the directories that
/// synthesis needs exist there.
#[derive(Clone, Debug)]
pub struct SdkLayout {
    pub sdk_root: String,
    pub sdk_root_is_dir: bool,
    /// Whether `include_dir_spec(sdk_root)` is a directory.
    pub include_dir_is_dir: bool,
    /// Whether `macos_sdk_root_spec(sdk_root)` is a directory.
    pub macos_sdk_root_is_dir: bool,
}

/// Why no environment could be synthesized; each names the offending path
/// or architecture.
#[derive(Debug)]
pub enum SynthesisError {
    SdkRootInvalid { sdk_root: String },
    IncludeDirInvalid { include_dir: String },
    MacosSdkRootInvalid { macos_sdk_root: String },
    ArchInvalid { arch: String },
}

/// `SynthesisError` with its text as characters.
pub enum SynthesisFailure {
    SdkRootInvalid(Seq<char>),
    IncludeDirInvalid(Seq<char>),
    MacosSdkRootInvalid(Seq<char>),
    ArchInvalid(Seq<char>),
}

impl SynthesisError {
    pub open spec fn view(&self) -> SynthesisFailure {
        match self {
            SynthesisError::SdkRootInvalid { sdk_root } => SynthesisFailure::SdkRootInvalid(sdk_root@),
            SynthesisError::IncludeDirInvalid { include_dir } => SynthesisFailure::IncludeDirInvalid(include_dir@),
            SynthesisError::MacosSdkRootInvalid { macos_sdk_root } => SynthesisFailure::MacosSdkRootInvalid(macos_sdk_root@),
            SynthesisError::ArchInvalid { arch } => SynthesisFailure::ArchInvalid(arch@),
        }
    }
}

/// The environment for compiling one architecture.
#[derive(Debug)]
pub struct ArchEnv {
    pub arch: String,
    pub target: Target,
    pub vars: Vec<EnvVar>,
}

pub open spec fn include_dir_spec(sdk_root: Seq<char>) -> Seq<char> {
    join_spec(sdk_root, "usr/include"@)
}

/// The macOS SDK beside the mobile one, used for build scripts, which always
/// run on the host.
pub open spec fn macos_sdk_root_spec(sdk_root: Seq<char>) -> Seq<char> {
    join_spec(sdk_root, "../../../../MacOSX.platform/Developer/SDKs/MacOSX.sdk"@)
}

pub open spec fn isysroot_spec(path: Seq<char>) -> Seq<char> {
    "-isysroot "@ + path
}

/// The host overlay: system root and include path for host code, and full
/// backtraces.
pub open spec fn host_overlay_spec(sdk_root: Seq<char>) -> Seq<(Seq<char>, Seq<char>)> {
    let mac = isysroot_spec(macos_sdk_root_spec(sdk_root));
    seq![
        ("MAC_FLAGS"@, mac),
        ("CFLAGS_x86_64_apple_darwin"@, mac),
        ("CXXFLAGS_x86_64_apple_darwin"@, mac),
        ("OBJC_INCLUDE_PATH_x86_64_apple_darwin"@, include_dir_spec(sdk_root)),
        ("RUST_BACKTRACE"@, "1"@),
    ]
}

/// The triple, as it appears in variable names, for an Xcode architecture.
pub open spec fn env_triple_spec(arch: Seq<char>) -> Option<Seq<char>> {
    if arch == "arm64"@ {
        Some("aarch64_apple_ios"@)
    } else if arch == "x86_64"@ {
        Some("x86_64_apple_ios"@)
    } else {
        None
    }
}

/// The variables set for the triple alone.
pub open spec fn triple_vars_spec(sdk_root: Seq<char>, triple: Seq<char>) -> Seq<(Seq<char>, Seq<char>)> {
    seq![
        ("CFLAGS_"@ + triple, isysroot_spec(sdk_root)),
        ("CXXFLAGS_"@ + triple, isysroot_spec(sdk_root)),
        ("OBJC_INCLUDE_PATH_"@ + triple, include_dir_spec(sdk_root)),
    ]
}

/// The overlay for one triple: the host overlay, then the triple's own.
pub open spec fn target_overlay_spec(sdk_root: Seq<char>, triple: Seq<char>) -> Seq<(Seq<char>, Seq<char>)> {
    host_overlay_spec(sdk_root) + triple_vars_spec(sdk_root, triple)
}

/// The index of the first architecture without a triple, if any.
pub open spec fn first_unknown_arch(arches: Seq<Seq<char>>) -> Option<int>
    decreases arches.len(),
{
    if arches.len() == 0 {
        None
    } else if env_triple_spec(arches[0]) is None {
        Some(0)
    } else {
        match first_unknown_arch(arches.subrange(1, arches.len() as int)) {
            Some(i) => Some(i + 1),
            None => None,
        }
    }
}

/// The error synthesis meets first, if any.
pub open spec fn failure_spec(
    sdk_root: Seq<char>,
    sdk_root_is_dir: bool,
    include_dir_is_dir: bool,
    macos_sdk_root_is_dir: bool,
    arches: Seq<Seq<char>>,
    for_host: bool,
) -> Option<SynthesisFailure> {
    if !sdk_root_is_dir {
        Some(SynthesisFailure::SdkRootInvalid(sdk_root))
    } else if !include_dir_is_dir {
        Some(SynthesisFailure::IncludeDirInvalid(include_dir_spec(sdk_root)))
    } else if !for_host && !macos_sdk_root_is_dir {
        Some(SynthesisFailure::MacosSdkRootInvalid(macos_sdk_root_spec(sdk_root)))
    } else {
        match first_unknown_arch(arches) {
            Some(i) => Some(SynthesisFailure::ArchInvalid(arches[i])),
            None => None,
        }
    }
}

/// The target that compiles for `arch`: the host when building for the host
/// platform, else the registry's target for the architecture.
pub open spec fn arch_target_spec(arch: Seq<char>, for_host: bool) -> Target {
    if for_host {
        Target::Macos
    } else {
        for_arch_spec(arch)->Some_0
    }
}

pub open spec fn arch_env_matches(e: ArchEnv, sdk_root: Seq<char>, arch: Seq<char>, for_host: bool) -> bool {
    &&& e.arch@ == arch
    &&& e.target == arch_target_spec(arch, for_host)
    &&& vars_view(e.vars@) == target_overlay_spec(sdk_root, env_triple_spec(arch)->Some_0)
}

fn concat(a: &str, b: &str) -> (r: String)
    ensures
        r@ == a@ + b@,
{
    let mut r = String::from_str(a);
    r.append(b);
    r
}

fn env_var(name: String, value: String) -> (r: EnvVar)
    ensures
        r.name@ == name@,
        r.value@ == value@,
{
    EnvVar { name, value }
}

/// The include directory of the SDK.
pub fn include_dir(sdk_root: &str) -> (r: String)
    ensures
        r@ == include_dir_spec(sdk_root@),
{
    join_path(sdk_root, "usr/include")
}

/// The macOS SDK root that sits beside the SDK.
pub fn macos_sdk_root(sdk_root: &str) -> (r: String)
    ensures
        r@ == macos_sdk_root_spec(sdk_root@),
{
    join_path(sdk_root, "../../../../MacOSX.platform/Developer/SDKs/MacOSX.sdk")
}

/// The triple used in variable names for an Xcode architecture, if it is
/// one that can be built.
pub fn env_triple(arch: &str) -> (r: Option<&'static str>)
    ensures
        match r {
            Some(t) => env_triple_spec(arch@) == Some(t@),
            None => env_triple_spec(arch@) is None,
        },
{
    if str_eq(arch, "arm64") {
        Some("aarch64_apple_ios")
    } else if str_eq(arch, "x86_64") {
        Some("x86_64_apple_ios")
    } else {
        None
    }
}

/// The host overlay for an SDK root.
pub fn host_overlay(sdk_root: &str) -> (r: Vec<EnvVar>)
    ensures
        vars_view(r@) == host_overlay_spec(sdk_root@),
{
    let mac_root = macos_sdk_root(sdk_root);
    let mac = concat("-isysroot ", mac_root.as_str());
    let inc = include_dir(sdk_root);
    let mut r: Vec<EnvVar> = Vec::new();
    r.push(env_var(String::from_str("MAC_FLAGS"), String::from_str(mac.as_str())));
    r.push(env_var(String::from_str("CFLAGS_x86_64_apple_darwin"), String::from_str(mac.as_str())));
    r.push(env_var(String::from_str("CXXFLAGS_x86_64_apple_darwin"), String::from_str(mac.as_str())));
    r.push(env_var(String::from_str("OBJC_INCLUDE_PATH_x86_64_apple_darwin"), inc));
    r.push(env_var(String::from_str("RUST_BACKTRACE"), String::from_str("1")));
    assert(vars_view(r@) =~= host_overlay_spec(sdk_root@));
    r
}

/// The overlay for one triple: a fresh host overlay with the triple's own
/// system root and include path added.
pub fn target_overlay(sdk_root: &str, triple: &str) -> (r: Vec<EnvVar>)
    ensures
        vars_view(r@) == target_overlay_spec(sdk_root@, triple@),
{
    let mut r = host_overlay(sdk_root);
    let ghost host = r@;
    let isysroot = concat("-isysroot ", sdk_root);
    r.push(env_var(concat("CFLAGS_", triple), String::from_str(isysroot.as_str())));
    r.push(env_var(concat("CXXFLAGS_", triple), isysroot));
    r.push(env_var(concat("OBJC_INCLUDE_PATH_", triple), include_dir(sdk_root)));
    assert(vars_view(r@) =~= vars_view(host) + triple_vars_spec(sdk_root@, triple@));
    r
}

/// Builds the environment for compiling each of `arches`, in order, against
/// the SDK described by `layout`. The SDK's directories are checked first;
/// then an architecture without a triple fails the whole call, and no
/// environment is returned for any of the others.
pub fn synthesize(layout: &SdkLayout, arches: &Vec<String>, for_host: bool) -> (r: Result<Vec<ArchEnv>, SynthesisError>)
    ensures
        ({
            let f = failure_spec(
                layout.sdk_root@,
                layout.sdk_root_is_dir,
                layout.include_dir_is_dir,
                layout.macos_sdk_root_is_dir,
                crate::select::views(arches@),
                for_host,
            );
            match r {
                Ok(envs) => f is None && envs.len() == arches.len() && forall|i: int|
                    0 <= i < arches.len() ==> arch_env_matches(
                        #[trigger] envs@[i],
                        layout.sdk_root@,
                        arches@[i]@,
                        for_host,
                    ),
                Err(e) => f == Some(e.view()),
            }
        }),
        !layout.sdk_root_is_dir ==> r matches Err(SynthesisError::SdkRootInvalid { .. }),
        layout.sdk_root_is_dir && !layout.include_dir_is_dir ==> r matches Err(
            SynthesisError::IncludeDirInvalid { .. },
        ),
        layout.sdk_root_is_dir && layout.include_dir_is_dir && !for_host && !layout.macos_sdk_root_is_dir
            ==> r matches Err(SynthesisError::MacosSdkRootInvalid { .. }),
{
    let ghost ks = crate::select::views(arches@);
    if !layout.sdk_root_is_dir {
        return Err(SynthesisError::SdkRootInvalid { sdk_root: String::from_str(layout.sdk_root.as_str()) });
    }
    let sdk_root = layout.sdk_root.as_str();
    if !layout.include_dir_is_dir {
        return Err(SynthesisError::IncludeDirInvalid { include_dir: include_dir(sdk_root) });
    }
    if !for_host && !layout.macos_sdk_root_is_dir {
        return Err(SynthesisError::MacosSdkRootInvalid { macos_sdk_root: macos_sdk_root(sdk_root) });
    }
    let mut envs: Vec<ArchEnv> = Vec::new();
    let mut i: usize = 0;
    assert(ks.subrange(0, ks.len() as int) =~= ks);
    while i < arches.len()
        invariant
            i <= arches.len(),
            ks == crate::select::views(arches@),
            sdk_root@ == layout.sdk_root@,
            envs.len() == i,
            layout.sdk_root_is_dir,
            layout.include_dir_is_dir,
            for_host || layout.macos_sdk_root_is_dir,
            first_unknown_arch(ks) == (match first_unknown_arch(ks.subrange(i as int, ks.len() as int)) {
                Some(j) => Some(j + i),
                None => None,
            }),
            forall|j: int| 0 <= j < i ==> arch_env_matches(#[trigger] envs@[j], sdk_root@, arches@[j]@, for_host),
        decreases arches.len() - i,
    {
        let arch = arches[i].as_str();
        let ghost rest = ks.subrange(i as int, ks.len() as int);
        assert(rest[0] == arch@);
        assert(rest.subrange(1, rest.len() as int) =~= ks.subrange(i + 1, ks.len() as int));
        let triple = match env_triple(arch) {
            Some(t) => t,
            None => {
                return Err(SynthesisError::ArchInvalid { arch: String::from_str(arch) });
            },
        };
        let target = if for_host {
            Target::macos()
        } else {
            match Target::for_arch(arch) {
                Some(t) => t,
                None => {
                    return Err(SynthesisError::ArchInvalid { arch: String::from_str(arch) });
                },
            }
        };
        let vars = target_overlay(sdk_root, triple);
        envs.push(ArchEnv { arch: String::from_str(arch), target, vars });
        i = i + 1;
    }
    assert(ks.subrange(i as int, ks.len() as int) =~= Seq::<Seq<char>>::empty());
    Ok(envs)
}

/// The overlay of every buildable architecture holds the whole host overlay,
/// unchanged and first, and the triple's own system root, secondary
/// compiler flags and include path.
pub proof fn lemma_overlay_holds_host_and_triple_vars(sdk_root: Seq<char>, arch: Seq<char>)
    requires
        env_triple_spec(arch) is Some,
    ensures
        ({
            let triple = env_triple_spec(arch)->Some_0;
            let o = target_overlay_spec(sdk_root, triple);
            &&& o.subrange(0, host_overlay_spec(sdk_root).len() as int) == host_overlay_spec(sdk_root)
            &&& o.contains(("CFLAGS_"@ + triple, isysroot_spec(sdk_root)))
            &&& o.contains(("CXXFLAGS_"@ + triple, isysroot_spec(sdk_root)))
            &&& o.contains(("OBJC_INCLUDE_PATH_"@ + triple, include_dir_spec(sdk_root)))
        }),
{
    let triple = env_triple_spec(arch)->Some_0;
    let o = target_overlay_spec(sdk_root, triple);
    assert(o.subrange(0, 5) =~= host_overlay_spec(sdk_root));
    assert(o[5] == ("CFLAGS_"@ + triple, isysroot_spec(sdk_root)));
    assert(o[6] == ("CXXFLAGS_"@ + triple, isysroot_spec(sdk_root)));
    assert(o[7] == ("OBJC_INCLUDE_PATH_"@ + triple, include_dir_spec(sdk_root)));
}

proof fn lemma_first_unknown_arch(arches: Seq<Seq<char>>, i: int)
    requires
        0 <= i < arches.len(),
        env_triple_spec(arches[i]) is None,
    ensures
        first_unknown_arch(arches) matches Some(j) && 0 <= j <= i && env_triple_spec(arches[j]) is None,
    decreases arches.len(),
{
    if env_triple_spec(arches[0]) is Some {
        let rest = arches.subrange(1, arches.len() as int);
        assert(rest[i - 1] == arches[i]);
        lemma_first_unknown_arch(rest, i - 1);
        let j = first_unknown_arch(rest)->Some_0;
        assert(rest[j] == arches[j + 1]);
    }
}

/// With the SDK's directories in place, an architecture that cannot be
/// built fails the whole call with an error that names an unknown
/// architecture, the first of the list: no other architecture gets an
/// environment.
pub proof fn lemma_unknown_arch_fails_call(
    sdk_root: Seq<char>,
    macos_sdk_root_is_dir: bool,
    arches: Seq<Seq<char>>,
    for_host: bool,
    i: int,
)
    requires
        for_host || macos_sdk_root_is_dir,
        0 <= i < arches.len(),
        env_triple_spec(arches[i]) is None,
    ensures
        failure_spec(sdk_root, true, true, macos_sdk_root_is_dir, arches, for_host) matches Some(
            SynthesisFailure::ArchInvalid(a),
        ) && env_triple_spec(a) is None && exists|j: int| 0 <= j <= i && arches[j] == a,
{
    lemma_first_unknown_arch(arches, i);
    let j = first_unknown_arch(arches)->Some_0;
    assert(arches[j] == arches[j]);
}

} // verus!
