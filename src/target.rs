use vstd::prelude::*;
use crate::text::str_eq;
use vstd::string::*;

verus! {

/// A build target: the two iOS architectures, device and simulator, of the
/// registry, and macOS, the host, which is only reached on its own.
#[derive(Clone, Copy, Debug, PartialEq, Eq, Structural)]
pub enum Target {
    Aarch64,
    X86_64,
    Macos,
}

/// The key that names a target on the command line.
pub open spec fn key_spec(t: Target) -> Seq<char> {
    match t {
        Target::Aarch64 => "aarch64"@,
        Target::X86_64 => "x86_64"@,
        Target::Macos => "macos"@,
    }
}

/// The compiler-facing target triple.
pub open spec fn triple_spec(t: Target) -> Seq<char> {
    match t {
        Target::Aarch64 => "aarch64-apple-ios"@,
        Target::X86_64 => "x86_64-apple-ios"@,
        Target::Macos => "x86_64-apple-darwin"@,
    }
}

/// The architecture name that Xcode uses for a registry target.
pub open spec fn arch_spec(t: Target) -> Seq<char> {
    match t {
        Target::Aarch64 => "arm64"@,
        Target::X86_64 => "x86_64"@,
        Target::Macos => "x86_64"@,
    }
}

/// The registry's targets in canonical order.
pub open spec fn all_spec() -> Seq<Target> {
    seq![Target::Aarch64, Target::X86_64]
}

/// The key that stands for "no explicit choice".
pub open spec fn default_key_spec() -> Seq<char> {
    "aarch64"@
}

/// The registry target whose key is `key`, if any.
pub open spec fn lookup_spec(key: Seq<char>) -> Option<Target> {
    if key == "aarch64"@ {
        Some(Target::Aarch64)
    } else if key == "x86_64"@ {
        Some(Target::X86_64)
    } else {
        None
    }
}

/// The registry target built for the Xcode architecture name `arch`, if any.
pub open spec fn for_arch_spec(arch: Seq<char>) -> Option<Target> {
    if arch == "arm64"@ {
        Some(Target::Aarch64)
    } else if arch == "x86_64"@ {
        Some(Target::X86_64)
    } else {
        None
    }
}

/// A target key that the registry does not know.
#[derive(Debug)]
pub struct TargetInvalid {
    pub name: String,
}

impl Target {
    pub fn key(&self) -> (r: &'static str)
        ensures
            r@ == key_spec(*self),
    {
        match self {
            Target::Aarch64 => "aarch64",
            Target::X86_64 => "x86_64",
            Target::Macos => "macos",
        }
    }

    pub fn triple(&self) -> (r: &'static str)
        ensures
            r@ == triple_spec(*self),
    {
        match self {
            Target::Aarch64 => "aarch64-apple-ios",
            Target::X86_64 => "x86_64-apple-ios",
            Target::Macos => "x86_64-apple-darwin",
        }
    }

    /// Whether this is a device or simulator target rather than the host.
    pub fn is_mobile(&self) -> (r: bool)
        ensures
            r == (*self != Target::Macos),
    {
        !matches!(self, Target::Macos)
    }

    /// The host target.
    pub fn macos() -> (r: Target)
        ensures
            r == Target::Macos,
    {
        Target::Macos
    }

    /// The registry's targets in canonical order.
    pub fn all() -> (r: Vec<Target>)
        ensures
            r@ == all_spec(),
    {
        let r = vec![Target::Aarch64, Target::X86_64];
        assert(r@ =~= all_spec());
        r
    }

    pub fn default_key() -> (r: &'static str)
        ensures
            r@ == default_key_spec(),
    {
        "aarch64"
    }

    /// Looks a target up by its key; an unknown key is an error that names it.
    pub fn for_name(key: &str) -> (r: Result<Target, TargetInvalid>)
        ensures
            match r {
                Ok(t) => lookup_spec(key@) == Some(t),
                Err(e) => lookup_spec(key@) is None && e.name@ == key@,
            },
    {
        if str_eq(key, "aarch64") {
            Ok(Target::Aarch64)
        } else if str_eq(key, "x86_64") {
            Ok(Target::X86_64)
        } else {
            Err(TargetInvalid { name: String::from_str(key) })
        }
    }

    /// The registry target for an Xcode architecture name.
    pub fn for_arch(arch: &str) -> (r: Option<Target>)
        ensures
            r == for_arch_spec(arch@),
    {
        if str_eq(arch, "arm64") {
            Some(Target::Aarch64)
        } else if str_eq(arch, "x86_64") {
            Some(Target::X86_64)
        } else {
            None
        }
    }
}

} // verus!
