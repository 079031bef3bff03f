use vstd::prelude::*;
use vstd::string::*;

verus! {

/// Compares two string slices character by character.
pub fn str_eq(a: &str, b: &str) -> (r: bool)
    ensures
        r == (a@ == b@),
{
    let n = a.unicode_len();
    if n != b.unicode_len() {
        return false;
    }
    let mut i: usize = 0;
    while i < n
        invariant
            n == a@.len(),
            n == b@.len(),
            i <= n,
            forall|j: int| 0 <= j < i ==> a@[j] == b@[j],
        decreases n - i,
    {
        if a.get_char(i) != b.get_char(i) {
            return false;
        }
        i = i + 1;
    }
    assert(a@ =~= b@);
    true
}

/// The path `rel` (relative) joined onto `base`, as `Path::join` forms it:
/// a separator is put between them unless `base` is empty or already ends
/// in one.
pub open spec fn join_spec(base: Seq<char>, rel: Seq<char>) -> Seq<char> {
    if base.len() == 0 || base.last() == '/' {
        base + rel
    } else {
        base + "/"@ + rel
    }
}

/// Joins the relative path `rel` onto `base`.
pub fn join_path(base: &str, rel: &str) -> (r: String)
    ensures
        r@ == join_spec(base@, rel@),
{
    let n = base.unicode_len();
    let mut r = String::from_str(base);
    if n != 0 && base.get_char(n - 1) != '/' {
        r.append("/");
    }
    r.append(rel);
    r
}

/// Whether the platform display name handed over by Xcode names the host
/// platform, macOS.
pub fn macos_from_platform(platform: &str) -> (r: bool)
    ensures
        r == (platform@ == "macOS"@),
{
    str_eq(platform, "macOS")
}

/// Build profile.
#[derive(Clone, Copy, Debug, PartialEq, Eq, Structural)]
pub enum Profile {
    Debug,
    Release,
}

/// The profile that an Xcode build configuration name selects: `release`
/// (matched exactly, case included) is a release build, any other name a
/// debug build.
pub fn profile_from_configuration(configuration: &str) -> (r: Profile)
    ensures
        r == (if configuration@ == "release"@ { Profile::Release } else { Profile::Debug }),
{
    if str_eq(configuration, "release") {
        Profile::Release
    } else {
        Profile::Debug
    }
}

} // verus!
