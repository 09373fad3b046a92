use vstd::prelude::*;

use crate::partial_config::PartialConfig;
use crate::text::{
    contains_text, lemma_concat_lacks, lemma_without_pattern_itself, lemma_without_pattern_prefix,
    occurs_in, remove_pattern, same_text, trimmed, trimmed_equals, without_pattern,
};
use crate::version::{
    parse_tag_version, parse_version, semver_greater, semver_parse, tag_version_text,
    version_text, InvalidVersion,
};

verus! {

/// Install aiken versions.
pub struct Args {
    /// version to install
    pub release: Option<String>,
    /// do not switch to the installed version
    pub no_switch: bool,
}

impl Args {
    /// Installing the latest release and switching to it.
    pub fn latest() -> (res: Self)
        ensures
            res.release is None,
            !res.no_switch,
    {
        Self { release: None, no_switch: false }
    }
}

/// Which release to install.
#[derive(Debug, PartialEq, Eq)]
pub enum ReleaseChoice {
    /// The tag that was asked for.
    Requested(String),
    /// The tag of the compiler that the project's configuration names.
    Detected(String),
    /// Nothing was asked for or detected: the latest release.
    Latest,
}

/// Chooses the release: the one asked for, else the one of the project's
/// configuration, else the latest.
pub fn choose_release(release: &Option<String>, config: &Option<PartialConfig>) -> (res:
    ReleaseChoice)
    ensures
        match release {
            Some(tag) => res matches ReleaseChoice::Requested(t) && t@ == tag@,
            None => match config {
                Some(c) => res matches ReleaseChoice::Detected(t) && t@ == seq!['v']
                    + version_text(c.compiler@),
                None => res is Latest,
            },
        },
{
    match release {
        Some(tag) => ReleaseChoice::Requested(tag.clone()),
        None => match config {
            Some(c) => ReleaseChoice::Detected(c.release_tag()),
            None => ReleaseChoice::Latest,
        },
    }
}

/// The version from which on release assets are named by target triple.
pub open spec fn cut_off_text() -> Seq<char> {
    "1.0.26-alpha"@
}

/// Whether the release of a tag comes after the cut-off, where both versions
/// parse.
pub open spec fn tag_past_cut_off(tag: Seq<char>) -> Option<bool> {
    match (semver_parse(tag_version_text(tag)), semver_parse(cut_off_text())) {
        (Some(v), Some(c)) => Some(semver_greater(v, c)),
        _ => None,
    }
}

/// Whether the release of the tag `tag_name` comes after the cut-off.
pub fn is_past_cut_off(tag_name: &str) -> (res: Result<bool, InvalidVersion>)
    ensures
        match res {
            Ok(past) => tag_past_cut_off(tag_name@) == Some(past),
            Err(_) => tag_past_cut_off(tag_name@) is None,
        },
{
    let version = match parse_tag_version(tag_name) {
        Ok(v) => v,
        Err(e) => return Err(e),
    };
    let cut_off = match parse_version("1.0.26-alpha") {
        Ok(v) => v,
        Err(e) => return Err(e),
    };
    Ok(version.is_greater_than(&cut_off))
}

/// The operating system's name in assets past the cut-off.
pub open spec fn target_os(os: Seq<char>) -> Seq<char> {
    if os == "macos"@ {
        "apple-darwin"@
    } else if os == "windows"@ {
        "pc-windows-msvc"@
    } else if os == "linux"@ {
        "unknown-linux-gnu"@
    } else {
        os
    }
}

/// The architecture's name in assets past the cut-off.
pub open spec fn target_arch(arch: Seq<char>) -> Seq<char> {
    if arch == "x86"@ {
        "x86_64"@
    } else {
        arch
    }
}

/// The operating system's name in assets up to the cut-off.
pub open spec fn legacy_os(os: Seq<char>) -> Seq<char> {
    if os == "macos"@ {
        "darwin"@
    } else if os == "windows"@ {
        "win32"@
    } else {
        os
    }
}

/// The architecture's name in assets up to the cut-off.
pub open spec fn legacy_arch(arch: Seq<char>) -> Seq<char> {
    if arch == "x86"@ || arch == "x86_64"@ {
        "amd64"@
    } else if arch == "aarch64"@ {
        "arm64"@
    } else {
        arch
    }
}

/// The name of the release asset for a tag, an operating system and an
/// architecture (as `std::env::consts` names them).
pub open spec fn release_asset_name(tag: Seq<char>, past_cut_off: bool, os: Seq<char>, arch: Seq<
    char,
>) -> Seq<char> {
    if past_cut_off {
        "aiken-"@ + target_arch(arch) + "-"@ + target_os(os) + ".tar.gz"@
    } else {
        "aiken_"@ + tag + "_"@ + legacy_os(os) + "_"@ + legacy_arch(arch) + ".tar.gz"@
    }
}

fn target_os_name(os: &str) -> (res: String)
    ensures
        res@ == target_os(os@),
{
    if same_text(os, "macos") {
        String::from_str("apple-darwin")
    } else if same_text(os, "windows") {
        String::from_str("pc-windows-msvc")
    } else if same_text(os, "linux") {
        String::from_str("unknown-linux-gnu")
    } else {
        String::from_str(os)
    }
}

fn target_arch_name(arch: &str) -> (res: String)
    ensures
        res@ == target_arch(arch@),
{
    if same_text(arch, "x86") {
        String::from_str("x86_64")
    } else {
        String::from_str(arch)
    }
}

fn legacy_os_name(os: &str) -> (res: String)
    ensures
        res@ == legacy_os(os@),
{
    if same_text(os, "macos") {
        String::from_str("darwin")
    } else if same_text(os, "windows") {
        String::from_str("win32")
    } else {
        String::from_str(os)
    }
}

fn legacy_arch_name(arch: &str) -> (res: String)
    ensures
        res@ == legacy_arch(arch@),
{
    if same_text(arch, "x86") || same_text(arch, "x86_64") {
        String::from_str("amd64")
    } else if same_text(arch, "aarch64") {
        String::from_str("arm64")
    } else {
        String::from_str(arch)
    }
}

/// The name of the release asset to download for `tag_name` on the given
/// operating system and architecture.
pub fn asset_name(tag_name: &str, is_past_cut_off: bool, os: &str, arch: &str) -> (res: String)
    ensures
        res@ == release_asset_name(tag_name@, is_past_cut_off, os@, arch@),
{
    if is_past_cut_off {
        let mut name = String::from_str("aiken-");
        name.append(target_arch_name(arch).as_str());
        name.append("-");
        name.append(target_os_name(os).as_str());
        name.append(".tar.gz");
        name
    } else {
        let mut name = String::from_str("aiken_");
        name.append(tag_name);
        name.append("_");
        name.append(legacy_os_name(os).as_str());
        name.append("_");
        name.append(legacy_arch_name(arch).as_str());
        name.append(".tar.gz");
        name
    }
}

/// The index of the first name in `names` that equals `wanted`.
pub fn find_asset(names: &Vec<String>, wanted: &str) -> (res: Option<usize>)
    ensures
        match res {
            Some(i) => i < names.len() && names@[i as int]@ == wanted@ && forall|j: int|
                0 <= j < i ==> names@[j]@ != wanted@,
            None => forall|j: int| 0 <= j < names.len() ==> names@[j]@ != wanted@,
        },
{
    let mut i: usize = 0;
    while i < names.len()
        invariant
            i <= names.len(),
            forall|j: int| 0 <= j < i ==> names@[j]@ != wanted@,
        decreases names.len() - i,
    {
        if same_text(names[i].as_str(), wanted) {
            return Some(i);
        }
        i = i + 1;
    }
    None
}

/// What is known, once a release is chosen, of where it comes from and goes.
pub struct InstallPlan {
    /// The release is past the cut-off.
    pub is_past_cut_off: bool,
    /// The name of the asset to download.
    pub asset_name: String,
    /// Its index among the release's assets.
    pub asset_index: usize,
    /// The directory inside the installation that holds the binary, where it
    /// is not the installation's own directory.
    pub binary_dir: Option<String>,
}

/// Why a release cannot be installed.
#[derive(Debug)]
pub enum InstallError {
    /// The release tag, or the cut-off, is no semantic version.
    InvalidVersion(InvalidVersion),
    /// The release has no asset of this name.
    NoAsset(String),
}

/// The directory, inside the installation, that an asset unpacks its binary
/// into: the asset's name without `.tar.gz`, for releases past the cut-off.
pub open spec fn binary_dir_of(asset: Seq<char>, past_cut_off: bool) -> Option<Seq<char>> {
    if past_cut_off {
        Some(without_pattern(asset, ".tar.gz"@))
    } else {
        None
    }
}

/// `res` is the plan for the release `tag` with the assets `names`.
pub open spec fn is_release_plan(
    res: Result<InstallPlan, InstallError>,
    tag: Seq<char>,
    past_cut_off: bool,
    names: Seq<Seq<char>>,
    os: Seq<char>,
    arch: Seq<char>,
) -> bool {
    let wanted = release_asset_name(tag, past_cut_off, os, arch);
    match res {
        Ok(plan) => {
            &&& plan.is_past_cut_off == past_cut_off
            &&& plan.asset_name@ == wanted
            &&& plan.asset_index < names.len()
            &&& names[plan.asset_index as int] == wanted
            &&& forall|j: int| 0 <= j < plan.asset_index ==> names[j] != wanted
            &&& match plan.binary_dir {
                Some(dir) => binary_dir_of(wanted, past_cut_off) == Some(dir@),
                None => binary_dir_of(wanted, past_cut_off) is None,
            }
        },
        Err(InstallError::NoAsset(name)) => {
            &&& name@ == wanted
            &&& forall|j: int| 0 <= j < names.len() ==> names[j] != wanted
        },
        Err(InstallError::InvalidVersion(_)) => false,
    }
}

/// The plan for the release `tag_name`, whose assets are named `asset_names`,
/// given whether it is past the cut-off.
pub fn plan_release(
    tag_name: &str,
    is_past_cut_off: bool,
    asset_names: &Vec<String>,
    os: &str,
    arch: &str,
) -> (res: Result<InstallPlan, InstallError>)
    ensures
        is_release_plan(res, tag_name@, is_past_cut_off, asset_names.deep_view(), os@, arch@),
{
    let name = asset_name(tag_name, is_past_cut_off, os, arch);
    let found = find_asset(asset_names, name.as_str());
    assert(asset_names.deep_view().len() == asset_names@.len());
    assert(forall|j: int|
        0 <= j < asset_names@.len() ==> #[trigger] asset_names.deep_view()[j] == asset_names@[j]@);
    match found {
        Some(index) => {
            let binary_dir = if is_past_cut_off {
                Some(remove_pattern(name.as_str(), ".tar.gz"))
            } else {
                None
            };
            Ok(InstallPlan { is_past_cut_off, asset_name: name, asset_index: index, binary_dir })
        },
        None => Err(InstallError::NoAsset(name)),
    }
}

/// The plan for the release `tag_name`, whose assets are named `asset_names`.
pub fn plan_install(tag_name: &str, asset_names: &Vec<String>, os: &str, arch: &str) -> (res:
    Result<InstallPlan, InstallError>)
    ensures
        match tag_past_cut_off(tag_name@) {
            Some(past) => is_release_plan(res, tag_name@, past, asset_names.deep_view(), os@, arch@),
            None => res matches Err(InstallError::InvalidVersion(_)),
        },
{
    match is_past_cut_off(tag_name) {
        Ok(past) => plan_release(tag_name, past, asset_names, os, arch),
        Err(e) => Err(InstallError::InvalidVersion(e)),
    }
}

/// Whether the version recorded as switched to (the content of the `current`
/// file, around which white space is ignored) is the release `tag`.
pub fn is_switched_to(recorded: &str, tag: &str) -> (res: bool)
    ensures
        res == (trimmed(recorded@) == tag@),
{
    trimmed_equals(recorded, tag)
}

/// Where the `aiken` found on the `PATH` stands.
#[derive(Debug, PartialEq, Eq, Clone, Copy)]
pub enum PathStatus {
    /// It is the one this tool manages.
    Managed,
    /// It is another one.
    Unmanaged,
    /// There is none.
    NotFound,
}

/// Classifies the path of the `aiken` found on the `PATH`, if any.
pub fn path_status(found: Option<&str>) -> (res: PathStatus)
    ensures
        match found {
            Some(path) => if occurs_in(path@, ".aiken/bin"@) {
                res == PathStatus::Managed
            } else {
                res == PathStatus::Unmanaged
            },
            None => res == PathStatus::NotFound,
        },
{
    match found {
        Some(path) => if contains_text(path, ".aiken/bin") {
            PathStatus::Managed
        } else {
            PathStatus::Unmanaged
        },
        None => PathStatus::NotFound,
    }
}

} // verus!

verus! {

/// Past the cut-off, the binary of a release is unpacked into the directory
/// named after the target, `aiken-<arch>-<os>`, whatever the tag, where the
/// names of the operating system and architecture hold no dot.
pub proof fn lemma_binary_dir_names_target(tag: Seq<char>, os: Seq<char>, arch: Seq<char>)
    requires
        !os.contains('.'),
        !arch.contains('.'),
    ensures
        binary_dir_of(release_asset_name(tag, true, os, arch), true) == Some(
            "aiken-"@ + target_arch(arch) + "-"@ + target_os(os),
        ),
{
    reveal_strlit("aiken-");
    reveal_strlit("-");
    reveal_strlit(".tar.gz");
    reveal_strlit("x86_64");
    reveal_strlit("apple-darwin");
    reveal_strlit("pc-windows-msvc");
    reveal_strlit("unknown-linux-gnu");
    let suffix = ".tar.gz"@;
    assert(suffix[0] == '.');
    assert(!"aiken-"@.contains('.')) by {
        assert("aiken-"@ =~= seq!['a', 'i', 'k', 'e', 'n', '-']);
    }
    assert(!"-"@.contains('.')) by {
        assert("-"@ =~= seq!['-']);
    }
    assert(!target_arch(arch).contains('.')) by {
        if arch == "x86"@ {
            assert("x86_64"@ =~= seq!['x', '8', '6', '_', '6', '4']);
        }
    }
    assert(!target_os(os).contains('.')) by {
        if os == "macos"@ {
            assert("apple-darwin"@ =~= seq!['a', 'p', 'p', 'l', 'e', '-', 'd', 'a', 'r', 'w', 'i',
                'n']);
        } else if os == "windows"@ {
            assert("pc-windows-msvc"@ =~= seq!['p', 'c', '-', 'w', 'i', 'n', 'd', 'o', 'w', 's',
                '-', 'm', 's', 'v', 'c']);
        } else if os == "linux"@ {
            assert("unknown-linux-gnu"@ =~= seq!['u', 'n', 'k', 'n', 'o', 'w', 'n', '-', 'l', 'i',
                'n', 'u', 'x', '-', 'g', 'n', 'u']);
        }
    }
    let a = "aiken-"@ + target_arch(arch);
    lemma_concat_lacks("aiken-"@, target_arch(arch), '.');
    let b = a + "-"@;
    lemma_concat_lacks(a, "-"@, '.');
    let front = b + target_os(os);
    lemma_concat_lacks(b, target_os(os), '.');
    lemma_without_pattern_prefix(front, suffix, suffix);
    lemma_without_pattern_itself(suffix);
    assert(front + Seq::<char>::empty() =~= front);
}

} // verus!

verus! {

/// How a release asset is named, whatever the tag, operating system and
/// architecture: past the cut-off `aiken-<arch>-<os>.tar.gz` with target-triple
/// names (`x86` is `x86_64`; `macos`, `windows`, `linux` are `apple-darwin`,
/// `pc-windows-msvc`, `unknown-linux-gnu`), up to it
/// `aiken_<tag>_<os>_<arch>.tar.gz` with legacy names (`macos` is `darwin`,
/// `windows` is `win32`, whatever the architecture; `x86` and `x86_64` are
/// `amd64`, `aarch64` is `arm64`); every other name is kept as it is.
pub proof fn lemma_asset_name_spelled_out(tag: Seq<char>, os: Seq<char>, arch: Seq<char>)
    ensures
        release_asset_name(tag, true, os, arch) == "aiken-"@ + (if arch == "x86"@ {
            "x86_64"@
        } else {
            arch
        }) + "-"@ + (if os == "macos"@ {
            "apple-darwin"@
        } else if os == "windows"@ {
            "pc-windows-msvc"@
        } else if os == "linux"@ {
            "unknown-linux-gnu"@
        } else {
            os
        }) + ".tar.gz"@,
        release_asset_name(tag, false, os, arch) == "aiken_"@ + tag + "_"@ + (if os == "macos"@ {
            "darwin"@
        } else if os == "windows"@ {
            "win32"@
        } else {
            os
        }) + "_"@ + (if arch == "x86"@ || arch == "x86_64"@ {
            "amd64"@
        } else if arch == "aarch64"@ {
            "arm64"@
        } else {
            arch
        }) + ".tar.gz"@,
{
}

/// The release is past the cut-off exactly when its tag, with every `v`
/// taken out, and `1.0.26-alpha` both parse and the first is greater in
/// `semver`'s order.
pub proof fn lemma_cut_off_is_semver_order(tag: Seq<char>)
    ensures
        tag_past_cut_off(tag) == match (
            semver_parse(tag.filter(|c: char| c != 'v')),
            semver_parse("1.0.26-alpha"@),
        ) {
            (Some(v), Some(c)) => Some(semver_greater(v, c)),
            _ => None,
        },
{
    lemma_without_v_is_filter(tag);
}

/// A plan names exactly the asset that `asset_name` names for the tag,
/// operating system and architecture: a plan holds that name and the index
/// of its first occurrence among the release's assets, and the only error is
/// that no asset has that name.
pub proof fn lemma_plan_wants_named_asset(
    res: Result<InstallPlan, InstallError>,
    tag: Seq<char>,
    past_cut_off: bool,
    names: Seq<Seq<char>>,
    os: Seq<char>,
    arch: Seq<char>,
)
    requires
        is_release_plan(res, tag, past_cut_off, names, os, arch),
    ensures
        match res {
            Ok(plan) => {
                &&& plan.is_past_cut_off == past_cut_off
                &&& plan.asset_name@ == release_asset_name(tag, past_cut_off, os, arch)
                &&& 0 <= plan.asset_index < names.len()
                &&& names[plan.asset_index as int] == plan.asset_name@
                &&& forall|j: int| 0 <= j < plan.asset_index ==> names[j] != plan.asset_name@
                &&& (plan.binary_dir is Some <==> past_cut_off)
            },
            Err(InstallError::NoAsset(name)) => {
                &&& name@ == release_asset_name(tag, past_cut_off, os, arch)
                &&& forall|j: int| 0 <= j < names.len() ==> names[j] != name@
            },
            Err(InstallError::InvalidVersion(_)) => false,
        },
{
}

} // verus!

verus! {

/// The text of a tag's version is the tag with every `v` taken out.
pub proof fn lemma_without_v_is_filter(s: Seq<char>)
    ensures
        tag_version_text(s) == s.filter(|c: char| c != 'v'),
    decreases s.len(),
{
    reveal_with_fuel(Seq::<_>::filter, 1);
    if s.len() > 0 {
        lemma_without_v_is_filter(s.drop_last());
    }
}

} // verus!
