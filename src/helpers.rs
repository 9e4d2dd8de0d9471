//! Package and system queries: the decisions taken on their answers.
use vstd::prelude::*;

verus! {

/// The AUR helper picked from what is installed: paru first, then yay.
pub open spec fn detected_helper(paru_available: bool, yay_available: bool) -> Option<Seq<char>> {
    if paru_available {
        Some("paru"@)
    } else if yay_available {
        Some("yay"@)
    } else {
        None
    }
}

/// Picks the AUR helper to use, in priority order: paru, then yay.
/// The arguments say whether each is an executable on the search path.
pub fn detect_aur_helper(paru_available: bool, yay_available: bool) -> (r: Option<&'static str>)
    ensures
        match r {
            Some(h) => detected_helper(paru_available, yay_available) == Some(h@),
            None => detected_helper(paru_available, yay_available) is None,
        },
{
    if paru_available {
        Some("paru")
    } else if yay_available {
        Some("yay")
    } else {
        None
    }
}

/// Whether `r` pairs each name with its answer, in order.
pub open spec fn paired(r: Seq<(String, bool)>, names: Seq<&str>, answers: Seq<bool>) -> bool {
    &&& r.len() == names.len()
    &&& forall|i: int| 0 <= i < r.len() ==> (#[trigger] r[i]).0@ == names[i]@ && r[i].1 == answers[i]
}

fn pair_names(names: &[&str], answers: &[bool]) -> (r: Vec<(String, bool)>)
    requires
        names@.len() == answers@.len(),
    ensures
        paired(r@, names@, answers@),
{
    broadcast use vstd::string::to_string_from_display_ensures_for_str;

    let mut r: Vec<(String, bool)> = Vec::new();
    let mut i: usize = 0;
    while i < names.len()
        invariant
            i <= names@.len(),
            names@.len() == answers@.len(),
            r@.len() == i,
            forall|j: int| 0 <= j < i ==> (#[trigger] r@[j]).0@ == names@[j]@ && r@[j].1 == answers@[j],
        decreases names@.len() - i,
    {
        r.push((names[i].to_string(), answers[i]));
        i = i + 1;
    }
    r
}

/// Pairs each package name with whether it is installed.
/// `installed[i]` is the answer for `packages[i]`.
pub fn are_packages_installed(packages: &[&str], installed: &[bool]) -> (r: Vec<(String, bool)>)
    requires
        packages@.len() == installed@.len(),
    ensures
        paired(r@, packages@, installed@),
{
    pair_names(packages, installed)
}

/// Pairs each Flatpak name with whether it is installed.
/// `installed[i]` is the answer for `packages[i]`.
pub fn are_flatpaks_installed(packages: &[&str], installed: &[bool]) -> (r: Vec<(String, bool)>)
    requires
        packages@.len() == installed@.len(),
    ensures
        paired(r@, packages@, installed@),
{
    pair_names(packages, installed)
}

/// Whether something exists at the path. Relies on `std::path::Path::exists`;
/// the answer depends on the file system, so nothing is stated of it.
#[verifier::external_body]
pub fn file_exists(path: &str) -> bool {
    std::path::Path::new(path).exists()
}

/// Whether a directory exists at the path. Relies on `std::path::Path::is_dir`;
/// the answer depends on the file system, so nothing is stated of it.
#[verifier::external_body]
pub fn directory_exists(path: &str) -> bool {
    std::path::Path::new(path).is_dir()
}

} // verus!
