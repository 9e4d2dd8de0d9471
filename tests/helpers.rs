use xero_toolkit::helpers::{
    are_flatpaks_installed, are_packages_installed, detect_aur_helper, directory_exists,
    file_exists,
};

#[test]
fn test_file_exists() {
    assert!(file_exists("/etc/os-release"));
    assert!(!file_exists("/nonexistent/file"));
}

#[test]
fn test_directory_exists() {
    assert!(directory_exists("/etc"));
    assert!(!directory_exists("/nonexistent/directory"));
}

#[test]
fn detect_prefers_paru_over_yay() {
    assert_eq!(detect_aur_helper(true, true), Some("paru"));
    assert_eq!(detect_aur_helper(true, false), Some("paru"));
    assert_eq!(detect_aur_helper(false, true), Some("yay"));
    assert_eq!(detect_aur_helper(false, false), None);
}

#[test]
fn packages_are_paired_with_answers_in_order() {
    let r = are_packages_installed(&["git", "paru", "nvidia-dkms"], &[true, false, true]);
    assert_eq!(
        r,
        vec![
            ("git".to_string(), true),
            ("paru".to_string(), false),
            ("nvidia-dkms".to_string(), true)
        ]
    );
    assert!(are_packages_installed(&[], &[]).is_empty());
}

#[test]
fn flatpaks_are_paired_with_answers_in_order() {
    let r = are_flatpaks_installed(&["org.gimp.GIMP", "com.valvesoftware.Steam"], &[false, true]);
    assert_eq!(
        r,
        vec![
            ("org.gimp.GIMP".to_string(), false),
            ("com.valvesoftware.Steam".to_string(), true)
        ]
    );
}
