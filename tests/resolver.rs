use xero_toolkit::resolver::{resolve_command, ResolveError};
use xero_toolkit::types::CommandStep;

fn strings(v: &[&str]) -> Vec<String> {
    v.iter().map(|s| s.to_string()).collect()
}

#[test]
fn normal_step_runs_as_given() {
    let step = CommandStep::normal("echo", &["hi"], "Say hi");
    let (p, a) = resolve_command(&step, None, None).unwrap();
    assert_eq!(p, "echo");
    assert_eq!(a, strings(&["hi"]));
}

#[test]
fn privileged_step_runs_through_pkexec() {
    let step = CommandStep::privileged("systemctl", &["restart", "foo"], "Restart");
    let (p, a) = resolve_command(&step, Some("paru"), None).unwrap();
    assert_eq!(p, "pkexec");
    assert_eq!(a, strings(&["systemctl", "restart", "foo"]));
}

#[test]
fn aur_step_prefers_configured_helper() {
    let step = CommandStep::aur(&["-S", "cuda"], "CUDA");
    let (p, a) = resolve_command(&step, Some("yay"), Some("paru")).unwrap();
    assert_eq!(p, "yay");
    assert_eq!(a, strings(&["--sudo", "pkexec", "-S", "cuda"]));
}

#[test]
fn aur_step_falls_back_to_detected_helper() {
    let step = CommandStep::aur(&["-S", "cuda"], "CUDA");
    let (p, a) = resolve_command(&step, None, Some("paru")).unwrap();
    assert_eq!(p, "paru");
    assert_eq!(a, strings(&["--sudo", "pkexec", "-S", "cuda"]));
}

#[test]
fn aur_step_without_helper_is_refused() {
    let step = CommandStep::aur(&["-S", "cuda"], "CUDA");
    let r = resolve_command(&step, None, None);
    assert_eq!(r, Err(ResolveError::HelperNotFound));
    assert_eq!(
        ResolveError::HelperNotFound.message(),
        "AUR helper not initialized (paru or yay required)."
    );
}
