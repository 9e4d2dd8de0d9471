use xero_toolkit::drivers::{
    asus_rog_commands, build_gpu_driver_commands, driver_selection_conflict, tailscale_commands,
};
use xero_toolkit::types::CommandType;

fn sel(ids: &[&str]) -> Vec<String> {
    ids.iter().map(|s| s.to_string()).collect()
}

#[test]
fn closed_driver_with_cuda_builds_three_steps() {
    let plan = build_gpu_driver_commands(&sel(&["nvidia_closed", "cuda"]));
    assert_eq!(plan.len(), 3);
    assert_eq!(plan[0].command_type, CommandType::Aur);
    assert!(plan[0].args.contains(&"nvidia-dkms".to_string()));
    assert_eq!(plan[0].args.len(), 15);
    assert_eq!(plan[1].friendly_name, "Installing CUDA Toolkit...");
    assert_eq!(plan[1].args, sel(&["-S", "--needed", "--noconfirm", "cuda", "cudnn"]));
    assert_eq!(plan[2].command_type, CommandType::Privileged);
    assert_eq!(plan[2].command, "bash");
    assert_eq!(plan[2].args, sel(&["/opt/xero-toolkit/scripts/nv-setup.sh"]));
}

#[test]
fn open_driver_alone_builds_driver_and_setup() {
    let plan = build_gpu_driver_commands(&sel(&["nvidia_open"]));
    assert_eq!(plan.len(), 2);
    assert!(plan[0].args.contains(&"nvidia-open-dkms".to_string()));
    assert_eq!(plan[0].friendly_name, "Installing NVIDIA open source drivers...");
    assert_eq!(plan[1].friendly_name, "Configuring NVIDIA drivers...");
}

#[test]
fn cuda_alone_needs_no_driver_setup() {
    let plan = build_gpu_driver_commands(&sel(&["cuda"]));
    assert_eq!(plan.len(), 1);
    assert!(build_gpu_driver_commands(&sel(&[])).is_empty());
    assert!(build_gpu_driver_commands(&sel(&["other"])).is_empty());
}

#[test]
fn both_drivers_conflict() {
    assert!(driver_selection_conflict(&sel(&["cuda", "nvidia_open", "nvidia_closed"])));
    assert!(!driver_selection_conflict(&sel(&["nvidia_open", "cuda"])));
    assert!(!driver_selection_conflict(&sel(&[])));
}

#[test]
fn fixed_plans() {
    let t = tailscale_commands();
    assert_eq!(t.len(), 1);
    assert_eq!(t[0].command_type, CommandType::Privileged);
    assert_eq!(t[0].args[0], "-c");
    let a = asus_rog_commands();
    assert_eq!(a.len(), 2);
    assert_eq!(a[1].command, "systemctl");
    assert_eq!(a[1].args, sel(&["enable", "--now", "asusd", "supergfxd"]));
}
