//! The command lists of the drivers page, built from the user's selection.
use crate::types::{strings_view, strs_view, CommandStep, CommandType};
use vstd::prelude::*;
use vstd::string::*;

verus! {

/// What a step is made of, as mathematical values.
pub open spec fn step_parts(s: CommandStep) -> (CommandType, Seq<char>, Seq<Seq<char>>, Seq<char>) {
    (s.command_type, s.command@, strings_view(s.args@), s.friendly_name@)
}

/// The parts of a list of steps.
pub open spec fn plan_parts(v: Seq<CommandStep>) -> Seq<
    (CommandType, Seq<char>, Seq<Seq<char>>, Seq<char>),
> {
    v.map_values(|s: CommandStep| step_parts(s))
}

/// Whether the selection holds the option `id`.
pub open spec fn selects(selected: Seq<String>, id: Seq<char>) -> bool {
    exists|i: int| 0 <= i < selected.len() && (#[trigger] selected[i])@ == id
}

/// Whether the selection holds `id`.
pub fn contains_option(selected: &Vec<String>, id: &str) -> (r: bool)
    ensures
        r == selects(selected@, id@),
{
    let wanted = String::from_str(id);
    let mut i: usize = 0;
    while i < selected.len()
        invariant
            i <= selected@.len(),
            wanted@ == id@,
            forall|j: int| 0 <= j < i ==> (#[trigger] selected@[j])@ != id@,
        decreases selected@.len() - i,
    {
        if selected[i] == wanted {
            return true;
        }
        i = i + 1;
    }
    false
}

/// The option of the proprietary NVIDIA driver.
pub const NVIDIA_CLOSED: &'static str = "nvidia_closed";

/// The option of the open NVIDIA driver.
pub const NVIDIA_OPEN: &'static str = "nvidia_open";

/// The option of the CUDA toolkit.
pub const CUDA: &'static str = "cuda";

/// Whether the selection asks for both NVIDIA drivers, which cannot be
/// installed together.
pub fn driver_selection_conflict(selected: &Vec<String>) -> (r: bool)
    ensures
        r == (selects(selected@, NVIDIA_CLOSED@) && selects(selected@, NVIDIA_OPEN@)),
{
    contains_option(selected, NVIDIA_CLOSED) && contains_option(selected, NVIDIA_OPEN)
}

/// The packages of the proprietary NVIDIA driver, with the helper's flags.
pub open spec fn closed_driver_args() -> Seq<Seq<char>> {
    seq![
        "-S"@, "--needed"@, "--noconfirm"@, "libvdpau"@, "egl-wayland"@, "nvidia-dkms"@,
        "nvidia-utils"@, "opencl-nvidia"@, "libvdpau-va-gl"@, "nvidia-settings"@,
        "vulkan-icd-loader"@, "lib32-nvidia-utils"@, "lib32-opencl-nvidia"@,
        "linux-firmware-nvidia"@, "lib32-vulkan-icd-loader"@,
    ]
}

/// The packages of the open NVIDIA driver, with the helper's flags.
pub open spec fn open_driver_args() -> Seq<Seq<char>> {
    seq![
        "-S"@, "--needed"@, "--noconfirm"@, "libvdpau"@, "egl-wayland"@, "nvidia-utils"@,
        "opencl-nvidia"@, "libvdpau-va-gl"@, "nvidia-settings"@, "nvidia-open-dkms"@,
        "vulkan-icd-loader"@, "lib32-nvidia-utils"@, "lib32-opencl-nvidia"@,
        "linux-firmware-nvidia"@, "lib32-vulkan-icd-loader"@,
    ]
}

/// The steps for a selection: each chosen driver, CUDA if chosen, and the
/// post-install configuration when a driver was chosen.
pub open spec fn gpu_driver_plan(closed: bool, open: bool, cuda: bool) -> Seq<
    (CommandType, Seq<char>, Seq<Seq<char>>, Seq<char>),
> {
    (if closed {
        seq![
            (
                CommandType::Aur,
                "aur"@,
                closed_driver_args(),
                "Installing NVIDIA proprietary drivers..."@,
            ),
        ]
    } else {
        seq![]
    }) + (if open {
        seq![
            (
                CommandType::Aur,
                "aur"@,
                open_driver_args(),
                "Installing NVIDIA open source drivers..."@,
            ),
        ]
    } else {
        seq![]
    }) + (if cuda {
        seq![
            (
                CommandType::Aur,
                "aur"@,
                seq!["-S"@, "--needed"@, "--noconfirm"@, "cuda"@, "cudnn"@],
                "Installing CUDA Toolkit..."@,
            ),
        ]
    } else {
        seq![]
    }) + (if closed || open {
        seq![
            (
                CommandType::Privileged,
                "bash"@,
                seq!["/opt/xero-toolkit/scripts/nv-setup.sh"@],
                "Configuring NVIDIA drivers..."@,
            ),
        ]
    } else {
        seq![]
    })
}

fn push_step(plan: &mut Vec<CommandStep>, step: CommandStep)
    ensures
        plan_parts(final(plan)@) == plan_parts(old(plan)@).push(step_parts(step)),
{
    plan.push(step);
    assert(plan_parts(plan@) =~= plan_parts(old(plan)@).push(step_parts(step)));
}

/// Builds the steps that install the selected GPU drivers and tools.
pub fn build_gpu_driver_commands(selected: &Vec<String>) -> (r: Vec<CommandStep>)
    ensures
        plan_parts(r@) == gpu_driver_plan(
            selects(selected@, NVIDIA_CLOSED@),
            selects(selected@, NVIDIA_OPEN@),
            selects(selected@, CUDA@),
        ),
{
    let closed = contains_option(selected, NVIDIA_CLOSED);
    let open = contains_option(selected, NVIDIA_OPEN);
    let cuda = contains_option(selected, CUDA);
    let mut plan: Vec<CommandStep> = Vec::new();
    if closed {
        let args: [&str; 15] = [
            "-S", "--needed", "--noconfirm", "libvdpau", "egl-wayland", "nvidia-dkms",
            "nvidia-utils", "opencl-nvidia", "libvdpau-va-gl", "nvidia-settings",
            "vulkan-icd-loader", "lib32-nvidia-utils", "lib32-opencl-nvidia",
            "linux-firmware-nvidia", "lib32-vulkan-icd-loader",
        ];
        let step = CommandStep::aur(&args, "Installing NVIDIA proprietary drivers...");
        assert(strs_view(args@) =~= closed_driver_args());
        push_step(&mut plan, step);
    }
    if open {
        let args: [&str; 15] = [
            "-S", "--needed", "--noconfirm", "libvdpau", "egl-wayland", "nvidia-utils",
            "opencl-nvidia", "libvdpau-va-gl", "nvidia-settings", "nvidia-open-dkms",
            "vulkan-icd-loader", "lib32-nvidia-utils", "lib32-opencl-nvidia",
            "linux-firmware-nvidia", "lib32-vulkan-icd-loader",
        ];
        let step = CommandStep::aur(&args, "Installing NVIDIA open source drivers...");
        assert(strs_view(args@) =~= open_driver_args());
        push_step(&mut plan, step);
    }
    if cuda {
        let args: [&str; 5] = ["-S", "--needed", "--noconfirm", "cuda", "cudnn"];
        let step = CommandStep::aur(&args, "Installing CUDA Toolkit...");
        assert(strs_view(args@) =~= seq!["-S"@, "--needed"@, "--noconfirm"@, "cuda"@, "cudnn"@]);
        push_step(&mut plan, step);
    }
    if closed || open {
        let args: [&str; 1] = ["/opt/xero-toolkit/scripts/nv-setup.sh"];
        let step = CommandStep::privileged("bash", &args, "Configuring NVIDIA drivers...");
        assert(strs_view(args@) =~= seq!["/opt/xero-toolkit/scripts/nv-setup.sh"@]);
        push_step(&mut plan, step);
    }
    assert(plan_parts(plan@) =~= gpu_driver_plan(closed, open, cuda));
    plan
}

/// The script that installs Tailscale.
pub const TAILSCALE_INSTALL: &'static str = "curl -fsSL https://raw.githubusercontent.com/xerolinux/xero-fixes/main/conf/install.sh | bash";

/// The single step that installs the Tailscale VPN.
pub fn tailscale_commands() -> (r: Vec<CommandStep>)
    ensures
        plan_parts(r@) == seq![
            (
                CommandType::Privileged,
                "bash"@,
                seq!["-c"@, TAILSCALE_INSTALL@],
                "Installing Tailscale VPN..."@,
            ),
        ],
{
    let mut plan: Vec<CommandStep> = Vec::new();
    let args: [&str; 2] = ["-c", TAILSCALE_INSTALL];
    let step = CommandStep::privileged("bash", &args, "Installing Tailscale VPN...");
    assert(strs_view(args@) =~= seq!["-c"@, TAILSCALE_INSTALL@]);
    push_step(&mut plan, step);
    assert(plan_parts(plan@) =~= seq![step_parts(step)]);
    plan
}

/// The steps that install the ASUS ROG tools and enable their services.
pub fn asus_rog_commands() -> (r: Vec<CommandStep>)
    ensures
        plan_parts(r@) == seq![
            (
                CommandType::Aur,
                "aur"@,
                seq![
                    "-S"@, "--noconfirm"@, "--needed"@, "rog-control-center"@, "asusctl"@,
                    "supergfxctl"@,
                ],
                "Installing ASUS ROG control tools..."@,
            ),
            (
                CommandType::Privileged,
                "systemctl"@,
                seq!["enable"@, "--now"@, "asusd"@, "supergfxd"@],
                "Enabling ASUS ROG services..."@,
            ),
        ],
{
    let mut plan: Vec<CommandStep> = Vec::new();
    let tools: [&str; 6] = [
        "-S", "--noconfirm", "--needed", "rog-control-center", "asusctl", "supergfxctl",
    ];
    let first = CommandStep::aur(&tools, "Installing ASUS ROG control tools...");
    assert(strs_view(tools@) =~= seq![
        "-S"@, "--noconfirm"@, "--needed"@, "rog-control-center"@, "asusctl"@, "supergfxctl"@,
    ]);
    push_step(&mut plan, first);
    let services: [&str; 4] = ["enable", "--now", "asusd", "supergfxd"];
    let second = CommandStep::privileged(
        "systemctl",
        &services,
        "Enabling ASUS ROG services...",
    );
    assert(strs_view(services@) =~= seq!["enable"@, "--now"@, "asusd"@, "supergfxd"@]);
    push_step(&mut plan, second);
    assert(plan_parts(plan@) =~= seq![step_parts(first), step_parts(second)]);
    plan
}

} // verus!
