//! Which steps an update has on which host.
//!
//! A plan is chosen from what the host says of itself: the name of its operating system
//! and, on Linux, the identifier of its distribution. Choosing is assembling data: no
//! command is launched before the plan stands.

use crate::command::{strings, texts, CommandSpec, CommandView};
use crate::step::{Step, StepView};
use crate::text::same_text;
use vstd::prelude::*;

verus! {

/// What a [`DetectionError`] stands for.
pub enum DetectionErrorView {
    Undetermined,
    Unsupported(Seq<char>),
}

/// Why no plan can be chosen.
#[derive(Debug, PartialEq, Eq)]
pub enum DetectionError {
    /// The host is a Linux without a distribution identifier.
    Undetermined,
    /// The distribution identifier is none that a plan exists for.
    Unsupported(String),
}

impl View for DetectionError {
    type V = DetectionErrorView;

    open spec fn view(&self) -> DetectionErrorView {
        match self {
            DetectionError::Undetermined => DetectionErrorView::Undetermined,
            DetectionError::Unsupported(name) => DetectionErrorView::Unsupported(name@),
        }
    }
}

impl DetectionErrorView {
    /// The error in words. An identifier that is not supported is named.
    pub open spec fn message(self) -> Seq<char> {
        match self {
            DetectionErrorView::Undetermined => "cannot tell which distribution this is"@,
            DetectionErrorView::Unsupported(name) => "no update plan for distribution: "@ + name,
        }
    }
}

impl DetectionError {
    /// The error in words.
    pub fn message(&self) -> (words: String)
        ensures
            words@ == self@.message(),
    {
        match self {
            DetectionError::Undetermined => "cannot tell which distribution this is".to_owned(),
            DetectionError::Unsupported(name) => {
                let mut words = "no update plan for distribution: ".to_owned();
                words.append(name.as_str());
                words
            },
        }
    }
}

/// The command line of `program` with `arguments`.
pub open spec fn command_of(program: &str, arguments: Seq<&str>) -> CommandView {
    CommandView { program: program@, arguments: texts(arguments) }
}

/// Package lists, upgrades and clean-up on a Debian family host.
pub open spec fn debian_steps() -> Seq<StepView> {
    seq![
        StepView::Plain(command_of("sudo", seq!["apt-get", "update"])),
        StepView::Plain(
            command_of(
                "sudo",
                seq!["apt-get", "upgrade", "-y", "--allow-downgrades", "--with-new-pkgs"],
            ),
        ),
        StepView::Plain(command_of("sudo", seq!["apt-get", "autoremove", "-y"])),
    ]
}

/// Upgrades for the packages of the distribution's own manager on an Arch family host.
pub open spec fn pacman_steps() -> Seq<StepView> {
    seq![
        StepView::Plain(
            command_of("sudo", seq!["pacman", "--noconfirm", "-S", "archlinux-keyring"]),
        ),
        StepView::Plain(command_of("sudo", seq!["pacman", "--noconfirm", "-Syu"])),
    ]
}

/// The packages that nothing needs any more are asked for, and removed if there are any.
pub open spec fn pacman_orphans() -> StepView {
    StepView::Chained {
        probe: command_of("pacman", seq!["-Qtdq"]),
        follow_up: command_of("sudo", seq!["pacman", "--noconfirm", "-Rns"]),
    }
}

/// Upgrades for the packages of the user repository's helper.
pub open spec fn helper_upgrade() -> StepView {
    StepView::Plain(command_of("yay", seq!["--noconfirm", "-Syu"]))
}

/// The helper's own question for packages that nothing needs, and their removal.
pub open spec fn helper_orphans() -> StepView {
    StepView::Chained {
        probe: command_of("yay", seq!["-Qtdq"]),
        follow_up: command_of("yay", seq!["--noconfirm", "-Rns"]),
    }
}

/// The steps on an Arch family host: all upgrades first, then the removals. The
/// helper's steps are there where `with_helper` says so.
pub open spec fn arch_steps(with_helper: bool) -> Seq<StepView> {
    if with_helper {
        pacman_steps() + seq![helper_upgrade(), pacman_orphans(), helper_orphans()]
    } else {
        pacman_steps() + seq![pacman_orphans()]
    }
}

/// The steps on macOS.
pub open spec fn macos_steps() -> Seq<StepView> {
    seq![
        StepView::Plain(command_of("brew", seq!["update"])),
        StepView::Plain(command_of("brew", seq!["upgrade"])),
        StepView::Plain(command_of("brew", seq!["cleanup"])),
    ]
}

/// The steps that close every plan: the toolchain, which may be absent, the editor's
/// plugins, and the packages that the listing names.
pub open spec fn closing_steps() -> Seq<StepView> {
    seq![
        StepView::BestEffort(command_of("rustup", seq!["update"])),
        StepView::Plain(
            command_of(
                "nvim",
                seq![
                    "--headless",
                    "-c",
                    "autocmd User PackerComplete quitall",
                    "-c",
                    "PackerUpdate",
                ],
            ),
        ),
        StepView::Packages { list: command_of("cargo", seq!["install", "--list"]) },
    ]
}

/// The steps that are the host's own. On Linux the distribution decides, and a Linux
/// without an identifier, or with an empty one, has no plan. A host that is neither
/// Linux nor macOS has no steps of its own.
pub open spec fn host_steps_of(
    os: Seq<char>,
    distribution: Option<Seq<char>>,
    with_helper: bool,
) -> Result<Seq<StepView>, DetectionErrorView> {
    if os == "linux"@ {
        match distribution {
            None => Err(DetectionErrorView::Undetermined),
            Some(name) => if name.len() == 0 {
                Err(DetectionErrorView::Undetermined)
            } else if name == "ubuntu"@ || name == "pop"@ {
                Ok(debian_steps())
            } else if name == "arch"@ || name == "endeavouros"@ {
                Ok(arch_steps(with_helper))
            } else {
                Err(DetectionErrorView::Unsupported(name))
            },
        }
    } else if os == "macos"@ {
        Ok(macos_steps())
    } else {
        Ok(Seq::empty())
    }
}

/// The whole plan: the host's own steps, then the closing steps.
pub open spec fn plan_of(
    os: Seq<char>,
    distribution: Option<Seq<char>>,
    with_helper: bool,
) -> Result<Seq<StepView>, DetectionErrorView> {
    match host_steps_of(os, distribution, with_helper) {
        Ok(steps) => Ok(steps + closing_steps()),
        Err(error) => Err(error),
    }
}

fn command(program: &str, arguments: &[&str]) -> (made: CommandSpec)
    requires
        program@.len() > 0,
    ensures
        made@ == command_of(program, arguments@),
{
    CommandSpec::fixed(program, strings(arguments))
}

fn debian() -> (steps: Vec<Step>)
    ensures
        steps.deep_view() == debian_steps(),
{
    proof {
        reveal_strlit("sudo");
    }
    let update = ["apt-get", "update"];
    let upgrade = ["apt-get", "upgrade", "-y", "--allow-downgrades", "--with-new-pkgs"];
    let autoremove = ["apt-get", "autoremove", "-y"];
    assert(update@ =~= seq!["apt-get", "update"]);
    assert(upgrade@ =~= seq![
        "apt-get",
        "upgrade",
        "-y",
        "--allow-downgrades",
        "--with-new-pkgs",
    ]);
    assert(autoremove@ =~= seq!["apt-get", "autoremove", "-y"]);
    let mut steps: Vec<Step> = Vec::new();
    steps.push(Step::Plain(command("sudo", &update)));
    steps.push(Step::Plain(command("sudo", &upgrade)));
    steps.push(Step::Plain(command("sudo", &autoremove)));
    assert(steps.deep_view() =~= debian_steps());
    steps
}

fn pacman_orphan_chain() -> (step: Step)
    ensures
        step@ == pacman_orphans(),
{
    proof {
        reveal_strlit("sudo");
        reveal_strlit("pacman");
    }
    let query = ["-Qtdq"];
    let remove = ["pacman", "--noconfirm", "-Rns"];
    assert(query@ =~= seq!["-Qtdq"]);
    assert(remove@ =~= seq!["pacman", "--noconfirm", "-Rns"]);
    Step::Chained { probe: command("pacman", &query), follow_up: command("sudo", &remove) }
}

fn helper_orphan_chain() -> (step: Step)
    ensures
        step@ == helper_orphans(),
{
    proof {
        reveal_strlit("yay");
    }
    let query = ["-Qtdq"];
    let remove = ["--noconfirm", "-Rns"];
    assert(query@ =~= seq!["-Qtdq"]);
    assert(remove@ =~= seq!["--noconfirm", "-Rns"]);
    Step::Chained { probe: command("yay", &query), follow_up: command("yay", &remove) }
}

fn arch(with_helper: bool) -> (steps: Vec<Step>)
    ensures
        steps.deep_view() == arch_steps(with_helper),
{
    proof {
        reveal_strlit("sudo");
        reveal_strlit("yay");
    }
    let keyring = ["pacman", "--noconfirm", "-S", "archlinux-keyring"];
    let upgrade = ["pacman", "--noconfirm", "-Syu"];
    let helper = ["--noconfirm", "-Syu"];
    assert(keyring@ =~= seq!["pacman", "--noconfirm", "-S", "archlinux-keyring"]);
    assert(upgrade@ =~= seq!["pacman", "--noconfirm", "-Syu"]);
    assert(helper@ =~= seq!["--noconfirm", "-Syu"]);
    let mut steps: Vec<Step> = Vec::new();
    steps.push(Step::Plain(command("sudo", &keyring)));
    steps.push(Step::Plain(command("sudo", &upgrade)));
    if with_helper {
        steps.push(Step::Plain(command("yay", &helper)));
    }
    steps.push(pacman_orphan_chain());
    if with_helper {
        steps.push(helper_orphan_chain());
    }
    assert(steps.deep_view() =~= arch_steps(with_helper));
    steps
}

fn macos() -> (steps: Vec<Step>)
    ensures
        steps.deep_view() == macos_steps(),
{
    proof {
        reveal_strlit("brew");
    }
    let update = ["update"];
    let upgrade = ["upgrade"];
    let cleanup = ["cleanup"];
    assert(update@ =~= seq!["update"]);
    assert(upgrade@ =~= seq!["upgrade"]);
    assert(cleanup@ =~= seq!["cleanup"]);
    let mut steps: Vec<Step> = Vec::new();
    steps.push(Step::Plain(command("brew", &update)));
    steps.push(Step::Plain(command("brew", &upgrade)));
    steps.push(Step::Plain(command("brew", &cleanup)));
    assert(steps.deep_view() =~= macos_steps());
    steps
}

fn closing() -> (steps: Vec<Step>)
    ensures
        steps.deep_view() == closing_steps(),
{
    proof {
        reveal_strlit("rustup");
        reveal_strlit("nvim");
        reveal_strlit("cargo");
    }
    let toolchain = ["update"];
    let plugins = ["--headless", "-c", "autocmd User PackerComplete quitall", "-c", "PackerUpdate"];
    let listing = ["install", "--list"];
    assert(toolchain@ =~= seq!["update"]);
    assert(plugins@ =~= seq![
        "--headless",
        "-c",
        "autocmd User PackerComplete quitall",
        "-c",
        "PackerUpdate",
    ]);
    assert(listing@ =~= seq!["install", "--list"]);
    let mut steps: Vec<Step> = Vec::new();
    steps.push(Step::BestEffort(command("rustup", &toolchain)));
    steps.push(Step::Plain(command("nvim", &plugins)));
    steps.push(Step::Packages { list: command("cargo", &listing) });
    assert(steps.deep_view() =~= closing_steps());
    steps
}

/// The steps that are the host's own.
pub fn host_steps(os: &str, distribution: Option<&str>, with_helper: bool) -> (chosen: Result<
    Vec<Step>,
    DetectionError,
>)
    ensures
        match chosen {
            Ok(steps) => Ok(steps.deep_view()),
            Err(error) => Err(error@),
        } == host_steps_of(
            os@,
            match distribution {
                Some(name) => Some(name@),
                None => None,
            },
            with_helper,
        ),
{
    if same_text(os, "linux") {
        match distribution {
            None => Err(DetectionError::Undetermined),
            Some(name) => {
                if name.is_empty() {
                    Err(DetectionError::Undetermined)
                } else if same_text(name, "ubuntu") || same_text(name, "pop") {
                    Ok(debian())
                } else if same_text(name, "arch") || same_text(name, "endeavouros") {
                    Ok(arch(with_helper))
                } else {
                    Err(DetectionError::Unsupported(name.to_owned()))
                }
            },
        }
    } else if same_text(os, "macos") {
        Ok(macos())
    } else {
        let steps: Vec<Step> = Vec::new();
        assert(steps.deep_view() =~= Seq::<StepView>::empty());
        Ok(steps)
    }
}

/// The whole plan for a host: its own steps, then the closing steps.
pub fn select_plan(os: &str, distribution: Option<&str>, with_helper: bool) -> (chosen: Result<
    Vec<Step>,
    DetectionError,
>)
    ensures
        match chosen {
            Ok(steps) => Ok(steps.deep_view()),
            Err(error) => Err(error@),
        } == plan_of(
            os@,
            match distribution {
                Some(name) => Some(name@),
                None => None,
            },
            with_helper,
        ),
{
    match host_steps(os, distribution, with_helper) {
        Ok(steps) => {
            let mut steps = steps;
            let ghost own = steps.deep_view();
            let mut last = closing();
            steps.append(&mut last);
            assert(steps.deep_view() =~= own + closing_steps());
            Ok(steps)
        },
        Err(error) => Err(error),
    }
}

} // verus!
