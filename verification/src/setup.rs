//! Setting up the program's own runtime, and checking that all is in place.

use vstd::prelude::*;

use crate::error::{app_error, AppError};
use crate::json::{
    count_tree, field, item_views, object_of, opt_view, pairs_read_back, str_view, text_field, Json,
    Pairs, Tree,
};
use crate::number::{pad_right, padded_right};
use crate::paths::{join_path, joined_path, paths_join_with_one_slash};
use crate::pattern::views;
use crate::text::{concat, concat3, same};

verus! {

/// The model that is set up.
pub const PINNED_PARAKEET_MODEL: &'static str =
    "nvidia/stt_en_fastconformer_hybrid_medium_streaming_80ms_pc";

/// The revision of the model that is set up.
pub const PINNED_PARAKEET_MODEL_REVISION: &'static str = "main";

/// Where the list of packages lies among the resources.
pub const PARAKEET_REQUIREMENTS_REL: &'static str = "scripts/parakeet-requirements.txt";

// ---------------------------------------------------------------------------------------------
// Setting up
// ---------------------------------------------------------------------------------------------

/// The directory of the program's own runtime: the one that is set, else one in the home
/// directory, else one in the root.
pub open spec fn runtime_of(
    set: Option<Seq<char>>,
    home: Option<Seq<char>>,
    root: Seq<char>,
) -> Seq<char> {
    match set {
        Some(d) => d,
        None => match home {
            Some(h) => joined_path(
                joined_path(
                    joined_path(
                        joined_path(joined_path(h, "Library"@), "Application Support"@),
                        "riff"@,
                    ),
                    "runtime"@,
                ),
                "python"@,
            ),
            None => joined_path(joined_path(root, "runtime"@), "python"@),
        },
    }
}

/// The directory of the program's own runtime.
pub fn default_user_runtime_dir(set: Option<&str>, home: Option<&str>, root: &str) -> (r: String)
    ensures
        r@ == runtime_of(str_view(set), str_view(home), root@),
{
    if let Some(d) = set {
        return d.to_owned();
    }
    match home {
        Some(h) => {
            let library = join_path(h, "Library");
            let support = join_path(library.as_str(), "Application Support");
            let own = join_path(support.as_str(), "riff");
            let runtime = join_path(own.as_str(), "runtime");
            join_path(runtime.as_str(), "python")
        },
        None => join_path(join_path(root, "runtime").as_str(), "python"),
    }
}

/// The interpreter of a runtime.
pub fn runtime_python(runtime_dir: &str) -> (r: String)
    ensures
        r@ == joined_path(joined_path(runtime_dir@, "bin"@), "python"@),
{
    join_path(join_path(runtime_dir, "bin").as_str(), "python")
}

/// The list of packages, where it is there. `resources` is the directory of the resources, with
/// whether it holds the list.
pub fn requirements_path(resources: Option<(&str, bool)>) -> (r: Option<String>)
    ensures
        opt_view(r) == match resources {
            Some((dir, true)) => Some(joined_path(dir@, PARAKEET_REQUIREMENTS_REL@)),
            _ => None,
        },
{
    match resources {
        Some((dir, there)) => if there {
            Some(join_path(dir, PARAKEET_REQUIREMENTS_REL))
        } else {
            None
        },
        None => None,
    }
}

/// The interpreter that the runtime is made with.
pub fn setup_python(explicit: &Option<String>, has_python312: bool) -> (r: String)
    ensures
        r@ == match *explicit {
            Some(p) => p@,
            None => if has_python312 {
                "python3.12"@
            } else {
                "python3"@
            },
        },
{
    match explicit {
        Some(p) => p.clone(),
        None => if has_python312 {
            "python3.12".to_owned()
        } else {
            "python3".to_owned()
        },
    }
}

/// A step of setting up.
#[derive(PartialEq, Eq, Structural, Clone, Copy, Debug)]
pub enum SetupStep {
    /// The interpreter is looked at.
    CheckPython,
    /// The runtime is made.
    CreateRuntime,
    /// The installer of packages is brought up to date.
    UpgradeInstaller,
    /// The packages are installed.
    InstallPackages,
    /// The model is fetched.
    FetchModel,
}

/// The name of a step of setting up.
pub open spec fn step_name(step: SetupStep) -> Seq<char> {
    match step {
        SetupStep::CheckPython => "check_python"@,
        SetupStep::CreateRuntime => "create_runtime"@,
        SetupStep::UpgradeInstaller => "upgrade_pip"@,
        SetupStep::InstallPackages => "install_packages"@,
        SetupStep::FetchModel => "download_model"@,
    }
}

impl SetupStep {
    /// The name of this step.
    pub fn name(self) -> (r: &'static str)
        ensures
            r@ == step_name(self),
    {
        match self {
            SetupStep::CheckPython => "check_python",
            SetupStep::CreateRuntime => "create_runtime",
            SetupStep::UpgradeInstaller => "upgrade_pip",
            SetupStep::InstallPackages => "install_packages",
            SetupStep::FetchModel => "download_model",
        }
    }
}

/// How a step of setting up ended.
pub enum StepEnd {
    Done,
    Failed,
    NotRun(String),
}

/// What is wrong where a step of setting up failed.
pub open spec fn setup_failure(step: SetupStep, end: StepEnd, python: Seq<char>) -> Option<
    Seq<char>,
> {
    match end {
        StepEnd::Done => None,
        StepEnd::NotRun(e) => Some(
            match step {
                SetupStep::CheckPython => python
                    + " is not Python 3.12. Install python@3.12 or pass --python."@,
                SetupStep::CreateRuntime => "Failed to run "@ + python + ": "@ + e@,
                SetupStep::UpgradeInstaller => "Failed to run pip: "@ + e@,
                SetupStep::InstallPackages => "Failed to install packages: "@ + e@,
                SetupStep::FetchModel => "Failed to pre-download model: "@ + e@,
            },
        ),
        StepEnd::Failed => Some(
            match step {
                SetupStep::CheckPython => python
                    + " is not Python 3.12. Install python@3.12 or pass --python."@,
                SetupStep::CreateRuntime => "Failed to create private Python runtime."@,
                SetupStep::UpgradeInstaller => "Failed to upgrade pip in private runtime."@,
                SetupStep::InstallPackages => "Failed to install pinned transcription packages."@,
                SetupStep::FetchModel => "Model pre-download failed."@,
            },
        ),
    }
}

/// What comes of a step of setting up.
pub fn setup_step_result(step: SetupStep, end: &StepEnd, python: &str) -> (r: Result<(), AppError>)
    ensures
        match setup_failure(step, *end, python@) {
            Some(m) => r matches Err(e) && e.code == 1 && e.message@ == m,
            None => r is Ok,
        },
{
    let message: String = match end {
        StepEnd::Done => {
            return Ok(());
        },
        StepEnd::NotRun(e) => match step {
            SetupStep::CheckPython => concat(
                python,
                " is not Python 3.12. Install python@3.12 or pass --python.",
            ),
            SetupStep::CreateRuntime => {
                let head = concat3("Failed to run ", python, ": ");
                concat(head.as_str(), e.as_str())
            },
            SetupStep::UpgradeInstaller => concat("Failed to run pip: ", e.as_str()),
            SetupStep::InstallPackages => concat("Failed to install packages: ", e.as_str()),
            SetupStep::FetchModel => concat("Failed to pre-download model: ", e.as_str()),
        },
        StepEnd::Failed => match step {
            SetupStep::CheckPython => concat(
                python,
                " is not Python 3.12. Install python@3.12 or pass --python.",
            ),
            SetupStep::CreateRuntime => "Failed to create private Python runtime.".to_owned(),
            SetupStep::UpgradeInstaller => "Failed to upgrade pip in private runtime.".to_owned(),
            SetupStep::InstallPackages => {
                "Failed to install pinned transcription packages.".to_owned()
            },
            SetupStep::FetchModel => "Model pre-download failed.".to_owned(),
        },
    };
    Err(app_error(1, message.as_str()))
}

/// The steps of setting up, in their order. The runtime is made only where it is not there, and a
/// dry run looks at the interpreter and does no more.
pub open spec fn steps_of(
    runtime_there: bool,
    skip_packages: bool,
    skip_model: bool,
    dry_run: bool,
) -> Seq<SetupStep> {
    seq![SetupStep::CheckPython] + (if runtime_there || dry_run {
        Seq::empty()
    } else {
        seq![SetupStep::CreateRuntime]
    }) + (if skip_packages || dry_run {
        Seq::empty()
    } else {
        seq![SetupStep::UpgradeInstaller, SetupStep::InstallPackages]
    }) + (if skip_model || dry_run {
        Seq::empty()
    } else {
        seq![SetupStep::FetchModel]
    })
}

/// The steps of setting up, in their order.
pub fn setup_steps(
    runtime_there: bool,
    skip_packages: bool,
    skip_model: bool,
    dry_run: bool,
) -> (r: Vec<SetupStep>)
    ensures
        r@ == steps_of(runtime_there, skip_packages, skip_model, dry_run),
{
    let mut out: Vec<SetupStep> = Vec::new();
    out.push(SetupStep::CheckPython);
    if !runtime_there && !dry_run {
        out.push(SetupStep::CreateRuntime);
    }
    if !skip_packages && !dry_run {
        out.push(SetupStep::UpgradeInstaller);
        out.push(SetupStep::InstallPackages);
    }
    if !skip_model && !dry_run {
        out.push(SetupStep::FetchModel);
    }
    assert(out@ =~= steps_of(runtime_there, skip_packages, skip_model, dry_run));
    out
}

/// The interpreter is looked at before anything is made, and a dry run makes nothing.
pub proof fn setups_look_first(
    runtime_there: bool,
    skip_packages: bool,
    skip_model: bool,
    dry_run: bool,
)
    ensures
        steps_of(runtime_there, skip_packages, skip_model, dry_run)[0] == SetupStep::CheckPython,
        dry_run ==> steps_of(runtime_there, skip_packages, skip_model, dry_run)
            == seq![SetupStep::CheckPython],
{
}

/// The error where the list of packages is not there.
pub fn no_requirements_error() -> (r: AppError)
    ensures
        r.code == 1,
        r.message@ == "Could not find scripts/parakeet-requirements.txt in riff resources."@,
{
    app_error(1, "Could not find scripts/parakeet-requirements.txt in riff resources.")
}

/// The error where the transcriber is not there.
pub fn no_helper_script_error() -> (r: AppError)
    ensures
        r.code == 1,
        r.message@ == "Could not find Parakeet helper script."@,
{
    app_error(1, "Could not find Parakeet helper script.")
}

/// Fails where what a step of setting up needs is not there: the list of packages, looked for before
/// the installer is touched, or the transcriber.
pub fn step_ready(step: SetupStep, has_list: bool, has_script: bool) -> (r: Result<(), AppError>)
    ensures
        match r {
            Ok(_) => match step {
                SetupStep::UpgradeInstaller | SetupStep::InstallPackages => has_list,
                SetupStep::FetchModel => has_script,
                _ => true,
            },
            Err(e) => e.code == 1 && match step {
                SetupStep::UpgradeInstaller | SetupStep::InstallPackages => !has_list && e.message@
                    == "Could not find scripts/parakeet-requirements.txt in riff resources."@,
                SetupStep::FetchModel => !has_script && e.message@
                    == "Could not find Parakeet helper script."@,
                _ => false,
            },
        },
{
    match step {
        SetupStep::UpgradeInstaller | SetupStep::InstallPackages => if has_list {
            Ok(())
        } else {
            Err(no_requirements_error())
        },
        SetupStep::FetchModel => if has_script {
            Ok(())
        } else {
            Err(no_helper_script_error())
        },
        _ => Ok(()),
    }
}

/// What an interpreter is asked that tells whether it is of the version that is wanted.
pub const VERSION_CHECK: &'static str =
    "import sys; raise SystemExit(0 if sys.version_info[:2] == (3, 12) else 1)";

/// What an interpreter is asked that tells whether it has what transcribing takes.
pub const PACKAGE_CHECK: &'static str =
    "import torch, soundfile; import nemo.collections.asr.models";

/// The arguments with which a step of setting up is run.
pub open spec fn args_of_step(
    step: SetupStep,
    runtime_dir: Seq<char>,
    list: Seq<char>,
    script: Seq<char>,
) -> Seq<Seq<char>> {
    match step {
        SetupStep::CheckPython => seq!["-c"@, VERSION_CHECK@],
        SetupStep::CreateRuntime => seq!["-m"@, "venv"@, runtime_dir],
        SetupStep::UpgradeInstaller => seq!["-m"@, "pip"@, "install"@, "--upgrade"@, "pip"@],
        SetupStep::InstallPackages => seq!["-m"@, "pip"@, "install"@, "-r"@, list],
        SetupStep::FetchModel => seq![
            script,
            "--download-model"@,
            "--model"@,
            PINNED_PARAKEET_MODEL@,
        ],
    }
}

/// The arguments with which a step of setting up is run, where the packages are listed in `list`
/// and `script` is the transcriber.
pub fn setup_step_args(step: SetupStep, runtime_dir: &str, list: &str, script: &str) -> (r: Vec<
    String,
>)
    ensures
        views(r@) == args_of_step(step, runtime_dir@, list@, script@),
{
    let r: Vec<String> = match step {
        SetupStep::CheckPython => vec!["-c".to_owned(), VERSION_CHECK.to_owned()],
        SetupStep::CreateRuntime => vec![
            "-m".to_owned(),
            "venv".to_owned(),
            runtime_dir.to_owned(),
        ],
        SetupStep::UpgradeInstaller => vec![
            "-m".to_owned(),
            "pip".to_owned(),
            "install".to_owned(),
            "--upgrade".to_owned(),
            "pip".to_owned(),
        ],
        SetupStep::InstallPackages => vec![
            "-m".to_owned(),
            "pip".to_owned(),
            "install".to_owned(),
            "-r".to_owned(),
            list.to_owned(),
        ],
        SetupStep::FetchModel => vec![
            script.to_owned(),
            "--download-model".to_owned(),
            "--model".to_owned(),
            PINNED_PARAKEET_MODEL.to_owned(),
        ],
    };
    assert(views(r@) =~= args_of_step(step, runtime_dir@, list@, script@));
    r
}

/// The interpreter with which a step of setting up is run: the one that was chosen until there is
/// one of the program's own.
pub fn setup_step_python<'a>(step: SetupStep, python: &'a str, runtime_python: &'a str) -> (r:
    &'a str)
    ensures
        r@ == match step {
            SetupStep::CheckPython | SetupStep::CreateRuntime => python@,
            _ => runtime_python@,
        },
{
    match step {
        SetupStep::CheckPython | SetupStep::CreateRuntime => python,
        _ => runtime_python,
    }
}

/// What is said before a step of setting up, where something is.
pub fn setup_step_text(step: SetupStep, runtime_dir: &str, requirements: &str) -> (r: Option<String>)
    ensures
        opt_view(r) == match step {
            SetupStep::CheckPython => None,
            SetupStep::CreateRuntime => Some(
                "Creating private Python runtime: "@ + runtime_dir@,
            ),
            SetupStep::UpgradeInstaller => Some(
                "Installing pinned transcription packages from "@ + requirements@,
            ),
            SetupStep::InstallPackages => None,
            SetupStep::FetchModel => Some(
                "Downloading model "@ + PINNED_PARAKEET_MODEL@ + " (revision "@
                    + PINNED_PARAKEET_MODEL_REVISION@ + ") with visible upstream progress"@,
            ),
        },
{
    match step {
        SetupStep::CreateRuntime => Some(
            concat("Creating private Python runtime: ", runtime_dir),
        ),
        SetupStep::UpgradeInstaller => Some(
            concat("Installing pinned transcription packages from ", requirements),
        ),
        SetupStep::FetchModel => {
            let mut out = concat3("Downloading model ", PINNED_PARAKEET_MODEL, " (revision ");
            out.append(PINNED_PARAKEET_MODEL_REVISION);
            out.append(") with visible upstream progress");
            Some(out)
        },
        _ => None,
    }
}

/// What is said where all is set up, or would be.
pub fn setup_text(dry_run: bool, runtime_dir: &str, python: &str) -> (r: String)
    ensures
        r@ == if dry_run {
            "[dry-run] Would create runtime at "@ + runtime_dir@ + " with "@ + python@
        } else {
            "Setup complete.\nRIFF_RUNTIME_DIR="@ + runtime_dir@ + "\npython="@ + python@
        },
{
    if dry_run {
        let head = concat3("[dry-run] Would create runtime at ", runtime_dir, " with ");
        concat(head.as_str(), python)
    } else {
        let head = concat3("Setup complete.\nRIFF_RUNTIME_DIR=", runtime_dir, "\npython=");
        concat(head.as_str(), python)
    }
}

/// What is reported where all is set up.
pub fn setup_report(runtime_dir: &str, python: &str) -> (r: Json)
    ensures
        r@ == Tree::Object(
            object_of(
                seq![
                    ("ok"@, Tree::Bool(true)),
                    ("runtime_dir"@, Tree::Text(runtime_dir@)),
                    ("python"@, Tree::Text(python@)),
                    ("model"@, Tree::Text(PINNED_PARAKEET_MODEL@)),
                    ("model_revision"@, Tree::Text(PINNED_PARAKEET_MODEL_REVISION@)),
                ],
            ),
        ),
{
    let mut p = Pairs::new();
    p.flag("ok", true);
    p.text("runtime_dir", runtime_dir);
    p.text("python", python);
    p.text("model", PINNED_PARAKEET_MODEL);
    p.text("model_revision", PINNED_PARAKEET_MODEL_REVISION);
    assert(p@ == seq![
        ("ok"@, Tree::Bool(true)),
        ("runtime_dir"@, Tree::Text(runtime_dir@)),
        ("python"@, Tree::Text(python@)),
        ("model"@, Tree::Text(PINNED_PARAKEET_MODEL@)),
        ("model_revision"@, Tree::Text(PINNED_PARAKEET_MODEL_REVISION@)),
    ]);
    p.object()
}

// ---------------------------------------------------------------------------------------------
// Checking
// ---------------------------------------------------------------------------------------------

/// A check, and what came of it.
#[derive(Debug)]
pub struct Check {
    pub name: String,
    pub ok: bool,
    pub detail: String,
}

/// The model of a check.
#[verifier::ext_equal]
pub struct CheckView {
    pub name: Seq<char>,
    pub ok: bool,
    pub detail: Seq<char>,
}

impl View for Check {
    type V = CheckView;

    open spec fn view(&self) -> CheckView {
        CheckView { name: self.name@, ok: self.ok, detail: self.detail@ }
    }
}

/// The models of checks.
pub open spec fn check_views(v: Seq<Check>) -> Seq<CheckView> {
    v.map_values(|c: Check| c@)
}

/// What was found on the machine.
pub struct Findings {
    pub resource_dir: Option<String>,
    pub parakeet_script: Option<String>,
    pub web_server_script: Option<String>,
    pub sound_picker_script: Option<String>,
    pub requirements: Option<String>,
    pub has_ffmpeg: bool,
    pub has_screencapture: bool,
    pub has_osascript: bool,
    pub python: String,
    pub has_python: bool,
    /// Whether the packages can be loaded, where that was tried.
    pub packages_ok: Option<bool>,
    pub root: String,
    pub root_writable: bool,
    pub sessions: String,
    pub sessions_writable: bool,
    pub parakeet_url: String,
    pub parakeet_healthy: bool,
    pub web_url: String,
    pub web_healthy: bool,
    pub no_strays: bool,
    pub strays: String,
}

/// A check.
pub open spec fn check(name: Seq<char>, ok: bool, detail: Seq<char>) -> CheckView {
    CheckView { name, ok, detail }
}

/// The check for a file.
pub open spec fn path_check(name: Seq<char>, path: Option<Seq<char>>) -> CheckView {
    match path {
        Some(p) => check(name, true, p),
        None => check(name, false, "not found"@),
    }
}

/// The check for a tool.
pub open spec fn tool_check(name: Seq<char>, found: bool) -> CheckView {
    check(
        name,
        found,
        if found {
            "found"@
        } else {
            "missing"@
        },
    )
}

/// The checks for what comes with the program.
pub open spec fn resource_checks(f: Findings) -> Seq<CheckView> {
    seq![
        path_check("resource_dir"@, opt_view(f.resource_dir)),
        path_check("parakeet_script"@, opt_view(f.parakeet_script)),
        path_check("web_server_script"@, opt_view(f.web_server_script)),
        path_check("sound_picker_script"@, opt_view(f.sound_picker_script)),
        path_check("requirements"@, opt_view(f.requirements)),
    ]
}

/// The checks for what the program runs.
pub open spec fn tool_checks(f: Findings) -> Seq<CheckView> {
    seq![
        tool_check("ffmpeg"@, f.has_ffmpeg),
        tool_check("screencapture"@, f.has_screencapture),
        check(
            "osascript/accessibility"@,
            f.has_osascript,
            if f.has_osascript {
                "osascript found; grant Accessibility when macOS prompts"@
            } else {
                "osascript missing"@
            },
        ),
        check("python"@, f.has_python, f.python@),
    ] + (match f.packages_ok {
        Some(ok) => seq![
            check(
                "python_packages"@,
                ok,
                if ok {
                    "torch, soundfile, nemo import"@
                } else {
                    "missing import; run riff setup"@
                },
            ),
        ],
        None => Seq::empty(),
    })
}

/// The checks for what the program keeps and what runs for it.
pub open spec fn state_checks(f: Findings) -> Seq<CheckView> {
    seq![
        check("root_storage"@, f.root_writable, f.root@),
        check("sessions_storage"@, f.sessions_writable, f.sessions@),
        check("parakeet_server"@, f.parakeet_healthy, f.parakeet_url@),
        check("web_server"@, f.web_healthy, f.web_url@),
        check("stray_helpers"@, f.no_strays, f.strays@),
    ]
}

/// The checks, in their order.
pub open spec fn checks_of(f: Findings) -> Seq<CheckView> {
    resource_checks(f) + tool_checks(f) + state_checks(f)
}

fn push_check(rows: &mut Vec<Check>, name: &str, ok: bool, detail: &str)
    ensures
        check_views(final(rows)@) == check_views(old(rows)@).push(check(name@, ok, detail@)),
{
    let c = Check { name: name.to_owned(), ok, detail: detail.to_owned() };
    let ghost cv = c@;
    rows.push(c);
    assert(check_views(rows@) =~= check_views(old(rows)@).push(cv));
}

/// Adds the check for a file.
pub fn check_path(label: &str, path: &Option<String>, rows: &mut Vec<Check>)
    ensures
        check_views(final(rows)@) == check_views(old(rows)@).push(
            path_check(label@, opt_view(*path)),
        ),
{
    match path {
        Some(p) => push_check(rows, label, true, p.as_str()),
        None => push_check(rows, label, false, "not found"),
    }
}

fn check_tool(label: &str, found: bool, rows: &mut Vec<Check>)
    ensures
        check_views(final(rows)@) == check_views(old(rows)@).push(tool_check(label@, found)),
{
    push_check(
        rows,
        label,
        found,
        if found {
            "found"
        } else {
            "missing"
        },
    );
}

fn add_resource_checks(rows: &mut Vec<Check>, f: &Findings)
    ensures
        check_views(final(rows)@) == check_views(old(rows)@) + resource_checks(*f),
{
    check_path("resource_dir", &f.resource_dir, rows);
    check_path("parakeet_script", &f.parakeet_script, rows);
    check_path("web_server_script", &f.web_server_script, rows);
    check_path("sound_picker_script", &f.sound_picker_script, rows);
    check_path("requirements", &f.requirements, rows);
    assert(check_views(rows@) =~= check_views(old(rows)@) + resource_checks(*f));
}

fn add_tool_checks(rows: &mut Vec<Check>, f: &Findings)
    ensures
        check_views(final(rows)@) == check_views(old(rows)@) + tool_checks(*f),
{
    check_tool("ffmpeg", f.has_ffmpeg, rows);
    check_tool("screencapture", f.has_screencapture, rows);
    push_check(
        rows,
        "osascript/accessibility",
        f.has_osascript,
        if f.has_osascript {
            "osascript found; grant Accessibility when macOS prompts"
        } else {
            "osascript missing"
        },
    );
    push_check(rows, "python", f.has_python, f.python.as_str());
    if let Some(ok) = f.packages_ok {
        push_check(
            rows,
            "python_packages",
            ok,
            if ok {
                "torch, soundfile, nemo import"
            } else {
                "missing import; run riff setup"
            },
        );
    }
    assert(check_views(rows@) =~= check_views(old(rows)@) + tool_checks(*f));
}

fn add_state_checks(rows: &mut Vec<Check>, f: &Findings)
    ensures
        check_views(final(rows)@) == check_views(old(rows)@) + state_checks(*f),
{
    push_check(rows, "root_storage", f.root_writable, f.root.as_str());
    push_check(rows, "sessions_storage", f.sessions_writable, f.sessions.as_str());
    push_check(rows, "parakeet_server", f.parakeet_healthy, f.parakeet_url.as_str());
    push_check(rows, "web_server", f.web_healthy, f.web_url.as_str());
    push_check(rows, "stray_helpers", f.no_strays, f.strays.as_str());
    assert(check_views(rows@) =~= check_views(old(rows)@) + state_checks(*f));
}

/// The checks, in their order.
pub fn doctor_checks(f: &Findings) -> (r: Vec<Check>)
    ensures
        check_views(r@) == checks_of(*f),
{
    let mut rows: Vec<Check> = Vec::new();
    assert(check_views(rows@) =~= Seq::empty());
    add_resource_checks(&mut rows, f);
    add_tool_checks(&mut rows, f);
    add_state_checks(&mut rows, f);
    assert(check_views(rows@) =~= checks_of(*f));
    rows
}

/// Whether a check may fail: a server that does not run is started when it is needed.
pub open spec fn may_fail(name: Seq<char>) -> bool {
    name == "parakeet_server"@ || name == "web_server"@
}

/// Whether all is in place.
pub open spec fn all_in_place(rows: Seq<CheckView>) -> bool {
    forall|i: int| 0 <= i < rows.len() ==> (#[trigger] rows[i]).ok || may_fail(rows[i].name)
}

/// Whether all is in place.
pub fn doctor_ok(rows: &Vec<Check>) -> (r: bool)
    ensures
        r == all_in_place(check_views(rows@)),
{
    let ghost rv = check_views(rows@);
    let mut i: usize = 0;
    while i < rows.len()
        invariant
            i <= rows.len(),
            rv == check_views(rows@),
            forall|k: int| 0 <= k < i ==> (#[trigger] rv[k]).ok || may_fail(rv[k].name),
        decreases rows.len() - i,
    {
        let row = &rows[i];
        assert(rv[i as int] == row@);
        if !row.ok && !same(row.name.as_str(), "parakeet_server") && !same(
            row.name.as_str(),
            "web_server",
        ) {
            return false;
        }
        i = i + 1;
    }
    true
}

/// The exit code of the checks: one where something is missing.
pub fn doctor_exit_code(ok: bool) -> (r: i32)
    ensures
        r == if ok {
            0i32
        } else {
            1i32
        },
{
    if ok {
        0
    } else {
        1
    }
}

/// What is said of a check.
pub fn check_line(c: &Check) -> (r: String)
    ensures
        r@ == padded_right(c.name@, 24) + " "@ + padded_right(
            if c.ok {
                "ok"@
            } else {
                "fail"@
            },
            4,
        ) + " "@ + c.detail@,
{
    let state = pad_right(
        if c.ok {
            "ok"
        } else {
            "fail"
        },
        4,
    );
    let mut out = concat3(pad_right(c.name.as_str(), 24).as_str(), " ", state.as_str());
    out.append(" ");
    out.append(c.detail.as_str());
    out
}

/// What is reported of a check.
pub open spec fn check_tree(c: CheckView) -> Tree {
    Tree::Object(
        object_of(
            seq![
                ("name"@, Tree::Text(c.name)),
                ("ok"@, Tree::Bool(c.ok)),
                ("detail"@, Tree::Text(c.detail)),
            ],
        ),
    )
}

/// What is reported of the checks.
pub fn doctor_report(rows: &Vec<Check>) -> (r: Json)
    ensures
        r@ == Tree::Object(
            object_of(
                seq![
                    ("ok"@, Tree::Bool(all_in_place(check_views(rows@)))),
                    (
                        "checks"@,
                        Tree::List(
                            check_views(rows@).map_values(|c: CheckView| check_tree(c)),
                        ),
                    ),
                ],
            ),
        ),
{
    let ghost rv = check_views(rows@);
    let ghost f = |c: CheckView| check_tree(c);
    let mut items: Vec<Json> = Vec::new();
    let mut i: usize = 0;
    assert(item_views(items@) =~= rv.subrange(0, 0).map_values(f));
    while i < rows.len()
        invariant
            i <= rows.len(),
            rv == check_views(rows@),
            f == (|c: CheckView| check_tree(c)),
            item_views(items@) == rv.subrange(0, i as int).map_values(f),
        decreases rows.len() - i,
    {
        let ghost before = items@;
        let row = &rows[i];
        assert(rv[i as int] == row@);
        let mut p = Pairs::new();
        p.text("name", row.name.as_str());
        p.flag("ok", row.ok);
        p.text("detail", row.detail.as_str());
        assert(p@ == seq![
            ("name"@, Tree::Text(row.name@)),
            ("ok"@, Tree::Bool(row.ok)),
            ("detail"@, Tree::Text(row.detail@)),
        ]);
        items.push(p.object());
        assert(item_views(items@) =~= item_views(before).push(f(rv[i as int])));
        assert(rv.subrange(0, i + 1).map_values(f) =~= rv.subrange(0, i as int).map_values(f).push(
            f(rv[i as int]),
        ));
        i = i + 1;
    }
    assert(rv.subrange(0, rv.len() as int) =~= rv);
    let mut p = Pairs::new();
    p.flag("ok", doctor_ok(rows));
    p.add("checks", Json::list(items));
    assert(p@ == seq![
        ("ok"@, Tree::Bool(all_in_place(rv))),
        ("checks"@, Tree::List(rv.map_values(f))),
    ]);
    p.object()
}

/// What the event stream is told of a step of the setup.
pub fn setup_step_event(step: &str, status: &str) -> (r: Json)
    ensures
        r@ == Tree::Object(
            object_of(
                seq![
                    ("step"@, Tree::Text(step@)),
                    ("status"@, Tree::Text(status@)),
                ],
            ),
        ),
{
    let mut p = Pairs::new();
    p.text("step", step);
    p.text("status", status);
    assert(p@ == seq![
        ("step"@, Tree::Text(step@)),
        ("status"@, Tree::Text(status@)),
    ]);
    p.object()
}

/// What the event stream is told once the setup has finished.
pub fn setup_finished(runtime_dir: &str, model: &str) -> (r: Json)
    ensures
        r@ == Tree::Object(
            object_of(
                seq![
                    ("runtime_dir"@, Tree::Text(runtime_dir@)),
                    ("model"@, Tree::Text(model@)),
                ],
            ),
        ),
{
    let mut p = Pairs::new();
    p.text("runtime_dir", runtime_dir);
    p.text("model", model);
    assert(p@ == seq![
        ("runtime_dir"@, Tree::Text(runtime_dir@)),
        ("model"@, Tree::Text(model@)),
    ]);
    p.object()
}

/// What the event stream is told once the checks have run.
pub fn doctor_ran(ok: bool, deep: bool, checks: usize, failed: usize) -> (r: Json)
    ensures
        r@ == Tree::Object(
            object_of(
                seq![
                    ("ok"@, Tree::Bool(ok)),
                    ("deep"@, Tree::Bool(deep)),
                    ("checks"@, count_tree(checks as nat)),
                    ("failed"@, count_tree(failed as nat)),
                ],
            ),
        ),
{
    let mut p = Pairs::new();
    p.flag("ok", ok);
    p.flag("deep", deep);
    p.count("checks", checks as u64);
    p.count("failed", failed as u64);
    assert(p@ == seq![
        ("ok"@, Tree::Bool(ok)),
        ("deep"@, Tree::Bool(deep)),
        ("checks"@, count_tree(checks as nat)),
        ("failed"@, count_tree(failed as nat)),
    ]);
    p.object()
}

// ---------------------------------------------------------------------------------------------
// What is set up, and what is looked at
// ---------------------------------------------------------------------------------------------

/// The runtime lies where it is set to, else in the home directory, else in the root.
pub proof fn runtimes_lie_in_three_places(set: Seq<char>, home: Seq<char>, root: Seq<char>)
    requires
        home.len() > 0,
        home.last() != '/',
        root.len() > 0,
        root.last() != '/',
    ensures
        runtime_of(Some(set), Some(home), root) == set,
        runtime_of(None, Some(home), root) == home + seq!['/'] + "Library"@ + seq!['/']
            + "Application Support"@ + seq!['/'] + "riff"@ + seq!['/'] + "runtime"@ + seq!['/']
            + "python"@,
        runtime_of(None, None, root) == root + seq!['/'] + "runtime"@ + seq!['/'] + "python"@,
{
    reveal_strlit("Library");
    reveal_strlit("Application Support");
    reveal_strlit("riff");
    reveal_strlit("runtime");
    reveal_strlit("python");
    paths_join_with_one_slash(home, "Library"@);
    let a = home + seq!['/'] + "Library"@;
    assert(a.last() == 'y');
    paths_join_with_one_slash(a, "Application Support"@);
    let b = a + seq!['/'] + "Application Support"@;
    assert(b.last() == 't');
    paths_join_with_one_slash(b, "riff"@);
    let c = b + seq!['/'] + "riff"@;
    assert(c.last() == 'f');
    paths_join_with_one_slash(c, "runtime"@);
    let d = c + seq!['/'] + "runtime"@;
    assert(d.last() == 'e');
    paths_join_with_one_slash(d, "python"@);
    paths_join_with_one_slash(root, "runtime"@);
    let e = root + seq!['/'] + "runtime"@;
    assert(e.last() == 'e');
    paths_join_with_one_slash(e, "python"@);
}

/// Setting up makes the runtime where it is not there, installs the packages and fetches the model,
/// in this order; what is to be skipped is.
pub proof fn setups_go_in_order(skip_packages: bool, skip_model: bool)
    ensures
        steps_of(false, false, false, false) == seq![
            SetupStep::CheckPython,
            SetupStep::CreateRuntime,
            SetupStep::UpgradeInstaller,
            SetupStep::InstallPackages,
            SetupStep::FetchModel,
        ],
        steps_of(true, true, true, false) == seq![SetupStep::CheckPython],
        steps_of(true, false, true, false) == seq![
            SetupStep::CheckPython,
            SetupStep::UpgradeInstaller,
            SetupStep::InstallPackages,
        ],
        steps_of(true, true, false, false) == seq![SetupStep::CheckPython, SetupStep::FetchModel],
        steps_of(false, skip_packages, skip_model, false)[1] == SetupStep::CreateRuntime,
{
    assert(steps_of(false, false, false, false) =~= seq![
        SetupStep::CheckPython,
        SetupStep::CreateRuntime,
        SetupStep::UpgradeInstaller,
        SetupStep::InstallPackages,
        SetupStep::FetchModel,
    ]);
    assert(steps_of(true, true, true, false) =~= seq![SetupStep::CheckPython]);
    assert(steps_of(true, false, true, false) =~= seq![
        SetupStep::CheckPython,
        SetupStep::UpgradeInstaller,
        SetupStep::InstallPackages,
    ]);
    assert(steps_of(true, true, false, false) =~= seq![
        SetupStep::CheckPython,
        SetupStep::FetchModel,
    ]);
}

/// A step that was done is no failure, and every other end is, with what went wrong in it.
pub proof fn undone_steps_are_failures(step: SetupStep, e: String, python: Seq<char>)
    ensures
        setup_failure(step, StepEnd::Done, python) is None,
        setup_failure(step, StepEnd::Failed, python) is Some,
        setup_failure(step, StepEnd::NotRun(e), python) is Some,
        setup_failure(SetupStep::InstallPackages, StepEnd::NotRun(e), python) == Some(
            "Failed to install packages: "@ + e@,
        ),
        setup_failure(SetupStep::CreateRuntime, StepEnd::NotRun(e), python) == Some(
            "Failed to run "@ + python + ": "@ + e@,
        ),
        setup_failure(SetupStep::FetchModel, StepEnd::Failed, python) == Some(
            "Model pre-download failed."@,
        ),
        setup_failure(SetupStep::CheckPython, StepEnd::Failed, python) == Some(
            python + " is not Python 3.12. Install python@3.12 or pass --python."@,
        ),
        setup_failure(SetupStep::CheckPython, StepEnd::NotRun(e), python) == Some(
            python + " is not Python 3.12. Install python@3.12 or pass --python."@,
        ),
        setup_failure(SetupStep::UpgradeInstaller, StepEnd::NotRun(e), python) == Some(
            "Failed to run pip: "@ + e@,
        ),
        setup_failure(SetupStep::FetchModel, StepEnd::NotRun(e), python) == Some(
            "Failed to pre-download model: "@ + e@,
        ),
        setup_failure(SetupStep::CreateRuntime, StepEnd::Failed, python) == Some(
            "Failed to create private Python runtime."@,
        ),
        setup_failure(SetupStep::UpgradeInstaller, StepEnd::Failed, python) == Some(
            "Failed to upgrade pip in private runtime."@,
        ),
        setup_failure(SetupStep::InstallPackages, StepEnd::Failed, python) == Some(
            "Failed to install pinned transcription packages."@,
        ),
{
}

/// Each step is run with what it needs: the runtime it makes, the list it installs, the script that
/// fetches the model.
pub proof fn steps_get_what_they_need(dir: Seq<char>, list: Seq<char>, script: Seq<char>)
    ensures
        args_of_step(SetupStep::CreateRuntime, dir, list, script).last() == dir,
        args_of_step(SetupStep::InstallPackages, dir, list, script).last() == list,
        args_of_step(SetupStep::FetchModel, dir, list, script)[0] == script,
        args_of_step(SetupStep::FetchModel, dir, list, script).last() == PINNED_PARAKEET_MODEL@,
        args_of_step(SetupStep::UpgradeInstaller, dir, list, script) == seq![
            "-m"@,
            "pip"@,
            "install"@,
            "--upgrade"@,
            "pip"@,
        ],
        args_of_step(SetupStep::CheckPython, dir, list, script)[0] == "-c"@,
{
}

/// Everything is looked at: what comes with the program, the tools, the interpreter, what is kept and
/// what runs; each check fails exactly where what it is about is missing.
pub proof fn checks_fail_where_something_is_missing(f: Findings)
    ensures
        ({
            let c = checks_of(f);
            let k: int = if f.packages_ok is Some {
                10
            } else {
                9
            };
            &&& c.len() == k + 5
            &&& c[0].name == "resource_dir"@ && c[0].ok == f.resource_dir is Some
            &&& c[1].name == "parakeet_script"@ && c[1].ok == f.parakeet_script is Some
            &&& c[2].name == "web_server_script"@ && c[2].ok == f.web_server_script is Some
            &&& c[3].name == "sound_picker_script"@ && c[3].ok == f.sound_picker_script is Some
            &&& c[4].name == "requirements"@ && c[4].ok == f.requirements is Some
            &&& c[5].name == "ffmpeg"@ && c[5].ok == f.has_ffmpeg
            &&& c[6].name == "screencapture"@ && c[6].ok == f.has_screencapture
            &&& c[7].ok == f.has_osascript
            &&& c[8].name == "python"@ && c[8].ok == f.has_python && c[8].detail == f.python@
            &&& f.packages_ok matches Some(ok) ==> c[9].name == "python_packages"@ && c[9].ok == ok
            &&& c[k].name == "root_storage"@ && c[k].ok == f.root_writable
            &&& c[k + 1].name == "sessions_storage"@ && c[k + 1].ok == f.sessions_writable
            &&& c[k + 2].name == "parakeet_server"@ && c[k + 2].ok == f.parakeet_healthy
            &&& c[k + 3].name == "web_server"@ && c[k + 3].ok == f.web_healthy
            &&& c[k + 4].name == "stray_helpers"@ && c[k + 4].ok == f.no_strays
        }),
{
}

/// All is in place where every check succeeds but those of servers, which are started when they are
/// needed.
pub proof fn servers_may_be_down(rows: Seq<CheckView>, c: CheckView)
    ensures
        all_in_place(Seq::empty()),
        c.ok ==> all_in_place(rows.push(c)) == all_in_place(rows),
        !c.ok && (c.name == "parakeet_server"@ || c.name == "web_server"@) ==> all_in_place(
            rows.push(c),
        ) == all_in_place(rows),
        !c.ok && c.name != "parakeet_server"@ && c.name != "web_server"@ ==> !all_in_place(
            rows.push(c),
        ),
{
    let more = rows.push(c);
    assert(more[rows.len() as int] == c);
    if all_in_place(more) {
        assert forall|i: int| 0 <= i < rows.len() implies (#[trigger] rows[i]).ok || may_fail(
            rows[i].name,
        ) by {
            assert(more[i] == rows[i]);
        }
    }
    if all_in_place(rows) && (c.ok || may_fail(c.name)) {
        assert forall|i: int| 0 <= i < more.len() implies (#[trigger] more[i]).ok || may_fail(
            more[i].name,
        ) by {
            if i < rows.len() {
                assert(more[i] == rows[i]);
            }
        }
    }
}

/// What is reported of a check is what it is.
pub proof fn checks_are_reported(c: CheckView)
    ensures
        text_field(check_tree(c), "name"@) == Some(c.name),
        field(check_tree(c), "ok"@) == Some(Tree::Bool(c.ok)),
        text_field(check_tree(c), "detail"@) == Some(c.detail),
{
    reveal_strlit("name");
    reveal_strlit("ok");
    reveal_strlit("detail");
    assert("name"@.len() == 4 && "ok"@.len() == 2 && "detail"@.len() == 6);
    let p = seq![
        ("name"@, Tree::Text(c.name)),
        ("ok"@, Tree::Bool(c.ok)),
        ("detail"@, Tree::Text(c.detail)),
    ];
    pairs_read_back(p, 0);
    pairs_read_back(p, 1);
    pairs_read_back(p, 2);
}

/// A check says what it found: where a file lies, whether a tool is there, where something is kept or
/// runs.
pub proof fn checks_say_what_was_found(f: Findings)
    ensures
        ({
            let c = checks_of(f);
            let k: int = if f.packages_ok is Some {
                10
            } else {
                9
            };
            &&& f.resource_dir matches Some(p) ==> c[0].detail == p@
            &&& f.resource_dir is None ==> c[0].detail == "not found"@
            &&& f.parakeet_script matches Some(p) ==> c[1].detail == p@
            &&& f.web_server_script matches Some(p) ==> c[2].detail == p@
            &&& f.sound_picker_script matches Some(p) ==> c[3].detail == p@
            &&& f.requirements matches Some(p) ==> c[4].detail == p@
            &&& c[5].detail == if f.has_ffmpeg {
                "found"@
            } else {
                "missing"@
            }
            &&& c[6].detail == if f.has_screencapture {
                "found"@
            } else {
                "missing"@
            }
            &&& c[7].name == "osascript/accessibility"@
            &&& f.has_osascript ==> c[7].detail
                == "osascript found; grant Accessibility when macOS prompts"@
            &&& !f.has_osascript ==> c[7].detail == "osascript missing"@
            &&& f.packages_ok == Some(true) ==> c[9].detail == "torch, soundfile, nemo import"@
            &&& f.packages_ok == Some(false) ==> c[9].detail == "missing import; run riff setup"@
            &&& c[k].detail == f.root@ && c[k + 1].detail == f.sessions@
            &&& c[k + 2].detail == f.parakeet_url@ && c[k + 3].detail == f.web_url@
            &&& c[k + 4].detail == f.strays@
        }),
{
}

/// Each step of setting up goes by a name.
pub proof fn steps_go_by_name()
    ensures
        step_name(SetupStep::CheckPython) == "check_python"@,
        step_name(SetupStep::CreateRuntime) == "create_runtime"@,
        step_name(SetupStep::UpgradeInstaller) == "upgrade_pip"@,
        step_name(SetupStep::InstallPackages) == "install_packages"@,
        step_name(SetupStep::FetchModel) == "download_model"@,
{
}

/// The arguments of each step, in full.
pub proof fn steps_are_run_with_these(dir: Seq<char>, list: Seq<char>, script: Seq<char>)
    ensures
        args_of_step(SetupStep::CheckPython, dir, list, script) == seq!["-c"@, VERSION_CHECK@],
        args_of_step(SetupStep::CreateRuntime, dir, list, script) == seq!["-m"@, "venv"@, dir],
        args_of_step(SetupStep::InstallPackages, dir, list, script) == seq![
            "-m"@,
            "pip"@,
            "install"@,
            "-r"@,
            list,
        ],
        args_of_step(SetupStep::FetchModel, dir, list, script) == seq![
            script,
            "--download-model"@,
            "--model"@,
            PINNED_PARAKEET_MODEL@,
        ],
{
}

} // verus!
