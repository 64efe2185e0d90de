//! The yt-dlp engine, which heals itself.
//!
//! The engine that ships with the application is frozen at one version. When a
//! site breaks it, the current release is downloaded into the data directory of
//! the application and preferred from then on. It goes there because the
//! application cannot write to where it is installed.

use vstd::prelude::*;
use vstd::string::*;

use crate::text;

verus! {

broadcast use vstd::string::group_string_axioms;

/// The directory for the downloaded engine, in the data directory.
pub const ENGINE_DIR: &'static str = "bin";

/// The directory of the plugins that ship with the application, among its
/// resources.
pub const PLUGINS_DIR: &'static str = "yt-dlp-plugins";

/// The engine that ships with the application.
pub const SIDECAR: &'static str = "yt-dlp";

/// What the application remembers of engine updates while it runs.
#[derive(Debug)]
pub struct EngineSession {
    pub updated: bool,
}

/// The machine that the application was built for.
#[derive(Debug, Clone, Copy, PartialEq, Eq, Structural)]
pub struct Target {
    pub windows: bool,
    pub macos: bool,
    pub unix: bool,
    pub aarch64: bool,
}

/// The program to start as engine.
#[derive(Debug, Clone, Copy, PartialEq, Eq, Structural)]
pub enum EngineProgram {
    /// The engine that was downloaded.
    Downloaded,
    /// The engine that ships with the application, `SIDECAR`.
    Bundled,
}

/// How the engine is started, up to the arguments of the job.
#[derive(Debug)]
pub struct EngineCommand {
    pub program: EngineProgram,
    pub args: Vec<String>,
}

/// The steps of an engine update, in order.
#[derive(Debug, Clone, Copy, PartialEq, Eq, Structural)]
pub enum UpdateStep {
    /// Download the release asset.
    Download,
    /// Find the data directory.
    FindDataDir,
    /// Make the engine directory in it.
    MakeDir,
    /// Write what was downloaded to a temporary file.
    WriteFile,
    /// Let the temporary file be executed, on machines that ask for it.
    SetPermissions,
    /// Remove the engine that is there: on Windows it could not be replaced.
    RemoveOld,
    /// Give the temporary file the name of the engine.
    Install,
}

/// How an engine update goes on.
#[derive(Debug)]
pub enum UpdateAction {
    Perform(UpdateStep),
    /// The downloaded engine is in place.
    Done,
    Failed(String),
}

/// The name of the engine's file.
pub open spec fn engine_file(target: Target) -> Seq<char> {
    if target.windows {
        "yt-dlp.exe"@
    } else {
        "yt-dlp"@
    }
}

/// The name of the file that holds the engine until it is installed.
pub open spec fn download_file(target: Target) -> Seq<char> {
    engine_file(target) + ".download"@
}

/// The name of the release asset for a machine.
pub open spec fn asset(target: Target) -> Seq<char> {
    if target.windows {
        "yt-dlp.exe"@
    } else if target.macos {
        "yt-dlp_macos"@
    } else if target.aarch64 {
        "yt-dlp_linux_aarch64"@
    } else {
        "yt-dlp_linux"@
    }
}

impl UpdateStep {
    /// The place of a step among the steps.
    pub open spec fn place(self) -> int {
        match self {
            UpdateStep::Download => 0,
            UpdateStep::FindDataDir => 1,
            UpdateStep::MakeDir => 2,
            UpdateStep::WriteFile => 3,
            UpdateStep::SetPermissions => 4,
            UpdateStep::RemoveOld => 5,
            UpdateStep::Install => 6,
        }
    }

    /// An update goes on though this step failed.
    pub open spec fn may_fail(self) -> bool {
        self is SetPermissions || self is RemoveOld
    }

    /// What a failed update says before the reason, if it failed at this step.
    pub open spec fn complaint(self) -> Seq<char> {
        match self {
            UpdateStep::Download => "engine download failed: "@,
            UpdateStep::FindDataDir => "app data dir: "@,
            UpdateStep::MakeDir => "engine dir: "@,
            UpdateStep::WriteFile => "engine write: "@,
            UpdateStep::SetPermissions => ""@,
            UpdateStep::RemoveOld => ""@,
            UpdateStep::Install => "engine install: "@,
        }
    }

    /// The step after this one; there is none after the last.
    pub open spec fn next(self, target: Target) -> Option<UpdateStep> {
        match self {
            UpdateStep::Download => Some(UpdateStep::FindDataDir),
            UpdateStep::FindDataDir => Some(UpdateStep::MakeDir),
            UpdateStep::MakeDir => Some(UpdateStep::WriteFile),
            UpdateStep::WriteFile => Some(
                if target.unix {
                    UpdateStep::SetPermissions
                } else {
                    UpdateStep::RemoveOld
                },
            ),
            UpdateStep::SetPermissions => Some(UpdateStep::RemoveOld),
            UpdateStep::RemoveOld => Some(UpdateStep::Install),
            UpdateStep::Install => None,
        }
    }
}

/// `action` is how an update goes on after a step.
pub open spec fn follows(
    action: UpdateAction,
    step: UpdateStep,
    outcome: Result<(), String>,
    target: Target,
) -> bool {
    match outcome {
        Err(reason) if !step.may_fail() => action matches UpdateAction::Failed(message) && message@
            == step.complaint() + reason@,
        _ => action == match step.next(target) {
            Some(next) => UpdateAction::Perform(next),
            None => UpdateAction::Done,
        },
    }
}

/// How an update begins, in a session that remembers an update or not.
pub open spec fn first_action(updated: bool) -> UpdateAction {
    if updated {
        UpdateAction::Done
    } else {
        UpdateAction::Perform(UpdateStep::Download)
    }
}

/// Whether a session remembers an update after an action.
pub open spec fn remembers(updated: bool, action: UpdateAction) -> bool {
    updated || action is Done
}

/// The engine to start, with the downloaded one there or not.
pub open spec fn program_for(downloaded: bool) -> EngineProgram {
    if downloaded {
        EngineProgram::Downloaded
    } else {
        EngineProgram::Bundled
    }
}

/// Where the release asset for a machine can be had.
pub open spec fn asset_url(target: Target) -> Seq<char> {
    "https://github.com/yt-dlp/yt-dlp/releases/latest/download/"@ + asset(target)
}

/// `command` starts the engine, with the downloaded one there or not and the
/// plugins in the given directory, if they are there.
pub open spec fn is_command(
    downloaded: bool,
    plugins: Option<Seq<char>>,
    command: EngineCommand,
) -> bool {
    &&& command.program == program_for(downloaded)
    &&& text::texts(command.args@) == match plugins {
        Some(dir) => seq!["--plugin-dirs"@, dir],
        None => Seq::<Seq<char>>::empty(),
    }
}

/// Where an update stands.
pub struct UpdateState {
    /// What is done next.
    pub action: UpdateAction,
    /// The session remembers an update.
    pub updated: bool,
    /// What the files of the engine directory hold, by their names.
    pub files: Map<Seq<char>, Seq<u8>>,
}

/// The files of the engine directory are `after` where they were `before` and
/// `step` ended with `outcome`, in an update that downloads `data`. A file that
/// could not be written may be left with anything.
pub open spec fn performs(
    step: UpdateStep,
    outcome: Result<(), String>,
    data: Seq<u8>,
    target: Target,
    before: Map<Seq<char>, Seq<u8>>,
    after: Map<Seq<char>, Seq<u8>>,
) -> bool {
    let engine = engine_file(target);
    let temporary = download_file(target);
    match step {
        UpdateStep::WriteFile => {
            &&& outcome is Ok ==> after == before.insert(temporary, data)
            &&& outcome is Err ==> after.remove(temporary) == before.remove(temporary)
        },
        UpdateStep::RemoveOld => after == if outcome is Ok {
            before.remove(engine)
        } else {
            before
        },
        UpdateStep::Install => after == if outcome is Ok {
            before.remove(temporary).insert(engine, before[temporary])
        } else {
            before
        },
        _ => after == before,
    }
}

/// `states` are those of an update that downloads `data` and whose steps end
/// with `outcomes`, from its first step on.
pub open spec fn is_update(
    states: Seq<UpdateState>,
    outcomes: Seq<Result<(), String>>,
    data: Seq<u8>,
    target: Target,
) -> bool {
    &&& states.len() == outcomes.len() + 1
    &&& states[0].action == first_action(states[0].updated)
    &&& forall|i: int|
        0 <= i < outcomes.len() ==> is_update_step(
            #[trigger] states[i],
            states[i + 1],
            outcomes[i],
            data,
            target,
        )
}

/// An update comes from one state to the next by a step that ends with `outcome`.
pub open spec fn is_update_step(
    before: UpdateState,
    after: UpdateState,
    outcome: Result<(), String>,
    data: Seq<u8>,
    target: Target,
) -> bool {
    &&& before.action matches UpdateAction::Perform(step)
    &&& performs(step, outcome, data, target, before.files, after.files)
    &&& follows(after.action, step, outcome, target)
    &&& after.updated == remembers(before.updated, after.action)
}

impl EngineSession {
    /// A session without an update.
    pub fn new() -> (session: EngineSession)
        ensures
            !session.updated,
    {
        EngineSession { updated: false }
    }
}

/// Whether an engine update succeeded this session.
pub fn updated_this_session(session: &EngineSession) -> (updated: bool)
    ensures
        updated == session.updated,
{
    session.updated
}

/// The name of the engine's file.
pub fn engine_file_name(target: Target) -> (name: &'static str)
    ensures
        name@ == engine_file(target),
{
    if target.windows {
        "yt-dlp.exe"
    } else {
        "yt-dlp"
    }
}

/// The name of the file that holds the engine until it is installed.
pub fn download_file_name(target: Target) -> (name: String)
    ensures
        name@ == download_file(target),
{
    let mut name: String = engine_file_name(target).to_owned();
    name.append(".download");
    name
}

/// The release asset for a machine. Each is a single file that runs without
/// Python.
pub fn asset_name(target: Target) -> (name: &'static str)
    ensures
        name@ == asset(target),
{
    if target.windows {
        "yt-dlp.exe"
    } else if target.macos {
        "yt-dlp_macos"
    } else if target.aarch64 {
        "yt-dlp_linux_aarch64"
    } else {
        "yt-dlp_linux"
    }
}

/// Where the current release can be had.
pub fn download_url(target: Target) -> (url: String)
    ensures
        url@ == asset_url(target),
{
    let mut url: String = "https://github.com/yt-dlp/yt-dlp/releases/latest/download/".to_owned();
    url.append(asset_name(target));
    url
}

/// How the engine is started: the downloaded one if it is there, else the
/// bundled one, and either with the bundled plugins, if they are there.
pub fn ytdlp_command(downloaded: bool, plugins: Option<&str>) -> (command: EngineCommand)
    ensures
        is_command(downloaded, text::opt_str(plugins), command),
{
    let program: EngineProgram = if downloaded {
        EngineProgram::Downloaded
    } else {
        EngineProgram::Bundled
    };
    let mut args: Vec<String> = Vec::new();
    if let Some(dir) = plugins {
        args.push("--plugin-dirs".to_owned());
        args.push(dir.to_owned());
        assert(text::texts(args@) =~= seq!["--plugin-dirs"@, dir@]);
    } else {
        assert(text::texts(args@) =~= Seq::<Seq<char>>::empty());
    }
    EngineCommand { program, args }
}

/// How an engine update begins. An update that succeeded is remembered, so that
/// repeated failures do not download the same engine over and over.
pub fn begin_update(session: &EngineSession) -> (action: UpdateAction)
    ensures
        action == first_action(session.updated),
{
    if session.updated {
        UpdateAction::Done
    } else {
        UpdateAction::Perform(UpdateStep::Download)
    }
}

/// How an engine update goes on after a step. The session remembers the update
/// once the engine is installed.
pub fn continue_update(
    session: &mut EngineSession,
    step: UpdateStep,
    outcome: Result<(), String>,
    target: Target,
) -> (action: UpdateAction)
    ensures
        follows(action, step, outcome, target),
        final(session).updated == remembers(old(session).updated, action),
{
    match outcome {
        Ok(()) => {},
        Err(reason) => match step {
            UpdateStep::Download => return failed("engine download failed: ", reason.as_str()),
            UpdateStep::FindDataDir => return failed("app data dir: ", reason.as_str()),
            UpdateStep::MakeDir => return failed("engine dir: ", reason.as_str()),
            UpdateStep::WriteFile => return failed("engine write: ", reason.as_str()),
            UpdateStep::Install => return failed("engine install: ", reason.as_str()),
            UpdateStep::SetPermissions => {},
            UpdateStep::RemoveOld => {},
        },
    }
    match step {
        UpdateStep::Download => UpdateAction::Perform(UpdateStep::FindDataDir),
        UpdateStep::FindDataDir => UpdateAction::Perform(UpdateStep::MakeDir),
        UpdateStep::MakeDir => UpdateAction::Perform(UpdateStep::WriteFile),
        UpdateStep::WriteFile => {
            if target.unix {
                UpdateAction::Perform(UpdateStep::SetPermissions)
            } else {
                UpdateAction::Perform(UpdateStep::RemoveOld)
            }
        },
        UpdateStep::SetPermissions => UpdateAction::Perform(UpdateStep::RemoveOld),
        UpdateStep::RemoveOld => UpdateAction::Perform(UpdateStep::Install),
        UpdateStep::Install => {
            session.updated = true;
            UpdateAction::Done
        },
    }
}

fn failed(complaint: &str, reason: &str) -> (action: UpdateAction)
    ensures
        action matches UpdateAction::Failed(message) && message@ == complaint@ + reason@,
{
    let mut message: String = complaint.to_owned();
    message.append(reason);
    UpdateAction::Failed(message)
}

/// The asset fits the machine: on Windows and on macOS there is one for every
/// processor, an asset for Linux is chosen only where it is neither, and the one
/// for aarch64 exactly if that is the processor.
pub proof fn law_asset_fits_machine(target: Target)
    ensures
        asset(target) == "yt-dlp.exe"@ <==> target.windows,
        asset(target) == "yt-dlp_macos"@ <==> target.macos && !target.windows,
        asset(target) == "yt-dlp_linux_aarch64"@ <==> target.aarch64 && !target.macos
            && !target.windows,
        asset(target) == "yt-dlp_linux"@ <==> !target.aarch64 && !target.macos && !target.windows,
{
    reveal_strlit("yt-dlp.exe");
    reveal_strlit("yt-dlp_macos");
    reveal_strlit("yt-dlp_linux_aarch64");
    reveal_strlit("yt-dlp_linux");
    assert("yt-dlp.exe"@.len() == 10);
    assert("yt-dlp_macos"@.len() == 12 && "yt-dlp_macos"@[7] == 'm');
    assert("yt-dlp_linux"@.len() == 12 && "yt-dlp_linux"@[7] == 'l');
    assert("yt-dlp_linux_aarch64"@.len() == 20);
}

/// The asset is had from the current release of yt-dlp itself.
pub proof fn law_asset_comes_from_latest_release(target: Target)
    ensures
        target.windows ==> asset_url(target)
            == "https://github.com/yt-dlp/yt-dlp/releases/latest/download/yt-dlp.exe"@,
        target.macos && !target.windows ==> asset_url(target)
            == "https://github.com/yt-dlp/yt-dlp/releases/latest/download/yt-dlp_macos"@,
        target.aarch64 && !target.macos && !target.windows ==> asset_url(target)
            == "https://github.com/yt-dlp/yt-dlp/releases/latest/download/yt-dlp_linux_aarch64"@,
        !target.aarch64 && !target.macos && !target.windows ==> asset_url(target)
            == "https://github.com/yt-dlp/yt-dlp/releases/latest/download/yt-dlp_linux"@,
{
    reveal_strlit("https://github.com/yt-dlp/yt-dlp/releases/latest/download/");
    reveal_strlit("yt-dlp.exe");
    reveal_strlit("https://github.com/yt-dlp/yt-dlp/releases/latest/download/yt-dlp.exe");
    reveal_strlit("yt-dlp_macos");
    reveal_strlit("https://github.com/yt-dlp/yt-dlp/releases/latest/download/yt-dlp_macos");
    reveal_strlit("yt-dlp_linux_aarch64");
    reveal_strlit("https://github.com/yt-dlp/yt-dlp/releases/latest/download/yt-dlp_linux_aarch64");
    reveal_strlit("yt-dlp_linux");
    reveal_strlit("https://github.com/yt-dlp/yt-dlp/releases/latest/download/yt-dlp_linux");
    assert("https://github.com/yt-dlp/yt-dlp/releases/latest/download/"@ + "yt-dlp.exe"@
        =~= "https://github.com/yt-dlp/yt-dlp/releases/latest/download/yt-dlp.exe"@);
    assert("https://github.com/yt-dlp/yt-dlp/releases/latest/download/"@ + "yt-dlp_macos"@
        =~= "https://github.com/yt-dlp/yt-dlp/releases/latest/download/yt-dlp_macos"@);
    assert("https://github.com/yt-dlp/yt-dlp/releases/latest/download/"@ + "yt-dlp_linux_aarch64"@
        =~= "https://github.com/yt-dlp/yt-dlp/releases/latest/download/yt-dlp_linux_aarch64"@);
    assert("https://github.com/yt-dlp/yt-dlp/releases/latest/download/"@ + "yt-dlp_linux"@
        =~= "https://github.com/yt-dlp/yt-dlp/releases/latest/download/yt-dlp_linux"@);
}

/// The engine is kept in one place, under the name that programs have on the
/// machine, and is downloaded to another file beside it.
pub proof fn law_engine_has_its_place(target: Target)
    ensures
        target.windows ==> engine_file(target) == "yt-dlp.exe"@,
        !target.windows ==> engine_file(target) == "yt-dlp"@,
        download_file(target) == engine_file(target) + ".download"@,
        download_file(target) != engine_file(target),
        ENGINE_DIR@ == "bin"@,
        PLUGINS_DIR@ == "yt-dlp-plugins"@,
        SIDECAR@ == "yt-dlp"@,
{
    lemma_temporary_is_another_file(target);
}

/// The downloaded engine is started exactly if it is there, and the plugins are
/// passed exactly if they are there, each whatever holds of the other.
pub proof fn law_engine_is_started_with_plugins(
    downloaded: bool,
    plugins: Option<Seq<char>>,
    command: EngineCommand,
)
    requires
        is_command(downloaded, plugins, command),
    ensures
        command.program is Downloaded <==> downloaded,
        command.program is Bundled <==> !downloaded,
        plugins matches Some(dir) ==> command.args@.len() == 2 && command.args@[0]@
            == "--plugin-dirs"@ && command.args@[1]@ == dir,
        plugins is None ==> command.args@.len() == 0,
{
    let args = text::texts(command.args@);
    assert(args.len() == command.args@.len());
    if plugins is Some {
        assert(args[0] == command.args@[0]@);
        assert(args[1] == command.args@[1]@);
    }
}

/// An update downloads first, then writes, then installs. A step that failed ends
/// it with its own complaint, but for those without which the engine can do:
/// letting the file be executed, which only some machines ask for, and removing
/// an engine that may not be there.
pub proof fn law_update_takes_each_step(
    action: UpdateAction,
    step: UpdateStep,
    outcome: Result<(), String>,
    target: Target,
)
    requires
        follows(action, step, outcome, target),
    ensures
        outcome matches Err(reason) ==> match step {
            UpdateStep::Download => action matches UpdateAction::Failed(m) && m@
                == "engine download failed: "@ + reason@,
            UpdateStep::FindDataDir => action matches UpdateAction::Failed(m) && m@
                == "app data dir: "@ + reason@,
            UpdateStep::MakeDir => action matches UpdateAction::Failed(m) && m@ == "engine dir: "@
                + reason@,
            UpdateStep::WriteFile => action matches UpdateAction::Failed(m) && m@
                == "engine write: "@ + reason@,
            UpdateStep::Install => action matches UpdateAction::Failed(m) && m@
                == "engine install: "@ + reason@,
            _ => !(action is Failed),
        },
        outcome is Ok ==> {
            &&& step is Download ==> action == UpdateAction::Perform(UpdateStep::FindDataDir)
            &&& step is FindDataDir ==> action == UpdateAction::Perform(UpdateStep::MakeDir)
            &&& step is MakeDir ==> action == UpdateAction::Perform(UpdateStep::WriteFile)
            &&& step is WriteFile && target.unix ==> action == UpdateAction::Perform(
                UpdateStep::SetPermissions,
            )
            &&& step is WriteFile && !target.unix ==> action == UpdateAction::Perform(
                UpdateStep::RemoveOld,
            )
            &&& step is Install ==> action is Done
        },
        step is SetPermissions ==> action == UpdateAction::Perform(UpdateStep::RemoveOld),
        step is RemoveOld ==> action == UpdateAction::Perform(UpdateStep::Install),
{
}

/// A session downloads until an update is done, and not again after it; nothing
/// else makes it remember or forget one.
pub proof fn law_session_downloads_once(updated: bool, action: UpdateAction)
    ensures
        first_action(updated) is Done <==> updated,
        !updated ==> first_action(updated) == UpdateAction::Perform(UpdateStep::Download),
        updated ==> remembers(updated, action),
        !updated ==> (remembers(updated, action) <==> action is Done),
{
}

/// An update performs its steps in order and comes to an end.
pub proof fn law_update_goes_forward(
    action: UpdateAction,
    step: UpdateStep,
    outcome: Result<(), String>,
    target: Target,
)
    requires
        follows(action, step, outcome, target),
    ensures
        action matches UpdateAction::Perform(next) ==> step.place() < next.place() <= 6,
        action is Done ==> step is Install && outcome is Ok,
{
}

/// An update fails only at a step that must not fail, and tells the reason.
pub proof fn law_failed_update_tells_reason(
    action: UpdateAction,
    step: UpdateStep,
    outcome: Result<(), String>,
    target: Target,
)
    requires
        follows(action, step, outcome, target),
    ensures
        action is Failed <==> outcome is Err && !step.may_fail(),
        action matches UpdateAction::Failed(message) ==> message@ == step.complaint()
            + outcome->Err_0@,
{
}

/// An update that performed its steps and is done has put what it downloaded in
/// the place of the engine, left no temporary file, and touched no other file.
/// From then on the downloaded engine is started, and the session does not
/// download it again.
pub proof fn law_finished_update_installs_download(
    states: Seq<UpdateState>,
    outcomes: Seq<Result<(), String>>,
    data: Seq<u8>,
    target: Target,
)
    requires
        is_update(states, outcomes, data, target),
        outcomes.len() > 0,
        states.last().action is Done,
    ensures
        states.last().files == states[0].files.remove(download_file(target)).insert(
            engine_file(target),
            data,
        ),
        states.last().files[engine_file(target)] == data,
        !states.last().files.dom().contains(download_file(target)),
        program_for(states.last().files.dom().contains(engine_file(target)))
            == EngineProgram::Downloaded,
        states.last().updated,
        first_action(states.last().updated) is Done,
{
    let last = outcomes.len() - 1;
    lemma_files_during_update(states, outcomes, data, target, last);
    lemma_temporary_is_another_file(target);
    assert(is_update_step(states[last], states[last + 1], outcomes[last], data, target));
    assert(states[last].action == UpdateAction::Perform(UpdateStep::Install));
    assert(states.last().files =~= states[0].files.remove(download_file(target)).insert(
        engine_file(target),
        data,
    ));
}

/// An update that failed before the last step leaves every file as it was but
/// for the temporary one, and the session as it was.
pub proof fn law_failed_update_keeps_engine(
    states: Seq<UpdateState>,
    outcomes: Seq<Result<(), String>>,
    data: Seq<u8>,
    target: Target,
)
    requires
        is_update(states, outcomes, data, target),
        states.last().action is Failed,
        states[outcomes.len() - 1].action != UpdateAction::Perform(UpdateStep::Install),
    ensures
        states.last().files.remove(download_file(target)) == states[0].files.remove(
            download_file(target),
        ),
        states.last().updated == states[0].updated,
{
    let last = outcomes.len() - 1;
    lemma_files_during_update(states, outcomes, data, target, last);
    assert(is_update_step(states[last], states[last + 1], outcomes[last], data, target));
}

proof fn lemma_temporary_is_another_file(target: Target)
    ensures
        download_file(target) != engine_file(target),
{
    reveal_strlit(".download");
    assert(download_file(target).len() > engine_file(target).len());
}

/// What the engine directory holds before each step of an update.
proof fn lemma_files_during_update(
    states: Seq<UpdateState>,
    outcomes: Seq<Result<(), String>>,
    data: Seq<u8>,
    target: Target,
    i: int,
)
    requires
        is_update(states, outcomes, data, target),
        0 <= i < outcomes.len(),
    ensures
        states[i].updated == states[0].updated,
        states[i].action matches UpdateAction::Perform(step) && ({
            let first = states[0].files;
            let written = first.insert(download_file(target), data);
            match step {
                UpdateStep::SetPermissions | UpdateStep::RemoveOld => states[i].files == written,
                UpdateStep::Install => states[i].files == written || states[i].files
                    == written.remove(engine_file(target)),
                _ => states[i].files == first,
            }
        }),
    decreases i,
{
    assert(is_update_step(states[i], states[i + 1], outcomes[i], data, target));
    if i > 0 {
        lemma_files_during_update(states, outcomes, data, target, i - 1);
        assert(is_update_step(states[i - 1], states[i], outcomes[i - 1], data, target));
    }
}

} // verus!
