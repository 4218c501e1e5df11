//! Launch at login through a LaunchAgent (`~/Library/LaunchAgents`): the
//! agent's plist, its path, and the steps that enable or disable it.
use vstd::prelude::*;

use crate::config::user_home_dir;
use crate::text::{join_path, owned, path_join, push_str, string_of};

verus! {

pub const LAUNCH_AGENT_LABEL: &'static str = "com.ainv-helper";

/// The plist text before the executable's path.
pub const PLIST_HEAD: &'static str = "<?xml version=\"1.0\" encoding=\"UTF-8\"?>
<!DOCTYPE plist PUBLIC \"-//Apple//DTD PLIST 1.0//EN\" \"http://www.apple.com/DTDs/PropertyList-1.0.dtd\">
<plist version=\"1.0\">
<dict>
    <key>Label</key>
    <string>com.ainv-helper</string>
    <key>ProgramArguments</key>
    <array>
        <string>";

/// The plist text after the executable's path.
pub const PLIST_TAIL: &'static str = "</string>
    </array>
    <key>RunAtLoad</key>
    <true/>
    <key>KeepAlive</key>
    <false/>
    <key>ProcessType</key>
    <string>Interactive</string>
</dict>
</plist>
";

/// The LaunchAgent plist that starts `executable` at login.
pub open spec fn plist_text(executable: Seq<char>) -> Seq<char> {
    PLIST_HEAD@ + executable + PLIST_TAIL@
}

/// The LaunchAgent plist that starts `executable` at login.
pub fn build_plist(executable: &str) -> (r: String)
    ensures
        r@ == plist_text(executable@),
{
    let mut out: Vec<char> = Vec::new();
    push_str(&mut out, PLIST_HEAD);
    push_str(&mut out, executable);
    push_str(&mut out, PLIST_TAIL);
    string_of(&out)
}

/// The agent's plist in the home directory `home`.
pub open spec fn agent_plist_path(home: Seq<char>) -> Seq<char> {
    path_join(path_join(home, "Library/LaunchAgents"@), "com.ainv-helper.plist"@)
}

/// The agent's plist in the home directory `home`.
pub fn launch_agent_path_in(home: &str) -> (r: String)
    ensures
        r@ == agent_plist_path(home@),
{
    let dir = join_path(home, "Library/LaunchAgents");
    join_path(dir.as_str(), "com.ainv-helper.plist")
}

/// The agent's plist; `None` when the home directory is unknown.
pub fn launch_agent_path() -> (r: Option<String>)
    ensures
        r matches Some(p) ==> exists|home: Seq<char>| p@ == agent_plist_path(home),
{
    match user_home_dir() {
        Some(h) => Some(launch_agent_path_in(h.as_str())),
        None => None,
    }
}

/// The executable inside an `.app` bundle.
pub open spec fn bundle_executable_path(bundle: Seq<char>) -> Seq<char> {
    path_join(bundle, "Contents/MacOS/ainv-helper"@)
}

/// Why launch at login could not be switched.
#[derive(Debug, Clone)]
pub enum AutostartError {
    /// Neither a bundle was given nor does the application run from one.
    NoBundle,
    /// The bundle holds no executable at the expected path.
    ExecutableMissing(String),
    /// The plist path has no parent directory.
    NoAgentsDir,
}

impl AutostartError {
    /// The error's message.
    pub fn message(&self) -> (r: String)
        ensures
            r@ == match self {
                AutostartError::NoBundle => "autostart requires running from a .app bundle"@,
                AutostartError::ExecutableMissing(p) => "executable not found at "@ + p@
                    + " — build the .app bundle first"@,
                AutostartError::NoAgentsDir => "LaunchAgents parent"@,
            },
    {
        match self {
            AutostartError::NoBundle => owned("autostart requires running from a .app bundle"),
            AutostartError::ExecutableMissing(p) => {
                let mut out: Vec<char> = Vec::new();
                push_str(&mut out, "executable not found at ");
                push_str(&mut out, p.as_str());
                push_str(&mut out, " — build the .app bundle first");
                string_of(&out)
            },
            AutostartError::NoAgentsDir => owned("LaunchAgents parent"),
        }
    }
}

/// The executable that the agent starts: in the given bundle, else in the
/// bundle the application runs from.
pub fn executable_for(app_bundle: Option<&str>, current_bundle: Option<&str>) -> (r: Result<
    String,
    AutostartError,
>)
    ensures
        match (app_bundle, current_bundle) {
            (Some(b), _) => r matches Ok(e) && e@ == bundle_executable_path(b@),
            (None, Some(b)) => r matches Ok(e) && e@ == bundle_executable_path(b@),
            (None, None) => r matches Err(e) && e is NoBundle,
        },
{
    let bundle = match app_bundle {
        Some(b) => b,
        None => match current_bundle {
            Some(b) => b,
            None => {
                return Err(AutostartError::NoBundle);
            },
        },
    };
    Ok(join_path(bundle, "Contents/MacOS/ainv-helper"))
}

/// One step of switching launch at login.
#[derive(Debug, Clone)]
pub enum AutostartStep {
    /// Create the directory (and its parents).
    CreateDir(String),
    /// Write the plist file.
    WritePlist { path: String, contents: String },
    /// `launchctl load -w <plist>`; a non-zero status is only worth a warning.
    Load(String),
    /// `launchctl unload -w <plist>`, whatever its outcome.
    Unload(String),
    /// Remove the plist file.
    RemovePlist(String),
}

/// How a step ended: done, failed, or (for `launchctl`) not started at all.
#[derive(Debug, Clone, Copy, PartialEq, Eq, Structural)]
pub enum StepResult {
    Done,
    Failed,
    NotStarted,
}

/// What follows a step.
#[derive(Debug, Clone, Copy, PartialEq, Eq, Structural)]
pub enum StepOutcome {
    /// Go on with the next step.
    Continue,
    /// Warn, then go on.
    Warn,
    /// Stop with the step's error.
    Stop,
}

/// What follows a step that ended with `result`: the outcome of an unload
/// is ignored; a load that ran with a non-zero status is only worth a
/// warning, one that could not be started stops; any other step stops
/// unless it was done.
pub fn after_step(step: &AutostartStep, result: StepResult) -> (r: StepOutcome)
    ensures
        r == match *step {
            AutostartStep::Unload(_) => StepOutcome::Continue,
            AutostartStep::Load(_) => match result {
                StepResult::Done => StepOutcome::Continue,
                StepResult::Failed => StepOutcome::Warn,
                StepResult::NotStarted => StepOutcome::Stop,
            },
            _ => if result == StepResult::Done {
                StepOutcome::Continue
            } else {
                StepOutcome::Stop
            },
        },
{
    match step {
        AutostartStep::Unload(_) => StepOutcome::Continue,
        AutostartStep::Load(_) => match result {
            StepResult::Done => StepOutcome::Continue,
            StepResult::Failed => StepOutcome::Warn,
            StepResult::NotStarted => StepOutcome::Stop,
        },
        _ => match result {
            StepResult::Done => StepOutcome::Continue,
            _ => StepOutcome::Stop,
        },
    }
}

/// The files that exist once `steps` have run on a system where `files`
/// existed: a created directory and a written plist exist afterwards, a
/// removed plist does not; loading and unloading change no file.
pub open spec fn files_after(files: Set<Seq<char>>, steps: Seq<AutostartStep>) -> Set<Seq<char>>
    decreases steps.len(),
{
    if steps.len() == 0 {
        files
    } else {
        let before = files_after(files, steps.drop_last());
        match steps.last() {
            AutostartStep::CreateDir(d) => before.insert(d@),
            AutostartStep::WritePlist { path, contents: _ } => before.insert(path@),
            AutostartStep::RemovePlist(p) => before.remove(p@),
            _ => before,
        }
    }
}

/// The steps that switch launch at login on or off.
///
/// On: the executable must exist; then the agents directory (`agents_dir`,
/// the plist's parent) is created, the plist written and loaded. Off: an
/// existing plist is unloaded and removed; without one there is nothing to do.
pub fn set_enabled(
    enabled: bool,
    executable: &str,
    executable_exists: bool,
    plist_path: &str,
    agents_dir: Option<&str>,
    plist_exists: bool,
) -> (r: Result<Vec<AutostartStep>, AutostartError>)
    ensures
        enabled && !executable_exists ==> (r matches Err(AutostartError::ExecutableMissing(p))
            && p@ == executable@),
        enabled && executable_exists && agents_dir is None ==> (r matches Err(e)
            && e is NoAgentsDir),
        enabled && executable_exists && agents_dir is Some ==> (r matches Ok(steps) && steps@.len()
            == 3 && (steps@[0] matches AutostartStep::CreateDir(d) && d@ == agents_dir->0@) && (
        steps@[1] matches AutostartStep::WritePlist { path, contents } && path@ == plist_path@
            && contents@ == plist_text(executable@)) && (steps@[2] matches AutostartStep::Load(p)
            && p@ == plist_path@)),
        !enabled && plist_exists ==> (r matches Ok(steps) && steps@.len() == 2 && (
        steps@[0] matches AutostartStep::Unload(p) && p@ == plist_path@) && (
        steps@[1] matches AutostartStep::RemovePlist(p) && p@ == plist_path@)),
        !enabled && !plist_exists ==> (r matches Ok(steps) && steps@.len() == 0),
        r matches Ok(steps) ==> forall|files: Set<Seq<char>>|
            files.contains(plist_path@) == plist_exists ==> #[trigger] files_after(
                files,
                steps@,
            ).contains(plist_path@) == enabled,
{
    let mut steps: Vec<AutostartStep> = Vec::new();
    if enabled {
        if !executable_exists {
            return Err(AutostartError::ExecutableMissing(owned(executable)));
        }
        let dir = match agents_dir {
            Some(d) => d,
            None => {
                return Err(AutostartError::NoAgentsDir);
            },
        };
        steps.push(AutostartStep::CreateDir(owned(dir)));
        steps.push(
            AutostartStep::WritePlist { path: owned(plist_path), contents: build_plist(executable) },
        );
        steps.push(AutostartStep::Load(owned(plist_path)));
    } else if plist_exists {
        steps.push(AutostartStep::Unload(owned(plist_path)));
        steps.push(AutostartStep::RemovePlist(owned(plist_path)));
    }
    proof {
        assert forall|files: Set<Seq<char>>|
            files.contains(plist_path@) == plist_exists implies #[trigger] files_after(
                files,
                steps@,
            ).contains(plist_path@) == enabled by {
            let s = steps@;
            if s.len() == 3 {
                assert(s.drop_last().drop_last().drop_last().len() == 0);
                assert(s.drop_last().drop_last().last() == s[0]);
                assert(s.drop_last().last() == s[1]);
                assert(files_after(files, s.drop_last()).contains(plist_path@));
            } else if s.len() == 2 {
                assert(s.drop_last().drop_last().len() == 0);
                assert(s.drop_last().last() == s[0]);
                assert(!files_after(files, s).contains(plist_path@));
            }
        }
    }
    Ok(steps)
}

/// Whether launch at login is switched on at launch: only when it is not
/// on yet and the application runs from an `.app` bundle.
pub fn register_on_first_launch(is_enabled: bool, in_bundle: bool) -> (r: bool)
    ensures
        r == (!is_enabled && in_bundle),
{
    !is_enabled && in_bundle
}

} // verus!
