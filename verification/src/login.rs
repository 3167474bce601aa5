//! Starting at login: the file that asks for it.
use vstd::prelude::*;
use vstd::string::StringExecFns;

use crate::escape;
use crate::escape::xml_escape;
use crate::number;
use crate::number::push_decimal;
use crate::path;
use crate::path::join_path;

verus! {

pub const LAUNCH_AGENT_LABEL: &'static str = "com.evren.nosleeptilldone.menubar";

pub const LEGACY_LAUNCH_AGENT_LABEL: &'static str = "com.evren.lidsleep-delay-menubar";

/// The item of the menu.
pub fn start_at_login_text(enabled: bool) -> (r: &'static str)
    ensures
        r@ == (if enabled {
            "Start at Login: On"@
        } else {
            "Start at Login: Off"@
        }),
{
    if enabled {
        "Start at Login: On"
    } else {
        "Start at Login: Off"
    }
}

/// The file that asks for a start at login.
pub open spec fn agent_file(home: Option<Seq<char>>, label: Seq<char>) -> Seq<char> {
    let base = match home {
        Some(dir) => dir,
        None => "."@,
    };
    path::joined(path::joined(path::joined(base, "Library"@), "LaunchAgents"@), label + ".plist"@)
}

pub fn launch_agent_path_for(home: Option<&str>, label: &str) -> (r: String)
    ensures
        r@ == agent_file(
            match home {
                Some(dir) => Some(dir@),
                None => None,
            },
            label@,
        ),
{
    let base = match home {
        Some(dir) => dir,
        None => ".",
    };
    let library = join_path(base, "Library");
    let agents = join_path(library.as_str(), "LaunchAgents");
    let mut name = label.to_owned();
    name.append(".plist");
    join_path(agents.as_str(), name.as_str())
}

/// The file that asks for a start at login, under the present label.
pub fn launch_agent_path(home: Option<&str>) -> (r: String)
    ensures
        r@ == agent_file(
            match home {
                Some(dir) => Some(dir@),
                None => None,
            },
            LAUNCH_AGENT_LABEL@,
        ),
{
    launch_agent_path_for(home, LAUNCH_AGENT_LABEL)
}

/// What is done about the start at login.
#[derive(Clone, Copy, Debug, Eq, PartialEq, Structural)]
pub enum LoginChange {
    Enable,
    Disable,
}

/// What choosing the item of the menu does.
pub fn toggle_start_at_login(enabled: bool) -> (r: LoginChange)
    ensures
        r == (if enabled {
            LoginChange::Disable
        } else {
            LoginChange::Enable
        }),
        r == login_change(enabled),
{
    if enabled {
        LoginChange::Disable
    } else {
        LoginChange::Enable
    }
}

/// Whether a start at login under the former label is moved to the present one.
pub fn migrates_legacy_login(legacy_is_file: bool, current_is_file: bool) -> (r: bool)
    ensures
        r == (legacy_is_file && !current_is_file),
        r == login_is_moved(legacy_is_file, current_is_file),
{
    legacy_is_file && !current_is_file
}

/// The session of a user, as the service manager names it.
pub open spec fn session_of(user: u32) -> Seq<char> {
    "gui/"@ + number::decimal(user as nat)
}

pub fn launchctl_target(user: u32) -> (r: String)
    ensures
        r@ == session_of(user),
{
    let mut r = "gui/".to_owned();
    push_decimal(&mut r, user as u128);
    r
}

/// A service in the session of a user, as the service manager names it.
pub fn session_service(user: u32, label: &str) -> (r: String)
    ensures
        r@ == session_of(user) + "/"@ + label@,
{
    let mut r = launchctl_target(user);
    r.append("/");
    r.append(label);
    r
}

/// The file's part before the path of the executable.
pub const PLIST_HEAD: &'static str = "<?xml version=\"1.0\" encoding=\"UTF-8\"?>
<!DOCTYPE plist PUBLIC \"-//Apple//DTD PLIST 1.0//EN\"
  \"http://www.apple.com/DTDs/PropertyList-1.0.dtd\">
<plist version=\"1.0\">
<dict>
  <key>Label</key>
  <string>com.evren.nosleeptilldone.menubar</string>

  <key>ProgramArguments</key>
  <array>
    <string>";

/// The file's part after the path of the executable.
pub const PLIST_TAIL: &'static str = "</string>
  </array>

  <key>RunAtLoad</key>
  <true/>

  <key>KeepAlive</key>
  <dict>
    <key>SuccessfulExit</key>
    <false/>
  </dict>

  <key>StandardOutPath</key>
  <string>/tmp/no-sleep-till-done-menubar.log</string>

  <key>StandardErrorPath</key>
  <string>/tmp/no-sleep-till-done-menubar.log</string>
</dict>
</plist>
";

/// The text of the file that asks for a start of an executable at login.
pub open spec fn plist_for(executable: Seq<char>) -> Seq<char> {
    PLIST_HEAD@ + escape::xml_text(executable) + PLIST_TAIL@
}

/// What is done about the start at login when the item of the menu is chosen.
pub open spec fn login_change(enabled: bool) -> LoginChange {
    if enabled {
        LoginChange::Disable
    } else {
        LoginChange::Enable
    }
}

/// A start at login under the former label is moved to the present one.
pub open spec fn login_is_moved(legacy_is_file: bool, current_is_file: bool) -> bool {
    legacy_is_file && !current_is_file
}

/// The file that asks for a start of an executable at login.
pub fn launch_agent_plist(executable: &str) -> (r: String)
    ensures
        r@ == PLIST_HEAD@ + escape::xml_text(executable@) + PLIST_TAIL@,
        r@ == plist_for(executable@),
{
    let mut r = PLIST_HEAD.to_owned();
    let name = xml_escape(executable);
    r.append(name.as_str());
    r.append(PLIST_TAIL);
    r
}

/// The file stands among the user's own agents, under its label.
pub proof fn agent_stands_in_the_library(home: Seq<char>, label: Seq<char>)
    requires
        home.len() > 0,
        home.last() != '/',
        label.len() > 0,
        label[0] != '/',
    ensures
        agent_file(Some(home), label) == home + "/Library/LaunchAgents/"@ + label + ".plist"@,
        agent_file(None, label) == "./Library/LaunchAgents/"@ + label + ".plist"@,
{
    reveal_strlit("/");
    reveal_strlit(".");
    reveal_strlit("Library");
    reveal_strlit("LaunchAgents");
    reveal_strlit(".plist");
    reveal_strlit("/Library/LaunchAgents/");
    reveal_strlit("./Library/LaunchAgents/");
    lemma_agent(home, label);
    lemma_agent("."@, label);
    assert("."@ + "/Library/LaunchAgents/"@ =~= "./Library/LaunchAgents/"@);
}

proof fn lemma_agent(base: Seq<char>, label: Seq<char>)
    requires
        base.len() > 0,
        base.last() != '/',
        label.len() > 0,
        label[0] != '/',
    ensures
        path::joined(path::joined(path::joined(base, "Library"@), "LaunchAgents"@), label + ".plist"@) == base
            + "/Library/LaunchAgents/"@ + label + ".plist"@,
{
    reveal_strlit("/");
    reveal_strlit("Library");
    reveal_strlit("LaunchAgents");
    reveal_strlit(".plist");
    reveal_strlit("/Library/LaunchAgents/");
    let library = path::joined(base, "Library"@);
    assert(library.last() == 'y');
    let agents = path::joined(library, "LaunchAgents"@);
    assert(agents.last() == 's');
    assert(path::joined(agents, label + ".plist"@) =~= base + "/Library/LaunchAgents/"@ + label + ".plist"@);
}

/// Read as XML, the file names the executable, whatever is in its path, between
/// what always stands before it and after it.
pub proof fn agent_starts_the_executable(executable: Seq<char>)
    ensures
        ({
            let inner = plist_for(executable).subrange(
                PLIST_HEAD@.len() as int,
                plist_for(executable).len() - PLIST_TAIL@.len(),
            );
            &&& plist_for(executable).len() >= PLIST_HEAD@.len() + PLIST_TAIL@.len()
            &&& escape::xml_reads(inner) == executable
            &&& plist_for(executable).take(PLIST_HEAD@.len() as int) == PLIST_HEAD@
            &&& plist_for(executable).skip(plist_for(executable).len() - PLIST_TAIL@.len()) == PLIST_TAIL@
        }),
{
    let all = plist_for(executable);
    let name = escape::xml_text(executable);
    escape::xml_reads_back(executable);
    assert(all.subrange(PLIST_HEAD@.len() as int, all.len() - PLIST_TAIL@.len()) =~= name);
    assert(all.take(PLIST_HEAD@.len() as int) =~= PLIST_HEAD@);
    assert(all.skip(all.len() - PLIST_TAIL@.len()) =~= PLIST_TAIL@);
}

/// Choosing the item changes the start at login to what it was not. A start under
/// the former label is moved once: where there is none under the present one.
pub proof fn login_is_toggled_and_moved(enabled: bool)
    ensures
        login_change(enabled) == LoginChange::Disable <==> enabled,
        login_change(!enabled) != login_change(enabled),
        login_is_moved(true, false),
        !login_is_moved(true, true),
        !login_is_moved(false, enabled),
{
}

/// The session of a user is named by the user's number.
pub proof fn session_is_named_by_the_user(user: u32)
    ensures
        session_of(user).take(4) == seq!['g', 'u', 'i', '/'],
        number::parse_decimal(session_of(user).skip(4), u32::MAX as nat) == Some(user as nat),
{
    reveal_strlit("gui/");
    number::decimal_reads_back(user as nat, u32::MAX as nat);
    assert(session_of(user).take(4) =~= seq!['g', 'u', 'i', '/']);
    assert(session_of(user).skip(4) =~= number::decimal(user as nat));
}

} // verus!
