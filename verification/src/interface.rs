//! The command-runner interface model: the catalogue of commands, the
//! per-system filters with their all-flag, the output panel state, and the
//! pure decisions of the update loop. Drawing and process launching stay in
//! the shells around the library.

use vstd::prelude::*;
use crate::textscan::{chars_of, contains_seq, find_sub};

verus! {

/// The graphical privilege-elevation helpers a command may already invoke.
pub open spec fn has_sudo_wrapper(s: Seq<char>) -> bool {
    ||| contains_seq(s, "pkexec"@)
    ||| contains_seq(s, "kdesudo"@)
    ||| contains_seq(s, "gksudo"@)
    ||| contains_seq(s, "gksu"@)
}

/// Decides how a command that needs root is launched: an already-elevated
/// session or a command that already names an elevation helper runs as it
/// stands; otherwise the first available helper is prepended; with no
/// helper at hand the command is refused.
pub fn process_sudo_command(command: &String, is_root: bool, available_helper: &Option<String>)
    -> (r: Result<String, String>)
    ensures
        is_root ==> (r matches Ok(c) && c@ == command@),
        !is_root && has_sudo_wrapper(command@) ==> (r matches Ok(c) && c@ == command@),
        !is_root && !has_sudo_wrapper(command@) ==> match *available_helper {
            Some(helper) => r matches Ok(c) && c@ == helper@ + " "@ + command@,
            None => r is Err,
        },
{
    if is_root {
        return Ok(command.clone());
    }
    let chars = chars_of(command.as_str());
    let wrapped = find_sub(&chars, &chars_of("pkexec")).is_some() || find_sub(
        &chars,
        &chars_of("kdesudo"),
    ).is_some() || find_sub(&chars, &chars_of("gksudo")).is_some() || find_sub(
        &chars,
        &chars_of("gksu"),
    ).is_some();
    if wrapped {
        return Ok(command.clone());
    }
    match available_helper {
        Some(helper) => {
            let mut line = helper.clone();
            line.append(" ");
            line.append(command.as_str());
            Ok(line)
        },
        None => Err(
            String::from_str(
                "This command needs root privileges, but no graphical elevation helper is available; install pkexec, kdesudo or gksudo, or run it from a terminal with sudo.",
            ),
        ),
    }
}

/// Which operating system a command is meant for.
#[derive(Clone, Copy, Debug, PartialEq, Eq, Structural)]
pub enum System {
    Linux,
    Windows,
    MacOS,
    Any,
}

impl System {
    /// Whether a command for this system may run on the `current` one: the
    /// systems must agree, or the command runs anywhere.
    pub fn matches_current(&self, current: System) -> (r: bool)
        ensures
            r == (*self == System::Any || *self == current),
    {
        match self {
            System::Any => true,
            _ => *self == current,
        }
    }

    /// Every system, in display order.
    pub fn all() -> (r: Vec<System>)
        ensures
            r@ =~= seq![System::Linux, System::Windows, System::MacOS, System::Any],
    {
        let mut r: Vec<System> = Vec::new();
        r.push(System::Linux);
        r.push(System::Windows);
        r.push(System::MacOS);
        r.push(System::Any);
        r
    }
}

/// The pages of the interface.
#[derive(Clone, Copy, Debug, PartialEq, Eq, Structural)]
pub enum Page {
    Home,
    Redactor,
    Settings,
    About,
}

/// What the command editor is doing.
#[derive(Clone, Copy, Debug, PartialEq, Eq, Structural)]
pub enum RedactorMode {
    Create,
    Combine,
    Redact,
}

/// A value edited in one redactor field.
pub enum RedactorValue {
    Text(String),
    Int(i32),
    Flag(bool),
}

/// The regions of the window that mouse messages name.
#[derive(Clone, Copy, Debug, PartialEq, Eq, Structural)]
pub enum Section {
    Header,
    Main,
    Footer,
}

/// How a finished command ended.
#[derive(Clone, Debug)]
pub struct CommandResult {
    pub success: bool,
    pub exit_code: Option<i32>,
}

/// The command currently running.
#[derive(Clone, Debug)]
pub struct RunningCommand {
    pub command_index: usize,
    pub title: String,
    pub command: String,
}

/// One entry of the command catalogue.
#[derive(Clone, Debug)]
pub struct CommandInfo {
    pub title: String,
    pub command: String,
    pub system: System,
    pub default_command: bool,
    pub need_root: bool,
}

impl CommandInfo {
    /// A catalogue entry from its parts.
    pub fn new(title: &str, command: &str, system: System, default_command: bool, need_root: bool)
        -> (r: Self)
        ensures
            r.title@ == title@,
            r.command@ == command@,
            r.system == system,
            r.default_command == default_command,
            r.need_root == need_root,
    {
        Self {
            title: String::from_str(title),
            command: String::from_str(command),
            system,
            default_command,
            need_root,
        }
    }
}

/// Messages of the command editor.
#[derive(Clone, Debug)]
pub enum RedactorMessage {
    RedactorTitle(String),
    RedactorCommand(String),
    RedactorSetSystem(System),
    RedactorSetNeedRoot(bool),
    RedactorModeChanged(RedactorMode),
    RedactorAddCommand,
}

/// Messages of the interface loop.
#[derive(Clone, Debug)]
pub enum Message {
    MouseEnter(usize, Section),
    MouseLeave(Section),
    Pressed(usize, Section),
    ToggleSystem(System),
    ToggleAll,
    DeleteCommand(usize),
    RedactorMessage(RedactorMessage),
    ClearOutput,
    OutputCopy,
    CheckForNewOutput,
    CommandFinished(CommandResult),
}

/// The visibility filters, one per system, with the derived all-flag.
#[derive(Clone, Copy, Debug)]
pub struct AppSettings {
    pub show_linux: bool,
    pub show_windows: bool,
    pub show_macos: bool,
    pub show_another: bool,
    pub show_all: bool,
}

impl AppSettings {
    /// Whether commands for `system` pass the filters.
    pub open spec fn shows(self, system: System) -> bool {
        match system {
            System::Linux => self.show_linux,
            System::Windows => self.show_windows,
            System::MacOS => self.show_macos,
            System::Any => self.show_another,
        }
    }

    /// Flips the filter of one system, then rederives the all-flag: it is
    /// set exactly when every filter is on.
    pub fn toggle_system(&mut self, system: System)
        ensures
            final(self).shows(system) == !old(self).shows(system),
            forall|s: System| s != system ==> final(self).shows(s) == old(self).shows(s),
            final(self).show_all == (final(self).show_linux && final(self).show_windows
                && final(self).show_macos && final(self).show_another),
    {
        match system {
            System::Linux => {
                self.show_linux = !self.show_linux;
            },
            System::Windows => {
                self.show_windows = !self.show_windows;
            },
            System::MacOS => {
                self.show_macos = !self.show_macos;
            },
            System::Any => {
                self.show_another = !self.show_another;
            },
        }
        self.show_all = self.show_linux && self.show_windows && self.show_macos
            && self.show_another;
    }

    /// Turns every filter on when the all-flag is off, and every filter
    /// off when it is on.
    pub fn toggle_all(&mut self)
        ensures
            final(self).show_linux == !old(self).show_all,
            final(self).show_windows == !old(self).show_all,
            final(self).show_macos == !old(self).show_all,
            final(self).show_another == !old(self).show_all,
            final(self).show_all == !old(self).show_all,
    {
        let on = !self.show_all;
        self.show_linux = on;
        self.show_windows = on;
        self.show_macos = on;
        self.show_another = on;
        self.show_all = on;
    }
}

impl Default for AppSettings {
    /// Everything visible.
    fn default() -> (r: Self)
        ensures
            r.show_linux && r.show_windows && r.show_macos && r.show_another && r.show_all,
    {
        AppSettings {
            show_linux: true,
            show_windows: true,
            show_macos: true,
            show_another: true,
            show_all: true,
        }
    }
}

/// The persisted command catalogue.
#[derive(Clone, Debug)]
pub struct Config {
    pub commands: Vec<CommandInfo>,
}

impl Default for Config {
    /// The built-in catalogue.
    fn default() -> (r: Self)
        ensures
            r.commands@.len() == 41,
            forall|k: int| 0 <= k < r.commands@.len() ==> #[trigger] r.commands@[k].default_command,
    {
        Config { commands: get_default_commands() }
    }
}

/// The indices of the catalogue entries that pass the filters, in
/// catalogue order.
pub open spec fn filtered_indices(commands: Seq<CommandInfo>, settings: AppSettings, i: int) -> Seq<
    usize,
>
    decreases commands.len() - i,
{
    if i < 0 || i >= commands.len() {
        Seq::empty()
    } else if settings.shows(commands[i].system) {
        seq![i as usize] + filtered_indices(commands, settings, i + 1)
    } else {
        filtered_indices(commands, settings, i + 1)
    }
}

/// The catalogue entries that pass the filters, as indices in catalogue
/// order.
pub fn filtered_commands(commands: &Vec<CommandInfo>, settings: &AppSettings) -> (r: Vec<usize>)
    ensures
        r@ == filtered_indices(commands@, *settings, 0),
{
    let n = commands.len();
    let mut r: Vec<usize> = Vec::new();
    let mut i: usize = 0;
    proof {
        assert(r@ =~= Seq::<usize>::empty());
    }
    while i < n
        invariant
            n == commands@.len(),
            i <= n,
            filtered_indices(commands@, *settings, 0) == r@ + filtered_indices(
                commands@,
                *settings,
                i as int,
            ),
        decreases n - i,
    {
        let passes = match commands[i].system {
            System::Linux => settings.show_linux,
            System::Windows => settings.show_windows,
            System::MacOS => settings.show_macos,
            System::Any => settings.show_another,
        };
        let ghost prev = r@;
        if passes {
            r.push(i);
            proof {
                assert(r@ =~= prev + seq![i as usize]);
                assert(prev + seq![i as usize] + filtered_indices(commands@, *settings, i + 1)
                    =~= prev + (seq![i as usize] + filtered_indices(commands@, *settings, i + 1)));
            }
        }
        i = i + 1;
    }
    proof {
        assert(filtered_indices(commands@, *settings, i as int) =~= Seq::<usize>::empty());
        assert(r@ =~= r@ + Seq::<usize>::empty());
    }
    r
}

/// The page a header entry navigates to.
pub fn page_for_header_index(index: usize) -> (r: Option<Page>)
    ensures
        index == 0 ==> r == Some(Page::Home),
        index == 1 ==> r == Some(Page::Redactor),
        index == 2 ==> r == Some(Page::Settings),
        index == 3 ==> r == Some(Page::About),
        index > 3 ==> r is None,
{
    match index {
        0 => Some(Page::Home),
        1 => Some(Page::Redactor),
        2 => Some(Page::Settings),
        3 => Some(Page::About),
        _ => None,
    }
}

/// The editor's add-command decision: both fields must be non-empty, and
/// the new entry is appended as a user command. Reports whether an entry
/// was added.
pub fn redactor_add_command(
    commands: &mut Vec<CommandInfo>,
    title: &String,
    command: &String,
    system: System,
    need_root: bool,
) -> (r: bool)
    ensures
        r == (title@.len() > 0 && command@.len() > 0),
        !r ==> final(commands)@ == old(commands)@,
        r ==> {
            &&& final(commands)@.len() == old(commands)@.len() + 1
            &&& final(commands)@.subrange(0, old(commands)@.len() as int) == old(commands)@
            &&& final(commands)@.last().title@ == title@
            &&& final(commands)@.last().command@ == command@
            &&& final(commands)@.last().system == system
            &&& !final(commands)@.last().default_command
            &&& final(commands)@.last().need_root == need_root
        },
{
    if title.as_str().is_empty() || command.as_str().is_empty() {
        return false;
    }
    let ghost prev = commands@;
    let entry = CommandInfo::new(title.as_str(), command.as_str(), system, false, need_root);
    commands.push(entry);
    proof {
        assert(commands@.subrange(0, prev.len() as int) =~= prev);
    }
    true
}

/// A command may be deleted only when it exists and is not built in; a
/// deletion closes the gap, keeping the order of the rest.
pub fn delete_command(commands: &mut Vec<CommandInfo>, index: usize) -> (r: bool)
    ensures
        r == (index < old(commands)@.len() && !old(commands)@[index as int].default_command),
        !r ==> final(commands)@ == old(commands)@,
        r ==> final(commands)@ == old(commands)@.remove(index as int),
{
    if index < commands.len() && !commands[index].default_command {
        commands.remove(index);
        true
    } else {
        false
    }
}

/// The text shown in the output panel.
#[derive(Debug, Default)]
pub struct OutputState {
    pub content: String,
}

impl OutputState {
    /// An empty panel.
    pub fn new() -> (r: Self)
        ensures
            r.content@.len() == 0,
    {
        Self { content: String::new() }
    }

    /// Replaces the panel text.
    pub fn set_text(&mut self, text: &str)
        ensures
            final(self).content@ == text@,
    {
        self.content = String::from_str(text);
    }

    /// Empties the panel.
    pub fn clear(&mut self)
        ensures
            final(self).content@.len() == 0,
    {
        self.content = String::new();
    }

    /// The panel text.
    pub fn get_text(&self) -> (r: &str)
        ensures
            r@ == self.content@,
    {
        self.content.as_str()
    }

    /// Appends to the panel text.
    pub fn append_text(&mut self, text: &str)
        ensures
            final(self).content@ == old(self).content@ + text@,
    {
        self.content.append(text);
    }
}

/// The navigation bar state.
#[derive(Clone, Debug)]
pub struct Header {
    pub hovered_index: Option<usize>,
}

impl Default for Header {
    /// Nothing hovered.
    fn default() -> (r: Self)
        ensures
            r.hovered_index is None,
    {
        Header { hovered_index: None }
    }
}

/// The footer state: its word list and what is hovered.
pub struct Footer {
    pub words: Vec<String>,
    pub hovered_index: Option<usize>,
}

impl Default for Footer {
    /// The three footer words, nothing hovered.
    fn default() -> (r: Self)
        ensures
            r.words.deep_view() =~= seq!["Privacy"@, "Terms"@, "Copyright"@],
            r.hovered_index is None,
    {
        let mut words: Vec<String> = Vec::new();
        words.push(String::from_str("Privacy"));
        words.push(String::from_str("Terms"));
        words.push(String::from_str("Copyright"));
        Footer { words, hovered_index: None }
    }
}

/// The built-in command catalogue.
pub fn get_default_commands() -> (r: Vec<CommandInfo>)
    ensures
        r@.len() == 41,
        forall|k: int| 0 <= k < r@.len() ==> #[trigger] r@[k].default_command,
{
    let mut r: Vec<CommandInfo> = Vec::new();
    r.push(CommandInfo::new("Create test file", "touch testfile.txt", System::Linux, true, false));
    r.push(CommandInfo::new("List directory", "ls -la", System::Linux, true, false));
    r.push(CommandInfo::new("Show current path", "pwd", System::Linux, true, false));
    r.push(CommandInfo::new("Create directory", "mkdir new_folder", System::Linux, true, false));
    r.push(CommandInfo::new("System info", "uname -a", System::Linux, true, false));
    r.push(CommandInfo::new("Update packages", "apt update", System::Linux, true, false));
    r.push(
        CommandInfo::new("Install package", "apt install package-name", System::Linux, true, false),
    );
    r.push(CommandInfo::new("Check disk space", "df -h", System::Linux, true, false));
    r.push(CommandInfo::new("Process list", "ps aux", System::Linux, true, false));
    r.push(CommandInfo::new("Network info", "ifconfig", System::Linux, true, false));
    r.push(CommandInfo::new("Windows dir", "dir", System::Windows, true, false));
    r.push(CommandInfo::new("Windows system info", "systeminfo", System::Windows, true, false));
    r.push(CommandInfo::new("IP configuration", "ipconfig", System::Windows, true, false));
    r.push(CommandInfo::new("Network stats", "netstat", System::Windows, true, false));
    r.push(CommandInfo::new("Task list", "tasklist", System::Windows, true, false));
    r.push(CommandInfo::new("Service list", "sc query", System::Windows, true, false));
    r.push(CommandInfo::new("MacOS list", "ls -la", System::MacOS, true, false));
    r.push(
        CommandInfo::new(
            "MacOS system info",
            "system_profiler SPSoftwareDataType",
            System::MacOS,
            true,
            false,
        ),
    );
    r.push(CommandInfo::new("Brew update", "brew update", System::MacOS, true, false));
    r.push(CommandInfo::new("Git status", "git status", System::Any, true, false));
    r.push(CommandInfo::new("Git log", "git log --oneline", System::Any, true, false));
    r.push(CommandInfo::new("Docker ps", "docker ps", System::Any, true, false));
    r.push(CommandInfo::new("Node version", "node --version", System::Any, true, false));
    r.push(
        CommandInfo::new("Update System", "apt update && apt upgrade -y", System::Linux, true, false),
    );
    r.push(CommandInfo::new("Clean Package Cache", "apt clean", System::Linux, true, false));
    r.push(CommandInfo::new("View System Logs", "journalctl -f", System::Linux, true, false));
    r.push(
        CommandInfo::new(
            "List Services",
            "systemctl list-units --type=service",
            System::Linux,
            true,
            false,
        ),
    );
    r.push(
        CommandInfo::new(
            "Restart Network",
            "systemctl restart networking",
            System::Linux,
            true,
            false,
        ),
    );
    r.push(CommandInfo::new("Check Disk Space", "df -h", System::Linux, true, false));
    r.push(CommandInfo::new("Python version", "python --version", System::Any, true, false));
    r.push(CommandInfo::new("Pip list", "pip list", System::Any, true, false));
    r.push(CommandInfo::new("Rust version", "rustc --version", System::Any, true, false));
    r.push(CommandInfo::new("Cargo build", "cargo build", System::Any, true, false));
    r.push(CommandInfo::new("NPM version", "npm --version", System::Any, true, false));
    r.push(CommandInfo::new("Date and time", "date", System::Any, true, false));
    r.push(CommandInfo::new("Calendar", "cal", System::Linux, true, false));
    r.push(CommandInfo::new("Memory usage", "free -h", System::Linux, true, false));
    r.push(CommandInfo::new("CPU info", "lscpu", System::Linux, true, false));
    r.push(CommandInfo::new("Environment variables", "env", System::Any, true, false));
    r.push(CommandInfo::new("Current user", "whoami", System::Any, true, false));
    r.push(CommandInfo::new("System uptime", "uptime", System::Linux, true, false));
    r
}

} // verus!
