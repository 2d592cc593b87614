use vstd::prelude::*;

verus! {

/// Shells for which completion scripts were once generated.
#[derive(Copy, Clone, Debug, PartialEq, Eq, Structural)]
pub enum Shell {
    Powershell,
    Bash,
    Zsh,
    Fish,
}

/// Switches that change how a node of the definition tree is matched.
#[derive(Copy, Clone, Debug, PartialEq, Eq, Structural)]
pub enum AppSettings {
    /// Matching a node fails unless one of its subcommands was given.
    SubcommandRequired,
    /// Values of global arguments matched above a subcommand are copied into its result.
    PropagateGlobalValuesDown,
    /// A repeated argument that forbids repetition replaces its earlier occurrence.
    AllArgsOverrideSelf,
    /// The first token is an ordinary argument, not the program's name.
    NoBinaryName,
    /// No `--help` / `-h` flag is added to the node.
    DisableHelpFlags,
    /// No `--version` / `-V` flag is added to the node.
    DisableVersion,
    /// No `help` subcommand is added to a node that has subcommands.
    DisableHelpSubcommand,
    /// Subcommands inherit their parent's version string.
    GlobalVersion,
    /// Subcommands get no `--version` flag.
    VersionlessSubcommands,
    /// The caller waits for a key press after printing an error.
    WaitOnError,
}

/// Whether `s` holds `x`.
pub open spec fn has_setting(s: Seq<AppSettings>, x: AppSettings) -> bool {
    s.contains(x)
}

/// The setting spelt `s`, by its variant name.
pub open spec fn setting_named(s: Seq<char>) -> Option<AppSettings> {
    if s == "SubcommandRequired"@ {
        Some(AppSettings::SubcommandRequired)
    } else if s == "PropagateGlobalValuesDown"@ {
        Some(AppSettings::PropagateGlobalValuesDown)
    } else if s == "AllArgsOverrideSelf"@ {
        Some(AppSettings::AllArgsOverrideSelf)
    } else if s == "NoBinaryName"@ {
        Some(AppSettings::NoBinaryName)
    } else if s == "DisableHelpFlags"@ {
        Some(AppSettings::DisableHelpFlags)
    } else if s == "DisableVersion"@ {
        Some(AppSettings::DisableVersion)
    } else if s == "DisableHelpSubcommand"@ {
        Some(AppSettings::DisableHelpSubcommand)
    } else if s == "GlobalVersion"@ {
        Some(AppSettings::GlobalVersion)
    } else if s == "VersionlessSubcommands"@ {
        Some(AppSettings::VersionlessSubcommands)
    } else if s == "WaitOnError"@ {
        Some(AppSettings::WaitOnError)
    } else {
        None
    }
}

impl AppSettings {
    /// The setting spelt `s`, by its variant name.
    pub fn from_name(s: &str) -> (r: Option<AppSettings>)
        ensures
            r == setting_named(s@),
    {
        let t = s.to_owned();
        if t == "SubcommandRequired".to_owned() {
            return Some(AppSettings::SubcommandRequired);
        }
        if t == "PropagateGlobalValuesDown".to_owned() {
            return Some(AppSettings::PropagateGlobalValuesDown);
        }
        if t == "AllArgsOverrideSelf".to_owned() {
            return Some(AppSettings::AllArgsOverrideSelf);
        }
        if t == "NoBinaryName".to_owned() {
            return Some(AppSettings::NoBinaryName);
        }
        if t == "DisableHelpFlags".to_owned() {
            return Some(AppSettings::DisableHelpFlags);
        }
        if t == "DisableVersion".to_owned() {
            return Some(AppSettings::DisableVersion);
        }
        if t == "DisableHelpSubcommand".to_owned() {
            return Some(AppSettings::DisableHelpSubcommand);
        }
        if t == "GlobalVersion".to_owned() {
            return Some(AppSettings::GlobalVersion);
        }
        if t == "VersionlessSubcommands".to_owned() {
            return Some(AppSettings::VersionlessSubcommands);
        }
        if t == "WaitOnError".to_owned() {
            return Some(AppSettings::WaitOnError);
        }
        None
    }
}

/// Searches a list of settings for one setting.
pub fn contains_setting(s: &Vec<AppSettings>, x: AppSettings) -> (r: bool)
    ensures
        r == has_setting(s@, x),
{
    let mut i: usize = 0;
    while i < s.len()
        invariant
            i <= s.len(),
            forall|j: int| 0 <= j < i ==> s@[j] != x,
        decreases s.len() - i,
    {
        if s[i] == x {
            return true;
        }
        i += 1;
    }
    false
}

} // verus!
