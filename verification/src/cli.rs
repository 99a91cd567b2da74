//! The command line, once it has been parsed.

use vstd::prelude::*;
use vstd::string::StringExecFns;
use crate::event::opt_text;
use crate::strings::{decimal_text, push_decimal};

verus! {

/// What the program is asked to do.
#[derive(Debug, Clone, PartialEq, Eq)]
pub enum RecliCommands {
    /// Start capturing a terminal session.
    Start,
    /// Stop the session that is being captured.
    Stop,
    /// Show whether a session is being captured.
    Status,
    /// Show the most recent commands.
    Recent { count: usize },
    /// Clear the command history.
    Clear,
    /// Check stored logs; `path` is a session's directory or the directory
    /// of all logs.
    Validate { path: Option<String> },
    /// Show the configuration in effect.
    Config,
}

/// The parsed command line.
#[derive(Debug, Clone, PartialEq, Eq)]
pub struct Cli {
    /// Whether to say what is being done.
    pub verbose: bool,
    /// The path of the configuration file.
    pub config: Option<String>,
    /// The shell to run.
    pub shell: Option<String>,
    pub command: RecliCommands,
}

/// The shell that is run when nothing names one.
pub open spec fn default_shell() -> Seq<char> {
    "/bin/bash"@
}

/// The shell to run: the one named on the command line, else the one the
/// environment names, else the default.
pub open spec fn chosen_shell(named: Option<Seq<char>>, env_shell: Option<Seq<char>>) -> Seq<
    char,
> {
    match named {
        Some(s) => s,
        None => match env_shell {
            Some(s) => s,
            None => default_shell(),
        },
    }
}

/// What is said at startup, in verbose mode.
pub open spec fn startup_text(config: Option<Seq<char>>, shell: Seq<char>) -> Seq<char> {
    "Recli CLI Enhancer Starting...\n  Verbose mode: enabled\n  Config file: "@ + (match config {
        Some(c) => c,
        None => "None"@,
    }) + "\n  Shell: "@ + shell + "\nStarting PTY session..."@
}

/// What is said, in verbose mode, before a command is carried out.
pub open spec fn announcement_text(command: RecliCommands) -> Option<Seq<char>> {
    match command {
        RecliCommands::Start => Some("Starting recli session..."@),
        RecliCommands::Stop => Some("Stopping recli session..."@),
        RecliCommands::Status => Some("Checking recli status..."@),
        RecliCommands::Recent { count } => Some(
            "Showing "@ + decimal_text(count as nat) + " recent commands..."@,
        ),
        RecliCommands::Clear => Some("Clearing command history..."@),
        RecliCommands::Validate { path } => Some("Validating logs against schema..."@),
        RecliCommands::Config => None,
    }
}

impl Cli {
    /// The shell to run. `env_shell` is the shell that the environment
    /// names, if it names one.
    pub fn get_shell(&self, env_shell: Option<String>) -> (shell: String)
        ensures
            shell@ == chosen_shell(opt_text(self.shell), opt_text(env_shell)),
    {
        match &self.shell {
            Some(s) => s.clone(),
            None => match env_shell {
                Some(s) => s,
                None => String::from_str("/bin/bash"),
            },
        }
    }

    /// What to say at startup: nothing unless in verbose mode.
    pub fn startup_info(&self, shell: &str) -> (text: Option<String>)
        ensures
            opt_text(text) == (if self.verbose {
                Some(startup_text(opt_text(self.config), shell@))
            } else {
                None
            }),
    {
        if !self.verbose {
            return None;
        }
        let mut text: String = String::from_str(
            "Recli CLI Enhancer Starting...\n  Verbose mode: enabled\n  Config file: ",
        );
        match &self.config {
            Some(c) => {
                text.append(c.as_str());
            },
            None => {
                text.append("None");
            },
        }
        text.append("\n  Shell: ");
        text.append(shell);
        text.append("\nStarting PTY session...");
        Some(text)
    }

    /// What to say before the command is carried out: nothing unless in
    /// verbose mode, and nothing for showing the configuration.
    pub fn announcement(&self) -> (text: Option<String>)
        ensures
            opt_text(text) == (if self.verbose {
                announcement_text(self.command)
            } else {
                None
            }),
    {
        if !self.verbose {
            return None;
        }
        match &self.command {
            RecliCommands::Start => Some(String::from_str("Starting recli session...")),
            RecliCommands::Stop => Some(String::from_str("Stopping recli session...")),
            RecliCommands::Status => Some(String::from_str("Checking recli status...")),
            RecliCommands::Recent { count } => {
                let mut text: String = String::from_str("Showing ");
                push_decimal(&mut text, *count as u64);
                text.append(" recent commands...");
                Some(text)
            },
            RecliCommands::Clear => Some(String::from_str("Clearing command history...")),
            RecliCommands::Validate { path } => Some(
                String::from_str("Validating logs against schema..."),
            ),
            RecliCommands::Config => None,
        }
    }
}

} // verus!
