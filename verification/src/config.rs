//! Choices the proxy is configured with.

use vstd::prelude::*;

verus! {

/// The format in which exchanges are logged.
#[derive(Debug, Clone, Copy, PartialEq, Eq, Structural)]
pub enum LoggerType {
    /// VSCode's REST (`.http`) format.
    Vscode,
}

impl LoggerType {
    /// The name by which the format is chosen on the command line.
    pub open spec fn name(self) -> Seq<char> {
        match self {
            LoggerType::Vscode => "vscode"@,
        }
    }

    /// The name by which the format is chosen on the command line.
    pub fn to_string(&self) -> (res: String)
        ensures
            res@ == self.name(),
    {
        match self {
            LoggerType::Vscode => String::from_str("vscode"),
        }
    }
}

impl Default for LoggerType {
    fn default() -> (res: Self)
        ensures
            res == LoggerType::Vscode,
    {
        LoggerType::Vscode
    }
}

} // verus!
