//! The parts of the configuration that the multiplexer's logic reads: the shell
//! to start and the scrollback depth.
use vstd::prelude::*;

verus! {

/// Which shell new panes run.
#[derive(Debug, Clone)]
pub struct ShellConfig {
    pub default: String,
}

impl Default for ShellConfig {
    fn default() -> (c: Self)
        ensures
            c.default@ == "pwsh.exe"@,
    {
        ShellConfig { default: "pwsh.exe".to_owned() }
    }
}

/// How many lines of scrollback each pane keeps.
#[derive(Debug, Clone, Copy, PartialEq, Eq, Structural)]
pub struct ScrollbackConfig {
    pub max_lines: usize,
}

impl Default for ScrollbackConfig {
    fn default() -> (c: Self)
        ensures
            c.max_lines == 10_000,
    {
        ScrollbackConfig { max_lines: 10_000 }
    }
}

} // verus!
