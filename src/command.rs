//! What the matcher produces: an action and its extracted arguments.
use vstd::prelude::*;

verus! {

/// The statistic that a counting action reports.
#[derive(PartialEq, Eq, Structural, Clone, Copy, Debug)]
pub enum Stat {
    Lines,
    Words,
    Chars,
}

/// The actions the shell recognises. Numeric arguments are carried here;
/// text arguments are in `ParsedCommand::args`.
#[derive(PartialEq, Eq, Structural, Clone, Copy, Debug)]
pub enum Action {
    ListFiles,
    Calculate,
    PlotSineWave,
    ShowCurrentDirectory,
    ChangeDirectory,
    ShowFile,
    WriteFile,
    DeleteFile,
    ShowSystemInfo,
    ShowDateTime,
    Help,
    Search,
    SummarizeFile,
    Count(Stat),
    ShowDiskUsage,
    ShowTopProcesses,
    Download,
    Extract,
    GeneratePassword(usize),
    ShowCalendar,
    ShowWeather,
    Explain,
    RunCode,
    RunShell,
    Diff,
    RenameFiles,
    ResizeImage(u32, u32),
    ConvertImage,
    PlayAudio,
    ConvertAudio,
    Speak,
    CopyToClipboard,
    PasteFromClipboard,
    Watch,
    Schedule,
}

/// The meaning of a parsed command: its action and its text arguments.
pub type CommandView = (Action, Seq<Seq<char>>);

/// A recognised input line: the action and its text arguments, in order.
#[derive(Clone, Debug)]
pub struct ParsedCommand {
    pub action: Action,
    pub args: Vec<String>,
}

impl View for ParsedCommand {
    type V = CommandView;

    open spec fn view(&self) -> CommandView {
        (self.action, self.args@.map_values(|a: String| a@))
    }
}

impl ParsedCommand {
    /// The text argument at `i`.
    pub fn arg(&self, i: usize) -> (r: &String)
        requires
            i < self@.1.len(),
        ensures
            r@ == self@.1[i as int],
    {
        &self.args[i]
    }
}

} // verus!
