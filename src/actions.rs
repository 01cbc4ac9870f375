//! What each recognised action computes once its outside work is done: the
//! texts it reports and the values it derives from its arguments.
use vstd::prelude::*;
use crate::bindings::{
    civil_day_number, clock_time_of, compile_pattern, days_in_month, weekday_of, evaluate_expression, is_alphanumeric,
    meval_outcome, read_clock, ClockReading, outcome_view, parse_clock_time, pattern_finds,
    pattern_replace_all, random_alphanumeric, regex_accepts, regex_error_text, regex_finds,
    regex_replaced, unified_diff, unified_diff_of, Pattern,
};
use crate::command::Stat;
use vstd::arithmetic::div_mod::{lemma_fundamental_div_mod, lemma_mod_multiples_vanish};
use crate::text::{
    chars_of, count_words, decimal, decimal_chars, equals_ci, has_prefix_ci, join, join_strings,
    lines, occurs_at_exec, push_chars, push_str, split_lines, string_of, trim, trimmed, views,
    word_count,
};

verus! {

/// The kinds of failure an action can end in. Each carries its cause.
#[derive(Clone, Debug)]
pub enum Failure {
    InvalidArgument(String),
    NotFound(String),
    IoFailure(String),
    ExternalToolFailure(String),
    NetworkFailure(String),
}

impl Failure {
    pub open spec fn cause(&self) -> Seq<char> {
        match self {
            Failure::InvalidArgument(c) => c@,
            Failure::NotFound(c) => c@,
            Failure::IoFailure(c) => c@,
            Failure::ExternalToolFailure(c) => c@,
            Failure::NetworkFailure(c) => c@,
        }
    }

    /// The line shown for this failure: `Error: ` and its cause.
    pub fn render(&self) -> (r: String)
        ensures
            r@ == "Error: "@ + self.cause(),
    {
        let c = match self {
            Failure::InvalidArgument(c) => c,
            Failure::NotFound(c) => c,
            Failure::IoFailure(c) => c,
            Failure::ExternalToolFailure(c) => c,
            Failure::NetworkFailure(c) => c,
        };
        let mut out: Vec<char> = Vec::new();
        push_str(&mut out, "Error: ");
        push_str(&mut out, c.as_str());
        string_of(&out)
    }
}

/// The text shown for a line that no rule recognises.
pub const UNRECOGNIZED: &'static str = "Unrecognized command.";

/// The list of commands shown by `help`.
pub const HELP_TEXT: &'static str = "Available commands:
- list files in current directory
- show current directory
- change directory to <path>
- show file <filename>
- write to file <filename>: <content>
- delete file <filename>
- calculate <expression>
- plot a sine wave
- show system info
- show date and time
- help
";

pub fn help() -> (r: String)
    ensures
        r@ == HELP_TEXT@,
{
    string_of(&chars_of(HELP_TEXT))
}

pub open spec fn explanation(cmd: Seq<char>) -> Seq<char> {
    "[Explanation for shell command: '"@ + cmd + "']"@
}

/// The placeholder explanation of a shell command.
pub fn explain_shell_command(cmd: &str) -> (r: String)
    ensures
        r@ == explanation(cmd@),
{
    let mut out: Vec<char> = Vec::new();
    push_str(&mut out, "[Explanation for shell command: '");
    push_str(&mut out, cmd);
    push_str(&mut out, "']");
    string_of(&out)
}

/// A random password of `length` ASCII letters and digits.
pub fn generate_password(length: usize) -> (r: String)
    ensures
        r@.len() == length,
        forall|i: int| 0 <= i < length ==> is_alphanumeric(#[trigger] r@[i]),
{
    let mut out: Vec<char> = Vec::new();
    let mut i: usize = 0;
    while i < length
        invariant
            i <= length,
            out@.len() == i,
            forall|k: int| 0 <= k < i ==> is_alphanumeric(#[trigger] out@[k]),
        decreases length - i,
    {
        out.push(random_alphanumeric());
        i = i + 1;
    }
    string_of(&out)
}

/// The text shown for the outcome of an evaluation.
pub open spec fn calculation_view(outcome: Result<Seq<char>, Seq<char>>) -> Seq<char> {
    match outcome {
        Ok(v) => v,
        Err(e) => "Error: "@ + e,
    }
}

/// Renders the outcome of evaluating an expression: the value as it is
/// written, or the error after `Error: `.
pub fn calculation_text(outcome: Result<String, String>) -> (r: String)
    ensures
        r@ == calculation_view(outcome_view(outcome)),
{
    match outcome {
        Ok(v) => v,
        Err(e) => {
            let mut out: Vec<char> = Vec::new();
            push_str(&mut out, "Error: ");
            push_str(&mut out, e.as_str());
            string_of(&out)
        },
    }
}

/// Evaluates an arithmetic expression; a malformed one is reported as text.
pub fn calculate(expr: &str) -> (r: String)
    ensures
        r@ == calculation_view(meval_outcome(expr@)),
{
    calculation_text(evaluate_expression(expr))
}

pub open spec fn stat_name(stat: Stat) -> Seq<char> {
    match stat {
        Stat::Lines => "lines"@,
        Stat::Words => "words"@,
        Stat::Chars => "chars"@,
    }
}

pub open spec fn stat_value(content: Seq<char>, stat: Stat) -> nat {
    match stat {
        Stat::Lines => lines(content).len(),
        Stat::Words => word_count(content),
        Stat::Chars => content.len(),
    }
}

/// The report of a counting action: `lines: N`, `words: N` or `chars: N`.
pub open spec fn stat_report(content: Seq<char>, stat: Stat) -> Seq<char> {
    stat_name(stat) + ": "@ + decimal(stat_value(content, stat))
}

pub fn count_stat(content: &str, stat: Stat) -> (r: String)
    ensures
        r@ == stat_report(content@, stat),
{
    let chars = chars_of(content);
    let n: usize = match stat {
        Stat::Lines => split_lines(&chars).len(),
        Stat::Words => count_words(&chars),
        Stat::Chars => chars.len(),
    };
    let mut out: Vec<char> = Vec::new();
    match stat {
        Stat::Lines => push_str(&mut out, "lines"),
        Stat::Words => push_str(&mut out, "words"),
        Stat::Chars => push_str(&mut out, "chars"),
    }
    push_str(&mut out, ": ");
    push_chars(&mut out, &decimal_chars(n));
    string_of(&out)
}

/// The lines of `ls` that hold more than white space, in order.
pub open spec fn nonblank(ls: Seq<Seq<char>>) -> Seq<Seq<char>>
    decreases ls.len(),
{
    if ls.len() == 0 {
        seq![]
    } else if trim(ls[0]).len() > 0 {
        seq![ls[0]] + nonblank(ls.drop_first())
    } else {
        nonblank(ls.drop_first())
    }
}

/// The number of lines a summary shows.
pub const SUMMARY_LINES: usize = 5;

pub open spec fn summary_view(content: Seq<char>) -> Seq<char> {
    let all = nonblank(lines(content));
    let kept = if all.len() <= SUMMARY_LINES { all } else { all.take(SUMMARY_LINES as int) };
    if kept.len() == 0 {
        "File is empty or contains no summary lines."@
    } else {
        "Summary:\n"@ + join(kept, "\n"@)
    }
}

proof fn lemma_nonblank_len(ls: Seq<Seq<char>>)
    ensures
        nonblank(ls).len() <= ls.len(),
    decreases ls.len(),
{
    if ls.len() > 0 {
        lemma_nonblank_len(ls.drop_first());
    }
}

/// The first five lines of `content` that are not blank, under a heading.
pub fn summarize(content: &str) -> (r: String)
    ensures
        r@ == summary_view(content@),
{
    let ls = split_lines(&chars_of(content));
    let ghost all = lines(content@);
    let mut kept: Vec<String> = Vec::new();
    let mut i: usize = 0;
    assert(all.skip(0) =~= all);
    while i < ls.len() && kept.len() < SUMMARY_LINES
        invariant
            i <= ls@.len(),
            ls@.len() == all.len(),
            forall|k: int| 0 <= k < ls@.len() ==> (#[trigger] ls@[k])@ == all[k],
            kept@.len() <= SUMMARY_LINES,
            nonblank(all) == views(kept@) + nonblank(all.skip(i as int)),
        decreases ls@.len() - i,
    {
        let ghost rest = all.skip(i as int);
        assert(rest.drop_first() =~= all.skip(i + 1));
        assert(rest[0] == ls@[i as int]@);
        let t = trimmed(&ls[i]);
        if t.len() > 0 {
            let ghost before = views(kept@);
            kept.push(string_of(&ls[i]));
            assert(views(kept@) =~= before + seq![rest[0]]);
            assert(before + seq![rest[0]] + nonblank(rest.drop_first())
                =~= before + (seq![rest[0]] + nonblank(rest.drop_first())));
        }
        i = i + 1;
    }
    proof {
        lemma_nonblank_len(all.skip(i as int));
        let rest = nonblank(all.skip(i as int));
        if i == ls@.len() {
            assert(all.skip(i as int) =~= Seq::<Seq<char>>::empty());
            assert(rest =~= Seq::<Seq<char>>::empty());
            assert(nonblank(all) =~= views(kept@));
        } else {
            assert(views(kept@).len() == SUMMARY_LINES);
            assert((views(kept@) + rest).take(SUMMARY_LINES as int) =~= views(kept@));
        }
    }
    if kept.len() == 0 {
        string_of(&chars_of("File is empty or contains no summary lines."))
    } else {
        let mut out: Vec<char> = Vec::new();
        push_str(&mut out, "Summary:\n");
        push_chars(&mut out, &join_strings(&kept, "\n"));
        string_of(&out)
    }
}

/// Compiles the pattern of a search or a rename; a refused pattern is an
/// invalid argument.
pub fn compile(pattern: &str) -> (r: Result<Pattern, Failure>)
    ensures
        r is Ok <==> regex_accepts(pattern@),
        r matches Ok(p) ==> p.source() == pattern@,
        r matches Err(f) ==> f is InvalidArgument,
{
    match compile_pattern(pattern) {
        Ok(p) => Ok(p),
        Err(e) => Err(Failure::InvalidArgument(regex_error_text(&e))),
    }
}

/// One reported match: `LABEL:N: LINE`, with `N` counted from one.
pub open spec fn hit_line(label: Seq<char>, n: nat, line: Seq<char>) -> Seq<char> {
    label + ":"@ + decimal(n) + ": "@ + line
}

/// The reported matches among the lines `ls` of the file labelled `label`.
pub open spec fn search_hits(p: Seq<char>, label: Seq<char>, ls: Seq<Seq<char>>) -> Seq<Seq<char>>
    decreases ls.len(),
{
    if ls.len() == 0 {
        seq![]
    } else {
        search_hits(p, label, ls.drop_last()) + if regex_finds(p, ls.last()) {
            seq![hit_line(label, ls.len(), ls.last())]
        } else {
            seq![]
        }
    }
}

/// Scans the lines of one file's `content` and appends a report line for
/// each line that the pattern matches.
pub fn search_text(p: &Pattern, label: &str, content: &str, results: &mut Vec<String>)
    ensures
        views(final(results)@) == views(old(results)@) + search_hits(p.source(), label@, lines(content@)),
{
    let ls = split_lines(&chars_of(content));
    let ghost all = lines(content@);
    let ghost start = views(results@);
    let mut i: usize = 0;
    assert(all.take(0) =~= Seq::<Seq<char>>::empty());
    assert(start + seq![] =~= start);
    while i < ls.len()
        invariant
            i <= ls@.len(),
            ls@.len() == all.len(),
            forall|k: int| 0 <= k < ls@.len() ==> (#[trigger] ls@[k])@ == all[k],
            views(results@) == start + search_hits(p.source(), label@, all.take(i as int)),
        decreases ls@.len() - i,
    {
        let ghost t = all.take(i + 1);
        assert(t.drop_last() =~= all.take(i as int));
        assert(t.last() == ls@[i as int]@);
        let line = string_of(&ls[i]);
        if pattern_finds(p, line.as_str()) {
            let mut out: Vec<char> = Vec::new();
            push_str(&mut out, label);
            push_str(&mut out, ":");
            push_chars(&mut out, &decimal_chars(i + 1));
            push_str(&mut out, ": ");
            push_str(&mut out, line.as_str());
            let ghost before = views(results@);
            results.push(string_of(&out));
            assert(views(results@) =~= before + seq![out@]);
            assert(start + search_hits(p.source(), label@, all.take(i as int)) + seq![out@]
                =~= start + search_hits(p.source(), label@, t));
        } else {
            assert(search_hits(p.source(), label@, t) =~= search_hits(p.source(), label@, all.take(i as int)));
        }
        i = i + 1;
    }
    assert(all.take(i as int) =~= all);
}

pub open spec fn search_report_view(results: Seq<Seq<char>>) -> Seq<char> {
    if results.len() == 0 {
        "No matches found."@
    } else {
        join(results, "\n"@)
    }
}

/// The report of a search: its match lines, or a note that there were none.
pub fn search_report(results: &Vec<String>) -> (r: String)
    ensures
        r@ == search_report_view(views(results@)),
{
    if results.len() == 0 {
        string_of(&chars_of("No matches found."))
    } else {
        string_of(&join_strings(results, "\n"))
    }
}

/// The report of a search whose target is neither a file nor a directory.
pub fn target_not_found(target: &str) -> (r: String)
    ensures
        r@ == "Target '"@ + target@ + "' not found"@,
{
    let mut out: Vec<char> = Vec::new();
    push_str(&mut out, "Target '");
    push_str(&mut out, target);
    push_str(&mut out, "' not found");
    string_of(&out)
}

/// The new name of a file under a rename, when the pattern matches its name.
pub fn renamed_to(p: &Pattern, name: &str, replacement: &str) -> (r: Option<String>)
    ensures
        r is Some <==> regex_finds(p.source(), name@),
        r matches Some(n) ==> n@ == regex_replaced(p.source(), name@, replacement@),
{
    if pattern_finds(p, name) {
        Some(pattern_replace_all(p, name, replacement))
    } else {
        None
    }
}

/// One line of a rename report: `OLD -> NEW`.
pub fn rename_line(from: &str, to: &str) -> (r: String)
    ensures
        r@ == from@ + " -> "@ + to@,
{
    let mut out: Vec<char> = Vec::new();
    push_str(&mut out, from);
    push_str(&mut out, " -> ");
    push_str(&mut out, to);
    string_of(&out)
}

pub open spec fn rename_report_view(done: Seq<Seq<char>>) -> Seq<char> {
    if done.len() == 0 {
        "No files matched the pattern."@
    } else {
        "Renamed files:\n"@ + join(done, "\n"@)
    }
}

/// The report of a rename: the renamed files, or a note that none matched.
pub fn rename_report(done: &Vec<String>) -> (r: String)
    ensures
        r@ == rename_report_view(views(done@)),
{
    if done.len() == 0 {
        string_of(&chars_of("No files matched the pattern."))
    } else {
        let mut out: Vec<char> = Vec::new();
        push_str(&mut out, "Renamed files:\n");
        push_chars(&mut out, &join_strings(done, "\n"));
        string_of(&out)
    }
}

/// `a` followed by `b`.
pub fn concat2(a: &str, b: &str) -> (r: String)
    ensures
        r@ == a@ + b@,
{
    let mut out: Vec<char> = Vec::new();
    push_str(&mut out, a);
    push_str(&mut out, b);
    string_of(&out)
}

/// `a`, `b` and `c` one after the other.
pub fn concat3(a: &str, b: &str, c: &str) -> (r: String)
    ensures
        r@ == a@ + b@ + c@,
{
    let mut out: Vec<char> = Vec::new();
    push_str(&mut out, a);
    push_str(&mut out, b);
    push_str(&mut out, c);
    string_of(&out)
}

/// `a`, `b`, `c` and `d` one after the other.
pub fn concat4(a: &str, b: &str, c: &str, d: &str) -> (r: String)
    ensures
        r@ == a@ + b@ + c@ + d@,
{
    let mut out: Vec<char> = Vec::new();
    push_str(&mut out, a);
    push_str(&mut out, b);
    push_str(&mut out, c);
    push_str(&mut out, d);
    string_of(&out)
}

/// The entries of a directory listing, one per line.
pub fn listing(names: &Vec<String>) -> (r: String)
    ensures
        r@ == join(views(names@), "\n"@),
{
    string_of(&join_strings(names, "\n"))
}

/// The system summary: operating system and architecture on two lines.
pub fn system_info(os: &str, arch: &str) -> (r: String)
    ensures
        r@ == "OS: "@ + os@ + "\nArch: "@ + arch@,
{
    concat4("OS: ", os, "\nArch: ", arch)
}

pub fn changed_directory(path: &str) -> (r: String)
    ensures
        r@ == "Changed directory to "@ + path@,
{
    concat2("Changed directory to ", path)
}

pub fn wrote_file(file: &str) -> (r: String)
    ensures
        r@ == "Wrote to file "@ + file@,
{
    concat2("Wrote to file ", file)
}

pub fn deleted_file(file: &str) -> (r: String)
    ensures
        r@ == "Deleted file "@ + file@,
{
    concat2("Deleted file ", file)
}

pub fn downloaded(url: &str, file: &str) -> (r: String)
    ensures
        r@ == "Downloaded "@ + url@ + " to "@ + file@,
{
    concat4("Downloaded ", url, " to ", file)
}

/// The file that `resize image FILE to ...` writes: the name with
/// `_resized.png` added.
pub fn resized_image_path(file: &str) -> (r: String)
    ensures
        r@ == file@ + "_resized.png"@,
{
    concat2(file, "_resized.png")
}

pub fn resized_image_saved(out: &str) -> (r: String)
    ensures
        r@ == "Resized image saved to "@ + out@,
{
    concat2("Resized image saved to ", out)
}

/// The file extension of a supported image format, matched regardless of
/// ASCII case: `png`, `jpg` (also for `jpeg`), `bmp` or `gif`.
pub open spec fn image_extension(format: Seq<char>) -> Option<Seq<char>> {
    if equals_ci(format, "png"@) {
        Some(".png"@)
    } else if equals_ci(format, "jpg"@) || equals_ci(format, "jpeg"@) {
        Some(".jpg"@)
    } else if equals_ci(format, "bmp"@) {
        Some(".bmp"@)
    } else if equals_ci(format, "gif"@) {
        Some(".gif"@)
    } else {
        None
    }
}

fn same_ci(s: &str, lit: &str) -> (b: bool)
    ensures
        b == equals_ci(s@, lit@),
{
    let v = chars_of(s);
    let l = chars_of(lit);
    v.len() == l.len() && has_prefix_ci(&v, &l)
}

pub const UNSUPPORTED_IMAGE_FORMAT: &'static str = "Unsupported format. Supported: png, jpg, bmp, gif.";

/// The file that converting `file` to `format` writes, or `None` for an
/// unsupported format.
pub fn converted_image_path(file: &str, format: &str) -> (r: Option<String>)
    ensures
        r is None <==> image_extension(format@) is None,
        r matches Some(out) ==> out@ == file@ + image_extension(format@)->Some_0,
{
    if same_ci(format, "png") {
        Some(concat2(file, ".png"))
    } else if same_ci(format, "jpg") || same_ci(format, "jpeg") {
        Some(concat2(file, ".jpg"))
    } else if same_ci(format, "bmp") {
        Some(concat2(file, ".bmp"))
    } else if same_ci(format, "gif") {
        Some(concat2(file, ".gif"))
    } else {
        None
    }
}

pub fn converted_image_saved(out: &str) -> (r: String)
    ensures
        r@ == "Converted image saved to "@ + out@,
{
    concat2("Converted image saved to ", out)
}

/// The archive formats that can be extracted.
#[derive(PartialEq, Eq, Structural, Clone, Copy, Debug)]
pub enum ArchiveKind {
    Zip,
    TarGz,
    Unsupported,
}

pub open spec fn ends_with(s: Seq<char>, suffix: Seq<char>) -> bool {
    suffix.len() <= s.len() && s.skip(s.len() - suffix.len()) == suffix
}

fn has_suffix(s: &Vec<char>, suffix: &str) -> (b: bool)
    ensures
        b == ends_with(s@, suffix@),
{
    let x = chars_of(suffix);
    if x.len() > s.len() {
        return false;
    }
    let r = occurs_at_exec(s, &x, s.len() - x.len());
    assert(s@.subrange(s@.len() - x@.len(), s@.len() as int) =~= s@.skip(s@.len() - x@.len()));
    r
}

pub open spec fn archive_kind_of(name: Seq<char>) -> ArchiveKind {
    if ends_with(name, ".zip"@) {
        ArchiveKind::Zip
    } else if ends_with(name, ".tar.gz"@) || ends_with(name, ".tgz"@) {
        ArchiveKind::TarGz
    } else {
        ArchiveKind::Unsupported
    }
}

/// The format of an archive, by the end of its name.
pub fn archive_kind(name: &str) -> (r: ArchiveKind)
    ensures
        r == archive_kind_of(name@),
{
    let v = chars_of(name);
    if has_suffix(&v, ".zip") {
        ArchiveKind::Zip
    } else if has_suffix(&v, ".tar.gz") || has_suffix(&v, ".tgz") {
        ArchiveKind::TarGz
    } else {
        ArchiveKind::Unsupported
    }
}

pub const UNSUPPORTED_ARCHIVE: &'static str = "Unsupported archive format. Only .zip and .tar.gz/.tgz supported.";

pub fn extracted(archive: &str, dir: &str) -> (r: String)
    ensures
        r@ == "Extracted "@ + archive@ + " to "@ + dir@,
{
    concat4("Extracted ", archive, " to ", dir)
}

/// The interpreters that run code snippets.
#[derive(PartialEq, Eq, Structural, Clone, Copy, Debug)]
pub enum Runner {
    /// `python3 -c CODE`
    Python,
    /// `node -e CODE`
    Node,
    /// `bash`, reading the code on standard input
    Bash,
}

/// The interpreter for a language name, matched regardless of ASCII case.
pub open spec fn runner_of(lang: Seq<char>) -> Option<Runner> {
    if equals_ci(lang, "python"@) {
        Some(Runner::Python)
    } else if equals_ci(lang, "javascript"@) || equals_ci(lang, "js"@) || equals_ci(lang, "node"@) {
        Some(Runner::Node)
    } else if equals_ci(lang, "bash"@) || equals_ci(lang, "sh"@) {
        Some(Runner::Bash)
    } else {
        None
    }
}

pub fn code_runner(lang: &str) -> (r: Option<Runner>)
    ensures
        r == runner_of(lang@),
{
    if same_ci(lang, "python") {
        Some(Runner::Python)
    } else if same_ci(lang, "javascript") || same_ci(lang, "js") || same_ci(lang, "node") {
        Some(Runner::Node)
    } else if same_ci(lang, "bash") || same_ci(lang, "sh") {
        Some(Runner::Bash)
    } else {
        None
    }
}

pub const UNSUPPORTED_LANGUAGE: &'static str = "Unsupported language. Supported: python, javascript, bash.";

pub open spec fn process_report_view(stdout: Seq<char>, stderr: Seq<char>) -> Seq<char> {
    if trim(stderr).len() > 0 {
        stdout + "\n[stderr]: "@ + stderr
    } else {
        stdout
    }
}

/// What a finished process printed: its standard output, followed by its
/// standard error when that holds more than white space.
pub fn process_report(stdout: &str, stderr: &str) -> (r: String)
    ensures
        r@ == process_report_view(stdout@, stderr@),
{
    if trimmed(&chars_of(stderr)).len() > 0 {
        concat3(stdout, "\n[stderr]: ", stderr)
    } else {
        string_of(&chars_of(stdout))
    }
}

/// `s` with each space replaced by `+`.
pub open spec fn plus_for_space(s: Seq<char>) -> Seq<char> {
    s.map_values(|c: char| if c == ' ' { '+' } else { c })
}

/// The address of the one-line weather report for a city.
pub fn weather_url(city: &str) -> (r: String)
    ensures
        r@ == "https://wttr.in/"@ + plus_for_space(city@) + "?format=3"@,
{
    let v = chars_of(city);
    let mut out: Vec<char> = Vec::new();
    push_str(&mut out, "https://wttr.in/");
    let ghost start = out@;
    let mut i: usize = 0;
    while i < v.len()
        invariant
            i <= v@.len(),
            out@ == start + plus_for_space(v@.take(i as int)),
        decreases v@.len() - i,
    {
        out.push(if v[i] == ' ' { '+' } else { v[i] });
        i = i + 1;
        assert(out@ =~= start + plus_for_space(v@.take(i as int)));
    }
    assert(v@.take(i as int) =~= v@);
    push_str(&mut out, "?format=3");
    string_of(&out)
}

/// The report of audio playback, by whether the player succeeded.
pub fn audio_played(ok: bool) -> (r: String)
    ensures
        r@ == if ok { "Audio played successfully."@ } else { "Failed to play audio."@ },
{
    if ok {
        string_of(&chars_of("Audio played successfully."))
    } else {
        string_of(&chars_of("Failed to play audio."))
    }
}

/// The file that converting audio `file` to `format` writes.
pub fn converted_audio_path(file: &str, format: &str) -> (r: String)
    ensures
        r@ == file@ + "."@ + format@,
{
    concat3(file, ".", format)
}

/// The report of an audio conversion, by whether the converter succeeded.
pub fn audio_converted(ok: bool, out: &str) -> (r: String)
    ensures
        r@ == if ok { "Converted audio saved to "@ + out@ } else {
            "Failed to convert audio. Ensure ffmpeg is installed."@
        },
{
    if ok {
        concat2("Converted audio saved to ", out)
    } else {
        string_of(&chars_of("Failed to convert audio. Ensure ffmpeg is installed."))
    }
}

/// The report of speech output, by whether the speaker succeeded.
pub fn spoken(ok: bool) -> (r: String)
    ensures
        r@ == if ok { "Spoken successfully."@ } else { "Failed to speak text."@ },
{
    if ok {
        string_of(&chars_of("Spoken successfully."))
    } else {
        string_of(&chars_of("Failed to speak text."))
    }
}

pub const COPIED: &'static str = "Copied to clipboard.";

pub fn clipboard_contents(text: &str) -> (r: String)
    ensures
        r@ == "Clipboard: "@ + text@,
{
    concat2("Clipboard: ", text)
}

pub fn plot_saved(path: &str) -> (r: String)
    ensures
        r@ == "Plot saved to "@ + path@,
{
    concat2("Plot saved to ", path)
}

/// The unified diff of two files' texts, headed by their names.
pub fn file_diff(file1: &str, file2: &str, text1: &str, text2: &str) -> (r: String)
    ensures
        r@ == unified_diff_of(text1@, text2@, file1@, file2@),
{
    unified_diff(text1, text2, file1, file2)
}

/// Seconds in a day.
pub const DAY_SECONDS: u32 = 86400;

/// Seconds from the time of day `now` (hour, minute, second) until the next
/// `target` (hour, minute), wrapping past midnight.
pub open spec fn wait_seconds(now: (u32, u32, u32), target: (u32, u32)) -> int {
    ((target.0 * 3600 + target.1 * 60) as int - (now.0 * 3600 + now.1 * 60 + now.2) as int) % (DAY_SECONDS as int)
}

pub fn seconds_until(now: (u32, u32, u32), target: (u32, u32)) -> (r: u32)
    requires
        now.0 < 24 && now.1 < 60 && now.2 < 60,
        target.0 < 24 && target.1 < 60,
    ensures
        r as int == wait_seconds(now, target),
        r < DAY_SECONDS,
{
    let t: u32 = target.0 * 3600 + target.1 * 60;
    let n: u32 = now.0 * 3600 + now.1 * 60 + now.2;
    if t >= n {
        t - n
    } else {
        DAY_SECONDS - (n - t)
    }
}

/// The wait before a command scheduled at `at_time` (`HH:MM`) runs, from
/// the time of day of the reading `now`; a time that does not read is an
/// invalid argument.
pub fn schedule_delay_from(now: &ClockReading, at_time: &str) -> (r: Result<u32, Failure>)
    requires
        now.wf(),
    ensures
        r is Err <==> clock_time_of(at_time@) is None,
        r matches Err(f) ==> f is InvalidArgument,
        r matches Ok(d) ==> d as int == wait_seconds((now.hour, now.minute, now.second),
            clock_time_of(at_time@)->Some_0) && d < DAY_SECONDS,
{
    match parse_clock_time(at_time) {
        Some(target) => Ok(seconds_until((now.hour, now.minute, now.second), target)),
        None => Err(Failure::InvalidArgument(concat3("invalid time '", at_time, "', expected HH:MM"))),
    }
}

/// The wait before a command scheduled at `at_time` runs, from the current
/// local time, as `schedule_delay_from` computes it. Which wait comes back
/// depends on the clock; it is always less than a day.
pub fn schedule_delay(at_time: &str) -> (r: Result<u32, Failure>)
    ensures
        r is Err <==> clock_time_of(at_time@) is None,
        r matches Err(f) ==> f is InvalidArgument,
        r matches Ok(d) ==> d < DAY_SECONDS,
{
    let now = read_clock();
    schedule_delay_from(&now, at_time)
}

/// The line printed before a scheduled command waits.
pub fn schedule_notice(cmd: &str, delay: u32, at_time: &str) -> (r: String)
    ensures
        r@ == "Scheduling command '"@ + cmd@ + "' to run in "@ + decimal(delay as nat)
            + " seconds (at "@ + at_time@ + ")."@,
{
    let mut out: Vec<char> = Vec::new();
    push_str(&mut out, "Scheduling command '");
    push_str(&mut out, cmd);
    push_str(&mut out, "' to run in ");
    push_chars(&mut out, &decimal_chars(delay as usize));
    push_str(&mut out, " seconds (at ");
    push_str(&mut out, at_time);
    push_str(&mut out, ").");
    string_of(&out)
}

pub fn scheduled_output(output: &str) -> (r: String)
    ensures
        r@ == "Scheduled command output:\n"@ + output@,
{
    concat2("Scheduled command output:\n", output)
}

/// `n` spaces.
pub open spec fn spaces(n: nat) -> Seq<char> {
    Seq::new(n, |i: int| ' ')
}

/// `t` centred in a field of `w` characters, as the `{:^w}` format puts it:
/// an odd leftover space goes to the right.
pub open spec fn centered(t: Seq<char>, w: nat) -> Seq<char> {
    if t.len() >= w {
        t
    } else {
        let pad = (w - t.len()) as nat;
        spaces(pad / 2) + t + spaces((pad - pad / 2) as nat)
    }
}

/// The calendar cell of day `d` in a month of `last` days: the number
/// right-aligned in two characters, or blank outside the month.
pub open spec fn day_cell(d: int, last: int) -> Seq<char> {
    if 1 <= d <= last {
        if d < 10 {
            " "@ + decimal(d as nat)
        } else {
            decimal(d as nat)
        }
    } else {
        "  "@
    }
}

/// The cells `0..=c` of week `r`, separated by single spaces, for a month
/// whose first day falls on weekday `first` (Sunday is 0).
pub open spec fn week_cells(first: int, last: int, r: int, c: nat) -> Seq<char>
    decreases c,
{
    if c == 0 {
        day_cell(7 * r - first + 1, last)
    } else {
        week_cells(first, last, r, (c - 1) as nat) + " "@ + day_cell(7 * r + c - first + 1, last)
    }
}

/// The first `n` weeks, one line each.
pub open spec fn weeks(first: int, last: int, n: nat) -> Seq<char>
    decreases n,
{
    if n == 0 {
        seq![]
    } else {
        weeks(first, last, (n - 1) as nat) + week_cells(first, last, n - 1, 6) + "\n"@
    }
}

/// The number of weeks the month spans.
pub open spec fn week_count(first: int, last: int) -> nat {
    ((last + first + 6) / 7) as nat
}

/// The calendar of a month: the centred title, the weekday names, and one
/// line per week.
pub open spec fn calendar_view(title: Seq<char>, first: int, last: int) -> Seq<char> {
    centered(title, 20) + "\n"@ + "Su Mo Tu We Th Fr Sa\n"@ + weeks(first, last, week_count(first, last))
}

fn push_spaces(out: &mut Vec<char>, n: usize)
    ensures
        final(out)@ == old(out)@ + spaces(n as nat),
{
    let ghost start = out@;
    let mut i: usize = 0;
    while i < n
        invariant
            i <= n,
            out@ == start + spaces(i as nat),
        decreases n - i,
    {
        out.push(' ');
        i = i + 1;
        assert(out@ =~= start + spaces(i as nat));
    }
}

fn push_cell(out: &mut Vec<char>, d: i64, last: u32)
    requires
        -7 <= d <= 64,
    ensures
        final(out)@ == old(out)@ + day_cell(d as int, last as int),
{
    if 1 <= d && d <= last as i64 {
        if d < 10 {
            push_str(out, " ");
        }
        push_chars(out, &decimal_chars(d as usize));
    } else {
        push_str(out, "  ");
    }
}

/// Lays out a month: `title` centred over the weekday names, then the days
/// in weeks that start on Sunday, the first day on weekday `first`.
pub fn calendar_text(title: &str, first: u32, last: u32) -> (r: String)
    requires
        first < 7,
        last <= 31,
    ensures
        r@ == calendar_view(title@, first as int, last as int),
{
    let mut out: Vec<char> = Vec::new();
    let n = chars_of(title).len();
    if n >= 20 {
        push_str(&mut out, title);
    } else {
        let pad = 20 - n;
        push_spaces(&mut out, pad / 2);
        push_str(&mut out, title);
        push_spaces(&mut out, pad - pad / 2);
    }
    push_str(&mut out, "\n");
    push_str(&mut out, "Su Mo Tu We Th Fr Sa\n");
    let ghost head = out@;
    let rows: u32 = (last + first + 6) / 7;
    let mut r: u32 = 0;
    while r < rows
        invariant
            first < 7,
            last <= 31,
            rows == week_count(first as int, last as int),
            r <= rows,
            out@ == head + weeks(first as int, last as int, r as nat),
        decreases rows - r,
    {
        let ghost before = out@;
        push_cell(&mut out, 7 * (r as i64) + 1 - first as i64, last);
        let mut c: u32 = 1;
        while c < 7
            invariant
                first < 7,
                last <= 31,
                r < rows,
                rows <= 6,
                1 <= c <= 7,
                out@ == before + week_cells(first as int, last as int, r as int, (c - 1) as nat),
            decreases 7 - c,
        {
            push_str(&mut out, " ");
            push_cell(&mut out, 7 * (r as i64) + c as i64 + 1 - first as i64, last);
            assert(out@ =~= before + week_cells(first as int, last as int, r as int, c as nat));
            c = c + 1;
        }
        push_str(&mut out, "\n");
        assert(out@ =~= head + weeks(first as int, last as int, (r + 1) as nat));
        r = r + 1;
    }
    proof {
        assert(spaces(0) =~= Seq::<char>::empty());
    }
    string_of(&out)
}

/// `n` in decimal, with zeros in front up to `w` digits.
pub open spec fn zero_padded(n: nat, w: nat) -> Seq<char> {
    if decimal(n).len() >= w {
        decimal(n)
    } else {
        Seq::new((w - decimal(n).len()) as nat, |i: int| '0') + decimal(n)
    }
}

fn push_zero_padded(out: &mut Vec<char>, n: usize, w: usize)
    ensures
        final(out)@ == old(out)@ + zero_padded(n as nat, w as nat),
{
    let digits = decimal_chars(n);
    let ghost start = out@;
    if digits.len() < w {
        let zeros = w - digits.len();
        let mut i: usize = 0;
        while i < zeros
            invariant
                i <= zeros,
                out@ == start + Seq::new(i as nat, |k: int| '0'),
            decreases zeros - i,
        {
            out.push('0');
            i = i + 1;
            assert(out@ =~= start + Seq::new(i as nat, |k: int| '0'));
        }
    }
    push_chars(out, &digits);
    assert(out@ =~= start + zero_padded(n as nat, w as nat));
}

/// A year as `%Y` writes it: four digits for years 0 to 9999, otherwise a
/// sign and at least four digits.
pub open spec fn year_text(y: int) -> Seq<char> {
    if 0 <= y <= 9999 {
        zero_padded(y as nat, 4)
    } else if y < 0 {
        "-"@ + zero_padded((-y) as nat, 4)
    } else {
        "+"@ + zero_padded(y as nat, 4)
    }
}

/// A date and time as `%Y-%m-%d %H:%M:%S` writes it.
pub open spec fn date_time_view(t: (i32, u32, u32, u32, u32, u32)) -> Seq<char> {
    year_text(t.0 as int) + "-"@ + zero_padded(t.1 as nat, 2) + "-"@ + zero_padded(t.2 as nat, 2) + " "@
        + zero_padded(t.3 as nat, 2) + ":"@ + zero_padded(t.4 as nat, 2) + ":"@ + zero_padded(t.5 as nat, 2)
}

/// Writes a date and time (year, month, day, hour, minute, second) as
/// `YYYY-MM-DD HH:MM:SS`.
pub fn date_time_text(t: (i32, u32, u32, u32, u32, u32)) -> (r: String)
    ensures
        r@ == date_time_view(t),
{
    let mut out: Vec<char> = Vec::new();
    push_year(&mut out, t.0);
    push_str(&mut out, "-");
    push_zero_padded(&mut out, t.1 as usize, 2);
    push_str(&mut out, "-");
    push_zero_padded(&mut out, t.2 as usize, 2);
    push_str(&mut out, " ");
    push_zero_padded(&mut out, t.3 as usize, 2);
    push_str(&mut out, ":");
    push_zero_padded(&mut out, t.4 as usize, 2);
    push_str(&mut out, ":");
    push_zero_padded(&mut out, t.5 as usize, 2);
    string_of(&out)
}

/// The current local date and time, written by `date_time_text`.
pub fn show_date_time() -> (r: String)
    ensures
        exists|c: ClockReading| c.wf() && r@ == date_time_view((c.year, c.month, c.day, c.hour, c.minute, c.second)),
{
    let c = read_clock();
    date_time_text((c.year, c.month, c.day, c.hour, c.minute, c.second))
}

/// The English name of month `m` (1 to 12), as `%B` writes it.
pub open spec fn month_name(m: int) -> Seq<char> {
    if m == 1 { "January"@ } else if m == 2 { "February"@ } else if m == 3 { "March"@ }
    else if m == 4 { "April"@ } else if m == 5 { "May"@ } else if m == 6 { "June"@ }
    else if m == 7 { "July"@ } else if m == 8 { "August"@ } else if m == 9 { "September"@ }
    else if m == 10 { "October"@ } else if m == 11 { "November"@ } else { "December"@ }
}

fn month_name_str(m: u32) -> (r: &'static str)
    ensures
        r@ == month_name(m as int),
{
    if m == 1 { "January" } else if m == 2 { "February" } else if m == 3 { "March" }
    else if m == 4 { "April" } else if m == 5 { "May" } else if m == 6 { "June" }
    else if m == 7 { "July" } else if m == 8 { "August" } else if m == 9 { "September" }
    else if m == 10 { "October" } else if m == 11 { "November" } else { "December" }
}

/// The title of a month, as `%B %Y` writes it.
pub open spec fn month_title(y: int, m: int) -> Seq<char> {
    month_name(m) + " "@ + year_text(y)
}

fn push_year(out: &mut Vec<char>, y: i32)
    ensures
        final(out)@ == old(out)@ + year_text(y as int),
{
    if 0 <= y && y <= 9999 {
        push_zero_padded(out, y as usize, 4);
    } else if y < 0 {
        push_str(out, "-");
        let m: i64 = -(y as i64);
        push_zero_padded(out, m as usize, 4);
    } else {
        push_str(out, "+");
        push_zero_padded(out, y as usize, 4);
    }
}

/// The number of days of month `m` (1 to 12) of year `y`.
pub fn month_length(y: i32, m: u32) -> (r: u32)
    requires
        1 <= m <= 12,
    ensures
        r as int == days_in_month(y as int, m as int),
{
    if m == 2 {
        let a: i64 = if y < 0 { -(y as i64) } else { y as i64 };
        proof {
            assert((y as int) % 4 == 0 <==> (a as int) % 4 == 0) by (nonlinear_arith)
                requires a == y || a == -y;
            assert((y as int) % 100 == 0 <==> (a as int) % 100 == 0) by (nonlinear_arith)
                requires a == y || a == -y;
            assert((y as int) % 400 == 0 <==> (a as int) % 400 == 0) by (nonlinear_arith)
                requires a == y || a == -y;
        }
        if a % 4 == 0 && (a % 100 != 0 || a % 400 == 0) {
            29
        } else {
            28
        }
    } else if m == 4 || m == 6 || m == 9 || m == 11 {
        30
    } else {
        31
    }
}

/// Going back `k` days from a day of weekday `w` lands on weekday
/// `(w - k) mod 7`: the weekday of the 1st follows from any day's.
proof fn lemma_first_weekday(y: int, m: int, d: int)
    requires
        d >= 1,
    ensures
        (weekday_of(y, m, d) - (d - 1)) % 7 == weekday_of(y, m, 1),
{
    let x = civil_day_number(y, m, 1) + 3;
    assert(civil_day_number(y, m, d) + 3 == x + (d - 1));
    let z = x + (d - 1);
    lemma_fundamental_div_mod(z, 7);
    lemma_mod_multiples_vanish(z / 7, z % 7 - (d - 1), 7);
    assert(7 * (z / 7) + (z % 7 - (d - 1)) == x);
}

/// The calendar of the month of a clock reading: the month laid out from
/// the weekday of its 1st and its number of days.
pub fn month_calendar(c: &ClockReading) -> (r: String)
    requires
        c.wf(),
    ensures
        r@ == calendar_view(month_title(c.year as int, c.month as int),
            weekday_of(c.year as int, c.month as int, 1), days_in_month(c.year as int, c.month as int)),
{
    let mut title: Vec<char> = Vec::new();
    push_str(&mut title, month_name_str(c.month));
    push_str(&mut title, " ");
    push_year(&mut title, c.year);
    let first: u32 = (c.weekday + 36 - c.day) % 7;
    proof {
        lemma_first_weekday(c.year as int, c.month as int, c.day as int);
        assert((c.weekday + 36 - c.day) as int == (c.weekday as int - (c.day as int - 1)) + 7 * 5);
        lemma_mod_multiples_vanish(5, c.weekday as int - (c.day as int - 1), 7);
    }
    assert(first as int == weekday_of(c.year as int, c.month as int, 1));
    let last = month_length(c.year, c.month);
    calendar_text(string_of(&title).as_str(), first, last)
}

/// The calendar of the current month.
pub fn show_calendar() -> (r: String)
    ensures
        exists|c: ClockReading| c.wf() && r@ == calendar_view(month_title(c.year as int, c.month as int),
            weekday_of(c.year as int, c.month as int, 1), days_in_month(c.year as int, c.month as int)),
{
    let c = read_clock();
    month_calendar(&c)
}

} // verus!
