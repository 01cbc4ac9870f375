//! The ordered rule table that classifies an input line.
//!
//! Each rule is one of a few kinds: an exact phrase, a prefix followed by the
//! rest of the line, a prefix followed by two parts cut at a separator, a
//! prefix followed by a quoted text, or a compound of these. Prefixes and
//! phrases match regardless of ASCII case; arguments keep their case. A rule
//! whose pieces are missing does not match, and the next rule is tried.
use vstd::prelude::*;
use crate::command::{Action, CommandView, ParsedCommand, Stat};
use crate::text::{
    after_first_word, chars_of, equals_ci, first_word, has_prefix_ci, next_word, parse_bounded,
    parse_number, slice_of, split_at_first, split_once, starts_with_ci, string_of, strip_char,
    strip_prefix, stripped_char, stripped_prefix, trim, trimmed, unquote, unquoted,
};

verus! {

/// The number of rules in the table.
pub const RULE_COUNT: usize = 37;

/// What follows the literal prefix `lit` of `s`.
pub open spec fn after(s: Seq<char>, lit: Seq<char>) -> Seq<char> {
    s.skip(lit.len() as int)
}

/// Exact phrase.
pub open spec fn exact(s: Seq<char>, lit: Seq<char>, a: Action) -> Option<CommandView> {
    if equals_ci(s, lit) {
        Some((a, seq![]))
    } else {
        None
    }
}

/// Prefix, then the trimmed rest of the line.
pub open spec fn rest_arg(s: Seq<char>, lit: Seq<char>) -> Option<Seq<char>> {
    if starts_with_ci(s, lit) {
        Some(trim(after(s, lit)))
    } else {
        None
    }
}

/// Prefix, then two trimmed parts cut at the first `sep`.
pub open spec fn split_args(s: Seq<char>, lit: Seq<char>, sep: Seq<char>) -> Option<(Seq<char>, Seq<char>)> {
    if starts_with_ci(s, lit) {
        match split_once(after(s, lit), sep) {
            Some(p) => Some((trim(p.0), trim(p.1))),
            None => None,
        }
    } else {
        None
    }
}

/// Prefix, then a text in double quotes, trimmed.
pub open spec fn quoted_arg(s: Seq<char>, lit: Seq<char>) -> Option<Seq<char>> {
    if starts_with_ci(s, lit) {
        match unquote(trim(after(s, lit))) {
            Some(q) => Some(trim(q)),
            None => None,
        }
    } else {
        None
    }
}

pub open spec fn one(a: Action, x: Option<Seq<char>>) -> Option<CommandView> {
    match x {
        Some(v) => Some((a, seq![v])),
        None => None,
    }
}

pub open spec fn two(a: Action, x: Option<(Seq<char>, Seq<char>)>) -> Option<CommandView> {
    match x {
        Some(p) => Some((a, seq![p.0, p.1])),
        None => None,
    }
}

/// `search "PATTERN" in TARGET`: the pattern as written, the target trimmed.
pub open spec fn search_args(s: Seq<char>) -> Option<(Seq<char>, Seq<char>)> {
    if starts_with_ci(s, "search "@) {
        match strip_char(trim(after(s, "search "@)), '"') {
            Some(r) => match split_once(r, "\""@) {
                Some(p) => match strip_prefix(trim(p.1), "in "@) {
                    Some(t) => Some((p.0, trim(t))),
                    None => None,
                },
                None => None,
            },
            None => None,
        }
    } else {
        None
    }
}

/// `generate password N`.
pub open spec fn password_rule(s: Seq<char>) -> Option<CommandView> {
    match rest_arg(s, "generate password "@) {
        Some(n) => match parse_bounded(n, usize::MAX as nat) {
            Some(v) => Some((Action::GeneratePassword(v as usize), seq![])),
            None => None,
        },
        None => None,
    }
}

/// `diff A B`: the first two words after the prefix.
pub open spec fn diff_args(s: Seq<char>) -> Option<(Seq<char>, Seq<char>)> {
    if starts_with_ci(s, "diff "@) {
        let r = after(s, "diff "@);
        let w1 = first_word(r);
        let w2 = first_word(after_first_word(r));
        if w1.len() > 0 && w2.len() > 0 {
            Some((w1, w2))
        } else {
            None
        }
    } else {
        None
    }
}

/// `rename files in DIR matching "PATTERN" to "REPLACEMENT"`.
pub open spec fn rename_rule(s: Seq<char>) -> Option<CommandView> {
    if starts_with_ci(s, "rename files in "@) {
        match split_once(after(s, "rename files in "@), " to "@) {
            Some(p) => match split_once(trim(p.0), " matching "@) {
                Some(q) => match (unquote(trim(q.1)), unquote(trim(p.1))) {
                    (Some(pat), Some(rep)) => Some((Action::RenameFiles, seq![trim(q.0), pat, rep])),
                    _ => None,
                },
                None => None,
            },
            None => None,
        }
    } else {
        None
    }
}

/// `resize image FILE to WxH`, both sizes fitting in `u32`.
pub open spec fn resize_rule(s: Seq<char>) -> Option<CommandView> {
    match split_args(s, "resize image "@, " to "@) {
        Some(p) => match split_once(p.1, "x"@) {
            Some(wh) => match (parse_bounded(trim(wh.0), u32::MAX as nat), parse_bounded(trim(wh.1), u32::MAX as nat)) {
                (Some(w), Some(h)) => Some((Action::ResizeImage(w as u32, h as u32), seq![p.0])),
                _ => None,
            },
            None => None,
        },
        None => None,
    }
}

/// `copy "TEXT" to clipboard`.
pub open spec fn copy_arg(s: Seq<char>) -> Option<Seq<char>> {
    if starts_with_ci(s, "copy "@) {
        match split_once(trim(after(s, "copy "@)), " to clipboard"@) {
            Some(p) => match unquote(trim(p.0)) {
                Some(q) => Some(trim(q)),
                None => None,
            },
            None => None,
        }
    } else {
        None
    }
}

/// `schedule "COMMAND" at HH:MM`.
pub open spec fn schedule_args(s: Seq<char>) -> Option<(Seq<char>, Seq<char>)> {
    if starts_with_ci(s, "schedule "@) {
        match strip_char(trim(after(s, "schedule "@)), '"') {
            Some(r) => match split_once(r, "\" at "@) {
                Some(p) => Some((trim(p.0), trim(p.1))),
                None => None,
            },
            None => None,
        }
    } else {
        None
    }
}

/// Rule `k` of the table applied to the trimmed line `s`.
pub open spec fn rule(k: int, s: Seq<char>) -> Option<CommandView> {
    if k == 0 { exact(s, "list files in current directory"@, Action::ListFiles) }
    else if k == 1 { one(Action::Calculate, rest_arg(s, "calculate "@)) }
    else if k == 2 { exact(s, "plot a sine wave"@, Action::PlotSineWave) }
    else if k == 3 { exact(s, "show current directory"@, Action::ShowCurrentDirectory) }
    else if k == 4 { one(Action::ChangeDirectory, rest_arg(s, "change directory to "@)) }
    else if k == 5 { one(Action::ShowFile, rest_arg(s, "show file "@)) }
    else if k == 6 { two(Action::WriteFile, split_args(s, "write to file "@, ":"@)) }
    else if k == 7 { one(Action::DeleteFile, rest_arg(s, "delete file "@)) }
    else if k == 8 { exact(s, "show system info"@, Action::ShowSystemInfo) }
    else if k == 9 { exact(s, "show date and time"@, Action::ShowDateTime) }
    else if k == 10 { exact(s, "help"@, Action::Help) }
    else if k == 11 { two(Action::Search, search_args(s)) }
    else if k == 12 { one(Action::SummarizeFile, rest_arg(s, "summarize file "@)) }
    else if k == 13 { one(Action::Count(Stat::Lines), rest_arg(s, "count lines in "@)) }
    else if k == 14 { one(Action::Count(Stat::Words), rest_arg(s, "count words in "@)) }
    else if k == 15 { one(Action::Count(Stat::Chars), rest_arg(s, "count chars in "@)) }
    else if k == 16 { exact(s, "show disk usage"@, Action::ShowDiskUsage) }
    else if k == 17 { exact(s, "show top processes"@, Action::ShowTopProcesses) }
    else if k == 18 { two(Action::Download, split_args(s, "download "@, " to "@)) }
    else if k == 19 { two(Action::Extract, split_args(s, "extract "@, " to "@)) }
    else if k == 20 { password_rule(s) }
    else if k == 21 { exact(s, "show calendar"@, Action::ShowCalendar) }
    else if k == 22 { one(Action::ShowWeather, rest_arg(s, "show weather in "@)) }
    else if k == 23 { one(Action::Explain, quoted_arg(s, "explain "@)) }
    else if k == 24 { two(Action::RunCode, split_args(s, "run code "@, ":"@)) }
    else if k == 25 { one(Action::RunShell, quoted_arg(s, "run "@)) }
    else if k == 26 { two(Action::Diff, diff_args(s)) }
    else if k == 27 { rename_rule(s) }
    else if k == 28 { resize_rule(s) }
    else if k == 29 { two(Action::ConvertImage, split_args(s, "convert image "@, " to "@)) }
    else if k == 30 { one(Action::PlayAudio, rest_arg(s, "play audio "@)) }
    else if k == 31 { two(Action::ConvertAudio, split_args(s, "convert audio "@, " to "@)) }
    else if k == 32 { one(Action::Speak, quoted_arg(s, "speak "@)) }
    else if k == 33 { one(Action::CopyToClipboard, copy_arg(s)) }
    else if k == 34 { exact(s, "paste from clipboard"@, Action::PasteFromClipboard) }
    else if k == 35 { one(Action::Watch, rest_arg(s, "watch "@)) }
    else if k == 36 { two(Action::Schedule, schedule_args(s)) }
    else { None }
}

/// The first rule at or after `k` that matches `s`.
pub open spec fn first_rule_from(k: int, s: Seq<char>) -> Option<CommandView>
    decreases RULE_COUNT - k,
{
    if k < 0 || k >= RULE_COUNT {
        None
    } else {
        match rule(k, s) {
            Some(c) => Some(c),
            None => first_rule_from(k + 1, s),
        }
    }
}

/// The meaning of an input line: the first rule that matches it, once trimmed.
pub open spec fn parse(line: Seq<char>) -> Option<CommandView> {
    first_rule_from(0, trim(line))
}

pub open spec fn opt_view(r: Option<ParsedCommand>) -> Option<CommandView> {
    match r {
        Some(c) => Some(c@),
        None => None,
    }
}

pub open spec fn opt_chars(r: Option<Vec<char>>) -> Option<Seq<char>> {
    match r {
        Some(v) => Some(v@),
        None => None,
    }
}

pub open spec fn opt_pair(r: Option<(Vec<char>, Vec<char>)>) -> Option<(Seq<char>, Seq<char>)> {
    match r {
        Some(p) => Some((p.0@, p.1@)),
        None => None,
    }
}

fn make0(a: Action) -> (r: ParsedCommand)
    ensures
        r@ == (a, Seq::<Seq<char>>::empty()),
{
    let r = ParsedCommand { action: a, args: Vec::new() };
    assert(r@.1 =~= Seq::<Seq<char>>::empty());
    r
}

fn make1(a: Action, x: &Vec<char>) -> (r: ParsedCommand)
    ensures
        r@ == (a, seq![x@]),
{
    let r = ParsedCommand { action: a, args: vec![string_of(x)] };
    assert(r@.1 =~= seq![x@]);
    r
}

fn make2(a: Action, x: &Vec<char>, y: &Vec<char>) -> (r: ParsedCommand)
    ensures
        r@ == (a, seq![x@, y@]),
{
    let r = ParsedCommand { action: a, args: vec![string_of(x), string_of(y)] };
    assert(r@.1 =~= seq![x@, y@]);
    r
}

fn make3(a: Action, x: &Vec<char>, y: &Vec<char>, z: &Vec<char>) -> (r: ParsedCommand)
    ensures
        r@ == (a, seq![x@, y@, z@]),
{
    let r = ParsedCommand { action: a, args: vec![string_of(x), string_of(y), string_of(z)] };
    assert(r@.1 =~= seq![x@, y@, z@]);
    r
}

fn one_exec(a: Action, x: Option<Vec<char>>) -> (r: Option<ParsedCommand>)
    ensures
        opt_view(r) == one(a, opt_chars(x)),
{
    match x {
        Some(v) => Some(make1(a, &v)),
        None => None,
    }
}

fn two_exec(a: Action, x: Option<(Vec<char>, Vec<char>)>) -> (r: Option<ParsedCommand>)
    ensures
        opt_view(r) == two(a, opt_pair(x)),
{
    match x {
        Some(p) => Some(make2(a, &p.0, &p.1)),
        None => None,
    }
}

fn after_exec(s: &Vec<char>, lit: &Vec<char>) -> (r: Vec<char>)
    requires
        lit@.len() <= s@.len(),
    ensures
        r@ == after(s@, lit@),
{
    let r = slice_of(s, lit.len(), s.len());
    assert(r@ =~= after(s@, lit@));
    r
}

fn exact_exec(s: &Vec<char>, lit: &str, a: Action) -> (r: Option<ParsedCommand>)
    ensures
        opt_view(r) == exact(s@, lit@, a),
{
    let l = chars_of(lit);
    if s.len() == l.len() && has_prefix_ci(s, &l) {
        Some(make0(a))
    } else {
        None
    }
}

fn rest_exec(s: &Vec<char>, lit: &str) -> (r: Option<Vec<char>>)
    ensures
        opt_chars(r) == rest_arg(s@, lit@),
{
    let l = chars_of(lit);
    if has_prefix_ci(s, &l) {
        Some(trimmed(&after_exec(s, &l)))
    } else {
        None
    }
}

fn split_exec(s: &Vec<char>, lit: &str, sep: &str) -> (r: Option<(Vec<char>, Vec<char>)>)
    ensures
        opt_pair(r) == split_args(s@, lit@, sep@),
{
    let l = chars_of(lit);
    if has_prefix_ci(s, &l) {
        let rest = after_exec(s, &l);
        match split_at_first(&rest, &chars_of(sep)) {
            Some(p) => Some((trimmed(&p.0), trimmed(&p.1))),
            None => None,
        }
    } else {
        None
    }
}

fn quoted_exec(s: &Vec<char>, lit: &str) -> (r: Option<Vec<char>>)
    ensures
        opt_chars(r) == quoted_arg(s@, lit@),
{
    let l = chars_of(lit);
    if has_prefix_ci(s, &l) {
        match unquoted(&trimmed(&after_exec(s, &l))) {
            Some(q) => Some(trimmed(&q)),
            None => None,
        }
    } else {
        None
    }
}

fn search_exec(s: &Vec<char>) -> (r: Option<(Vec<char>, Vec<char>)>)
    ensures
        opt_pair(r) == search_args(s@),
{
    let l = chars_of("search ");
    if !has_prefix_ci(s, &l) {
        return None;
    }
    let r1 = match stripped_char(&trimmed(&after_exec(s, &l)), '"') {
        Some(v) => v,
        None => return None,
    };
    let p = match split_at_first(&r1, &chars_of("\"")) {
        Some(p) => p,
        None => return None,
    };
    match stripped_prefix(&trimmed(&p.1), &chars_of("in ")) {
        Some(t) => Some((p.0, trimmed(&t))),
        None => None,
    }
}

fn password_exec(s: &Vec<char>) -> (r: Option<ParsedCommand>)
    ensures
        opt_view(r) == password_rule(s@),
{
    match rest_exec(s, "generate password ") {
        Some(n) => match parse_number(&n, usize::MAX as u64) {
            Some(v) => Some(make0(Action::GeneratePassword(v as usize))),
            None => None,
        },
        None => None,
    }
}

fn diff_exec(s: &Vec<char>) -> (r: Option<(Vec<char>, Vec<char>)>)
    ensures
        opt_pair(r) == diff_args(s@),
{
    let l = chars_of("diff ");
    if !has_prefix_ci(s, &l) {
        return None;
    }
    let rest = after_exec(s, &l);
    let (w1, more) = next_word(&rest);
    let (w2, _) = next_word(&more);
    if w1.len() > 0 && w2.len() > 0 {
        Some((w1, w2))
    } else {
        None
    }
}

fn rename_exec(s: &Vec<char>) -> (r: Option<ParsedCommand>)
    ensures
        opt_view(r) == rename_rule(s@),
{
    let l = chars_of("rename files in ");
    if !has_prefix_ci(s, &l) {
        return None;
    }
    let p = match split_at_first(&after_exec(s, &l), &chars_of(" to ")) {
        Some(p) => p,
        None => return None,
    };
    let q = match split_at_first(&trimmed(&p.0), &chars_of(" matching ")) {
        Some(q) => q,
        None => return None,
    };
    let pat = unquoted(&trimmed(&q.1));
    let rep = unquoted(&trimmed(&p.1));
    match (pat, rep) {
        (Some(pat), Some(rep)) => Some(make3(Action::RenameFiles, &trimmed(&q.0), &pat, &rep)),
        _ => None,
    }
}

fn resize_exec(s: &Vec<char>) -> (r: Option<ParsedCommand>)
    ensures
        opt_view(r) == resize_rule(s@),
{
    let p = match split_exec(s, "resize image ", " to ") {
        Some(p) => p,
        None => return None,
    };
    let wh = match split_at_first(&p.1, &chars_of("x")) {
        Some(wh) => wh,
        None => return None,
    };
    let w = parse_number(&trimmed(&wh.0), u32::MAX as u64);
    let h = parse_number(&trimmed(&wh.1), u32::MAX as u64);
    match (w, h) {
        (Some(w), Some(h)) => Some(make1(Action::ResizeImage(w as u32, h as u32), &p.0)),
        _ => None,
    }
}

fn copy_exec(s: &Vec<char>) -> (r: Option<Vec<char>>)
    ensures
        opt_chars(r) == copy_arg(s@),
{
    let l = chars_of("copy ");
    if !has_prefix_ci(s, &l) {
        return None;
    }
    let p = match split_at_first(&trimmed(&after_exec(s, &l)), &chars_of(" to clipboard")) {
        Some(p) => p,
        None => return None,
    };
    match unquoted(&trimmed(&p.0)) {
        Some(q) => Some(trimmed(&q)),
        None => None,
    }
}

fn schedule_exec(s: &Vec<char>) -> (r: Option<(Vec<char>, Vec<char>)>)
    ensures
        opt_pair(r) == schedule_args(s@),
{
    let l = chars_of("schedule ");
    if !has_prefix_ci(s, &l) {
        return None;
    }
    let r1 = match stripped_char(&trimmed(&after_exec(s, &l)), '"') {
        Some(v) => v,
        None => return None,
    };
    match split_at_first(&r1, &chars_of("\" at ")) {
        Some(p) => Some((trimmed(&p.0), trimmed(&p.1))),
        None => None,
    }
}

/// Applies rule `k` of the table to the trimmed line `s`.
pub fn try_rule(k: usize, s: &Vec<char>) -> (r: Option<ParsedCommand>)
    ensures
        opt_view(r) == rule(k as int, s@),
{
    if k == 0 { exact_exec(s, "list files in current directory", Action::ListFiles) }
    else if k == 1 { one_exec(Action::Calculate, rest_exec(s, "calculate ")) }
    else if k == 2 { exact_exec(s, "plot a sine wave", Action::PlotSineWave) }
    else if k == 3 { exact_exec(s, "show current directory", Action::ShowCurrentDirectory) }
    else if k == 4 { one_exec(Action::ChangeDirectory, rest_exec(s, "change directory to ")) }
    else if k == 5 { one_exec(Action::ShowFile, rest_exec(s, "show file ")) }
    else if k == 6 { two_exec(Action::WriteFile, split_exec(s, "write to file ", ":")) }
    else if k == 7 { one_exec(Action::DeleteFile, rest_exec(s, "delete file ")) }
    else if k == 8 { exact_exec(s, "show system info", Action::ShowSystemInfo) }
    else if k == 9 { exact_exec(s, "show date and time", Action::ShowDateTime) }
    else if k == 10 { exact_exec(s, "help", Action::Help) }
    else if k == 11 { two_exec(Action::Search, search_exec(s)) }
    else if k == 12 { one_exec(Action::SummarizeFile, rest_exec(s, "summarize file ")) }
    else if k == 13 { one_exec(Action::Count(Stat::Lines), rest_exec(s, "count lines in ")) }
    else if k == 14 { one_exec(Action::Count(Stat::Words), rest_exec(s, "count words in ")) }
    else if k == 15 { one_exec(Action::Count(Stat::Chars), rest_exec(s, "count chars in ")) }
    else if k == 16 { exact_exec(s, "show disk usage", Action::ShowDiskUsage) }
    else if k == 17 { exact_exec(s, "show top processes", Action::ShowTopProcesses) }
    else if k == 18 { two_exec(Action::Download, split_exec(s, "download ", " to ")) }
    else if k == 19 { two_exec(Action::Extract, split_exec(s, "extract ", " to ")) }
    else if k == 20 { password_exec(s) }
    else if k == 21 { exact_exec(s, "show calendar", Action::ShowCalendar) }
    else if k == 22 { one_exec(Action::ShowWeather, rest_exec(s, "show weather in ")) }
    else if k == 23 { one_exec(Action::Explain, quoted_exec(s, "explain ")) }
    else if k == 24 { two_exec(Action::RunCode, split_exec(s, "run code ", ":")) }
    else if k == 25 { one_exec(Action::RunShell, quoted_exec(s, "run ")) }
    else if k == 26 { two_exec(Action::Diff, diff_exec(s)) }
    else if k == 27 { rename_exec(s) }
    else if k == 28 { resize_exec(s) }
    else if k == 29 { two_exec(Action::ConvertImage, split_exec(s, "convert image ", " to ")) }
    else if k == 30 { one_exec(Action::PlayAudio, rest_exec(s, "play audio ")) }
    else if k == 31 { two_exec(Action::ConvertAudio, split_exec(s, "convert audio ", " to ")) }
    else if k == 32 { one_exec(Action::Speak, quoted_exec(s, "speak ")) }
    else if k == 33 { one_exec(Action::CopyToClipboard, copy_exec(s)) }
    else if k == 34 { exact_exec(s, "paste from clipboard", Action::PasteFromClipboard) }
    else if k == 35 { one_exec(Action::Watch, rest_exec(s, "watch ")) }
    else if k == 36 { two_exec(Action::Schedule, schedule_exec(s)) }
    else { None }
}

/// Classifies an input line: the first rule of the table that matches the
/// trimmed line, with its arguments, or `None` when no rule does.
pub fn parse_command(line: &str) -> (r: Option<ParsedCommand>)
    ensures
        opt_view(r) == parse(line@),
{
    let s = trimmed(&chars_of(line));
    let mut k: usize = 0;
    while k < RULE_COUNT
        invariant
            k <= RULE_COUNT,
            s@ == trim(line@),
            first_rule_from(0, s@) == first_rule_from(k as int, s@),
        decreases RULE_COUNT - k,
    {
        let r = try_rule(k, &s);
        if r.is_some() {
            return r;
        }
        k = k + 1;
    }
    None
}

/// The number of text arguments an action takes.
pub open spec fn arity(a: Action) -> nat {
    match a {
        Action::Calculate | Action::ChangeDirectory | Action::ShowFile | Action::DeleteFile
        | Action::SummarizeFile | Action::Count(_) | Action::ShowWeather | Action::Explain
        | Action::RunShell | Action::ResizeImage(_, _) | Action::PlayAudio | Action::Speak
        | Action::CopyToClipboard | Action::Watch => 1,
        Action::WriteFile | Action::Search | Action::Download | Action::Extract | Action::RunCode
        | Action::Diff | Action::ConvertImage | Action::ConvertAudio | Action::Schedule => 2,
        Action::RenameFiles => 3,
        _ => 0,
    }
}

proof fn lemma_rule_arity(k: int, s: Seq<char>)
    ensures
        rule(k, s) matches Some(c) ==> c.1.len() == arity(c.0),
{
    // One branch per rule, so that each rule is unfolded on its own.
    if k == 0 {
    } else if k == 1 {
    } else if k == 2 {
    } else if k == 3 {
    } else if k == 4 {
    } else if k == 5 {
    } else if k == 6 {
    } else if k == 7 {
    } else if k == 8 {
    } else if k == 9 {
    } else if k == 10 {
    } else if k == 11 {
    } else if k == 12 {
    } else if k == 13 {
    } else if k == 14 {
    } else if k == 15 {
    } else if k == 16 {
    } else if k == 17 {
    } else if k == 18 {
    } else if k == 19 {
    } else if k == 20 {
    } else if k == 21 {
    } else if k == 22 {
    } else if k == 23 {
    } else if k == 24 {
    } else if k == 25 {
    } else if k == 26 {
    } else if k == 27 {
    } else if k == 28 {
    } else if k == 29 {
    } else if k == 30 {
    } else if k == 31 {
    } else if k == 32 {
    } else if k == 33 {
    } else if k == 34 {
    } else if k == 35 {
    } else if k == 36 {
    }
}

proof fn lemma_first_rule_arity(k: int, s: Seq<char>)
    ensures
        first_rule_from(k, s) matches Some(c) ==> c.1.len() == arity(c.0),
    decreases RULE_COUNT - k,
{
    if 0 <= k < RULE_COUNT {
        lemma_rule_arity(k, s);
        lemma_first_rule_arity(k + 1, s);
    }
}

/// Every recognised line carries exactly as many arguments as its action
/// takes, so the dispatcher never meets a wrong argument count.
pub proof fn lemma_parse_arity(line: Seq<char>)
    ensures
        parse(line) matches Some(c) ==> c.1.len() == arity(c.0),
{
    lemma_first_rule_arity(0, trim(line));
}

} // verus!
