use terminal_ai::command::{Action, ParsedCommand, Stat};
use terminal_ai::dispatch::{handle_command, Reply};
use terminal_ai::matcher::parse_command;

fn parsed(line: &str) -> (Action, Vec<String>) {
    let c: ParsedCommand = parse_command(line).expect("line should be recognised");
    (c.action, c.args)
}

fn args(v: &[&str]) -> Vec<String> {
    v.iter().map(|s| s.to_string()).collect()
}

#[test]
fn exact_phrases_ignore_case_and_surrounding_space() {
    assert_eq!(parsed("  List Files In Current Directory "), (Action::ListFiles, args(&[])));
    assert_eq!(parsed("SHOW CURRENT DIRECTORY"), (Action::ShowCurrentDirectory, args(&[])));
    assert_eq!(parsed("paste from clipboard"), (Action::PasteFromClipboard, args(&[])));
    assert_eq!(parsed("show calendar"), (Action::ShowCalendar, args(&[])));
    assert!(parse_command("show calendar please").is_none());
}

#[test]
fn prefixes_ignore_case_but_arguments_keep_it() {
    assert_eq!(parsed("Show File  Notes.TXT "), (Action::ShowFile, args(&["Notes.TXT"])));
    assert_eq!(parsed("change directory to /Tmp"), (Action::ChangeDirectory, args(&["/Tmp"])));
    assert_eq!(parsed("calculate 2 + 2 * 3"), (Action::Calculate, args(&["2 + 2 * 3"])));
}

#[test]
fn write_splits_at_the_first_colon() {
    assert_eq!(parsed("write to file f.txt: hello: world"), (Action::WriteFile, args(&["f.txt", "hello: world"])));
    assert!(parse_command("write to file f.txt hello").is_none());
}

#[test]
fn write_then_show_name_the_same_file() {
    assert_eq!(parsed("write to file f.txt: hello"), (Action::WriteFile, args(&["f.txt", "hello"])));
    assert_eq!(parsed("show file f.txt"), (Action::ShowFile, args(&["f.txt"])));
}

#[test]
fn search_keeps_pattern_as_written() {
    assert_eq!(parsed("search \" TODO\" in  src "), (Action::Search, args(&[" TODO", "src"])));
    assert!(parse_command("search TODO in src").is_none());
    assert!(parse_command("search \"TODO\" src").is_none());
}

#[test]
fn count_rules() {
    assert_eq!(parsed("count words in notes.txt"), (Action::Count(Stat::Words), args(&["notes.txt"])));
    assert_eq!(parsed("count lines in a"), (Action::Count(Stat::Lines), args(&["a"])));
    assert_eq!(parsed("count chars in b"), (Action::Count(Stat::Chars), args(&["b"])));
    assert!(parse_command("count bytes in b").is_none());
}

#[test]
fn split_rules() {
    assert_eq!(parsed("download http://x/y to y.bin"), (Action::Download, args(&["http://x/y", "y.bin"])));
    assert_eq!(parsed("extract a.zip to out"), (Action::Extract, args(&["a.zip", "out"])));
    assert_eq!(parsed("convert image a.png to JPG"), (Action::ConvertImage, args(&["a.png", "JPG"])));
    assert_eq!(parsed("convert audio a.wav to mp3"), (Action::ConvertAudio, args(&["a.wav", "mp3"])));
    assert!(parse_command("download http://x/y").is_none());
}

#[test]
fn password_lengths() {
    assert_eq!(parsed("generate password 0"), (Action::GeneratePassword(0), args(&[])));
    assert_eq!(parsed("generate password +16"), (Action::GeneratePassword(16), args(&[])));
    assert!(parse_command("generate password -1").is_none());
    assert!(parse_command("generate password ten").is_none());
    assert!(parse_command("generate password 99999999999999999999999").is_none());
}

#[test]
fn quoted_rules() {
    assert_eq!(parsed("explain \" ls -la \""), (Action::Explain, args(&["ls -la"])));
    assert_eq!(parsed("run \"echo hi\""), (Action::RunShell, args(&["echo hi"])));
    assert_eq!(parsed("speak \"hello\""), (Action::Speak, args(&["hello"])));
    assert_eq!(parsed("copy \"abc\" to clipboard"), (Action::CopyToClipboard, args(&["abc"])));
    assert!(parse_command("explain \"").is_none());
    assert!(parse_command("run echo hi").is_none());
}

#[test]
fn explain_without_quotes_is_unrecognised() {
    assert!(parse_command("explain shell-cmd").is_none());
    assert!(matches!(handle_command("explain shell-cmd"), Reply::Unrecognized));
}

#[test]
fn run_code_is_not_taken_by_run() {
    assert_eq!(parsed("run code python: print(1)"), (Action::RunCode, args(&["python", "print(1)"])));
    assert!(parse_command("run code python print(1)").is_none());
}

#[test]
fn diff_takes_the_first_two_words() {
    assert_eq!(parsed("diff  a.txt   b.txt c.txt"), (Action::Diff, args(&["a.txt", "b.txt"])));
    assert!(parse_command("diff a.txt").is_none());
}

#[test]
fn rename_compound() {
    assert_eq!(
        parsed("rename files in docs matching \"^old\" to \"new\""),
        (Action::RenameFiles, args(&["docs", "^old", "new"]))
    );
    assert!(parse_command("rename files in docs matching ^old to \"new\"").is_none());
    assert!(parse_command("rename files in docs to \"new\"").is_none());
}

#[test]
fn resize_reads_both_sizes() {
    assert_eq!(parsed("resize image a.png to 100x50"), (Action::ResizeImage(100, 50), args(&["a.png"])));
    assert_eq!(parsed("resize image a.png to 100 x 50"), (Action::ResizeImage(100, 50), args(&["a.png"])));
    assert!(parse_command("resize image a.png to 100by50").is_none());
    assert!(parse_command("resize image a.png to 5000000000x1").is_none());
}

#[test]
fn schedule_and_watch() {
    assert_eq!(parsed("schedule \"echo hi\" at 10:30"), (Action::Schedule, args(&["echo hi", "10:30"])));
    assert_eq!(parsed("watch src"), (Action::Watch, args(&["src"])));
    assert_eq!(parsed("play audio a.wav"), (Action::PlayAudio, args(&["a.wav"])));
    assert_eq!(parsed("show weather in New York"), (Action::ShowWeather, args(&["New York"])));
}

#[test]
fn unmatched_lines_are_unrecognised() {
    for line in ["", "   ", "exit", "EXIT", " Exit ", "hello there", "show", "run", "list files"] {
        assert!(parse_command(line).is_none(), "{line:?}");
        assert!(matches!(handle_command(line), Reply::Unrecognized), "{line:?}");
    }
}

#[test]
fn effects_are_handed_back() {
    match handle_command("show current directory") {
        Reply::Perform(c) => assert_eq!(c.action, Action::ShowCurrentDirectory),
        other => panic!("unexpected {other:?}"),
    }
    match handle_command("delete file x") {
        Reply::Perform(c) => assert_eq!((c.action, c.args), (Action::DeleteFile, args(&["x"]))),
        other => panic!("unexpected {other:?}"),
    }
}
