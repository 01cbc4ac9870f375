use terminal_ai::actions::{
    archive_kind, calculate, calculation_text, calendar_text, code_runner, compile,
    converted_audio_path, converted_image_path, count_stat, date_time_text, explain_shell_command,
    file_diff, generate_password, help, month_calendar, month_length, process_report, rename_line, rename_report, renamed_to,
    resized_image_path, resized_image_saved, schedule_delay, schedule_delay_from, schedule_notice, search_report,
    search_text, seconds_until, show_calendar, show_date_time, summarize, system_info,
    target_not_found, weather_url, ArchiveKind, Failure, Runner, DAY_SECONDS, HELP_TEXT,
};
use terminal_ai::bindings::ClockReading;
use terminal_ai::command::Stat;
use terminal_ai::dispatch::{handle_command, Reply};

fn output(line: &str) -> String {
    match handle_command(line) {
        Reply::Output(t) => t,
        other => panic!("unexpected {other:?}"),
    }
}

#[test]
fn calculate_honours_precedence() {
    assert_eq!(output("calculate 2 + 2 * 3"), "8");
    assert_eq!(calculate("(2 + 2) * 3"), "12");
}

#[test]
fn calculate_reports_bad_expressions_as_text() {
    let t = calculate("2 +");
    assert!(t.starts_with("Error: "), "{t}");
    assert_eq!(calculation_text(Err("oops".to_string())), "Error: oops");
    assert_eq!(calculation_text(Ok("3.5".to_string())), "3.5");
}

#[test]
fn password_of_length_zero_is_empty() {
    assert_eq!(output("generate password 0"), "");
    assert_eq!(generate_password(0), "");
}

#[test]
fn password_of_length_sixteen() {
    let p = output("generate password 16");
    assert_eq!(p.chars().count(), 16);
    assert!(p.chars().all(|c| c.is_ascii_alphanumeric()));
}

#[test]
fn help_and_explain() {
    assert_eq!(output("HELP"), HELP_TEXT);
    assert!(help().starts_with("Available commands:\n- list files in current directory\n"));
    assert_eq!(output("explain \"ls\""), "[Explanation for shell command: 'ls']");
    assert_eq!(explain_shell_command("rm -rf x"), "[Explanation for shell command: 'rm -rf x']");
}

#[test]
fn count_words_in_spaced_text() {
    assert_eq!(count_stat("a b  c", Stat::Words), "words: 3");
    assert_eq!(count_stat("", Stat::Words), "words: 0");
    assert_eq!(count_stat(" \t\n", Stat::Words), "words: 0");
}

#[test]
fn count_lines_and_chars() {
    assert_eq!(count_stat("a\nb\r\nc\n", Stat::Lines), "lines: 3");
    assert_eq!(count_stat("a\n\nb", Stat::Lines), "lines: 3");
    assert_eq!(count_stat("", Stat::Lines), "lines: 0");
    assert_eq!(count_stat("héllo\n", Stat::Chars), "chars: 6");
    assert_eq!(count_stat("0123456789", Stat::Chars), "chars: 10");
}

#[test]
fn summary_takes_five_nonblank_lines() {
    assert_eq!(summarize("a\n\n  \nb\nc\nd\ne\nf\n"), "Summary:\na\nb\nc\nd\ne");
    assert_eq!(summarize("one\r\n two"), "Summary:\none\n two");
    assert_eq!(summarize(""), "File is empty or contains no summary lines.");
    assert_eq!(summarize(" \n\t\n"), "File is empty or contains no summary lines.");
}

#[test]
fn search_without_matches() {
    let p = match compile("TODO") {
        Ok(p) => p,
        Err(f) => panic!("{}", f.render()),
    };
    let mut results = Vec::new();
    search_text(&p, "src/a.rs", "fn main() {}\nlet x = 1;\n", &mut results);
    assert!(results.is_empty());
    assert_eq!(search_report(&results), "No matches found.");
}

#[test]
fn search_reports_numbered_lines() {
    let p = compile("TO+DO").ok().unwrap();
    let mut results = Vec::new();
    search_text(&p, "a.txt", "x\n// TODO one\ny\nTOOODO two", &mut results);
    search_text(&p, "b.txt", "TODO", &mut results);
    assert_eq!(results, vec!["a.txt:2: // TODO one", "a.txt:4: TOOODO two", "b.txt:1: TODO"]);
    assert_eq!(search_report(&results), "a.txt:2: // TODO one\na.txt:4: TOOODO two\nb.txt:1: TODO");
    assert_eq!(target_not_found("nowhere"), "Target 'nowhere' not found");
}

#[test]
fn bad_pattern_is_an_invalid_argument() {
    match compile("(") {
        Err(f) => {
            assert!(matches!(f, Failure::InvalidArgument(_)));
            assert!(f.render().starts_with("Error: "));
        },
        Ok(_) => panic!("pattern should be refused"),
    }
}

#[test]
fn rename_targets() {
    let p = compile("^old").ok().unwrap();
    assert_eq!(renamed_to(&p, "old_a.txt", "new"), Some("new_a.txt".to_string()));
    assert_eq!(renamed_to(&p, "b_old.txt", "new"), None);
    let q = compile("(\\d+)").ok().unwrap();
    assert_eq!(renamed_to(&q, "a1b22", "<$1>"), Some("a<1>b<22>".to_string()));
    assert_eq!(rename_line("old_a.txt", "docs/new_a.txt"), "old_a.txt -> docs/new_a.txt");
    assert_eq!(rename_report(&vec![]), "No files matched the pattern.");
    assert_eq!(rename_report(&vec!["a -> b".to_string(), "c -> d".to_string()]), "Renamed files:\na -> b\nc -> d");
}

#[test]
fn resized_image_name() {
    assert_eq!(resized_image_path("a.png"), "a.png_resized.png");
    assert_eq!(resized_image_saved(&resized_image_path("a.png")), "Resized image saved to a.png_resized.png");
}

#[test]
fn converted_image_names() {
    assert_eq!(converted_image_path("a.png", "JPEG"), Some("a.png.jpg".to_string()));
    assert_eq!(converted_image_path("a.png", "gif"), Some("a.png.gif".to_string()));
    assert_eq!(converted_image_path("a", "Png"), Some("a.png".to_string()));
    assert_eq!(converted_image_path("a.png", "tiff"), None);
    assert_eq!(converted_audio_path("a.wav", "mp3"), "a.wav.mp3");
}

#[test]
fn archive_kinds() {
    assert_eq!(archive_kind("a.zip"), ArchiveKind::Zip);
    assert_eq!(archive_kind("a.tar.gz"), ArchiveKind::TarGz);
    assert_eq!(archive_kind("a.tgz"), ArchiveKind::TarGz);
    assert_eq!(archive_kind("a.rar"), ArchiveKind::Unsupported);
    assert_eq!(archive_kind("zip"), ArchiveKind::Unsupported);
}

#[test]
fn code_runners() {
    assert_eq!(code_runner("Python"), Some(Runner::Python));
    assert_eq!(code_runner("JS"), Some(Runner::Node));
    assert_eq!(code_runner("node"), Some(Runner::Node));
    assert_eq!(code_runner("sh"), Some(Runner::Bash));
    assert_eq!(code_runner("ruby"), None);
}

#[test]
fn process_output() {
    assert_eq!(process_report("out\n", "  \n"), "out\n");
    assert_eq!(process_report("out\n", "bad\n"), "out\n\n[stderr]: bad\n");
}

#[test]
fn weather_address() {
    assert_eq!(weather_url("New York"), "https://wttr.in/New+York?format=3");
    assert_eq!(weather_url("Paris"), "https://wttr.in/Paris?format=3");
}

#[test]
fn diff_of_two_texts() {
    let d = file_diff("a.txt", "b.txt", "one\ntwo\n", "one\nthree\n");
    assert!(d.starts_with("--- a.txt\n+++ b.txt\n"), "{d}");
    assert!(d.contains("-two\n") && d.contains("+three\n"), "{d}");
    assert_eq!(file_diff("a", "b", "same\n", "same\n"), "");
}

#[test]
fn schedule_wait() {
    assert_eq!(seconds_until((10, 0, 0), (10, 30)), 1800);
    assert_eq!(seconds_until((23, 59, 30), (0, 0)), 30);
    assert_eq!(seconds_until((12, 0, 0), (12, 0)), 0);
    assert_eq!(seconds_until((12, 0, 1), (12, 0)), DAY_SECONDS - 1);
    match schedule_delay("07:15") {
        Ok(d) => assert!(d < DAY_SECONDS),
        Err(f) => panic!("{}", f.render()),
    }
    assert!(matches!(schedule_delay("25:99"), Err(Failure::InvalidArgument(_))));
    assert!(matches!(schedule_delay("noon"), Err(Failure::InvalidArgument(_))));
    assert_eq!(schedule_notice("ls", 90, "10:30"), "Scheduling command 'ls' to run in 90 seconds (at 10:30).");
}

#[test]
fn failure_rendering() {
    assert_eq!(Failure::NotFound("no such file".to_string()).render(), "Error: no such file");
    assert_eq!(Failure::IoFailure("denied".to_string()).render(), "Error: denied");
    assert_eq!(Failure::ExternalToolFailure("exit 1".to_string()).render(), "Error: exit 1");
    assert_eq!(Failure::NetworkFailure("unreachable".to_string()).render(), "Error: unreachable");
}

#[test]
fn calendar_of_a_month_starting_on_sunday() {
    let expected = "   February 2015    \nSu Mo Tu We Th Fr Sa\n 1  2  3  4  5  6  7\n 8  9 10 11 12 13 14\n15 16 17 18 19 20 21\n22 23 24 25 26 27 28\n";
    assert_eq!(calendar_text("February 2015", 0, 28), expected);
}

#[test]
fn calendar_of_a_month_starting_on_saturday() {
    let c = calendar_text("March 2025", 6, 31);
    let lines: Vec<&str> = c.lines().collect();
    assert_eq!(lines.len(), 8);
    assert_eq!(lines[0], "     March 2025     ");
    assert_eq!(lines[1], "Su Mo Tu We Th Fr Sa");
    assert_eq!(lines[2], "                   1");
    assert_eq!(lines[3], " 2  3  4  5  6  7  8");
    assert_eq!(lines[7], "30 31               ");
}

#[test]
fn current_calendar_has_the_weekday_header() {
    let c = show_calendar();
    assert_eq!(c.lines().nth(1), Some("Su Mo Tu We Th Fr Sa"));
    assert!(c.contains(" 1 ") || c.ends_with(" 1\n"));
    assert!(c.contains("28"));
}

#[test]
fn date_time_layout() {
    assert_eq!(date_time_text((2024, 3, 5, 7, 8, 9)), "2024-03-05 07:08:09");
    assert_eq!(date_time_text((987, 12, 31, 23, 59, 58)), "0987-12-31 23:59:58");
    assert_eq!(date_time_text((-1, 1, 1, 0, 0, 0)), "-0001-01-01 00:00:00");
    assert_eq!(date_time_text((10000, 1, 1, 0, 0, 0)), "+10000-01-01 00:00:00");
}

#[test]
fn current_date_time_shape() {
    let t = show_date_time();
    assert_eq!(t.len(), 19, "{t}");
    assert_eq!(&t[4..5], "-");
    assert_eq!(&t[10..11], " ");
    assert_eq!(&t[13..14], ":");
}

#[test]
fn system_info_lines() {
    assert_eq!(system_info("linux", "x86_64"), "OS: linux\nArch: x86_64");
}

#[test]
fn month_lengths() {
    assert_eq!(month_length(2024, 2), 29);
    assert_eq!(month_length(2023, 2), 28);
    assert_eq!(month_length(1900, 2), 28);
    assert_eq!(month_length(2000, 2), 29);
    assert_eq!(month_length(-4, 2), 29);
    assert_eq!(month_length(2023, 4), 30);
    assert_eq!(month_length(2023, 12), 31);
}

#[test]
fn calendar_from_a_clock_reading() {
    let c = ClockReading { year: 2015, month: 2, day: 10, weekday: 2, hour: 9, minute: 0, second: 0 };
    assert_eq!(month_calendar(&c), calendar_text("February 2015", 0, 28));
    let d = ClockReading { year: 2025, month: 3, day: 31, weekday: 1, hour: 0, minute: 0, second: 0 };
    assert_eq!(month_calendar(&d), calendar_text("March 2025", 6, 31));
}

#[test]
fn schedule_wait_from_a_reading() {
    let now = ClockReading { year: 2026, month: 10, day: 1, weekday: 4, hour: 23, minute: 50, second: 0 };
    assert!(matches!(schedule_delay_from(&now, "00:10"), Ok(1200)));
    assert!(matches!(schedule_delay_from(&now, "23:50"), Ok(0)));
    assert!(matches!(schedule_delay_from(&now, "7pm"), Err(Failure::InvalidArgument(_))));
}
