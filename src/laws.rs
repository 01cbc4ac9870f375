//! Laws of the rule table, proved over the matcher's spec functions.
use vstd::prelude::*;
use crate::actions::{search_hits, search_report_view};
use crate::bindings::regex_finds;
use crate::command::Action;
use crate::matcher::{after, first_rule_from, parse, rule, split_args, two, RULE_COUNT};
use crate::text::{
    char_matches, decimal, equals_ci, is_digit, is_space, lemma_decimal_reads_back,
    lemma_find_first, lemma_trim_end_keeps_first, lemma_trim_end_noop, lemma_trim_start_noop,
    lemma_trimmed_ends, occurs_at, parse_bounded, parse_unsigned, split_once, starts_with_ci,
    strip_char, strip_prefix, trim, trim_end, trim_start, unsigned_digits,
};

verus! {

/// Rules `from` up to `to` all fail on `s`, so the search passes over them.
proof fn lemma_skip_rules(s: Seq<char>, from: int, to: int)
    requires
        0 <= from <= to <= RULE_COUNT,
        forall|k: int| from <= k < to ==> (#[trigger] rule(k, s)) is None,
    ensures
        first_rule_from(from, s) == first_rule_from(to, s),
    decreases to - from,
{
    if from < to {
        assert(rule(from, s) is None);
        lemma_skip_rules(s, from + 1, to);
    }
}

proof fn lemma_no_rule_on_exit(k: int, s: Seq<char>)
    requires
        equals_ci(s, "exit"@),
    ensures
        rule(k, s) is None,
{
    reveal_strlit("list files in current directory");
    reveal_strlit("calculate ");
    reveal_strlit("plot a sine wave");
    reveal_strlit("show current directory");
    reveal_strlit("change directory to ");
    reveal_strlit("show file ");
    reveal_strlit("write to file ");
    reveal_strlit("delete file ");
    reveal_strlit("show system info");
    reveal_strlit("show date and time");
    reveal_strlit("help");
    reveal_strlit("search ");
    reveal_strlit("summarize file ");
    reveal_strlit("count lines in ");
    reveal_strlit("count words in ");
    reveal_strlit("count chars in ");
    reveal_strlit("show disk usage");
    reveal_strlit("show top processes");
    reveal_strlit("download ");
    reveal_strlit("extract ");
    reveal_strlit("generate password ");
    reveal_strlit("show calendar");
    reveal_strlit("show weather in ");
    reveal_strlit("explain ");
    reveal_strlit("run code ");
    reveal_strlit("run ");
    reveal_strlit("diff ");
    reveal_strlit("rename files in ");
    reveal_strlit("resize image ");
    reveal_strlit("convert image ");
    reveal_strlit("play audio ");
    reveal_strlit("convert audio ");
    reveal_strlit("speak ");
    reveal_strlit("copy ");
    reveal_strlit("paste from clipboard");
    reveal_strlit("watch ");
    reveal_strlit("schedule ");
    reveal_strlit("exit");
    // One branch per rule, so that each rule is unfolded on its own.
    if k == 0 {
    } else if k == 1 {
    } else if k == 2 {
    } else if k == 3 {
    } else if k == 4 {
    } else if k == 5 {
    } else if k == 6 {
    } else if k == 7 {
    } else if k == 8 {
    } else if k == 9 {
    } else if k == 10 {
        assert(char_matches(s[0], 'e'));
    } else if k == 11 {
    } else if k == 12 {
    } else if k == 13 {
    } else if k == 14 {
    } else if k == 15 {
    } else if k == 16 {
    } else if k == 17 {
    } else if k == 18 {
    } else if k == 19 {
    } else if k == 20 {
    } else if k == 21 {
    } else if k == 22 {
    } else if k == 23 {
    } else if k == 24 {
    } else if k == 25 {
        assert(char_matches(s[0], 'e'));
    } else if k == 26 {
    } else if k == 27 {
    } else if k == 28 {
    } else if k == 29 {
    } else if k == 30 {
    } else if k == 31 {
    } else if k == 32 {
    } else if k == 33 {
    } else if k == 34 {
    } else if k == 35 {
    } else if k == 36 {
    }
}

/// The word `exit`, in any ASCII case and with any surrounding white space,
/// is not a command: the dispatcher reports it unrecognised.
pub proof fn lemma_exit_is_not_a_command(line: Seq<char>)
    requires
        equals_ci(trim(line), "exit"@),
    ensures
        parse(line) is None,
{
    let s = trim(line);
    assert forall|k: int| 0 <= k < RULE_COUNT implies (#[trigger] rule(k, s)) is None by {
        lemma_no_rule_on_exit(k, s);
    }
    lemma_skip_rules(s, 0, RULE_COUNT as int);
}

proof fn lemma_no_rule_on_blank(k: int, s: Seq<char>)
    requires
        s.len() == 0,
    ensures
        rule(k, s) is None,
{
    reveal_strlit("list files in current directory");
    reveal_strlit("calculate ");
    reveal_strlit("plot a sine wave");
    reveal_strlit("show current directory");
    reveal_strlit("change directory to ");
    reveal_strlit("show file ");
    reveal_strlit("write to file ");
    reveal_strlit("delete file ");
    reveal_strlit("show system info");
    reveal_strlit("show date and time");
    reveal_strlit("help");
    reveal_strlit("search ");
    reveal_strlit("summarize file ");
    reveal_strlit("count lines in ");
    reveal_strlit("count words in ");
    reveal_strlit("count chars in ");
    reveal_strlit("show disk usage");
    reveal_strlit("show top processes");
    reveal_strlit("download ");
    reveal_strlit("extract ");
    reveal_strlit("generate password ");
    reveal_strlit("show calendar");
    reveal_strlit("show weather in ");
    reveal_strlit("explain ");
    reveal_strlit("run code ");
    reveal_strlit("run ");
    reveal_strlit("diff ");
    reveal_strlit("rename files in ");
    reveal_strlit("resize image ");
    reveal_strlit("convert image ");
    reveal_strlit("play audio ");
    reveal_strlit("convert audio ");
    reveal_strlit("speak ");
    reveal_strlit("copy ");
    reveal_strlit("paste from clipboard");
    reveal_strlit("watch ");
    reveal_strlit("schedule ");
    // One branch per rule, so that each rule is unfolded on its own.
    if k == 0 {
    } else if k == 1 {
    } else if k == 2 {
    } else if k == 3 {
    } else if k == 4 {
    } else if k == 5 {
    } else if k == 6 {
    } else if k == 7 {
    } else if k == 8 {
    } else if k == 9 {
    } else if k == 10 {
    } else if k == 11 {
    } else if k == 12 {
    } else if k == 13 {
    } else if k == 14 {
    } else if k == 15 {
    } else if k == 16 {
    } else if k == 17 {
    } else if k == 18 {
    } else if k == 19 {
    } else if k == 20 {
    } else if k == 21 {
    } else if k == 22 {
    } else if k == 23 {
    } else if k == 24 {
    } else if k == 25 {
    } else if k == 26 {
    } else if k == 27 {
    } else if k == 28 {
    } else if k == 29 {
    } else if k == 30 {
    } else if k == 31 {
    } else if k == 32 {
    } else if k == 33 {
    } else if k == 34 {
    } else if k == 35 {
    } else if k == 36 {
    }
}

/// A blank line is not a command.
pub proof fn lemma_blank_is_not_a_command(line: Seq<char>)
    requires
        trim(line).len() == 0,
    ensures
        parse(line) is None,
{
    let s = trim(line);
    assert forall|k: int| 0 <= k < RULE_COUNT implies (#[trigger] rule(k, s)) is None by {
        lemma_no_rule_on_blank(k, s);
    }
    lemma_skip_rules(s, 0, RULE_COUNT as int);
}

proof fn lemma_only_run_code(k: int, s: Seq<char>)
    requires
        starts_with_ci(s, "run code "@),
        k != 24,
    ensures
        rule(k, s) is None,
{
    reveal_strlit("list files in current directory");
    reveal_strlit("calculate ");
    reveal_strlit("plot a sine wave");
    reveal_strlit("show current directory");
    reveal_strlit("change directory to ");
    reveal_strlit("show file ");
    reveal_strlit("write to file ");
    reveal_strlit("delete file ");
    reveal_strlit("show system info");
    reveal_strlit("show date and time");
    reveal_strlit("help");
    reveal_strlit("search ");
    reveal_strlit("summarize file ");
    reveal_strlit("count lines in ");
    reveal_strlit("count words in ");
    reveal_strlit("count chars in ");
    reveal_strlit("show disk usage");
    reveal_strlit("show top processes");
    reveal_strlit("download ");
    reveal_strlit("extract ");
    reveal_strlit("generate password ");
    reveal_strlit("show calendar");
    reveal_strlit("show weather in ");
    reveal_strlit("explain ");
    reveal_strlit("run code ");
    reveal_strlit("run ");
    reveal_strlit("diff ");
    reveal_strlit("rename files in ");
    reveal_strlit("resize image ");
    reveal_strlit("convert image ");
    reveal_strlit("play audio ");
    reveal_strlit("convert audio ");
    reveal_strlit("speak ");
    reveal_strlit("copy ");
    reveal_strlit("paste from clipboard");
    reveal_strlit("watch ");
    reveal_strlit("schedule ");
    // One branch per rule, so that each rule is unfolded on its own.
    if k == 0 {
        assert(char_matches(s[0], 'r'));
    } else if k == 1 {
        assert(char_matches(s[0], 'r'));
    } else if k == 2 {
        assert(char_matches(s[0], 'r'));
    } else if k == 3 {
        assert(char_matches(s[0], 'r'));
    } else if k == 4 {
        assert(char_matches(s[0], 'r'));
    } else if k == 5 {
        assert(char_matches(s[0], 'r'));
    } else if k == 6 {
        assert(char_matches(s[0], 'r'));
    } else if k == 7 {
        assert(char_matches(s[0], 'r'));
    } else if k == 8 {
        assert(char_matches(s[0], 'r'));
    } else if k == 9 {
        assert(char_matches(s[0], 'r'));
    } else if k == 10 {
        assert(char_matches(s[0], 'r'));
    } else if k == 11 {
        assert(char_matches(s[0], 'r'));
    } else if k == 12 {
        assert(char_matches(s[0], 'r'));
    } else if k == 13 {
        assert(char_matches(s[0], 'r'));
    } else if k == 14 {
        assert(char_matches(s[0], 'r'));
    } else if k == 15 {
        assert(char_matches(s[0], 'r'));
    } else if k == 16 {
        assert(char_matches(s[0], 'r'));
    } else if k == 17 {
        assert(char_matches(s[0], 'r'));
    } else if k == 18 {
        assert(char_matches(s[0], 'r'));
    } else if k == 19 {
        assert(char_matches(s[0], 'r'));
    } else if k == 20 {
        assert(char_matches(s[0], 'r'));
    } else if k == 21 {
        assert(char_matches(s[0], 'r'));
    } else if k == 22 {
        assert(char_matches(s[0], 'r'));
    } else if k == 23 {
        assert(char_matches(s[0], 'r'));
    } else if k == 24 {
    } else if k == 25 {
        let x = after(s, "run "@);
        assert(char_matches(s[4], 'c'));
        assert(x[0] == s[4]);
        lemma_trim_start_noop(x);
        lemma_trim_end_keeps_first(x);
    } else if k == 26 {
        assert(char_matches(s[0], 'r'));
    } else if k == 27 {
        assert(char_matches(s[1], 'u'));
    } else if k == 28 {
        assert(char_matches(s[1], 'u'));
    } else if k == 29 {
        assert(char_matches(s[0], 'r'));
    } else if k == 30 {
        assert(char_matches(s[0], 'r'));
    } else if k == 31 {
        assert(char_matches(s[0], 'r'));
    } else if k == 32 {
        assert(char_matches(s[0], 'r'));
    } else if k == 33 {
        assert(char_matches(s[0], 'r'));
    } else if k == 34 {
        assert(char_matches(s[0], 'r'));
    } else if k == 35 {
        assert(char_matches(s[0], 'r'));
    } else if k == 36 {
        assert(char_matches(s[0], 'r'));
    }
}

/// A line that starts with `run code ` is a code snippet or nothing: the
/// quoted shell-command rule `run "..."`, whose prefix is shorter, never
/// takes it.
pub proof fn lemma_run_code_is_never_a_shell_command(line: Seq<char>)
    requires
        starts_with_ci(trim(line), "run code "@),
    ensures
        parse(line) == two(Action::RunCode, split_args(trim(line), "run code "@, ":"@)),
{
    let s = trim(line);
    assert forall|k: int| 0 <= k < 24 implies (#[trigger] rule(k, s)) is None by {
        lemma_only_run_code(k, s);
    }
    assert forall|k: int| 25 <= k < RULE_COUNT implies (#[trigger] rule(k, s)) is None by {
        lemma_only_run_code(k, s);
    }
    lemma_skip_rules(s, 0, 24);
    lemma_skip_rules(s, 25, RULE_COUNT as int);
    assert(rule(24, s) == two(Action::RunCode, split_args(s, "run code "@, ":"@)));
}

/// A name or text that can stand as an argument: not empty, with no white
/// space at either end.
pub open spec fn is_clean(x: Seq<char>) -> bool {
    x.len() > 0 && trim(x) == x
}

/// A text that starts with a non-space character and ends with one is its
/// own trim.
proof fn lemma_trim_whole(x: Seq<char>)
    requires
        x.len() > 0,
        !is_space(x[0]),
        !is_space(x.last()),
    ensures
        trim(x) == x,
{
    lemma_trim_start_noop(x);
    lemma_trim_end_noop(x);
}

/// `write to file F: C` parses to a write of `C` into `F`, for a clean file
/// name without `:` and clean content.
proof fn lemma_write_line(f: Seq<char>, c: Seq<char>)
    requires
        is_clean(f),
        is_clean(c),
        forall|i: int| 0 <= i < f.len() ==> f[i] != ':',
    ensures
        parse("write to file "@ + f + ": "@ + c) == Some((Action::WriteFile, seq![f, c])),
{
    reveal_strlit("write to file ");
    reveal_strlit(": ");
    reveal_strlit(":");
    let w = "write to file "@;
    let line = w + f + ": "@ + c;
    lemma_trimmed_ends(f);
    lemma_trimmed_ends(c);
    assert(line[0] == 'w');
    assert(line.last() == c.last());
    lemma_trim_whole(line);
    let s = trim(line);
    assert(s == line);
    assert forall|k: int| 0 <= k < 6 implies (#[trigger] rule(k, s)) is None by {
        reveal_strlit("list files in current directory");
        reveal_strlit("calculate ");
        reveal_strlit("plot a sine wave");
        reveal_strlit("show current directory");
        reveal_strlit("change directory to ");
        reveal_strlit("show file ");
        assert(char_matches(s[0], 'w'));
    }
    lemma_skip_rules(s, 0, 6);
    assert(starts_with_ci(s, w)) by {
        assert forall|i: int| 0 <= i < w.len() implies char_matches(#[trigger] s[i], w[i]) by {
            assert(s[i] == w[i]);
        }
    }
    let rest = f + ": "@ + c;
    assert(s.skip(w.len() as int) =~= rest);
    assert(occurs_at(rest, ":"@, f.len() as int)) by {
        assert(rest.subrange(f.len() as int, f.len() + 1int) =~= ":"@);
    }
    assert forall|k: int| 0 <= k < f.len() implies !occurs_at(rest, ":"@, k) by {
        if occurs_at(rest, ":"@, k) {
            assert(rest.subrange(k, k + 1)[0] == rest[k]);
            assert(rest[k] == f[k]);
        }
    }
    lemma_find_first(rest, ":"@, 0, f.len() as int);
    assert(rest.take(f.len() as int) =~= f);
    let tail = rest.skip(f.len() + 1int);
    assert(tail =~= seq![' '] + c);
    assert(tail.drop_first() =~= c);
    assert(trim_start(tail) == trim_start(c));
    lemma_trim_whole(c);
    assert(trim(tail) == c);
    assert(rule(6, s) == Some((Action::WriteFile, seq![f, c])));
}

/// `show file F` parses to showing `F`, for a clean file name.
proof fn lemma_show_line(f: Seq<char>)
    requires
        is_clean(f),
    ensures
        parse("show file "@ + f) == Some((Action::ShowFile, seq![f])),
{
    reveal_strlit("show file ");
    let w = "show file "@;
    let line = w + f;
    lemma_trimmed_ends(f);
    assert(line[0] == 's');
    assert(line[5] == 'f');
    assert(line.last() == f.last());
    lemma_trim_whole(line);
    let s = trim(line);
    assert forall|k: int| 0 <= k < 5 implies (#[trigger] rule(k, s)) is None by {
        reveal_strlit("list files in current directory");
        reveal_strlit("calculate ");
        reveal_strlit("plot a sine wave");
        reveal_strlit("show current directory");
        reveal_strlit("change directory to ");
        reveal_strlit("show file ");
        assert(char_matches(s[0], 's'));
        assert(char_matches(s[5], 'f'));
    }
    lemma_skip_rules(s, 0, 5);
    assert(starts_with_ci(s, w)) by {
        assert forall|i: int| 0 <= i < w.len() implies char_matches(#[trigger] s[i], w[i]) by {
            assert(s[i] == w[i]);
        }
    }
    assert(s.skip(w.len() as int) =~= f);
    assert(rule(5, s) == Some((Action::ShowFile, seq![f])));
}

/// Writing content to a file and then showing that file name the same
/// file, and what is written is exactly the text after the colon: for a
/// clean file name without `:` and clean content, `write to file F: C` is a
/// write of `C` into `F` and `show file F` shows `F`.
pub proof fn lemma_write_then_show(f: Seq<char>, c: Seq<char>)
    requires
        is_clean(f),
        is_clean(c),
        forall|i: int| 0 <= i < f.len() ==> f[i] != ':',
    ensures
        parse("write to file "@ + f + ": "@ + c) == Some((Action::WriteFile, seq![f, c])),
        parse("show file "@ + f) == Some((Action::ShowFile, seq![f])),
{
    lemma_write_line(f, c);
    lemma_show_line(f);
}

/// `generate password N` is recognised for every length `N` that fits in a
/// `usize`, written in decimal, and asks for exactly `N` characters; the
/// dispatcher then answers with `N` ASCII letters and digits.
pub proof fn lemma_password_length(n: usize)
    ensures
        parse("generate password "@ + decimal(n as nat)) == Some((Action::GeneratePassword(n), Seq::<Seq<char>>::empty())),
{
    reveal_strlit("generate password ");
    let w = "generate password "@;
    let d = decimal(n as nat);
    lemma_decimal_reads_back(n as nat);
    let line = w + d;
    assert(line[0] == 'g');
    assert(line.last() == d.last());
    assert(!is_space(d.last())) by {
        assert(is_digit(d[d.len() - 1]));
    }
    lemma_trim_start_noop(line);
    lemma_trim_end_noop(line);
    let s = trim(line);
    assert(s == line);
    assert forall|k: int| 0 <= k < 20 implies (#[trigger] rule(k, s)) is None by {
        reveal_strlit("list files in current directory");
        reveal_strlit("calculate ");
        reveal_strlit("plot a sine wave");
        reveal_strlit("show current directory");
        reveal_strlit("change directory to ");
        reveal_strlit("show file ");
        reveal_strlit("write to file ");
        reveal_strlit("delete file ");
        reveal_strlit("show system info");
        reveal_strlit("show date and time");
        reveal_strlit("help");
        reveal_strlit("search ");
        reveal_strlit("summarize file ");
        reveal_strlit("count lines in ");
        reveal_strlit("count words in ");
        reveal_strlit("count chars in ");
        reveal_strlit("show disk usage");
        reveal_strlit("show top processes");
        reveal_strlit("download ");
        reveal_strlit("extract ");
        assert(char_matches(s[0], 'g'));
    }
    lemma_skip_rules(s, 0, 20);
    assert(starts_with_ci(s, w)) by {
        assert forall|i: int| 0 <= i < w.len() implies char_matches(#[trigger] s[i], w[i]) by {
            assert(s[i] == w[i]);
        }
    }
    assert(s.skip(w.len() as int) =~= d);
    assert(is_digit(d[0]));
    lemma_trim_start_noop(d);
    lemma_trim_end_noop(d);
    assert(trim(d) == d);
    assert(unsigned_digits(d) == d);
    assert(parse_unsigned(d) == Some(n as nat));
    assert(rule(20, s) == Some((Action::GeneratePassword(n), Seq::<Seq<char>>::empty())));
}

/// A line starts with `s`, `e`, `a`: no rule before the search rule takes it.
proof fn lemma_no_rule_before_search(k: int, s: Seq<char>)
    requires
        0 <= k < 11,
        s.len() >= 3,
        s[0] == 's' && s[1] == 'e' && s[2] == 'a',
    ensures
        rule(k, s) is None,
{
    reveal_strlit("list files in current directory");
    reveal_strlit("calculate ");
    reveal_strlit("plot a sine wave");
    reveal_strlit("show current directory");
    reveal_strlit("change directory to ");
    reveal_strlit("show file ");
    reveal_strlit("write to file ");
    reveal_strlit("delete file ");
    reveal_strlit("show system info");
    reveal_strlit("show date and time");
    reveal_strlit("help");
    // One branch per rule, so that each rule is unfolded on its own.
    if k == 0 {
    } else if k == 1 {
    } else if k == 2 {
    } else if k == 3 {
    } else if k == 4 {
    } else if k == 5 {
    } else if k == 6 {
    } else if k == 7 {
    } else if k == 8 {
    } else if k == 9 {
    } else if k == 10 {
    }
}

/// `search "P" in T` asks to search for the pattern `P`, as written, in
/// `T`, for a pattern without `"` and a clean target.
pub proof fn lemma_search_line(p: Seq<char>, t: Seq<char>)
    requires
        is_clean(t),
        forall|i: int| 0 <= i < p.len() ==> p[i] != '"',
    ensures
        parse("search \""@ + p + "\" in "@ + t) == Some((Action::Search, seq![p, t])),
{
    reveal_strlit("search ");
    reveal_strlit("search \"");
    reveal_strlit("\" in ");
    reveal_strlit("\"");
    reveal_strlit("in ");
    let w = "search "@;
    let line = "search \""@ + p + "\" in "@ + t;
    lemma_trimmed_ends(t);
    assert(line.last() == t.last());
    assert(line[0] == 's');
    lemma_trim_whole(line);
    let s = trim(line);
    assert(s[1] == 'e' && s[2] == 'a');
    assert forall|k: int| 0 <= k < 11 implies (#[trigger] rule(k, s)) is None by {
        lemma_no_rule_before_search(k, s);
    }
    lemma_skip_rules(s, 0, 11);
    assert(starts_with_ci(s, w)) by {
        assert forall|i: int| 0 <= i < w.len() implies char_matches(#[trigger] s[i], w[i]) by {
            assert(s[i] == w[i]);
        }
    }
    let a = after(s, w);
    assert(a =~= seq!['"'] + p + "\" in "@ + t);
    assert(a.last() == t.last());
    lemma_trim_whole(a);
    let r = p + "\" in "@ + t;
    assert(a.drop_first() =~= r);
    assert(strip_char(trim(a), '"') == Some(r));
    assert(occurs_at(r, "\""@, p.len() as int)) by {
        assert(r.subrange(p.len() as int, p.len() + 1int) =~= "\""@);
    }
    assert forall|k: int| 0 <= k < p.len() implies !occurs_at(r, "\""@, k) by {
        if occurs_at(r, "\""@, k) {
            assert(r.subrange(k, k + 1)[0] == r[k]);
            assert(r[k] == p[k]);
        }
    }
    lemma_find_first(r, "\""@, 0, p.len() as int);
    assert(r.take(p.len() as int) =~= p);
    let tail = r.skip(p.len() + 1int);
    let it = "in "@ + t;
    assert(tail =~= seq![' '] + it);
    assert(tail.drop_first() =~= it);
    assert(it[0] == 'i');
    assert(it.last() == t.last());
    lemma_trim_whole(it);
    assert(trim_start(tail) == trim_start(it));
    assert(trim(tail) == it);
    assert(it.take(3) =~= "in "@);
    assert(it.skip(3) =~= t);
    assert(strip_prefix(it, "in "@) == Some(t));
    assert(rule(11, s) == Some((Action::Search, seq![p, t])));
}

/// When no line of a file matches, searching it reports nothing, and a
/// search that found nothing in any file reports `No matches found.`.
pub proof fn lemma_search_without_hits(p: Seq<char>, label: Seq<char>, ls: Seq<Seq<char>>)
    requires
        forall|i: int| 0 <= i < ls.len() ==> !regex_finds(p, #[trigger] ls[i]),
    ensures
        search_hits(p, label, ls) == Seq::<Seq<char>>::empty(),
        search_report_view(Seq::<Seq<char>>::empty()) == "No matches found."@,
    decreases ls.len(),
{
    if ls.len() > 0 {
        assert(!regex_finds(p, ls[ls.len() - 1]));
        lemma_search_without_hits(p, label, ls.drop_last());
        assert(search_hits(p, label, ls) =~= Seq::<Seq<char>>::empty());
    }
}

/// A line starts with `r`, `e`, `s`: no rule before the resize rule takes it.
proof fn lemma_no_rule_before_resize(k: int, s: Seq<char>)
    requires
        0 <= k < 28,
        s.len() >= 3,
        s[0] == 'r' && s[1] == 'e' && s[2] == 's',
    ensures
        rule(k, s) is None,
{
    reveal_strlit("list files in current directory");
    reveal_strlit("calculate ");
    reveal_strlit("plot a sine wave");
    reveal_strlit("show current directory");
    reveal_strlit("change directory to ");
    reveal_strlit("show file ");
    reveal_strlit("write to file ");
    reveal_strlit("delete file ");
    reveal_strlit("show system info");
    reveal_strlit("show date and time");
    reveal_strlit("help");
    reveal_strlit("search ");
    reveal_strlit("summarize file ");
    reveal_strlit("count lines in ");
    reveal_strlit("count words in ");
    reveal_strlit("count chars in ");
    reveal_strlit("show disk usage");
    reveal_strlit("show top processes");
    reveal_strlit("download ");
    reveal_strlit("extract ");
    reveal_strlit("generate password ");
    reveal_strlit("show calendar");
    reveal_strlit("show weather in ");
    reveal_strlit("explain ");
    reveal_strlit("run code ");
    reveal_strlit("run ");
    reveal_strlit("diff ");
    reveal_strlit("rename files in ");
    reveal_strlit("resize image ");
    // One branch per rule, so that each rule is unfolded on its own.
    if k == 0 {
    } else if k == 1 {
    } else if k == 2 {
    } else if k == 3 {
    } else if k == 4 {
    } else if k == 5 {
    } else if k == 6 {
    } else if k == 7 {
    } else if k == 8 {
    } else if k == 9 {
    } else if k == 10 {
    } else if k == 11 {
    } else if k == 12 {
    } else if k == 13 {
    } else if k == 14 {
    } else if k == 15 {
    } else if k == 16 {
    } else if k == 17 {
    } else if k == 18 {
    } else if k == 19 {
    } else if k == 20 {
    } else if k == 21 {
    } else if k == 22 {
    } else if k == 23 {
    } else if k == 24 {
    } else if k == 25 {
    } else if k == 26 {
    } else if k == 27 {
    }
}

/// Digits are neither white space nor the letter `x`.
proof fn lemma_decimal_chars(n: nat)
    ensures
        forall|i: int| 0 <= i < decimal(n).len() ==> !is_space(#[trigger] decimal(n)[i]) && decimal(n)[i] != 'x',
{
    lemma_decimal_reads_back(n);
    assert forall|i: int| 0 <= i < decimal(n).len() implies !is_space(#[trigger] decimal(n)[i]) && decimal(n)[i] != 'x' by {
        assert(is_digit(decimal(n)[i]));
    }
}

/// `WxH`, both written in decimal, reads back as the sizes `W` and `H`.
proof fn lemma_size_text(w: u32, h: u32)
    ensures
        ({
            let dw = decimal(w as nat);
            let dh = decimal(h as nat);
            &&& split_once(dw + "x"@ + dh, "x"@) == Some((dw, dh))
            &&& parse_bounded(trim(dw), u32::MAX as nat) == Some(w as nat)
            &&& parse_bounded(trim(dh), u32::MAX as nat) == Some(h as nat)
        }),
{
    reveal_strlit("x");
    let dw = decimal(w as nat);
    let dh = decimal(h as nat);
    lemma_decimal_reads_back(w as nat);
    lemma_decimal_reads_back(h as nat);
    lemma_decimal_chars(w as nat);
    lemma_decimal_chars(h as nat);
    let size = dw + "x"@ + dh;
    assert(dh[dh.len() - 1] == dh.last());
    assert(occurs_at(size, "x"@, dw.len() as int)) by {
        assert(size.subrange(dw.len() as int, dw.len() + 1int) =~= "x"@);
    }
    assert forall|k: int| 0 <= k < dw.len() implies !occurs_at(size, "x"@, k) by {
        if occurs_at(size, "x"@, k) {
            assert(size.subrange(k, k + 1)[0] == size[k]);
            assert(size[k] == dw[k]);
        }
    }
    lemma_find_first(size, "x"@, 0, dw.len() as int);
    assert(size.take(dw.len() as int) =~= dw);
    assert(size.skip(dw.len() + 1int) =~= dh);
    assert(dw[dw.len() - 1] == dw.last());
    lemma_trim_whole(dw);
    lemma_trim_whole(dh);
    assert(unsigned_digits(dw) == dw);
    assert(unsigned_digits(dh) == dh);
    assert(parse_bounded(trim(dw), u32::MAX as nat) == Some(w as nat));
    assert(parse_bounded(trim(dh), u32::MAX as nat) == Some(h as nat));
}

/// `resize image F to WxH` asks to resize the file `F` to `W` by `H`, for
/// a clean file name without spaces and sizes that fit in `u32`; the
/// derived file and the message naming it are `resized_image_path` and
/// `resized_image_saved` of `F`.
pub proof fn lemma_resize_line(f: Seq<char>, w: u32, h: u32)
    requires
        is_clean(f),
        forall|i: int| 0 <= i < f.len() ==> f[i] != ' ',
    ensures
        parse("resize image "@ + f + " to "@ + decimal(w as nat) + "x"@ + decimal(h as nat))
            == Some((Action::ResizeImage(w, h), seq![f])),
{
    reveal_strlit("resize image ");
    reveal_strlit(" to ");
    reveal_strlit("x");
    let pre = "resize image "@;
    let dw = decimal(w as nat);
    let dh = decimal(h as nat);
    lemma_decimal_reads_back(w as nat);
    lemma_decimal_reads_back(h as nat);
    lemma_decimal_chars(w as nat);
    lemma_decimal_chars(h as nat);
    let size = dw + "x"@ + dh;
    let line = pre + f + " to "@ + size;
    assert(line.last() == dh.last());
    assert(dh[dh.len() - 1] == dh.last());
    assert(line[0] == 'r');
    lemma_trim_whole(line);
    let s = trim(line);
    assert(s[1] == 'e' && s[2] == 's');
    assert forall|k: int| 0 <= k < 28 implies (#[trigger] rule(k, s)) is None by {
        lemma_no_rule_before_resize(k, s);
    }
    lemma_skip_rules(s, 0, 28);
    assert(starts_with_ci(s, pre)) by {
        assert forall|i: int| 0 <= i < pre.len() implies char_matches(#[trigger] s[i], pre[i]) by {
            assert(s[i] == pre[i]);
        }
    }
    let a = f + " to "@ + size;
    assert(after(s, pre) =~= a);
    assert(occurs_at(a, " to "@, f.len() as int)) by {
        assert(a.subrange(f.len() as int, f.len() + 4int) =~= " to "@);
    }
    assert forall|k: int| 0 <= k < f.len() implies !occurs_at(a, " to "@, k) by {
        if occurs_at(a, " to "@, k) {
            assert(a.subrange(k, k + 4)[0] == a[k]);
            assert(a[k] == f[k]);
        }
    }
    lemma_find_first(a, " to "@, 0, f.len() as int);
    assert(a.take(f.len() as int) =~= f);
    assert(a.skip(f.len() + 4int) =~= size);
    lemma_trimmed_ends(f);
    assert(size[0] == dw[0]);
    assert(size.last() == dh.last());
    lemma_trim_whole(size);
    assert(split_args(s, pre, " to "@) == Some((f, size)));
    lemma_size_text(w, h);
    assert(rule(28, s) == Some((Action::ResizeImage(w, h), seq![f])));
    assert(line =~= pre + f + " to "@ + dw + "x"@ + dh);
}

} // verus!
