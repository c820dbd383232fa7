use cpos::analytics::{cell_days_ago, daily_solves, heat_color, rating_chart, table_topics, truncate};
use cpos::models::{Platform, Submission, TagStat, Verdict};
use cpos::progress::rate_color;
use cpos::setup::{can_mask, hints, is_connected, lines, masked, step_indicator, template_summary, SetupStep};
use cpos::theme::{Rgb, Theme};

#[test]
fn themes() {
    let purple = Theme::from_name("purple");
    assert_eq!(purple, Theme::default());
    assert_eq!(Theme::from_name("nope"), purple);
    let cyan = Theme::from_name("cyan");
    assert_eq!(cyan.accent, Rgb { r: 86, g: 182, b: 194 });
    assert_eq!(cyan.bg, purple.bg);
    assert_eq!(cyan.danger, purple.danger);
    assert_eq!(Theme::next_name("purple"), "cyan");
    assert_eq!(Theme::next_name("mono"), "plain");
    assert_eq!(Theme::next_name("plain"), "purple");
    assert_eq!(Theme::next_name("unknown"), "cyan");
    let plain = Theme::from_name("plain");
    assert_eq!(plain.accent, Rgb { r: 190, g: 190, b: 190 });
    assert_eq!(plain.highlight_bg, Rgb { r: 42, g: 42, b: 42 });
    assert_eq!(plain.fg, purple.fg);
    let mut name = "green";
    for _ in 0..6 {
        name = Theme::next_name(name);
    }
    assert_eq!(name, "green");
}

#[test]
fn rating_colours() {
    assert_eq!(Theme::rating_color(Some(2400)), Rgb { r: 255, g: 76, b: 76 });
    assert_eq!(Theme::rating_color(Some(2399)), Rgb { r: 255, g: 140, b: 60 });
    assert_eq!(Theme::rating_color(Some(1200)), Rgb { r: 126, g: 211, b: 135 });
    assert_eq!(Theme::rating_color(Some(1199)), Rgb { r: 160, g: 160, b: 170 });
    assert_eq!(Theme::rating_color(None), Rgb { r: 120, g: 120, b: 132 });
}

#[test]
fn rate_colours() {
    let t = Theme::default();
    assert_eq!(rate_color(&t, 35), t.danger);
    assert_eq!(rate_color(&t, 36), t.warning);
    assert_eq!(rate_color(&t, 65), t.warning);
    assert_eq!(rate_color(&t, 66), t.success);
}

#[test]
fn rating_chart_summary() {
    let c = rating_chart(&[1500, 1620, 1580, 1700], 40);
    assert_eq!((c.max, c.min, c.range, c.current), (1700, 1500, 200, 1700));
    assert_eq!((c.slots, c.step), (13, 1));
    let c = rating_chart(&[1500, 1510], 7);
    assert_eq!((c.range, c.slots, c.step), (50, 2, 1));
    let many: Vec<u32> = (0..10).map(|i| 1000 + i).collect();
    let c = rating_chart(&many, 4);
    assert_eq!((c.slots, c.step), (1, 10));
}

#[test]
fn heat_map() {
    let now: i64 = 1_700_000_000;
    let day: i64 = 86_400;
    let at = |verdict: Verdict, t: i64| Submission {
        platform: Platform::Codeforces,
        problem_id: "1A".to_string(),
        verdict,
        submitted_at: t,
        submitted_nanos: 0,
    };
    let subs = vec![
        at(Verdict::Accepted, now),
        at(Verdict::Accepted, now - day + 1),
        at(Verdict::Accepted, now - 3 * day - 5),
        at(Verdict::Accepted, now - 364 * day),
        at(Verdict::Accepted, now - 365 * day),
        at(Verdict::Accepted, now + 10),
        at(Verdict::Accepted, now + day),
        at(Verdict::WrongAnswer, now - 2 * day),
    ];
    let counts = daily_solves(&subs, now, 0);
    assert_eq!(counts.len(), 365);
    assert_eq!((counts[0], counts[3], counts[364], counts[1], counts[2]), (3, 1, 1, 0, 0));
    // Fractions of a second count: a day and a half second ago is one day,
    // a day less half a second ago is today.
    let mut early = at(Verdict::Accepted, now - day - 1);
    early.submitted_nanos = 500_000_000;
    let mut late = at(Verdict::Accepted, now - day);
    late.submitted_nanos = 500_000_000;
    let counts = daily_solves(&[early, late], now, 0);
    assert_eq!((counts[0], counts[1]), (1, 1));
    // A submission just under a day in the future counts for today.
    let mut ahead = at(Verdict::Accepted, now + day - 1);
    ahead.submitted_nanos = 999_999_999;
    assert_eq!(daily_solves(&[ahead], now, 0)[0], 1);
    assert_eq!(cell_days_ago(52, 51, 0), 0);
    assert_eq!(cell_days_ago(52, 0, 6), 363);
    let t = Theme::default();
    assert_eq!(heat_color(&t, 0), t.bg);
    assert_eq!(heat_color(&t, 1), t.accent_dim);
    assert_eq!(heat_color(&t, 3), t.accent);
    assert_eq!(heat_color(&t, 6), t.success);
    assert_eq!(heat_color(&t, 7), t.warning);
}

#[test]
fn topic_rows() {
    let stats = vec![
        TagStat { tag: "a".to_string(), solved: 0, attempted: 0 },
        TagStat { tag: "b".to_string(), solved: 1, attempted: 0 },
        TagStat { tag: "c".to_string(), solved: 0, attempted: 2 },
        TagStat { tag: "d".to_string(), solved: 3, attempted: 1 },
    ];
    assert_eq!(table_topics(&stats, 2), vec![1, 2]);
    assert_eq!(table_topics(&stats, 10), vec![1, 2, 3]);
}

#[test]
fn truncation() {
    assert_eq!(truncate("dynamic programming", 17), "dynamic programm…");
    assert_eq!(truncate("graphs", 17), "graphs");
    assert_eq!(truncate("ééé", 2), "é…");
    assert_eq!(truncate("ab", 0), "…");
}

#[test]
fn masking() {
    assert_eq!(masked("  abc  "), "•••");
    assert_eq!(masked("abcdefgh"), "abc…fgh");
    assert_eq!(masked(""), "");
    assert!(is_connected(" x "));
    assert!(!is_connected("  \t"));
}

#[test]
fn masking_needs_whole_characters() {
    assert!(can_mask("abcdefgh"));
    assert!(can_mask(" é "));
    assert!(can_mask("éaéaé"));
    assert!(!can_mask("abébcdefg"));
    assert!(!can_mask("abcdeféhi"));
    assert_eq!(masked("ééé"), "••••••");
}

#[test]
fn setup_hints_and_steps() {
    assert_eq!(hints(SetupStep::Handle), vec![("Enter", " continue   "), ("Esc", " skip setup")]);
    assert_eq!(hints(SetupStep::Cses)[0], ("o", " open login   "));
    let steps = step_indicator(SetupStep::Template);
    assert_eq!(steps[2], ("3 Template", true));
    assert_eq!(steps.iter().filter(|s| s.1).count(), 1);
}

#[test]
fn template_lines() {
    assert_eq!(lines("a\r\nb\n\nc"), vec!["a", "b", "", "c"]);
    assert_eq!(lines("x\n"), vec!["x"]);
    assert!(lines("").is_empty());
    let s = template_summary("  #include <x>\nint main(){}\n\nreturn\n  ");
    assert_eq!(s.lines, 5);
    assert_eq!(s.chars, "#include <x>\nint main(){}\n\nreturn".len());
    assert_eq!(s.preview, vec!["  #include <x>", "int main(){}", ""]);
}
