//! Text helpers.
use rtk::utils::{
    detect_package_manager, detect_package_manager_by, format_tokens, join_with_overflow, ok_confirmation,
    package_manager_command, package_manager_exec, package_manager_for, strip_ansi, truncate,
    truncate_iso_date,
};

#[test]
fn test_truncate_short_string() {
    assert_eq!(truncate("hello", 10), "hello");
}

#[test]
fn test_truncate_long_string() {
    let result = truncate("hello world", 8);
    assert_eq!(result, "hello...");
}

#[test]
fn test_truncate_exact_length() {
    assert_eq!(truncate("hello", 5), "hello");
}

#[test]
fn test_truncate_edge_case() {
    // max_len < 3 returns just "..."
    assert_eq!(truncate("hello", 2), "...");
    // When string length equals max_len, return as is
    assert_eq!(truncate("abc", 3), "abc");
    // When string is longer and max_len is exactly 3, return "..."
    assert_eq!(truncate("hello world", 3), "...");
}

#[test]
fn test_strip_ansi_simple() {
    let input = "\x1b[31mError\x1b[0m";
    assert_eq!(strip_ansi(input), "Error");
}

#[test]
fn test_strip_ansi_multiple() {
    let input = "\x1b[1m\x1b[32mSuccess\x1b[0m\x1b[0m";
    assert_eq!(strip_ansi(input), "Success");
}

#[test]
fn test_strip_ansi_no_codes() {
    assert_eq!(strip_ansi("plain text"), "plain text");
}

#[test]
fn test_strip_ansi_complex() {
    let input = "\x1b[32mGreen\x1b[0m normal \x1b[31mRed\x1b[0m";
    assert_eq!(strip_ansi(input), "Green normal Red");
}

#[test]
fn test_format_tokens_millions() {
    assert_eq!(format_tokens(1_234_567), "1.2M");
    assert_eq!(format_tokens(12_345_678), "12.3M");
}

#[test]
fn test_format_tokens_thousands() {
    assert_eq!(format_tokens(59_234), "59.2K");
    assert_eq!(format_tokens(1_000), "1.0K");
}

#[test]
fn test_format_tokens_small() {
    assert_eq!(format_tokens(694), "694");
    assert_eq!(format_tokens(0), "0");
}

#[test]
fn test_ok_confirmation_with_detail() {
    assert_eq!(ok_confirmation("merged", "#42"), "ok merged #42");
    assert_eq!(
        ok_confirmation("created", "PR #5 https://github.com/foo/bar/pull/5"),
        "ok created PR #5 https://github.com/foo/bar/pull/5"
    );
}

#[test]
fn test_ok_confirmation_no_detail() {
    assert_eq!(ok_confirmation("commented", ""), "ok commented");
}

#[test]
fn test_detect_package_manager_default() {
    let pm = detect_package_manager();
    assert!(["pnpm", "yarn", "npm"].contains(&pm));
}

#[test]
fn test_truncate_multibyte_thai() {
    // Thai characters are 3 bytes each
    let thai = "สวัสดีครับ";
    let result = truncate(thai, 5);
    // Should not panic, should produce valid UTF-8
    assert!(result.len() <= thai.len());
    assert!(result.ends_with("..."));
}

#[test]
fn test_truncate_multibyte_emoji() {
    let emoji = "🎉🎊🎈🎁🎂🎄🎃🎆🎇✨";
    let result = truncate(emoji, 5);
    assert!(result.ends_with("..."));
}

#[test]
fn test_truncate_multibyte_cjk() {
    let cjk = "你好世界测试字符串";
    let result = truncate(cjk, 6);
    assert!(result.ends_with("..."));
}


#[test]
fn token_counts_agree_with_double_precision() {
    let expected = |n: usize| {
        if n >= 1_000_000 {
            format!("{:.1}M", n as f64 / 1_000_000.0)
        } else if n >= 1_000 {
            format!("{:.1}K", n as f64 / 1_000.0)
        } else {
            format!("{}", n)
        }
    };
    for n in 0..200_000usize {
        assert_eq!(format_tokens(n), expected(n), "{}", n);
    }
    for n in (950_000..1_050_000usize).chain((1..60_000usize).map(|k| k * 50_000)) {
        assert_eq!(format_tokens(n), expected(n), "{}", n);
    }
    let mut n: usize = 1;
    for k in 0..20_000usize {
        n = n.wrapping_mul(6364136223846793005).wrapping_add(1442695040888963407);
        let m = n >> (k % 45);
        assert_eq!(format_tokens(m), expected(m), "{}", m);
    }
    for n in [
        1 << 53,
        (1 << 53) + 1,
        (1 << 53) + 3,
        (1 << 54) + 2,
        (1 << 63) + 1025,
        usize::MAX,
        usize::MAX - 1024,
    ] {
        assert_eq!(format_tokens(n), expected(n), "{}", n);
    }
}

#[test]
fn token_counts_round_to_the_nearest_double() {
    assert_eq!(format_tokens(1_050), "1.1K");
    assert_eq!(format_tokens(1_150), "1.1K");
    assert_eq!(format_tokens(1_250), "1.2K");
    assert_eq!(format_tokens(999_949), "999.9K");
    assert_eq!(format_tokens(999_999), "1000.0K");
    assert_eq!(format_tokens(1_000_000), "1.0M");
}

#[test]
fn escape_sequences_are_stripped_exactly() {
    assert_eq!(strip_ansi(""), "");
    assert_eq!(strip_ansi("\x1b[m"), "");
    assert_eq!(strip_ansi("\x1b[1;31;40mx\x1b[K"), "x");
    assert_eq!(strip_ansi("\x1b[31"), "\x1b[31");
    assert_eq!(strip_ansi("\x1b[3 1m"), "\x1b[3 1m");
    assert_eq!(strip_ansi("\x1b]0;title\x07"), "\x1b]0;title\x07");
    assert_eq!(strip_ansi("a\x1bb"), "a\x1bb");
    // What is left may itself look like a sequence.
    assert_eq!(strip_ansi("\x1b\x1b[m[m"), "\x1b[m");
    assert_eq!(strip_ansi("日\x1b[0m本"), "日本");
}

#[test]
fn overflow_is_counted() {
    let items = vec!["a".to_string(), "b".to_string()];
    assert_eq!(
        join_with_overflow(&items, 5, 3, "items"),
        "a\nb\n... +2 more items"
    );
    assert_eq!(join_with_overflow(&items, 2, 3, "items"), "a\nb");
    assert_eq!(join_with_overflow(&items, 3, 3, "items"), "a\nb");
}

#[test]
fn dates_are_cut_to_the_day() {
    assert_eq!(truncate_iso_date("2024-01-15T10:30:00Z"), "2024-01-15");
    assert_eq!(truncate_iso_date("2024-01-15"), "2024-01-15");
    assert_eq!(truncate_iso_date("short"), "short");
    assert_eq!(truncate_iso_date(""), "");
    assert_eq!(truncate_iso_date("ééééé and more"), "ééééé");
}

#[test]
fn truncation_never_exceeds_its_cap() {
    for max in 0..12usize {
        let r = truncate("hello world", max);
        assert!(r.chars().count() <= max.max(3));
    }
    assert_eq!(truncate("abcd", 3), "...");
    assert_eq!(truncate("", 0), "");
}

#[test]
fn package_managers_are_told_by_their_lock_files() {
    assert_eq!(package_manager_for(true, true), "pnpm");
    assert_eq!(package_manager_for(false, true), "yarn");
    assert_eq!(package_manager_for(false, false), "npm");
}

#[test]
fn tools_run_directly_or_by_the_package_manager() {
    let direct = package_manager_exec("eslint", true);
    assert_eq!(direct.program, "eslint");
    assert!(direct.args.is_empty());
    let pnpm = package_manager_command("eslint", false, "pnpm");
    assert_eq!(pnpm.program, "pnpm");
    assert_eq!(pnpm.args, vec!["exec", "--", "eslint"]);
    let yarn = package_manager_command("eslint", false, "yarn");
    assert_eq!(yarn.program, "yarn");
    assert_eq!(yarn.args, vec!["exec", "--", "eslint"]);
    let npm = package_manager_command("eslint", false, "npm");
    assert_eq!(npm.program, "npx");
    assert_eq!(npm.args, vec!["--no-install", "--", "eslint"]);
}

#[test]
fn lock_files_are_asked_for_by_name_and_in_order() {
    let asked = std::cell::RefCell::new(Vec::new());
    let present = |names: &'static [&'static str]| {
        asked.borrow_mut().clear();
        let pm = detect_package_manager_by(|path: &str| {
            asked.borrow_mut().push(path.to_string());
            names.contains(&path)
        });
        (pm, asked.borrow().clone())
    };
    let both = vec!["pnpm-lock.yaml".to_string(), "yarn.lock".to_string()];
    let first = vec!["pnpm-lock.yaml".to_string()];
    assert_eq!(present(&["pnpm-lock.yaml"]), ("pnpm", first.clone()));
    assert_eq!(present(&["pnpm-lock.yaml", "yarn.lock"]), ("pnpm", first));
    assert_eq!(present(&["yarn.lock"]), ("yarn", both.clone()));
    assert_eq!(present(&["package-lock.json"]), ("npm", both));
}
