use clipboard_hud::truncate::truncate_text;

#[test]
fn truncates_single_long_line() {
    let input = "abcdefghijklmnopqrstuvwxyz";
    assert_eq!(truncate_text(input, 10, 5), "abcdefg...");
}

#[test]
fn truncates_lines_count_and_adds_ellipsis_to_last_line() {
    let input = "line1\nline2\nline3\nline4\nline5\nline6";
    assert_eq!(truncate_text(input, 100, 5), "line1\nline2\nline3\nline4\nline5...");
}

#[test]
fn handles_utf8_by_char_count() {
    let input = "\u{3042}\u{3044}\u{3046}\u{3048}\u{304a}\u{304b}\u{304d}\u{304f}\u{3051}\u{3053}";
    assert_eq!(truncate_text(input, 6, 5), "\u{3042}\u{3044}\u{3046}...");
}

#[test]
fn empty_input_gives_empty_output() {
    assert_eq!(truncate_text("", 100, 5), "");
}

#[test]
fn short_text_is_kept_whole() {
    assert_eq!(truncate_text("short", 100, 5), "short");
}

#[test]
fn width_zero_empties_every_line() {
    assert_eq!(truncate_text("hello", 0, 5), "");
    assert_eq!(truncate_text("a\nb", 0, 5), "\n");
}

#[test]
fn tiny_width_keeps_only_ellipsis_prefix() {
    assert_eq!(truncate_text("hello", 1, 5), ".");
    assert_eq!(truncate_text("hello", 2, 5), "..");
    assert_eq!(truncate_text("hello", 3, 5), "...");
}

#[test]
fn line_exactly_at_width_is_untouched() {
    assert_eq!(truncate_text("abcde", 5, 5), "abcde");
}

#[test]
fn line_one_over_width_is_cut() {
    assert_eq!(truncate_text("abcdef", 5, 5), "ab...");
}

#[test]
fn exactly_max_lines_gets_no_ellipsis() {
    let input = "a\nb\nc\nd\ne";
    assert_eq!(truncate_text(input, 100, 5), "a\nb\nc\nd\ne");
}

#[test]
fn last_kept_line_is_retruncated_when_ellipsis_does_not_fit() {
    // Five characters on the last kept line, width five: no room to append,
    // so the line is re-truncated to make room.
    let input = "aa\nbb\ncc\ndd\neeeee\nff";
    assert_eq!(truncate_text(input, 5, 5), "aa\nbb\ncc\ndd\nee...");
}

#[test]
fn last_kept_line_keeps_content_when_ellipsis_fits() {
    let input = "aa\nbb\ncc\ndd\nee\nff";
    assert_eq!(truncate_text(input, 100, 5), "aa\nbb\ncc\ndd\nee...");
}

#[test]
fn empty_lines_are_preserved() {
    let input = "\n\nx";
    assert_eq!(truncate_text(input, 100, 5), "\n\nx");
}

#[test]
fn truncation_is_idempotent_on_samples() {
    let samples = [
        "abcdefghijklmnopqrstuvwxyz",
        "line1\nline2\nline3\nline4\nline5\nline6",
        "",
        "short",
        "aa\nbb\ncc\ndd\neeeee\nff",
        "\n\n\n\n\n\n\n\n",
    ];
    for input in samples {
        let once = truncate_text(input, 10, 5);
        let twice = truncate_text(&once, 10, 5);
        assert_eq!(twice, once);
    }
}

#[test]
fn counts_characters_of_every_width_alike() {
    // Four-byte characters behave exactly like one-byte ones.
    let input = "\u{1f600}\u{1f601}\u{1f602}\u{1f603}\u{1f604}\u{1f605}\u{1f606}";
    assert_eq!(truncate_text(input, 6, 5), "\u{1f600}\u{1f601}\u{1f602}...");
}
