use codex_tui_kit::history::{
    rendered_history_line_rows, standard_insert_plan, wrapped_row_count, PreScroll,
    StandardInsertPlan,
};
use codex_tui_kit::user_messages::{pending_steer_compare_key_from_items, UserInput};
use codex_tui_kit::git::{bytes, failure_message, status, stdout, GitOutput};
use codex_tui_kit::history::{
    is_preformatted_box_table_line, modifier_diff, InsertHistoryMode, ModifierSet,
    ResetScrollRegion, SetScrollRegion, SgrAttribute,
};
use codex_tui_kit::source_partition::{
    classify_event, looks_like_table_prefix, partition_source, source_has_table_block, MdEvent,
};
use codex_tui_kit::table::allocate_table_widths;
use pulldown_cmark::{CowStr, Event, HeadingLevel, Tag, TagEnd};
use codex_tui_kit::usage_nudge::{
    prompt_subtitle, prompt_url, CurrentUsageLimitNudgePromptState, RateLimitWindow,
    UsageLimitNudge, UsageLimitNudgeAction, UsageNudgePrefetchThreshold,
    CURRENT_USAGE_LIMIT_NUDGE_URL, UPGRADE_USAGE_LIMIT_NUDGE_URL,
    WORKSPACE_OWNER_USAGE_LIMIT_NUDGE_URL,
};

fn window(used_percent: i32, resets_at: i64) -> Option<RateLimitWindow> {
    Some(RateLimitWindow {
        used_percent,
        window_duration_mins: Some(300),
        resets_at: Some(resets_at),
    })
}

fn nudge(threshold: u8, action: UsageLimitNudgeAction) -> UsageLimitNudge {
    UsageLimitNudge { threshold, action }
}

#[test]
fn single_table_remains_tail() {
    let source = "| A | B |\n| --- | --- |\n| 1 | 2 |\n";

    let partition = partition_source(source);

    assert_eq!(partition.stable_end, 0);
    assert_eq!(&source[partition.tail.0..partition.tail.1], source);
}

#[test]
fn table_becomes_stable_after_later_block() {
    let source = "| A | B |\n| --- | --- |\n| 1 | 2 |\n\nDone.\n";

    let partition = partition_source(source);

    assert_eq!(partition.stable_end, source.len());
    assert_eq!(&source[partition.tail.0..partition.tail.1], "");
    assert_eq!(partition.stable_blocks.len(), 2);
}

#[test]
fn fenced_code_with_pipes_is_stable() {
    let source = "```\n| A | B |\n| --- | --- |\n```\n";

    let partition = partition_source(source);

    assert_eq!(partition.stable_end, source.len());
    assert_eq!(&source[partition.tail.0..partition.tail.1], "");
}

#[test]
fn normal_paragraph_is_stable() {
    let source = "hello\n";

    let partition = partition_source(source);

    assert_eq!(partition.stable_end, source.len());
    assert_eq!(&source[partition.tail.0..partition.tail.1], "");
}

#[test]
fn table_header_candidate_remains_tail() {
    let source = "| A | B |\n";

    let partition = partition_source(source);

    assert_eq!(partition.stable_end, 0);
    assert_eq!(&source[partition.tail.0..partition.tail.1], source);
}

#[test]
fn detects_table_blocks() {
    assert!(source_has_table_block("| A | B |\n| --- | --- |\n| 1 | 2 |\n"));
    assert!(!source_has_table_block("```\n| A | B |\n| --- | --- |\n```\n"));
}

#[test]
fn table_prefix_needs_two_pipes_or_a_leading_one() {
    assert!(looks_like_table_prefix("\n  | A\n"));
    assert!(looks_like_table_prefix("a | b | c"));
    assert!(!looks_like_table_prefix("a | b"));
    assert!(!looks_like_table_prefix("   \n"));
}

#[test]
fn detects_preformatted_box_table_lines() {
    assert!(is_preformatted_box_table_line(
        "│       Link │ a (https://example.com/a) │"
    ));
    assert!(is_preformatted_box_table_line("┌──────┬────────┐"));
    assert!(!is_preformatted_box_table_line(
        "plain text with https://example.com"
    ));
    assert!(!is_preformatted_box_table_line(
        "  │ quoted text with https://example.com"
    ));
}

#[test]
fn insert_mode_follows_the_flag() {
    assert_eq!(InsertHistoryMode::new(true), InsertHistoryMode::Newline);
    assert_eq!(InsertHistoryMode::new(false), InsertHistoryMode::Standard);
}

#[test]
fn scroll_region_sequences() {
    assert_eq!(SetScrollRegion(1..24).ansi(), "\x1b[1;24r");
    assert_eq!(ResetScrollRegion.ansi(), "\x1b[r");
}

#[test]
fn writes_bold_then_regular_spans() {
    let plain = ModifierSet {
        bold: false,
        dim: false,
        italic: false,
        underlined: false,
        slow_blink: false,
        rapid_blink: false,
        reversed: false,
        hidden: false,
        crossed_out: false,
    };
    let bold = ModifierSet { bold: true, ..plain };
    assert_eq!(modifier_diff(plain, bold), vec![SgrAttribute::Bold]);
    assert_eq!(modifier_diff(bold, plain), vec![SgrAttribute::NormalIntensity]);
    let dim = ModifierSet { dim: true, ..plain };
    assert_eq!(
        modifier_diff(bold, dim),
        vec![SgrAttribute::NormalIntensity, SgrAttribute::Dim, SgrAttribute::Dim]
    );
    assert!(modifier_diff(dim, dim).is_empty());
}

#[test]
fn thresholds_follow_usage() {
    assert_eq!(UsageNudgePrefetchThreshold::from_used_percent(74), None);
    assert_eq!(
        UsageNudgePrefetchThreshold::from_used_percent(75),
        Some(UsageNudgePrefetchThreshold::Percent75)
    );
    assert_eq!(
        UsageNudgePrefetchThreshold::from_used_percent(95),
        Some(UsageNudgePrefetchThreshold::Percent90)
    );
}

#[test]
fn prompt_shows_only_once_per_session() {
    let mut state = CurrentUsageLimitNudgePromptState::new();
    state.update(Some(nudge(75, UsageLimitNudgeAction::AddCredits)));
    assert!(state.is_active());
    assert!(state.has_pending());
    assert_eq!(state.take_pending(), Some(nudge(75, UsageLimitNudgeAction::AddCredits)));
    state.update(Some(nudge(90, UsageLimitNudgeAction::Upgrade)));
    assert!(state.is_active());
    assert!(!state.has_pending());
    assert_eq!(state.take_pending(), None);
    state.update(None);
    assert!(!state.is_active());
}

#[test]
fn prefetches_once_per_threshold_crossing() {
    let mut state = CurrentUsageLimitNudgePromptState::new();
    assert!(!state.should_prefetch(window(50, 1), None));
    assert!(state.should_prefetch(window(76, 1), None));
    assert!(!state.should_prefetch(window(80, 1), None));
    assert!(state.should_prefetch(window(91, 1), None));
    assert!(!state.should_prefetch(window(92, 1), None));
    assert!(!state.should_prefetch(window(60, 1), None));
    assert!(!state.should_prefetch(window(91, 1), None));
}

#[test]
fn prefetches_once_when_first_update_is_above_90() {
    let mut state = CurrentUsageLimitNudgePromptState::new();
    assert!(state.should_prefetch(window(95, 1), None));
    assert!(!state.should_prefetch(window(76, 1), None));
}

#[test]
fn prefetches_again_after_window_rolls_over() {
    let mut state = CurrentUsageLimitNudgePromptState::new();
    assert!(state.should_prefetch(window(80, 1), None));
    assert!(state.should_prefetch(window(80, 2), None));
    assert!(state.should_prefetch(None, window(80, 2)));
    assert!(!state.should_prefetch(window(80, 2), window(80, 2)));
}

#[test]
fn prompt_text_and_destination() {
    assert_eq!(
        prompt_subtitle(&nudge(90, UsageLimitNudgeAction::AddCredits)),
        "You're at 90% of your Codex usage limit. Add credits now to keep going?"
    );
    assert_eq!(
        prompt_url(&nudge(90, UsageLimitNudgeAction::Upgrade), true),
        UPGRADE_USAGE_LIMIT_NUDGE_URL
    );
    assert_eq!(
        prompt_url(&nudge(90, UsageLimitNudgeAction::AddCredits), true),
        WORKSPACE_OWNER_USAGE_LIMIT_NUDGE_URL
    );
    assert_eq!(
        prompt_url(&nudge(75, UsageLimitNudgeAction::AddCredits), false),
        CURRENT_USAGE_LIMIT_NUDGE_URL
    );
}

#[test]
fn git_output_is_trimmed_text_on_success() {
    let ok = GitOutput {
        success: true,
        stdout: b"/repo\n".to_vec(),
        stderr: Vec::new(),
    };
    assert_eq!(stdout(&["rev-parse", "--show-toplevel"], ok), Ok("/repo".to_string()));
    let failed = GitOutput {
        success: false,
        stdout: Vec::new(),
        stderr: b"fatal: not a git repository\n".to_vec(),
    };
    assert_eq!(
        status(&["status"], failed),
        Err("git status failed: fatal: not a git repository".to_string())
    );
    let raw = GitOutput {
        success: true,
        stdout: vec![0xff, 0x00],
        stderr: Vec::new(),
    };
    assert_eq!(bytes(&["show"], raw), Ok(vec![0xff, 0x00]));
    let invalid = GitOutput {
        success: true,
        stdout: vec![0xff],
        stderr: Vec::new(),
    };
    assert!(stdout(&["show"], invalid).is_err());
}

#[test]
fn proactive_usage_prompt_prefetches_once_when_first_live_update_is_above_90() {
    let mut state = CurrentUsageLimitNudgePromptState::new();
    assert!(state.should_prefetch(window(92, 1), None));
    assert!(!state.should_prefetch(window(95, 1), None));
}

#[test]
fn proactive_usage_prompt_prefetches_again_after_primary_window_rolls_over() {
    let mut state = CurrentUsageLimitNudgePromptState::new();
    assert!(state.should_prefetch(window(75, 100), None));
    assert!(state.should_prefetch(window(75, 200), None));
}

#[test]
fn proactive_usage_prompt_prefetch_dedupe_survives_same_window_dip() {
    let mut state = CurrentUsageLimitNudgePromptState::new();
    assert!(state.should_prefetch(window(75, 1), None));
    assert!(!state.should_prefetch(window(74, 1), None));
    assert!(!state.should_prefetch(window(80, 1), None));
    assert!(state.should_prefetch(window(90, 1), None));
}

#[test]
fn pending_steer_key_flattens_text_and_counts_images() {
    let key = pending_steer_compare_key_from_items(&[
        UserInput::Text("fix ".to_string()),
        UserInput::Image("https://example.com/a.png".to_string()),
        UserInput::Skill("review".to_string()),
        UserInput::Text("the bug".to_string()),
        UserInput::LocalImage("/tmp/b.png".to_string()),
        UserInput::Mention("app".to_string()),
    ]);
    assert_eq!(key.message, "fix the bug");
    assert_eq!(key.image_count, 2);
}

#[test]
fn history_line_rows_wrap_where_symbols_no_longer_fit() {
    assert_eq!(rendered_history_line_rows(&[], 5), 1);
    assert_eq!(rendered_history_line_rows(&[3, 3, 3], 5), 3);
    assert_eq!(rendered_history_line_rows(&[10], 5), 1);
    assert_eq!(rendered_history_line_rows(&[2, 10, 2], 5), 2);
    assert_eq!(rendered_history_line_rows(&[5, 5], 5), 2);
}

#[test]
fn wrapped_rows_count_at_least_one_per_line() {
    assert_eq!(wrapped_row_count(&[0, 10, 5], 5), 4);
    assert_eq!(wrapped_row_count(&[11], 5), 3);
    assert_eq!(wrapped_row_count(&[], 80), 0);
}

#[test]
fn standard_insertion_scrolls_only_when_room_below_viewport() {
    assert_eq!(
        standard_insert_plan(10, 5, 20, 3),
        StandardInsertPlan {
            pre_scroll: Some(PreScroll {
                region_top: 11,
                region_bottom: 20,
                amount: 3,
            }),
            cursor_top: 9,
            viewport_top: 13,
            viewport_moved: true,
        }
    );
    assert_eq!(
        standard_insert_plan(10, 5, 20, 9),
        StandardInsertPlan {
            pre_scroll: Some(PreScroll {
                region_top: 11,
                region_bottom: 20,
                amount: 5,
            }),
            cursor_top: 9,
            viewport_top: 15,
            viewport_moved: true,
        }
    );
    assert_eq!(
        standard_insert_plan(0, 20, 20, 3),
        StandardInsertPlan {
            pre_scroll: None,
            cursor_top: 0,
            viewport_top: 0,
            viewport_moved: false,
        }
    );
}

#[test]
fn git_failure_quotes_stderr_lossily() {
    let failed = GitOutput {
        success: false,
        stdout: Vec::new(),
        stderr: vec![b' ', b'b', b'a', b'd', 0xff, b'\n'],
    };
    assert_eq!(
        stdout(&["status"], failed),
        Err("git status failed: bad\u{FFFD}".to_string())
    );
    assert_eq!(
        failure_message(&["log", "-1"], &vec![0xc3, b'x']),
        "git log -1 failed: \u{FFFD}x"
    );
}

#[test]
fn markdown_events_are_classified_by_tag() {
    assert_eq!(classify_event(&Event::Start(Tag::Table(Vec::new())), 3, 9), MdEvent::TableStart(3));
    assert_eq!(classify_event(&Event::Start(Tag::Paragraph), 0, 5), MdEvent::BlockStart(0));
    assert_eq!(
        classify_event(
            &Event::Start(Tag::Heading {
                level: HeadingLevel::H2,
                id: None,
                classes: Vec::new(),
                attrs: Vec::new(),
            }),
            1,
            4
        ),
        MdEvent::BlockStart(1)
    );
    assert_eq!(classify_event(&Event::End(TagEnd::Paragraph), 0, 5), MdEvent::BlockEnd(5));
    assert_eq!(classify_event(&Event::Start(Tag::Emphasis), 0, 5), MdEvent::Other);
    assert_eq!(classify_event(&Event::Text(CowStr::Borrowed("x")), 0, 1), MdEvent::Other);
    assert_eq!(classify_event(&Event::Rule, 2, 6), MdEvent::Rule(2, 6));
}

#[test]
fn table_widths_stay_within_targets_and_budget() {
    // Two columns, padding 1: borders 3 and padding 4 leave 13 for content.
    assert_eq!(allocate_table_widths(&[2, 20], 20, 2, 1), Some(vec![3, 10]));
    // Everything fits at full width, with room to spare.
    assert_eq!(allocate_table_widths(&[4, 5], 40, 2, 1), Some(vec![4, 5]));
    // Exactly three cells per column is the least that is accepted.
    assert_eq!(allocate_table_widths(&[9, 9], 13, 2, 1), Some(vec![3, 3]));
    assert_eq!(allocate_table_widths(&[9, 9], 12, 2, 1), None);
}
