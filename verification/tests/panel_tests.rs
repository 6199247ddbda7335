use codex_tui_kit::hooks_review::{
    option_line, pending_trust_updates, review_count_line, review_status_line, selected_choice,
    should_run_startup_review, HookEntry, HookTrustStatus, HooksReviewAction,
    HooksReviewPromptView, HooksReviewSelection, ReviewKey, StartupReviewEvent,
    StartupReviewOutcome, StartupReviewState, ViewCompletion,
};
use codex_tui_kit::motion::{
    activity_indicator, activity_spinner_frame_at, blink_on, reduced_motion_spans,
    ActivityIndicator, MotionMode, ReducedMotionIndicator, ACTIVITY_SPINNER_INTERVAL_MS,
};
use codex_tui_kit::queued_sends::{
    should_prompt_to_resume_queued_sends, PausedQueuedInputKind, PausedQueuedSendEdit,
    PausedQueues, ReviewAction,
};
use codex_tui_kit::subagents::{
    app_server_collab_state_to_agent_status, clean_token, fallback_agent_name,
    is_running_for_panel, is_terminal_status, is_visible_in_panel, next_ordinal,
    prompt_first_line, push_bounded, buffer_pending, take_pending, should_shimmer,
    SubagentRegistry, subagent_animation_change,
    subagent_name_tokens, subagents_root_active, AgentStatus, AnimationChange,
    CollabAgentState, CollabAgentStatus, SubagentEvent, SubagentProgress, panel_summary,
    PanelAgentRow, collab_call_effect, CollabCallEffect, CollabReceiver, terminal_summary,
    running_preview,
};
use codex_tui_kit::pets::{frame_count, path_like, pet_defaults, spritesheet_location};
use codex_tui_kit::update_prompt::PromptKeyCode;

fn hook(key: &str, trust_status: HookTrustStatus) -> HookEntry {
    HookEntry {
        key: key.to_string(),
        current_hash: format!("sha256:{key}"),
        trust_status,
    }
}

fn key(code: PromptKeyCode) -> ReviewKey {
    ReviewKey {
        code,
        no_modifiers: true,
    }
}

#[test]
fn reduced_motion_activity_indicator_uses_explicit_fallback() {
    assert_eq!(
        activity_indicator(MotionMode::Reduced, ReducedMotionIndicator::Hidden),
        None
    );
    assert_eq!(
        activity_indicator(MotionMode::Reduced, ReducedMotionIndicator::StaticBullet),
        Some(ActivityIndicator::DimBullet)
    );
}

#[test]
fn reduced_motion_shimmer_text_is_plain_text() {
    assert_eq!(reduced_motion_spans("Loading"), vec!["Loading".to_string()]);
    assert_eq!(reduced_motion_spans(""), Vec::<String>::new());
}

#[test]
fn activity_spinner_frame_advances_and_wraps() {
    assert_eq!(activity_spinner_frame_at(0), "⠋");
    assert_eq!(activity_spinner_frame_at(ACTIVITY_SPINNER_INTERVAL_MS), "⠙");
    assert_eq!(activity_spinner_frame_at(ACTIVITY_SPINNER_INTERVAL_MS * 10), "⠋");
}

#[test]
fn animated_motion_always_shows_the_indicator() {
    assert_eq!(
        activity_indicator(MotionMode::Animated, ReducedMotionIndicator::Hidden),
        Some(ActivityIndicator::Animated)
    );
    assert_eq!(MotionMode::from_animations_enabled(true), MotionMode::Animated);
    assert_eq!(MotionMode::from_animations_enabled(false), MotionMode::Reduced);
}

#[test]
fn spinner_holds_a_frame_for_a_whole_interval() {
    assert_eq!(activity_spinner_frame_at(99), "⠋");
    assert_eq!(activity_spinner_frame_at(950), "⠏");
    assert_eq!(activity_spinner_frame_at(1_050), "⠋");
}

#[test]
fn blink_alternates_every_600_ms() {
    assert!(blink_on(0));
    assert!(blink_on(599));
    assert!(!blink_on(600));
    assert!(blink_on(1_200));
}

#[test]
fn pending_trust_updates_only_include_review_needed_hooks() {
    let updates = pending_trust_updates(&[
        hook("path:new", HookTrustStatus::Untrusted),
        hook("path:changed", HookTrustStatus::Modified),
        hook("path:trusted", HookTrustStatus::Trusted),
    ]);

    assert_eq!(
        updates
            .into_iter()
            .map(|update| update.key)
            .collect::<Vec<_>>(),
        vec!["path:new".to_string(), "path:changed".to_string()]
    );
}

#[test]
fn pending_trust_updates_carry_the_current_hash() {
    let updates = pending_trust_updates(&[hook("path:new", HookTrustStatus::Untrusted)]);
    assert_eq!(updates.len(), 1);
    assert_eq!(updates[0].current_hash, "sha256:path:new");
}

#[test]
fn review_selection_opens_hooks_browser() {
    let mut view = HooksReviewPromptView::new(vec![hook("path:new", HookTrustStatus::Untrusted)]);

    let action = view.handle_key(key(PromptKeyCode::Enter));

    assert_eq!(action, HooksReviewAction::OpenBrowser);
    assert_eq!(view.completion, Some(ViewCompletion::Accepted));
}

#[test]
fn trust_all_selection_trusts_each_review_needed_hook() {
    let mut view = HooksReviewPromptView::new(vec![
        hook("path:new", HookTrustStatus::Untrusted),
        hook("path:changed", HookTrustStatus::Modified),
        hook("path:trusted", HookTrustStatus::Trusted),
    ]);
    view.handle_key(key(PromptKeyCode::Down));

    let action = view.handle_key(key(PromptKeyCode::Enter));

    assert_eq!(action, HooksReviewAction::TrustAll);
    let trust_events = pending_trust_updates(&view.hooks);
    assert_eq!(trust_events.len(), 2);
    assert_eq!(view.review_needed_count(), 2);
    assert_eq!(view.completion, Some(ViewCompletion::Accepted));
}

#[test]
fn review_prompt_keys_wrap_and_cancel() {
    let mut view = HooksReviewPromptView::new(Vec::new());
    view.handle_key(key(PromptKeyCode::Up));
    assert_eq!(view.highlighted, HooksReviewSelection::ContinueWithoutTrusting);
    view.handle_key(key(PromptKeyCode::Char('j')));
    assert_eq!(view.highlighted, HooksReviewSelection::ReviewHooks);
    assert!(!view.is_complete());

    let action = view.handle_key(key(PromptKeyCode::Char('3')));
    assert_eq!(action, HooksReviewAction::Nothing);
    assert_eq!(view.completion, Some(ViewCompletion::Cancelled));

    let mut other = HooksReviewPromptView::new(Vec::new());
    other.handle_key(key(PromptKeyCode::Esc));
    assert_eq!(other.completion, Some(ViewCompletion::Cancelled));

    let mut third = HooksReviewPromptView::new(Vec::new());
    third.on_ctrl_c();
    assert!(third.is_complete());
    assert_eq!(third.completion, Some(ViewCompletion::Cancelled));
}

#[test]
fn review_prompt_ignores_digit_with_modifier() {
    let mut view = HooksReviewPromptView::new(Vec::new());
    let action = view.handle_key(ReviewKey {
        code: PromptKeyCode::Char('2'),
        no_modifiers: false,
    });
    assert_eq!(action, HooksReviewAction::Nothing);
    assert_eq!(view.completion, None);
}

#[test]
fn review_prompt_lines() {
    assert_eq!(review_count_line(1), "1 hook is new or changed.");
    assert_eq!(review_count_line(3), "3 hooks are new or changed.");
    assert_eq!(option_line(0, "Review hooks", true), "› 1. Review hooks");
    assert_eq!(option_line(2, "Continue", false), "  3. Continue");
    assert_eq!(
        review_status_line(Some("failed to trust"), true),
        Some("failed to trust".to_string())
    );
    assert_eq!(
        review_status_line(None, true),
        Some("Trusting hooks...".to_string())
    );
    assert_eq!(review_status_line(None, false), None);
}

#[test]
fn startup_review_choice_reads_the_selected_row() {
    assert_eq!(selected_choice(false, Some(0)), None);
    assert_eq!(
        selected_choice(true, Some(0)),
        Some(HooksReviewSelection::ReviewHooks)
    );
    assert_eq!(
        selected_choice(true, Some(1)),
        Some(HooksReviewSelection::TrustAllAndContinue)
    );
    assert_eq!(
        selected_choice(true, None),
        Some(HooksReviewSelection::ContinueWithoutTrusting)
    );
    assert_eq!(selected_choice(true, Some(7)), None);
}

#[test]
fn collab_states_map_to_agent_statuses() {
    let errored = app_server_collab_state_to_agent_status(&CollabAgentState {
        status: CollabAgentStatus::Errored,
        message: None,
    });
    assert_eq!(errored, AgentStatus::Errored(String::new()));
    assert!(is_terminal_status(&errored));
    let running = app_server_collab_state_to_agent_status(&CollabAgentState {
        status: CollabAgentStatus::Running,
        message: Some("ignored".to_string()),
    });
    assert_eq!(running, AgentStatus::Running);
    assert!(!is_terminal_status(&running));
}

#[test]
fn watchdogs_count_as_running_only_once_started() {
    assert!(is_visible_in_panel(true, &AgentStatus::PendingInit));
    assert!(!is_visible_in_panel(false, &AgentStatus::Interrupted));
    assert!(is_running_for_panel(false, &AgentStatus::PendingInit));
    assert!(!is_running_for_panel(true, &AgentStatus::PendingInit));
    assert!(!is_running_for_panel(false, &AgentStatus::Shutdown));
    assert!(should_shimmer(false, &AgentStatus::Running, 0));
    assert!(!should_shimmer(false, &AgentStatus::Running, 1_001));
    assert!(!should_shimmer(true, &AgentStatus::PendingInit, 0));
    assert!(should_shimmer(true, &AgentStatus::Running, 1_000));
}

#[test]
fn agent_names_come_from_the_first_prompt_line() {
    assert_eq!(prompt_first_line("\n  \n  Fix the parser  \nmore"), "Fix the parser");
    assert_eq!(prompt_first_line("   "), "");
    assert_eq!(clean_token(&['F', 'o', 'o', '!', '-', '1']), vec!['f', 'o', 'o', '-', '1']);
    let tokens: Vec<String> = subagent_name_tokens("Task: Read the file and fix parser tests now please")
        .into_iter()
        .map(|t| t.into_iter().collect())
        .collect();
    assert_eq!(tokens, vec!["fix", "parser", "tests", "now"]);
    assert!(subagent_name_tokens("the a an").is_empty());
    assert_eq!(fallback_agent_name(3), "agent-3");
    assert_eq!(next_ordinal(0), 1);
    assert_eq!(next_ordinal(usize::MAX), i32::MAX);
}

#[test]
fn pending_events_keep_the_newest() {
    let mut buffer = vec![1, 2, 3];
    push_bounded(&mut buffer, 4, 3);
    assert_eq!(buffer, vec![2, 3, 4]);
    push_bounded(&mut buffer, 5, 4);
    assert_eq!(buffer, vec![2, 3, 4, 5]);
}

#[test]
fn panel_animation_runs_only_for_the_shown_root() {
    assert!(subagents_root_active(Some(7), Some(7)));
    assert!(!subagents_root_active(Some(7), Some(8)));
    assert!(!subagents_root_active(None, None));
    assert_eq!(subagent_animation_change(true, true, false), AnimationChange::Start);
    assert_eq!(subagent_animation_change(false, true, true), AnimationChange::Stop);
    assert_eq!(subagent_animation_change(true, true, true), AnimationChange::Keep);
}

#[test]
fn paused_queues_edit_save_and_drop() {
    let mut queues: PausedQueues<String, u8> = PausedQueues::new();
    assert!(!queues.has_queued());
    queues.pause_after_limit_error();
    assert!(!queues.paused);

    queues.steers.push("steer".to_string());
    queues.steer_records.push(1);
    queues.follow_ups.push("first".to_string());
    queues.follow_up_records.push(2);
    queues.follow_ups.push("second".to_string());
    queues.follow_up_records.push(3);
    queues.pause_after_limit_error();
    assert!(queues.paused);

    assert_eq!(
        queues.review_entries(),
        vec![
            (PausedQueuedInputKind::Steering, 0, 1),
            (PausedQueuedInputKind::FollowUp, 0, 2),
            (PausedQueuedInputKind::FollowUp, 1, 3),
        ]
    );

    assert!(!queues.begin_edit(PausedQueuedInputKind::Steering, 4));
    assert!(queues.begin_edit(PausedQueuedInputKind::FollowUp, 1));
    assert_eq!(
        queues.edit,
        Some(PausedQueuedSendEdit {
            kind: PausedQueuedInputKind::FollowUp,
            index: 1,
        })
    );
    assert_eq!(
        queues.queued_message(PausedQueuedInputKind::FollowUp, 1),
        Some(&"second".to_string())
    );
    assert!(queues.save_edit("edited".to_string(), 9));
    assert_eq!(queues.follow_ups, vec!["first".to_string(), "edited".to_string()]);
    assert_eq!(queues.follow_up_records, vec![2, 9]);
    assert_eq!(queues.edit, None);
    assert!(!queues.save_edit("again".to_string(), 0));

    assert!(queues.drop_queued(PausedQueuedInputKind::FollowUp, 0));
    assert_eq!(queues.follow_ups, vec!["edited".to_string()]);
    assert!(!queues.drop_queued(PausedQueuedInputKind::Steering, 3));

    queues.resume();
    assert!(!queues.paused);
    queues.drop_all();
    assert!(!queues.has_queued());
}

#[test]
fn resume_prompt_needs_an_idle_empty_composer() {
    assert!(should_prompt_to_resume_queued_sends(true, true, false, true, true));
    assert!(!should_prompt_to_resume_queued_sends(true, true, true, true, true));
    assert!(!should_prompt_to_resume_queued_sends(false, true, false, true, true));
}

#[test]
fn subagent_progress_announces_the_end_once() {
    let mut progress = SubagentProgress::new();
    assert_eq!(progress.status, AgentStatus::PendingInit);

    let started = progress.on_event(SubagentEvent::TurnStarted);
    assert!(started.first_start && started.touched && started.clear_summary);
    assert_eq!(progress.status, AgentStatus::Running);
    let again = progress.on_event(SubagentEvent::TurnStarted);
    assert!(!again.first_start);

    let delta = progress.on_event(SubagentEvent::MessageDelta("  Looking ".to_string()));
    assert_eq!(delta.preview, Some("Looking".to_string()));
    let more = progress.on_event(SubagentEvent::MessageDelta("at tests".to_string()));
    assert_eq!(more.preview, Some("Looking at tests".to_string()));
    assert_eq!(progress.inflight_message, "  Looking at tests");

    let reasoning = progress.on_event(SubagentEvent::ReasoningDelta("**Plan**".to_string()));
    assert_eq!(reasoning.reasoning_scan, Some("**Plan**".to_string()));
    let raw = progress.on_event(SubagentEvent::ReasoningRawContent(" more".to_string()));
    assert_eq!(raw.reasoning_scan, Some("**Plan** more".to_string()));
    assert_eq!(progress.reasoning_buffer, "");

    let done = progress.on_event(SubagentEvent::TurnComplete(Some(" all green ".to_string())));
    assert_eq!(done.notice, Some("all green".to_string()));
    assert_eq!(
        progress.status,
        AgentStatus::Completed(Some(" all green ".to_string()))
    );
    assert_eq!(progress.inflight_message, "");

    let shutdown = progress.on_event(SubagentEvent::ShutdownComplete);
    assert_eq!(shutdown.notice, None);
    assert_eq!(progress.status, AgentStatus::Shutdown);
}

#[test]
fn subagent_errors_and_aborts_become_errored() {
    let mut progress = SubagentProgress::new();
    let aborted = progress.on_event(SubagentEvent::TurnAborted("interrupted".to_string()));
    assert_eq!(aborted.notice, Some("interrupted".to_string()));
    assert_eq!(progress.status, AgentStatus::Errored("interrupted".to_string()));

    let mut other = SubagentProgress::new();
    let completed = other.on_event(SubagentEvent::TurnComplete(None));
    assert_eq!(completed.notice, Some("completed".to_string()));
    let ignored = other.on_event(SubagentEvent::Other);
    assert_eq!(ignored.notice, None);
    assert_eq!(ignored.preview, None);
}

fn row(ordinal: i32, is_watchdog: bool, status: AgentStatus, started_at_ms: u64) -> PanelAgentRow {
    PanelAgentRow {
        ordinal,
        is_watchdog,
        status,
        started_at_ms,
    }
}

#[test]
fn panel_summary_orders_shown_agents_by_ordinal() {
    let rows = vec![
        row(3, false, AgentStatus::Running, 300),
        row(1, false, AgentStatus::Completed(None), 50),
        row(2, true, AgentStatus::PendingInit, 200),
        row(1, false, AgentStatus::PendingInit, 250),
    ];
    let summary = panel_summary(&rows).expect("agents shown");
    assert_eq!(summary.order, vec![3, 2, 0]);
    assert_eq!(summary.total_agents, 3);
    assert_eq!(summary.running_count, 2);
    assert_eq!(summary.started_at_ms, 200);

    assert_eq!(
        panel_summary(&[row(1, false, AgentStatus::Shutdown, 0)]),
        None
    );
    assert_eq!(panel_summary(&[]), None);
}

#[test]
fn pets_named_by_path_or_name() {
    for value in [".", "..", "~/pets/chefito", "./chefito", "../chefito", "/abs/pet", "a/b", "a\\b"] {
        assert!(path_like(value), "{value}");
    }
    for value in ["chefito", "~", "...", ""] {
        assert!(!path_like(value), "{value}");
    }
}

#[test]
fn pet_file_defaults() {
    assert_eq!(
        pet_defaults(String::new(), String::new(), String::new(), Some("chefito".to_string())),
        (
            "chefito".to_string(),
            "chefito".to_string(),
            "spritesheet.webp".to_string()
        )
    );
    assert_eq!(
        pet_defaults(String::new(), "Chef".to_string(), "sheet.png".to_string(), None),
        ("pet".to_string(), "Chef".to_string(), "sheet.png".to_string())
    );
    assert_eq!(spritesheet_location("/pets/chefito", "sheet.png"), "/pets/chefito/sheet.png");
    assert_eq!(spritesheet_location("/pets/chefito", "/abs/sheet.png"), "/abs/sheet.png");
    assert_eq!(frame_count(8, 9), 72);
}

#[test]
fn startup_review_trusts_all_or_reports_the_failure() {
    assert!(should_run_startup_review(&[hook("path:new", HookTrustStatus::Untrusted)]));
    assert!(!should_run_startup_review(&[hook("path:ok", HookTrustStatus::Trusted)]));

    let mut state = StartupReviewState::new();
    let step = state.step(StartupReviewEvent::KeyHandled(Some(
        HooksReviewSelection::TrustAllAndContinue,
    )));
    assert!(step.write_trusts && step.redraw);
    assert!(state.trusting_all);

    let failed = state.step(StartupReviewEvent::TrustFailed("denied".to_string()));
    assert!(failed.redraw && failed.outcome.is_none());
    assert!(!state.trusting_all);
    assert_eq!(
        state.trust_all_error,
        Some("Failed to trust hooks: denied".to_string())
    );

    let done = state.step(StartupReviewEvent::TrustsWritten);
    assert_eq!(done.outcome, Some(StartupReviewOutcome::Continue));
    let browse = state.step(StartupReviewEvent::KeyHandled(Some(HooksReviewSelection::ReviewHooks)));
    assert_eq!(browse.outcome, Some(StartupReviewOutcome::OpenHooksBrowser));
    let pending = state.step(StartupReviewEvent::KeyHandled(None));
    assert!(pending.redraw && pending.outcome.is_none());
    let ended = state.step(StartupReviewEvent::EventsEnded);
    assert_eq!(ended.outcome, Some(StartupReviewOutcome::Continue));
    let paste = state.step(StartupReviewEvent::Paste);
    assert!(!paste.redraw && paste.outcome.is_none());
}

fn receiver(valid_thread_id: bool, status: Option<CollabAgentStatus>) -> CollabReceiver {
    CollabReceiver {
        valid_thread_id,
        state: status.map(|status| CollabAgentState {
            status,
            message: None,
        }),
    }
}

#[test]
fn collab_calls_spawn_or_update_agents() {
    assert_eq!(
        collab_call_effect(true, true, &[receiver(true, None)]),
        CollabCallEffect::Spawn(AgentStatus::PendingInit)
    );
    assert_eq!(
        collab_call_effect(true, false, &[receiver(true, Some(CollabAgentStatus::Running))]),
        CollabCallEffect::Spawn(AgentStatus::Running)
    );
    assert_eq!(
        collab_call_effect(true, false, &[receiver(false, None)]),
        CollabCallEffect::NoChange
    );
    assert_eq!(collab_call_effect(true, false, &[]), CollabCallEffect::NoChange);
    assert_eq!(
        collab_call_effect(false, true, &[receiver(true, Some(CollabAgentStatus::Shutdown))]),
        CollabCallEffect::NoChange
    );
    assert_eq!(
        collab_call_effect(
            false,
            false,
            &[
                receiver(true, Some(CollabAgentStatus::Shutdown)),
                receiver(false, Some(CollabAgentStatus::Running)),
                receiver(true, None),
                receiver(true, Some(CollabAgentStatus::Completed)),
            ]
        ),
        CollabCallEffect::UpdateStatuses(vec![
            (0, AgentStatus::Shutdown),
            (3, AgentStatus::Completed(None)),
        ])
    );
}

#[test]
fn closing_announces_an_unannounced_end() {
    assert_eq!(terminal_summary(&AgentStatus::Errored("  boom ".to_string())), "boom");
    assert_eq!(terminal_summary(&AgentStatus::NotFound), "not found");
    assert_eq!(terminal_summary(&AgentStatus::Running), "running");

    let mut progress = SubagentProgress::new();
    assert_eq!(progress.on_close_status(AgentStatus::Running), None);
    assert_eq!(
        progress.on_close_status(AgentStatus::Completed(None)),
        Some("completed".to_string())
    );
    assert_eq!(progress.on_close_status(AgentStatus::Shutdown), None);
    assert_eq!(progress.status, AgentStatus::Shutdown);
    progress.on_wait_status(AgentStatus::Interrupted);
    assert_eq!(progress.status, AgentStatus::Interrupted);
}

#[test]
fn running_preview_prefers_the_freshest_text() {
    let s = |v: &str| v.to_string();
    assert_eq!(
        running_preview(&s(" Plan "), &s("writing"), &s("older"), &s("prompt")),
        (s("Plan"), 160)
    );
    assert_eq!(
        running_preview(&s("  "), &s(" writing"), &s("older"), &s("prompt")),
        (s("writing"), 160)
    );
    assert_eq!(
        running_preview(&s(""), &s(""), &s("older "), &s("prompt")),
        (s("older"), 160)
    );
    assert_eq!(
        running_preview(&s(""), &s(" "), &s(""), &s(" Fix the parser ")),
        (s("Fix the parser"), 120)
    );
}

#[test]
fn early_events_are_buffered_per_agent_and_replayed_in_order() {
    let mut pending: Vec<u32> = Vec::new();
    buffer_pending(&mut pending, true, 1);
    assert!(pending.is_empty());
    for event in 0..15 {
        buffer_pending(&mut pending, false, event);
    }
    assert_eq!(pending, (3..15).collect::<Vec<u32>>());
    buffer_pending(&mut pending, true, 99);
    assert_eq!(pending.len(), 12);
    let replayed = take_pending(&mut pending);
    assert_eq!(replayed, (3..15).collect::<Vec<u32>>());
    assert!(pending.is_empty());
    assert!(take_pending(&mut pending).is_empty());
}

#[test]
fn review_list_rows_name_each_queued_input() {
    let mut queues: PausedQueues<String, u32> = PausedQueues::new();
    queues.steers.push("steer".to_string());
    queues.steer_records.push(1);
    queues.follow_ups.push("first".to_string());
    queues.follow_up_records.push(2);
    queues.follow_ups.push("second".to_string());
    queues.follow_up_records.push(3);
    let previews = vec!["steer".to_string(), "first".to_string(), "second".to_string()];
    let items = queues.review_items(&previews);
    assert_eq!(items.len(), 8);
    assert_eq!(items[0].name, "Queued inputs");
    assert!(items[0].is_disabled);
    assert_eq!(items[1].name, "Input 1");
    assert_eq!(items[1].description.as_deref(), Some("steer"));
    assert_eq!(items[1].action, ReviewAction::OpenActions(PausedQueuedInputKind::Steering, 0));
    assert!(!items[1].dismiss_on_select);
    assert_eq!(items[3].name, "Input 3");
    assert_eq!(items[3].description.as_deref(), Some("second"));
    assert_eq!(items[3].action, ReviewAction::OpenActions(PausedQueuedInputKind::FollowUp, 1));
    assert_eq!(items[4].name, "");
    assert!(items[4].is_disabled);
    assert_eq!(items[5].name, "Queue actions");
    assert_eq!(items[6].name, "Resume all queued inputs");
    assert_eq!(
        items[6].description.as_deref(),
        Some("Continue sending remaining queued inputs.")
    );
    assert_eq!(items[6].action, ReviewAction::ResumeAll);
    assert!(items[6].dismiss_on_select);
    assert_eq!(items[7].name, "Drop all queued inputs");
    assert_eq!(
        items[7].description.as_deref(),
        Some("Clear every queued input without sending them.")
    );
    assert_eq!(items[7].action, ReviewAction::DropAll);
}

#[test]
fn registry_holds_early_events_and_replays_them_at_spawn_end() {
    let mut registry = SubagentRegistry::new();
    registry.set_root_thread(1);
    assert!(registry.on_agent_event(1, SubagentEvent::TurnStarted).is_none());
    assert!(registry.pending.is_empty());

    assert!(registry.on_agent_event(7, SubagentEvent::TurnStarted).is_none());
    assert!(registry.on_agent_event(7, SubagentEvent::Message(" hi ".to_string())).is_none());
    assert_eq!(registry.pending[&7].len(), 2);
    assert!(registry.agents.is_empty());

    let replayed = registry.on_spawn_end(7);
    assert_eq!(replayed.len(), 2);
    assert!(replayed[0].first_start);
    assert_eq!(replayed[1].preview.as_deref(), Some("hi"));
    assert_eq!(registry.order, vec![7]);
    assert!(!registry.pending.contains_key(&7));
    assert_eq!(registry.agents[&7].status, AgentStatus::Running);

    let effects = registry
        .on_agent_event(7, SubagentEvent::TurnComplete(Some("done".to_string())))
        .unwrap();
    assert_eq!(effects.notice.as_deref(), Some("done"));
    assert_eq!(registry.agents[&7].status, AgentStatus::Completed(Some("done".to_string())));
    assert!(registry.on_spawn_end(7).is_empty());
    assert_eq!(registry.order, vec![7]);

    for _ in 0..20 {
        registry.on_agent_event(9, SubagentEvent::Other);
    }
    assert_eq!(registry.pending[&9].len(), 12);
}
