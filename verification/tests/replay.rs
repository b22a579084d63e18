use qidi_core::checkpoint::{
    build_prepared_replay, build_prepared_replay_if_faster, checkpoint_fits, checkpoint_tmp_name,
    filter_rewind_lines, fnv1a64, prepare_replay_lines, refreshed_checkpoint, seeded_checkpoint,
    validate,
};
use qidi_core::replay::{line_at, IncrementalReplayState};
use qidi_core::session_line::{
    classify_update, event_counter_of, line_facts, subagent_of_update, RewindLineClass,
    SubagentLineEvent, UserRunTurnTracker,
};

// Test-line builders mirroring the on-disk envelope format.
fn acp(update: &str, meta: &str) -> String {
    format!(r#"{{"timestamp":1,"method":"session/update","params":{{"sessionId":"s","update":{update},"_meta":{meta}}}}}"#)
}
fn acp_no_meta(update: &str) -> String {
    format!(r#"{{"timestamp":1,"method":"session/update","params":{{"sessionId":"s","update":{update}}}}}"#)
}
fn xai(update: &str, meta: &str) -> String {
    format!(r#"{{"timestamp":1,"method":"_x.ai/session/update","params":{{"sessionId":"s","update":{update},"_meta":{meta}}}}}"#)
}
fn user(text: &str, pi: Option<u64>, ev: Option<&str>) -> String {
    let pi_json = match pi {
        Some(p) => format!(r#","promptIndex":{p}"#),
        None => String::new(),
    };
    let ev_json = match ev {
        Some(e) => format!(r#","eventId":"{e}""#),
        None => String::new(),
    };
    acp(
        &format!(r#"{{"sessionUpdate":"user_message_chunk","content":{{"type":"text","text":"{text}"}}}}"#),
        &format!(r#"{{"promptIndex_dummy":0{pi_json}{ev_json}}}"#),
    )
    .replace(r#""promptIndex_dummy":0,"#, r#""#)
    .replace(r#""promptIndex_dummy":0"#, r#""#)
}
fn agent(text: &str, ev: Option<&str>, tokens: Option<u64>) -> String {
    let mut meta = String::new();
    if let Some(e) = ev {
        meta.push_str(&format!(r#""eventId":"{e}""#));
    }
    if let Some(t) = tokens {
        if !meta.is_empty() {
            meta.push(',');
        }
        meta.push_str(&format!(r#""totalTokens":{t}"#));
    }
    acp(
        &format!(r#"{{"sessionUpdate":"agent_message_chunk","content":{{"type":"text","text":"{text}"}}}}"#),
        &format!("{{{meta}}}"),
    )
}
fn acu(ev: Option<&str>) -> String {
    match ev {
        Some(e) => acp(
            r#"{"sessionUpdate":"available_commands_update","availableCommands":[]}"#,
            &format!(r#"{{"eventId":"{e}"}}"#),
        ),
        None => acp_no_meta(r#"{"sessionUpdate":"available_commands_update","availableCommands":[]}"#),
    }
}
fn rewind(target: usize) -> String {
    xai(
        &format!(r#"{{"sessionUpdate":"rewind_marker","target_prompt_index":{target},"created_at":"2024-01-01"}}"#),
        "{}",
    )
}
fn subagent_spawned(id: &str, child: &str, ev: Option<&str>) -> String {
    let ev_json = match ev {
        Some(e) => format!(r#","eventId":"{e}""#),
        None => String::new(),
    };
    xai(
        &format!(r#"{{"sessionUpdate":"subagent_spawned","subagent_id":"{id}","child_session_id":"{child}","agent_type":"explore"}}"#),
        &format!(r#"{{"x":1{ev_json}}}"#),
    )
    .replace(r#""x":1,"#, r#""#)
    .replace(r#""x":1"#, r#""#)
}
fn subagent_finished(id: &str, ev: Option<&str>) -> String {
    let ev_json = match ev {
        Some(e) => format!(r#","eventId":"{e}""#),
        None => String::new(),
    };
    xai(
        &format!(r#"{{"sessionUpdate":"subagent_finished","subagent_id":"{id}","reason":"done"}}"#),
        &format!(r#"{{"x":1{ev_json}}}"#),
    )
    .replace(r#""x":1,"#, r#""#)
    .replace(r#""x":1"#, r#""#)
}

/// A synthetic history exercising every line class the state machine and
/// the full-scan filters must agree on: marked/unmarked user chunks,
/// agents with tokens/eventIds, ACUs with/without ids, subagent spawn
/// pairs, and rewinds (including an out-of-range target).
fn sample_history() -> Vec<String> {
    vec![
        user("p0", None, Some("s-1")),            // unmarked turn 1
        agent("r0", Some("s-2"), Some(10)),
        user("p1", Some(1), Some("s-3")),         // marked turn 2
        agent("r1", Some("s-4"), None),
        acu(Some("s-5")),
        subagent_spawned("sub1", "child1", Some("s-6")),
        agent("r1b", Some("s-7"), Some(20)),
        subagent_finished("sub1", Some("s-8")),
        rewind(1),                                 // kills p1..r1b (turn 2 branch)
        user("p1-retry", Some(1), Some("s-9")),    // re-opens turn 2
        agent("r1-retry", Some("s-10"), Some(30)),
        acu(None),
        user("p2", Some(2), Some("s-11")),
        subagent_spawned("sub2", "child2", Some("s-12")),
        agent("r2", Some("s-13"), Some(40)),       // sub2 never finishes
        rewind(99),                                // out-of-range: no-op
        user("p3", Some(3), Some("s-14")),
        agent("r3", Some("s-15"), Some(50)),
    ]
}

fn contents_of(lines: &[String]) -> String {
    let mut s = String::new();
    for l in lines {
        s.push_str(l);
        s.push('\n');
    }
    s
}

/// Differential oracle: replaying from a checkpoint taken at ANY split
/// point must produce exactly what a full scan produces.
#[test]
fn checkpoint_replay_matches_full_scan_at_every_split() {
    let lines = sample_history();
    let contents = contents_of(&lines);
    let full = prepare_replay_lines(&contents, None, None);

    // Split after each line boundary (offset of each line start + its
    // length + 1, i.e. every prefix of whole lines).
    let mut split = 0usize;
    for line in &lines {
        split += line.len() + 1;
        let mut state = IncrementalReplayState::new();
        // Feed the prefix in two chunks (first line, then the rest of the
        // prefix) to also exercise offset resume across feed() calls.
        // feed() must be called at line boundaries.
        state.feed(&contents[..lines[0].len() + 1]);
        state.feed(&contents[..split]);
        let cp = state.to_checkpoint(&contents[..split]);
        assert!(
            validate(&cp, &contents),
            "checkpoint at offset {split} must validate"
        );

        let prepared = build_prepared_replay(&contents, None, &cp);
        assert_eq!(
            prepared.lines, full.lines,
            "cold replay lines diverge at split {split}"
        );
        assert_eq!(prepared.mark_replay, full.mark_replay);
        assert_eq!(prepared.last_tokens, full.last_tokens, "tokens at {split}");
        assert_eq!(
            prepared.max_event_seq, full.max_event_seq,
            "max_event_seq at {split}"
        );
        assert_eq!(prepared.total_live, full.total_live, "total_live at {split}");
        assert_eq!(
            prepared.unfinished_subagents, full.unfinished_subagents,
            "unfinished_subagents at {split}"
        );
    }
}

/// The same differential oracle over the cursor paths: every eventId in
/// the history used as a reconnect cursor.
#[test]
fn checkpoint_cursor_replay_matches_full_scan() {
    let lines = sample_history();
    let contents = contents_of(&lines);
    let event_ids = [
        "s-1", "s-2", "s-3", "s-4", "s-5", "s-6", "s-7", "s-8", "s-9", "s-10", "s-11",
        "s-12", "s-13", "s-14", "s-15",
    ];
    for cursor in event_ids.iter().map(Some).chain(std::iter::once(None)) {
        let cursor = cursor.map(|v| &**v);
        let full = prepare_replay_lines(&contents, cursor, None);
        // Checkpoints at two line-boundary split points: after line 4
        // (mid-timeline) and after line 12 (after the second rewind).
        let mut line_end = 0usize;
        let mut split_points = Vec::new();
        for (i, l) in lines.iter().enumerate() {
            line_end += l.len() + 1;
            if i == 3 || i == 11 {
                split_points.push(line_end);
            }
        }
        for split in split_points {
            let mut state = IncrementalReplayState::new();
            state.feed(&contents[..split]);
            let cp = state.to_checkpoint(&contents[..split]);
            let prepared = build_prepared_replay(&contents, cursor, &cp);
            assert_eq!(
                prepared.lines, full.lines,
                "cursor {cursor:?} split {split}: lines diverge"
            );
            assert_eq!(
                prepared.mark_replay, full.mark_replay,
                "cursor {cursor:?} split {split}: mark_replay diverges"
            );
            assert_eq!(
                prepared.last_tokens, full.last_tokens,
                "cursor {cursor:?} split {split}: last_tokens diverges"
            );
            assert_eq!(
                prepared.max_event_seq, full.max_event_seq,
                "cursor {cursor:?} split {split}: max_event_seq diverges"
            );
            assert_eq!(
                prepared.total_live, full.total_live,
                "cursor {cursor:?} split {split}: total_live diverges"
            );
            assert_eq!(
                prepared.unfinished_subagents, full.unfinished_subagents,
                "cursor {cursor:?} split {split}: unfinished_subagents diverge"
            );
        }
    }
}

/// A checkpoint whose prefix was rewritten (hash mismatch) or truncated
/// (offset beyond EOF) must be rejected — full scan fallback.
#[test]
fn invalid_checkpoints_are_rejected() {
    let lines = sample_history();
    let contents = contents_of(&lines);
    let mut state = IncrementalReplayState::new();
    state.feed(&contents);
    let cp = state.to_checkpoint(&contents);
    assert!(validate(&cp, &contents));

    // Rewritten prefix: same length, different bytes.
    let mut rewritten = contents.clone();
    rewritten.replace_range(0..1, "X");
    assert!(!validate(&cp, &rewritten), "hash must detect rewrites");

    // Shrunk file.
    assert!(!validate(&cp, &contents[..contents.len() / 2]));

    // Structural corruption: flag/offset length mismatch.
    let mut bad = cp.clone();
    bad.acu_flags.truncate(1);
    assert!(!validate(&bad, &contents));

    // Wrong version.
    let mut old = cp.clone();
    old.version = 0;
    assert!(!validate(&old, &contents));
}

/// Torn-tail healing: a checkpoint taken at a torn line boundary stays
/// valid after the healing append inserts `\n` at the offset.
#[test]
fn torn_tail_checkpoint_survives_healing_append() {
    let l1 = user("p0", None, Some("e1"));
    let l2 = agent("r0", Some("e2"), Some(5));
    let torn = format!("{l1}\n{l2}"); // no trailing \n
    let mut state = IncrementalReplayState::new();
    state.feed(&torn);
    let cp = state.to_checkpoint(&torn);
    assert_eq!(cp.offset as usize, torn.len());

    // Healing append: "\n" + new line.
    let healed = format!("{torn}\n{}\n", user("p1", Some(1), Some("e3")));
    assert!(
        validate(&cp, &healed),
        "healed file must still validate the pre-heal checkpoint"
    );
    let prepared = build_prepared_replay(&healed, None, &cp);
    let full = prepare_replay_lines(&healed, None, None);
    assert_eq!(prepared.lines, full.lines);
    assert_eq!(prepared.total_live, full.total_live);
}



/// `total_live` excludes ACUs; ACU lines still carry eventId for cursor
/// resolution (the idle-client cursor is usually the last ACU).
#[test]
fn acu_lines_counted_out_but_cursor_resolvable() {
    let l1 = user("p0", None, Some("e1"));
    let l2 = acu(Some("e2"));
    let contents = format!("{l1}\n{l2}\n");
    let mut st = IncrementalReplayState::new();
    st.feed(&contents);
    let cp = st.to_checkpoint(&contents);
    assert_eq!(cp.total_live, 1);

    let prepared = build_prepared_replay(&contents, Some("e2"), &cp);
    assert!(!prepared.mark_replay, "ACU eventId must resolve the cursor");
    assert!(prepared.lines.is_empty(), "ACU never forwarded");
}

/// State, checkpoint, state again, fed the rest: the same as never having stopped.
#[test]
fn checkpoint_round_trip_continues() {
    let lines = sample_history();
    let contents = contents_of(&lines);
    let split = lines.iter().take(8).map(|l| l.len() + 1).sum::<usize>();
    let mut st = IncrementalReplayState::new();
    st.feed(&contents[..split]);
    let cp = st.to_checkpoint(&contents[..split]);
    let mut st2 = IncrementalReplayState::from_checkpoint(&cp);
    st2.feed(&contents);
    let mut direct = IncrementalReplayState::new();
    direct.feed(&contents);
    let a = st2.to_checkpoint(&contents);
    let b = direct.to_checkpoint(&contents);
    assert_eq!(a.live_offsets, b.live_offsets);
    assert_eq!(a.prompt_starts, b.prompt_starts);
    assert_eq!(a.acu_flags, b.acu_flags);
    assert_eq!(a.last_tokens, b.last_tokens);
    assert_eq!(a.max_event_seq, b.max_event_seq);
    assert_eq!(a.total_live, b.total_live);
    assert_eq!(a.pending_subagents, b.pending_subagents);
    assert_eq!(a.prefix_hash, b.prefix_hash);
}

#[test]
fn sample_history_comes_to_known_values() {
    let lines = sample_history();
    let contents = contents_of(&lines);
    let full = prepare_replay_lines(&contents, None, None);
    // p0, r0, then the retried branch: 10 lines live, one of them never forwarded.
    assert_eq!(full.total_live, 9);
    assert_eq!(full.lines.len(), 9);
    assert_eq!(full.last_tokens, 50);
    assert_eq!(full.max_event_seq, Some(15));
    assert_eq!(
        full.unfinished_subagents,
        vec![("sub2".to_string(), "child2".to_string())]
    );
    assert!(full.mark_replay);
    assert!(!full.used_checkpoint);
    assert_eq!(full.lines[1], lines[1]);
    assert_eq!(full.lines[2], lines[9]);
}

#[test]
fn refreshing_a_checkpoint_equals_seeding_one() {
    let l1 = user("p0", None, Some("e1"));
    let l2 = agent("r0", Some("e2"), Some(5));
    let start = format!("{l1}\n{l2}\n");
    let cp = seeded_checkpoint(&start);
    assert_eq!(cp.offset as usize, l1.len() + 1 + l2.len() + 1);
    assert_eq!(cp.total_live, 2);
    let l3 = user("p1", Some(1), Some("e3"));
    let l4 = rewind(0);
    let l5 = agent("r1", Some("e4"), Some(9));
    let grown = format!("{l1}\n{l2}\n{l3}\n{l4}\n{l5}\n");
    let cp2 = refreshed_checkpoint(&grown, Some(cp));
    assert_eq!(cp2.offset as usize, grown.len());
    assert_eq!(cp2.total_live, 1);
    assert_eq!(cp2.last_tokens, 9);
    let seeded = seeded_checkpoint(&grown);
    assert_eq!(cp2.live_offsets, seeded.live_offsets);
    assert_eq!(cp2.prompt_starts, seeded.prompt_starts);
    assert_eq!(cp2.prefix_hash, seeded.prefix_hash);
    assert!(validate(&cp2, &grown));
    assert!(checkpoint_fits(&cp2, &grown));
}

#[test]
fn fast_path_is_taken_only_where_it_pays() {
    let lines = sample_history();
    let contents = contents_of(&lines);
    let early = seeded_checkpoint(&contents[..lines[0].len() + 1]);
    assert!(build_prepared_replay_if_faster(&early, &contents, None).is_none());
    assert!(!prepare_replay_lines(&contents, None, Some(&early)).used_checkpoint);
    // Where it does not pay, its offsets are not even looked at.
    let marked = format!("é{contents}");
    let mut odd = early.clone();
    odd.offset = 1;
    odd.live_offsets = vec![1];
    odd.acu_flags = vec![0];
    assert!(!checkpoint_fits(&odd, &marked));
    assert!(build_prepared_replay_if_faster(&odd, &marked, None).is_none());
    let late = seeded_checkpoint(&contents);
    let fast = build_prepared_replay_if_faster(&late, &contents, None).unwrap();
    assert!(fast.used_checkpoint);
    assert_eq!(
        prepare_replay_lines(&contents, None, Some(&late)).lines,
        prepare_replay_lines(&contents, None, None).lines
    );
    let mut stale = late.clone();
    stale.prefix_hash ^= 1;
    assert!(!prepare_replay_lines(&contents, None, Some(&stale)).used_checkpoint);
}

#[test]
fn shrunk_log_is_scanned_anew() {
    let lines = sample_history();
    let contents = contents_of(&lines);
    let mut state = IncrementalReplayState::new();
    state.feed(&contents);
    let short = &contents[..lines[0].len() + 1];
    state.feed(short);
    assert_eq!(state.offset as usize, short.len());
    assert_eq!(state.filter.live_offsets, vec![0]);
}

#[test]
fn checkpoint_with_offsets_inside_characters_does_not_fit() {
    let contents = "é\n".to_string();
    let mut cp = seeded_checkpoint(&contents);
    assert!(checkpoint_fits(&cp, &contents));
    cp.live_offsets = vec![1];
    cp.acu_flags = vec![0];
    assert!(!checkpoint_fits(&cp, &contents));
}

#[test]
fn hash_is_fnv1a() {
    assert_eq!(fnv1a64(b""), 0xcbf2_9ce4_8422_2325);
    assert_eq!(fnv1a64(b"a"), 0xaf63_dc4c_8601_ec8c);
    assert_eq!(fnv1a64(b"foobar"), 0x8594_4171_f739_67e8);
}

#[test]
fn tmp_names_are_told_apart() {
    assert_eq!(
        checkpoint_tmp_name(42, 7),
        "updates_checkpoint.json.tmp-42-7"
    );
}

#[test]
fn lines_are_read_up_to_their_newline() {
    assert_eq!(line_at("ab\ncd", 0), "ab");
    assert_eq!(line_at("ab\ncd", 3), "cd");
    assert_eq!(line_at("ab\ncd", 99), "");
}

#[test]
fn rewind_filter_keeps_blank_lines_out() {
    let l1 = user("p0", None, Some("e1"));
    let f = filter_rewind_lines(&format!("\n  \n{l1}\n\t\n"));
    assert_eq!(f.live_offsets, vec![4]);
    assert_eq!(f.prompt_starts, vec![0]);
}

#[test]
fn line_facts_are_read_from_json() {
    let f = line_facts(&subagent_spawned("sub1", "child1", Some("s-6")));
    assert_eq!(f.class, RewindLineClass::Other);
    assert_eq!(f.event_seq, Some(6));
    assert_eq!(
        f.subagent,
        Some(SubagentLineEvent::Spawned {
            subagent_id: "sub1".to_string(),
            child_session_id: "child1".to_string()
        })
    );
    let g = line_facts(&agent("r", Some("s-7"), Some(20)));
    assert_eq!(g.total_tokens, Some(20));
    assert!(!g.commands_update);
    assert!(line_facts(&acu(None)).commands_update);
    assert_eq!(
        line_facts(&user("p", Some(3), None)).class,
        RewindLineClass::UserChunk { prompt_index: Some(3) }
    );
    assert_eq!(
        line_facts(&rewind(2)).class,
        RewindLineClass::RewindMarker { target_prompt_index: 2 }
    );
    let torn = line_facts("{\"params\":");
    assert_eq!(torn.class, RewindLineClass::Other);
    assert_eq!(torn.event_seq, None);
}

#[test]
fn fields_come_to_classes() {
    let kind = |s: &str| Some(s.to_string());
    assert_eq!(
        classify_update(&kind("rewind_marker"), Some(4), None),
        RewindLineClass::RewindMarker { target_prompt_index: 4 }
    );
    assert_eq!(
        classify_update(&kind("rewind_marker"), None, None),
        RewindLineClass::Other
    );
    assert_eq!(
        classify_update(&kind("user_message_chunk"), None, None),
        RewindLineClass::UserChunk { prompt_index: None }
    );
    assert_eq!(classify_update(&None, Some(1), Some(1)), RewindLineClass::Other);
    assert_eq!(
        subagent_of_update(&kind("subagent_finished"), kind("x"), None),
        Some(SubagentLineEvent::Finished { subagent_id: "x".to_string() })
    );
    assert_eq!(subagent_of_update(&kind("subagent_spawned"), kind("x"), None), None);
}

#[test]
fn event_counter_is_behind_the_last_dash() {
    assert_eq!(event_counter_of("s-12"), Some(12));
    assert_eq!(event_counter_of("a-b-7"), Some(7));
    assert_eq!(event_counter_of("e1"), None);
    assert_eq!(event_counter_of("s-"), None);
    assert_eq!(event_counter_of("s-18446744073709551615"), Some(u64::MAX));
    assert_eq!(event_counter_of("s-18446744073709551616"), None);
}

#[test]
fn turns_begin_with_runs_and_with_new_prompt_indices() {
    let mut t = UserRunTurnTracker::new();
    assert!(t.on_user_chunk(None));
    assert!(!t.on_user_chunk(None));
    t.on_non_user();
    assert!(t.on_user_chunk(Some(1)));
    assert!(!t.on_user_chunk(Some(1)));
    assert!(t.on_user_chunk(Some(2)));
    t.on_non_user();
    assert!(!t.on_user_chunk(None));
}
