use std::collections::HashMap;
use tfl::collector::llm::{
    aggregate_slots, extract_quant_from_name, is_quant_string, log_chunk_len, log_resume_offset,
    parse_llama_cmdline, parse_llama_log_line, summarize_llm, DefaultGenSettings, LlamaProps,
    LlamaSlotRaw, LogLineFields, NextTokenRepresentation, SlotNextTokenRaw, SlotParamsRaw,
    SlotTracker, LOG_READ_CHUNK_BYTES, LOG_TAIL_START_BYTES,
};

/// Applies what a log line reports to the running figures, as the log
/// follower does: the acceptance rate is shown as a percentage.
fn apply_log_line(
    line: &str,
    mtp_rate: &mut Option<f32>,
    mtp_accepted: &mut u64,
    mtp_generated: &mut u64,
    mtp_mean_len: &mut Option<f32>,
    eval_tps: &mut Option<f32>,
    prompt_tps: &mut Option<f32>,
) {
    match parse_llama_log_line(line) {
        LogLineFields::DraftAcceptance { rate, accepted, generated, mean_len } => {
            if let Some(Ok(r)) = rate.map(|t| t.parse::<f32>()) {
                *mtp_rate = Some(r * 100.0);
            }
            if let Some(a) = accepted {
                *mtp_accepted = a;
            }
            if let Some(g) = generated {
                *mtp_generated = g;
            }
            if let Some(Ok(m)) = mean_len.map(|t| t.parse::<f32>()) {
                *mtp_mean_len = Some(m);
            }
        }
        LogLineFields::PromptEval { tps } => {
            if let Some(Ok(t)) = tps.map(|t| t.parse::<f32>()) {
                *prompt_tps = Some(t);
            }
        }
        LogLineFields::Eval { tps } => {
            if let Some(Ok(t)) = tps.map(|t| t.parse::<f32>()) {
                *eval_tps = Some(t);
            }
        }
        LogLineFields::Other => {}
    }
}

#[test]
fn test_extract_quant_from_name() {
    assert_eq!(
        extract_quant_from_name("Qwen3.8-27B-GSQ-RCO-IQ3_S.gguf"),
        Some("IQ3_S".to_string())
    );
    assert_eq!(
        extract_quant_from_name("Qwen3.8-27B-DSpark-Q8_0.gguf"),
        Some("Q8_0".to_string())
    );
    assert_eq!(
        extract_quant_from_name("model-q4_k_m.gguf"),
        Some("Q4_K_M".to_string())
    );
    assert_eq!(
        extract_quant_from_name("DeepSeek-Coder_Q4_K_M.gguf"),
        Some("Q4_K_M".to_string())
    );
    assert_eq!(
        extract_quant_from_name("mmproj-Qwen3.8-27B-BF16.gguf"),
        Some("BF16".to_string())
    );
    assert_eq!(extract_quant_from_name("unquantized-model.bin"), None);
}

#[test]
fn test_parse_llama_log_line() {
    let line1 = "599.52.846.524 I slot print_timing: id  0 | task 76084 | draft acceptance = 0.54762 (   23 accepted /    42 generated), mean len =  2.64";
    let mut rate = None;
    let mut acc = 0;
    let mut gen = 0;
    let mut mean_len = None;
    let mut eval_tps = None;
    let mut prm_tps = None;

    apply_log_line(line1, &mut rate, &mut acc, &mut gen, &mut mean_len, &mut eval_tps, &mut prm_tps);
    assert!((rate.unwrap() - 54.762).abs() < 0.01);
    assert_eq!(acc, 23);
    assert_eq!(gen, 42);
    assert!((mean_len.unwrap() - 2.64).abs() < 0.01);

    let line2 = "599.52.846.521 I slot print_timing: id  0 | task 76084 |        eval time =     635.08 ms /    37 tokens (   17.64 ms per token,    56.69 tokens per second)";
    apply_log_line(line2, &mut rate, &mut acc, &mut gen, &mut mean_len, &mut eval_tps, &mut prm_tps);
    assert!((eval_tps.unwrap() - 56.69).abs() < 0.01);

    let line3 = "599.52.846.518 I slot print_timing: id  0 | task 76084 | prompt eval time =    1089.15 ms /   227 tokens (    4.80 ms per token,   208.42 tokens per second)";
    apply_log_line(line3, &mut rate, &mut acc, &mut gen, &mut mean_len, &mut eval_tps, &mut prm_tps);
    assert!((prm_tps.unwrap() - 208.42).abs() < 0.01);
}

#[test]
fn log_line_intermediate_speed_and_other_lines() {
    match parse_llama_log_line("slot update: n_gen = 131, tg =  42.80 t/s, tg_3s =  43.13 t/s") {
        LogLineFields::Eval { tps } => assert_eq!(tps, Some("42.80".to_string())),
        _ => panic!("expected a decode speed"),
    }
    assert!(matches!(parse_llama_log_line("srv  log_server_r: request: GET /health"), LogLineFields::Other));
}

#[test]
fn quant_tags_are_recognized() {
    assert!(is_quant_string("Q4_K_M"));
    assert!(is_quant_string("IQ3_S"));
    assert!(is_quant_string("Q8_0"));
    assert!(!is_quant_string("BF16"));
    assert!(!is_quant_string("Q"));
    assert!(!is_quant_string("IQ"));
    assert!(!is_quant_string("GGUF"));
    assert!(!is_quant_string("27B"));
}

#[test]
fn cmdline_of_llama_server_gives_its_settings() {
    let cmdline = "/usr/bin/llama-server\0-m\0/models/qwen.gguf\0-ctk\0q8_0\0--cache-type-v\0q4_0\0-md\0/models/draft-Q8_0.gguf\0-fa\0";
    let info = parse_llama_cmdline(cmdline).expect("a llama-server command line");
    assert_eq!(info.cache_type_k, "q8_0");
    assert_eq!(info.cache_type_v, "q4_0");
    assert_eq!(info.model_draft_path, Some("/models/draft-Q8_0.gguf".to_string()));
    assert_eq!(info.model_draft_name, Some("draft-Q8_0.gguf".to_string()));
    assert_eq!(info.model_draft_quant, Some("Q8_0".to_string()));
    assert!(info.flash_attention);
    assert_eq!(info.log_path, None);
    assert!(parse_llama_cmdline("/usr/bin/bash\0-c\0ls\0").is_none());
}

#[test]
fn cmdline_flag_without_value_is_ignored() {
    let info = parse_llama_cmdline("llama-server\0-ctk").expect("a llama-server command line");
    assert_eq!(info.cache_type_k, "");
    assert!(!info.flash_attention);
}

#[test]
fn next_token_count_comes_from_the_first_entry() {
    let single = NextTokenRepresentation::Single(SlotNextTokenRaw { n_decoded: Some(7) });
    assert_eq!(single.n_decoded(), 7);
    let list = NextTokenRepresentation::List(vec![
        SlotNextTokenRaw { n_decoded: Some(3) },
        SlotNextTokenRaw { n_decoded: Some(9) },
    ]);
    assert_eq!(list.n_decoded(), 3);
    assert_eq!(NextTokenRepresentation::List(vec![]).n_decoded(), 0);
    assert_eq!(NextTokenRepresentation::Single(SlotNextTokenRaw { n_decoded: None }).n_decoded(), 0);
}

fn slot(id: u32, task: i64, processing: bool, prompt: u64, decoded: u64) -> LlamaSlotRaw {
    LlamaSlotRaw {
        id,
        id_task: Some(task),
        is_processing: processing,
        n_ctx: None,
        n_prompt_tokens: Some(prompt),
        n_prompt_tokens_processed: Some(prompt),
        n_prompt_tokens_cache: Some(prompt / 2),
        speculative: Some(true),
        params: Some(SlotParamsRaw { speculative_types: Some("draft-dspark".to_string()) }),
        next_token: Some(NextTokenRepresentation::Single(SlotNextTokenRaw { n_decoded: Some(decoded) })),
    }
}

#[test]
fn slot_counters_become_deltas_on_the_same_task() {
    let mut trackers: HashMap<u32, SlotTracker> = HashMap::new();
    let first = aggregate_slots(&mut trackers, &vec![slot(0, 5, true, 100, 10), slot(1, 6, false, 40, 0)], 4096);
    assert_eq!(first.active_slots, 1);
    assert_eq!(first.total_prompt_tokens, 140);
    assert_eq!(first.total_cache_hit_tokens, 70);
    assert_eq!(first.total_context_tokens_used, 150);
    assert_eq!(first.delta_decoded_tokens, 10);
    assert_eq!(first.delta_prompt_tokens, 140);
    assert!(first.has_speculative);
    assert_eq!(first.speculative_type, Some("draft-dspark".to_string()));
    assert_eq!(first.slots.len(), 2);
    assert_eq!(first.slots[0].n_ctx, 4096);

    // Same task: only the growth counts. New task: the whole count.
    let second = aggregate_slots(&mut trackers, &vec![slot(0, 5, true, 100, 25), slot(1, 9, true, 8, 3)], 4096);
    assert_eq!(second.delta_decoded_tokens, 15 + 3);
    assert_eq!(second.delta_prompt_tokens, 8);
    assert_eq!(trackers[&0].last_decoded, 25);
    assert_eq!(trackers[&1].last_task_id, Some(9));
}

#[test]
fn unreachable_server_is_reported_disconnected() {
    let mut trackers: HashMap<u32, SlotTracker> = HashMap::new();
    let m = summarize_llm("http://127.0.0.1:8080", &None, &vec![], &None, &mut trackers);
    assert!(!m.is_connected);
    assert_eq!(m.engine_name, "llama.cpp (Disconnected)");
    assert_eq!(m.endpoint_url, "http://127.0.0.1:8080");
    assert_eq!(m.total_slots, 0);
    assert!(trackers.is_empty());
}

#[test]
fn reachable_server_is_summarized() {
    let mut trackers: HashMap<u32, SlotTracker> = HashMap::new();
    let props = Some(LlamaProps {
        model_alias: Some("Qwen3.8-27B".to_string()),
        model_path: Some("/models/qwen.gguf".to_string()),
        model_ftype: Some("IQ3_S".to_string()),
        total_slots: Some(4),
        default_generation_settings: Some(DefaultGenSettings { n_ctx: Some(131072) }),
    });
    let m = summarize_llm("http://127.0.0.1:8080", &props, &vec![slot(0, 1, true, 512, 42)], &None, &mut trackers);
    assert!(m.is_connected);
    assert_eq!(m.engine_name, "llama.cpp");
    assert_eq!(m.model_alias, "Qwen3.8-27B");
    assert_eq!(m.total_slots, 4);
    assert_eq!(m.context_window_max, 131072);
    assert_eq!(m.cache_type_k, "f16");
    assert_eq!(m.slots.active_slots, 1);
    assert_eq!(m.slots.delta_decoded_tokens, 42);
}

#[test]
fn log_following_offsets() {
    assert_eq!(log_resume_offset(0, 100), 0);
    assert_eq!(log_resume_offset(0, LOG_TAIL_START_BYTES + 10), 10);
    assert_eq!(log_resume_offset(500, 100), 0);
    assert_eq!(log_resume_offset(50, 100), 50);
    assert_eq!(log_chunk_len(10, 100), 90);
    assert_eq!(log_chunk_len(0, 3 * LOG_READ_CHUNK_BYTES), LOG_READ_CHUNK_BYTES);
}

#[test]
fn repeated_reply_adds_no_tokens() {
    let mut trackers: HashMap<u32, SlotTracker> = HashMap::new();
    let reply = || vec![slot(0, 5, true, 100, 10), slot(1, 6, true, 40, 3)];
    let first = aggregate_slots(&mut trackers, &reply(), 4096);
    assert_eq!(first.delta_decoded_tokens, 13);
    let again = aggregate_slots(&mut trackers, &reply(), 4096);
    assert_eq!(again.delta_decoded_tokens, 0);
    assert_eq!(again.delta_prompt_tokens, 0);
}
