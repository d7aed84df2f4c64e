use internet_use::classify::{filter_by_category, parse_action_response};
use internet_use::dom::{
    extract_interactive_elements, label_for_index, ElementType, InteractiveElement, RawElement,
};
use internet_use::executor::{matched_jobs_count, run_jobs_with_outcomes, JobExecutor};
use internet_use::jobs::BrowserJob;
use internet_use::memory::AgentMemory;
use internet_use::negotiate::{build_menu, check_response, resolve_with_responses};
use internet_use::planner::{
    elements_json, parse_plan_jobs, plan_from_response, split_plan_response, texts_json,
};
use internet_use::session::{close_tab_choice, duckduckgo_url, screenshot_filename, switch_tab_choice};
use internet_use::types::{
    BrowserError, BrowserOptions, InteractiveElement as FlatElement, MemoryOptions, TextElement,
};

fn cand(label: &str, tag: &str, text: &str, ty: ElementType) -> InteractiveElement {
    InteractiveElement {
        tag: tag.to_string(),
        element_type: ty,
        selector: format!("{tag}#{label}"),
        text: Some(text.to_string()),
        attributes: None,
        label: Some(label.to_string()),
    }
}

fn raw(tag: &str, ty: &str, visible: bool) -> RawElement {
    RawElement {
        tag: tag.to_string(),
        type_attr: ty.to_string(),
        visible,
        has_onclick: false,
        role_button: false,
        has_tabindex: false,
        selector: format!("{tag}.x"),
        text: None,
        attributes: None,
    }
}

fn responses(items: &[&str]) -> Vec<String> {
    items.iter().map(|s| s.to_string()).collect()
}

// ---------- labeling ----------
#[test]
fn labels_follow_base26_enumeration() {
    assert_eq!(label_for_index(0), "A");
    assert_eq!(label_for_index(1), "B");
    assert_eq!(label_for_index(25), "Z");
    assert_eq!(label_for_index(26), "AA");
    assert_eq!(label_for_index(27), "AB");
    assert_eq!(label_for_index(51), "AZ");
    assert_eq!(label_for_index(52), "BA");
    assert_eq!(label_for_index(701), "ZZ");
    assert_eq!(label_for_index(702), "AAA");
}

#[test]
fn extraction_keeps_matching_elements_and_labels_them_uniquely() {
    let rawv = vec![
        raw("a", "", true),
        raw("div", "", true),            // not interactive
        raw("input", "hidden", true),    // hidden input: excluded
        raw("input", "text", true),
        raw("button", "", false),        // invisible: excluded
        raw("select", "", true),
    ];
    let out = extract_interactive_elements(&rawv);
    assert_eq!(out.len(), 3);
    assert_eq!(out[0].tag, "a");
    assert_eq!(out[0].element_type, ElementType::Clickable);
    assert_eq!(out[0].label, Some("A".to_string()));
    assert_eq!(out[1].tag, "input");
    assert_eq!(out[1].element_type, ElementType::Typable);
    assert_eq!(out[1].label, Some("B".to_string()));
    assert_eq!(out[2].tag, "select");
    assert_eq!(out[2].label, Some("C".to_string()));
    // labels are pairwise distinct
    assert_ne!(out[0].label, out[1].label);
    assert_ne!(out[1].label, out[2].label);
    assert_ne!(out[0].label, out[2].label);
}

#[test]
fn onclick_and_role_make_elements_interactive() {
    let mut d = raw("div", "", true);
    d.has_onclick = true;
    let mut s = raw("span", "", true);
    s.role_button = true;
    let hidden = raw("span", "", false);
    let out = extract_interactive_elements(&vec![d, s, hidden]);
    assert_eq!(out.len(), 2);
}

// ---------- classifier ----------
#[test]
fn classifier_accepts_exactly_the_two_tokens() {
    assert_eq!(parse_action_response("click"), Ok(ElementType::Clickable));
    assert_eq!(parse_action_response("  type \n"), Ok(ElementType::Typable));
    let bad = parse_action_response("Click");
    assert!(matches!(bad, Err(BrowserError::InvalidActionError(ref m)) if m == "Click"));
    assert!(matches!(
        parse_action_response("press the button"),
        Err(BrowserError::InvalidActionError(_))
    ));
}

// ---------- negotiation ----------
#[test]
fn classified_filter_then_first_valid_answer_resolves_without_retry() {
    // candidates A (clickable "Login button") and B (typable "Search input");
    // a clickable instruction narrows to {A}; a well-formed first reply "A"
    // resolves immediately
    let a = cand("A", "button", "Login button", ElementType::Clickable);
    let b = cand("B", "input", "Search input", ElementType::Typable);
    let category = parse_action_response("click").unwrap();
    let filtered = filter_by_category(&vec![a, b], category);
    assert_eq!(filtered.len(), 1);
    assert_eq!(filtered[0].label, Some("A".to_string()));
    let (r, calls) = resolve_with_responses(&filtered, 5, &responses(&["A", "", "", "", ""]));
    assert_eq!(r, Ok("A".to_string()));
    assert_eq!(calls, 1);
}

#[test]
fn invalid_then_valid_reply_resolves_on_the_second_call() {
    let a = cand("A", "button", "Login button", ElementType::Clickable);
    let b = cand("B", "input", "Search input", ElementType::Typable);
    let cs = vec![a, b];
    let (r, calls) = resolve_with_responses(&cs, 5, &responses(&["Z", "B", "", "", ""]));
    assert_eq!(r, Ok("B".to_string()));
    assert_eq!(calls, 2);
}

#[test]
fn exhausted_attempts_fail_with_the_attempt_count() {
    let a = cand("A", "button", "Login button", ElementType::Clickable);
    let b = cand("B", "input", "Search input", ElementType::Typable);
    let cs = vec![a, b];
    let (r, calls) = resolve_with_responses(&cs, 3, &responses(&["Q", "R", "S"]));
    assert_eq!(r, Err(BrowserError::LabelResolutionError(3)));
    assert_eq!(calls, 3);
}

#[test]
fn empty_candidate_set_fails_before_any_call() {
    let cs: Vec<InteractiveElement> = Vec::new();
    let (r, calls) = resolve_with_responses(&cs, 5, &responses(&["A", "A", "A", "A", "A"]));
    assert_eq!(r, Err(BrowserError::LabelResolutionError(0)));
    assert_eq!(calls, 0);
}

#[test]
fn replies_are_trimmed_and_matched_exactly() {
    let labels = vec!["A".to_string(), "AB".to_string()];
    assert_eq!(check_response(&labels, "  AB \n"), Some("AB".to_string()));
    assert_eq!(check_response(&labels, "ab"), None);
    assert_eq!(check_response(&labels, "A B"), None);
}

#[test]
fn menu_lists_one_line_per_labeled_candidate() {
    let a = cand("A", "button", "Login button", ElementType::Clickable);
    let mut unlabeled = cand("X", "a", "ghost", ElementType::Clickable);
    unlabeled.label = None;
    let menu = build_menu(&vec![a, unlabeled]);
    assert_eq!(menu, "[A] <button> - text: \"Login button\", selector: button#A\n");
}

// ---------- executor ----------
#[test]
fn one_entry_per_eventually_successful_job() {
    // job 1 succeeds on its third attempt, job 2 on its first: two entries
    let jobs = vec![
        BrowserJob::Click(".a".to_string()),
        BrowserJob::WaitFor(".b".to_string()),
    ];
    let outcomes = vec![false, false, true, true, true, true];
    let mut memory = AgentMemory::new(MemoryOptions::default());
    let (r, executed) = run_jobs_with_outcomes(&jobs, &Some("u".to_string()), &outcomes, &mut memory);
    assert!(r.is_ok());
    assert_eq!(executed, jobs);
    assert_eq!(memory.all().len(), 2);
    assert_eq!(memory.all()[0].action, "Click");
    assert_eq!(memory.all()[0].job, jobs[0]);
    assert_eq!(memory.all()[1].action, "WaitFor");
}

#[test]
fn failing_job_aborts_the_batch_after_three_attempts() {
    // a three-job batch whose second job fails all three attempts: exactly
    // one entry is recorded, the batch aborts, the third job never runs
    let jobs = vec![
        BrowserJob::Navigate("https://a".to_string()),
        BrowserJob::Click(".broken".to_string()),
        BrowserJob::Click(".never".to_string()),
    ];
    let outcomes = vec![true, false, false, false, true, true, true, true, true];
    let mut memory = AgentMemory::new(MemoryOptions::default());
    let (r, executed) = run_jobs_with_outcomes(&jobs, &None, &outcomes, &mut memory);
    assert!(matches!(r, Err(BrowserError::OperationError(_))));
    assert_eq!(executed, vec![BrowserJob::Navigate("https://a".to_string())]);
    assert_eq!(memory.all().len(), 1);
    assert_eq!(memory.all()[0].action, "Navigate");
}

#[test]
fn stepwise_executor_applies_the_same_decisions() {
    let jobs = vec![BrowserJob::Click(".a".to_string()), BrowserJob::Click(".b".to_string())];
    let mut ex = JobExecutor::new(jobs.clone());
    let mut memory = AgentMemory::new(MemoryOptions::default());
    assert_eq!(ex.current().unwrap(), &jobs[0]);
    assert!(ex.record_failure());
    assert!(ex.record_failure());
    assert!(!ex.record_failure());  // third failure is fatal
    // the driver would abort here; with a success instead the job is recorded
    let mut ex2 = JobExecutor::new(jobs.clone());
    ex2.record_success(&None, &mut memory);
    assert_eq!(ex2.current().unwrap(), &jobs[1]);
    ex2.record_success(&None, &mut memory);
    assert!(ex2.current().is_none());
    assert_eq!(memory.all().len(), 2);
}

#[test]
fn adherence_counts_positionwise_matches() {
    let planned = vec![
        BrowserJob::Click(".a".to_string()),
        BrowserJob::Click(".b".to_string()),
        BrowserJob::Click(".c".to_string()),
    ];
    let executed = vec![
        BrowserJob::Click(".a".to_string()),
        BrowserJob::Click(".x".to_string()),
        BrowserJob::Click(".c".to_string()),
    ];
    assert_eq!(matched_jobs_count(&planned, &executed), Ok(2));
    let none: Vec<BrowserJob> = Vec::new();
    assert!(matches!(matched_jobs_count(&none, &executed), Err(BrowserError::OperationError(_))));
    // executed shorter than planned: only the common prefix counts
    assert_eq!(matched_jobs_count(&planned, &planned[..1].to_vec()), Ok(1));
}

// ---------- planner ----------
#[test]
fn plan_response_splits_into_checklist_and_job_block() {
    let response = "Plan:\n- [x] go\n```json\n[{\"Navigate\": \"https://a\"}]\n```\nafterword";
    let (markdown, block) = split_plan_response(response).unwrap();
    assert_eq!(markdown, "Plan:\n- [x] go");
    assert_eq!(block, "[{\"Navigate\": \"https://a\"}]");
    let plan = plan_from_response(response).unwrap();
    assert_eq!(plan.markdown_todo, "Plan:\n- [x] go");
    assert_eq!(plan.jobs, vec![BrowserJob::Navigate("https://a".to_string())]);
}

#[test]
fn missing_job_block_is_its_own_error() {
    let r = plan_from_response("no fenced block here");
    assert_eq!(r.unwrap_err(), BrowserError::MissingJobBlockError);
}

#[test]
fn unparsable_job_block_is_a_parse_error() {
    let r = plan_from_response("text\n```json\n[{\"Fly\": \"up\"}]\n```\n");
    assert!(matches!(r, Err(BrowserError::JobParseError(_))));
}

#[test]
fn job_lists_parse_with_whitespace_and_either_type_field_order() {
    let text = "[\n  {\"Navigate\": \"https://duckduckgo.com\"},\n  \
                {\"Type\": {\"text\": \"Rust async book\", \"selector\": \"input[name=q]\"}},\n  \
                {\"Click\": \".result__a\"},\n  {\"WaitFor\": \".done\"},\n  \
                {\"ScrollTo\": \"#footer\"},\n  {\"Screenshot\": {\"prefix\": \"shot\"}}\n]";
    let jobs = parse_plan_jobs(text).unwrap();
    assert_eq!(jobs.len(), 6);
    assert_eq!(jobs[0], BrowserJob::Navigate("https://duckduckgo.com".to_string()));
    assert_eq!(
        jobs[1],
        BrowserJob::Type { selector: "input[name=q]".to_string(), text: "Rust async book".to_string() }
    );
    assert_eq!(jobs[2], BrowserJob::Click(".result__a".to_string()));
    assert_eq!(jobs[3], BrowserJob::WaitFor(".done".to_string()));
    assert_eq!(jobs[4], BrowserJob::ScrollTo("#footer".to_string()));
    assert_eq!(jobs[5], BrowserJob::Screenshot { prefix: "shot".to_string() });
    assert!(parse_plan_jobs("[]").unwrap().is_empty());
    assert!(parse_plan_jobs("[{\"Click\": .a}]").is_err());
}

// ---------- session helpers and options ----------
#[test]
fn search_url_and_screenshot_name_are_built_exactly() {
    assert_eq!(duckduckgo_url("rust book"), "https://duckduckgo.com/?q=rust book");
    assert_eq!(screenshot_filename("shot", "20240101-000000"), "shot-20240101-000000.png");
}

#[test]
fn tab_choices_check_their_bounds() {
    assert!(matches!(close_tab_choice(1, 0), Err(BrowserError::OperationError(_))));
    assert!(matches!(close_tab_choice(3, 3), Err(BrowserError::OperationError(_))));
    assert_eq!(close_tab_choice(3, 1), Ok(1));
    assert!(matches!(switch_tab_choice(2, 2), Err(BrowserError::OperationError(_))));
    assert_eq!(switch_tab_choice(2, 1), Ok(1));
}

#[test]
fn browser_options_builders_set_their_fields() {
    let o = BrowserOptions::new()
        .headless(true)
        .window_size(800, 600)
        .proxy("http://proxy:8080")
        .user_agent("ua")
        .timeout(5)
        .persist_path("/tmp/state.json");
    assert!(o.headless);
    assert_eq!(o.window_size, Some((800, 600)));
    assert_eq!(o.proxy, Some("http://proxy:8080".to_string()));
    assert_eq!(o.user_agent, Some("ua".to_string()));
    assert_eq!(o.timeout_secs, 5);
    assert_eq!(o.persist_path, Some("/tmp/state.json".to_string()));
    let d = BrowserOptions::default();
    assert!(!d.headless);
    assert_eq!(d.timeout_secs, 30);
}

#[test]
fn chat_prompt_script_mentions_its_elements() {
    let js = internet_use::js::chat_prompt_red_ui();
    assert!(js.contains("iu-prompt-wrapper"));
    assert!(js.contains("data-submitted"));
}

#[test]
fn error_messages_name_the_variant_and_payload() {
    assert_eq!(
        BrowserError::LabelResolutionError(3).message(),
        "Label resolution failed after 3 attempts"
    );
    assert_eq!(
        BrowserError::LabelResolutionError(12).message(),
        "Label resolution failed after 12 attempts"
    );
    assert_eq!(
        BrowserError::MissingJobBlockError.message(),
        "Missing JSON block in LLM output"
    );
    assert_eq!(
        BrowserError::OperationError("boom".to_string()).message(),
        "Browser operation failed: boom"
    );
    assert_eq!(
        BrowserError::MemoryError("bad".to_string()).message(),
        "Memory error: bad"
    );
}

#[test]
fn snapshot_serializers_write_the_exact_records() {
    let elements = vec![FlatElement {
        selector: "input#q".to_string(),
        tag: "INPUT".to_string(),
        text: "".to_string(),
        type_attr: "text".to_string(),
        placeholder: "Search".to_string(),
    }];
    assert_eq!(
        elements_json(&elements),
        "[{\"selector\":\"input#q\",\"tag\":\"INPUT\",\"text\":\"\",\"type\":\"text\",\
         \"placeholder\":\"Search\"}]"
    );
    let texts = vec![
        TextElement { selector: "p".to_string(), text: "hi".to_string(), index: 1 },
        TextElement { selector: "h1#t".to_string(), text: "head".to_string(), index: 12 },
    ];
    assert_eq!(
        texts_json(&texts),
        "[{\"selector\":\"p\",\"text\":\"hi\",\"index\":1},\
         {\"selector\":\"h1#t\",\"text\":\"head\",\"index\":12}]"
    );
    assert_eq!(texts_json(&Vec::new()), "[]");
}

#[test]
fn prompts_embed_their_parts() {
    let p = internet_use::classify::classify_prompt("press login");
    assert_eq!(
        p,
        "Classify the following browser instruction into exactly one category.\n\
         Answer with exactly one lowercase word: click or type. No explanation.\n\
         Instruction: press login\nAnswer: "
    );
    let j = internet_use::planner::build_judge_prompt("go home", "Navigate(/)");
    assert_eq!(
        j,
        "Instruction: go home\nExecuted: Navigate(/)\n\nDid these actions follow the instruction? Explain briefly."
    );
    let labels = vec!["A".to_string(), "B".to_string(), "C".to_string()];
    let r = internet_use::negotiate::retry_prompt("click it", &labels);
    assert_eq!(
        r,
        "Your previous answer was invalid. Valid labels are: A, B, C. \
         Answer with exactly one label.\nInstruction: click it"
    );
    let menu = "[A] <button> - text: \"Go\", selector: button#A\n";
    let i = internet_use::negotiate::initial_prompt("click it", menu);
    assert!(i.starts_with("You must pick one element for this instruction.\nElements:\n[A] "));
    assert!(i.contains("Instruction: click it"));
    let plan = internet_use::planner::build_plan_prompt("task", "https://u", "[]", "[]", "[]");
    assert!(plan.contains("> task"));
    assert!(plan.contains("URL: https://u"));
    assert!(plan.contains("Example:"));
}

#[test]
fn long_text_previews_are_capped_with_an_ellipsis() {
    let long = "x".repeat(1500);
    let mut e = raw("button", "", true);
    e.text = Some(long.clone());
    let mut exact = raw("a", "", true);
    exact.text = Some("y".repeat(1000));
    let out = extract_interactive_elements(&vec![e, exact]);
    assert_eq!(out.len(), 2);
    let preview = out[0].text.as_ref().unwrap();
    assert_eq!(preview.len(), 1003);
    assert_eq!(&preview[..1000], &long[..1000]);
    assert!(preview.ends_with("..."));
    assert_eq!(out[1].text.as_ref().unwrap().len(), 1000);
}
