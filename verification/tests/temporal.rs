use boomerang::temporal::{
    agent_session, cron_label, delayed_label, new_schedule_id, schedule_handle, schedule_id_for, schedule_kind_text,
    ActiveSchedules, CronSchedule, DelayedSchedule, ScheduleConfig, ScheduleType,
};

fn config(prompt: Option<&str>, tools: bool, key: Option<&str>) -> ScheduleConfig {
    ScheduleConfig {
        name: "morning".to_string(),
        user_message: "What's new?".to_string(),
        system_prompt: prompt.map(|p| p.to_string()),
        tools_enabled: tools,
        tavily_api_key: key.map(|k| k.to_string()),
    }
}

#[test]
fn schedule_ids() {
    assert_eq!(schedule_id_for("abc"), "agent-session-abc");
    let id = new_schedule_id();
    assert!(id.starts_with("agent-session-"));
    assert_eq!(id.len(), "agent-session-".len() + 36);
    assert_ne!(id, new_schedule_id());
}

#[test]
fn schedule_descriptions() {
    assert_eq!(schedule_kind_text(&ScheduleType::Immediate), "immediate");
    assert_eq!(
        schedule_kind_text(&ScheduleType::Cron(CronSchedule { cron_expression: "0 8 * * *".to_string() })),
        "cron (0 8 * * *)"
    );
    assert_eq!(schedule_kind_text(&ScheduleType::Delayed(DelayedSchedule { secs: 5, nanos: 0 })), "delayed (5s)");
    assert_eq!(
        schedule_kind_text(&ScheduleType::Delayed(DelayedSchedule { secs: 1, nanos: 500_000_000 })),
        "delayed (1.5s)"
    );
    assert_eq!(delayed_label("2ms"), "delayed (2ms)");
    assert_eq!(cron_label("x"), "cron (x)");
}

#[test]
fn handle_names_the_session() {
    let h = schedule_handle("agent-session-1".to_string(), &config(None, false, None), &ScheduleType::Immediate);
    assert_eq!(h.id, "agent-session-1");
    assert_eq!(h.name, "morning");
    assert_eq!(h.schedule_type, "immediate");
}

#[test]
fn session_uses_the_default_prompt_and_no_tools() {
    let s = agent_session(&config(None, true, None));
    assert_eq!(s.system_prompt, "You are a helpful assistant with access to web search.");
    assert!(s.tools.is_empty());
    assert_eq!(s.messages.len(), 1);
    assert_eq!(s.messages[0].content.as_deref(), Some("What's new?"));
}

#[test]
fn session_with_a_key_searches() {
    let s = agent_session(&config(Some("Be brief."), true, Some("tvly-key")));
    assert_eq!(s.system_prompt, "Be brief.");
    assert_eq!(s.tools.len(), 1);
    assert_eq!(s.tools[0].name, "web_search");
    assert_eq!(s.tools[0].input_schema[0].0, "type");
    let off = agent_session(&config(None, false, Some("tvly-key")));
    assert!(off.tools.is_empty());
}

#[test]
fn book_of_active_schedules() {
    let mut book = ActiveSchedules::new();
    book.record("s1".to_string(), 11);
    book.record("s2".to_string(), 22);
    book.record("s1".to_string(), 33);
    let mut ids = book.ids();
    ids.sort();
    assert_eq!(ids, vec!["s1", "s2"]);
    assert_eq!(book.take("s1"), Some(33));
    assert_eq!(book.take("s1"), None);
    assert_eq!(book.ids(), vec!["s2"]);
}

#[test]
fn scheduled_queries_search_and_report() {
    let s = boomerang::temporal::query_session("weather?", "tvly".to_string());
    assert_eq!(
        s.system_prompt,
        "You are a helpful assistant with access to web search. Provide concise, relevant information for scheduled queries."
    );
    assert_eq!(s.tools.len(), 1);
    assert_eq!(s.messages[0].content.as_deref(), Some("weather?"));
    let mut answer = boomerang::message::Message::assistant("sunny");
    assert_eq!(boomerang::temporal::query_result(&answer), "sunny");
    answer.content = None;
    assert_eq!(boomerang::temporal::query_result(&answer), "No response content");
}

#[test]
fn only_cron_schedules_are_booked() {
    let mut book = ActiveSchedules::new();
    let h = book.book_schedule("agent-session-1".to_string(), &config(None, false, None), &ScheduleType::Immediate, None);
    assert_eq!(h.id, "agent-session-1");
    assert_eq!(h.schedule_type, "immediate");
    assert!(book.ids().is_empty());
    let delayed = ScheduleType::Delayed(DelayedSchedule { secs: 5, nanos: 0 });
    book.book_schedule("agent-session-2".to_string(), &config(None, false, None), &delayed, None);
    assert!(book.ids().is_empty());
    let cron = ScheduleType::Cron(CronSchedule { cron_expression: "0 8 * * *".to_string() });
    let h = book.book_schedule("agent-session-3".to_string(), &config(None, false, None), &cron, Some(7));
    assert_eq!(h.name, "morning");
    assert_eq!(h.schedule_type, "cron (0 8 * * *)");
    assert_eq!(book.ids(), vec!["agent-session-3"]);
    assert_eq!(book.take("agent-session-3"), Some(7));
}
