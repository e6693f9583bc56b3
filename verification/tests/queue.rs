use asterisk_apps::queue::{
    AppQueue, CallQueue, ConnectResult, MemberStatus, NoopRealtimeBackend, QueueCaller,
    QueueLogEntry, QueueLogEvent, QueueMember, QueueOptions, QueueRegistry, QueueResult,
    QueueRule, QueueStrategy, RealtimeMemberBackend,
};
use asterisk_apps::time::Duration;
use std::time::Instant;

fn caller(id: &str, name: &str) -> QueueCaller {
    QueueCaller {
        channel_id: id.to_string(),
        channel_name: name.to_string(),
        position: 0,
        enter_time: Instant::now(),
        caller_name: None,
        caller_number: None,
        last_periodic_announce: None,
        last_position_announce: None,
    }
}

fn service_level_perf(q: &CallQueue) -> f64 {
    let total = q.service_level_total();
    if total == 0 {
        return 100.0;
    }
    (q.calls_within_sl as f64 / total as f64) * 100.0
}

#[test]
fn test_queue_strategy_parse() {
    assert_eq!(QueueStrategy::from_str_name("ringall"), QueueStrategy::RingAll);
    assert_eq!(QueueStrategy::from_str_name("random"), QueueStrategy::Random);
    assert_eq!(QueueStrategy::from_str_name("leastrecent"), QueueStrategy::LeastRecent);
    assert_eq!(QueueStrategy::from_str_name("fewestcalls"), QueueStrategy::FewestCalls);
    assert_eq!(QueueStrategy::from_str_name("roundrobin"), QueueStrategy::RoundRobin);
    assert_eq!(QueueStrategy::from_str_name("rrmemory"), QueueStrategy::RoundRobin);
    assert_eq!(QueueStrategy::from_str_name("linear"), QueueStrategy::Linear);
    assert_eq!(QueueStrategy::from_str_name("foobar"), QueueStrategy::RingAll);
}

#[test]
fn test_strategy_as_str() {
    assert_eq!(QueueStrategy::RingAll.as_str(), "ringall");
    assert_eq!(QueueStrategy::LeastRecent.as_str(), "leastrecent");
    assert_eq!(QueueStrategy::FewestCalls.as_str(), "fewestcalls");
    assert_eq!(QueueStrategy::Random.as_str(), "random");
    assert_eq!(QueueStrategy::RoundRobin.as_str(), "roundrobin");
    assert_eq!(QueueStrategy::Linear.as_str(), "linear");
}

#[test]
fn test_add_remove_member() {
    let mut q = CallQueue::new("test".to_string(), QueueStrategy::RingAll);
    assert!(q.add_member("SIP/alice".to_string(), "Alice".to_string(), 0));
    assert!(q.add_member("SIP/bob".to_string(), "Bob".to_string(), 1));
    assert_eq!(q.members.len(), 2);
    assert!(!q.add_member("SIP/alice".to_string(), "Alice".to_string(), 0));
    assert!(q.remove_member("SIP/alice"));
    assert_eq!(q.members.len(), 1);
    assert_eq!(q.members[0].interface, "SIP/bob");
}

#[test]
fn test_add_dynamic_member() {
    let mut q = CallQueue::new("test".to_string(), QueueStrategy::RingAll);
    assert!(q.add_dynamic_member(
        "SIP/alice".to_string(),
        "Alice".to_string(),
        2,
        Some("SIP/alice".to_string()),
        Some(Duration::from_secs(10)),
    ));
    assert_eq!(q.members.len(), 1);
    assert!(q.members[0].dynamic);
    assert_eq!(q.members[0].penalty, 2);
    assert_eq!(q.members[0].wrapup_time, Some(Duration::from_secs(10)));
}

#[test]
fn test_pause_member() {
    let mut q = CallQueue::new("test".to_string(), QueueStrategy::RingAll);
    q.add_member("SIP/alice".to_string(), "Alice".to_string(), 0);
    assert!(q.set_member_paused("SIP/alice", true, Some("lunch")));
    assert!(q.members[0].paused);
    assert_eq!(q.members[0].pause_reason.as_deref(), Some("lunch"));
    assert_eq!(q.available_member_count(), 0);
    assert!(q.set_member_paused("SIP/alice", false, None));
    assert!(!q.members[0].paused);
    assert_eq!(q.available_member_count(), 1);
}

#[test]
fn test_select_members_ringall() {
    let mut q = CallQueue::new("test".to_string(), QueueStrategy::RingAll);
    q.add_member("SIP/alice".to_string(), "Alice".to_string(), 1);
    q.add_member("SIP/bob".to_string(), "Bob".to_string(), 0);
    q.add_member("SIP/carol".to_string(), "Carol".to_string(), 2);
    let selected = q.select_members();
    assert_eq!(selected.len(), 3);
    assert_eq!(q.members[selected[0]].interface, "SIP/bob");
}

#[test]
fn test_select_members_fewest_calls() {
    let mut q = CallQueue::new("test".to_string(), QueueStrategy::FewestCalls);
    q.add_member("SIP/alice".to_string(), "Alice".to_string(), 0);
    q.add_member("SIP/bob".to_string(), "Bob".to_string(), 0);
    q.members[0].calls_taken = 5;
    q.members[1].calls_taken = 2;
    let selected = q.select_members();
    assert_eq!(selected.len(), 1);
    assert_eq!(q.members[selected[0]].interface, "SIP/bob");
}

#[test]
fn test_select_members_least_recent() {
    let mut q = CallQueue::new("test".to_string(), QueueStrategy::LeastRecent);
    q.add_member("SIP/alice".to_string(), "Alice".to_string(), 0);
    q.add_member("SIP/bob".to_string(), "Bob".to_string(), 0);
    q.members[0].last_call_time = Some(Instant::now());
    q.members[1].last_call_time = None;
    let selected = q.select_members();
    assert_eq!(selected.len(), 1);
    assert_eq!(q.members[selected[0]].interface, "SIP/bob");
}

#[test]
fn test_select_members_random() {
    let mut q = CallQueue::new("test".to_string(), QueueStrategy::Random);
    q.add_member("SIP/alice".to_string(), "Alice".to_string(), 0);
    q.add_member("SIP/bob".to_string(), "Bob".to_string(), 0);
    let selected = q.select_members();
    assert_eq!(selected.len(), 1);
    let iface = &q.members[selected[0]].interface;
    assert!(iface == "SIP/alice" || iface == "SIP/bob");
}

#[test]
fn test_select_members_roundrobin() {
    let mut q = CallQueue::new("test".to_string(), QueueStrategy::RoundRobin);
    q.add_member("SIP/alice".to_string(), "Alice".to_string(), 0);
    q.add_member("SIP/bob".to_string(), "Bob".to_string(), 0);
    q.add_member("SIP/carol".to_string(), "Carol".to_string(), 0);
    let sel1 = q.select_members();
    assert_eq!(sel1.len(), 1);
    assert_eq!(q.members[sel1[0]].interface, "SIP/alice");
    let sel2 = q.select_members();
    assert_eq!(sel2.len(), 1);
    assert_eq!(q.members[sel2[0]].interface, "SIP/bob");
    let sel3 = q.select_members();
    assert_eq!(sel3.len(), 1);
    assert_eq!(q.members[sel3[0]].interface, "SIP/carol");
    let sel4 = q.select_members();
    assert_eq!(sel4.len(), 1);
    assert_eq!(q.members[sel4[0]].interface, "SIP/alice");
}

#[test]
fn test_select_members_linear() {
    let mut q = CallQueue::new("test".to_string(), QueueStrategy::Linear);
    q.add_member("SIP/alice".to_string(), "Alice".to_string(), 0);
    q.add_member("SIP/bob".to_string(), "Bob".to_string(), 0);
    let sel1 = q.select_members();
    assert_eq!(sel1.len(), 1);
    assert_eq!(q.members[sel1[0]].interface, "SIP/alice");
    let sel2 = q.select_members();
    assert_eq!(sel2.len(), 1);
    assert_eq!(q.members[sel2[0]].interface, "SIP/alice");
    q.members[0].in_call = true;
    let sel3 = q.select_members();
    assert_eq!(sel3.len(), 1);
    assert_eq!(q.members[sel3[0]].interface, "SIP/bob");
}

#[test]
fn test_penalty_based_selection() {
    let mut q = CallQueue::new("test".to_string(), QueueStrategy::FewestCalls);
    q.add_member("SIP/alice".to_string(), "Alice".to_string(), 0);
    q.add_member("SIP/bob".to_string(), "Bob".to_string(), 5);
    q.add_member("SIP/carol".to_string(), "Carol".to_string(), 10);
    let sel = q.select_members_with_penalty(5, 0);
    assert_eq!(sel.len(), 1);
    assert_eq!(q.members[sel[0]].interface, "SIP/alice");
    let sel = q.select_members_with_penalty(u32::MAX, 5);
    assert_eq!(sel.len(), 1);
    assert_eq!(q.members[sel[0]].interface, "SIP/bob");
    let sel = q.select_members_with_penalty(0, 0);
    assert_eq!(sel.len(), 1);
    assert_eq!(q.members[sel[0]].interface, "SIP/alice");
}

#[test]
fn test_lowest_penalty_group() {
    let mut q = CallQueue::new("test".to_string(), QueueStrategy::RingAll);
    q.add_member("SIP/alice".to_string(), "Alice".to_string(), 1);
    q.add_member("SIP/bob".to_string(), "Bob".to_string(), 0);
    q.add_member("SIP/carol".to_string(), "Carol".to_string(), 0);
    q.add_member("SIP/dave".to_string(), "Dave".to_string(), 2);
    let avail: Vec<usize> = (0..4).collect();
    let group = q.lowest_penalty_group(&avail);
    assert_eq!(group.len(), 2);
    assert!(group.contains(&1));
    assert!(group.contains(&2));
}

#[test]
fn test_enqueue_dequeue_caller() {
    let mut q = CallQueue::new("test".to_string(), QueueStrategy::RingAll);
    let mut caller1 = caller("id-1", "SIP/caller1");
    caller1.caller_name = Some("Caller 1".to_string());
    caller1.caller_number = Some("1001".to_string());
    let mut caller2 = caller("id-2", "SIP/caller2");
    caller2.caller_name = Some("Caller 2".to_string());
    caller2.caller_number = Some("1002".to_string());
    q.enqueue_caller(caller1);
    q.enqueue_caller(caller2);
    assert_eq!(q.callers.len(), 2);
    assert_eq!(q.callers[0].position, 1);
    assert_eq!(q.callers[1].position, 2);
    let first = q.dequeue_caller().unwrap();
    assert_eq!(first.channel_name, "SIP/caller1");
    assert_eq!(q.callers.len(), 1);
    assert_eq!(q.callers[0].position, 1);
}

#[test]
fn test_enqueue_at_position() {
    let mut q = CallQueue::new("test".to_string(), QueueStrategy::RingAll);
    q.enqueue_caller(caller("c1", "SIP/c1"));
    q.enqueue_caller(caller("c2", "SIP/c2"));
    q.enqueue_caller_at(caller("c3", "SIP/c3"), 1);
    assert_eq!(q.callers.len(), 3);
    assert_eq!(q.callers[0].channel_name, "SIP/c3");
    assert_eq!(q.callers[0].position, 1);
    assert_eq!(q.callers[1].channel_name, "SIP/c1");
    assert_eq!(q.callers[1].position, 2);
    assert_eq!(q.callers[2].channel_name, "SIP/c2");
    assert_eq!(q.callers[2].position, 3);
}

#[test]
fn test_wrapup_time_at() {
    let mut q = CallQueue::new("test".to_string(), QueueStrategy::Linear);
    q.wrap_up_time = Duration::from_millis(50);
    q.add_member("SIP/alice".to_string(), "Alice".to_string(), 0);
    q.members[0].begin_wrapup();
    assert_eq!(q.members[0].status, MemberStatus::WrapUp);
    assert_eq!(q.members[0].calls_taken, 1);
    let w = q.wrap_up_time;
    assert!(!q.members[0].available_at(w, Duration::from_millis(10)));
    assert!(!q.members[0].expire_wrapup_at(w, Duration::from_millis(10)));
    assert_eq!(q.members[0].status, MemberStatus::WrapUp);
    assert!(q.members[0].available_at(w, Duration::from_millis(60)));
    assert!(q.members[0].expire_wrapup_at(w, Duration::from_millis(60)));
    assert_eq!(q.members[0].status, MemberStatus::Available);
    assert!(q.members[0].wrapup_start.is_none());
}

#[test]
fn test_queue_rules() {
    let rules = vec![
        QueueRule { min_wait_secs: 0, max_penalty: 5, min_penalty: 0, relative: false },
        QueueRule { min_wait_secs: 30, max_penalty: 10, min_penalty: 0, relative: false },
        QueueRule { min_wait_secs: 60, max_penalty: 0, min_penalty: 0, relative: false },
    ];
    let (max, min) = QueueRule::evaluate_rules(&rules, 0);
    assert_eq!(max, 5);
    assert_eq!(min, 0);
    let (max, min) = QueueRule::evaluate_rules(&rules, 30);
    assert_eq!(max, 10);
    assert_eq!(min, 0);
    let (max, _min) = QueueRule::evaluate_rules(&rules, 60);
    assert_eq!(max, u32::MAX);
}

#[test]
fn test_queue_announcements_periodic_due() {
    let mut q = CallQueue::new("test".to_string(), QueueStrategy::RingAll);
    q.announcements.periodic_announce_interval = Duration::from_millis(10);
    q.announcements.periodic_announce_files =
        vec!["announce1".to_string(), "announce2".to_string()];
    q.enqueue_caller(caller("c1", "SIP/c1"));
    assert_eq!(q.periodic_announce_at(0, false, Instant::now()), None);
    assert_eq!(q.periodic_announce_at(0, true, Instant::now()), Some("announce1".to_string()));
    assert!(q.callers[0].last_periodic_announce.is_some());
    assert_eq!(q.periodic_announce_at(0, true, Instant::now()), Some("announce2".to_string()));
    assert_eq!(q.periodic_announce_at(0, true, Instant::now()), Some("announce1".to_string()));
}

#[test]
fn test_position_announcement() {
    let mut q = CallQueue::new("test".to_string(), QueueStrategy::RingAll);
    q.announcements.announce_position = true;
    q.enqueue_caller(caller("c1", "SIP/c1"));
    let ann = q.position_announcement(0);
    assert_eq!(ann, Some("You are caller number 1.".to_string()));
}

#[test]
fn test_position_announcement_max() {
    let mut q = CallQueue::new("test".to_string(), QueueStrategy::RingAll);
    q.announcements.announce_position = true;
    q.announcements.announce_position_max = 2;
    for i in 0..5 {
        q.enqueue_caller(caller(&format!("c{}", i), &format!("SIP/c{}", i)));
    }
    assert_eq!(q.position_announcement(0), Some("You are caller number 1.".to_string()));
    assert_eq!(
        q.position_announcement(2),
        Some("You are experiencing a high call volume.".to_string())
    );
}

#[test]
fn test_position_announcement_min_callers() {
    let mut q = CallQueue::new("test".to_string(), QueueStrategy::RingAll);
    q.announcements.announce_position = true;
    q.announcements.announce_position_min = 3;
    q.enqueue_caller(caller("c1", "SIP/c1"));
    q.enqueue_caller(caller("c2", "SIP/c2"));
    assert_eq!(q.position_announcement(1), None);
    q.enqueue_caller(caller("c3", "SIP/c3"));
    assert_eq!(q.position_announcement(1), Some("You are caller number 2.".to_string()));
    q.announcements.announce_position = false;
    assert_eq!(q.position_announcement(1), None);
}

#[test]
fn test_holdtime_announcement() {
    let mut q = CallQueue::new("test".to_string(), QueueStrategy::RingAll);
    q.announcements.announce_holdtime = true;
    let ann = q.holdtime_announcement();
    assert_eq!(ann, Some("Your call should be answered shortly.".to_string()));
    q.total_holdtime_secs = 300;
    q.holdtime_call_count = 1;
    let ann = q.holdtime_announcement();
    assert_eq!(ann, Some("The expected wait time is approximately 5 minutes.".to_string()));
}

#[test]
fn test_holdtime_announcement_rounding_and_minimum() {
    let mut q = CallQueue::new("test".to_string(), QueueStrategy::RingAll);
    q.announcements.announce_holdtime = true;
    q.total_holdtime_secs = 89;
    q.holdtime_call_count = 1;
    assert_eq!(
        q.holdtime_announcement(),
        Some("The expected wait time is less than one minute.".to_string())
    );
    q.total_holdtime_secs = 90;
    assert_eq!(
        q.holdtime_announcement(),
        Some("The expected wait time is approximately 2 minutes.".to_string())
    );
    q.announcements.announce_holdtime_min_secs = 120;
    assert_eq!(q.holdtime_announcement(), None);
    q.announcements.announce_holdtime = false;
    assert_eq!(q.holdtime_announcement(), None);
}

#[test]
fn test_queue_log_entry_format() {
    let entry = QueueLogEntry::new(
        "1234567890.1",
        "support",
        "SIP/alice",
        QueueLogEvent::Connect,
        vec!["15".to_string(), "SIP/bob".to_string(), "3".to_string()],
    );
    let line = entry.format_line();
    assert!(line.contains("support"));
    assert!(line.contains("SIP/alice"));
    assert!(line.contains("CONNECT"));
    assert!(line.contains("15|SIP/bob|3"));
}

#[test]
fn test_queue_log_line_at() {
    let mut entry = QueueLogEntry::new(
        "1234567890.1",
        "support",
        "SIP/alice",
        QueueLogEvent::Connect,
        vec!["15".to_string(), "SIP/bob".to_string(), "3".to_string()],
    );
    entry.timestamp = 1700000000;
    assert_eq!(
        entry.format_line(),
        "1700000000|1234567890.1|support|SIP/alice|CONNECT|15|SIP/bob|3"
    );
}

#[test]
fn test_queue_log_events() {
    assert_eq!(QueueLogEvent::EnterQueue.as_str(), "ENTERQUEUE");
    assert_eq!(QueueLogEvent::Connect.as_str(), "CONNECT");
    assert_eq!(QueueLogEvent::CompleteCaller.as_str(), "COMPLETECALLER");
    assert_eq!(QueueLogEvent::CompleteAgent.as_str(), "COMPLETEAGENT");
    assert_eq!(QueueLogEvent::Abandon.as_str(), "ABANDON");
    assert_eq!(QueueLogEvent::Transfer.as_str(), "TRANSFER");
    assert_eq!(QueueLogEvent::RingNoAnswer.as_str(), "RINGNOANSWER");
}

#[test]
fn test_queue_status_vars() {
    let mut q = CallQueue::new("support".to_string(), QueueStrategy::RingAll);
    q.completed_calls = 10;
    q.abandoned_calls = 2;
    q.total_holdtime_secs = 120;
    q.holdtime_call_count = 10;
    q.calls_within_sl = 8;
    assert_eq!(q.avg_holdtime_secs(), 12);
    let perf = service_level_perf(&q);
    assert!((perf - 66.67).abs() < 0.1);
}

#[test]
fn test_queue_options_parse() {
    let opts = QueueOptions::parse("cHtTn");
    assert!(opts.continue_on_hangup);
    assert!(opts.allow_caller_hangup);
    assert!(opts.allow_callee_transfer);
    assert!(opts.allow_caller_transfer);
    assert!(opts.no_retry);
    assert!(!opts.ring_instead_of_moh);
}

#[test]
fn test_queue_result_status_var() {
    assert_eq!(QueueResult::Completed.as_status_var(), "CONTINUE");
    assert_eq!(QueueResult::Timeout.as_status_var(), "TIMEOUT");
    assert_eq!(QueueResult::Abandoned.as_status_var(), "ABANDON");
    assert_eq!(QueueResult::JoinEmpty.as_status_var(), "JOINEMPTY");
    assert_eq!(QueueResult::LeaveEmpty.as_status_var(), "LEAVEEMPTY");
}

#[test]
fn test_member_counts() {
    let mut q = CallQueue::new("test".to_string(), QueueStrategy::RingAll);
    q.add_member("SIP/a".to_string(), "A".to_string(), 0);
    q.add_member("SIP/b".to_string(), "B".to_string(), 0);
    q.add_member("SIP/c".to_string(), "C".to_string(), 0);
    assert_eq!(q.available_member_count(), 3);
    assert_eq!(q.logged_in_count(), 3);
    assert_eq!(q.free_member_count(), 3);
    q.set_member_paused("SIP/a", true, None);
    assert_eq!(q.available_member_count(), 2);
    assert_eq!(q.free_member_count(), 2);
    q.members[1].status = MemberStatus::Unavailable;
    assert_eq!(q.available_member_count(), 1);
    assert_eq!(q.logged_in_count(), 2);
}

#[test]
fn test_noop_realtime_backend() {
    let backend = NoopRealtimeBackend;
    assert!(backend.load_members("test").is_empty());
    assert!(!backend.save_member(
        "test",
        &QueueMember::new("SIP/a".to_string(), "A".to_string(), 0)
    ));
    assert!(!backend.remove_member("test", "SIP/a"));
}

#[test]
fn test_connect_result_types() {
    let _c = ConnectResult::Connected;
    let _b = ConnectResult::MemberBusy;
    let _n = ConnectResult::MemberNoAnswer;
    let _h = ConnectResult::CallerHangup;
}

#[test]
fn test_adversarial_zero_members() {
    let mut q = CallQueue::new("empty_q".to_string(), QueueStrategy::RingAll);
    assert_eq!(q.available_member_count(), 0);
    assert_eq!(q.logged_in_count(), 0);
    assert_eq!(q.free_member_count(), 0);
    let selected = q.select_members();
    assert!(selected.is_empty());
}

#[test]
fn test_adversarial_all_paused() {
    let mut q = CallQueue::new("paused_q".to_string(), QueueStrategy::RingAll);
    q.add_member("SIP/a".to_string(), "A".to_string(), 0);
    q.add_member("SIP/b".to_string(), "B".to_string(), 0);
    q.set_member_paused("SIP/a", true, Some("break"));
    q.set_member_paused("SIP/b", true, Some("break"));
    assert_eq!(q.available_member_count(), 0);
    let selected = q.select_members();
    assert!(selected.is_empty());
}

#[test]
fn test_adversarial_wrapup_longer_than_timeout() {
    let mut q = CallQueue::new("wrapup_q".to_string(), QueueStrategy::Linear);
    q.wrap_up_time = Duration::from_secs(3600);
    q.add_member("SIP/a".to_string(), "A".to_string(), 0);
    q.members[0].begin_wrapup();
    assert!(!q.members[0].is_available(q.wrap_up_time));
    let selected = q.select_members();
    assert!(selected.is_empty());
}

#[test]
fn test_adversarial_penalty_too_high() {
    let mut q = CallQueue::new("pen_q".to_string(), QueueStrategy::FewestCalls);
    q.add_member("SIP/low".to_string(), "Low".to_string(), 1);
    q.add_member("SIP/high".to_string(), "High".to_string(), 999);
    let selected = q.select_members_with_penalty(5, 0);
    assert_eq!(selected.len(), 1);
    assert_eq!(q.members[selected[0]].interface, "SIP/low");
}

#[test]
fn test_adversarial_1000_callers() {
    let mut q = CallQueue::new("big_q".to_string(), QueueStrategy::RingAll);
    for i in 0..1000 {
        q.enqueue_caller(caller(&format!("c{}", i), &format!("SIP/c{}", i)));
    }
    assert_eq!(q.callers.len(), 1000);
    for (i, c) in q.callers.iter().enumerate() {
        assert_eq!(c.position, i + 1);
    }
    let mid_id = q.callers[500].channel_id.clone();
    q.remove_caller(&mid_id);
    assert_eq!(q.callers.len(), 999);
    for (i, c) in q.callers.iter().enumerate() {
        assert_eq!(c.position, i + 1);
    }
}

#[test]
fn test_adversarial_roundrobin_single_member() {
    let mut q = CallQueue::new("rr_q".to_string(), QueueStrategy::RoundRobin);
    q.add_member("SIP/only".to_string(), "Only".to_string(), 0);
    for _ in 0..10 {
        let sel = q.select_members();
        assert_eq!(sel.len(), 1);
        assert_eq!(q.members[sel[0]].interface, "SIP/only");
    }
}

#[test]
fn test_adversarial_linear_all_busy() {
    let mut q = CallQueue::new("lin_q".to_string(), QueueStrategy::Linear);
    q.add_member("SIP/a".to_string(), "A".to_string(), 0);
    q.add_member("SIP/b".to_string(), "B".to_string(), 0);
    q.members[0].in_call = true;
    q.members[1].in_call = true;
    let sel = q.select_members();
    assert!(sel.is_empty());
}

#[test]
fn test_adversarial_queue_rules_negative_penalty() {
    let rules = vec![QueueRule { min_wait_secs: 0, max_penalty: 5, min_penalty: 0, relative: false }];
    let (max, min) = QueueRule::evaluate_rules(&rules, 0);
    assert_eq!(max, 5);
    assert_eq!(min, 0);
}

#[test]
fn test_adversarial_max_callers_exceeded() {
    let mut q = CallQueue::new("max_q".to_string(), QueueStrategy::RingAll);
    q.max_callers = 2;
    for i in 0..3 {
        q.enqueue_caller(caller(&format!("c{}", i), &format!("SIP/c{}", i)));
    }
    assert_eq!(q.callers.len(), 3);
}

#[test]
fn test_adversarial_remove_nonexistent_caller() {
    let mut q = CallQueue::new("rm_q".to_string(), QueueStrategy::RingAll);
    assert!(!q.remove_caller("ghost"));
}

#[test]
fn test_adversarial_remove_nonexistent_member() {
    let mut q = CallQueue::new("rm_m_q".to_string(), QueueStrategy::RingAll);
    assert!(!q.remove_member("SIP/ghost"));
}

#[test]
fn test_adversarial_pause_nonexistent_member() {
    let mut q = CallQueue::new("pause_q".to_string(), QueueStrategy::RingAll);
    assert!(!q.set_member_paused("SIP/ghost", true, None));
}

#[test]
fn test_adversarial_service_level_no_calls() {
    let q = CallQueue::new("sl_q".to_string(), QueueStrategy::RingAll);
    assert_eq!(service_level_perf(&q), 100.0);
}

#[test]
fn test_adversarial_avg_holdtime_zero() {
    let q = CallQueue::new("ht_q".to_string(), QueueStrategy::RingAll);
    assert_eq!(q.avg_holdtime_secs(), 0);
}

#[test]
fn test_adversarial_periodic_announce_no_files() {
    let mut q = CallQueue::new("ann_q".to_string(), QueueStrategy::RingAll);
    q.announcements.periodic_announce_interval = Duration::from_millis(1);
    q.announcements.periodic_announce_files = vec![];
    q.enqueue_caller(caller("c1", "SIP/c1"));
    assert!(q.periodic_announce_at(0, true, Instant::now()).is_none());
    assert!(q.check_periodic_announce(0).is_none());
}

#[test]
fn test_adversarial_position_announce_out_of_range() {
    let mut q = CallQueue::new("pos_q".to_string(), QueueStrategy::RingAll);
    q.announcements.announce_position = true;
    assert!(q.position_announcement(999).is_none());
}

#[test]
fn test_adversarial_periodic_announce_out_of_range() {
    let mut q = CallQueue::new("per_q".to_string(), QueueStrategy::RingAll);
    q.announcements.periodic_announce_interval = Duration::from_millis(1);
    assert!(q.check_periodic_announce(999).is_none());
}

#[test]
fn test_adversarial_enqueue_at_zero() {
    let mut q = CallQueue::new("pos0_q".to_string(), QueueStrategy::RingAll);
    q.enqueue_caller(caller("c1", "SIP/c1"));
    let pos = q.enqueue_caller_at(caller("c2", "SIP/c2"), 0);
    assert_eq!(pos, 2);
    assert_eq!(q.callers[1].channel_name, "SIP/c2");
}

#[test]
fn test_adversarial_roundrobin_high_rr_index() {
    let mut q = CallQueue::new("rr_high".to_string(), QueueStrategy::RoundRobin);
    q.add_member("SIP/a".to_string(), "A".to_string(), 0);
    q.add_member("SIP/b".to_string(), "B".to_string(), 0);
    q.rr_index = 999999;
    let sel = q.select_members();
    assert_eq!(sel.len(), 1);
    let idx = sel[0];
    assert!(idx < q.members.len());
}

#[test]
fn test_adversarial_queue_options_empty() {
    let opts = QueueOptions::parse("");
    assert!(!opts.continue_on_hangup);
    assert!(!opts.no_retry);
}

#[test]
fn test_adversarial_dequeue_empty() {
    let mut q = CallQueue::new("deq_q".to_string(), QueueStrategy::RingAll);
    assert!(q.dequeue_caller().is_none());
}

#[test]
fn test_adversarial_leave_when_empty_no_members() {
    let q = CallQueue::new("lwe_q".to_string(), QueueStrategy::RingAll);
    assert!(q.members.is_empty());
}

#[test]
fn test_round_robin_high_index_turn() {
    let mut q = CallQueue::new("rr".to_string(), QueueStrategy::RoundRobin);
    q.add_member("SIP/a".to_string(), "A".to_string(), 0);
    q.add_member("SIP/b".to_string(), "B".to_string(), 0);
    q.add_member("SIP/c".to_string(), "C".to_string(), 0);
    q.rr_index = 7;
    let sel = q.select_members();
    assert_eq!(sel, vec![1]);
    assert_eq!(q.rr_index, 2);
}

#[test]
fn test_pick_members_each_strategy() {
    let idle = vec![Duration::from_secs(5), Duration::from_secs(9), Duration::from_secs(9)];
    let mut q = CallQueue::new("p".to_string(), QueueStrategy::RingAll);
    q.add_member("SIP/a".to_string(), "A".to_string(), 2);
    q.add_member("SIP/b".to_string(), "B".to_string(), 1);
    q.add_member("SIP/c".to_string(), "C".to_string(), 1);
    let avail = vec![0, 1, 2];
    assert_eq!(q.pick_members(&avail, &idle, 0), vec![1, 2, 0]);
    q.strategy = QueueStrategy::LeastRecent;
    assert_eq!(q.pick_members(&avail, &idle, 0), vec![1]);
    q.strategy = QueueStrategy::Random;
    assert_eq!(q.pick_members(&avail, &idle, 1), vec![2]);
    q.strategy = QueueStrategy::Linear;
    assert_eq!(q.pick_members(&avail, &idle, 0), vec![1]);
    q.strategy = QueueStrategy::FewestCalls;
    q.members[1].calls_taken = 3;
    assert_eq!(q.pick_members(&avail, &idle, 0), vec![2]);
    assert!(q.pick_members(&vec![], &idle, 0).is_empty());
}

#[test]
fn test_available_members_and_expiry_at() {
    let mut q = CallQueue::new("w".to_string(), QueueStrategy::Linear);
    q.wrap_up_time = Duration::from_secs(30);
    q.add_member("SIP/a".to_string(), "A".to_string(), 0);
    q.add_member("SIP/b".to_string(), "B".to_string(), 4);
    q.add_member("SIP/c".to_string(), "C".to_string(), 0);
    q.members[0].begin_wrapup();
    let early = vec![Duration::from_secs(10), Duration::from_secs(0), Duration::from_secs(0)];
    assert_eq!(q.available_members_at(u32::MAX, 0, &early), vec![1, 2]);
    assert_eq!(q.available_members_at(3, 0, &early), vec![2]);
    let late = vec![Duration::from_secs(31), Duration::from_secs(0), Duration::from_secs(0)];
    q.expire_wrapups_at(&late);
    assert_eq!(q.members[0].status, MemberStatus::Available);
    assert_eq!(q.available_members_at(u32::MAX, 0, &late), vec![0, 1, 2]);
}

#[test]
fn test_merge_realtime_members() {
    let mut q = CallQueue::new("rt".to_string(), QueueStrategy::RingAll);
    q.add_member("SIP/a".to_string(), "A".to_string(), 0);
    let rt = vec![
        QueueMember::new("SIP/a".to_string(), "A2".to_string(), 5),
        QueueMember::new("SIP/b".to_string(), "B".to_string(), 1),
        QueueMember::new("SIP/b".to_string(), "B2".to_string(), 2),
    ];
    q.merge_realtime_members(rt);
    assert_eq!(q.members.len(), 2);
    assert_eq!(q.members[0].member_name, "A");
    assert_eq!(q.members[1].member_name, "B");
    q.load_realtime_members(&NoopRealtimeBackend);
    assert_eq!(q.members.len(), 2);
}

#[test]
fn test_member_events_logged() {
    let mut q = CallQueue::new("log_q".to_string(), QueueStrategy::RingAll);
    q.add_member("SIP/a".to_string(), "A".to_string(), 3);
    q.set_member_paused("SIP/a", true, Some("lunch"));
    q.remove_member("SIP/a");
    assert_eq!(q.pending_log.len(), 3);
    assert_eq!(q.pending_log[0].event, QueueLogEvent::AddMember);
    assert_eq!(q.pending_log[0].data, vec!["3".to_string()]);
    assert_eq!(q.pending_log[1].event, QueueLogEvent::Pause);
    assert_eq!(q.pending_log[1].data, vec!["lunch".to_string()]);
    assert_eq!(q.pending_log[2].event, QueueLogEvent::RemoveMember);
    assert_eq!(q.pending_log[2].queue_name, "log_q");
}

#[test]
fn test_queue_registry() {
    let mut reg = QueueRegistry::new();
    let i = reg.register_queue("sales", QueueStrategy::Linear);
    assert_eq!(i, 0);
    assert!(reg.queue_exists("sales"));
    assert!(!reg.queue_exists("support"));
    let j = reg.get_or_create("support");
    assert_eq!(j, 1);
    assert_eq!(reg.queues[1].strategy, QueueStrategy::RingAll);
    assert_eq!(reg.get_or_create("sales"), 0);
    assert!(reg.add_member("sales", "SIP/a", "A", 0));
    assert!(!reg.add_member("sales", "SIP/a", "A", 0));
    assert!(!reg.add_member("nowhere", "SIP/a", "A", 0));
    assert!(reg.pause_member("sales", "SIP/a", true));
    assert!(reg.queues[0].members[0].paused);
    assert!(reg.pause_member_with_reason("sales", "SIP/a", true, "lunch"));
    assert_eq!(reg.queues[0].members[0].pause_reason.as_deref(), Some("lunch"));
    assert!(!reg.pause_member("sales", "SIP/zz", true));
    let list = reg.list_queues();
    assert_eq!(list, vec![("sales".to_string(), 1, 0), ("support".to_string(), 0, 0)]);
    assert!(reg.remove_member("sales", "SIP/a"));
    assert!(!reg.remove_member("nowhere", "SIP/a"));
    reg.queues[0].completed_calls = 4;
    reg.queues[0].total_holdtime_secs = 100;
    reg.queues[0].holdtime_call_count = 4;
    let stats = reg.queue_stats("sales").unwrap();
    assert_eq!(stats.queue_name, "sales");
    assert_eq!(stats.queue_holdtime, 25);
    assert_eq!(stats.queue_completed, 4);
    assert!(reg.queue_stats("nowhere").is_none());
    let k = reg.register_queue("sales", QueueStrategy::Random);
    assert_eq!(k, 0);
    assert_eq!(reg.queues.len(), 2);
    assert_eq!(reg.queues[0].strategy, QueueStrategy::Random);
    assert_eq!(reg.queues[0].completed_calls, 0);
}

#[test]
fn test_queue_registry_rules() {
    let mut reg = QueueRegistry::new();
    assert!(reg.rules_for("vip").is_none());
    let r1 = vec![QueueRule { min_wait_secs: 0, max_penalty: 5, min_penalty: 0, relative: false }];
    reg.register_rule("vip", r1.clone());
    assert_eq!(reg.rules_for("vip"), Some(&r1));
    let r2 = vec![QueueRule { min_wait_secs: 10, max_penalty: 9, min_penalty: 1, relative: false }];
    reg.register_rule("vip", r2.clone());
    assert_eq!(reg.rules_for("vip"), Some(&r2));
    assert_eq!(reg.rules.len(), 1);
}

#[test]
fn test_queue_parse_args() {
    assert!(AppQueue::parse_args("").is_none());
    assert!(AppQueue::parse_args("  ,t").is_none());
    let r = AppQueue::parse_args(" support ,tn,,,30,,,vip,2").unwrap();
    assert_eq!(r.queue_name, "support");
    assert!(r.options.allow_callee_transfer);
    assert!(r.options.no_retry);
    assert!(!r.options.continue_on_hangup);
    assert_eq!(r.timeout, Duration::from_secs(30));
    assert_eq!(r.rule_name.as_deref(), Some("vip"));
    assert_eq!(r.desired_position, Some(2));
    let r = AppQueue::parse_args("sales,,,,x,,,,0").unwrap();
    assert_eq!(r.timeout, Duration::from_secs(0));
    assert!(r.rule_name.is_none());
    assert!(r.desired_position.is_none());
}

#[test]
fn test_join_refused_and_join() {
    let mut q = CallQueue::new("j".to_string(), QueueStrategy::RingAll);
    assert!(!q.join_refused());
    q.join_empty = false;
    assert!(q.join_refused());
    q.add_member("SIP/a".to_string(), "A".to_string(), 0);
    assert!(!q.join_refused());
    q.max_callers = 1;
    let pos = q.join(caller("id-1", "SIP/c1"), None, "1001");
    assert_eq!(pos, 1);
    assert!(q.join_refused());
    let e = q.pending_log.last().unwrap();
    assert_eq!(e.event, QueueLogEvent::EnterQueue);
    assert_eq!(e.call_id, "id-1");
    assert_eq!(e.agent, "NONE");
    assert_eq!(e.data, vec!["".to_string(), "1001".to_string()]);
    q.max_callers = 0;
    let pos = q.join(caller("id-2", "SIP/c2"), Some(1), "1002");
    assert_eq!(pos, 1);
    assert_eq!(q.callers[0].channel_id, "id-2");
    assert_eq!(q.callers[1].position, 2);
}

#[test]
fn test_wait_outcome() {
    let mut q = CallQueue::new("w".to_string(), QueueStrategy::RingAll);
    let zero = Duration::from_secs(0);
    assert_eq!(q.wait_outcome(true, zero, zero), Some(QueueResult::Abandoned));
    assert_eq!(q.wait_outcome(false, Duration::from_secs(10), zero), None);
    assert_eq!(
        q.wait_outcome(false, Duration::from_secs(10), Duration::from_secs(10)),
        Some(QueueResult::Timeout)
    );
    q.max_wait_time = Duration::from_secs(5);
    assert_eq!(q.wait_outcome(false, Duration::from_secs(6), zero), Some(QueueResult::Timeout));
    q.max_wait_time = zero;
    q.leave_when_empty = true;
    assert_eq!(q.wait_outcome(false, zero, zero), None);
    q.add_member("SIP/a".to_string(), "A".to_string(), 0);
    q.add_member("SIP/b".to_string(), "B".to_string(), 0);
    assert_eq!(q.wait_outcome(false, zero, zero), None);
    q.set_member_paused("SIP/a", true, None);
    q.members[1].status = MemberStatus::Unavailable;
    assert_eq!(q.wait_outcome(false, zero, zero), Some(QueueResult::LeaveEmpty));
}

#[test]
fn test_caller_index_and_abandon_log() {
    let mut q = CallQueue::new("ab".to_string(), QueueStrategy::RingAll);
    q.enqueue_caller(caller("x", "SIP/x"));
    q.enqueue_caller(caller("y", "SIP/y"));
    assert_eq!(q.caller_index("y"), Some(1));
    assert_eq!(q.caller_index("z"), None);
    q.log_abandon("y", 42);
    let e = q.pending_log.last().unwrap();
    assert_eq!(e.event, QueueLogEvent::Abandon);
    assert_eq!(e.data, vec!["2".to_string(), "2".to_string(), "42".to_string()]);
    q.log_abandon("z", 1);
    assert_eq!(q.pending_log.last().unwrap().data, vec!["0".to_string(), "0".to_string(), "1".to_string()]);
}

#[test]
fn test_ringing_marks() {
    let mut q = CallQueue::new("r".to_string(), QueueStrategy::RingAll);
    q.add_member("SIP/a".to_string(), "A".to_string(), 0);
    q.add_member("SIP/b".to_string(), "B".to_string(), 0);
    q.mark_ringing(&vec![1, 7]);
    assert_eq!(q.members[0].status, MemberStatus::Available);
    assert_eq!(q.members[1].status, MemberStatus::Ringing);
    q.clear_ringing(&vec![1]);
    assert_eq!(q.members[1].status, MemberStatus::Available);
}

#[test]
fn test_after_connect() {
    let mut q = CallQueue::new("c".to_string(), QueueStrategy::RingAll);
    let r = q.after_connect(ConnectResult::Connected, "id", Duration::from_millis(30500));
    assert_eq!(r, Some(QueueResult::Completed));
    assert_eq!(q.completed_calls, 1);
    assert_eq!(q.total_holdtime_secs, 30);
    assert_eq!(q.holdtime_call_count, 1);
    assert_eq!(q.calls_within_sl, 1);
    let e = q.pending_log.last().unwrap();
    assert_eq!(e.event, QueueLogEvent::Connect);
    assert_eq!(e.agent, "agent");
    assert_eq!(e.data, vec!["30".to_string(), "bridged_channel".to_string(), "0".to_string()]);
    let r = q.after_connect(ConnectResult::Connected, "id", Duration::from_secs(61));
    assert_eq!(r, Some(QueueResult::Completed));
    assert_eq!(q.calls_within_sl, 1);
    let r = q.after_connect(ConnectResult::MemberNoAnswer, "id", Duration::from_secs(1));
    assert_eq!(r, None);
    let e = q.pending_log.last().unwrap();
    assert_eq!(e.event, QueueLogEvent::RingNoAnswer);
    assert_eq!(e.data, vec!["15".to_string()]);
    let n = q.pending_log.len();
    assert_eq!(q.after_connect(ConnectResult::CallerHangup, "id", Duration::from_secs(1)), Some(QueueResult::Abandoned));
    assert_eq!(q.pending_log.len(), n);
}

#[test]
fn test_status_vars_and_penalty_range() {
    let mut q = CallQueue::new("s".to_string(), QueueStrategy::RingAll);
    q.completed_calls = 3;
    q.abandoned_calls = 1;
    q.total_holdtime_secs = 90;
    q.holdtime_call_count = 3;
    let v = q.status_vars(QueueResult::Timeout, 12, 0);
    assert_eq!(v.queue_status, "TIMEOUT");
    assert_eq!(v.queue_name, "s");
    assert_eq!(v.queue_holdtime, 30);
    assert_eq!(v.queue_completed, 3);
    assert_eq!(v.queue_abandoned, 1);
    assert_eq!(v.queue_wait, 12);
    let mut reg = QueueRegistry::new();
    reg.register_rule("r1", vec![QueueRule { min_wait_secs: 10, max_penalty: 3, min_penalty: 1, relative: false }]);
    assert_eq!(reg.penalty_range(Some("r1"), None, 20), (3, 1));
    assert_eq!(reg.penalty_range(Some("r1"), None, 5), (u32::MAX, 0));
    assert_eq!(reg.penalty_range(Some("nope"), Some("r1"), 20), (u32::MAX, 0));
    assert_eq!(reg.penalty_range(None, Some("r1"), 20), (3, 1));
    assert_eq!(reg.penalty_range(None, None, 20), (u32::MAX, 0));
}

#[test]
fn test_strategy_name_round_trip() {
    for s in [
        QueueStrategy::RingAll,
        QueueStrategy::LeastRecent,
        QueueStrategy::FewestCalls,
        QueueStrategy::Random,
        QueueStrategy::RoundRobin,
        QueueStrategy::Linear,
    ] {
        assert_eq!(QueueStrategy::from_str_name(s.as_str()), s);
    }
}

#[test]
fn test_add_then_remove_restores_members() {
    let mut q = CallQueue::new("ar".to_string(), QueueStrategy::RingAll);
    q.add_member("SIP/a".to_string(), "A".to_string(), 0);
    q.add_member("SIP/b".to_string(), "B".to_string(), 1);
    assert!(q.add_member("SIP/c".to_string(), "C".to_string(), 2));
    assert!(q.remove_member("SIP/c"));
    let names: Vec<&str> = q.members.iter().map(|m| m.interface.as_str()).collect();
    assert_eq!(names, vec!["SIP/a", "SIP/b"]);
}

#[test]
fn test_available_member_count_at() {
    let mut q = CallQueue::new("cnt".to_string(), QueueStrategy::RingAll);
    q.wrap_up_time = Duration::from_secs(30);
    q.add_member("SIP/a".to_string(), "A".to_string(), 0);
    q.add_member("SIP/b".to_string(), "B".to_string(), 0);
    q.members[0].begin_wrapup();
    let early = vec![Duration::from_secs(5), Duration::from_secs(0)];
    let late = vec![Duration::from_secs(45), Duration::from_secs(0)];
    assert_eq!(q.available_member_count_at(&early), 1);
    assert_eq!(q.available_member_count_at(&late), 2);
}
