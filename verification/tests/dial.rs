use asterisk_apps::dial::{
    dial_end_vars, dial_step, poll_legs, AfterBridgeAction, AnnouncementSpec, CallLimit, DialArgs,
    DialBeginEvent, DialDestination, DialEndEvent, DialLegState, DialOptions, DialResult,
    DialStatus, DialplanLocation, DtmfSendSpec, HangupCause, LegSignal, OutboundCallerId,
};
use asterisk_apps::PbxExecResult;
use asterisk_apps::time::Duration;

#[test]
fn test_parse_single_destination() {
    let dest = DialDestination::parse("SIP/alice").unwrap();
    assert_eq!(dest.technology, "SIP");
    assert_eq!(dest.resource, "alice");
}

#[test]
fn test_parse_destination_with_host() {
    let dest = DialDestination::parse("PJSIP/alice@192.168.1.1").unwrap();
    assert_eq!(dest.technology, "PJSIP");
    assert_eq!(dest.resource, "alice@192.168.1.1");
}

#[test]
fn test_parse_invalid_destination() {
    assert!(DialDestination::parse("").is_none());
    assert!(DialDestination::parse("SIP").is_none());
    assert!(DialDestination::parse("/alice").is_none());
    assert!(DialDestination::parse("SIP/").is_none());
}

#[test]
fn test_channel_name_generation() {
    let dest = DialDestination {
        technology: "SIP".to_string(),
        resource: "alice".to_string(),
    };
    let name = dest.channel_name("00000001");
    assert_eq!(name, "SIP/alice-00000001");
}

#[test]
fn test_dial_string_format() {
    let dest = DialDestination {
        technology: "PJSIP".to_string(),
        resource: "bob@example.com".to_string(),
    };
    assert_eq!(dest.dial_string(), "PJSIP/bob@example.com");
}

#[test]
fn test_parse_dial_args_simple() {
    let args = DialArgs::parse("SIP/alice").unwrap();
    assert_eq!(args.destinations.len(), 1);
    assert_eq!(args.destinations[0].technology, "SIP");
}

#[test]
fn test_parse_dial_args_parallel() {
    let args = DialArgs::parse("SIP/alice&SIP/bob&PJSIP/carol").unwrap();
    assert_eq!(args.destinations.len(), 3);
    assert_eq!(args.destinations[0].resource, "alice");
    assert_eq!(args.destinations[1].resource, "bob");
    assert_eq!(args.destinations[2].technology, "PJSIP");
}

#[test]
fn test_parse_dial_args_with_timeout() {
    let args = DialArgs::parse("SIP/alice,30").unwrap();
    assert_eq!(args.timeout, Duration::from_secs(30));
}

#[test]
fn test_parse_dial_args_with_options() {
    let args = DialArgs::parse("SIP/alice,30,tTmr").unwrap();
    assert!(args.options.allow_callee_transfer);
    assert!(args.options.allow_caller_transfer);
    assert!(args.options.music_on_hold_default);
    assert!(args.options.force_ringing_default);
}

#[test]
fn test_parse_dial_args_with_url() {
    let args = DialArgs::parse("SIP/alice,30,g,http://example.com").unwrap();
    assert_eq!(args.url, Some("http://example.com".to_string()));
}

#[test]
fn test_parse_dial_args_empty_timeout() {
    let args = DialArgs::parse("SIP/alice,,g").unwrap();
    assert!(args.options.continue_on_callee_hangup);
    // Should use default timeout
    assert_eq!(
        args.timeout,
        Duration::from_secs(136 * 365 * 24 * 3600)
    );
}

#[test]
fn test_dial_status_string() {
    assert_eq!(DialStatus::Answer.as_str(), "ANSWER");
    assert_eq!(DialStatus::Busy.as_str(), "BUSY");
    assert_eq!(DialStatus::NoAnswer.as_str(), "NOANSWER");
    assert_eq!(DialStatus::Cancel.as_str(), "CANCEL");
    assert_eq!(DialStatus::Congestion.as_str(), "CONGESTION");
    assert_eq!(DialStatus::ChanUnavail.as_str(), "CHANUNAVAIL");
    assert_eq!(DialStatus::DontCall.as_str(), "DONTCALL");
    assert_eq!(DialStatus::Torture.as_str(), "TORTURE");
    assert_eq!(DialStatus::InvalidArgs.as_str(), "INVALIDARGS");
}

#[test]
fn test_dial_status_display() {
    assert_eq!(DialStatus::Answer.as_str(), "ANSWER");
    assert_eq!(DialStatus::Cancel.as_str(), "CANCEL");
}

#[test]
fn test_option_parse_simple_flags() {
    let opts = DialOptions::parse("acdghHiIjkKNpRtTwWxXzEe");
    assert!(opts.answer_immediately);      // a
    assert!(opts.cancel_elsewhere);        // c
    assert!(opts.dtmf_exit);               // d
    assert!(opts.continue_on_callee_hangup); // g
    assert!(opts.callee_hangup);           // h
    assert!(opts.caller_hangup);           // H
    assert!(opts.ignore_forwarding);       // i
    assert!(opts.ignore_connected_line);   // I
    assert!(opts.topology_preserve);       // j
    assert!(opts.callee_park);             // k
    assert!(opts.caller_park);             // K
    assert!(opts.screen_nocallerid);       // N
    assert!(opts.screening);               // p
    assert!(opts.ring_with_early_media);   // R
    assert!(opts.allow_callee_transfer);   // t
    assert!(opts.allow_caller_transfer);   // T
    assert!(opts.callee_monitor);          // w
    assert!(opts.caller_monitor);          // W
    assert!(opts.callee_mixmonitor);       // x
    assert!(opts.caller_mixmonitor);       // X
    assert!(opts.cancel_timeout_on_forward); // z
    assert!(opts.hearpulsing);             // E
    assert!(opts.peer_h_exten);            // e
}

#[test]
fn test_option_parse_c_uppercase() {
    let opts = DialOptions::parse("C");
    assert!(opts.reset_cdr);
}

#[test]
fn test_option_parse_m_default() {
    let opts = DialOptions::parse("m");
    assert!(opts.music_on_hold_default);
    assert!(opts.has_music_on_hold());
    assert_eq!(opts.moh_class(), "default");
}

#[test]
fn test_option_parse_m_with_class() {
    let opts = DialOptions::parse("m(jazz)");
    assert_eq!(opts.music_on_hold, Some("jazz".to_string()));
    assert!(opts.has_music_on_hold());
    assert_eq!(opts.moh_class(), "jazz");
}

#[test]
fn test_option_parse_r_default() {
    let opts = DialOptions::parse("r");
    assert!(opts.force_ringing_default);
    assert!(opts.has_force_ringing());
}

#[test]
fn test_option_parse_r_with_tone() {
    let opts = DialOptions::parse("r(us-ring)");
    assert_eq!(opts.force_ringing, Some("us-ring".to_string()));
    assert!(opts.has_force_ringing());
}

#[test]
fn test_option_parse_f_hint() {
    let opts = DialOptions::parse("f");
    assert!(opts.force_caller_id_hint);
}

#[test]
fn test_option_parse_f_with_value() {
    let opts = DialOptions::parse("f(+15551234567)");
    assert_eq!(opts.force_caller_id, Some("+15551234567".to_string()));
}

#[test]
fn test_option_parse_o_default() {
    let opts = DialOptions::parse("o");
    assert!(opts.original_clid_default);
}

#[test]
fn test_option_parse_o_with_value() {
    let opts = DialOptions::parse("o(12345)");
    assert_eq!(opts.original_clid, Some("12345".to_string()));
}

#[test]
fn test_option_parse_b_predial_callee() {
    let opts = DialOptions::parse("b(myctx^s^1)");
    let loc = opts.predial_callee.unwrap();
    assert_eq!(loc.context, "myctx");
    assert_eq!(loc.exten, "s");
    assert_eq!(loc.priority, 1);
}

#[test]
fn test_option_parse_b_predial_callee_with_args() {
    let opts = DialOptions::parse("b(myctx^s^1^arg1^arg2)");
    let loc = opts.predial_callee.unwrap();
    assert_eq!(loc.context, "myctx");
    assert_eq!(loc.exten, "s");
    assert_eq!(loc.priority, 1);
    assert_eq!(loc.args, vec!["arg1", "arg2"]);
}

#[test]
fn test_option_parse_big_b_predial_caller() {
    let opts = DialOptions::parse("B(default^callee^1)");
    let loc = opts.predial_caller.unwrap();
    assert_eq!(loc.context, "default");
    assert_eq!(loc.exten, "callee");
    assert_eq!(loc.priority, 1);
}

#[test]
fn test_option_parse_d_dtmf_spec() {
    let opts = DialOptions::parse("D(12345:6789:0)");
    let dtmf = opts.send_dtmf.unwrap();
    assert_eq!(dtmf.called, "12345");
    assert_eq!(dtmf.calling, "6789");
    assert_eq!(dtmf.progress, "0");
}

#[test]
fn test_option_parse_d_dtmf_called_only() {
    let opts = DialOptions::parse("D(12345)");
    let dtmf = opts.send_dtmf.unwrap();
    assert_eq!(dtmf.called, "12345");
    assert!(dtmf.calling.is_empty());
}

#[test]
fn test_option_parse_f_go_on() {
    let opts = DialOptions::parse("F(myctx^100^1)");
    let loc = opts.callee_go_on.unwrap();
    assert_eq!(loc.context, "myctx");
    assert_eq!(loc.exten, "100");
    assert_eq!(loc.priority, 1);
}

#[test]
fn test_option_parse_f_go_on_empty() {
    let opts = DialOptions::parse("F");
    assert!(opts.callee_go_on_empty);
}

#[test]
fn test_option_parse_g_goto() {
    let opts = DialOptions::parse("G(jump^s^1)");
    let loc = opts.goto_after_answer.unwrap();
    assert_eq!(loc.context, "jump");
    assert_eq!(loc.exten, "s");
    assert_eq!(loc.priority, 1);
}

#[test]
fn test_option_parse_l_call_limit() {
    let opts = DialOptions::parse("L(60000:30000:10000)");
    let limit = opts.call_limit.unwrap();
    assert_eq!(limit.max_ms, 60000);
    assert_eq!(limit.warning_ms, Some(30000));
    assert_eq!(limit.repeat_ms, Some(10000));
}

#[test]
fn test_option_parse_l_call_limit_max_only() {
    let opts = DialOptions::parse("L(120000)");
    let limit = opts.call_limit.unwrap();
    assert_eq!(limit.max_ms, 120000);
    assert!(limit.warning_ms.is_none());
    assert!(limit.repeat_ms.is_none());
}

#[test]
fn test_option_parse_s_duration_stop() {
    let opts = DialOptions::parse("S(30)");
    assert_eq!(opts.duration_stop, Some(Duration::from_secs(30)));
}

#[test]
fn test_option_parse_s_duration_stop_fractional() {
    let opts = DialOptions::parse("S(30.5)");
    let dur = opts.duration_stop.unwrap();
    assert!(dur > Duration::from_secs(30));
    assert!(dur < Duration::from_secs(31));
}

#[test]
fn test_option_parse_u_callee_gosub() {
    let opts = DialOptions::parse("U(my_routine^arg1^arg2)");
    let loc = opts.callee_gosub.unwrap();
    assert_eq!(loc.context, "my_routine");
    assert_eq!(loc.exten, "arg1");
}

#[test]
fn test_option_parse_a_announcement() {
    let opts = DialOptions::parse("A(welcome:hold-music)");
    let ann = opts.announcement.unwrap();
    assert_eq!(ann.called_file, "welcome");
    assert_eq!(ann.calling_file, "hold-music");
}

#[test]
fn test_option_parse_a_announcement_callee_only() {
    let opts = DialOptions::parse("A(welcome)");
    let ann = opts.announcement.unwrap();
    assert_eq!(ann.called_file, "welcome");
    assert!(ann.calling_file.is_empty());
}

#[test]
fn test_option_parse_q_hangup_cause() {
    let opts = DialOptions::parse("Q(NO_ANSWER)");
    assert_eq!(opts.hangup_cause, Some("NO_ANSWER".to_string()));
}

#[test]
fn test_option_parse_n_screen_nointro() {
    let opts = DialOptions::parse("n(1)");
    assert_eq!(opts.screen_nointro, Some("1".to_string()));
}

#[test]
fn test_option_parse_big_o_operator() {
    let opts = DialOptions::parse("O(1)");
    assert_eq!(opts.operator_mode, Some("1".to_string()));
}

#[test]
fn test_option_parse_big_p_privacy() {
    let opts = DialOptions::parse("P(myfamily)");
    assert_eq!(opts.privacy, Some("myfamily".to_string()));
}

#[test]
fn test_option_parse_s_force_tag() {
    let opts = DialOptions::parse("s(MyTag)");
    assert_eq!(opts.force_cid_tag, Some("MyTag".to_string()));
}

#[test]
fn test_option_parse_u_force_pres() {
    let opts = DialOptions::parse("u(allowed)");
    assert_eq!(opts.force_cid_presentation, Some("allowed".to_string()));
}

#[test]
fn test_option_parse_combined() {
    let opts = DialOptions::parse("tTm(jazz)gL(60000)hHkKwWxX");
    assert!(opts.allow_callee_transfer);
    assert!(opts.allow_caller_transfer);
    assert_eq!(opts.music_on_hold, Some("jazz".to_string()));
    assert!(opts.continue_on_callee_hangup);
    assert_eq!(opts.call_limit.unwrap().max_ms, 60000);
    assert!(opts.callee_hangup);
    assert!(opts.caller_hangup);
    assert!(opts.callee_park);
    assert!(opts.caller_park);
    assert!(opts.callee_monitor);
    assert!(opts.caller_monitor);
    assert!(opts.callee_mixmonitor);
    assert!(opts.caller_mixmonitor);
}

#[test]
fn test_option_parse_all_38_options() {
    // This test verifies all 38 option characters are recognized.
    // We test them in groups to avoid overly complex single strings.
    let opts = DialOptions::parse(
        "A(file)a\
         b(ctx^s^1)B(ctx^s^1)\
         CcdD(1:2:3)\
         Ee\
         f(id)F(ctx^s^1)\
         gG(ctx^s^1)\
         hH\
         iI\
         j\
         kK\
         L(1000)\
         m(cls)\
         n(0)N\
         o(id)O(1)\
         pP(key)\
         Q(BUSY)\
         r(tone)R\
         S(30)s(tag)\
         tT\
         u(pres)U(sub^s^1)\
         wW\
         xX\
         z"
    );

    // Verify all options were parsed
    assert!(opts.announcement.is_some());              // A
    assert!(opts.answer_immediately);                  // a
    assert!(opts.predial_callee.is_some());            // b
    assert!(opts.predial_caller.is_some());            // B
    assert!(opts.reset_cdr);                           // C
    assert!(opts.cancel_elsewhere);                    // c
    assert!(opts.dtmf_exit);                           // d
    assert!(opts.send_dtmf.is_some());                 // D
    assert!(opts.hearpulsing);                         // E
    assert!(opts.peer_h_exten);                        // e
    assert!(opts.force_caller_id.is_some());           // f
    assert!(opts.callee_go_on.is_some());              // F
    assert!(opts.continue_on_callee_hangup);           // g
    assert!(opts.goto_after_answer.is_some());         // G
    assert!(opts.callee_hangup);                       // h
    assert!(opts.caller_hangup);                       // H
    assert!(opts.ignore_forwarding);                   // i
    assert!(opts.ignore_connected_line);               // I
    assert!(opts.topology_preserve);                   // j
    assert!(opts.callee_park);                         // k
    assert!(opts.caller_park);                         // K
    assert!(opts.call_limit.is_some());                // L
    assert!(opts.music_on_hold.is_some());             // m
    assert!(opts.screen_nointro.is_some());            // n
    assert!(opts.screen_nocallerid);                   // N
    assert!(opts.original_clid.is_some());             // o
    assert!(opts.operator_mode.is_some());             // O
    assert!(opts.screening);                           // p
    assert!(opts.privacy.is_some());                   // P
    assert!(opts.hangup_cause.is_some());              // Q
    assert!(opts.force_ringing.is_some());             // r
    assert!(opts.ring_with_early_media);               // R
    assert!(opts.duration_stop.is_some());             // S
    assert!(opts.force_cid_tag.is_some());             // s
    assert!(opts.allow_callee_transfer);               // t
    assert!(opts.allow_caller_transfer);               // T
    assert!(opts.force_cid_presentation.is_some());    // u
    assert!(opts.callee_gosub.is_some());              // U
    assert!(opts.callee_monitor);                      // w
    assert!(opts.caller_monitor);                      // W
    assert!(opts.callee_mixmonitor);                   // x
    assert!(opts.caller_mixmonitor);                   // X
    assert!(opts.cancel_timeout_on_forward);           // z
}

#[test]
fn test_option_parse_unknown_ignored() {
    // Unknown options should be silently ignored
    let opts = DialOptions::parse("t!@#T");
    assert!(opts.allow_callee_transfer);
    assert!(opts.allow_caller_transfer);
}

#[test]
fn test_dialplan_location_parse_full() {
    let loc = DialplanLocation::parse("mycontext^myexten^1").unwrap();
    assert_eq!(loc.context, "mycontext");
    assert_eq!(loc.exten, "myexten");
    assert_eq!(loc.priority, 1);
}

#[test]
fn test_dialplan_location_parse_with_args() {
    let loc = DialplanLocation::parse("ctx^s^1^hello^world").unwrap();
    assert_eq!(loc.context, "ctx");
    assert_eq!(loc.exten, "s");
    assert_eq!(loc.priority, 1);
    assert_eq!(loc.args, vec!["hello", "world"]);
}

#[test]
fn test_dialplan_location_parse_priority_only() {
    let loc = DialplanLocation::parse("1").unwrap();
    assert_eq!(loc.priority, 1);
    assert!(loc.context.is_empty());
    assert!(loc.exten.is_empty());
}

#[test]
fn test_dialplan_location_parse_context_and_priority() {
    let loc = DialplanLocation::parse("myctx^3").unwrap();
    assert_eq!(loc.context, "myctx");
    assert_eq!(loc.priority, 3);
}

#[test]
fn test_dialplan_location_parse_empty() {
    assert!(DialplanLocation::parse("").is_none());
}

#[test]
fn test_dialplan_location_to_gosub_args() {
    let loc = DialplanLocation {
        context: "myctx".to_string(),
        exten: "s".to_string(),
        priority: 1,
        args: vec!["arg1".to_string(), "arg2".to_string()],
    };
    let result = loc.to_gosub_args();
    assert_eq!(result, "myctx,s,1(arg1,arg2)");
}

#[test]
fn test_dialplan_location_to_gosub_args_no_args() {
    let loc = DialplanLocation {
        context: "default".to_string(),
        exten: "100".to_string(),
        priority: 1,
        args: vec![],
    };
    assert_eq!(loc.to_gosub_args(), "default,100,1");
}

#[test]
fn test_call_limit_parse_full() {
    let limit = CallLimit::parse("60000:30000:10000").unwrap();
    assert_eq!(limit.max_ms, 60000);
    assert_eq!(limit.warning_ms, Some(30000));
    assert_eq!(limit.repeat_ms, Some(10000));
    assert_eq!(limit.max_duration(), Duration::from_millis(60000));
}

#[test]
fn test_call_limit_parse_max_only() {
    let limit = CallLimit::parse("120000").unwrap();
    assert_eq!(limit.max_ms, 120000);
    assert!(limit.warning_ms.is_none());
    assert!(limit.repeat_ms.is_none());
}

#[test]
fn test_call_limit_parse_max_and_warning() {
    let limit = CallLimit::parse("60000:5000").unwrap();
    assert_eq!(limit.max_ms, 60000);
    assert_eq!(limit.warning_ms, Some(5000));
    assert!(limit.repeat_ms.is_none());
}

#[test]
fn test_call_limit_parse_zero() {
    assert!(CallLimit::parse("0").is_none());
}

#[test]
fn test_call_limit_parse_invalid() {
    assert!(CallLimit::parse("abc").is_none());
    assert!(CallLimit::parse("").is_none());
}

#[test]
fn test_duration_stop_option() {
    let opts = DialOptions::parse("S(45)");
    assert_eq!(opts.duration_stop, Some(Duration::from_secs(45)));
}

#[test]
fn test_duration_stop_invalid() {
    let opts = DialOptions::parse("S(abc)");
    assert!(opts.duration_stop.is_none());
}

#[test]
fn test_dtmf_spec_parse_full() {
    let spec = DtmfSendSpec::parse("123:456:789:mfp:mfw:sfp:sfw");
    assert_eq!(spec.called, "123");
    assert_eq!(spec.calling, "456");
    assert_eq!(spec.progress, "789");
    assert_eq!(spec.mf_progress, "mfp");
    assert_eq!(spec.mf_wink, "mfw");
    assert_eq!(spec.sf_progress, "sfp");
    assert_eq!(spec.sf_wink, "sfw");
}

#[test]
fn test_dtmf_spec_parse_called_only() {
    let spec = DtmfSendSpec::parse("12345");
    assert_eq!(spec.called, "12345");
    assert!(spec.calling.is_empty());
}

#[test]
fn test_dtmf_spec_parse_empty() {
    let spec = DtmfSendSpec::parse("");
    assert!(spec.called.is_empty());
}

#[test]
fn test_announcement_spec_parse() {
    let ann = AnnouncementSpec::parse("hello:goodbye");
    assert_eq!(ann.called_file, "hello");
    assert_eq!(ann.calling_file, "goodbye");
}

#[test]
fn test_announcement_spec_called_only() {
    let ann = AnnouncementSpec::parse("welcome");
    assert_eq!(ann.called_file, "welcome");
    assert!(ann.calling_file.is_empty());
}

#[test]
fn test_dial_begin_event() {
    let event = DialBeginEvent {
        caller: "SIP/alice-001".to_string(),
        callee: "SIP/bob-001".to_string(),
        dialstring: "SIP/bob".to_string(),
        forward: None,
    };
    assert_eq!(event.message_type(), "DialBegin");
}

#[test]
fn test_dial_end_event() {
    let event = DialEndEvent {
        caller: "SIP/alice-001".to_string(),
        callee: "SIP/bob-001".to_string(),
        dialstatus: "ANSWER".to_string(),
        forward: None,
    };
    assert_eq!(event.message_type(), "DialEnd");
}

#[test]
fn test_dial_end_event_with_forward() {
    let event = DialEndEvent {
        caller: "SIP/alice-001".to_string(),
        callee: "SIP/bob-001".to_string(),
        dialstatus: "ANSWER".to_string(),
        forward: Some("SIP/carol".to_string()),
    };
    assert_eq!(event.forward, Some("SIP/carol".to_string()));
}

#[test]
fn test_moh_class_default() {
    let opts = DialOptions::parse("m");
    assert_eq!(opts.moh_class(), "default");
}

#[test]
fn test_moh_class_custom() {
    let opts = DialOptions::parse("m(classical)");
    assert_eq!(opts.moh_class(), "classical");
}

#[test]
fn test_option_parse_nested_parens() {
    // The b option with GoSub args using parenthesized format
    let opts = DialOptions::parse("b(ctx^s^1(arg1^arg2))");
    let loc = opts.predial_callee.unwrap();
    assert_eq!(loc.context, "ctx");
    assert_eq!(loc.exten, "s");
    assert_eq!(loc.priority, 1);
    // Args are extracted from the parens
    assert_eq!(loc.args, vec!["arg1", "arg2"]);
}

#[test]
fn test_option_parse_multiple_parenthesized() {
    let opts = DialOptions::parse("b(ctx^s^1)B(ctx2^s^2)D(123:456)L(60000:5000)S(30)");
    assert!(opts.predial_callee.is_some());
    assert!(opts.predial_caller.is_some());
    assert!(opts.send_dtmf.is_some());
    assert!(opts.call_limit.is_some());
    assert!(opts.duration_stop.is_some());

    let callee_loc = opts.predial_callee.unwrap();
    assert_eq!(callee_loc.context, "ctx");

    let caller_loc = opts.predial_caller.unwrap();
    assert_eq!(caller_loc.context, "ctx2");

    let dtmf = opts.send_dtmf.unwrap();
    assert_eq!(dtmf.called, "123");
    assert_eq!(dtmf.calling, "456");

    assert_eq!(opts.call_limit.unwrap().max_ms, 60000);
    assert_eq!(opts.duration_stop.unwrap(), Duration::from_secs(30));
}

#[test]
fn test_real_world_option_string_1() {
    // Common: transfer + ringing + continue
    let opts = DialOptions::parse("tTrg");
    assert!(opts.allow_callee_transfer);
    assert!(opts.allow_caller_transfer);
    assert!(opts.force_ringing_default);
    assert!(opts.continue_on_callee_hangup);
}

#[test]
fn test_real_world_option_string_2() {
    // Call center: MOH + limit + features
    let opts = DialOptions::parse("m(queue-music)L(3600000:60000:30000)hHtTwW");
    assert_eq!(opts.music_on_hold, Some("queue-music".to_string()));
    let limit = opts.call_limit.unwrap();
    assert_eq!(limit.max_ms, 3600000); // 1 hour
    assert_eq!(limit.warning_ms, Some(60000)); // warn at 1 min
    assert_eq!(limit.repeat_ms, Some(30000)); // repeat every 30s
    assert!(opts.callee_hangup);
    assert!(opts.caller_hangup);
    assert!(opts.callee_monitor);
    assert!(opts.caller_monitor);
}

#[test]
fn test_adversarial_no_tech_prefix() {
    assert!(DialDestination::parse("alice").is_none());
    assert!(DialDestination::parse("just-a-number").is_none());
    assert!(DialArgs::parse("alice").is_none());
}

#[test]
fn test_adversarial_only_ampersands() {
    assert!(DialArgs::parse("&&&&").is_none());
}

#[test]
fn test_adversarial_mixed_destinations() {
    let args = DialArgs::parse("SIP/alice&invalid&SIP/bob").unwrap();
    // "invalid" has no slash, so it's filtered out
    assert_eq!(args.destinations.len(), 2);
    assert_eq!(args.destinations[0].resource, "alice");
    assert_eq!(args.destinations[1].resource, "bob");
}

#[test]
fn test_adversarial_timeout_zero() {
    let args = DialArgs::parse("SIP/alice,0").unwrap();
    assert_eq!(args.timeout, Duration::from_secs(DialArgs::DEFAULT_TIMEOUT_SECS));
}

#[test]
fn test_adversarial_timeout_negative() {
    let args = DialArgs::parse("SIP/alice,-5").unwrap();
    assert_eq!(args.timeout, Duration::from_secs(DialArgs::DEFAULT_TIMEOUT_SECS));
}

#[test]
fn test_adversarial_timeout_nan_inf() {
    let args = DialArgs::parse("SIP/alice,NaN").unwrap();
    assert_eq!(args.timeout, Duration::from_secs(DialArgs::DEFAULT_TIMEOUT_SECS));
    let args = DialArgs::parse("SIP/alice,inf").unwrap();
    assert_eq!(args.timeout, Duration::from_secs(DialArgs::DEFAULT_TIMEOUT_SECS));
}

#[test]
fn test_adversarial_s_negative() {
    let opts = DialOptions::parse("S(-1)");
    assert!(opts.duration_stop.is_none());
}

#[test]
fn test_adversarial_s_zero() {
    let opts = DialOptions::parse("S(0)");
    assert!(opts.duration_stop.is_none());
}

#[test]
fn test_adversarial_s_nan() {
    let opts = DialOptions::parse("S(NaN)");
    assert!(opts.duration_stop.is_none());
}

#[test]
fn test_adversarial_s_infinity() {
    let opts = DialOptions::parse("S(inf)");
    assert!(opts.duration_stop.is_none());
}

#[test]
fn test_adversarial_l_empty() {
    let opts = DialOptions::parse("L()");
    assert!(opts.call_limit.is_none());
}

#[test]
fn test_adversarial_l_garbage() {
    let opts = DialOptions::parse("L(abc:def:ghi)");
    assert!(opts.call_limit.is_none());
}

#[test]
fn test_adversarial_l_zero_max() {
    assert!(CallLimit::parse("0").is_none());
}

#[test]
fn test_adversarial_l_warning_zero() {
    let limit = CallLimit::parse("60000:0").unwrap();
    assert_eq!(limit.max_ms, 60000);
    assert_eq!(limit.warning_ms, Some(0));
}

#[test]
fn test_adversarial_g_invalid_location() {
    let opts = DialOptions::parse("G(^)");
    // "^" splits into ["", ""], context="" exten="" -> DialplanLocation
    // This is ok -- empty context/exten means "current"
    let loc = opts.goto_after_answer.unwrap();
    assert!(loc.context.is_empty());
}

#[test]
fn test_adversarial_duplicate_options() {
    let opts = DialOptions::parse("gGfF");
    // g and G are different options (continue vs goto)
    assert!(opts.continue_on_callee_hangup); // g
    // G without args -> goto_after_answer stays None
    assert!(opts.goto_after_answer.is_none());
    // f without args -> force_caller_id_hint
    assert!(opts.force_caller_id_hint);
    // F without args -> callee_go_on_empty
    assert!(opts.callee_go_on_empty);
}

#[test]
fn test_adversarial_duplicate_m_option() {
    let opts = DialOptions::parse("m(jazz)m(classical)");
    // Second m(classical) overwrites first
    assert_eq!(opts.music_on_hold, Some("classical".to_string()));
}

#[test]
fn test_adversarial_dialplan_priority_zero() {
    let loc = DialplanLocation::parse("ctx^s^0").unwrap();
    assert_eq!(loc.priority, 1); // 0 remapped to 1
}

#[test]
fn test_adversarial_dialplan_priority_negative() {
    let loc = DialplanLocation::parse("ctx^s^-5").unwrap();
    assert_eq!(loc.priority, 1);
}

#[test]
fn test_adversarial_dialplan_empty_context_exten() {
    let loc = DialplanLocation::parse("^^1").unwrap();
    assert!(loc.context.is_empty());
    assert!(loc.exten.is_empty());
    assert_eq!(loc.priority, 1);
}

#[test]
fn test_adversarial_many_destinations() {
    let dests: Vec<String> = (0..100).map(|i| format!("SIP/dest{}", i)).collect();
    let dial_str = dests.join("&");
    let args = DialArgs::parse(&dial_str).unwrap();
    assert_eq!(args.destinations.len(), 100);
}

#[test]
fn test_adversarial_long_option_string() {
    let opts_str: String = "tT".repeat(500);
    let opts = DialOptions::parse(&opts_str);
    assert!(opts.allow_callee_transfer);
    assert!(opts.allow_caller_transfer);
}

#[test]
fn test_adversarial_unmatched_paren() {
    // Opening paren without closing
    let opts = DialOptions::parse("m(jazz");
    // The parser consumes until it runs out of chars
    // This should not panic; the parsed value is "jazz"
    assert_eq!(opts.music_on_hold, Some("jazz".to_string()));
}

#[test]
fn test_adversarial_d_empty() {
    let opts = DialOptions::parse("D()");
    let dtmf = opts.send_dtmf.unwrap();
    assert!(dtmf.called.is_empty());
}

#[test]
fn test_adversarial_all_dialstatus_unique() {
    let statuses = [
        DialStatus::Answer,
        DialStatus::Busy,
        DialStatus::NoAnswer,
        DialStatus::Cancel,
        DialStatus::Congestion,
        DialStatus::ChanUnavail,
        DialStatus::DontCall,
        DialStatus::Torture,
        DialStatus::InvalidArgs,
    ];
    let mut strs: Vec<&str> = statuses.iter().map(|s| s.as_str()).collect();
    let orig_len = strs.len();
    strs.sort();
    strs.dedup();
    assert_eq!(strs.len(), orig_len, "DIALSTATUS values must be unique");
}

#[test]
fn test_adversarial_empty_tech_resource() {
    assert!(DialDestination::parse("/").is_none()); // empty tech & resource
    assert!(DialDestination::parse("/resource").is_none()); // empty tech
    assert!(DialDestination::parse("SIP/").is_none()); // empty resource
}

#[test]
fn test_adversarial_dialplan_unclosed_paren() {
    // "ctx^s^1(arg1" has open paren but no close -> treated as no paren args
    let loc = DialplanLocation::parse("ctx^s^1(arg1").unwrap();
    // The '(' is part of the string, so priority parsing may fail
    // but should not panic
    assert_eq!(loc.context, "ctx");
}

#[test]
fn test_real_world_option_string_3() {
    // Pre-dial with GoSub, using parenthesized args like real Asterisk dialplans:
    // b(default^called_channel^1(my_gosub_arg1^my_gosub_arg2))
    let opts = DialOptions::parse(
        "b(default^called_channel^1(my_gosub_arg1^my_gosub_arg2))B(default^callee_channel^1(my_gosub_arg1^my_gosub_arg2))"
    );
    let b = opts.predial_callee.unwrap();
    assert_eq!(b.context, "default");
    assert_eq!(b.exten, "called_channel");
    assert_eq!(b.priority, 1);
    assert_eq!(b.args, vec!["my_gosub_arg1", "my_gosub_arg2"]);

    let big_b = opts.predial_caller.unwrap();
    assert_eq!(big_b.context, "default");
    assert_eq!(big_b.exten, "callee_channel");
    assert_eq!(big_b.priority, 1);
    assert_eq!(big_b.args, vec!["my_gosub_arg1", "my_gosub_arg2"]);
}


#[test]
fn test_build_bridge_features_default() {
    let opts = DialOptions::default();
    let (caller, callee) = opts.build_bridge_features();
    assert!(!caller.blind_transfer);
    assert!(!caller.disconnect);
    assert!(!caller.park_call);
    assert!(!callee.blind_transfer);
    assert!(!callee.disconnect);
}

#[test]
fn test_build_bridge_features_from_options() {
    let opts = DialOptions::parse("tThHkKwWxX");
    let (caller, callee) = opts.build_bridge_features();
    assert!(caller.blind_transfer);
    assert!(caller.attended_transfer);
    assert!(caller.disconnect);
    assert!(caller.park_call);
    assert!(caller.automixmon);
    assert!(callee.blind_transfer);
    assert!(callee.attended_transfer);
    assert!(callee.disconnect);
    assert!(callee.park_call);
    assert!(callee.automixmon);
}

#[test]
fn test_build_bridge_features_partial() {
    let opts = DialOptions::parse("tH");
    let (caller, callee) = opts.build_bridge_features();
    assert!(!caller.blind_transfer);
    assert!(caller.disconnect);
    assert!(callee.blind_transfer);
    assert!(!callee.disconnect);
}

#[test]
fn test_caller_after_bridge_action_g() {
    let opts = DialOptions::parse("g");
    let action = opts.caller_after_bridge_action();
    assert!(matches!(action, AfterBridgeAction::Nothing));
}

#[test]
fn test_caller_after_bridge_action_g_goto() {
    let opts = DialOptions::parse("G(myctx^s^1)");
    let action = opts.caller_after_bridge_action();
    match action {
        AfterBridgeAction::GoTo { context, exten, priority } => {
            assert_eq!(context, "myctx");
            assert_eq!(exten, "s");
            assert_eq!(priority, 1);
        }
        _ => panic!("Expected GoTo action"),
    }
}

#[test]
fn test_callee_after_bridge_action_f_location() {
    let opts = DialOptions::parse("F(other^100^1)");
    let action = opts.callee_after_bridge_action();
    match action {
        AfterBridgeAction::GoTo { context, exten, priority } => {
            assert_eq!(context, "other");
            assert_eq!(exten, "100");
            assert_eq!(priority, 1);
        }
        _ => panic!("Expected GoTo action"),
    }
}

#[test]
fn test_callee_after_bridge_action_g_goto() {
    let opts = DialOptions::parse("G(ctx^s^5)");
    let action = opts.callee_after_bridge_action();
    match action {
        AfterBridgeAction::GoTo { priority, .. } => {
            assert_eq!(priority, 6);
        }
        _ => panic!("Expected GoTo action"),
    }
}

#[test]
fn test_callee_after_bridge_action_none() {
    let opts = DialOptions::parse("F");
    assert!(matches!(opts.callee_after_bridge_action(), AfterBridgeAction::Nothing));
}

#[test]
fn test_unanswered_hangup_cause_default() {
    let opts = DialOptions::default();
    assert_eq!(opts.unanswered_hangup_cause(), HangupCause::NormalClearing);
}

#[test]
fn test_unanswered_hangup_cause_cancel_elsewhere() {
    let opts = DialOptions::parse("c");
    assert_eq!(opts.unanswered_hangup_cause(), HangupCause::NormalClearing);
}

#[test]
fn test_unanswered_hangup_cause_q_busy() {
    let opts = DialOptions::parse("Q(USER_BUSY)");
    assert_eq!(opts.unanswered_hangup_cause(), HangupCause::UserBusy);
}

#[test]
fn test_unanswered_hangup_cause_q_no_answer() {
    let opts = DialOptions::parse("Q(NO_ANSWER)");
    assert_eq!(opts.unanswered_hangup_cause(), HangupCause::NoAnswer);
}

#[test]
fn test_unanswered_hangup_cause_q_numeric() {
    let opts = DialOptions::parse("Q(17)");
    assert_eq!(opts.unanswered_hangup_cause(), HangupCause::UserBusy);
}

#[test]
fn test_unanswered_hangup_cause_q_none() {
    let opts = DialOptions::parse("Q(NONE)");
    assert_eq!(opts.unanswered_hangup_cause(), HangupCause::NotDefined);
}

#[test]
fn test_unanswered_hangup_cause_case_and_codes() {
    assert_eq!(DialOptions::parse("Q(busy)").unanswered_hangup_cause(), HangupCause::UserBusy);
    assert_eq!(DialOptions::parse("Q(call_Rejected)").unanswered_hangup_cause(), HangupCause::CallRejected);
    assert_eq!(DialOptions::parse("Q(noanſwer)").unanswered_hangup_cause(), HangupCause::NoAnswer);
    assert_eq!(DialOptions::parse("Q(21)").unanswered_hangup_cause(), HangupCause::CallRejected);
    assert_eq!(DialOptions::parse("Q(19)").unanswered_hangup_cause(), HangupCause::NoAnswer);
    assert_eq!(DialOptions::parse("Q(99)").unanswered_hangup_cause(), HangupCause::NormalClearing);
    assert_eq!(DialOptions::parse("Q(0)").unanswered_hangup_cause(), HangupCause::NotDefined);
    assert_eq!(DialOptions::parse("Q(bogus)").unanswered_hangup_cause(), HangupCause::NormalClearing);
    assert_eq!(DialOptions::parse("cQ(BUSY)").unanswered_hangup_cause(), HangupCause::NormalClearing);
}

#[test]
fn test_poll_legs_answer_ends_poll() {
    let mut legs = vec![DialLegState::Dialing, DialLegState::Dialing, DialLegState::Dialing];
    let sig = vec![LegSignal::Ringing, LegSignal::Up, LegSignal::Busy];
    let (r, rang) = poll_legs(&mut legs, &sig);
    assert_eq!(r, Some(DialResult::Answered(1)));
    assert!(rang);
    assert_eq!(legs, vec![DialLegState::Ringing, DialLegState::Answered, DialLegState::Dialing]);
}

#[test]
fn test_poll_legs_settles_next_poll() {
    let mut legs = vec![DialLegState::Dialing, DialLegState::Ringing];
    let sig = vec![LegSignal::Busy, LegSignal::Down(HangupCause::UserBusy)];
    let (r, rang) = poll_legs(&mut legs, &sig);
    assert_eq!(r, None);
    assert!(!rang);
    assert_eq!(legs, vec![DialLegState::Busy, DialLegState::Busy]);
    let (r, _) = poll_legs(&mut legs, &sig);
    assert_eq!(r, Some(DialResult::AllBusy));
    let mut legs = vec![DialLegState::Congestion, DialLegState::Congestion];
    assert_eq!(poll_legs(&mut legs, &sig).0, Some(DialResult::AllCongestion));
    let mut legs = vec![DialLegState::Busy, DialLegState::Congestion];
    assert_eq!(poll_legs(&mut legs, &sig).0, Some(DialResult::AllUnavailable));
}

#[test]
fn test_poll_legs_down_causes() {
    let mut legs = vec![DialLegState::Dialing, DialLegState::Dialing, DialLegState::Ringing];
    let sig = vec![
        LegSignal::Down(HangupCause::SwitchCongestion),
        LegSignal::Down(HangupCause::NoAnswer),
        LegSignal::Progress,
    ];
    assert_eq!(poll_legs(&mut legs, &sig).0, None);
    assert_eq!(legs, vec![DialLegState::Congestion, DialLegState::Unavailable, DialLegState::Ringing]);
}

#[test]
fn test_dial_step_hangup_and_timeout() {
    let mut legs = vec![DialLegState::Dialing];
    let sig = vec![LegSignal::Up];
    let t = Duration::from_secs(30);
    assert_eq!(dial_step(true, Duration::from_secs(1), t, &mut legs, &sig).0, Some(DialResult::CallerHangup));
    assert_eq!(dial_step(false, Duration::from_secs(30), t, &mut legs, &sig).0, Some(DialResult::Timeout));
    assert_eq!(legs, vec![DialLegState::Dialing]);
    assert_eq!(dial_step(false, Duration::from_secs(29), t, &mut legs, &sig).0, Some(DialResult::Answered(0)));
}

#[test]
fn test_dial_result_outcome() {
    assert_eq!(DialResult::Answered(2).outcome(), (PbxExecResult::Success, DialStatus::Answer));
    assert_eq!(DialResult::AllBusy.outcome(), (PbxExecResult::Success, DialStatus::Busy));
    assert_eq!(DialResult::AllCongestion.outcome(), (PbxExecResult::Success, DialStatus::Congestion));
    assert_eq!(DialResult::AllUnavailable.outcome(), (PbxExecResult::Success, DialStatus::ChanUnavail));
    assert_eq!(DialResult::Timeout.outcome(), (PbxExecResult::Success, DialStatus::NoAnswer));
    assert_eq!(DialResult::CallerHangup.outcome(), (PbxExecResult::Hangup, DialStatus::Cancel));
}

#[test]
fn test_outbound_caller_id() {
    assert!(matches!(DialOptions::parse("o").outbound_caller_id(), OutboundCallerId::Caller));
    match DialOptions::parse("f(5551234)").outbound_caller_id() {
        OutboundCallerId::Forced(n) => assert_eq!(n, "5551234"),
        _ => panic!("expected a forced caller id"),
    }
    assert!(matches!(DialOptions::parse("").outbound_caller_id(), OutboundCallerId::Unchanged));
}

#[test]
fn test_location_resolve_and_end_vars() {
    let loc = DialplanLocation::parse("^200^3").unwrap();
    assert_eq!(loc.resolve("default", "100"), ("default".to_string(), "200".to_string()));
    let vars = dial_end_vars(DialStatus::NoAnswer, Duration::from_millis(2500));
    assert_eq!(
        vars,
        vec![
            ("DIALSTATUS".to_string(), "NOANSWER".to_string()),
            ("DIALEDTIME".to_string(), "2".to_string()),
            ("DIALEDTIME_MS".to_string(), "2500".to_string()),
        ]
    );
}
