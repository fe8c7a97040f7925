use rustlab::buffer::Buffer;
use rustlab::http::{del_key_request, del_reply, get_key_request, ping_key_request, set_key_request, text_reply};
use rustlab::kv::RedisResponse;
use rustlab::cluster::{self, ItemRequest, ItemResponse, Merge};
use rustlab::executor::{mod_sum, Action, BlockOn, Event, NotifyStep, Signal, TaskQueue, WaitStep};
use rustlab::find::{option_from_arg, selects, sort_paths, NamePattern, Optional, PatternError};
use rustlab::kv::{self, parse_command, Command, RedisRequest, RequestType, ResponseType};
use rustlab::rc::{MyRc, MyRcRef};
use rustlab::stack::SimpleStack;
use rustlab::text::{compare_string, contains_str, map_add_1, same_text, split_words};

fn req(t: RequestType, key: Option<&str>, value: Option<&str>) -> RedisRequest {
    RedisRequest {
        req_type: t,
        key: key.map(|k| k.to_string()),
        value: value.map(|v| v.to_string()),
        expire_time: None,
    }
}

fn item(op: &str, key: &str, val: &str) -> ItemRequest {
    ItemRequest { op: op.to_string(), key: key.to_string(), val: val.to_string() }
}

#[test]
fn buffer_sums_other_widths() {
    assert_eq!(Buffer::new(vec![i64::MAX, -1, 1]).sum(), i64::MAX);
    assert_eq!(Buffer::new(vec![4_000_000_000u32, 200_000_000]).sum(), 4_200_000_000u32);
    assert_eq!(Buffer::<u64>::new(vec![]).sum(), 0);
    assert_eq!(Buffer::new(vec![-5i32, 3, -7]).sum(), -9);
}

#[test]
fn compare_string_orders_by_length_then_characters() {
    assert!(compare_string("b", "aaaa") == false);
    assert!(compare_string("aaaa", "b"));
    assert!(compare_string("ab", "aa"));
    assert!(!compare_string("aa", "ab"));
    assert!(!compare_string("", ""));
    assert!(compare_string("é", "e"));
    // never both directions
    for (x, y) in [("abc", "abd"), ("x", "x"), ("long", "no")] {
        assert!(!(compare_string(x, y) && compare_string(y, x)));
    }
}

#[test]
fn map_add_1_uses_the_low_byte() {
    assert_eq!(map_add_1(&vec!['z', ' ', '\u{100}']), vec!['{', '!', '\u{1}']);
    assert_eq!(map_add_1(&vec![]), Vec::<char>::new());
}

#[test]
fn rc_ref_counts() {
    let mut r = MyRcRef::new("five");
    assert_eq!(r.get_cnt(), 1);
    r.inc();
    r.inc();
    assert_eq!(r.get_cnt(), 3);
    r.dec();
    assert_eq!(r.get_cnt(), 2);
    // inc then dec restores the count
    r.inc();
    r.dec();
    assert_eq!(r.get_cnt(), 2);
}

#[test]
fn rc_shares_one_value() {
    let five = MyRc::new(5);
    assert_eq!(five.strong_count(), 1);
    let five1 = five.clone();
    let five2 = MyRc::clone(&five1);
    assert_eq!(*five1, 5);
    assert_eq!(*five2, 5);
    assert_eq!(MyRc::strong_count(&five1), 3);
    drop(five2);
    assert_eq!(five.strong_count(), 2);
}

#[test]
fn stack_is_last_in_first_out() {
    let mut stack = SimpleStack::new();
    stack.push(1);
    stack.push(2);
    stack.push(3);
    assert_eq!(stack.pop(), Some(3));
    assert_eq!(stack.pop(), Some(2));
    stack.push(4);
    assert_eq!(stack.pop(), Some(4));
    assert_eq!(stack.pop(), Some(1));
    assert_eq!(stack.pop(), None);
}

#[test]
fn queue_is_first_in_first_out() {
    let mut q = TaskQueue::new();
    assert_eq!(q.pop(), None::<u8>);
    q.push(1u8);
    q.push(2);
    q.push(3);
    assert_eq!(q.pop(), Some(1));
    q.push(4);
    assert_eq!(q.pop(), Some(2));
    assert_eq!(q.pop(), Some(3));
    assert_eq!(q.pop(), Some(4));
    assert_eq!(q.pop(), None);
}

#[test]
fn signal_keeps_an_early_notification() {
    let mut s = Signal::new();
    assert_eq!(s.notify(), NotifyStep::Nothing);
    assert_eq!(s.notify(), NotifyStep::Nothing);
    assert_eq!(s.wait(), WaitStep::Proceed);
    assert!(!s.is_waiting());
}

#[test]
fn signal_wakes_a_waiter() {
    let mut s = Signal::new();
    assert_eq!(s.wait(), WaitStep::Block);
    assert!(s.is_waiting());
    assert_eq!(s.notify(), NotifyStep::WakeOne);
    assert!(!s.is_waiting());
    assert_eq!(s.wait(), WaitStep::Block);
}

#[test]
fn block_on_runs_the_queue_before_sleeping() {
    let (mut m, a) = BlockOn::start();
    assert_eq!(a, Action::PollMain);
    assert_eq!(m.step(Event::MainPending), Action::PopTask);
    assert!(!m.accepts(Event::MainReady));
    assert_eq!(m.step(Event::TaskPopped), Action::PollTask);
    assert_eq!(m.step(Event::TaskPolled), Action::PopTask);
    assert_eq!(m.step(Event::QueueEmpty), Action::PollMain);
    assert_eq!(m.step(Event::MainPending), Action::Wait);
    assert_eq!(m.step(Event::Woken), Action::PollMain);
    assert_eq!(m.step(Event::MainReady), Action::Finish);
    assert!(!m.accepts(Event::Woken));
}

#[test]
fn block_on_finishes_after_second_poll() {
    let (mut m, _) = BlockOn::start();
    m.step(Event::MainPending);
    m.step(Event::QueueEmpty);
    assert_eq!(m.step(Event::MainReady), Action::Finish);
}

#[test]
fn mod_sum_values() {
    assert_eq!(mod_sum(1, 3, 10007), 6);
    assert_eq!(mod_sum(2, 3, 5), 2);
    assert_eq!(mod_sum(0, 3, 5), 0);
    assert_eq!(mod_sum(9999, 9999, 10007), 9783);
}

#[test]
fn split_words_drops_all_white_space() {
    assert_eq!(split_words("  get \t zju\n"), vec!["get".to_string(), "zju".to_string()]);
    assert_eq!(split_words("a\u{3000}b"), vec!["a".to_string(), "b".to_string()]);
    assert!(split_words(" \t ").is_empty());
    assert!(same_text("abc", "abc"));
    assert!(!same_text("abc", "abd"));
    assert!(contains_str("trust me", "rust"));
    assert!(!contains_str("rus", "rust"));
    assert!(contains_str("x", ""));
}

fn sent(c: Command) -> RedisRequest {
    match c {
        Command::Send(r) => r,
        other => panic!("expected a request, got {:?}", other),
    }
}

#[test]
fn parse_command_builds_requests() {
    let r = sent(parse_command("GeT zju"));
    assert_eq!(r.req_type, RequestType::Get);
    assert_eq!(r.key.as_deref(), Some("zju"));
    assert_eq!(r.value, None);
    let r = sent(parse_command("  set zju 1897 "));
    assert_eq!(r.req_type, RequestType::SetKey);
    assert_eq!(r.key.as_deref(), Some("zju"));
    assert_eq!(r.value.as_deref(), Some("1897"));
    let r = sent(parse_command("ping"));
    assert_eq!((r.req_type, r.key, r.value), (RequestType::Ping, None, None));
    let r = sent(parse_command("PING hello"));
    assert_eq!(r.value.as_deref(), Some("hello"));
    let r = sent(parse_command("del zju"));
    assert_eq!(r.req_type, RequestType::Del);
    let r = sent(parse_command("publish a b c"));
    assert_eq!((r.req_type, r.key, r.value), (RequestType::Publish, None, None));
    let r = sent(parse_command("Subscribe"));
    assert_eq!(r.req_type, RequestType::Subscribe);
    assert!(r.expire_time.is_none());
}

#[test]
fn parse_command_reports_other_lines() {
    assert!(matches!(parse_command(""), Command::Blank));
    assert!(matches!(parse_command("   "), Command::Blank));
    assert!(matches!(parse_command("get"), Command::WrongArgCount));
    assert!(matches!(parse_command("get a b"), Command::WrongArgCount));
    assert!(matches!(parse_command("set a"), Command::WrongArgCount));
    assert!(matches!(parse_command("ping a b"), Command::WrongArgCount));
    assert!(matches!(parse_command("del"), Command::WrongArgCount));
    assert!(matches!(parse_command("QUIT"), Command::Quit));
    assert!(matches!(parse_command("hello world"), Command::Unknown));
}

#[test]
fn kv_service_answers() {
    let mut s = kv::S::new();
    let r = s.redis_command(req(RequestType::Get, Some("zju"), None));
    assert_eq!(r.value.as_deref(), Some("(nil)"));
    let r = s.redis_command(req(RequestType::SetKey, Some("zju"), Some("1897")));
    assert_eq!(r.resp_type, ResponseType::Done);
    assert_eq!(r.value.as_deref(), Some("OK"));
    let r = s.redis_command(req(RequestType::Get, Some("zju"), None));
    assert_eq!(r.value.as_deref(), Some("1897"));
    let r = s.redis_command(req(RequestType::SetKey, Some("zju"), Some("1898")));
    assert_eq!(r.value.as_deref(), Some("OK"));
    let r = s.redis_command(req(RequestType::Get, Some("zju"), None));
    assert_eq!(r.value.as_deref(), Some("1898"));
    let r = s.redis_command(req(RequestType::Del, Some("zju"), None));
    assert_eq!(r.value.as_deref(), Some("(integer) 1"));
    let r = s.redis_command(req(RequestType::Del, Some("zju"), None));
    assert_eq!(r.value.as_deref(), Some("(integer) 0"));
    let r = s.redis_command(req(RequestType::Get, Some("zju"), None));
    assert_eq!(r.value.as_deref(), Some("(nil)"));
    let r = s.redis_command(req(RequestType::Ping, None, None));
    assert_eq!(r.value.as_deref(), Some("PONG"));
    let r = s.redis_command(req(RequestType::Ping, None, Some("hello")));
    assert_eq!(r.value.as_deref(), Some("hello"));
    let r = s.redis_command(req(RequestType::Publish, None, None));
    assert_eq!((r.resp_type, r.value), (ResponseType::Done, None));
    assert!(kv::is_complete(&req(RequestType::Ping, None, None)));
    assert!(!kv::is_complete(&req(RequestType::SetKey, Some("k"), None)));
}

#[test]
fn kv_filter_blocks_rust() {
    let f = kv::FilterLayer;
    assert!(f.blocks("RedisRequest { key: Some(\"rustacean\") }"));
    assert!(!f.blocks("RedisRequest { key: Some(\"Rust\") }"));
}

fn master_with_slaves() -> cluster::S {
    let mut s = cluster::S::new("22222.txt".to_string());
    s.set_port("22222");
    s.set_slave("8080".to_string());
    s.set_slave("9090".to_string());
    s
}

#[test]
fn master_writes_replicates_and_logs() {
    let mut m = master_with_slaves();
    assert!(m.is_master() && !m.is_slave() && !m.is_proxy());
    assert_eq!(m.port, "22222");
    let p = m.handle(&item("set", "zju", "1897"));
    assert!(p.response.status);
    assert_eq!((p.response.op.as_str(), p.response.key.as_str(), p.response.val.as_str()), ("set", " ", " "));
    assert_eq!(p.replicate.len(), 2);
    assert_eq!(p.replicate[0].port, "8080");
    assert_eq!(p.replicate[1].port, "9090");
    assert_eq!(p.replicate[1].request.op, "mset");
    assert_eq!(p.replicate[1].request.key, "zju");
    assert_eq!(p.replicate[1].request.val, "1897");
    assert_eq!(p.log_line.as_deref(), Some("set\tzju\t1897\n"));
    assert!(p.relay.is_none());

    let p = m.handle(&item("get", "zju", ""));
    assert!(p.response.status);
    assert_eq!(p.response.val, "1897");
    assert!(p.replicate.is_empty() && p.log_line.is_none());

    let p = m.handle(&item("del", "zju", ""));
    assert!(p.response.status);
    assert_eq!(p.replicate[0].request.op, "mdel");
    assert_eq!(p.log_line.as_deref(), Some("del\tzju\t\n"));

    let p = m.handle(&item("del", "zju", ""));
    assert!(!p.response.status);
    assert!(p.replicate.is_empty() && p.log_line.is_none());

    let p = m.handle(&item("get", "zju", ""));
    assert!(!p.response.status);
    assert_eq!(p.response.val, " ");

    let p = m.handle(&item("ping", "", ""));
    assert!(p.response.status);
}

#[test]
fn slave_applies_forwarded_writes_only() {
    let mut s = cluster::S::new("8080.txt".to_string());
    s.set_master("22222".to_string());
    assert!(s.is_slave() && !s.is_master());
    let p = s.handle(&item("set", "a", "1"));
    assert!(!p.response.status);
    assert!(!s.handle(&item("get", "a", "")).response.status);
    let p = s.handle(&item("mset", "a", "1"));
    assert!(p.response.status && p.replicate.is_empty() && p.log_line.is_none());
    assert_eq!(s.handle(&item("get", "a", "")).response.val, "1");
    assert!(s.handle(&item("mdel", "a", "")).response.status);
    assert!(!s.handle(&item("get", "a", "")).response.status);
    assert!(!s.handle(&item("del", "a", "")).response.status);
}

#[test]
fn replicas_agree_with_master() {
    let mut m = master_with_slaves();
    let mut r = cluster::S::new("8080.txt".to_string());
    r.set_master("22222".to_string());
    for (op, k, v) in [("set", "a", "1"), ("set", "b", "2"), ("del", "a", ""), ("set", "b", "3")] {
        let p = m.handle(&item(op, k, v));
        for f in p.replicate.iter().filter(|f| f.port == "8080") {
            r.handle(&f.request);
        }
    }
    for k in ["a", "b", "c"] {
        let x = m.handle(&item("get", k, "")).response;
        let y = r.handle(&item("get", k, "")).response;
        assert_eq!((x.status, x.val), (y.status, y.val));
    }
}

#[test]
fn proxy_routes_by_key() {
    let mut p = cluster::S::new("7777.txt".to_string());
    p.add_cluster("8080".to_string());
    p.add_cluster("9090".to_string());
    p.add_cluster("11111".to_string());
    assert!(p.is_proxy() && !p.is_master());
    let members = ["8080", "9090", "11111"];
    let mut seen = std::collections::HashSet::new();
    for i in 0..50 {
        let key = format!("key{}", i);
        let port = p.distr_port(key.clone());
        assert!(members.contains(&port.as_str()));
        assert_eq!(port, p.distr_port(key.clone()));
        seen.insert(port);
    }
    assert!(seen.len() > 1);

    let plan = p.handle(&item("set", "zju", "1897"));
    assert!(plan.response.status);
    let relay = plan.relay.unwrap();
    assert_eq!(relay.port, p.distr_port("zju".to_string()));
    assert_eq!(relay.request.op, "set");
    assert_eq!(relay.merge, Merge::Ignore);
    assert!(plan.replicate.is_empty() && plan.log_line.is_none());

    let plan = p.handle(&item("get", "zju", ""));
    assert!(!plan.response.status);
    assert_eq!(plan.relay.as_ref().unwrap().merge, Merge::TakeValue);
    let ok = ItemResponse { op: "get".into(), key: " ".into(), val: "1897".into(), status: true };
    let r = cluster::finish(plan.response.clone(), Merge::TakeValue, Some(ok.clone()));
    assert!(r.status);
    assert_eq!(r.val, "1897");
    let r = cluster::finish(plan.response.clone(), Merge::TakeValue, None);
    assert!(!r.status);
    let missing = ItemResponse { status: false, ..ok.clone() };
    let r = cluster::finish(plan.response.clone(), Merge::TakeValue, Some(missing.clone()));
    assert!(!r.status);
    assert_eq!(r.val, " ");

    let plan = p.handle(&item("del", "zju", ""));
    assert_eq!(plan.relay.as_ref().unwrap().merge, Merge::TakeStatus);
    assert!(cluster::finish(plan.response.clone(), Merge::TakeStatus, Some(ok.clone())).status);
    assert!(!cluster::finish(plan.response.clone(), Merge::TakeStatus, Some(missing)).status);
    let kept = cluster::finish(plan.response.clone(), Merge::Ignore, Some(ok));
    assert_eq!(kept.status, plan.response.status);
}

#[test]
fn channels_answer_and_log() {
    let r = item("subscribe", "news", "");
    let (resp, log) = cluster::subscribed(&r, Some("hello".to_string()));
    assert!(resp.status);
    assert_eq!((resp.op.as_str(), resp.val.as_str()), ("subscribe", "hello"));
    assert_eq!(log.as_deref(), Some("subscribe\tnews\t\n"));
    let (resp, log) = cluster::subscribed(&r, None);
    assert!(!resp.status && log.is_none());

    let r = item("publish", "news", "hello");
    let (resp, log) = cluster::published(&r, Some(3));
    assert!(resp.status);
    assert_eq!(resp.val, "3");
    assert_eq!(log.as_deref(), Some("publish\tnews\thello\n"));
    assert_eq!(cluster::published(&r, Some(300)).0.val, "44");
    let (resp, log) = cluster::published(&r, None);
    assert!(!resp.status && log.is_none());

    assert_eq!(cluster::byte_decimal(0), "0");
    assert_eq!(cluster::byte_decimal(42), "42");
    assert_eq!(cluster::byte_decimal(255), "255");
    assert_eq!(cluster::byte_decimal(100), "100");
}

#[test]
fn log_lines_replay() {
    assert!(cluster::is_known_op("mdel"));
    assert!(!cluster::is_known_op("SET"));
    assert!(cluster::has_log_fields("set\ta\t1"));
    assert!(cluster::has_log_fields("del\ta\t"));
    assert!(!cluster::has_log_fields("set\ta"));

    let mut m = master_with_slaves();
    let mut fresh = cluster::S::new("22222.txt".to_string());
    for (op, k, v) in [("set", "a", "1"), ("set", "b", "two words"), ("del", "a", ""), ("del", "zz", "")] {
        if let Some(line) = m.handle(&item(op, k, v)).log_line {
            fresh.replay_line(line.trim_end_matches('\n'));
        }
    }
    fresh.replay_line("other\tb\t9");
    for k in ["a", "b", "zz"] {
        let x = m.handle(&item("get", k, "")).response;
        let y = fresh.handle(&item("get", k, "")).response;
        assert_eq!((x.status, x.val), (y.status, y.val));
    }
}

#[test]
fn cluster_filter_blocks_three_words() {
    let f = cluster::FilterLayer;
    assert!(f.blocks("GetItemRequest { key: \"\u{539f}\u{795e}\" }"));
    assert!(f.blocks("x\u{64cd}\u{4f60}\u{5988}y"));
    assert!(!f.blocks("GetItemRequest { key: \"zju\" }"));
}

#[test]
fn finder_options() {
    assert_eq!(option_from_arg(Some("-d")), Some(Optional::D));
    assert_eq!(option_from_arg(Some("-f")), Some(Optional::F));
    assert_eq!(option_from_arg(None), Some(Optional::N));
    assert_eq!(option_from_arg(Some("-x")), None);
}

#[test]
fn finder_patterns_select_entries() {
    assert!(matches!(NamePattern::new("("), Err(PatternError::Invalid(_))));
    let p = NamePattern::new("[abc]").ok().unwrap();
    assert!(p.is_match("xbx"));
    assert!(!p.is_match("xyz"));
    assert!(selects(&p, Optional::N, Some("cat.txt"), false, true));
    assert!(!selects(&p, Optional::D, Some("cat.txt"), false, true));
    assert!(selects(&p, Optional::D, Some("abc"), true, false));
    assert!(!selects(&p, Optional::F, Some("abc"), true, false));
    assert!(!selects(&p, Optional::N, Some("zzz"), true, false));
    assert!(!selects(&p, Optional::N, None, true, false));
    let anchored = NamePattern::new("^main\\.rs$").ok().unwrap();
    assert!(anchored.is_match("main.rs"));
    assert!(!anchored.is_match("xmain.rs"));
}

#[test]
fn finder_sorts_paths() {
    let v = vec!["./b".to_string(), "./a/z".to_string(), "./a".to_string(), "./B".to_string(), "./a".to_string(), "./é".to_string()];
    let mut expected = v.clone();
    expected.sort();
    assert_eq!(sort_paths(v), expected);
    assert!(sort_paths(vec![]).is_empty());
}

#[test]
fn gateway_requests_and_replies() {
    let r = ping_key_request("hi".to_string());
    assert_eq!((r.req_type, r.key, r.value.as_deref()), (RequestType::Ping, None, Some("hi")));
    let r = get_key_request("zju".to_string());
    assert_eq!((r.req_type, r.key.as_deref(), r.value), (RequestType::Get, Some("zju"), None));
    let r = set_key_request("zju".to_string(), "1897".to_string());
    assert_eq!((r.req_type, r.key.as_deref(), r.value.as_deref()), (RequestType::SetKey, Some("zju"), Some("1897")));
    let r = del_key_request("zju".to_string());
    assert_eq!((r.req_type, r.key.as_deref()), (RequestType::Del, Some("zju")));
    assert!(r.expire_time.is_none());

    let ok = RedisResponse { resp_type: ResponseType::Done, value: Some("1897".to_string()) };
    assert_eq!(text_reply(Ok(ok.clone())), (200, "1897".to_string()));
    assert_eq!(text_reply(Err("down".to_string())), (404, "down".to_string()));
    assert_eq!(del_reply(Ok(ok)), (200, "Successful delete"));
    assert_eq!(del_reply(Err("down".to_string())), (404, "Delete error"));
}

#[test]
fn readme_commands() {
    let mut s = kv::S::new();
    for line in ["set zju 1897", "get zju", "del zju", "ping", "ping \"hello\""] {
        let r = sent(parse_command(line));
        assert!(kv::is_complete(&r));
        let resp = s.redis_command(r);
        let expected = match line {
            "set zju 1897" => "OK",
            "get zju" => "1897",
            "del zju" => "(integer) 1",
            "ping" => "PONG",
            _ => "\"hello\"",
        };
        assert_eq!(resp.value.as_deref(), Some(expected));
    }
    let blocked = sent(parse_command("get rust"));
    assert!(kv::FilterLayer.blocks(&format!("{:?}", blocked)));
}

#[test]
fn filters_answer_refusals() {
    assert_eq!(kv::FilterLayer.refusal("get rust").as_deref(), Some("\"rust\" is filtered."));
    assert_eq!(kv::FilterLayer.refusal("get zju"), None);
    assert_eq!(
        cluster::FilterLayer.refusal("x\u{50bb}\u{903c}").as_deref(),
        Some("你怎么骂人呢？给我刷了牙再来")
    );
    assert_eq!(cluster::FilterLayer.refusal("zju"), None);
}

#[test]
fn compare_string_is_a_strict_total_order() {
    let words = ["", "a", "b", "ab", "ba", "zz", "abc", "abd", "é"];
    for x in words {
        assert!(!compare_string(x, x));
        for y in words {
            if x != y {
                assert!(compare_string(x, y) != compare_string(y, x));
            }
            for z in words {
                if compare_string(x, y) && compare_string(y, z) {
                    assert!(compare_string(x, z));
                }
            }
        }
    }
}

#[test]
fn rc_ref_count_follows_the_run() {
    let mut r = MyRcRef::new(7);
    let ops = [true, true, false, true, false, false, true];
    let mut expected = 1;
    for inc in ops {
        if inc {
            r.inc();
            expected += 1;
        } else {
            r.dec();
            expected -= 1;
        }
        assert_eq!(r.get_cnt(), expected);
        assert_eq!(r.get_cnt(), r.get_cnt());
    }
    assert_eq!(r.get_cnt(), 1 + 4 - 3);
}

#[test]
fn restart_rebuilds_master_table() {
    let mut m = cluster::S::new("m.txt".to_string());
    let mut log = Vec::new();
    let history = [("set", "a", "1"), ("get", "a", ""), ("set", "b", "2"), ("del", "zz", ""), ("del", "a", ""), ("set", "b", "3"), ("set", "c", "x y")];
    for (op, k, v) in history {
        if let Some(line) = m.handle(&item(op, k, v)).log_line {
            log.push(line);
        }
    }
    let mut restarted = cluster::S::new("m.txt".to_string());
    for line in log.concat().lines() {
        assert!(cluster::has_log_fields(line));
        restarted.replay_line(line);
    }
    for k in ["a", "b", "c", "zz"] {
        let x = m.handle(&item("get", k, "")).response;
        let y = restarted.handle(&item("get", k, "")).response;
        assert_eq!((x.status, x.val), (y.status, y.val));
    }
}

#[test]
fn block_on_drains_every_task_before_second_poll() {
    for n in 0..5 {
        let (mut m, _) = BlockOn::start();
        assert_eq!(m.step(Event::MainPending), Action::PopTask);
        for _ in 0..n {
            assert_eq!(m.step(Event::TaskPopped), Action::PollTask);
            assert_eq!(m.step(Event::TaskPolled), Action::PopTask);
        }
        assert_eq!(m.step(Event::QueueEmpty), Action::PollMain);
        assert_eq!(m.step(Event::MainReady), Action::Finish);
    }
}

#[test]
fn signal_waiter_blocks_until_notified() {
    let mut s = Signal::new();
    assert_eq!(s.wait(), WaitStep::Block);
    assert!(s.is_waiting());
    assert!(s.is_waiting());
    s.notify();
    assert!(!s.is_waiting());
    s.notify();
    assert!(!s.is_waiting());
    assert_eq!(s.wait(), WaitStep::Proceed);
}
