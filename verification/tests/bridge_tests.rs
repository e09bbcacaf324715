use tick_bridge::bridge::Bridge;
use tick_bridge::bridge::BridgeClosed;
use tick_bridge::bridge::Continuation;
use tick_bridge::lifecycle::TaskRuntime;
use tick_bridge::registry::Registry;
use tick_bridge::router::route;
use tick_bridge::router::str_eq;
use tick_bridge::router::Method;
use tick_bridge::scheduler::execute_continuation;
use tick_bridge::scheduler::frame_tick;
use tick_bridge::scheduler::run_tick;
use tick_bridge::scheduler::MainThreadContext;

#[test]
fn drains_are_fifo_and_never_repeat_a_message() {
    let mut b = Bridge::new();
    assert_eq!(b.submit(Continuation::Touch), Ok(0));
    assert_eq!(b.submit(Continuation::Touch), Ok(1));
    assert_eq!(b.submit(Continuation::Touch), Ok(2));

    let first: Vec<u64> = b.drain(2).iter().map(|m| m.msg_id).collect();
    assert_eq!(first, vec![0, 1]);
    let second: Vec<u64> = b.drain(5).iter().map(|m| m.msg_id).collect();
    assert_eq!(second, vec![2]);
    for a in &first {
        assert!(!second.contains(a));
    }
    assert!(b.drain(5).is_empty());
}

#[test]
fn a_tick_executes_at_most_its_budget() {
    let mut b = Bridge::new();
    let mut ctx = MainThreadContext::new();
    for _ in 0..5 {
        b.submit(Continuation::Touch).unwrap();
    }
    let done = run_tick(&mut b, &mut ctx, 2);
    assert_eq!(done.len(), 2);
    assert_eq!(done[0].msg_id, 0);
    assert_eq!(done[1].msg_id, 1);
    assert_eq!(ctx.touches, 2);
    assert_eq!(b.pending.len(), 3);

    let rest = run_tick(&mut b, &mut ctx, 10);
    assert_eq!(rest.len(), 3);
    assert_eq!(ctx.touches, 5);
    assert_eq!(b.pending.len(), 0);
}

#[test]
fn close_rejects_every_pending_message() {
    let mut b = Bridge::new();
    b.submit(Continuation::Touch).unwrap();
    b.submit(Continuation::Touch).unwrap();
    let rejected: Vec<u64> = b.close().iter().map(|m| m.msg_id).collect();
    assert_eq!(rejected, vec![0, 1]);
    assert_eq!(b.pending.len(), 0);
    assert!(b.closed);
    assert_eq!(b.submit(Continuation::Touch), Err(BridgeClosed));
    // Nothing drains after a close: the rejected messages do not return.
    assert!(b.drain(10).is_empty());
}

#[test]
fn a_completion_names_the_message_it_ran() {
    let mut b = Bridge::new();
    let mut ctx = MainThreadContext::new();
    b.submit(Continuation::Touch).unwrap();
    let msgs = b.drain(1);
    let done = execute_continuation(&mut ctx, &msgs[0]);
    assert_eq!(done.msg_id, msgs[0].msg_id);
    assert_eq!(ctx.touches, 1);
}

#[test]
fn a_frame_tick_promotes_jobs_then_drains_the_bridge() {
    let mut reg = Registry::new();
    let mut rt = TaskRuntime::new();
    let mut b = Bridge::new();
    let mut ctx = MainThreadContext::new();
    assert!(reg.submit_request(1, 3000));
    b.submit(Continuation::Touch).unwrap();
    b.submit(Continuation::Touch).unwrap();

    let report = frame_tick(&mut reg, &mut rt, &mut b, &mut ctx, 1);
    assert_eq!(report.orders.len(), 1);
    assert_eq!(report.orders[0].port, 3000);
    assert_eq!(report.completions.len(), 1);
    assert_eq!(report.completions[0].msg_id, 0);
    assert_eq!(b.pending.len(), 1);
    assert_eq!(ctx.touches, 1);
}

#[test]
fn route_matches_exactly_get_and_post_on_root() {
    let get = route(Method::Get, "/");
    assert_eq!(get.status, 200);
    assert_eq!(get.body, "hello GET");
    assert!(get.main_thread_trip);

    let post = route(Method::Post, "/");
    assert_eq!(post.status, 200);
    assert_eq!(post.body, "hello POST");
    assert!(post.main_thread_trip);

    let other = route(Method::Other, "/");
    assert_eq!(other.status, 404);
    assert_eq!(other.body, "");
    assert!(!other.main_thread_trip);

    let off_root = route(Method::Post, "/missing");
    assert_eq!(off_root.status, 404);
    assert!(!off_root.main_thread_trip);

    let empty = route(Method::Get, "");
    assert_eq!(empty.status, 404);
}

#[test]
fn str_eq_compares_by_characters() {
    assert!(str_eq("/", "/"));
    assert!(str_eq("", ""));
    assert!(!str_eq("/", "/x"));
    assert!(!str_eq("/a", "/b"));
    assert!(str_eq("héllo", "héllo"));
    assert!(!str_eq("héllo", "hello"));
}

#[test]
fn submission_near_the_id_limit_still_works() {
    let mut b = Bridge {
        closed: false,
        retired: u64::MAX - 1,
        next_id: u64::MAX - 1,
        pending: Vec::new(),
    };
    assert_eq!(b.submit(Continuation::Touch), Ok(u64::MAX - 1));
    assert_eq!(b.pending.len(), 1);
}
