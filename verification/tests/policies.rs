use system_bridge::BridgeError;
use system_bridge::CallbackId;
use system_bridge::Delivery;
use system_bridge::Payload;
use system_bridge::SystemBridge;
use system_bridge::TimerCmd;

fn cb(id: u64) -> CallbackId {
    CallbackId { id }
}

fn pl(token: u64) -> Payload {
    Payload { token }
}

fn d(listener: u64, payload: u64) -> Delivery {
    Delivery { listener: cb(listener), payload: pl(payload) }
}

fn scheduled_token(cmds: &[TimerCmd]) -> u64 {
    for c in cmds {
        if let TimerCmd::Schedule { token, .. } = c {
            return *token;
        }
    }
    panic!("no schedule command");
}

#[test]
fn debounce_config_rejects_zero_interval() {
    let mut b = SystemBridge::new(4).unwrap();
    assert_eq!(b.delayed_broadcast("e".to_string(), 0).err(), Some(BridgeError::Configuration));
}

#[test]
fn throttle_config_rejects_zero_interval() {
    let mut b = SystemBridge::new(4).unwrap();
    assert_eq!(b.paced_broadcast("e".to_string(), 0).err(), Some(BridgeError::Configuration));
}

#[test]
fn debounce_defers_and_accumulates_until_the_last_timer_fires() {
    let mut b = SystemBridge::new(8).unwrap();
    b.delayed_broadcast("e".to_string(), 40).unwrap();
    b.add_listener("e".to_string(), cb(1));
    // Three broadcasts inside the quiet interval: nothing delivered yet,
    // each re-arming cancels the previous timer.
    let o1 = b.broadcast("e".to_string(), pl(1)).unwrap();
    let o2 = b.broadcast("e".to_string(), pl(2)).unwrap();
    let o3 = b.broadcast("e".to_string(), pl(3)).unwrap();
    assert_eq!(o1.deliveries, vec![]);
    assert_eq!(o2.deliveries, vec![]);
    assert_eq!(o3.deliveries, vec![]);
    assert_eq!(b.queued_payloads("e"), vec![pl(1), pl(2), pl(3)]);
    let t1 = scheduled_token(&o1.timer_cmds);
    let t2 = scheduled_token(&o2.timer_cmds);
    let t3 = scheduled_token(&o3.timer_cmds);
    assert_eq!(o2.timer_cmds[0], TimerCmd::Cancel { token: t1 });
    assert_eq!(o3.timer_cmds[0], TimerCmd::Cancel { token: t2 });
    // Only the last armed timer flushes, carrying all three payloads.
    let fired = b.on_postpone_fired("e".to_string(), t3);
    assert_eq!(fired, vec![d(1, 1), d(1, 2), d(1, 3)]);
    assert_eq!(b.queued_payloads("e"), vec![]);
}

#[test]
fn canceled_debounce_timer_does_not_flush() {
    let mut b = SystemBridge::new(8).unwrap();
    b.delayed_broadcast("e".to_string(), 40).unwrap();
    b.add_listener("e".to_string(), cb(1));
    let o1 = b.broadcast("e".to_string(), pl(1)).unwrap();
    let t1 = scheduled_token(&o1.timer_cmds);
    let _o2 = b.broadcast("e".to_string(), pl(2)).unwrap();
    // The first timer was canceled; a stray firing under its token is ignored.
    let fired = b.on_postpone_fired("e".to_string(), t1);
    assert_eq!(fired, vec![]);
    assert_eq!(b.queued_payloads("e"), vec![pl(1), pl(2)]);
}

#[test]
fn debounce_flush_delivers_to_listeners_current_at_fire_time() {
    let mut b = SystemBridge::new(8).unwrap();
    b.delayed_broadcast("e".to_string(), 40).unwrap();
    b.add_listener("e".to_string(), cb(1));
    let o = b.broadcast("e".to_string(), pl(1)).unwrap();
    let t = scheduled_token(&o.timer_cmds);
    // Registry changes between the broadcast and the firing are honoured.
    b.add_listener("e".to_string(), cb(2));
    let fired = b.on_postpone_fired("e".to_string(), t);
    assert_eq!(fired, vec![d(1, 1), d(2, 1)]);
}

#[test]
fn throttle_first_broadcast_flushes_and_opens_cooldown() {
    let mut b = SystemBridge::new(8).unwrap();
    b.paced_broadcast("e".to_string(), 50).unwrap();
    b.add_listener("e".to_string(), cb(1));
    let o1 = b.broadcast("e".to_string(), pl(1)).unwrap();
    assert_eq!(o1.deliveries, vec![d(1, 1)]);
    assert_eq!(o1.timer_cmds.len(), 1);
    match o1.timer_cmds[0] {
        TimerCmd::Schedule { delay_ms, .. } => assert_eq!(delay_ms, 50),
        _ => panic!("expected a schedule command"),
    }
    // During cooldown payloads queue up, undelivered, with no timer work.
    let o2 = b.broadcast("e".to_string(), pl(2)).unwrap();
    let o3 = b.broadcast("e".to_string(), pl(3)).unwrap();
    assert_eq!(o2.deliveries, vec![]);
    assert_eq!(o2.timer_cmds, vec![]);
    assert_eq!(o3.deliveries, vec![]);
    assert_eq!(b.queued_payloads("e"), vec![pl(2), pl(3)]);
}

#[test]
fn throttle_cooldown_end_alone_flushes_nothing() {
    let mut b = SystemBridge::new(8).unwrap();
    b.paced_broadcast("e".to_string(), 50).unwrap();
    b.add_listener("e".to_string(), cb(1));
    let o1 = b.broadcast("e".to_string(), pl(1)).unwrap();
    let t = scheduled_token(&o1.timer_cmds);
    b.broadcast("e".to_string(), pl(2)).unwrap();
    // The cooldown ends; queued payloads stay queued until the next broadcast.
    b.on_pace_fired("e".to_string(), t);
    assert_eq!(b.queued_payloads("e"), vec![pl(2)]);
}

#[test]
fn throttle_broadcast_after_cooldown_flushes_backlog_and_restarts() {
    let mut b = SystemBridge::new(8).unwrap();
    b.paced_broadcast("e".to_string(), 50).unwrap();
    b.add_listener("e".to_string(), cb(1));
    let o1 = b.broadcast("e".to_string(), pl(1)).unwrap();
    let t1 = scheduled_token(&o1.timer_cmds);
    b.broadcast("e".to_string(), pl(2)).unwrap();
    b.on_pace_fired("e".to_string(), t1);
    // Strictly after cooldown: immediate flush of the backlog plus the new
    // payload, and a fresh cooldown window.
    let o3 = b.broadcast("e".to_string(), pl(3)).unwrap();
    assert_eq!(o3.deliveries, vec![d(1, 2), d(1, 3)]);
    let t2 = scheduled_token(&o3.timer_cmds);
    assert_ne!(t1, t2);
    let o4 = b.broadcast("e".to_string(), pl(4)).unwrap();
    assert_eq!(o4.deliveries, vec![]);
}

#[test]
fn debounce_takes_precedence_over_throttle() {
    let mut b = SystemBridge::new(8).unwrap();
    b.delayed_broadcast("e".to_string(), 30).unwrap();
    b.paced_broadcast("e".to_string(), 50).unwrap();
    b.add_listener("e".to_string(), cb(1));
    let o = b.broadcast("e".to_string(), pl(1)).unwrap();
    // The debounce branch runs: no immediate delivery, a flush timer armed.
    assert_eq!(o.deliveries, vec![]);
    assert_eq!(o.timer_cmds.len(), 1);
    assert_eq!(b.queued_payloads("e"), vec![pl(1)]);
}

#[test]
fn bounded_queue_under_debounce_keeps_the_newest() {
    let mut b = SystemBridge::new(2).unwrap();
    b.delayed_broadcast("e".to_string(), 30).unwrap();
    b.add_listener("e".to_string(), cb(1));
    let mut last = 0u64;
    for token in 1..=5 {
        let o = b.broadcast("e".to_string(), pl(token)).unwrap();
        last = scheduled_token(&o.timer_cmds);
    }
    // Five broadcasts, capacity two: the oldest three were dropped.
    let fired = b.on_postpone_fired("e".to_string(), last);
    assert_eq!(fired, vec![d(1, 4), d(1, 5)]);
}

#[test]
fn async_dispatch_invokes_snapshot_in_order() {
    let mut b = SystemBridge::new(4).unwrap();
    b.add_listener("e".to_string(), cb(1));
    b.add_listener("e".to_string(), cb(2));
    let mut dsp = b.broadcast_async("e".to_string(), pl(9));
    assert_eq!(dsp.next_listener(), Some((cb(1), pl(9))));
    dsp.complete(true);
    assert_eq!(dsp.next_listener(), Some((cb(2), pl(9))));
    dsp.complete(true);
    assert_eq!(dsp.next_listener(), None);
    assert!(dsp.settled());
    assert!(dsp.ok());
}

#[test]
fn async_failure_skips_remaining_listeners() {
    let mut b = SystemBridge::new(4).unwrap();
    b.add_listener("e".to_string(), cb(1));
    b.add_listener("e".to_string(), cb(2));
    b.add_listener("e".to_string(), cb(3));
    let mut dsp = b.broadcast_async("e".to_string(), pl(9));
    // The first listener is invoked and completes.
    assert_eq!(dsp.next_listener(), Some((cb(1), pl(9))));
    dsp.complete(true);
    // The second fails: the dispatch settles, the third is never handed out.
    assert_eq!(dsp.next_listener(), Some((cb(2), pl(9))));
    dsp.complete(false);
    assert_eq!(dsp.next_listener(), None);
    assert!(dsp.settled());
    assert!(!dsp.ok());
}

#[test]
fn async_dispatch_uses_a_snapshot_not_the_live_registry() {
    let mut b = SystemBridge::new(4).unwrap();
    b.add_listener("e".to_string(), cb(1));
    let mut dsp = b.broadcast_async("e".to_string(), pl(9));
    // Changes after the call do not reach the in-flight dispatch.
    b.add_listener("e".to_string(), cb(2));
    b.remove_listener("e".to_string(), cb(1));
    assert_eq!(dsp.snapshot_len(), 1);
    assert_eq!(dsp.next_listener(), Some((cb(1), pl(9))));
    dsp.complete(true);
    assert_eq!(dsp.next_listener(), None);
    assert!(dsp.ok());
}

#[test]
fn async_dispatch_of_unknown_event_settles_at_once() {
    let b = SystemBridge::new(4).unwrap();
    let dsp = b.broadcast_async("nobody".to_string(), pl(1));
    assert_eq!(dsp.next_listener(), None);
    assert!(dsp.settled());
    assert!(dsp.ok());
}
