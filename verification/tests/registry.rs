use pluggie::internal_pluggie_context::{ChannelFunc, InternalPluggieCtx};
use pluggie::logging::LogLevel;
use pluggie::plugin::{PluginId, PluginInfo};

fn info(name: &str) -> PluginInfo {
    PluginInfo {
        name: name.to_string(),
        version: "1.0.0".to_string(),
        author: "someone".to_string(),
        pluggie_version: pluggie::VERSION,
    }
}

fn ctx_with(names: &[&str]) -> InternalPluggieCtx {
    InternalPluggieCtx::new(names.iter().map(|n| info(n)).collect())
}

const EVENT_A: [u8; 32] = [1; 32];
const EVENT_B: [u8; 32] = [2; 32];

fn handlers(subs: &[ChannelFunc]) -> Vec<usize> {
    subs.iter().map(|s| s.handler).collect()
}

#[test]
fn plugins_are_numbered_from_one_in_load_order() {
    let ctx = ctx_with(&["alpha", "beta", "gamma"]);
    let ids = ctx.plugin_ids();
    let values: Vec<u32> = ids.iter().map(|id| id.value()).collect();
    assert_eq!(values, vec![1, 2, 3]);
    assert_eq!(ctx.plugin_index(ids[0]), Some(0));
    assert_eq!(ctx.plugin_index(ids[2]), Some(2));
    assert_eq!(ctx.get_plugin(ids[1]).unwrap().name, "beta");
}

#[test]
fn host_identity_names_no_plugin() {
    let ctx = ctx_with(&["alpha"]);
    let host = PluginId::pluggie_id();
    assert_eq!(host.value(), 0);
    assert_eq!(ctx.plugin_index(host), None);
    assert!(ctx.get_plugin(host).is_none());
}

#[test]
fn identities_of_another_host_beyond_the_count_name_no_plugin() {
    let big = ctx_with(&["a", "b", "c"]);
    let small = ctx_with(&["a"]);
    let third = big.plugin_ids()[2];
    assert_eq!(small.plugin_index(third), None);
}

#[test]
fn no_plugins_gives_no_identities() {
    let ctx = ctx_with(&[]);
    assert!(ctx.plugin_ids().is_empty());
}

#[test]
fn subscribers_run_by_priority_then_subscription_order() {
    let mut ctx = ctx_with(&["alpha"]);
    let id = ctx.plugin_ids()[0];
    ctx.subscribe(EVENT_A, 1, 0, id);
    ctx.subscribe(EVENT_A, 2, 5, id);
    ctx.subscribe(EVENT_A, 3, 0, id);
    ctx.subscribe(EVENT_A, 4, 10, id);
    ctx.subscribe(EVENT_A, 5, 5, id);
    ctx.subscribe(EVENT_A, 6, -3, id);
    let subs = ctx.subscribers(EVENT_A);
    assert_eq!(handlers(&subs), vec![4, 2, 5, 1, 3, 6]);
    let prios: Vec<i32> = subs.iter().map(|s| s.priority).collect();
    assert_eq!(prios, vec![10, 5, 5, 0, 0, -3]);
    assert!(subs.iter().all(|s| s.plugin_id == id));
}

#[test]
fn subscribing_to_one_channel_leaves_the_others() {
    let mut ctx = ctx_with(&["alpha"]);
    let id = ctx.plugin_ids()[0];
    ctx.subscribe(EVENT_A, 1, 0, id);
    ctx.subscribe(EVENT_B, 2, 0, id);
    ctx.subscribe(EVENT_A, 3, 7, id);
    assert_eq!(handlers(&ctx.subscribers(EVENT_A)), vec![3, 1]);
    assert_eq!(handlers(&ctx.subscribers(EVENT_B)), vec![2]);
}

#[test]
fn registering_keeps_earlier_subscribers() {
    let mut ctx = ctx_with(&["alpha"]);
    let id = ctx.plugin_ids()[0];
    ctx.subscribe(EVENT_A, 9, 1, id);
    let sender = ctx.register_event(EVENT_A);
    assert_eq!(sender.name_hash, EVENT_A);
    assert_eq!(sender.call_order(&ctx), vec![9]);
    let again = ctx.register_event(EVENT_A);
    assert_eq!(again.call_order(&ctx), vec![9]);
}

#[test]
fn sender_sees_later_subscribers() {
    let mut ctx = ctx_with(&["alpha", "beta"]);
    let ids = ctx.plugin_ids();
    let sender = ctx.register_event(EVENT_B);
    assert!(sender.call_order(&ctx).is_empty());
    ctx.subscribe(EVENT_B, 20, 0, ids[0]);
    ctx.subscribe(EVENT_B, 21, 3, ids[1]);
    assert_eq!(sender.call_order(&ctx), vec![21, 20]);
}

#[test]
fn unknown_channel_has_no_subscribers() {
    let ctx = ctx_with(&[]);
    assert!(ctx.subscribers(EVENT_A).is_empty());
}

#[test]
fn exposed_value_is_read_back() {
    let mut ctx = ctx_with(&[]);
    assert_eq!(ctx.get(EVENT_A), None);
    ctx.expose(EVENT_A, 42);
    assert_eq!(ctx.get(EVENT_A), Some(42));
    assert_eq!(ctx.get(EVENT_B), None);
}

#[test]
fn exposing_again_replaces_the_value() {
    let mut ctx = ctx_with(&[]);
    ctx.expose(EVENT_A, 1);
    ctx.expose(EVENT_B, 2);
    ctx.expose(EVENT_A, 3);
    assert_eq!(ctx.get(EVENT_A), Some(3));
    assert_eq!(ctx.get(EVENT_B), Some(2));
}

#[test]
fn exposing_does_not_open_channels() {
    let mut ctx = ctx_with(&[]);
    ctx.expose(EVENT_A, 1);
    assert!(ctx.subscribers(EVENT_A).is_empty());
}

#[test]
fn log_line_names_the_plugin() {
    let ctx = ctx_with(&["alpha", "beta"]);
    let ids = ctx.plugin_ids();
    assert_eq!(
        ctx.log_line_for(ids[1], LogLevel::Warn, "low on disk"),
        Some("WARN [beta]: low on disk".to_string())
    );
    assert_eq!(
        ctx.log_line_for(ids[0], LogLevel::Info, ""),
        Some("INFO [alpha]: ".to_string())
    );
    assert_eq!(ctx.log_line_for(PluginId::pluggie_id(), LogLevel::Fatal, "x"), None);
}

#[test]
fn plugin_versions_are_checked() {
    let mut p = info("alpha");
    assert!(p.is_compatible());
    p.pluggie_version = pluggie::VERSION + 1;
    assert!(!p.is_compatible());
}
