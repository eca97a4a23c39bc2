use prodtunnel::known_hosts::{seconds_or_zero, host_key_id, known_host_entries, KnownHosts, ServerKeyVerdict, TrustedKey};
use prodtunnel::settings::{autostart_change, default_notifications_enabled, Settings, SettingsStore};

fn key(k: &str, at: u64) -> TrustedKey {
    TrustedKey { openssh_key: k.to_string(), fingerprint: format!("SHA256:{}", k), algorithm: "ssh-ed25519".to_string(), trusted_at: at }
}

#[test]
fn default_settings_values() {
    let s = Settings::default();
    assert_eq!(s.theme, "system");
    assert!(!s.autostart_enabled);
    assert_eq!(s.port_range_min, 1080);
    assert_eq!(s.port_range_max, 1179);
    assert!(s.notifications_enabled);
    assert!(default_notifications_enabled());
}

#[test]
fn settings_store_loads_defaults_when_nothing_stored() {
    let store = SettingsStore::load("/tmp/settings.json".to_string(), None);
    let s = store.get();
    assert_eq!(s.theme, "system");
    assert_eq!(s.port_range_max, 1179);
    assert_eq!(store.path(), "/tmp/settings.json");
}

#[test]
fn settings_get_after_update_returns_written() {
    let stored = Settings { theme: "dark".to_string(), autostart_enabled: true, port_range_min: 2000, port_range_max: 2100, notifications_enabled: false };
    let mut store = SettingsStore::load("p".to_string(), Some(stored));
    assert_eq!(store.get().theme, "dark");
    store.update(Settings { theme: "light".to_string(), autostart_enabled: false, port_range_min: 1, port_range_max: 2, notifications_enabled: true });
    let s = store.get();
    assert_eq!(s.theme, "light");
    assert!(!s.autostart_enabled);
    assert_eq!((s.port_range_min, s.port_range_max), (1, 2));
    assert!(s.notifications_enabled);
    assert_eq!(store.path(), "p");
}

#[test]
fn autostart_only_touched_on_change() {
    assert_eq!(autostart_change(true, true), None);
    assert_eq!(autostart_change(false, false), None);
    assert_eq!(autostart_change(true, false), Some(true));
    assert_eq!(autostart_change(false, true), Some(false));
}

#[test]
fn key_id_is_host_colon_port() {
    assert_eq!(host_key_id("example.com", 22), "example.com:22");
    assert_eq!(host_key_id("10.0.0.1", 2222), "10.0.0.1:2222");
    assert_eq!(host_key_id("::1", 0), "::1:0");
}

#[test]
fn unknown_host_is_none() {
    let store = KnownHosts::new("kh.json".to_string());
    assert_eq!(store.check("example.com:22", "ssh-ed25519 AAAA"), None);
    assert!(store.list().is_empty());
    assert_eq!(store.path(), "kh.json");
}

#[test]
fn trusted_key_matches_and_other_key_mismatches() {
    let mut store = KnownHosts::new("kh.json".to_string());
    store.trust_at("example.com:22", "ssh-ed25519 AAAA", "SHA256:x", "ssh-ed25519", 1700000000);
    assert_eq!(store.check("example.com:22", "ssh-ed25519 AAAA"), Some(true));
    assert_eq!(store.check("example.com:22", "ssh-ed25519 BBBB"), Some(false));
    assert_eq!(store.check("example.com:2222", "ssh-ed25519 AAAA"), None);
}

#[test]
fn trust_replaces_and_forget_removes() {
    let mut store = KnownHosts::new("kh.json".to_string());
    store.trust_at("b:22", "k1", "f1", "a1", 1);
    store.trust_at("a:22", "k2", "f2", "a2", 2);
    store.trust_at("b:22", "k3", "f3", "a3", 3);
    let list = store.list();
    assert_eq!(list.len(), 2);
    assert_eq!(list[0].0, "a:22");
    assert_eq!(list[1].0, "b:22");
    assert_eq!(list[1].1.openssh_key, "k3");
    assert_eq!(list[1].1.trusted_at, 3);
    store.forget("b:22");
    assert_eq!(store.check("b:22", "k3"), None);
    assert_eq!(store.check("a:22", "k2"), Some(true));
    store.forget("nothing:1");
    assert_eq!(store.list().len(), 1);
}

#[test]
fn list_is_sorted_by_key_id() {
    let mut store = KnownHosts::new("kh.json".to_string());
    for (i, k) in ["zeta:22", "alpha:22", "Mid:22", "beta:2222", "beta:22"].iter().enumerate() {
        store.trust_at(k, "key", "fp", "alg", i as u64);
    }
    let ids: Vec<String> = store.list().into_iter().map(|(k, _)| k).collect();
    assert_eq!(ids, vec!["Mid:22", "alpha:22", "beta:22", "beta:2222", "zeta:22"]);
}

#[test]
fn trust_uses_the_clock() {
    let mut store = KnownHosts::new("kh.json".to_string());
    store.trust("h:1", "k", "f", "a");
    let list = store.list();
    assert_eq!(list.len(), 1);
    assert!(list[0].1.trusted_at > 1_600_000_000);
    assert_eq!(list[0].1.fingerprint, "f");
}

#[test]
fn load_enters_each_entry() {
    let store = KnownHosts::load(
        "kh.json".to_string(),
        vec![("b:1".to_string(), key("kb", 1)), ("a:1".to_string(), key("ka", 2)), ("b:1".to_string(), key("kb2", 3))],
    );
    let list = store.list();
    assert_eq!(list.len(), 2);
    assert_eq!(list[0].0, "a:1");
    assert_eq!(list[1].1.openssh_key, "kb2");
}

#[test]
fn server_key_verdicts() {
    let mut store = KnownHosts::new("kh.json".to_string());
    assert_eq!(store.judge_server_key("srv", 22, "K"), ServerKeyVerdict::AskUser);
    assert!(!store.settle_new_server_key("srv", 22, "K", "fp", "alg", None));
    assert_eq!(store.judge_server_key("srv", 22, "K"), ServerKeyVerdict::AskUser);
    assert!(!store.settle_new_server_key("srv", 22, "K", "fp", "alg", Some(false)));
    assert!(store.list().is_empty());
    assert!(store.settle_new_server_key("srv", 22, "K", "fp", "alg", Some(true)));
    assert_eq!(store.judge_server_key("srv", 22, "K"), ServerKeyVerdict::Accept);
    assert_eq!(store.judge_server_key("srv", 22, "EVIL"), ServerKeyVerdict::Reject);
    assert_eq!(store.judge_server_key("srv", 23, "K"), ServerKeyVerdict::AskUser);
    assert_eq!(store.list()[0].0, "srv:22");
}

#[test]
fn known_host_rows_for_display() {
    let rows = known_host_entries(vec![("a:1".to_string(), key("ka", 5)), ("b:2".to_string(), key("kb", 6))]);
    assert_eq!(rows.len(), 2);
    assert_eq!(rows[0].key_id, "a:1");
    assert_eq!(rows[0].fingerprint, "SHA256:ka");
    assert_eq!(rows[0].algorithm, "ssh-ed25519");
    assert_eq!(rows[1].trusted_at, 6);
}

fn listing(store: &KnownHosts) -> Vec<(String, String, u64)> {
    store.list().into_iter().map(|(k, t)| (k, t.openssh_key, t.trusted_at)).collect()
}

#[test]
fn forget_leaves_the_other_entries_in_order() {
    let mut store = KnownHosts::new("kh.json".to_string());
    store.trust_at("c:22", "kc", "fc", "a", 3);
    store.trust_at("a:22", "ka", "fa", "a", 1);
    store.trust_at("b:22", "kb", "fb", "a", 2);
    store.forget("b:22");
    assert_eq!(listing(&store), vec![("a:22".to_string(), "ka".to_string(), 1), ("c:22".to_string(), "kc".to_string(), 3)]);
    store.forget("b:22");
    assert_eq!(listing(&store).len(), 2);
    assert_eq!(store.check("b:22", "kb"), None);
}

#[test]
fn trust_then_forget_restores_the_listing() {
    let mut store = KnownHosts::new("kh.json".to_string());
    store.trust_at("a:22", "ka", "fa", "a", 1);
    store.trust_at("c:22", "kc", "fc", "a", 3);
    let before = listing(&store);
    store.trust_at("b:22", "kb", "fb", "a", 2);
    store.forget("b:22");
    assert_eq!(listing(&store), before);
}

#[test]
fn loading_a_listing_gives_it_back() {
    let mut store = KnownHosts::new("kh.json".to_string());
    store.trust_at("z:1", "kz", "fz", "alg", 9);
    store.trust_at("m:2", "km", "fm", "alg", 8);
    let reloaded = KnownHosts::load("kh.json".to_string(), store.list());
    assert_eq!(listing(&reloaded), listing(&store));
    assert_eq!(reloaded.path(), "kh.json");
    let empty = KnownHosts::load("kh.json".to_string(), vec![]);
    assert!(empty.list().is_empty());
}

#[test]
fn trust_stamps_are_epoch_seconds_or_zero() {
    assert_eq!(seconds_or_zero(Some(1_700_000_000)), 1_700_000_000);
    assert_eq!(seconds_or_zero(Some(0)), 0);
    assert_eq!(seconds_or_zero(None), 0);
}

#[test]
fn saved_entries_load_back_in_any_order() {
    let mut store = KnownHosts::new("kh.json".to_string());
    store.trust_at("b:22", "kb", "fb", "alg", 2);
    store.trust_at("c:22", "kc", "fc", "alg", 3);
    store.trust_at("a:22", "ka", "fa", "alg", 1);
    let mut saved = store.list();
    saved.reverse();
    saved.swap(0, 1);
    let reloaded = KnownHosts::load("kh.json".to_string(), saved);
    assert_eq!(listing(&reloaded), listing(&store));
    let mut twice = store.list();
    twice.extend(store.list());
    let reloaded = KnownHosts::load("kh.json".to_string(), twice);
    assert_eq!(listing(&reloaded), listing(&store));
}
