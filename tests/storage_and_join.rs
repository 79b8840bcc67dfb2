use std::collections::HashMap;

use wifi_provisioning::credentials::{wipe_buffer, Credentials, FIELD_BUFFER_LEN};
use wifi_provisioning::join::{auth_mode_for, pick_channel, plan_join, AuthMode, JoinError, ScanEntry};
use wifi_provisioning::portal::{boot_path, BootPath, ProvisioningSession, Reply, AP_PASSWORD};
use wifi_provisioning::storage::{
    clear_plan, provisioned_from_read, store_plan, LoadRun, NvsOp, PlanRun, StoreError, TextKey,
    FLAG_CLEAR, FLAG_SET, KEY_PROVISIONED, NVS_NAMESPACE,
};

/// An in-memory key-value store that can be told to fail at a given write.
struct MemStore {
    texts: HashMap<String, String>,
    bytes: HashMap<String, u8>,
    writes: usize,
    fail_at: Option<usize>,
}

impl MemStore {
    fn new() -> MemStore {
        MemStore { texts: HashMap::new(), bytes: HashMap::new(), writes: 0, fail_at: None }
    }

    fn run(&mut self, plan: Vec<NvsOp>, src: &Credentials) -> Result<(), StoreError> {
        let mut run = PlanRun::new(plan);
        while let Some(op) = run.next_op() {
            if self.fail_at == Some(self.writes) {
                run.record(Err(StoreError::Backend(-1)));
                continue;
            }
            self.writes += 1;
            match op {
                NvsOp::Text(k) => {
                    self.texts.insert(k.name().to_string(), src.field(k).to_string());
                }
                NvsOp::Blank(k) => {
                    self.texts.insert(k.name().to_string(), String::new());
                }
                NvsOp::Flag(v) => {
                    self.bytes.insert(KEY_PROVISIONED.to_string(), v);
                }
            }
            run.record(Ok(()));
        }
        run.finish()
    }

    fn flag_read(&self) -> Result<Option<u8>, StoreError> {
        Ok(self.bytes.get(KEY_PROVISIONED).copied())
    }

    fn is_provisioned(&self) -> bool {
        provisioned_from_read(self.flag_read())
    }

    fn load(&self) -> Result<Credentials, StoreError> {
        let mut run = LoadRun::start(self.flag_read())?;
        let mut buf = [0u8; 256];
        while let Some(k) = run.next_key() {
            let read = self.texts.get(k.name()).map(|s| s.as_str());
            run.take(Ok(read));
            buf[0] = 1;
            wipe_buffer(&mut buf);
        }
        run.finish()
    }
}

fn record() -> Credentials {
    Credentials::new("HomeNet".to_string(), "hunter22".to_string(), "tok-1".to_string(), "dev-9".to_string())
}

#[test]
fn key_layout() {
    assert_eq!(NVS_NAMESPACE, "credentials");
    assert_eq!(KEY_PROVISIONED, "provisioned");
    assert_eq!(TextKey::WifiSsid.name(), "wifi_ssid");
    assert_eq!(TextKey::WifiPass.name(), "wifi_pass");
    assert_eq!(TextKey::ApiKey.name(), "api_key");
    assert_eq!(TextKey::DeviceId.name(), "device_id");
}

#[test]
fn store_plan_clears_flag_first_and_sets_it_last() {
    assert_eq!(
        store_plan(),
        vec![
            NvsOp::Flag(FLAG_CLEAR),
            NvsOp::Text(TextKey::WifiSsid),
            NvsOp::Text(TextKey::WifiPass),
            NvsOp::Text(TextKey::ApiKey),
            NvsOp::Text(TextKey::DeviceId),
            NvsOp::Flag(FLAG_SET),
        ]
    );
    assert_eq!(
        clear_plan(),
        vec![
            NvsOp::Flag(FLAG_CLEAR),
            NvsOp::Blank(TextKey::WifiSsid),
            NvsOp::Blank(TextKey::WifiPass),
            NvsOp::Blank(TextKey::ApiKey),
            NvsOp::Blank(TextKey::DeviceId),
        ]
    );
}

#[test]
fn plan_run_stops_at_first_failure() {
    let mut run = PlanRun::new(store_plan());
    assert_eq!(run.next_op(), Some(NvsOp::Flag(FLAG_CLEAR)));
    run.record(Ok(()));
    assert_eq!(run.next_op(), Some(NvsOp::Text(TextKey::WifiSsid)));
    run.record(Ok(()));
    assert_eq!(run.next_op(), Some(NvsOp::Text(TextKey::WifiPass)));
    run.record(Err(StoreError::Backend(7)));
    assert_eq!(run.next_op(), None);
    assert_eq!(run.finish(), Err(StoreError::Backend(7)));
}

#[test]
fn plan_run_completes() {
    let mut run = PlanRun::new(clear_plan());
    let mut n = 0;
    while let Some(_) = run.next_op() {
        run.record(Ok(()));
        n += 1;
    }
    assert_eq!(n, 5);
    assert_eq!(run.finish(), Ok(()));
}

#[test]
fn status_read_cases() {
    assert!(provisioned_from_read(Ok(Some(1))));
    assert!(!provisioned_from_read(Ok(Some(0))));
    assert!(!provisioned_from_read(Ok(Some(2))));
    assert!(!provisioned_from_read(Ok(None)));
    assert!(!provisioned_from_read(Err(StoreError::Backend(-5))));
}

#[test]
fn status_read_is_repeatable() {
    let mut s = MemStore::new();
    let first = s.is_provisioned();
    for _ in 0..5 {
        assert_eq!(s.is_provisioned(), first);
    }
    s.run(store_plan(), &record()).unwrap();
    let now = s.is_provisioned();
    assert!(now);
    for _ in 0..5 {
        assert_eq!(s.is_provisioned(), now);
    }
}

#[test]
fn load_refused_when_not_provisioned() {
    assert_eq!(LoadRun::start(Ok(None)).err(), Some(StoreError::NotProvisioned));
    assert_eq!(LoadRun::start(Ok(Some(0))).err(), Some(StoreError::NotProvisioned));
    assert_eq!(LoadRun::start(Err(StoreError::Backend(3))).err(), Some(StoreError::NotProvisioned));
    assert!(LoadRun::start(Ok(Some(1))).is_ok());
    let s = MemStore::new();
    assert_eq!(s.load().err(), Some(StoreError::NotProvisioned));
}

#[test]
fn load_run_reads_keys_in_order() {
    let mut run = LoadRun::start(Ok(Some(1))).ok().unwrap();
    assert_eq!(run.next_key(), Some(TextKey::WifiSsid));
    run.take(Ok(Some("Net\0\0")));
    assert_eq!(run.next_key(), Some(TextKey::WifiPass));
    run.take(Ok(None));
    assert_eq!(run.next_key(), Some(TextKey::ApiKey));
    run.take(Ok(Some("k")));
    assert_eq!(run.next_key(), Some(TextKey::DeviceId));
    run.take(Ok(Some("d")));
    assert_eq!(run.next_key(), None);
    let c = run.finish().ok().unwrap();
    assert_eq!(c.wifi_ssid, "Net");
    assert_eq!(c.wifi_password, "");
    assert_eq!(c.api_key, "k");
    assert_eq!(c.device_id, "d");
}

#[test]
fn load_run_stops_at_failed_read() {
    let mut run = LoadRun::start(Ok(Some(1))).ok().unwrap();
    run.take(Ok(Some("Net")));
    run.take(Err(StoreError::Backend(9)));
    assert_eq!(run.next_key(), None);
    assert_eq!(run.finish().err(), Some(StoreError::Backend(9)));
}

#[test]
fn store_then_load_round_trip() {
    let mut s = MemStore::new();
    let mut r = record();
    s.run(store_plan(), &r).unwrap();
    r.wipe();
    let c = s.load().unwrap();
    assert_eq!(c.wifi_ssid, "HomeNet");
    assert_eq!(c.wifi_password, "hunter22");
    assert_eq!(c.api_key, "tok-1");
    assert_eq!(c.device_id, "dev-9");
}

#[test]
fn interrupted_store_leaves_unprovisioned() {
    for fail in 1..6 {
        let mut s = MemStore::new();
        s.run(store_plan(), &record()).unwrap();
        assert!(s.is_provisioned());
        s.fail_at = Some(s.writes + fail);
        let other = Credentials::new("Other".to_string(), "pw".to_string(), String::new(), "d".to_string());
        assert!(s.run(store_plan(), &other).is_err());
        assert!(!s.is_provisioned());
    }
}

#[test]
fn store_failing_at_first_write_changes_nothing() {
    let mut s = MemStore::new();
    s.run(store_plan(), &record()).unwrap();
    s.fail_at = Some(s.writes);
    let other = Credentials::new("Other".to_string(), "pw".to_string(), String::new(), "d".to_string());
    assert!(s.run(store_plan(), &other).is_err());
    assert!(s.is_provisioned());
    assert_eq!(s.load().ok().unwrap().wifi_ssid, "HomeNet");
}

#[test]
fn interrupted_clear_leaves_unprovisioned() {
    for fail in 1..5 {
        let mut s = MemStore::new();
        s.run(store_plan(), &record()).unwrap();
        s.fail_at = Some(s.writes + fail);
        assert!(s.run(clear_plan(), &record()).is_err());
        assert!(!s.is_provisioned());
    }
}

#[test]
fn clear_resets_store() {
    let mut s = MemStore::new();
    s.run(store_plan(), &record()).unwrap();
    s.run(clear_plan(), &record()).unwrap();
    assert!(!s.is_provisioned());
    assert_eq!(s.texts.get("wifi_ssid").unwrap(), "");
    assert_eq!(s.texts.get("device_id").unwrap(), "");
}

#[test]
fn loaded_field_loses_nul_padding() {
    let mut c = Credentials::default();
    c.set_loaded(TextKey::WifiSsid, Some("Net\0\0"));
    c.set_loaded(TextKey::ApiKey, None);
    c.set_loaded(TextKey::DeviceId, Some("a\0b\0"));
    assert_eq!(c.wifi_ssid, "Net");
    assert_eq!(c.api_key, "");
    assert_eq!(c.device_id, "a\0b");
    assert_eq!(c.field(TextKey::WifiSsid), "Net");
}

#[test]
fn wipe_leaves_record_empty() {
    let mut c = record();
    c.wipe();
    assert_eq!(c.wifi_ssid, "");
    assert_eq!(c.wifi_password, "");
    assert_eq!(c.api_key, "");
    assert_eq!(c.device_id, "");
}

#[test]
fn wipe_buffer_zeroes_every_byte() {
    let mut buf = [0xA5u8; 256];
    wipe_buffer(&mut buf);
    assert_eq!(buf.len(), FIELD_BUFFER_LEN);
    assert!(buf.iter().all(|b| *b == 0));
}

#[test]
fn auth_mode_follows_password() {
    assert_eq!(auth_mode_for(""), AuthMode::Open);
    assert_eq!(auth_mode_for("x"), AuthMode::Wpa2Personal);
    assert_eq!(plan_join("Cafe", ""), Ok(AuthMode::Open));
    assert_eq!(plan_join("Home", "pass1234"), Ok(AuthMode::Wpa2Personal));
}

#[test]
fn join_input_errors() {
    assert_eq!(plan_join("", "pw"), Err(JoinError::InvalidSsid));
    let long_ssid = "s".repeat(33);
    assert_eq!(plan_join(&long_ssid, "pw"), Err(JoinError::InvalidSsid));
    let max_ssid = "s".repeat(32);
    assert_eq!(plan_join(&max_ssid, "pw"), Ok(AuthMode::Wpa2Personal));
    let long_pw = "p".repeat(65);
    assert_eq!(plan_join("Net", &long_pw), Err(JoinError::InvalidPassword));
    let max_pw = "p".repeat(64);
    assert_eq!(plan_join("Net", &max_pw), Ok(AuthMode::Wpa2Personal));
}

fn scan() -> Vec<ScanEntry> {
    vec![
        ScanEntry { ssid: "Other".to_string(), channel: 11 },
        ScanEntry { ssid: "Home".to_string(), channel: 6 },
        ScanEntry { ssid: "Home".to_string(), channel: 1 },
    ]
}

#[test]
fn channel_of_first_match() {
    assert_eq!(pick_channel(&scan(), "Home"), Some(6));
    assert_eq!(pick_channel(&scan(), "Other"), Some(11));
}

#[test]
fn scan_miss_leaves_channel_open() {
    assert_eq!(pick_channel(&scan(), "Hom"), None);
    assert_eq!(pick_channel(&Vec::new(), "Home"), None);
    assert_eq!(plan_join("Missing", "pw"), Ok(AuthMode::Wpa2Personal));
}

#[test]
fn access_point_passphrase_is_long_enough() {
    assert!(AP_PASSWORD.len() >= 8);
}

#[test]
fn fresh_device_provisions_then_joins() {
    let mut store = MemStore::new();
    assert!(!store.is_provisioned());
    assert_eq!(boot_path(store.is_provisioned()), BootPath::Provision);

    let mut session = ProvisioningSession::new();
    let mut rec = session
        .read_submission("ssid=My+Home&password=ab%21cd&device_id=node-1&api_key=")
        .ok()
        .unwrap();
    let stored = store.run(store_plan(), &rec).is_ok();
    rec.wipe();
    assert_eq!(session.finish_submission(stored), Reply::Success);
    assert!(session.is_completed());
    assert!(store.is_provisioned());

    assert_eq!(boot_path(store.is_provisioned()), BootPath::Join);
    let mut loaded = store.load().unwrap();
    assert_eq!(loaded.wifi_ssid, "My Home");
    assert_eq!(loaded.wifi_password, "ab!cd");
    assert_eq!(loaded.device_id, "node-1");
    assert_eq!(loaded.api_key, "");
    assert_eq!(plan_join(&loaded.wifi_ssid, &loaded.wifi_password), Ok(AuthMode::Wpa2Personal));
    let channel = pick_channel(&vec![ScanEntry { ssid: "My Home".to_string(), channel: 9 }], &loaded.wifi_ssid);
    assert_eq!(channel, Some(9));
    loaded.wipe();
    assert_eq!(loaded.wifi_password, "");
}
