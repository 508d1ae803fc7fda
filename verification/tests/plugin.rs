use ferrocopy::config::{CopyConfig, HashAlgorithm, OverwriteMode};
use ferrocopy::plugin::{CopyCommand, LogPlugin, Plugin, PluginContext, PluginRegistry};
use std::path::{Path, PathBuf};
use std::sync::atomic::{AtomicUsize, Ordering};
use std::sync::Arc;

struct FailPlugin;
impl Plugin for FailPlugin {
    fn name(&self) -> &str {
        "fail"
    }
    fn handle(&self, _cmd: &CopyCommand) -> Result<(), String> {
        Err("intentional failure".into())
    }
}

struct CountingPlugin {
    calls: Arc<AtomicUsize>,
}
impl Plugin for CountingPlugin {
    fn name(&self) -> &str {
        "count"
    }
    fn handle(&self, _cmd: &CopyCommand) -> Result<(), String> {
        self.calls.fetch_add(1, Ordering::SeqCst);
        Ok(())
    }
}

fn post_copy() -> CopyCommand {
    CopyCommand::PostCopy { total_files: 0, total_bytes: 0, errors: 0 }
}

#[test]
fn test_registry_dispatch() {
    let mut reg = PluginRegistry::new();
    reg.register(LogPlugin);
    assert_eq!(reg.len(), 1);

    let ctx = PluginContext {
        source: Path::new("a").to_path_buf(),
        destination: Path::new("b").to_path_buf(),
        config: CopyConfig {
            source: Path::new("a").to_path_buf(),
            destination: Path::new("b").to_path_buf(),
            verify: false,
            hash_algorithm: HashAlgorithm::Blake3,
            threads: 1,
            recursive: false,
            overwrite: OverwriteMode::Always,
        },
    };
    let cmd = CopyCommand::PreCopy(ctx);
    assert!(reg.dispatch(&cmd).is_ok());
}

#[test]
fn test_fail_plugin() {
    let mut reg = PluginRegistry::new();
    reg.register(FailPlugin);
    let cmd = post_copy();
    assert!(reg.dispatch(&cmd).is_err());
}

#[test]
fn test_empty_registry() {
    let reg = PluginRegistry::new();
    assert!(reg.is_empty());
    let cmd = post_copy();
    assert!(reg.dispatch(&cmd).is_ok());
}

#[test]
fn first_refusal_stops_dispatch() {
    let before = Arc::new(AtomicUsize::new(0));
    let after = Arc::new(AtomicUsize::new(0));
    let mut reg = PluginRegistry::new();
    reg.register(CountingPlugin { calls: before.clone() });
    reg.register(FailPlugin);
    reg.register(CountingPlugin { calls: after.clone() });
    assert_eq!(reg.len(), 3);
    assert!(!reg.is_empty());
    assert_eq!(reg.dispatch(&post_copy()), Err("intentional failure".to_string()));
    assert_eq!(before.load(Ordering::SeqCst), 1);
    assert_eq!(after.load(Ordering::SeqCst), 0);
}

#[test]
fn every_plugin_sees_an_accepted_command() {
    let calls = Arc::new(AtomicUsize::new(0));
    let mut reg = PluginRegistry::new();
    reg.register(CountingPlugin { calls: calls.clone() });
    reg.register(LogPlugin);
    reg.register(CountingPlugin { calls: calls.clone() });
    let cmd = CopyCommand::PostFile {
        src: PathBuf::from("x"),
        dst: PathBuf::from("y"),
        bytes: 5,
        success: false,
    };
    assert_eq!(reg.dispatch(&cmd), Ok(()));
    assert_eq!(calls.load(Ordering::SeqCst), 2);
}
