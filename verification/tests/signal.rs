use std::sync::atomic::{AtomicBool, Ordering};
use std::sync::Arc;

#[test]
fn test_shutdown_flag() {
    let flag = Arc::new(AtomicBool::new(false));
    assert!(!flag.load(Ordering::SeqCst));
    flag.store(true, Ordering::SeqCst);
    assert!(flag.load(Ordering::SeqCst));
}
