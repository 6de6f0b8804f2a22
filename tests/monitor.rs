use rutip::monitor::Nvidia;

#[test]
fn idle_fires_once_after_threshold_plus_one_polls() {
    let mut gpu = Nvidia::new();
    gpu.record(100, 8000, 1);
    for _ in 0..5 {
        assert!(!gpu.is_free());
    }
    assert!(gpu.is_free());
    for _ in 0..5 {
        assert!(!gpu.is_free());
    }
    assert!(gpu.is_free());
}

#[test]
fn busy_poll_resets_idle_counter() {
    let mut gpu = Nvidia::new();
    gpu.record(100, 8000, 1);
    for _ in 0..5 {
        assert!(!gpu.is_free());
    }
    gpu.record(100, 8000, 90);
    assert!(!gpu.is_free());
    gpu.record(100, 8000, 1);
    for _ in 0..5 {
        assert!(!gpu.is_free());
    }
    assert!(gpu.is_free());
}

#[test]
fn idle_needs_low_memory_and_low_utilization() {
    let mut gpu = Nvidia::new();
    gpu.record(800, 8000, 1);
    for _ in 0..10 {
        assert!(!gpu.is_free());
    }
    gpu.record(0, 0, 0);
    for _ in 0..10 {
        assert!(!gpu.is_free());
    }
}

#[test]
fn low_efficiency_band_fires_after_six_polls() {
    let mut gpu = Nvidia::new();
    gpu.record(2000, 8000, 30);
    for _ in 0..5 {
        assert!(!gpu.is_low_efficiency());
    }
    assert!(gpu.is_low_efficiency());
    gpu.record(4000, 8000, 50);
    for _ in 0..5 {
        assert!(!gpu.is_low_efficiency());
    }
    assert!(gpu.is_low_efficiency());
}

#[test]
fn low_efficiency_outside_band_never_fires() {
    let mut gpu = Nvidia::new();
    gpu.record(5000, 8000, 30);
    for _ in 0..10 {
        assert!(!gpu.is_low_efficiency());
    }
    gpu.record(2000, 8000, 51);
    for _ in 0..10 {
        assert!(!gpu.is_low_efficiency());
    }
    gpu.record(0, 0, 10);
    for _ in 0..10 {
        assert!(!gpu.is_low_efficiency());
    }
}

const REPORT: &str = "| N/A   45C    10W / 250W |    512MiB / 11019MiB |      3%      Default |\n";

#[test]
fn reads_a_diagnostic_report() {
    let mut gpu = Nvidia::new();
    assert!(gpu.read_from_text(REPORT));
    assert_eq!(gpu.used_memory(), 512);
    assert_eq!(gpu.total_memory(), 11019);
    assert_eq!(gpu.use_ratio(), 3);
}

#[test]
fn refuses_a_report_without_reading() {
    let mut gpu = Nvidia::new();
    gpu.record(1, 2, 3);
    assert!(!gpu.read_from_text("no device here"));
    assert!(!gpu.read_from_text("45% and 100MiB only"));
    assert!(!gpu.read_from_text("300% 1MiB 2MiB"));
    assert_eq!(gpu.used_memory(), 1);
    assert_eq!(gpu.total_memory(), 2);
    assert_eq!(gpu.use_ratio(), 3);
}
