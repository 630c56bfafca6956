use transpose_bench::config::{normalize_config, surface_first_error, ConfigError, RunConfig};

fn base_config() -> RunConfig {
    RunConfig {
        log2_size: 20,
        verbose: false,
        check_work: false,
        times: 1,
        in_memory: false,
        mmap: false,
        join: false,
        on_disk: false,
        buff_on_disk: false,
        all: false,
    }
}

#[test]
fn zero_times_is_rejected_first() {
    let mut c = base_config();
    c.times = 0;
    c.check_work = true;
    assert_eq!(normalize_config(&c), Err(ConfigError::NonPositiveTimes));
}

#[test]
fn check_work_needs_the_reference_strategy() {
    let mut c = base_config();
    c.check_work = true;
    c.mmap = true;
    assert_eq!(
        normalize_config(&c),
        Err(ConfigError::CheckWorkWithoutReference)
    );
}

#[test]
fn check_work_with_reference_passes() {
    let mut c = base_config();
    c.check_work = true;
    c.in_memory = true;
    let n = normalize_config(&c).expect("valid configuration");
    assert!(n.in_memory);
    assert!(n.check_work);
}

#[test]
fn all_toggles_every_strategy_flag() {
    let mut c = base_config();
    c.all = true;
    let n = normalize_config(&c).expect("valid configuration");
    assert!(n.in_memory && n.mmap && n.on_disk && n.buff_on_disk && n.join);
}

#[test]
fn all_flips_rather_than_sets() {
    // `all` together with one enabled strategy runs all but that one
    let mut c = base_config();
    c.all = true;
    c.buff_on_disk = true;
    let n = normalize_config(&c).expect("valid configuration");
    assert!(n.in_memory && n.mmap && n.on_disk && n.join);
    assert!(!n.buff_on_disk);
}

#[test]
fn all_can_disable_the_reference_under_check_work() {
    // toggling `all` with in_memory already on turns the reference off,
    // so a requested work-check must be rejected after the toggle
    let mut c = base_config();
    c.all = true;
    c.in_memory = true;
    c.check_work = true;
    assert_eq!(
        normalize_config(&c),
        Err(ConfigError::CheckWorkWithoutReference)
    );
}

#[test]
fn normalization_keeps_the_other_settings() {
    let mut c = base_config();
    c.log2_size = 12;
    c.times = 3;
    c.verbose = true;
    c.on_disk = true;
    let n = normalize_config(&c).expect("valid configuration");
    assert_eq!(n.log2_size, 12);
    assert_eq!(n.times, 3);
    assert!(n.verbose);
    assert!(n.on_disk);
    assert!(!n.mmap);
}

#[test]
fn transform_error_is_surfaced_over_cleanup_error() {
    let transform: Result<u32, String> = Err(String::from("short read"));
    let cleanup: Result<(), String> = Err(String::from("scratch file left behind"));
    assert_eq!(
        surface_first_error(transform, cleanup),
        Err(String::from("short read"))
    );
}

#[test]
fn cleanup_error_surfaces_only_after_success() {
    let transform: Result<u32, String> = Ok(7);
    let cleanup: Result<(), String> = Err(String::from("scratch file left behind"));
    assert_eq!(
        surface_first_error(transform, cleanup),
        Err(String::from("scratch file left behind"))
    );
}

#[test]
fn success_with_clean_scratch_passes_through() {
    let transform: Result<u32, String> = Ok(7);
    let cleanup: Result<(), String> = Ok(());
    assert_eq!(surface_first_error(transform, cleanup), Ok(7));
}

#[test]
fn transform_error_passes_through_clean_cleanup() {
    let transform: Result<u32, String> = Err(String::from("truncated source"));
    let cleanup: Result<(), String> = Ok(());
    assert_eq!(
        surface_first_error(transform, cleanup),
        Err(String::from("truncated source"))
    );
}
