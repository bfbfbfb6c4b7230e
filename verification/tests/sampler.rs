use std::collections::{HashMap, HashSet};

use memimpact::proc_stat::CloseMatch;
use memimpact::sampler::{
    aggregate, get_process_name, tick_interval_millis, tick_output, OutputMode, Sampler, TickPlan,
};
use memimpact::template::{MemorySample, Template};
use memimpact::tree::build_process_tree;

fn started(stat: &str) -> Sampler {
    Sampler::start(4242, Some(stat), CloseMatch::Last, 4).unwrap()
}

#[test]
fn zero_hertz_is_invalid() {
    assert_eq!(tick_interval_millis(0), None);
}

#[test]
fn interval_is_a_truncated_quotient() {
    assert_eq!(tick_interval_millis(1), Some(1000));
    assert_eq!(tick_interval_millis(3), Some(333));
    assert_eq!(tick_interval_millis(1000), Some(1));
    assert_eq!(tick_interval_millis(1001), Some(0));
    assert_eq!(tick_interval_millis(u64::MAX), Some(0));
}

#[test]
fn process_name_is_the_name_of_the_record() {
    assert_eq!(
        get_process_name(1, Some("1 (my fancy process) S 0 0"), CloseMatch::Last).unwrap(),
        "(my fancy process)"
    );
    assert_eq!(
        get_process_name(1, Some("1 (a) S 0 (b) S 0"), CloseMatch::First).unwrap(),
        "(a)"
    );
    assert_eq!(
        get_process_name(1, Some("1 (a) S 0 (b) S 0"), CloseMatch::Last).unwrap(),
        "(a) S 0 (b)"
    );
}

#[test]
fn unreadable_target_fails_with_its_path() {
    assert_eq!(
        get_process_name(4242, None, CloseMatch::Last).unwrap_err(),
        "Could not read /proc/4242/stat"
    );
    assert_eq!(
        get_process_name(-1, None, CloseMatch::First).unwrap_err(),
        "Could not read /proc/-1/stat"
    );
}

#[test]
fn unparsable_target_fails_with_the_reason() {
    assert_eq!(
        get_process_name(7, Some("7 bash R 1"), CloseMatch::Last).unwrap_err(),
        "Unsupported /proc/7/stat format (InvalidFormat). Your system is currently not \
         supported. Please open an issue with your kernel version."
    );
    assert_eq!(
        get_process_name(7, Some("7 (bash) ? 1"), CloseMatch::Last).unwrap_err(),
        "Unsupported /proc/7/stat format (UnsupportedKernelLayout). Your system is currently not \
         supported. Please open an issue with your kernel version."
    );
}

#[test]
fn target_that_never_appears_fails_the_start() {
    let err = Sampler::start(4242, None, CloseMatch::Last, 4).unwrap_err();
    assert_eq!(err, "Could not read /proc/4242/stat");
    assert!(Sampler::start(4242, Some(""), CloseMatch::Last, 4).is_err());
    assert!(Sampler::start(4242, Some("4242 (x) ! 1"), CloseMatch::Last, 4).is_err());
}

#[test]
fn start_resolves_the_name_once() {
    let sampler = started("4242 (firefox) S 1 0 0");
    assert_eq!(sampler.target_pid, 4242);
    assert_eq!(sampler.process_name, "(firefox)");
    assert_eq!(sampler.running_max, 0);
    assert_eq!(sampler.page_size_kb, 4);
    assert_eq!(sampler.policy, CloseMatch::Last);
}

#[test]
fn tick_finishes_when_the_target_is_gone() {
    let sampler = started("4242 (firefox) S 1 0 0");
    let mut tree = HashMap::new();
    tree.insert(1, 0);
    tree.insert(4243, 4242);
    assert!(matches!(sampler.plan_tick(&tree), TickPlan::Finish));
    assert!(matches!(sampler.plan_tick(&HashMap::new()), TickPlan::Finish));
}

#[test]
fn tick_measures_the_target_and_its_descendants() {
    let sampler = started("4242 (firefox) S 1 0 0");
    let stats = vec![
        "1 (init) S 0".to_string(),
        "4242 (firefox) S 1".to_string(),
        "4300 (Web Content) S 4242".to_string(),
        "4301 (helper) R 4300".to_string(),
        "5000 (bash) S 1".to_string(),
    ];
    let tree = build_process_tree(&stats, CloseMatch::Last);
    match sampler.plan_tick(&tree) {
        TickPlan::Measure(pids) => {
            let expected: HashSet<i32> = [4242, 4300, 4301].into_iter().collect();
            assert_eq!(pids, expected);
        }
        TickPlan::Finish => panic!("the target is in the tree"),
    }
}

#[test]
fn aggregate_sums_what_can_be_read() {
    let readings = vec![
        Some("100 50 0 0 0 0 0".to_string()),
        None,
        Some("invalid".to_string()),
        Some("7 25 1".to_string()),
        Some(String::new()),
    ];
    assert_eq!(aggregate(&readings, 4), 300);
    assert_eq!(aggregate(&readings, 1), 75);
    assert_eq!(aggregate(&Vec::new(), 4), 0);
    assert_eq!(aggregate(&vec![None, None], 4), 0);
}

#[test]
fn aggregate_stops_at_the_largest_quantity() {
    let readings = vec![
        Some("0 18446744073709551615".to_string()),
        Some("0 1".to_string()),
        Some("0 5".to_string()),
    ];
    assert_eq!(aggregate(&readings, 1), u64::MAX);
    let readings = vec![
        Some("0 18446744073709551614".to_string()),
        Some("0 1".to_string()),
    ];
    assert_eq!(aggregate(&readings, 1), u64::MAX);
    let readings = vec![
        Some("0 18446744073709551613".to_string()),
        Some("0 1".to_string()),
    ];
    assert_eq!(aggregate(&readings, 1), u64::MAX - 1);
}

#[test]
fn running_maximum_never_falls() {
    let mut sampler = started("4242 (firefox) S 1 0 0");
    let sample = sampler.record_tick(&vec![Some("0 10".to_string()), Some("0 5".to_string())], 1);
    assert_eq!((sample.current_bytes, sample.max_bytes, sample.timestamp), (60, 60, 1));
    assert_eq!(sampler.running_max, 60);
    let sample = sampler.record_tick(&vec![Some("0 1".to_string())], 2);
    assert_eq!((sample.current_bytes, sample.max_bytes, sample.timestamp), (4, 60, 2));
    assert_eq!(sampler.running_max, 60);
    let sample = sampler.record_tick(&vec![None], 3);
    assert_eq!((sample.current_bytes, sample.max_bytes, sample.timestamp), (0, 60, 3));
    assert_eq!(sampler.running_max, 60);
    let sample = sampler.record_tick(&vec![Some("0 100".to_string())], 1_700_000_000);
    assert_eq!(sample.pid, 4242);
    assert_eq!(sample.process_name, "(firefox)");
    assert_eq!(sample.current_bytes, 400);
    assert_eq!(sample.max_bytes, 400);
    assert_eq!(sample.timestamp, 1_700_000_000);
    assert_eq!(sampler.running_max, 400);
    assert_eq!(sampler.target_pid, 4242);
    assert_eq!(sampler.process_name, "(firefox)");
    assert_eq!(sampler.page_size_kb, 4);
}

#[test]
fn page_size_of_the_run_scales_every_reading() {
    let mut sampler = Sampler::start(1, Some("1 (init) S 0"), CloseMatch::First, 16).unwrap();
    let sample = sampler.record_tick(&vec![Some("0 10".to_string()), Some("0 5".to_string())], 0);
    assert_eq!(sample.current_bytes, 240);
    assert_eq!(sample.max_bytes, 240);
}

#[test]
fn lines_of_a_continuous_run() {
    let mut sampler = started("4242 (firefox) S 1 0 0");
    assert_eq!(
        sampler.heading(&OutputMode::Continuous).unwrap(),
        "Tracking memory usage of PID 4242 (firefox)\n"
    );
    let sample = sampler.record_tick(&vec![Some("0 524288".to_string())], 5);
    assert_eq!(
        tick_output(&OutputMode::Continuous, &sample).unwrap(),
        "PID 4242 (firefox): current 2GB, max 2GB\n"
    );
    let sample = sampler.record_tick(&vec![Some("0 384".to_string())], 6);
    assert_eq!(
        tick_output(&OutputMode::Continuous, &sample).unwrap(),
        "PID 4242 (firefox): current 1MB, max 2GB\n"
    );
    assert_eq!(sampler.finish(), "PID 4242 (firefox): max 2GB\n");
}

#[test]
fn terse_run_writes_the_final_line_only() {
    let mut sampler = started("4242 (firefox) S 1 0 0");
    assert_eq!(sampler.heading(&OutputMode::Terse), None);
    let sample = sampler.record_tick(&vec![Some("0 3".to_string())], 5);
    assert_eq!(tick_output(&OutputMode::Terse, &sample), None);
    assert_eq!(sampler.finish(), "PID 4242 (firefox): max 12KB\n");
}

#[test]
fn templated_run_renders_each_tick() {
    let mode = OutputMode::Templated(Template::parse("{Timestamp};{Pid};{MaxBytes}").unwrap());
    let sampler = started("4242 (firefox) S 1 0 0");
    assert_eq!(sampler.heading(&mode), None);
    let sample = MemorySample {
        pid: 4242,
        process_name: "(firefox)",
        current_bytes: 1,
        max_bytes: 2,
        timestamp: 3,
    };
    assert_eq!(tick_output(&mode, &sample).unwrap(), "3;4242;2\n");
    assert_eq!(sampler.finish(), "PID 4242 (firefox): max 0KB\n");
}
