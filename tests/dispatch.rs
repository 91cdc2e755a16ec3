use llm_dispatch::backend::{resolve, select_backend, BackendSelection};
use llm_dispatch::context::{InferenceArgs, InferenceContext};
use llm_dispatch::device::DeviceSpec;
use llm_dispatch::driver::Stage;
use llm_dispatch::error::DispatchError;
use llm_dispatch::log_level::LogLevel;
use llm_dispatch::sampling::SamplingPolicy;

fn ids_of(spec: &str, device_count: u32) -> Vec<u32> {
    DeviceSpec::parse(Some(spec), true).unwrap().into_ids(device_count)
}

fn backend_of(spec: &str, device_count: u32) -> Result<BackendSelection, DispatchError> {
    let devices = DeviceSpec::parse(Some(spec), true)?;
    select_backend(devices, device_count, true)
}

fn args(nvidia: Option<&str>, log: Option<&str>) -> InferenceArgs<f32> {
    InferenceArgs {
        model: String::from("models/tiny"),
        log: log.map(String::from),
        temperature: Some(0.7),
        top_k: None,
        top_p: None,
        nvidia: nvidia.map(String::from),
    }
}

#[test]
fn list_keeps_order_and_duplicates() {
    assert_eq!(ids_of("3,1,2", 0), vec![3, 1, 2]);
    assert_eq!(ids_of("0,0,1", 0), vec![0, 0, 1]);
}

#[test]
fn list_trims_and_skips_blank_pieces() {
    assert_eq!(ids_of(" , 5 ,, 7", 0), vec![5, 7]);
    assert_eq!(ids_of("\u{a0}1\t", 0), vec![1]);
}

#[test]
fn blank_list_falls_back_to_cpu() {
    assert_eq!(ids_of("  ,  ", 4), Vec::<u32>::new());
    assert!(matches!(backend_of("  ,  ", 4), Ok(BackendSelection::Cpu)));
}

#[test]
fn closed_range_expands_in_order() {
    assert_eq!(ids_of("1..4", 0), vec![1, 2, 3]);
    assert_eq!(ids_of(" 1 .. 3 ", 0), vec![1, 2]);
    assert!(matches!(
        DeviceSpec::parse(Some("1..4"), true),
        Ok(DeviceSpec::Range(1, Some(4)))
    ));
}

#[test]
fn open_ranges_use_device_count() {
    assert_eq!(ids_of("..", 3), vec![0, 1, 2]);
    assert_eq!(ids_of("..2", 8), vec![0, 1]);
    assert_eq!(ids_of("1..", 3), vec![1, 2]);
    let open = DeviceSpec::parse(Some(".."), true).unwrap();
    assert!(open.needs_device_count());
    let closed = DeviceSpec::parse(Some("0..2"), true).unwrap();
    assert!(!closed.needs_device_count());
}

#[test]
fn empty_range_falls_back_to_cpu() {
    assert_eq!(ids_of("2..2", 0), Vec::<u32>::new());
    assert!(matches!(backend_of("2..2", 0), Ok(BackendSelection::Cpu)));
    assert_eq!(ids_of("5..2", 0), Vec::<u32>::new());
}

#[test]
fn absent_or_empty_spec_is_cpu() {
    assert!(matches!(DeviceSpec::parse(None, false), Ok(DeviceSpec::Empty)));
    assert!(matches!(DeviceSpec::parse(Some(""), false), Ok(DeviceSpec::Empty)));
    assert!(matches!(DeviceSpec::parse(Some(""), true), Ok(DeviceSpec::Empty)));
}

#[test]
fn malformed_specs_are_rejected() {
    for spec in ["a", "1,x", "1..x", "x..", "-1", "2147483648", "0...4", "1 2"] {
        assert!(
            matches!(DeviceSpec::parse(Some(spec), true), Err(DispatchError::InvalidDeviceSpec)),
            "{spec}"
        );
    }
    assert_eq!(ids_of("2147483647", 0), vec![2147483647]);
}

#[test]
fn devices_without_accelerator_support_fail() {
    assert!(matches!(
        DeviceSpec::parse(Some("0..4"), false),
        Err(DispatchError::AcceleratorUnavailable)
    ));
    assert!(matches!(
        InferenceContext::new(&args(Some("0..4"), None), false, 0.0f32, 1.0f32),
        Err(DispatchError::AcceleratorUnavailable)
    ));
}

#[test]
fn duplicates_collapse_for_the_decision_only() {
    match backend_of("0,0,1", 0) {
        Ok(BackendSelection::Distributed(ids)) => assert_eq!(ids, vec![0, 0, 1]),
        other => panic!("unexpected {other:?}"),
    }
    assert!(matches!(backend_of("0,0", 0), Ok(BackendSelection::SingleDevice(0))));
}

#[test]
fn resolver_counts_distinct_ids() {
    assert!(matches!(resolve(vec![], true), Ok(BackendSelection::Cpu)));
    assert!(matches!(resolve(vec![3], false), Ok(BackendSelection::SingleDevice(3))));
    assert!(matches!(resolve(vec![2, 2, 2], false), Ok(BackendSelection::SingleDevice(2))));
    assert!(matches!(resolve(vec![1, 2], false), Err(DispatchError::UnsupportedTopology)));
    assert!(matches!(backend_of("1..2", 0), Ok(BackendSelection::SingleDevice(1))));
    match backend_of("0..4", 0) {
        Ok(BackendSelection::Distributed(ids)) => assert_eq!(ids, vec![0, 1, 2, 3]),
        other => panic!("unexpected {other:?}"),
    }
}

#[test]
fn unknown_log_level_is_warn() {
    assert_eq!(LogLevel::from_name(Some("bogus")), LogLevel::Warn);
    assert_eq!(LogLevel::from_name(Some("BOGUS")), LogLevel::Warn);
    assert_eq!(LogLevel::from_name(None), LogLevel::Warn);
}

#[test]
fn log_level_names_ignore_case() {
    assert_eq!(LogLevel::from_name(Some("TRACE")), LogLevel::Trace);
    assert_eq!(LogLevel::from_name(Some("None")), LogLevel::Off);
    assert_eq!(LogLevel::from_name(Some("off")), LogLevel::Off);
    assert_eq!(LogLevel::from_name(Some("Debug")), LogLevel::Debug);
    assert_eq!(LogLevel::from_name(Some("iNfO")), LogLevel::Info);
    assert_eq!(LogLevel::from_name(Some("ERROR")), LogLevel::Error);
    assert_eq!(LogLevel::from_lowercase("info"), LogLevel::Info);
    assert_eq!(LogLevel::from_lowercase("Info"), LogLevel::Warn);
}

#[test]
fn sampling_defaults() {
    let p = SamplingPolicy::build(None::<f32>, None, None, 0.0, 1.0);
    assert_eq!(p.temperature, 0.0);
    assert_eq!(p.top_k, usize::MAX);
    assert_eq!(p.top_p, 1.0);
    let q = SamplingPolicy::build(Some(p.temperature), Some(p.top_k), Some(p.top_p), 5.0, 5.0);
    assert_eq!((q.temperature, q.top_k, q.top_p), (p.temperature, p.top_k, p.top_p));
    let r = SamplingPolicy::build(Some(0.8f32), Some(40), Some(0.9), 0.0, 1.0);
    assert_eq!((r.temperature, r.top_k, r.top_p), (0.8, 40, 0.9));
}

#[test]
fn context_is_deterministic() {
    let a = args(Some("0, 2"), Some("Info"));
    let x = InferenceContext::new(&a, true, 0.0f32, 1.0f32).unwrap();
    let y = InferenceContext::new(&a, true, 0.0f32, 1.0f32).unwrap();
    assert_eq!(x.model, y.model);
    assert_eq!(x.log_level, LogLevel::Info);
    assert_eq!(x.log_level, y.log_level);
    assert_eq!(x.sampling.temperature, 0.7);
    assert_eq!(x.sampling.top_k, usize::MAX);
    assert_eq!(x.sampling.top_p, 1.0);
    assert_eq!(
        (x.sampling.temperature, x.sampling.top_k, x.sampling.top_p),
        (y.sampling.temperature, y.sampling.top_k, y.sampling.top_p)
    );
    assert_eq!(x.devices.into_ids(0), y.devices.into_ids(0));
}

#[test]
fn args_accessors() {
    let a = args(Some("1"), Some("debug"));
    assert_eq!(a.log_level(), LogLevel::Debug);
    assert!(matches!(a.device_spec(true), Ok(DeviceSpec::List(ref v)) if v == &vec![1]));
    assert_eq!(a.sample_args(0.0, 1.0).temperature, 0.7);
}

#[test]
fn stages_with_accelerator() {
    let mut s = Stage::Start;
    let mut seen = vec![s];
    while !s.is_end() {
        s = s.next(true);
        seen.push(s);
    }
    assert_eq!(
        seen,
        vec![
            Stage::Start,
            Stage::AcceleratorInit,
            Stage::RuntimeCreate,
            Stage::Dispatch,
            Stage::RuntimeShutdown,
            Stage::AcceleratorSynchronize,
            Stage::End
        ]
    );
}

#[test]
fn stages_without_accelerator() {
    let mut s = Stage::Start;
    let mut seen = vec![s];
    while !s.is_end() {
        s = s.next(false);
        seen.push(s);
    }
    assert_eq!(
        seen,
        vec![Stage::Start, Stage::RuntimeCreate, Stage::Dispatch, Stage::RuntimeShutdown, Stage::End]
    );
}

#[test]
fn error_messages_name_the_stage() {
    assert!(DispatchError::InvalidDeviceSpec.message().starts_with("parsing"));
    assert!(DispatchError::AcceleratorUnavailable.message().starts_with("parsing"));
    assert!(DispatchError::UnsupportedTopology.message().starts_with("resolution"));
    assert_eq!(
        DispatchError::InvalidDeviceSpec.message(),
        "parsing: invalid device specification"
    );
    assert_eq!(
        DispatchError::AcceleratorUnavailable.message(),
        "parsing: accelerator support is not available in this build"
    );
    assert_eq!(
        DispatchError::UnsupportedTopology.message(),
        "resolution: distributed execution is not available in this build"
    );
}

#[test]
fn plus_sign_is_accepted() {
    assert_eq!(ids_of("+1, +2", 0), vec![1, 2]);
    assert_eq!(ids_of("+1..+3", 0), vec![1, 2]);
    assert!(matches!(DeviceSpec::parse(Some("+"), true), Err(DispatchError::InvalidDeviceSpec)));
    assert!(matches!(DeviceSpec::parse(Some("++1"), true), Err(DispatchError::InvalidDeviceSpec)));
}

#[test]
fn nvidia_lists_selected_ids() {
    assert_eq!(args(Some("1..3"), None).nvidia(true, 8), Ok(vec![1, 2]));
    assert_eq!(args(Some(".."), None).nvidia(true, 2), Ok(vec![0, 1]));
    assert_eq!(args(None, None).nvidia(false, 0), Ok(vec![]));
    assert_eq!(args(Some("0"), None).nvidia(false, 0), Err(DispatchError::AcceleratorUnavailable));
    assert_eq!(args(Some("0;1"), None).nvidia(true, 0), Err(DispatchError::InvalidDeviceSpec));
}
