//! The inference settings shared by every task, and the context built from them.
use vstd::prelude::*;

use crate::device::{parse_result_view, parse_spec, DeviceSpec, DeviceSpecModel};
use crate::error::DispatchError;
use crate::log_level::{level_for, LogLevel};
use crate::sampling::{sampling_for, SamplingPolicy};

verus! {

/// The inference settings as the user gave them.
pub struct InferenceArgs<F> {
    /// Model directory.
    pub model: String,
    /// Log level name: "off", "trace", "debug", "info" or "error".
    pub log: Option<String>,
    pub temperature: Option<F>,
    pub top_k: Option<usize>,
    pub top_p: Option<F>,
    /// Accelerator devices: identifiers separated by commas, or a range `a..b`.
    pub nvidia: Option<String>,
}

/// The characters of an optional string.
pub open spec fn text_of(s: Option<String>) -> Option<Seq<char>> {
    match s {
        Some(s) => Some(s@),
        None => None,
    }
}

/// Borrows an optional string as text.
fn as_text(s: &Option<String>) -> (r: Option<&str>)
    ensures
        match r {
            Some(t) => text_of(*s) == Some(t@),
            None => text_of(*s) is None,
        },
{
    match s {
        Some(s) => Some(s.as_str()),
        None => None,
    }
}

impl<F: Copy> InferenceArgs<F> {
    /// The logging level chosen; `Warn` unless a known name was given.
    pub fn log_level(&self) -> (r: LogLevel)
        ensures
            r == level_for(text_of(self.log)),
    {
        LogLevel::from_name(as_text(&self.log))
    }

    /// The device specification given, read.
    pub fn device_spec(&self, accelerator_support: bool) -> (r: Result<DeviceSpec, DispatchError>)
        ensures
            parse_result_view(r) == parse_spec(text_of(self.nvidia), accelerator_support),
    {
        DeviceSpec::parse(as_text(&self.nvidia), accelerator_support)
    }

    /// The accelerator identifiers selected, with `device_count` accelerators
    /// present; empty when none is asked for.
    pub fn nvidia(&self, accelerator_support: bool, device_count: u32) -> (r: Result<
        Vec<u32>,
        DispatchError,
    >)
        ensures
            match r {
                Ok(ids) => match parse_spec(text_of(self.nvidia), accelerator_support) {
                    Ok(d) => ids@ == d.ids(device_count),
                    Err(_) => false,
                },
                Err(e) => parse_spec(text_of(self.nvidia), accelerator_support) == Err::<
                    DeviceSpecModel,
                    DispatchError,
                >(e),
            },
    {
        match self.device_spec(accelerator_support) {
            Ok(d) => Ok(d.into_ids(device_count)),
            Err(e) => Err(e),
        }
    }

    /// The sampling policy, with defaults for what was not given.
    pub fn sample_args(&self, default_temperature: F, default_top_p: F) -> (r: SamplingPolicy<F>)
        ensures
            r == sampling_for(
                self.temperature,
                self.top_k,
                self.top_p,
                default_temperature,
                default_top_p,
            ),
    {
        SamplingPolicy::build(
            self.temperature,
            self.top_k,
            self.top_p,
            default_temperature,
            default_top_p,
        )
    }
}

/// The settings of one run, fixed once built.
pub struct InferenceContext<F> {
    pub model: String,
    pub log_level: LogLevel,
    pub devices: DeviceSpec,
    pub sampling: SamplingPolicy<F>,
}

impl<F> InferenceContext<F> {
    /// Whether this context is the one that `args` give.
    pub open spec fn built_from(
        self,
        args: InferenceArgs<F>,
        accelerator_support: bool,
        default_temperature: F,
        default_top_p: F,
    ) -> bool {
        &&& self.model@ == args.model@
        &&& self.log_level == level_for(text_of(args.log))
        &&& parse_spec(text_of(args.nvidia), accelerator_support) == Ok::<
            DeviceSpecModel,
            DispatchError,
        >(self.devices@)
        &&& self.sampling == sampling_for(
            args.temperature,
            args.top_k,
            args.top_p,
            default_temperature,
            default_top_p,
        )
    }
}

impl<F: Copy> InferenceContext<F> {
    /// Builds the context of a run; fails only where the device
    /// specification does.
    pub fn new(
        args: &InferenceArgs<F>,
        accelerator_support: bool,
        default_temperature: F,
        default_top_p: F,
    ) -> (r: Result<InferenceContext<F>, DispatchError>)
        ensures
            match r {
                Ok(c) => c.built_from(
                    *args,
                    accelerator_support,
                    default_temperature,
                    default_top_p,
                ),
                Err(e) => parse_spec(text_of(args.nvidia), accelerator_support) == Err::<
                    DeviceSpecModel,
                    DispatchError,
                >(e),
            },
    {
        let devices = match args.device_spec(accelerator_support) {
            Ok(d) => d,
            Err(e) => {
                return Err(e);
            },
        };
        Ok(
            InferenceContext {
                model: args.model.clone(),
                log_level: args.log_level(),
                devices,
                sampling: args.sample_args(default_temperature, default_top_p),
            },
        )
    }
}

/// Two contexts built from the same settings select the same devices, the
/// same sampling policy and the same log level.
pub proof fn lemma_context_deterministic<F>(
    a: InferenceContext<F>,
    b: InferenceContext<F>,
    args: InferenceArgs<F>,
    accelerator_support: bool,
    default_temperature: F,
    default_top_p: F,
)
    requires
        a.built_from(args, accelerator_support, default_temperature, default_top_p),
        b.built_from(args, accelerator_support, default_temperature, default_top_p),
    ensures
        a.devices@ == b.devices@,
        a.sampling == b.sampling,
        a.log_level == b.log_level,
        a.model@ == b.model@,
{
}

} // verus!
