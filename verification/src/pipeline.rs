//! Reconfiguration state of the pipeline orchestrator: the active filter and
//! gain-control selections and the two telemetry sink paths, updated once per
//! chunk boundary from at most one pending internal command.

use vstd::prelude::*;
use crate::command::{AGCType, FilterType, InternalCommand};
use crate::parse::str_eq;

verus! {

/// An `AM <n>` command accepts only the bandwidth-limiting selections;
/// anything else falls back to the identity transform.
pub open spec fn am_normalize(f: FilterType) -> FilterType {
    match f {
        FilterType::AM3K => FilterType::AM3K,
        FilterType::AM6K => FilterType::AM6K,
        FilterType::AM11K => FilterType::AM11K,
        _ => FilterType::Bypass,
    }
}

/// An `AF <n>` command accepts only the audio-bandwidth selections;
/// anything else falls back to the identity transform.
pub open spec fn af_normalize(f: FilterType) -> FilterType {
    match f {
        FilterType::AF3K => FilterType::AF3K,
        FilterType::AF6K => FilterType::AF6K,
        FilterType::AF11K => FilterType::AF11K,
        _ => FilterType::Bypass,
    }
}

/// The sink path selected by a sink name: the name `None` disables the sink
/// (empty path), any other name becomes a well-known local path.
pub open spec fn sink_path_for(name: Seq<char>) -> Seq<char> {
    if name == "None"@ {
        Seq::empty()
    } else {
        "/tmp/"@ + name
    }
}

/// The state owned by the orchestrator thread: which filter and gain-control
/// instances are active, and where the two telemetry sinks deliver. An empty
/// path means the sink is disabled.
pub struct PipelineConfig {
    pub if_filter: FilterType,
    pub agc: AGCType,
    pub af_filter: FilterType,
    pub rssi_path: String,
    pub receive_data_path: String,
}

impl PipelineConfig {
    /// The configuration active at startup: widest filters, fastest gain
    /// control, both sinks disabled.
    pub fn new() -> (r: PipelineConfig)
        ensures
            r.if_filter == FilterType::AM11K,
            r.agc == AGCType::AGC05,
            r.af_filter == FilterType::AF11K,
            r.rssi_path@ == Seq::<char>::empty(),
            r.receive_data_path@ == Seq::<char>::empty(),
    {
        PipelineConfig {
            if_filter: FilterType::AM11K,
            agc: AGCType::AGC05,
            af_filter: FilterType::AF11K,
            rssi_path: String::new(),
            receive_data_path: String::new(),
        }
    }

    /// Applies one pending internal command: replaces exactly the selection
    /// the command names, leaves everything else untouched, and reports
    /// whether the pipeline keeps running (`END` stops it after the in-flight
    /// chunk).
    pub fn apply_command(&mut self, command: InternalCommand) -> (running: bool)
        ensures
            match command {
                InternalCommand::AM(f) => {
                    &&& running
                    &&& final(self).if_filter == am_normalize(f)
                    &&& final(self).agc == old(self).agc
                    &&& final(self).af_filter == old(self).af_filter
                    &&& final(self).rssi_path@ == old(self).rssi_path@
                    &&& final(self).receive_data_path@ == old(self).receive_data_path@
                },
                InternalCommand::AGC(a) => {
                    &&& running
                    &&& final(self).if_filter == old(self).if_filter
                    &&& final(self).agc == a
                    &&& final(self).af_filter == old(self).af_filter
                    &&& final(self).rssi_path@ == old(self).rssi_path@
                    &&& final(self).receive_data_path@ == old(self).receive_data_path@
                },
                InternalCommand::AF(f) => {
                    &&& running
                    &&& final(self).if_filter == old(self).if_filter
                    &&& final(self).agc == old(self).agc
                    &&& final(self).af_filter == af_normalize(f)
                    &&& final(self).rssi_path@ == old(self).rssi_path@
                    &&& final(self).receive_data_path@ == old(self).receive_data_path@
                },
                InternalCommand::RSSI(name) => {
                    &&& running
                    &&& final(self).if_filter == old(self).if_filter
                    &&& final(self).agc == old(self).agc
                    &&& final(self).af_filter == old(self).af_filter
                    &&& final(self).rssi_path@ == sink_path_for(name@)
                    &&& final(self).receive_data_path@ == old(self).receive_data_path@
                },
                InternalCommand::IFOUT(name) => {
                    &&& running
                    &&& final(self).if_filter == old(self).if_filter
                    &&& final(self).agc == old(self).agc
                    &&& final(self).af_filter == old(self).af_filter
                    &&& final(self).rssi_path@ == old(self).rssi_path@
                    &&& final(self).receive_data_path@ == sink_path_for(name@)
                },
                InternalCommand::Nop => {
                    &&& running
                    &&& *final(self) == *old(self)
                },
                InternalCommand::END => {
                    &&& !running
                    &&& *final(self) == *old(self)
                },
            },
    {
        match command {
            InternalCommand::AM(f) => {
                self.if_filter = match f {
                    FilterType::AM3K => FilterType::AM3K,
                    FilterType::AM6K => FilterType::AM6K,
                    FilterType::AM11K => FilterType::AM11K,
                    _ => FilterType::Bypass,
                };
                true
            },
            InternalCommand::AGC(a) => {
                self.agc = a;
                true
            },
            InternalCommand::AF(f) => {
                self.af_filter = match f {
                    FilterType::AF3K => FilterType::AF3K,
                    FilterType::AF6K => FilterType::AF6K,
                    FilterType::AF11K => FilterType::AF11K,
                    _ => FilterType::Bypass,
                };
                true
            },
            InternalCommand::RSSI(name) => {
                self.rssi_path = sink_path(&name);
                true
            },
            InternalCommand::IFOUT(name) => {
                self.receive_data_path = sink_path(&name);
                true
            },
            InternalCommand::Nop => true,
            InternalCommand::END => false,
        }
    }

    /// The level-metric sink delivers only while its path is set.
    pub fn rssi_sink_enabled(&self) -> (r: bool)
        ensures
            r == (self.rssi_path@.len() > 0),
    {
        !self.rssi_path.as_str().is_empty()
    }

    /// The raw-sample sink delivers only while its path is set.
    pub fn receive_data_sink_enabled(&self) -> (r: bool)
        ensures
            r == (self.receive_data_path@.len() > 0),
    {
        !self.receive_data_path.as_str().is_empty()
    }

    /// A failed delivery disables the level-metric sink until reselected.
    pub fn disable_rssi_sink(&mut self)
        ensures
            final(self).if_filter == old(self).if_filter,
            final(self).agc == old(self).agc,
            final(self).af_filter == old(self).af_filter,
            final(self).rssi_path@ == Seq::<char>::empty(),
            final(self).receive_data_path@ == old(self).receive_data_path@,
    {
        self.rssi_path = String::new();
    }

    /// A failed delivery disables the raw-sample sink until reselected.
    pub fn disable_receive_data_sink(&mut self)
        ensures
            final(self).if_filter == old(self).if_filter,
            final(self).agc == old(self).agc,
            final(self).af_filter == old(self).af_filter,
            final(self).rssi_path@ == old(self).rssi_path@,
            final(self).receive_data_path@ == Seq::<char>::empty(),
    {
        self.receive_data_path = String::new();
    }
}

/// Resolves a sink name to its path, as `sink_path_for` states.
fn sink_path(name: &String) -> (r: String)
    ensures
        r@ == sink_path_for(name@),
{
    if str_eq(name.as_str(), "None") {
        String::new()
    } else {
        let mut path = String::from_str("/tmp/");
        path.append(name.as_str());
        path
    }
}

} // verus!
