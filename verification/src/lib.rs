//! Verified core of a media pipeline: stream routing, codec selection, graph
//! resolution, and the decisions of the serial and the staged runner.
//!
//! Everything that reads, decodes, encodes or writes media happens outside:
//! the library is told what came back and answers what to do next.

pub mod barriers;
pub mod coming_to_end;
pub mod conduct;
pub mod convert;
pub mod crew;
pub mod crew_order;
pub mod crew_run;
pub mod dag;
pub mod decode_stage;
pub mod encode_stage;
pub mod error;
pub mod executor;
pub mod failure;
pub mod frame_stage;
pub mod handle;
pub mod instantiate;
pub mod media;
pub mod mux;
pub mod natural_end;
pub mod node_text;
pub mod output;
pub mod parity;
pub mod pipeline;
pub mod pixel;
pub mod ports;
pub mod preparation;
pub mod prepare;
pub mod progress;
pub mod pump;
pub mod queue_flow;
pub mod reports;
pub mod scripted;
pub mod selection;
pub mod serial;
pub mod source_stage;
pub mod sources;
pub mod staged;
pub mod stats;
pub mod stopping;
pub mod sums;
pub mod text;
pub mod topology;
pub mod track;
pub mod transcode;
pub mod uri;
pub mod whole_mux;
pub mod whole_pipeline;
pub mod whole_run;
pub mod whole_serial;
pub mod whole_sinks;
pub mod whole_source;
pub mod whole_staged;
pub mod whole_track;
pub mod whole_transcode;
pub mod workers;
