//! Logic of a visualizer for recorded robot localization runs.
//!
//! The library reads the messages of a recording, aligns camera images, detections and
//! poses in time, plans the replay of the recording through a localization backend and keeps
//! the state of the user interface. Drawing, solving and decoding of message payloads happen
//! outside; they meet the library through plain values.

pub mod camera_matrices;
pub mod course;
pub mod detections;
pub mod diagnostics;
pub mod event;
pub mod framing;
pub mod images;
pub mod interface;
pub mod joints;
pub mod labels;
pub mod loading;
pub mod matching;
pub mod mesh;
pub mod messages;
pub mod motions;
pub mod order;
pub mod playback;
pub mod recording;
pub mod replay;
pub mod resolve;
pub mod scene;
pub mod shown;
pub mod snapshot;
pub mod stats;
pub mod steps;
pub mod stream;
pub mod time;
pub mod topics;
pub mod trajectory;
pub mod wire;
