//! Beacon: zone detection from ambient and ultrasonic sound.
//!
//! The verified core of the toolkit: constellation peaks and combinatorial
//! hashing, offset-histogram matching, stored signatures, the daemon's
//! dialogues, the zone monitor, and the visualiser's protocol.

pub mod audio;
pub mod base64;
pub mod bloom;
pub mod capture;
pub mod cli;
pub mod connection;
pub mod daemon;
pub mod database;
pub mod detection;
pub mod dialogue;
pub mod embeddings;
pub mod fingerprint;
pub mod hashing;
pub mod http;
pub mod ieee;
pub mod matching;
pub mod microphone;
pub mod monitor;
pub mod page;
pub mod signature;
pub mod spectrogram;
pub mod text;
pub mod wire;
pub mod zone_api;
