pub mod classify_actors;
pub mod concurrency_or_parallelism;
pub mod exercise;
pub mod fingerprint;
pub mod frozen_ticker;
pub mod hint;
pub mod mental_model;
pub mod one_worker_service;
pub mod progress;
pub mod runner;
pub mod socket_read_trace;
pub mod split;
pub mod text;
pub mod text_order;
pub mod ui;
