//! What the bytes and names of game files say about them, and what a library of
//! such files could be made into.
//!
//! * Detectors read small, bounded pieces of a file and state neutral facts
//!   ([`content_evidence`], [`playstation_boot_evidence`] and its relatives).
//! * [`platform_evidence_fusion`] combines facts into a platform, sets that
//!   beside what a DAT says, groups files into duplicates, revisions and disc
//!   sets, and shows and freezes plans.
//! * [`platform_evidence_fusion::plan_transaction`] turns a frozen and approved
//!   plan into a batch of moves, and [`platform_evidence_fusion::plan_apply`]
//!   says, step by step, how to carry it out and how to take it back.
//!
//! Nothing in the library touches a disk, a clock or a network: what has to be
//! observed is passed in, and what has to be done is handed out.
pub mod boot_laws;
pub mod bytes;
pub mod content_detector;
pub mod content_evidence;
pub mod content_evidence_scope;
pub mod crc32;
pub mod dat;
pub mod executable_signatures;
pub mod game_identity;
pub mod grouping;
pub mod label_laws;
pub mod order;
pub mod param_sfo;
pub mod path;
pub mod platform;
pub mod platform_evidence_fusion;
pub mod platform_identity;
pub mod playstation_boot_evidence;
pub mod ps2_boot_evidence;
pub mod ps3_boot_evidence;
pub mod psp_boot_evidence;
pub mod rearranged;
pub mod scope_laws;
pub mod seqs;
pub mod text;
pub mod text_laws;
pub mod text_set;
