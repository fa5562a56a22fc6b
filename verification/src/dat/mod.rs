//! What a DAT catalogue says: the platform it describes and the releases its
//! hashes name.
pub mod audit;
pub mod classification;
pub mod identity;
pub mod rename_apply;
pub mod rom_organisation;
