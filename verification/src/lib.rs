//! A registry of kitties: creatures with a 128-bit genome that accounts
//! create, breed and hand to one another, each backed by stake that its
//! owner keeps reserved.
//!
//! [`pallet::Pallet`] is the registry; [`registry::State`] says what it holds
//! and what every call makes of it; [`laws`] states what holds whatever is
//! asked of it. [`genome`] derives and breeds genomes, [`custody`] keeps the
//! stake. Two small utilities stand beside them: [`checked_sum`] and
//! [`traffic_light`].

pub mod checked_sum;
pub mod custody;
pub mod genome;
pub mod hashing;
pub mod invariants;
pub mod laws;
pub mod pallet;
pub mod registry;
pub mod traffic_light;
pub mod types;
