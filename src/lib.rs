//! Turn-based exploration and combat engine over a small world graph.
//!
//! The world is one owned registry (`monde::Monde`): every entity of the
//! world in `objets`, and the single player in `joueur`. Each operation
//! borrows it mutably for its duration and returns a structured result; all
//! text shown to the player, and every question asked, is left to the caller.
//!
//! - `modele`: the entities.
//! - `monde`: the registry, its rules and the quest monitor.
//! - `deplacement`: travel by boat between locations, moves inside one.
//! - `capture`: picking up objects, and handing world objects to the player.
//! - `fruit`: taking or swapping a fruit.
//! - `aliment`: eating, and the effects of an intoxicating consumable.
//! - `pnj`: interaction with characters, by behaviour.
//! - `combat`: the combat state machine and a whole combat.
//! - `vue`: read-only views for display.
//! - `lois`: properties that relate several operations.
//! - `texte`: the few text operations the engine relies on.

pub mod modele;
pub mod monde;
pub mod texte;
pub mod capture;
pub mod combat;
pub mod deplacement;
pub mod pnj;
pub mod fruit;
pub mod aliment;
pub mod vue;
pub mod lois;
