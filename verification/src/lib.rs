//! Verified core of a self-taught chess program.
//!
//! The modules hold the decisions of the project: move grading, duels,
//! material search, opening and endgame starting points, the adaptive rating
//! ladder, network files, the match and its records, the game server's
//! session. Input and output live around this crate.

pub mod arbitre;
pub mod arena;
pub mod banc;
pub mod bots;
pub mod calibration;
pub mod checkpoints;
pub mod commandes;
pub mod corpus;
pub mod cycle;
pub mod departs;
pub mod direct;
pub mod echiquier;
pub mod elo;
pub mod entree;
pub mod features;
pub mod features_roi;
pub mod graines;
pub mod jeu;
pub mod livre;
pub mod livre_lois;
pub mod nn;
pub mod options;
pub mod pgn;
pub mod reels;
pub mod rejeu;
pub mod rencontre;
pub mod serveur;
pub mod suivi;
pub mod texte;
