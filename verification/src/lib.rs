//! A checker for an imperative language whose function signatures carry
//! refinement types over machine words and an explicit ownership discipline
//! for heap cells, named resources and resource families.
//!
//! A program arrives as a syntax tree ([`parse::expr`], [`parse::types`]).
//! [`parse::desugar`] lowers it into the typed language of [`refinement`],
//! and [`refinement::typing`] checks every function body against its
//! signature: every resource that is used must be owned, and none may be
//! left over. Whether a proposition follows from the facts at hand is put
//! to an [`Oracle`](refinement::oracle::Oracle).

pub mod parse;
pub mod refinement;
