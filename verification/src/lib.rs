//! Neuro-evolution core: chromosomes, genetic operators, a generational
//! step over abstract individuals, and the genome codec of a feed-forward
//! network.
//!
//! Every gene is held as the bit pattern of an IEEE-754 single-precision
//! number, so that storing, recombining and re-ordering genes is exact.
pub mod chromosome;
pub mod random;
pub mod individual;
pub mod selection;
pub mod crossover;
pub mod mutation;
pub mod genetic;
pub mod network;
