//! Backends that run workers and say what may be spent on them.

pub mod omp_scavenge;
