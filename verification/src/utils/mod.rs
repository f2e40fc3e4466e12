//! Containers shared by the guest models and the translator.

pub mod btree_range;
