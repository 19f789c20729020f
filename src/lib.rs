//! A small logistic-regression toolkit: the exact parts of a train/evaluate
//! pipeline, proved correct with Verus. It checks the shape of a table,
//! shuffles and splits its rows for training and testing, runs the iteration
//! scheme of batch gradient descent around a caller's step, counts the
//! outcomes of a binary prediction and derives accuracy, precision, recall
//! and F1 score from them as exact fractions, and decides the navigation of
//! a wizard-style front end.
pub mod descent;
pub mod metrics;
pub mod pages;
pub mod ratio;
pub mod shape;
pub mod split;
