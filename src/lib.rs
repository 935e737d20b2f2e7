//! Ten-pin bowling scoring, with two segmentation strategies proved to agree,
//! and a FizzBuzz that names the numbers it does not replace.

pub mod frame;
pub mod imperative;
pub mod recursive;
pub mod laws;
pub mod names;
pub mod fizzbuzz;
