//! A one-dimensional wave equation solver: finite differences in space and
//! an explicit two-stage midpoint scheme in time.
pub mod wavetoy;
