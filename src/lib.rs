//! Volumes of `n`-dimensional balls, `V_n(r) = π^(n/2) / Γ(n/2 + 1) · r^n`, in exact closed
//! form: a rational coefficient, a power of `π` and a power of the radius.
pub mod factorials;
pub mod gamma;
pub mod volume;
