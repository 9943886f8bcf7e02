use rand::Rng;
use vstd::prelude::*;

verus! {

/// Draws an integer uniformly from `min..=max` with `rand`'s thread-local
/// generator (`rand::Rng::gen_range` on an inclusive range of `i32`).
/// The contract states only that the result lies in the range; which value is
/// drawn depends on the generator's state and is left unsaid. `gen_range`
/// panics on an empty range, so `requires` excludes `min > max`.
#[verifier::external_body]
fn sample_inclusive(min: i32, max: i32) -> (r: i32)
    requires
        min <= max,
    ensures
        min <= r <= max,
{
    rand::thread_rng().gen_range(min..=max)
}

/// A random integer in the closed range `[min, max]`.
pub fn rand_range_int(min: i32, max: i32) -> (r: i32)
    requires
        min <= max,
    ensures
        min <= r <= max,
{
    sample_inclusive(min, max)
}

/// Whether the build runs under continuous integration: the value of the
/// `CI` variable, `ci_env`, is exactly `true`.
pub fn is_ci(ci_env: Option<&str>) -> (r: bool)
    ensures
        r == (match ci_env {
            Some(v) => v@ == seq!['t', 'r', 'u', 'e'],
            None => false,
        }),
{
    proof {
        reveal_strlit("true");
    }
    assert("true"@ =~= seq!['t', 'r', 'u', 'e']);
    match ci_env {
        Some(v) => v.to_owned() == "true".to_owned(),
        None => false,
    }
}

} // verus!
