use hypersphere::factorials::{
    double_factorial, factorial, MAX_DOUBLE_FACTORIAL_ARG, MAX_FACTORIAL_ARG,
};
use hypersphere::gamma::{gamma_half_integer, HalfGamma, MAX_DIMENSION};
use hypersphere::volume::{hyper_sphere_volume, VolumeForm};
use std::f64::consts::PI;

fn evaluate(v: &VolumeForm, radius: f64) -> f64 {
    v.coef_num as f64 / v.coef_den as f64 * PI.powi(v.pi_power as i32)
        * radius.powi(v.radius_power as i32)
}

fn unit_volume(dimension: u64) -> f64 {
    evaluate(&hyper_sphere_volume(dimension), 1.0)
}

fn close(a: f64, b: f64) -> bool {
    (a - b).abs() <= 1e-9 * b.abs().max(1.0)
}

#[test]
fn factorial_of_zero_and_five() {
    assert_eq!(factorial(0), 1);
    assert_eq!(factorial(5), 120);
}

#[test]
fn factorial_at_the_largest_argument() {
    assert_eq!(factorial(MAX_FACTORIAL_ARG), 2432902008176640000);
}

#[test]
fn double_factorial_of_zero_five_and_six() {
    assert_eq!(double_factorial(0), 1);
    assert_eq!(double_factorial(5), 15);
    assert_eq!(double_factorial(6), 48);
}

#[test]
fn double_factorial_of_one_and_the_largest_argument() {
    assert_eq!(double_factorial(1), 1);
    assert_eq!(double_factorial(MAX_DOUBLE_FACTORIAL_ARG), 6332659870762850625);
}

#[test]
fn gamma_of_even_dimension_is_a_factorial() {
    assert_eq!(gamma_half_integer(0), HalfGamma { num: 1, den: 1, with_sqrt_pi: false });
    assert_eq!(gamma_half_integer(4), HalfGamma { num: 2, den: 1, with_sqrt_pi: false });
    assert_eq!(gamma_half_integer(10), HalfGamma { num: 120, den: 1, with_sqrt_pi: false });
}

#[test]
fn gamma_of_odd_dimension_has_square_root_of_pi() {
    // Γ(3/2) = √π / 2, Γ(7/2) = 15 √π / 8
    assert_eq!(gamma_half_integer(1), HalfGamma { num: 1, den: 2, with_sqrt_pi: true });
    assert_eq!(gamma_half_integer(5), HalfGamma { num: 15, den: 8, with_sqrt_pi: true });
}

#[test]
fn gamma_at_the_largest_dimension() {
    assert_eq!(
        gamma_half_integer(MAX_DIMENSION),
        HalfGamma { num: 355687428096000, den: 1, with_sqrt_pi: false }
    );
    assert_eq!(
        gamma_half_integer(MAX_DIMENSION - 1),
        HalfGamma { num: 6332659870762850625, den: 131072, with_sqrt_pi: true }
    );
}

#[test]
fn volume_is_never_negative() {
    for dimension in 0..=MAX_DIMENSION {
        let v = hyper_sphere_volume(dimension);
        assert!(v.coef_num >= 1 && v.coef_den >= 1);
        for radius in [0.0, 0.5, 1.0, 3.0] {
            assert!(evaluate(&v, radius) >= 0.0);
        }
    }
}

#[test]
fn volume_of_dimension_one_is_the_diameter() {
    let v = hyper_sphere_volume(1);
    assert_eq!(v, VolumeForm { coef_num: 2, coef_den: 1, pi_power: 0, radius_power: 1 });
    assert!(close(evaluate(&v, 2.5), 5.0));
}

#[test]
fn volume_of_dimension_two_is_the_disc_area() {
    let v = hyper_sphere_volume(2);
    assert_eq!(v, VolumeForm { coef_num: 1, coef_den: 1, pi_power: 1, radius_power: 2 });
    assert!(close(evaluate(&v, 3.0), PI * 9.0));
}

#[test]
fn volume_of_dimension_three_is_the_ball() {
    let v = hyper_sphere_volume(3);
    assert_eq!(v, VolumeForm { coef_num: 4, coef_den: 3, pi_power: 1, radius_power: 3 });
    assert!(close(evaluate(&v, 2.0), 4.0 / 3.0 * PI * 8.0));
}

#[test]
fn volume_of_dimension_zero_is_one() {
    let v = hyper_sphere_volume(0);
    assert_eq!(v, VolumeForm { coef_num: 1, coef_den: 1, pi_power: 0, radius_power: 0 });
    assert_eq!(evaluate(&v, 1.0), 1.0);
}

#[test]
fn unit_volume_peaks_at_dimension_five() {
    for dimension in 1..5 {
        assert!(unit_volume(dimension) < unit_volume(dimension + 1));
    }
    for dimension in 5..22 {
        assert!(unit_volume(dimension) > unit_volume(dimension + 1));
    }
}

#[test]
fn unit_five_ball_volume() {
    let v = hyper_sphere_volume(5);
    assert_eq!(v, VolumeForm { coef_num: 8, coef_den: 15, pi_power: 2, radius_power: 5 });
    assert!((unit_volume(5) - 5.263789).abs() < 1e-6);
    assert!(close(unit_volume(5), 8.0 * PI * PI / 15.0));
}

#[test]
fn two_dimensions_up_multiplies_by_two_pi_over_n_plus_two() {
    for dimension in 0..=MAX_DIMENSION - 2 {
        let ratio = unit_volume(dimension + 2) / unit_volume(dimension);
        assert!(close(ratio, 2.0 * PI / (dimension + 2) as f64));
    }
}

#[test]
fn volume_at_the_largest_dimension() {
    let v = hyper_sphere_volume(MAX_DIMENSION);
    assert_eq!(
        v,
        VolumeForm { coef_num: 1, coef_den: 355687428096000, pi_power: 17, radius_power: 34 }
    );
}
