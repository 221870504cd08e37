use discrete_derivative::Delta;
use discrete_derivative::DiscreteDerivativeIterExt;
use discrete_derivative::SliceProducer;
use discrete_derivative::VecProducer;
use float_cmp::ApproxEq;

#[test]
fn vec_works() {
    let mut deriv_iter = VecProducer::new(vec![1i64, 2, 1]).discrete_derivative();
    assert_eq!(deriv_iter.next(), Some(1));
    assert_eq!(deriv_iter.next(), Some(-1));
    assert_eq!(deriv_iter.next(), None);
}

#[test]
fn slice_works() {
    let mut deriv_iter = SliceProducer::new(&[1i64, 2, 1]).discrete_derivative();
    assert_eq!(deriv_iter.next(), Some(1));
    assert_eq!(deriv_iter.next(), Some(-1));
    assert_eq!(deriv_iter.next(), None);
}

/// A floating-point element type; floats stay outside the verified library,
/// so the subtraction capability is supplied here.
#[derive(Clone, Copy, Debug, PartialEq)]
struct Double(f64);

impl Delta for Double {
    type Out = f64;

    fn diff_defined(self, _prev: Double) -> bool {
        true
    }

    fn diff_spec(self, prev: Double) -> f64 {
        self.0 - prev.0
    }

    fn diff(self, prev: Double) -> f64 {
        self.0 - prev.0
    }
}

#[test]
fn doubles_work() {
    let mut deriv_iter =
        SliceProducer::new(&[Double(1.0), Double(2.1), Double(1.5)]).discrete_derivative();
    let result: f64 = deriv_iter.next().expect("test");
    assert!(result.approx_eq(1.1, (0.0, 2)));
    let result: f64 = deriv_iter.next().expect("test");
    assert!(result.approx_eq(-0.6, (0.0, 2)));
    assert_eq!(deriv_iter.next(), None);
}
