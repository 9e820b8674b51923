use gymnust::spaces::box_space::{
    _broadcast, _short_repr, admits, resolve_generator, resolve_shape, Box, BoxError,
};
use gymnust::spaces::space::{Bound, Space};
use gymnust::tensor::{DType, Device, Number, Tensor};
use gymnust::utils::seeding::{rs_random, Seed};
use rand::RngCore;

fn numbers(values: &[i64]) -> Vec<Number> {
    values.iter().map(|v| Number::Finite(*v)).collect()
}

fn buffer(shape: &[usize], values: &[i64]) -> Tensor {
    Tensor::new(shape.to_vec(), numbers(values)).unwrap()
}

#[test]
fn short_repr_of_a_uniform_bound() {
    assert_eq!(_short_repr(buffer(&[3], &[-1, -1, -1])), "[-1]");
    assert_eq!(_short_repr(buffer(&[2, 2], &[7, 7, 7, 7])), "[7]");
    assert_eq!(_short_repr(buffer(&[1], &[0])), "[0]");
    assert_eq!(_short_repr(buffer(&[], &[12])), "[12]");
}

#[test]
fn short_repr_of_a_bound_that_varies() {
    assert_eq!(_short_repr(buffer(&[2], &[-1, 2])), "[-1, 2]");
    assert_eq!(_short_repr(buffer(&[2, 2], &[1, 1, 1, 2])), "[[1, 1], [1, 2]]");
    assert_eq!(_short_repr(buffer(&[3], &[2, 1, 1])), "[2, 1, 1]");
}

#[test]
fn short_repr_of_a_bound_without_elements() {
    assert_eq!(_short_repr(buffer(&[0], &[])), "[]");
    assert_eq!(_short_repr(buffer(&[2, 0], &[])), "[]");
    assert_eq!(_short_repr(buffer(&[0, 5], &[])), "[]");
}

#[test]
fn short_repr_of_infinite_bounds() {
    let below = Tensor::full(Number::NegInf, vec![2, 2]).unwrap();
    assert_eq!(_short_repr(below), "[-inf]");
    let above = Tensor::full(Number::PosInf, vec![3]).unwrap();
    assert_eq!(_short_repr(above), "[inf]");
    let mixed = Tensor::new(vec![2], vec![Number::NegInf, Number::Finite(0)]).unwrap();
    assert_eq!(_short_repr(mixed), "[-inf, 0]");
}

#[test]
fn broadcast_replaces_the_infinities() {
    let t = Tensor::new(
        vec![4],
        vec![Number::NegInf, Number::Finite(-1), Number::Finite(70000), Number::PosInf],
    )
    .unwrap();
    assert_eq!(_broadcast(t.clone(), DType::I16).data(), &numbers(&[-32768, -1, 32767, 32767]));
    assert_eq!(_broadcast(t.clone(), DType::U8).data(), &numbers(&[0, 0, 255, 255]));
    assert_eq!(
        _broadcast(t.clone(), DType::I64).data(),
        &numbers(&[i64::MIN, -1, 70000, i64::MAX])
    );
    assert_eq!(_broadcast(t, DType::U32).shape(), &vec![4]);
}

#[test]
fn scalar_bounds_take_the_given_shape() {
    for shape in [vec![], vec![1], vec![3], vec![2, 3], vec![2, 0], vec![4, 1, 2]] {
        let b = Box::new(
            Bound::Scalar(Number::Finite(-1)),
            Bound::Scalar(Number::Finite(1)),
            Some(shape.clone()),
            DType::I32,
            Some(Seed::USize(0)),
            None,
        );
        assert_eq!(b.shape(), &shape);
        assert_eq!(b.low().shape(), &shape);
        assert_eq!(b.high().shape(), &shape);
        assert_eq!(b.bounded_below().shape(), &shape);
        assert_eq!(b.bounded_above().shape(), &shape);
        let count: usize = shape.iter().product();
        assert_eq!(b.low().data(), &vec![Number::Finite(-1); count]);
        assert_eq!(b.high().data(), &vec![Number::Finite(1); count]);
    }
}

#[test]
fn buffer_bounds_give_their_shape() {
    let b = Box::new(
        Bound::Tensor(buffer(&[2, 2], &[0, 1, 2, 3])),
        Bound::Tensor(buffer(&[2, 2], &[10, 11, 12, 13])),
        None,
        DType::I64,
        Some(Seed::USize(1)),
        None,
    );
    assert_eq!(b.shape(), &vec![2, 2]);
    assert_eq!(b.low().shape(), &vec![2, 2]);
    assert_eq!(b.high().shape(), &vec![2, 2]);
    assert_eq!(b.low().data(), &numbers(&[0, 1, 2, 3]));
    assert_eq!(b.high().data(), &numbers(&[10, 11, 12, 13]));
    assert_eq!(b.low_repr(), "[[0, 1], [2, 3]]");
    assert_eq!(b.high_repr(), "[[10, 11], [12, 13]]");
}

#[test]
fn buffer_bounds_of_different_shapes_give_no_box() {
    let r = Box::try_new(
        Bound::Tensor(buffer(&[2, 2], &[0, 0, 0, 0])),
        Bound::Tensor(buffer(&[4], &[1, 1, 1, 1])),
        None,
        DType::I32,
        None,
        None,
    );
    assert_eq!(r.err(), Some(BoxError::ShapeMismatch));
    let r = Box::try_new(
        Bound::Tensor(buffer(&[2], &[0, 0])),
        Bound::Tensor(buffer(&[3], &[1, 1, 1])),
        None,
        DType::I32,
        Some(Seed::USize(3)),
        Some(Device::Cpu),
    );
    assert_eq!(r.err(), Some(BoxError::ShapeMismatch));
}

#[test]
fn scalar_bounds_without_a_shape_give_no_box() {
    let r = Box::try_new(
        Bound::Scalar(Number::Finite(0)),
        Bound::Scalar(Number::Finite(1)),
        None,
        DType::I32,
        None,
        None,
    );
    assert_eq!(r.err(), Some(BoxError::LowMustBeBuffer));
    let r = Box::try_new(
        Bound::Scalar(Number::Finite(0)),
        Bound::Tensor(buffer(&[2], &[1, 1])),
        None,
        DType::I32,
        None,
        None,
    );
    assert_eq!(r.err(), Some(BoxError::LowMustBeBuffer));
    let r = Box::try_new(
        Bound::Tensor(buffer(&[2], &[0, 0])),
        Bound::Scalar(Number::Finite(1)),
        None,
        DType::I32,
        None,
        None,
    );
    assert_eq!(r.err(), Some(BoxError::HighMustBeBuffer));
}

#[test]
fn texts_of_the_errors() {
    assert_eq!(BoxError::LowMustBeBuffer.message(), "Low must be a buffer");
    assert_eq!(BoxError::HighMustBeBuffer.message(), "High must be a buffer");
    assert_eq!(BoxError::ShapeMismatch.message(), "Low and high must have the same shape");
}

#[test]
fn resolve_shape_prefers_the_given_shape() {
    let low = Bound::Tensor(buffer(&[2], &[0, 0]));
    let high = Bound::Tensor(buffer(&[2], &[1, 1]));
    assert_eq!(resolve_shape(&low, &high, Some(vec![2])), Ok(vec![2]));
    assert_eq!(resolve_shape(&low, &high, None), Ok(vec![2]));
    let scalar = Bound::Scalar(Number::Finite(0));
    assert_eq!(resolve_shape(&scalar, &high, Some(vec![2])), Ok(vec![2]));
    assert_eq!(resolve_shape(&scalar, &high, None), Err(BoxError::LowMustBeBuffer));
    assert_eq!(resolve_shape(&low, &scalar, None), Err(BoxError::HighMustBeBuffer));
    assert_eq!(resolve_shape(&scalar, &scalar, None), Err(BoxError::LowMustBeBuffer));
    let other = Bound::Tensor(buffer(&[1, 2], &[1, 1]));
    assert_eq!(resolve_shape(&low, &other, None), Err(BoxError::ShapeMismatch));
}

#[test]
fn infinite_bounds_are_recorded_as_unbounded_and_stored_as_limits() {
    let b = Box::new(
        Bound::Tensor(
            Tensor::new(vec![3], vec![Number::NegInf, Number::Finite(-5), Number::NegInf]).unwrap(),
        ),
        Bound::Tensor(
            Tensor::new(vec![3], vec![Number::Finite(5), Number::PosInf, Number::PosInf]).unwrap(),
        ),
        None,
        DType::I16,
        Some(Seed::USize(9)),
        None,
    );
    assert_eq!(b.bounded_below().data(), &numbers(&[0, 1, 0]));
    assert_eq!(b.bounded_above().data(), &numbers(&[1, 0, 0]));
    assert_eq!(b.low().data(), &numbers(&[-32768, -5, -32768]));
    assert_eq!(b.high().data(), &numbers(&[5, 32767, 32767]));
    assert!(b.low().data().iter().all(|x| x.is_finite()));
    assert!(b.high().data().iter().all(|x| x.is_finite()));
    assert_eq!(b.low_repr(), "[-inf, -5, -inf]");
    assert_eq!(b.high_repr(), "[5, inf, inf]");
}

#[test]
fn infinite_scalar_bounds_fill_the_shape() {
    let b = Box::new(
        Bound::Scalar(Number::NegInf),
        Bound::Scalar(Number::PosInf),
        Some(vec![2, 2]),
        DType::U8,
        Some(Seed::USize(9)),
        Some(Device::Cuda(1)),
    );
    assert_eq!(b.bounded_below().data(), &numbers(&[0, 0, 0, 0]));
    assert_eq!(b.bounded_above().data(), &numbers(&[0, 0, 0, 0]));
    assert_eq!(b.low().data(), &numbers(&[0, 0, 0, 0]));
    assert_eq!(b.high().data(), &numbers(&[255, 255, 255, 255]));
    assert_eq!(b.low_repr(), "[-inf]");
    assert_eq!(b.high_repr(), "[inf]");
    assert_eq!(b.dtype(), DType::U8);
    assert_eq!(b.device(), Device::Cuda(1));
}

#[test]
fn a_finite_bound_at_the_limit_is_still_bounded() {
    let b = Box::new(
        Bound::Scalar(Number::Finite(0)),
        Bound::Scalar(Number::Finite(255)),
        Some(vec![2]),
        DType::U8,
        Some(Seed::USize(9)),
        None,
    );
    assert_eq!(b.bounded_below().data(), &numbers(&[1, 1]));
    assert_eq!(b.bounded_above().data(), &numbers(&[1, 1]));
    assert_eq!(b.low().data(), &numbers(&[0, 0]));
    assert_eq!(b.high().data(), &numbers(&[255, 255]));
}

#[test]
fn finite_bounds_outside_the_element_type_are_brought_inside() {
    let b = Box::new(
        Bound::Scalar(Number::Finite(-1000)),
        Bound::Scalar(Number::Finite(1000)),
        Some(vec![1]),
        DType::U8,
        Some(Seed::USize(9)),
        None,
    );
    assert_eq!(b.low().data(), &numbers(&[0]));
    assert_eq!(b.high().data(), &numbers(&[255]));
    assert_eq!(b.bounded_below().data(), &numbers(&[1]));
    assert_eq!(b.bounded_above().data(), &numbers(&[1]));
    assert_eq!(b.low_repr(), "[-1000]");
    assert_eq!(b.high_repr(), "[1000]");
}

#[test]
fn texts_of_the_bounds() {
    let b = Box::new(
        Bound::Tensor(buffer(&[3], &[-1, -1, -1])),
        Bound::Tensor(buffer(&[3], &[-1, 2, 2])),
        None,
        DType::I32,
        Some(Seed::USize(0)),
        None,
    );
    assert_eq!(b.low_repr(), "[-1]");
    assert_eq!(b.high_repr(), "[-1, 2, 2]");
    let empty = Box::new(
        Bound::Tensor(buffer(&[0], &[])),
        Bound::Tensor(buffer(&[0], &[])),
        None,
        DType::I32,
        Some(Seed::USize(0)),
        None,
    );
    assert_eq!(empty.low_repr(), "[]");
    assert_eq!(empty.high_repr(), "[]");
    assert_eq!(empty.shape(), &vec![0]);
}

#[test]
fn a_box_without_a_device_is_on_the_cpu() {
    let b = Box::new(
        Bound::Scalar(Number::Finite(0)),
        Bound::Scalar(Number::Finite(1)),
        Some(vec![1]),
        DType::I32,
        None,
        None,
    );
    assert_eq!(b.device(), Device::Cpu);
    let m = Box::new(
        Bound::Scalar(Number::Finite(0)),
        Bound::Scalar(Number::Finite(1)),
        Some(vec![1]),
        DType::I32,
        None,
        Some(Device::Metal(2)),
    );
    assert_eq!(m.device(), Device::Metal(2));
}

#[test]
fn a_numeric_seed_gives_the_generator_of_that_seed() {
    let b = Box::new(
        Bound::Scalar(Number::Finite(0)),
        Bound::Scalar(Number::Finite(1)),
        Some(vec![1]),
        DType::I32,
        Some(Seed::USize(42)),
        None,
    );
    assert_eq!(b.rs_random(), &rs_random(Some(42)).0);
}

#[test]
fn a_given_generator_is_taken_over_as_it_is() {
    let (mut generator, _) = rs_random(Some(5));
    generator.next_u64();
    generator.next_u64();
    let b = Box::new(
        Bound::Scalar(Number::Finite(0)),
        Bound::Scalar(Number::Finite(1)),
        Some(vec![1]),
        DType::I32,
        Some(Seed::Generator(generator.clone())),
        None,
    );
    assert_eq!(b.rs_random(), &generator);
    assert_ne!(b.rs_random(), &rs_random(Some(5)).0);
}

#[test]
fn resolve_generator_follows_the_seed() {
    assert_eq!(resolve_generator(Some(Seed::USize(11))), rs_random(Some(11)).0);
    let (mut given, _) = rs_random(Some(11));
    given.next_u64();
    assert_eq!(resolve_generator(Some(Seed::Generator(given.clone()))), given);
    assert_ne!(resolve_generator(None), resolve_generator(None));
}

#[test]
fn reseeding_replaces_the_generator() {
    let mut b = Box::new(
        Bound::Scalar(Number::Finite(-1)),
        Bound::Scalar(Number::PosInf),
        Some(vec![2]),
        DType::I32,
        Some(Seed::USize(1)),
        None,
    );
    let before = b.clone();
    let seeds = b.seed(Some(42));
    assert_eq!(seeds, vec![42]);
    assert_eq!(b.rs_random(), &rs_random(Some(42)).0);
    let mut drawn = b.rs_random().clone();
    assert_eq!(drawn.next_u64(), 1581911519303979561);
    assert_eq!(drawn.next_u64(), 5726079574540882823);
    assert_eq!(b.shape(), before.shape());
    assert_eq!(b.dtype(), before.dtype());
    assert_eq!(b.device(), before.device());
    assert_eq!(b.low().data(), before.low().data());
    assert_eq!(b.high().data(), before.high().data());
    assert_eq!(b.low_repr(), before.low_repr());
    assert_eq!(b.high_repr(), before.high_repr());
    assert_eq!(b.bounded_below().data(), before.bounded_below().data());
    assert_eq!(b.bounded_above().data(), before.bounded_above().data());
}

#[test]
fn reseeding_does_not_depend_on_the_generator_before() {
    let mut first = Box::new(
        Bound::Scalar(Number::Finite(0)),
        Bound::Scalar(Number::Finite(1)),
        Some(vec![1]),
        DType::I32,
        Some(Seed::USize(1)),
        None,
    );
    let (mut used, _) = rs_random(Some(2));
    used.next_u64();
    let mut second = Box::new(
        Bound::Scalar(Number::Finite(0)),
        Bound::Scalar(Number::Finite(1)),
        Some(vec![1]),
        DType::I32,
        Some(Seed::Generator(used)),
        None,
    );
    assert_ne!(first.rs_random(), second.rs_random());
    assert_eq!(first.seed(Some(7)), vec![7]);
    assert_eq!(second.seed(Some(7)), vec![7]);
    assert_eq!(first.rs_random(), second.rs_random());
}

#[test]
fn reseeding_without_a_seed_reports_the_seed_it_drew() {
    let mut b = Box::new(
        Bound::Scalar(Number::Finite(0)),
        Bound::Scalar(Number::Finite(1)),
        Some(vec![1]),
        DType::I32,
        Some(Seed::USize(1)),
        None,
    );
    let seeds = b.seed(None);
    assert_eq!(seeds.len(), 1);
    assert_eq!(b.rs_random(), &rs_random(Some(seeds[0])).0);
}

#[test]
fn a_box_can_be_flattened() {
    let b = Box::new(
        Bound::Scalar(Number::Finite(0)),
        Bound::Scalar(Number::Finite(1)),
        Some(vec![2, 2]),
        DType::I32,
        None,
        None,
    );
    assert!(b.is_flattenable());
}

#[test]
fn clone_of_a_box_is_the_same_box() {
    let b = Box::new(
        Bound::Scalar(Number::NegInf),
        Bound::Tensor(buffer(&[2], &[3, 4])),
        Some(vec![2]),
        DType::I16,
        Some(Seed::USize(8)),
        Some(Device::Cuda(0)),
    );
    let c = b.clone();
    assert_eq!(c.shape(), b.shape());
    assert_eq!(c.dtype(), b.dtype());
    assert_eq!(c.device(), b.device());
    assert_eq!(c.rs_random(), b.rs_random());
    assert_eq!(c.low().data(), b.low().data());
    assert_eq!(c.high().data(), b.high().data());
    assert_eq!(c.low_repr(), b.low_repr());
    assert_eq!(c.high_repr(), b.high_repr());
    assert_eq!(c.bounded_below().data(), b.bounded_below().data());
    assert_eq!(c.bounded_above().data(), b.bounded_above().data());
}

#[test]
fn with_generator_builds_the_same_box_as_try_new() {
    let (generator, _) = rs_random(Some(3));
    let direct = Box::with_generator(
        Bound::Scalar(Number::Finite(-2)),
        Bound::Scalar(Number::PosInf),
        vec![2],
        DType::I32,
        generator,
        Device::Cpu,
    );
    let built = Box::try_new(
        Bound::Scalar(Number::Finite(-2)),
        Bound::Scalar(Number::PosInf),
        Some(vec![2]),
        DType::I32,
        Some(Seed::USize(3)),
        None,
    )
    .unwrap();
    assert_eq!(direct.shape(), built.shape());
    assert_eq!(direct.rs_random(), built.rs_random());
    assert_eq!(direct.low().data(), built.low().data());
    assert_eq!(direct.high().data(), built.high().data());
    assert_eq!(direct.bounded_above().data(), built.bounded_above().data());
    assert_eq!(direct.high_repr(), "[inf]");
}

#[test]
fn admits_says_which_given_shapes_can_be_used() {
    let scalar = Bound::Scalar(Number::Finite(0));
    let pair = Bound::Tensor(buffer(&[2], &[0, 0]));
    let triple = Bound::Tensor(buffer(&[3], &[0, 0, 0]));
    assert!(admits(&scalar, &scalar, &None));
    assert!(admits(&pair, &triple, &None));
    assert!(admits(&scalar, &scalar, &Some(vec![2, 2])));
    assert!(admits(&scalar, &pair, &Some(vec![2])));
    assert!(admits(&pair, &pair, &Some(vec![2])));
    assert!(!admits(&pair, &scalar, &Some(vec![3])));
    assert!(!admits(&scalar, &triple, &Some(vec![2])));
    assert!(!admits(&pair, &triple, &Some(vec![2])));
    assert!(!admits(&pair, &pair, &Some(vec![1, 2])));
    assert!(!admits(&scalar, &scalar, &Some(vec![usize::MAX, 2])));
    assert!(admits(&scalar, &scalar, &Some(vec![usize::MAX, 0])));
}

#[test]
fn a_box_takes_every_value_for_an_element() {
    let b = Box::new(
        Bound::Scalar(Number::Finite(0)),
        Bound::Scalar(Number::Finite(1)),
        Some(vec![2]),
        DType::I32,
        None,
        None,
    );
    assert!(b.contains(buffer(&[2], &[0, 1])));
    assert!(b.contains(5u8));
}
