//! The box space: a closed interval for every element of a buffer.

use crate::spaces::space::{Bound, BoundView, Space};
use crate::tensor::{
    checked_count, copy_of, count, flag, is_greatest, is_least, uniform, DType, Device, Number,
    Tensor, TensorView,
};
use crate::utils::seeding::{rs_random, seeded_generator, Generator, Seed};
use vstd::pervasive::unreached;
use vstd::prelude::*;
use vstd::string::*;

verus! {

/// The short text of a bound: `[]` for a buffer without elements, the one
/// value in square brackets where all elements are the same, and else the
/// text of the whole buffer.
pub open spec fn short_repr(t: TensorView) -> Seq<char> {
    if t.data.len() == 0 {
        seq!['[', ']']
    } else if uniform(t.data) {
        seq!['['] + t.data[0].text() + seq![']']
    } else {
        t.text()
    }
}

/// The least and the greatest element of a buffer are the same exactly where
/// all its elements are, and then they are its first element.
pub proof fn lemma_uniform_by_extremes(data: Seq<Number>, least: Number, greatest: Number)
    requires
        is_least(data, least),
        is_greatest(data, greatest),
    ensures
        least == greatest <==> uniform(data),
        uniform(data) ==> least == data[0],
{
    let at_least = choose|i: int| 0 <= i < data.len() && data[i] == least;
    let at_greatest = choose|i: int| 0 <= i < data.len() && data[i] == greatest;
    if least == greatest {
        assert forall|i: int| 0 <= i < data.len() implies #[trigger] data[i] == data[0] by {
            assert(!data[i].below(least) && !least.below(data[i]));
            assert(!data[0].below(least) && !least.below(data[0]));
        }
    }
    if uniform(data) {
        assert(data[at_least] == data[0]);
        assert(data[at_greatest] == data[0]);
    }
}

/// The short text of a bound: `[]` for a buffer without elements, the one
/// value in square brackets where all elements are the same, and else the
/// text of the whole buffer.
pub fn _short_repr(arr: Tensor) -> (r: String)
    ensures
        r@ == short_repr(arr@),
{
    let arr_size = arr.elem_count();
    if arr_size == 0 {
        proof {
            reveal_strlit("[]");
        }
        let r = String::from_str("[]");
        assert(r@ =~= short_repr(arr@));
        return r;
    }
    let min = arr.min();
    let max = arr.max();
    match (min, max) {
        (Some(min), Some(max)) => {
            proof {
                lemma_uniform_by_extremes(arr@.data, min, max);
                reveal_strlit("[");
                reveal_strlit("]");
            }
            if min == max {
                let mut r = String::from_str("[");
                min.push_text(&mut r);
                r.append("]");
                assert(r@ =~= short_repr(arr@));
                r
            } else {
                arr.to_string()
            }
        },
        _ => arr.to_string(),
    }
}

/// A buffer as a box stores it: every element brought into the range of the
/// element type, negative infinity to its least and positive infinity to its
/// greatest value.
pub open spec fn broadcast(t: TensorView, dtype: DType) -> TensorView {
    t.clamped(Number::Finite(dtype.lower() as i64), Number::Finite(dtype.upper() as i64))
}

/// Brings every element of `value` into the range of `dtype`, which replaces
/// the infinities by the least and the greatest value of the type.
pub fn _broadcast(value: Tensor, dtype: DType) -> (r: Tensor)
    ensures
        r@ == broadcast(value@, dtype),
{
    value.clamp(Number::Finite(dtype.min_value()), Number::Finite(dtype.max_value()))
}

/// Why a box cannot be built.
#[derive(Clone, Copy, Debug, PartialEq, Eq, Structural)]
pub enum BoxError {
    /// No shape was given, and the lower bound is a single number.
    LowMustBeBuffer,
    /// No shape was given, and the upper bound is a single number.
    HighMustBeBuffer,
    /// No shape was given, and the two bounds differ in shape.
    ShapeMismatch,
}

impl BoxError {
    /// The text of the error.
    pub open spec fn text(self) -> Seq<char> {
        match self {
            BoxError::LowMustBeBuffer => "Low must be a buffer"@,
            BoxError::HighMustBeBuffer => "High must be a buffer"@,
            BoxError::ShapeMismatch => "Low and high must have the same shape"@,
        }
    }

    /// The text of the error.
    pub fn message(self) -> (r: String)
        ensures
            r@ == self.text(),
    {
        match self {
            BoxError::LowMustBeBuffer => String::from_str("Low must be a buffer"),
            BoxError::HighMustBeBuffer => String::from_str("High must be a buffer"),
            BoxError::ShapeMismatch => String::from_str("Low and high must have the same shape"),
        }
    }
}

/// The shape that was given, if any.
pub open spec fn given_shape(shape: Option<Vec<usize>>) -> Option<Seq<usize>> {
    match shape {
        Some(s) => Some(s@),
        None => None,
    }
}

/// The shape of a box: the one that was given, and else the shape that the
/// two bounds share, which then both have to be buffers.
pub open spec fn resolved_shape(
    low: BoundView,
    high: BoundView,
    shape: Option<Seq<usize>>,
) -> Result<Seq<usize>, BoxError> {
    match shape {
        Some(s) => Ok(s),
        None => match (low, high) {
            (BoundView::Scalar(_), _) => Err(BoxError::LowMustBeBuffer),
            (BoundView::Tensor(_), BoundView::Scalar(_)) => Err(BoxError::HighMustBeBuffer),
            (BoundView::Tensor(l), BoundView::Tensor(h)) => if l.shape == h.shape {
                Ok(l.shape)
            } else {
                Err(BoxError::ShapeMismatch)
            },
        },
    }
}

/// Whether a bound can serve in a box of the given shape: a single number
/// always can, a buffer where it has that shape.
pub open spec fn suits(bound: BoundView, shape: Seq<usize>) -> bool {
    bound matches BoundView::Tensor(t) ==> t.shape == shape
}

/// Whether a shape that was given can be used with the two bounds: the
/// bounds that are buffers have that shape, and where a single number is to
/// fill the shape, its elements can be counted in a `usize`.
pub open spec fn admissible(low: BoundView, high: BoundView, shape: Option<Seq<usize>>) -> bool {
    shape matches Some(s) ==> {
        &&& suits(low, s)
        &&& suits(high, s)
        &&& low is Scalar || high is Scalar ==> count(s) <= usize::MAX
    }
}

/// Whether a bound can serve in a box of the given shape.
fn bound_suits(bound: &Bound, shape: &Vec<usize>) -> (r: bool)
    ensures
        r == suits(bound@, shape@),
{
    match bound {
        Bound::Scalar(_) => true,
        Bound::Tensor(t) => t.has_shape(shape),
    }
}

/// Whether a shape that was given can be used with the two bounds, which is
/// what building a box asks of its caller.
pub fn admits(low: &Bound, high: &Bound, shape: &Option<Vec<usize>>) -> (r: bool)
    ensures
        r == admissible(low@, high@, given_shape(*shape)),
{
    match shape {
        None => true,
        Some(s) => {
            if !bound_suits(low, s) || !bound_suits(high, s) {
                return false;
            }
            let fills = match (low, high) {
                (Bound::Tensor(_), Bound::Tensor(_)) => false,
                _ => true,
            };
            !fills || checked_count(s).is_some()
        },
    }
}

/// What a box is.
pub struct BoxView {
    /// The shape of the elements of the space.
    pub shape: Seq<usize>,
    /// The integer type of the elements.
    pub dtype: DType,
    /// The generator that sampling draws from.
    pub generator: Generator,
    /// Where the buffers are placed.
    pub device: Device,
    /// The lower bound of every element, within the range of `dtype`.
    pub low: TensorView,
    /// The upper bound of every element, within the range of `dtype`.
    pub high: TensorView,
    /// The short text of the lower bound as it was given.
    pub low_repr: Seq<char>,
    /// The short text of the upper bound as it was given.
    pub high_repr: Seq<char>,
    /// For every element 1 where its lower bound was given above negative
    /// infinity, else 0.
    pub bounded_below: TensorView,
    /// For every element 1 where its upper bound was given below positive
    /// infinity, else 0.
    pub bounded_above: TensorView,
}

impl BoxView {
    /// Whether `t` has the shape of the box and an element for each place.
    pub open spec fn shaped(self, t: TensorView) -> bool {
        t.shape == self.shape && t.data.len() == count(self.shape)
    }

    /// What holds of every box: the four buffers have its shape; the bounds
    /// are integers in the range of the element type; the flags are 0 or 1;
    /// and a bound that was given as infinite is stored as the limit of the
    /// element type.
    pub open spec fn wf(self) -> bool {
        &&& self.shaped(self.low)
        &&& self.shaped(self.high)
        &&& self.shaped(self.bounded_below)
        &&& self.shaped(self.bounded_above)
        &&& forall|i: int|
            0 <= i < count(self.shape) ==> (#[trigger] self.low.data[i] matches Number::Finite(v)
                && self.dtype.lower() <= v <= self.dtype.upper())
        &&& forall|i: int|
            0 <= i < count(self.shape) ==> (#[trigger] self.high.data[i] matches Number::Finite(v)
                && self.dtype.lower() <= v <= self.dtype.upper())
        &&& forall|i: int|
            0 <= i < count(self.shape) ==> {
                let f = #[trigger] self.bounded_below.data[i];
                (f == flag(true) || f == flag(false)) && (f == flag(false) ==> self.low.data[i]
                    == Number::Finite(self.dtype.lower() as i64))
            }
        &&& forall|i: int|
            0 <= i < count(self.shape) ==> {
                let f = #[trigger] self.bounded_above.data[i];
                (f == flag(true) || f == flag(false)) && (f == flag(false) ==> self.high.data[i]
                    == Number::Finite(self.dtype.upper() as i64))
            }
    }
}

/// The box that is built from the two bounds for a shape that has been
/// resolved. Which elements are bounded, and the short texts, are taken from
/// the bounds as they were given; only then are the bounds brought into the
/// range of the element type.
pub open spec fn assembled(
    low: BoundView,
    high: BoundView,
    shape: Seq<usize>,
    dtype: DType,
    generator: Generator,
    device: Device,
) -> BoxView {
    let given_low = low.materialized(shape);
    let given_high = high.materialized(shape);
    BoxView {
        shape,
        dtype,
        generator,
        device,
        low: broadcast(given_low, dtype),
        high: broadcast(given_high, dtype),
        low_repr: short_repr(given_low),
        high_repr: short_repr(given_high),
        bounded_below: given_low.above(Number::NegInf),
        bounded_above: given_high.beneath(Number::PosInf),
    }
}

/// A box built from bounds that suit its shape has all that holds of every
/// box; its shape is the resolved one, and so is that of both bounds.
pub proof fn lemma_assembled_is_wf(
    low: BoundView,
    high: BoundView,
    shape: Seq<usize>,
    dtype: DType,
    generator: Generator,
    device: Device,
)
    requires
        suits(low, shape),
        suits(high, shape),
        low matches BoundView::Tensor(t) ==> t.wf(),
        high matches BoundView::Tensor(t) ==> t.wf(),
    ensures
        assembled(low, high, shape, dtype, generator, device).wf(),
        assembled(low, high, shape, dtype, generator, device).shape == shape,
        assembled(low, high, shape, dtype, generator, device).low.shape == shape,
        assembled(low, high, shape, dtype, generator, device).high.shape == shape,
{
}

/// Whether a box records the bounds as they were given: an element counts as
/// bounded below exactly where its lower bound was given above negative
/// infinity, and as bounded above exactly where its upper bound was given
/// below positive infinity, while the bounds that the box stores are integers
/// all the same.
pub open spec fn records_given_bounds(low: BoundView, high: BoundView, b: BoxView) -> bool {
    forall|i: int|
        0 <= i < count(b.shape) ==> {
            &&& #[trigger] b.bounded_below.data[i] == flag(
                Number::NegInf.below(low.materialized(b.shape).data[i]),
            )
            &&& #[trigger] b.bounded_above.data[i] == flag(
                high.materialized(b.shape).data[i].below(Number::PosInf),
            )
            &&& b.low.data[i] is Finite
            &&& b.high.data[i] is Finite
        }
}

/// Whether `g` is the generator that `seed` asks for: the one that a given
/// number yields, the given generator itself, or, without a seed, one that
/// some number yields.
pub open spec fn generator_for(seed: Option<Seed>, g: Generator) -> bool {
    match seed {
        Some(Seed::USize(n)) => g == seeded_generator(n as u64),
        Some(Seed::Generator(h)) => g == h,
        None => exists|n: u64| g == #[trigger] seeded_generator(n),
    }
}

/// What building a box gives: the error that resolving the shape gives, or
/// else the box that is assembled for the resolved shape, with the generator
/// that `seed` asks for, on the given device or else on the CPU.
pub open spec fn built_as(
    low: BoundView,
    high: BoundView,
    shape: Option<Seq<usize>>,
    dtype: DType,
    seed: Option<Seed>,
    device: Option<Device>,
    r: Result<Box, BoxError>,
) -> bool {
    match resolved_shape(low, high, shape) {
        Err(e) => r == Err::<Box, BoxError>(e),
        Ok(s) => {
            &&& r matches Ok(b)
            &&& generator_for(seed, b@.generator)
            &&& b@ == assembled(
                low,
                high,
                s,
                dtype,
                b@.generator,
                match device {
                    Some(d) => d,
                    None => Device::Cpu,
                },
            )
        },
    }
}

/// The generator that `seed` asks for: seeded from a given number, a given
/// generator as it is, or seeded from fresh entropy where nothing is given.
pub fn resolve_generator(seed: Option<Seed>) -> (g: Generator)
    ensures
        generator_for(seed, g),
{
    match seed {
        Some(seed) => match seed {
            Seed::USize(seed) => rs_random(Some(seed)).0,
            Seed::Generator(generator) => generator,
        },
        None => {
            let (generator, rs_seed) = rs_random(None);
            assert(generator == seeded_generator(rs_seed as u64));
            generator
        },
    }
}

/// The shape of a box: the one that was given, and else the shape that the
/// two bounds share, which then both have to be buffers.
pub fn resolve_shape(low: &Bound, high: &Bound, shape: Option<Vec<usize>>) -> (r: Result<
    Vec<usize>,
    BoxError,
>)
    ensures
        match resolved_shape(low@, high@, given_shape(shape)) {
            Ok(s) => r matches Ok(v) && v@ == s,
            Err(e) => r == Err::<Vec<usize>, BoxError>(e),
        },
        shape is None ==> (r matches Ok(v) ==> count(v@) <= usize::MAX),
{
    match shape {
        Some(shape) => Ok(shape),
        None => {
            let low = match low {
                Bound::Scalar(_) => {
                    return Err(BoxError::LowMustBeBuffer);
                },
                Bound::Tensor(tensor) => tensor,
            };
            let high = match high {
                Bound::Scalar(_) => {
                    return Err(BoxError::HighMustBeBuffer);
                },
                Bound::Tensor(tensor) => tensor,
            };
            if !low.same_shape(high) {
                return Err(BoxError::ShapeMismatch);
            }
            Ok(copy_of(low.shape()))
        },
    }
}

/// A closed interval for every element of a buffer of integers. An interval
/// may be open-ended: the box records for every element whether its bounds
/// were given as finite, and stores the limits of the element type in place
/// of the infinities.
#[derive(Debug)]
pub struct Box {
    shape: Vec<usize>,
    dtype: DType,
    rs_random: Generator,
    device: Device,
    low: Tensor,
    high: Tensor,
    low_repr: String,
    high_repr: String,
    bounded_below: Tensor,
    bounded_above: Tensor,
}

impl View for Box {
    type V = BoxView;

    closed spec fn view(&self) -> BoxView {
        BoxView {
            shape: self.shape@,
            dtype: self.dtype,
            generator: self.rs_random,
            device: self.device,
            low: self.low@,
            high: self.high@,
            low_repr: self.low_repr@,
            high_repr: self.high_repr@,
            bounded_below: self.bounded_below@,
            bounded_above: self.bounded_above@,
        }
    }
}

impl Box {
    /// Every box has what `BoxView::wf` states.
    #[verifier::type_invariant]
    pub open spec fn inv(&self) -> bool {
        self@.wf()
    }

    /// The box for a shape and a generator that have been resolved.
    pub fn with_generator(
        low: Bound,
        high: Bound,
        shape: Vec<usize>,
        dtype: DType,
        generator: Generator,
        device: Device,
    ) -> (r: Box)
        requires
            admissible(low@, high@, Some(shape@)),
        ensures
            r@ == assembled(low@, high@, shape@, dtype, generator, device),
            r@.wf(),
            records_given_bounds(low@, high@, r@),
    {
        let given_low: Tensor = match low {
            Bound::Scalar(low) => match Tensor::full(low, copy_of(&shape)) {
                Some(filled) => filled,
                None => unreached(),
            },
            Bound::Tensor(low) => low,
        };
        let bounded_below: Tensor = given_low.gt(Number::NegInf);

        let given_high: Tensor = match high {
            Bound::Scalar(high) => match Tensor::full(high, copy_of(&shape)) {
                Some(filled) => filled,
                None => unreached(),
            },
            Bound::Tensor(high) => high,
        };
        let bounded_above: Tensor = given_high.lt(Number::PosInf);

        let low_repr = _short_repr(given_low.clone());
        let high_repr = _short_repr(given_high.clone());
        proof {
            use_type_invariant(&given_low);
            use_type_invariant(&given_high);
            lemma_assembled_is_wf(low@, high@, shape@, dtype, generator, device);
        }
        let low = _broadcast(given_low, dtype);
        let high = _broadcast(given_high, dtype);
        Box {
            shape,
            dtype,
            rs_random: generator,
            device,
            low,
            high,
            low_repr,
            high_repr,
            bounded_below,
            bounded_above,
        }
    }

    /// Builds a box from its two bounds, or says why none can be built.
    ///
    /// Without a shape the two bounds have to be buffers of one shape, which
    /// is then the shape of the box; a bound that is a single number fills
    /// the shape. The generator is seeded from the number that `seed` holds,
    /// is the generator that `seed` holds, or is seeded from fresh entropy.
    /// Without a device the box is placed on the CPU.
    pub fn try_new(
        low: Bound,
        high: Bound,
        shape: Option<Vec<usize>>,
        dtype: DType,
        seed: Option<Seed>,
        device: Option<Device>,
    ) -> (r: Result<Box, BoxError>)
        requires
            admissible(low@, high@, given_shape(shape)),
        ensures
            built_as(low@, high@, given_shape(shape), dtype, seed, device, r),
            // A shape that was given is the shape of the box and of both
            // its bounds, also where these were given as single numbers.
            shape matches Some(s) ==> (r matches Ok(b) && b@.shape == s@ && b@.low.shape == s@
                && b@.high.shape == s@),
            // Without one, buffers that agree in shape give it to the box.
            shape is None && low@.shape() is Some && low@.shape() == high@.shape() ==> (
            r matches Ok(b) && Some(b@.shape) == low@.shape()),
            // Without one, buffers that differ in shape give no box.
            shape is None && low@.shape() is Some && high@.shape() is Some && low@.shape()
                != high@.shape() ==> r == Err::<Box, BoxError>(BoxError::ShapeMismatch),
            // Without one, a single number for a bound gives no box.
            shape is None && low@ is Scalar ==> r == Err::<Box, BoxError>(
                BoxError::LowMustBeBuffer,
            ),
            shape is None && low@ is Tensor && high@ is Scalar ==> r == Err::<Box, BoxError>(
                BoxError::HighMustBeBuffer,
            ),
            // What is recorded as bounded is what was given as finite, and
            // what is stored is finite all the same.
            r matches Ok(b) ==> b@.wf() && records_given_bounds(low@, high@, b@),
    {
        let device = match device {
            Some(device) => device,
            None => Device::Cpu,
        };
        let shape = match resolve_shape(&low, &high, shape) {
            Ok(shape) => shape,
            Err(e) => {
                return Err(e);
            },
        };
        let generator = resolve_generator(seed);
        Ok(Box::with_generator(low, high, shape, dtype, generator, device))
    }

    /// Builds a box from its two bounds, as `try_new` does, where one can be
    /// built.
    pub fn new(
        low: Bound,
        high: Bound,
        shape: Option<Vec<usize>>,
        dtype: DType,
        seed: Option<Seed>,
        device: Option<Device>,
    ) -> (r: Box)
        requires
            admissible(low@, high@, given_shape(shape)),
            resolved_shape(low@, high@, given_shape(shape)) is Ok,
        ensures
            built_as(low@, high@, given_shape(shape), dtype, seed, device, Ok(r)),
            r@.wf(),
            shape matches Some(s) ==> r@.shape == s@ && r@.low.shape == s@ && r@.high.shape
                == s@,
            shape is None ==> Some(r@.shape) == low@.shape() && low@.shape() == high@.shape(),
            records_given_bounds(low@, high@, r@),
    {
        match Box::try_new(low, high, shape, dtype, seed, device) {
            Ok(b) => b,
            Err(_) => unreached(),
        }
    }

    /// The shape of the elements of the space.
    pub fn shape(&self) -> (r: &Vec<usize>)
        ensures
            r@ == self@.shape,
            self@.wf(),
    {
        proof {
            use_type_invariant(self);
        }
        &self.shape
    }

    /// The integer type of the elements.
    pub fn dtype(&self) -> (r: DType)
        ensures
            r == self@.dtype,
    {
        self.dtype
    }

    /// The generator that sampling draws from.
    pub fn rs_random(&self) -> (r: &Generator)
        ensures
            *r == self@.generator,
    {
        &self.rs_random
    }

    /// Where the buffers are placed.
    pub fn device(&self) -> (r: Device)
        ensures
            r == self@.device,
    {
        self.device
    }

    /// The lower bound of every element, within the range of the element
    /// type.
    pub fn low(&self) -> (r: &Tensor)
        ensures
            r@ == self@.low,
            self@.wf(),
    {
        proof {
            use_type_invariant(self);
        }
        &self.low
    }

    /// The upper bound of every element, within the range of the element
    /// type.
    pub fn high(&self) -> (r: &Tensor)
        ensures
            r@ == self@.high,
            self@.wf(),
    {
        proof {
            use_type_invariant(self);
        }
        &self.high
    }

    /// The short text of the lower bound as it was given.
    pub fn low_repr(&self) -> (r: &String)
        ensures
            r@ == self@.low_repr,
    {
        &self.low_repr
    }

    /// The short text of the upper bound as it was given.
    pub fn high_repr(&self) -> (r: &String)
        ensures
            r@ == self@.high_repr,
    {
        &self.high_repr
    }

    /// For every element 1 where its lower bound was given above negative
    /// infinity, else 0.
    pub fn bounded_below(&self) -> (r: &Tensor)
        ensures
            r@ == self@.bounded_below,
            self@.wf(),
    {
        proof {
            use_type_invariant(self);
        }
        &self.bounded_below
    }

    /// For every element 1 where its upper bound was given below positive
    /// infinity, else 0.
    pub fn bounded_above(&self) -> (r: &Tensor)
        ensures
            r@ == self@.bounded_above,
            self@.wf(),
    {
        proof {
            use_type_invariant(self);
        }
        &self.bounded_above
    }
}

impl Clone for Box {
    fn clone(&self) -> (r: Box)
        ensures
            r@ == self@,
    {
        proof {
            use_type_invariant(self);
        }
        Box {
            shape: copy_of(&self.shape),
            dtype: self.dtype,
            rs_random: self.rs_random.clone(),
            device: self.device,
            low: self.low.clone(),
            high: self.high.clone(),
            low_repr: self.low_repr.clone(),
            high_repr: self.high_repr.clone(),
            bounded_below: self.bounded_below.clone(),
            bounded_above: self.bounded_above.clone(),
        }
    }
}

/// What reseeding a box with `seed` gives: the one seed that was applied,
/// which is `seed` where one was given, and the box as it was but for its
/// generator, which is the one that the applied seed yields.
pub open spec fn reseeded(
    before: BoxView,
    seed: Option<usize>,
    after: BoxView,
    seeds: Seq<usize>,
) -> bool {
    &&& seeds.len() == 1
    &&& seed matches Some(s) ==> seeds[0] == s
    &&& after == (BoxView { generator: seeded_generator(seeds[0] as u64), ..before })
}

/// After reseeding with a given seed the generator of a box is the one that
/// the seed yields, whatever the generator was before: two boxes reseeded
/// with the same seed go on with equal generators, and nothing else about
/// them changes.
pub proof fn lemma_reseeding_forgets_the_generator(
    seed: usize,
    first_before: BoxView,
    first_after: BoxView,
    first_seeds: Seq<usize>,
    second_before: BoxView,
    second_after: BoxView,
    second_seeds: Seq<usize>,
)
    requires
        reseeded(first_before, Some(seed), first_after, first_seeds),
        reseeded(second_before, Some(seed), second_after, second_seeds),
    ensures
        first_seeds == seq![seed],
        second_seeds == seq![seed],
        first_after.generator == seeded_generator(seed as u64),
        first_after.generator == second_after.generator,
        first_after == (BoxView { generator: first_after.generator, ..first_before }),
        first_before.wf() ==> first_after.wf(),
{
    assert(first_seeds =~= seq![seed]);
    assert(second_seeds =~= seq![seed]);
}

impl Space<Tensor> for Box {
    /// A box cannot draw elements yet.
    open spec fn can_sample(&self) -> bool {
        false
    }

    /// A box can always be flattened.
    fn is_flattenable(&self) -> (r: bool)
        ensures
            r,
    {
        true
    }

    /// Drawing from a box is not offered yet: no caller can meet what this
    /// asks, and a call from outside verified code stops the program.
    fn sample<Mask>(&self, mask: Option<Mask>) -> Tensor {
        unreached()
    }

    /// Replaces the generator of the box by one made from `seed`, or from
    /// fresh entropy where none is given, and returns the seed applied.
    fn seed(&mut self, seed: Option<usize>) -> (seeds: Vec<usize>)
        ensures
            reseeded(old(self)@, seed, final(self)@, seeds@),
            final(self)@.wf(),
    {
        proof {
            use_type_invariant(&*self);
        }
        let (generator, rs_seed) = rs_random(seed);
        self.rs_random = generator;
        vec![rs_seed]
    }

    /// A box does not test its bounds yet: it takes every value for an
    /// element.
    fn contains<T>(&self, x: T) -> (r: bool)
        ensures
            r,
    {
        true
    }
}

} // verus!
