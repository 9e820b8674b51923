//! Numbers that may be infinite, element types, and the buffers made of them.

use crate::text::{decimal, push_decimal};
use vstd::prelude::*;
use vstd::string::*;

verus! {

/// An integer, or one of the two infinities.
#[derive(Clone, Copy, Debug, PartialEq, Eq, Structural)]
pub enum Number {
    NegInf,
    Finite(i64),
    PosInf,
}

impl Number {
    /// The strict order of the extended integers: negative infinity lies
    /// below every integer, positive infinity above.
    pub open spec fn below(self, other: Number) -> bool {
        match (self, other) {
            (Number::NegInf, Number::NegInf) => false,
            (Number::NegInf, _) => true,
            (Number::Finite(a), Number::Finite(b)) => a < b,
            (Number::Finite(_), Number::PosInf) => true,
            _ => false,
        }
    }

    /// `self` brought into the closed interval from `lo` to `hi`.
    pub open spec fn clamped(self, lo: Number, hi: Number) -> Number {
        if self.below(lo) {
            lo
        } else if hi.below(self) {
            hi
        } else {
            self
        }
    }

    /// The text of the number: `-inf`, `inf`, or the integer in decimal.
    pub open spec fn text(self) -> Seq<char> {
        match self {
            Number::NegInf => seq!['-', 'i', 'n', 'f'],
            Number::Finite(v) => decimal(v as int),
            Number::PosInf => seq!['i', 'n', 'f'],
        }
    }

    /// Whether `self` is strictly less than `other`.
    pub fn lt(self, other: Number) -> (r: bool)
        ensures
            r == self.below(other),
    {
        match (self, other) {
            (Number::NegInf, Number::NegInf) => false,
            (Number::NegInf, _) => true,
            (Number::Finite(a), Number::Finite(b)) => a < b,
            (Number::Finite(_), Number::PosInf) => true,
            _ => false,
        }
    }

    /// Whether `self` is strictly greater than `other`.
    pub fn gt(self, other: Number) -> (r: bool)
        ensures
            r == other.below(self),
    {
        other.lt(self)
    }

    /// Whether `self` is an integer.
    pub fn is_finite(self) -> (r: bool)
        ensures
            r == (self is Finite),
    {
        match self {
            Number::Finite(_) => true,
            _ => false,
        }
    }

    /// Brings `self` into the closed interval from `lo` to `hi`.
    pub fn clamp(self, lo: Number, hi: Number) -> (r: Number)
        ensures
            r == self.clamped(lo, hi),
    {
        if self.lt(lo) {
            lo
        } else if hi.lt(self) {
            hi
        } else {
            self
        }
    }

    /// Appends the text of the number to `out`.
    pub fn push_text(self, out: &mut String)
        ensures
            final(out)@ == old(out)@ + self.text(),
    {
        match self {
            Number::NegInf => {
                proof {
                    reveal_strlit("-inf");
                }
                out.append("-inf");
                assert(out@ =~= old(out)@ + self.text());
            },
            Number::Finite(v) => {
                push_decimal(out, v);
            },
            Number::PosInf => {
                proof {
                    reveal_strlit("inf");
                }
                out.append("inf");
                assert(out@ =~= old(out)@ + self.text());
            },
        }
    }

    /// The text of the number: `-inf`, `inf`, or the integer in decimal.
    pub fn to_string(self) -> (r: String)
        ensures
            r@ == self.text(),
    {
        let mut out = String::new();
        self.push_text(&mut out);
        assert(out@ =~= self.text());
        out
    }
}

/// The integer type of a buffer's elements.
#[derive(Clone, Copy, Debug, PartialEq, Eq, Structural)]
pub enum DType {
    U8,
    U32,
    I16,
    I32,
    I64,
}

impl DType {
    /// The least value that the type holds.
    pub open spec fn lower(self) -> int {
        match self {
            DType::U8 => 0,
            DType::U32 => 0,
            DType::I16 => -0x8000,
            DType::I32 => -0x8000_0000,
            DType::I64 => -0x8000_0000_0000_0000,
        }
    }

    /// The greatest value that the type holds.
    pub open spec fn upper(self) -> int {
        match self {
            DType::U8 => 0xff,
            DType::U32 => 0xffff_ffff,
            DType::I16 => 0x7fff,
            DType::I32 => 0x7fff_ffff,
            DType::I64 => 0x7fff_ffff_ffff_ffff,
        }
    }

    /// The least value that the type holds.
    pub fn min_value(self) -> (r: i64)
        ensures
            r == self.lower(),
    {
        match self {
            DType::U8 => 0,
            DType::U32 => 0,
            DType::I16 => -0x8000,
            DType::I32 => -0x8000_0000,
            DType::I64 => i64::MIN,
        }
    }

    /// The greatest value that the type holds.
    pub fn max_value(self) -> (r: i64)
        ensures
            r == self.upper(),
    {
        match self {
            DType::U8 => 0xff,
            DType::U32 => 0xffff_ffff,
            DType::I16 => 0x7fff,
            DType::I32 => 0x7fff_ffff,
            DType::I64 => i64::MAX,
        }
    }
}

/// Where a buffer is placed for computation.
#[derive(Clone, Copy, Debug, PartialEq, Eq, Structural)]
pub enum Device {
    Cpu,
    Cuda(usize),
    Metal(usize),
}

/// The number of elements in the part of a buffer that the dimensions from
/// `from` on span: their product, which is 1 where none is left.
pub open spec fn count_from(shape: Seq<usize>, from: int) -> nat
    decreases shape.len() - from,
{
    if 0 <= from < shape.len() {
        (shape[from] as nat) * count_from(shape, from + 1)
    } else {
        1
    }
}

/// The number of elements of a buffer with the given shape.
pub open spec fn count(shape: Seq<usize>) -> nat {
    count_from(shape, 0)
}

/// A dimension of zero leaves no element.
pub proof fn lemma_zero_dimension_empties(shape: Seq<usize>, from: int, at: int)
    requires
        0 <= from <= at < shape.len(),
        shape[at] == 0,
    ensures
        count_from(shape, from) == 0,
    decreases at - from,
{
    if from < at {
        lemma_zero_dimension_empties(shape, from + 1, at);
        assert(count_from(shape, from) == (shape[from] as nat) * count_from(shape, from + 1));
    }
}

/// Without a dimension of zero, the dimensions in front only add elements.
pub proof fn lemma_count_grows_to_the_front(shape: Seq<usize>, from: int, to: int)
    requires
        0 <= from <= to <= shape.len(),
        forall|i: int| 0 <= i < shape.len() ==> shape[i] >= 1,
    ensures
        count_from(shape, from) >= count_from(shape, to) >= 1,
    decreases shape.len() - from,
{
    if to < shape.len() {
        lemma_count_grows_to_the_front(shape, to + 1, to + 1);
        assert(count_from(shape, to) >= 1) by (nonlinear_arith)
            requires
                count_from(shape, to) == (shape[to] as nat) * count_from(shape, to + 1),
                shape[to] >= 1,
                count_from(shape, to + 1) >= 1,
        ;
    }
    if from < to {
        lemma_count_grows_to_the_front(shape, from + 1, to);
        assert(count_from(shape, from) >= count_from(shape, from + 1)) by (nonlinear_arith)
            requires
                count_from(shape, from) == (shape[from] as nat) * count_from(shape, from + 1),
                shape[from] >= 1,
        ;
    }
}

/// The number of elements of a buffer with the given shape, where it fits
/// into a `usize`.
pub fn checked_count(shape: &Vec<usize>) -> (r: Option<usize>)
    ensures
        r matches Some(n) ==> n == count(shape@),
        r is Some <==> count(shape@) <= usize::MAX,
{
    let mut k: usize = 0;
    while k < shape.len()
        invariant
            k <= shape.len(),
            forall|i: int| 0 <= i < k ==> shape@[i] >= 1,
        decreases shape.len() - k,
    {
        if shape[k] == 0 {
            proof {
                lemma_zero_dimension_empties(shape@, 0, k as int);
            }
            return Some(0);
        }
        k += 1;
    }
    let mut acc: usize = 1;
    let mut i: usize = shape.len();
    while i > 0
        invariant
            i <= shape.len(),
            acc == count_from(shape@, i as int),
            forall|j: int| 0 <= j < shape.len() ==> shape@[j] >= 1,
        decreases i,
    {
        i -= 1;
        assert(count_from(shape@, i as int) == acc * shape@[i as int]) by (nonlinear_arith)
            requires
                count_from(shape@, i as int) == (shape@[i as int] as nat) * count_from(
                    shape@,
                    i + 1,
                ),
                acc == count_from(shape@, i + 1),
        ;
        match acc.checked_mul(shape[i]) {
            Some(next) => {
                acc = next;
            },
            None => {
                proof {
                    lemma_count_grows_to_the_front(shape@, 0, i as int);
                }
                return None;
            },
        }
    }
    Some(acc)
}

/// The number that stands for a truth value in a buffer of flags: 1 for true,
/// 0 for false.
pub open spec fn flag(b: bool) -> Number {
    if b {
        Number::Finite(1)
    } else {
        Number::Finite(0)
    }
}

/// Whether `m` is an element of `data` that none lies below.
pub open spec fn is_least(data: Seq<Number>, m: Number) -> bool {
    &&& data.contains(m)
    &&& forall|i: int| 0 <= i < data.len() ==> !(#[trigger] data[i]).below(m)
}

/// Whether `m` is an element of `data` that none lies above.
pub open spec fn is_greatest(data: Seq<Number>, m: Number) -> bool {
    &&& data.contains(m)
    &&& forall|i: int| 0 <= i < data.len() ==> !m.below(#[trigger] data[i])
}

/// Whether all elements of `data` are the same.
pub open spec fn uniform(data: Seq<Number>) -> bool {
    forall|i: int| 0 <= i < data.len() ==> #[trigger] data[i] == data[0]
}

/// The text of the part of a buffer that starts at `offset` and that the
/// dimensions from `dim` on span: a single number where no dimension is
/// left, else the parts along dimension `dim` in square brackets.
pub open spec fn text_at(shape: Seq<usize>, data: Seq<Number>, dim: int, offset: int) -> Seq<char>
    decreases shape.len() - dim, 1nat, 0nat,
{
    if 0 <= dim < shape.len() {
        seq!['['] + items_text(shape, data, dim, offset, shape[dim] as nat) + seq![']']
    } else {
        data[offset].text()
    }
}

/// The texts of the first `n` parts along dimension `dim`, separated by a
/// comma and a space.
pub open spec fn items_text(
    shape: Seq<usize>,
    data: Seq<Number>,
    dim: int,
    offset: int,
    n: nat,
) -> Seq<char>
    decreases shape.len() - dim, 0nat, n,
{
    if n == 0 || !(0 <= dim < shape.len()) {
        Seq::empty()
    } else {
        let item = text_at(shape, data, dim + 1, offset + (n - 1) * count_from(shape, dim + 1));
        if n == 1 {
            item
        } else {
            items_text(shape, data, dim, offset, (n - 1) as nat) + seq![',', ' '] + item
        }
    }
}

/// What a buffer is: its shape, and its elements in row-major order.
pub struct TensorView {
    pub shape: Seq<usize>,
    pub data: Seq<Number>,
}

impl TensorView {
    /// A buffer holds as many elements as its shape spans.
    pub open spec fn wf(self) -> bool {
        self.data.len() == count(self.shape)
    }

    /// The buffer of the given shape whose every element is `value`.
    pub open spec fn full(value: Number, shape: Seq<usize>) -> TensorView {
        TensorView { shape, data: Seq::new(count(shape), |i: int| value) }
    }

    /// The flags that say, element by element, whether it lies above `bound`.
    pub open spec fn above(self, bound: Number) -> TensorView {
        TensorView {
            shape: self.shape,
            data: Seq::new(self.data.len(), |i: int| flag(bound.below(self.data[i]))),
        }
    }

    /// The flags that say, element by element, whether it lies below `bound`.
    pub open spec fn beneath(self, bound: Number) -> TensorView {
        TensorView {
            shape: self.shape,
            data: Seq::new(self.data.len(), |i: int| flag(self.data[i].below(bound))),
        }
    }

    /// The buffer with every element brought into the closed interval from
    /// `lo` to `hi`.
    pub open spec fn clamped(self, lo: Number, hi: Number) -> TensorView {
        TensorView {
            shape: self.shape,
            data: Seq::new(self.data.len(), |i: int| self.data[i].clamped(lo, hi)),
        }
    }

    /// The text of the buffer: nested lists in square brackets, one level
    /// for each dimension.
    pub open spec fn text(self) -> Seq<char> {
        text_at(self.shape, self.data, 0, 0)
    }
}

/// An n-dimensional buffer of numbers, stored in row-major order.
#[derive(Debug)]
pub struct Tensor {
    shape: Vec<usize>,
    data: Vec<Number>,
}

impl View for Tensor {
    type V = TensorView;

    closed spec fn view(&self) -> TensorView {
        TensorView { shape: self.shape@, data: self.data@ }
    }
}

impl Clone for Tensor {
    fn clone(&self) -> (r: Tensor)
        ensures
            r@ == self@,
    {
        proof {
            use_type_invariant(self);
        }
        let shape = copy_of(&self.shape);
        let data = copy_of(&self.data);
        Tensor { shape, data }
    }
}

/// A vector with the same elements in the same order.
pub(crate) fn copy_of<T: Copy>(v: &Vec<T>) -> (r: Vec<T>)
    ensures
        r@ == v@,
{
    let mut r: Vec<T> = Vec::new();
    let mut i: usize = 0;
    while i < v.len()
        invariant
            i <= v.len(),
            r@ == v@.take(i as int),
        decreases v.len() - i,
    {
        r.push(v[i]);
        assert(r@ =~= v@.take(i + 1));
        i += 1;
    }
    assert(v@.take(v.len() as int) =~= v@);
    r
}

impl Tensor {
    /// Every buffer holds as many elements as its shape spans.
    #[verifier::type_invariant]
    pub open spec fn inv(&self) -> bool {
        self@.wf()
    }

    /// The buffer with the given shape and elements, where the shape spans
    /// as many elements as are given.
    pub fn new(shape: Vec<usize>, data: Vec<Number>) -> (r: Option<Tensor>)
        ensures
            r is Some <==> count(shape@) == data@.len(),
            r matches Some(t) ==> t@ == (TensorView { shape: shape@, data: data@ }),
    {
        let len = data.len();
        match checked_count(&shape) {
            Some(n) => {
                if n == len {
                    Some(Tensor { shape, data })
                } else {
                    None
                }
            },
            None => None,
        }
    }

    /// The buffer of the given shape whose every element is `value`, where
    /// the elements of the shape can be counted in a `usize`.
    pub fn full(value: Number, shape: Vec<usize>) -> (r: Option<Tensor>)
        ensures
            r is Some <==> count(shape@) <= usize::MAX,
            r matches Some(t) ==> t@ == TensorView::full(value, shape@),
    {
        let n = match checked_count(&shape) {
            Some(n) => n,
            None => {
                return None;
            },
        };
        let mut data: Vec<Number> = Vec::new();
        let mut i: usize = 0;
        while i < n
            invariant
                i <= n,
                data@.len() == i,
                forall|j: int| 0 <= j < i ==> data@[j] == value,
            decreases n - i,
        {
            data.push(value);
            i += 1;
        }
        assert(data@ =~= TensorView::full(value, shape@).data);
        Some(Tensor { shape, data })
    }

    /// The extent of each dimension.
    pub fn shape(&self) -> (r: &Vec<usize>)
        ensures
            r@ == self@.shape,
            count(r@) <= usize::MAX,
    {
        proof {
            use_type_invariant(self);
            assert(self.data@.len() == self.data.len());
        }
        &self.shape
    }

    /// The elements in row-major order.
    pub fn data(&self) -> (r: &Vec<Number>)
        ensures
            r@ == self@.data,
            self@.wf(),
    {
        proof {
            use_type_invariant(self);
        }
        &self.data
    }

    /// The number of elements.
    pub fn elem_count(&self) -> (r: usize)
        ensures
            r == self@.data.len(),
            self@.wf(),
    {
        proof {
            use_type_invariant(self);
        }
        self.data.len()
    }

    /// Flags, element by element, what lies above `bound`.
    pub fn gt(&self, bound: Number) -> (r: Tensor)
        ensures
            r@ == self@.above(bound),
    {
        proof {
            use_type_invariant(self);
        }
        let mut data: Vec<Number> = Vec::new();
        let mut i: usize = 0;
        while i < self.data.len()
            invariant
                i <= self.data.len(),
                data@.len() == i,
                forall|j: int| 0 <= j < i ==> data@[j] == flag(bound.below(self.data@[j])),
            decreases self.data.len() - i,
        {
            let f = if self.data[i].gt(bound) {
                Number::Finite(1)
            } else {
                Number::Finite(0)
            };
            data.push(f);
            i += 1;
        }
        assert(data@ =~= self@.above(bound).data);
        Tensor { shape: copy_of(&self.shape), data }
    }

    /// Flags, element by element, what lies below `bound`.
    pub fn lt(&self, bound: Number) -> (r: Tensor)
        ensures
            r@ == self@.beneath(bound),
    {
        proof {
            use_type_invariant(self);
        }
        let mut data: Vec<Number> = Vec::new();
        let mut i: usize = 0;
        while i < self.data.len()
            invariant
                i <= self.data.len(),
                data@.len() == i,
                forall|j: int| 0 <= j < i ==> data@[j] == flag(self.data@[j].below(bound)),
            decreases self.data.len() - i,
        {
            let f = if self.data[i].lt(bound) {
                Number::Finite(1)
            } else {
                Number::Finite(0)
            };
            data.push(f);
            i += 1;
        }
        assert(data@ =~= self@.beneath(bound).data);
        Tensor { shape: copy_of(&self.shape), data }
    }

    /// Brings every element into the closed interval from `lo` to `hi`.
    pub fn clamp(&self, lo: Number, hi: Number) -> (r: Tensor)
        ensures
            r@ == self@.clamped(lo, hi),
    {
        proof {
            use_type_invariant(self);
        }
        let mut data: Vec<Number> = Vec::new();
        let mut i: usize = 0;
        while i < self.data.len()
            invariant
                i <= self.data.len(),
                data@.len() == i,
                forall|j: int| 0 <= j < i ==> data@[j] == self.data@[j].clamped(lo, hi),
            decreases self.data.len() - i,
        {
            data.push(self.data[i].clamp(lo, hi));
            i += 1;
        }
        assert(data@ =~= self@.clamped(lo, hi).data);
        Tensor { shape: copy_of(&self.shape), data }
    }

    /// The least element, where there is any.
    pub fn min(&self) -> (r: Option<Number>)
        ensures
            r is Some <==> self@.data.len() > 0,
            r matches Some(m) ==> is_least(self@.data, m),
    {
        if self.data.len() == 0 {
            return None;
        }
        let mut m = self.data[0];
        let mut i: usize = 1;
        assert(self.data@.take(1)[0] == m);
        while i < self.data.len()
            invariant
                1 <= i <= self.data.len(),
                is_least(self.data@.take(i as int), m),
            decreases self.data.len() - i,
        {
            let ghost before = self.data@.take(i as int);
            let ghost after = self.data@.take(i + 1);
            let x = self.data[i];
            let ghost at = choose|k: int| 0 <= k < before.len() && before[k] == m;
            if x.lt(m) {
                m = x;
                assert(after[i as int] == m);
            } else {
                assert(after[at] == m);
            }
            assert forall|k: int| 0 <= k < after.len() implies !(#[trigger] after[k]).below(m) by {
                if k < i {
                    assert(after[k] == before[k]);
                }
            }
            i += 1;
        }
        assert(self.data@.take(self.data.len() as int) =~= self.data@);
        Some(m)
    }

    /// The greatest element, where there is any.
    pub fn max(&self) -> (r: Option<Number>)
        ensures
            r is Some <==> self@.data.len() > 0,
            r matches Some(m) ==> is_greatest(self@.data, m),
    {
        if self.data.len() == 0 {
            return None;
        }
        let mut m = self.data[0];
        let mut i: usize = 1;
        assert(self.data@.take(1)[0] == m);
        while i < self.data.len()
            invariant
                1 <= i <= self.data.len(),
                is_greatest(self.data@.take(i as int), m),
            decreases self.data.len() - i,
        {
            let ghost before = self.data@.take(i as int);
            let ghost after = self.data@.take(i + 1);
            let x = self.data[i];
            let ghost at = choose|k: int| 0 <= k < before.len() && before[k] == m;
            if m.lt(x) {
                m = x;
                assert(after[i as int] == m);
            } else {
                assert(after[at] == m);
            }
            assert forall|k: int| 0 <= k < after.len() implies !m.below(#[trigger] after[k]) by {
                if k < i {
                    assert(after[k] == before[k]);
                }
            }
            i += 1;
        }
        assert(self.data@.take(self.data.len() as int) =~= self.data@);
        Some(m)
    }

    /// Whether the buffer has the given shape.
    pub fn has_shape(&self, shape: &Vec<usize>) -> (r: bool)
        ensures
            r == (self@.shape == shape@),
    {
        if self.shape.len() != shape.len() {
            return false;
        }
        let mut i: usize = 0;
        while i < self.shape.len()
            invariant
                i <= self.shape.len(),
                self.shape.len() == shape.len(),
                forall|j: int| 0 <= j < i ==> self.shape@[j] == shape@[j],
            decreases self.shape.len() - i,
        {
            if self.shape[i] != shape[i] {
                return false;
            }
            i += 1;
        }
        assert(self.shape@ =~= shape@);
        true
    }

    /// Whether `other` has the same shape.
    pub fn same_shape(&self, other: &Tensor) -> (r: bool)
        ensures
            r == (self@.shape == other@.shape),
    {
        self.has_shape(&other.shape)
    }

    /// Appends the text of the part of the buffer that starts at `offset` and
    /// that the dimensions from `dim` on span, `span` elements in all.
    fn push_text_at(&self, out: &mut String, dim: usize, offset: usize, span: usize)
        requires
            dim <= self.shape@.len(),
            span == count_from(self.shape@, dim as int),
            offset + span <= self.data@.len(),
        ensures
            final(out)@ == old(out)@ + text_at(self.shape@, self.data@, dim as int, offset as int),
        decreases self.shape@.len() - dim,
    {
        let ghost shape = self.shape@;
        let ghost data = self.data@;
        let rank = self.shape.len();
        let total = self.data.len();
        if dim == rank {
            self.data[offset].push_text(out);
            return ;
        }
        proof {
            reveal_strlit("[");
            reveal_strlit("]");
        }
        out.append("[");
        let n = self.shape[dim];
        if n > 0 {
            let inner = span / n;
            assert(inner == count_from(shape, dim + 1)) by (nonlinear_arith)
                requires
                    span == (n as nat) * count_from(shape, dim + 1),
                    inner == span / n,
                    n > 0,
            ;
            let mut i: usize = 0;
            while i < n
                invariant
                    i <= n,
                    n == shape[dim as int],
                    dim < rank == shape.len(),
                    shape == self.shape@,
                    data == self.data@,
                    inner == count_from(shape, dim + 1),
                    span == n * inner,
                    offset + span <= total == data.len(),
                    out@ == old(out)@ + seq!['['] + items_text(
                        shape,
                        data,
                        dim as int,
                        offset as int,
                        i as nat,
                    ),
                decreases n - i,
            {
                if i > 0 {
                    proof {
                        reveal_strlit(", ");
                    }
                    out.append(", ");
                }
                assert(i * inner + inner <= n * inner) by (nonlinear_arith)
                    requires
                        i < n,
                ;
                self.push_text_at(out, dim + 1, offset + i * inner, inner);
                proof {
                    let item = text_at(shape, data, dim + 1, offset + i * inner);
                    let sofar = items_text(shape, data, dim as int, offset as int, i as nat);
                    let next = items_text(shape, data, dim as int, offset as int, (i + 1) as nat);
                    assert(((i + 1) as nat - 1) * count_from(shape, dim + 1) == i * inner);
                    if i == 0 {
                        assert(next == item);
                        assert(sofar =~= Seq::<char>::empty());
                    } else {
                        reveal_strlit(", ");
                        assert(next == sofar + seq![',', ' '] + item);
                        assert((", ")@ =~= seq![',', ' ']);
                    }
                }
                assert(out@ =~= old(out)@ + seq!['['] + items_text(
                    shape,
                    data,
                    dim as int,
                    offset as int,
                    (i + 1) as nat,
                ));
                i += 1;
            }
        }
        out.append("]");
        assert(out@ =~= old(out)@ + text_at(shape, data, dim as int, offset as int));
    }

    /// The text of the buffer: nested lists in square brackets, one level
    /// for each dimension, the elements separated by a comma and a space.
    pub fn to_string(&self) -> (r: String)
        ensures
            r@ == self@.text(),
    {
        proof {
            use_type_invariant(self);
        }
        let mut out = String::new();
        self.push_text_at(&mut out, 0, 0, self.data.len());
        assert(out@ =~= self@.text());
        out
    }
}

} // verus!
