use vstd::prelude::*;
use crate::errors::BLiteError;
use crate::quantization::fits_i32;

verus! {

/// The number of elements of a tensor of shape `dims`.
pub open spec fn shape_product(dims: Seq<i32>) -> int
    decreases dims.len(),
{
    if dims.len() == 0 {
        1
    } else {
        shape_product(dims.drop_last()) * dims.last()
    }
}

/// Every dimension is non-negative and every partial product fits in a `usize`.
pub open spec fn shape_fits(dims: Seq<i32>) -> bool {
    &&& forall|i: int| 0 <= i < dims.len() ==> dims[i] >= 0
    &&& forall|k: int| 0 <= k <= dims.len() ==> #[trigger] shape_product(dims.take(k)) <= usize::MAX
}

/// The product of the dimensions other than `skip_dim`.
pub open spec fn skip_product(dims: Seq<i32>, skip_dim: int) -> int
    decreases dims.len(),
{
    if dims.len() == 0 {
        1
    } else if dims.len() - 1 == skip_dim {
        skip_product(dims.drop_last(), skip_dim)
    } else {
        skip_product(dims.drop_last(), skip_dim) * dims.last()
    }
}

pub proof fn lemma_shape_product_nonneg(dims: Seq<i32>)
    requires
        forall|i: int| 0 <= i < dims.len() ==> dims[i] >= 0,
    ensures
        shape_product(dims) >= 0,
    decreases dims.len(),
{
    if dims.len() > 0 {
        lemma_shape_product_nonneg(dims.drop_last());
        let p = shape_product(dims.drop_last());
        let d = dims.last() as int;
        assert(p * d >= 0) by (nonlinear_arith) requires p >= 0, d >= 0;
    }
}

/// The number of elements of a tensor of shape `dims`, or `None` when a
/// dimension is negative or a partial product does not fit in a `usize`.
pub fn element_count(dims: &Vec<i32>) -> (r: Option<usize>)
    ensures
        shape_fits(dims@) ==> 0 <= shape_product(dims@) <= usize::MAX
            && r == Some(shape_product(dims@) as usize),
        !shape_fits(dims@) ==> r.is_none(),
{
    let mut total: usize = 1;
    let mut i: usize = 0;
    proof {
        assert(dims@.take(0) =~= Seq::<i32>::empty());
    }
    while i < dims.len()
        invariant
            i <= dims@.len(),
            total == shape_product(dims@.take(i as int)),
            forall|j: int| 0 <= j < i ==> dims@[j] >= 0,
            forall|k: int| 0 <= k <= i ==> #[trigger] shape_product(dims@.take(k)) <= usize::MAX,
        decreases dims@.len() - i,
    {
        let d = dims[i];
        proof {
            assert(dims@.take(i as int + 1).drop_last() =~= dims@.take(i as int));
            assert(shape_product(dims@.take(i as int + 1)) == total * d);
        }
        if d < 0 {
            return None;
        }
        match total.checked_mul(d as usize) {
            Some(t) => {
                total = t;
            },
            None => {
                return None;
            },
        }
        i = i + 1;
    }
    proof {
        assert(dims@.take(dims@.len() as int) =~= dims@);
        lemma_shape_product_nonneg(dims@);
    }
    Some(total)
}

/// The product of every dimension of `shape` but `skip_dim`: the number of
/// rows when `skip_dim` is the innermost axis.
pub fn flat_skip_dims(shape: &Vec<i32>, skip_dim: usize) -> (r: i32)
    requires
        forall|k: int| 0 <= k <= shape@.len() ==> fits_i32(#[trigger] skip_product(shape@.take(k), skip_dim as int)),
    ensures
        r == skip_product(shape@, skip_dim as int),
{
    let mut flat_size: i32 = 1;
    let mut i: usize = 0;
    proof {
        assert(shape@.take(0) =~= Seq::<i32>::empty());
    }
    while i < shape.len()
        invariant
            i <= shape@.len(),
            flat_size == skip_product(shape@.take(i as int), skip_dim as int),
            forall|k: int| 0 <= k <= shape@.len() ==> fits_i32(#[trigger] skip_product(shape@.take(k), skip_dim as int)),
        decreases shape@.len() - i,
    {
        proof {
            assert(shape@.take(i as int + 1).drop_last() =~= shape@.take(i as int));
            assert(fits_i32(skip_product(shape@.take(i as int + 1), skip_dim as int)));
        }
        if i != skip_dim {
            flat_size = flat_size * shape[i];
        }
        i = i + 1;
    }
    proof {
        assert(shape@.take(shape@.len() as int) =~= shape@);
    }
    flat_size
}

/// Where a tensor's data lives.
#[derive(Debug, Clone, Copy, PartialEq, Eq, Structural)]
pub enum DataRegion {
    /// No region yet: the planner has still to place it.
    Unassigned,
    /// A view of the model's constant buffers.
    Constant,
    /// A region of the arena that starts at this address.
    Arena(usize),
}

/// One tensor's shape, data and where that data lives.
#[derive(Debug)]
pub struct BLiteArray<T> {
    pub data: Vec<T>,
    pub dims: Vec<i32>,
    pub region: DataRegion,
}

impl<T: Copy> BLiteArray<T> {
    /// Data holds exactly one element per position of the shape.
    pub open spec fn shape_invariant(&self) -> bool {
        &&& shape_fits(self.dims@)
        &&& self.data@.len() == shape_product(self.dims@)
    }

    /// A tensor over `data` with shape `dims`; fails with `NotMatchSize`
    /// unless the shape holds exactly `data.len()` elements.
    pub fn new(data: Vec<T>, dims: Vec<i32>) -> (r: Result<Self, BLiteError>)
        ensures
            shape_fits(dims@) && shape_product(dims@) == data@.len() ==> r.is_ok() && ({
                let a = r.unwrap();
                &&& a.data@ == data@
                &&& a.dims@ == dims@
                &&& a.region == DataRegion::Constant
                &&& a.shape_invariant()
            }),
            !(shape_fits(dims@) && shape_product(dims@) == data@.len())
                ==> r == Err::<Self, BLiteError>(BLiteError::NotMatchSize),
    {
        match element_count(&dims) {
            Some(n) => {
                if n != data.len() {
                    return Err(BLiteError::NotMatchSize);
                }
                Ok(BLiteArray { data, dims, region: DataRegion::Constant })
            },
            None => Err(BLiteError::NotMatchSize),
        }
    }

    /// A tensor of shape `dims` built from a model buffer: a constant view
    /// when the buffer holds data, and a tensor still to be placed when not.
    pub fn from_tflite_buffer(buffer: Option<Vec<T>>, dims: Vec<i32>) -> (r: Result<Self, BLiteError>)
        ensures
            match buffer {
                Some(data) => (shape_fits(dims@) && shape_product(dims@) == data@.len() ==> r.is_ok()
                    && r.unwrap().data@ == data@ && r.unwrap().dims@ == dims@
                    && r.unwrap().region == DataRegion::Constant && r.unwrap().shape_invariant())
                    && (!(shape_fits(dims@) && shape_product(dims@) == data@.len())
                        ==> r == Err::<Self, BLiteError>(BLiteError::NotMatchSize)),
                None => (shape_fits(dims@) ==> r.is_ok() && r.unwrap().data@.len() == 0
                    && r.unwrap().dims@ == dims@ && r.unwrap().region == DataRegion::Unassigned)
                    && (!shape_fits(dims@) ==> r == Err::<Self, BLiteError>(BLiteError::NotMatchSize)),
            },
    {
        match buffer {
            Some(data) => Self::new(data, dims),
            None => {
                match element_count(&dims) {
                    Some(_) => Ok(BLiteArray { data: Vec::new(), dims, region: DataRegion::Unassigned }),
                    None => Err(BLiteError::NotMatchSize),
                }
            },
        }
    }

    /// The number of elements the data holds now.
    pub fn len(&self) -> (r: usize)
        ensures
            r == self.data@.len(),
    {
        self.data.len()
    }

    /// The number of elements the shape calls for.
    pub fn size(&self) -> (r: usize)
        requires
            shape_fits(self.dims@),
        ensures
            r == shape_product(self.dims@),
    {
        element_count(&self.dims).unwrap()
    }

    /// Gives the tensor its arena region at `addr`, with every element set to `fill`.
    pub fn assign(&mut self, addr: usize, fill: T)
        requires
            shape_fits(old(self).dims@),
        ensures
            final(self).dims@ == old(self).dims@,
            final(self).region == DataRegion::Arena(addr),
            final(self).data@ == Seq::new(shape_product(old(self).dims@) as nat, |_i: int| fill),
            final(self).shape_invariant(),
    {
        let n = self.size();
        let mut data: Vec<T> = Vec::new();
        let mut i: usize = 0;
        while i < n
            invariant
                i <= n,
                data@ == Seq::new(i as nat, |_i: int| fill),
            decreases n - i,
        {
            data.push(fill);
            i = i + 1;
            assert(data@ =~= Seq::new(i as nat, |_i: int| fill));
        }
        self.data = data;
        self.region = DataRegion::Arena(addr);
    }
}

/// A tensor of the graph: one of the primary element type, or a 32-bit
/// accumulator such as a bias.
#[derive(Debug)]
pub enum BLiteTensor<T> {
    BTensor(BLiteArray<T>),
    I32Tensor(BLiteArray<i32>),
}

impl<T: Copy> BLiteTensor<T> {
    pub open spec fn dims(&self) -> Seq<i32> {
        match self {
            BLiteTensor::BTensor(a) => a.dims@,
            BLiteTensor::I32Tensor(a) => a.dims@,
        }
    }

    pub open spec fn data_len(&self) -> nat {
        match self {
            BLiteTensor::BTensor(a) => a.data@.len(),
            BLiteTensor::I32Tensor(a) => a.data@.len(),
        }
    }

    pub open spec fn region(&self) -> DataRegion {
        match self {
            BLiteTensor::BTensor(a) => a.region,
            BLiteTensor::I32Tensor(a) => a.region,
        }
    }

    pub open spec fn shape_invariant(&self) -> bool {
        match self {
            BLiteTensor::BTensor(a) => a.shape_invariant(),
            BLiteTensor::I32Tensor(a) => a.shape_invariant(),
        }
    }

    /// The tensor as one of the primary element type.
    pub fn _t(&self) -> (r: Result<&BLiteArray<T>, BLiteError>)
        ensures
            match self {
                BLiteTensor::BTensor(a) => r == Ok::<&BLiteArray<T>, BLiteError>(a),
                BLiteTensor::I32Tensor(_) => r == Err::<&BLiteArray<T>, BLiteError>(BLiteError::NotBTensor),
            },
    {
        match self {
            BLiteTensor::BTensor(e) => Ok(e),
            BLiteTensor::I32Tensor(_) => Err(BLiteError::NotBTensor),
        }
    }

    /// The tensor as a 32-bit accumulator tensor.
    pub fn _i32(&self) -> (r: Result<&BLiteArray<i32>, BLiteError>)
        ensures
            match self {
                BLiteTensor::BTensor(_) => r == Err::<&BLiteArray<i32>, BLiteError>(BLiteError::NotI32Tensor),
                BLiteTensor::I32Tensor(a) => r == Ok::<&BLiteArray<i32>, BLiteError>(a),
            },
    {
        match self {
            BLiteTensor::BTensor(_) => Err(BLiteError::NotI32Tensor),
            BLiteTensor::I32Tensor(e) => Ok(e),
        }
    }

    /// The number of elements the data holds now.
    pub fn len(&self) -> (r: usize)
        ensures
            r == self.data_len(),
    {
        match self {
            BLiteTensor::BTensor(x) => x.len(),
            BLiteTensor::I32Tensor(x) => x.len(),
        }
    }

    /// The number of elements the shape calls for.
    pub fn size(&self) -> (r: usize)
        requires
            shape_fits(self.dims()),
        ensures
            r == shape_product(self.dims()),
    {
        match self {
            BLiteTensor::BTensor(x) => x.size(),
            BLiteTensor::I32Tensor(x) => x.size(),
        }
    }

    /// Whether the data still waits for a region.
    pub fn is_unassigned(&self) -> (r: bool)
        ensures
            r == (self.region() == DataRegion::Unassigned),
    {
        match self {
            BLiteTensor::BTensor(x) => x.region == DataRegion::Unassigned,
            BLiteTensor::I32Tensor(x) => x.region == DataRegion::Unassigned,
        }
    }

    /// Gives the tensor its arena region at `addr`, every element set to
    /// `fill` (or to 0 for an accumulator tensor).
    pub fn assign(&mut self, addr: usize, fill: T)
        requires
            shape_fits(old(self).dims()),
        ensures
            final(self).dims() == old(self).dims(),
            final(self).region() == DataRegion::Arena(addr),
            final(self).shape_invariant(),
            final(self).is_i32() == old(self).is_i32(),
    {
        match self {
            BLiteTensor::BTensor(x) => x.assign(addr, fill),
            BLiteTensor::I32Tensor(x) => x.assign(addr, 0),
        }
    }

    pub open spec fn is_i32(&self) -> bool {
        self is I32Tensor
    }

    /// The data of a tensor of the primary element type.
    pub open spec fn b_data(&self) -> Seq<T> {
        match self {
            BLiteTensor::BTensor(a) => a.data@,
            BLiteTensor::I32Tensor(_) => Seq::empty(),
        }
    }

    /// The data of an accumulator tensor.
    pub open spec fn i32_data(&self) -> Seq<i32> {
        match self {
            BLiteTensor::BTensor(_) => Seq::empty(),
            BLiteTensor::I32Tensor(a) => a.data@,
        }
    }

    /// Replaces the data of a tensor of the primary element type.
    pub fn set_data(&mut self, data: Vec<T>)
        requires
            !old(self).is_i32(),
        ensures
            !final(self).is_i32(),
            final(self).b_data() == data@,
            final(self).dims() == old(self).dims(),
            final(self).region() == old(self).region(),
    {
        match self {
            BLiteTensor::BTensor(a) => {
                a.data = data;
            },
            BLiteTensor::I32Tensor(_) => {},
        }
    }

    /// The size of one element in bytes.
    pub fn elem_bytes(&self) -> (r: usize)
        ensures
            r == elem_size(*self),
    {
        match self {
            BLiteTensor::BTensor(_) => core::mem::size_of::<T>(),
            BLiteTensor::I32Tensor(_) => core::mem::size_of::<i32>(),
        }
    }

    /// The size of the data in bytes, or `None` when it does not fit in a `usize`.
    pub fn byte_size(&self) -> (r: Option<usize>)
        requires
            shape_fits(self.dims()),
        ensures
            tensor_bytes(*self) <= usize::MAX ==> r == Some(tensor_bytes(*self) as usize),
            tensor_bytes(*self) > usize::MAX ==> r.is_none(),
    {
        let n = self.size();
        let e = self.elem_bytes();
        n.checked_mul(e)
    }
}

pub open spec fn elem_size<T>(t: BLiteTensor<T>) -> int {
    match t {
        BLiteTensor::BTensor(_) => vstd::layout::size_of::<T>() as int,
        BLiteTensor::I32Tensor(_) => vstd::layout::size_of::<i32>() as int,
    }
}

/// The bytes the tensor's data takes.
pub open spec fn tensor_bytes<T>(t: BLiteTensor<T>) -> int {
    let dims = match t {
        BLiteTensor::BTensor(a) => a.dims@,
        BLiteTensor::I32Tensor(a) => a.dims@,
    };
    shape_product(dims) * elem_size(t)
}

} // verus!
