//! The samples of an event: one waveform per channel, in one block of memory.
use ndarray::Array2;
use vstd::prelude::*;

verus! {

/// The waveforms of all channels of a board: a two-dimensional array with a row
/// for each channel. The rows lie one after another in memory.
#[verifier::external_body]
#[derive(Debug)]
pub struct Waveforms {
    data: Array2<u16>,
}

/// The samples of an array, row after row.
pub uninterp spec fn samples(waveforms: Waveforms) -> Seq<u16>;

/// The numbers of rows and columns of an array.
pub uninterp spec fn shape(waveforms: Waveforms) -> (nat, nat);

/// `n` samples that are all zero.
pub open spec fn zeros(n: nat) -> Seq<u16> {
    Seq::new(n, |i: int| 0u16)
}

/// What zero suppression leaves of a sample.
pub open spec fn suppressed(adc: u16) -> u16 {
    0
}

/// Whether an array of the given shape can be laid out in memory: neither the
/// number of its rows, nor that of its columns, nor the bytes of its samples
/// exceed what an `isize` can hold.
pub open spec fn shape_fits(rows: nat, columns: nat) -> bool {
    &&& rows <= isize::MAX
    &&& columns <= isize::MAX
    &&& rows * columns * 2 <= isize::MAX
}

/// `ndarray::Array2::zeros` for `u16`. It is trusted to make an array of the
/// given shape, with its rows one after another in memory, whose samples are
/// all zero. It panics where the product of the axis lengths that are not zero
/// exceeds `isize::MAX`, and where the samples take more than `isize::MAX`
/// bytes.
#[verifier::external_body]
fn array_zeros(rows: usize, columns: usize) -> (waveforms: Waveforms)
    requires
        shape_fits(rows as nat, columns as nat),
    ensures
        samples(waveforms) == zeros(rows as nat * columns as nat),
        shape(waveforms) == (rows as nat, columns as nat),
{
    Waveforms { data: Array2::<u16>::zeros((rows, columns)) }
}

/// Zero suppression of one sample.
fn suppress_sample(adc: &mut u16)
    ensures
        *final(adc) == suppressed(*old(adc)),
{
    *adc = 0;
}

/// `ndarray::ArrayBase::par_map_inplace`, called with [`suppress_sample`]. It is
/// trusted to call that function exactly once on each sample, in place, and to
/// leave the shape as it is.
#[verifier::external_body]
fn array_suppress(waveforms: &mut Waveforms)
    ensures
        samples(*final(waveforms)) == samples(*old(waveforms)).map_values(
            |adc: u16| suppressed(adc),
        ),
        shape(*final(waveforms)) == shape(*old(waveforms)),
{
    waveforms.data.par_map_inplace(|adc| suppress_sample(adc));
}

/// `ndarray::ArrayBase::as_slice`. It is trusted to hand out all samples, row
/// after row. It does so for every array whose rows lie one after another in
/// memory, and [`Waveforms`] holds no other: [`array_zeros`] alone makes them,
/// and nothing changes their layout.
#[verifier::external_body]
fn array_slice(waveforms: &Waveforms) -> (slice: Option<&[u16]>)
    ensures
        slice is Some,
        slice.unwrap()@ == samples(*waveforms),
{
    waveforms.data.as_slice()
}

/// `ndarray::ArrayBase::as_slice_mut`. It is trusted to hand out all samples for
/// writing, row after row, so that what is written there is what the array then
/// holds, in the same shape. It does so for the same arrays as [`array_slice`].
#[verifier::external_body]
fn array_slice_mut(waveforms: &mut Waveforms) -> (slice: Option<&mut [u16]>)
    ensures
        slice is Some,
        slice.unwrap()@ == samples(*old(waveforms)),
        samples(*final(waveforms)) == final(slice.unwrap())@,
        shape(*final(waveforms)) == shape(*old(waveforms)),
{
    waveforms.data.as_slice_mut()
}

/// `ndarray::ArrayBase::dim`. It is trusted to return the numbers of rows and
/// columns.
#[verifier::external_body]
fn array_dim(waveforms: &Waveforms) -> (dim: (usize, usize))
    ensures
        dim.0 as nat == shape(*waveforms).0,
        dim.1 as nat == shape(*waveforms).1,
{
    waveforms.data.dim()
}

impl Waveforms {
    /// Makes waveforms of the given number of samples for the given number of
    /// channels, all zero.
    pub fn new(n_channels: usize, waveform_len: usize) -> (waveforms: Waveforms)
        requires
            shape_fits(n_channels as nat, waveform_len as nat),
        ensures
            samples(waveforms) == zeros(n_channels as nat * waveform_len as nat),
            shape(waveforms) == (n_channels as nat, waveform_len as nat),
    {
        array_zeros(n_channels, waveform_len)
    }

    /// The numbers of channels and of samples per channel.
    pub fn dim(&self) -> (dim: (usize, usize))
        ensures
            dim.0 as nat == shape(*self).0,
            dim.1 as nat == shape(*self).1,
    {
        array_dim(self)
    }

    /// All samples, channel after channel.
    pub fn as_slice(&self) -> (slice: &[u16])
        ensures
            slice@ == samples(*self),
    {
        array_slice(self).unwrap()
    }

    /// All samples, channel after channel, for writing.
    pub fn as_slice_mut(&mut self) -> (slice: &mut [u16])
        ensures
            slice@ == samples(*old(self)),
            samples(*final(self)) == final(slice)@,
            shape(*final(self)) == shape(*old(self)),
    {
        array_slice_mut(self).unwrap()
    }

    /// Sets every sample to zero.
    pub fn suppress(&mut self)
        ensures
            samples(*final(self)) == zeros(samples(*old(self)).len()),
            shape(*final(self)) == shape(*old(self)),
    {
        array_suppress(self);
        assert(samples(*self) =~= zeros(samples(*old(self)).len()));
    }
}

} // verus!
