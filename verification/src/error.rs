use vstd::prelude::*;

verus! {

/// Failures of the exchange protocol and of the bridge entry points.
///
/// Every failure aborts the entry-point call that raised it; no partial
/// result is returned and nothing is retried.
#[derive(Clone, Copy, Debug, PartialEq, Eq, Structural)]
pub enum BridgeError {
    /// Descriptor header fields are inconsistent with the declared column
    /// type: wrong buffer kind, a buffer whose length disagrees with the
    /// declared row count, or an offsets buffer that is not monotone.
    MalformedDescriptor,
    /// A schema field carries a format code that the native type system
    /// cannot represent.
    UnsupportedType,
    /// A nullable field arrived without a validity buffer.
    NullBitmapRequired,
    /// The dataset could not be opened: the path does not resolve, or the
    /// caller-supplied schema does not match the dataset's schema.
    DatasetOpenError,
    /// A range end or a take index exceeds the dataset's row count.
    OutOfRangeAccess,
    /// A range whose start exceeds its end, rejected before the engine is
    /// invoked.
    InvalidRange,
    /// The host-side batch producer returned unusable data during a
    /// streaming write.
    HostCallbackError,
}

} // verus!
