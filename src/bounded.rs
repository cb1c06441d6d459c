//! The fixed-capacity containers of the `arrayvec` crate and std's UTF-8
//! check, as the codec uses them.
use vstd::prelude::*;
use vstd::string::StringSliceAdditionalSpecFns;
use vstd::utf8::valid_utf8;

use arrayvec::{ArrayString, ArrayVec, CapacityError};

verus! {

#[verifier::external_type_specification]
#[verifier::external_body]
#[verifier::reject_recursive_types(T)]
pub struct ExArrayVec<T, const CAP: usize>(ArrayVec<T, CAP>);

#[verifier::external_type_specification]
#[verifier::external_body]
pub struct ExArrayString<const CAP: usize>(ArrayString<CAP>);

#[verifier::external_type_specification]
#[verifier::external_body]
#[verifier::reject_recursive_types(T)]
pub struct ExCapacityError<T>(CapacityError<T>);

#[verifier::external_type_specification]
#[verifier::external_body]
pub struct ExUtf8Error(core::str::Utf8Error);

/// The bytes held by a vector of a command's capacity.
pub uninterp spec fn narrow_bytes(v: ArrayVec<u8, 8>) -> Seq<u8>;

/// The bytes held by a vector of a report's, or a reader buffer's, capacity.
pub uninterp spec fn wide_bytes(v: ArrayVec<u8, 256>) -> Seq<u8>;

/// Relies on `ArrayVec::new`: a new vector holds nothing.
#[verifier::external_body]
pub(crate) fn narrow_new() -> (r: ArrayVec<u8, 8>)
    ensures
        narrow_bytes(r) == Seq::<u8>::empty(),
{
    ArrayVec::new()
}

/// Relies on `ArrayVec::push`: appends one element; it panics when the
/// vector is full, which `requires` rules out.
#[verifier::external_body]
pub(crate) fn narrow_push(v: &mut ArrayVec<u8, 8>, x: u8)
    requires
        narrow_bytes(*old(v)).len() < 8,
    ensures
        narrow_bytes(*final(v)) == narrow_bytes(*old(v)).push(x),
{
    v.push(x)
}

/// Relies on `ArrayVec::new`: a new vector holds nothing.
#[verifier::external_body]
pub(crate) fn wide_new() -> (r: ArrayVec<u8, 256>)
    ensures
        wide_bytes(r) == Seq::<u8>::empty(),
{
    ArrayVec::new()
}

/// Relies on `ArrayVec::push`: appends one element; it panics when the
/// vector is full, which `requires` rules out.
#[verifier::external_body]
pub(crate) fn wide_push(v: &mut ArrayVec<u8, 256>, x: u8)
    requires
        wide_bytes(*old(v)).len() < 256,
    ensures
        wide_bytes(*final(v)) == wide_bytes(*old(v)).push(x),
{
    v.push(x)
}

/// Relies on `ArrayVec::try_extend_from_slice`: appends all of `other` when
/// it fits in the capacity left, and otherwise fails and changes nothing.
#[verifier::external_body]
pub(crate) fn wide_extend(v: &mut ArrayVec<u8, 256>, other: &[u8]) -> (r: Result<(), CapacityError>)
    ensures
        r is Ok <==> wide_bytes(*old(v)).len() + other@.len() <= 256,
        r is Ok ==> wide_bytes(*final(v)) == wide_bytes(*old(v)) + other@,
        r is Err ==> wide_bytes(*final(v)) == wide_bytes(*old(v)),
{
    v.try_extend_from_slice(other)
}

/// Relies on `ArrayVec::as_slice`: the elements in order; never more than
/// the capacity.
#[verifier::external_body]
pub(crate) fn wide_slice(v: &ArrayVec<u8, 256>) -> (r: &[u8])
    ensures
        r@ == wide_bytes(*v),
        r@.len() <= 256,
{
    v.as_slice()
}

/// Relies on `ArrayVec::drain`: removes the first `n` elements. It panics
/// when `n` is past the end, which `requires` rules out.
#[verifier::external_body]
pub(crate) fn wide_drop_front(v: &mut ArrayVec<u8, 256>, n: usize)
    requires
        n <= wide_bytes(*old(v)).len(),
    ensures
        wide_bytes(*final(v)) == wide_bytes(*old(v)).skip(n as int),
{
    v.drain(0..n);
}

/// The text held by a debug message.
pub uninterp spec fn debug_text(s: ArrayString<254>) -> Seq<char>;

/// Relies on `ArrayString::from`: a copy of `s` when its UTF-8 bytes fit in
/// the capacity, and an error otherwise.
#[verifier::external_body]
pub(crate) fn debug_text_from(s: &str) -> (r: Result<ArrayString<254>, CapacityError<&str>>)
    ensures
        r is Ok <==> s.spec_bytes().len() <= 254,
        r matches Ok(m) ==> debug_text(m) == s@,
{
    ArrayString::from(s)
}

/// Relies on `ArrayString::as_str`: the text held, whose UTF-8 bytes never
/// exceed the capacity.
#[verifier::external_body]
pub(crate) fn debug_text_str(m: &ArrayString<254>) -> (r: &str)
    ensures
        r@ == debug_text(*m),
        r.spec_bytes().len() <= 254,
{
    m.as_str()
}

/// Relies on `core::str::from_utf8`: the bytes as text exactly when they are
/// valid UTF-8.
#[verifier::external_body]
pub(crate) fn utf8_text(b: &[u8]) -> (r: Result<&str, core::str::Utf8Error>)
    ensures
        r is Ok <==> valid_utf8(b@),
        r matches Ok(s) ==> s.spec_bytes() == b@,
{
    core::str::from_utf8(b)
}

} // verus!
