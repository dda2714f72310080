//! The block reader capability and the handle through which every node of one
//! image shares a single reader.

use std::cell::BorrowMutError;
use std::cell::RefCell;
use std::cell::RefMut;
use std::io;
use std::ops::DerefMut;
use std::rc::Rc;
use vstd::prelude::*;

verus! {

/// `std::cell::RefCell`, carried through as an opaque value.
#[verifier::external_type_specification]
#[verifier::external_body]
#[verifier::reject_recursive_types(T)]
pub struct ExRefCell<T: ?Sized>(RefCell<T>);

/// `std::cell::RefMut`, carried through as an opaque value.
#[verifier::external_type_specification]
#[verifier::external_body]
#[verifier::reject_recursive_types(T)]
pub struct ExRefMut<'b, T: ?Sized + 'b>(RefMut<'b, T>);

/// `std::cell::BorrowMutError`, carried through as an opaque value.
#[verifier::external_type_specification]
#[verifier::external_body]
pub struct ExBorrowMutError(BorrowMutError);

/// `RefCell::new` wraps a value; nothing is claimed of the cell.
pub assume_specification<T>[ RefCell::<T>::new ](value: T) -> (cell: RefCell<T>);

/// `RefCell::try_borrow_mut` never panics: it reports an outstanding borrow as an error.
pub assume_specification<'a, T: ?Sized>[ RefCell::<T>::try_borrow_mut ](cell: &'a RefCell<T>) -> (guard: Result<RefMut<'a, T>, BorrowMutError>);

/// `RefMut::deref_mut` gives access to the borrowed value; nothing is claimed of it.
#[verifier::external_body]
fn borrowed<'a, 'b, T>(guard: &'a mut RefMut<'b, T>) -> (target: &'a mut T) {
    guard.deref_mut()
}

/// `Rc::clone`: the new pointer refers to the allocation that `rc` refers to,
/// so the two are equal.
#[verifier::external_body]
fn share<T>(rc: &Rc<RefCell<T>>) -> (other: Rc<RefCell<T>>)
    ensures
        other == *rc,
{
    Rc::clone(rc)
}

/// The sole I/O boundary: anything that can fetch whole sectors of an image.
pub trait ISO9660Reader {
    /// Reads the sector(s) starting at the logical block address `lba` into
    /// `buf`, whose size is a multiple of the sector size, and returns how
    /// many bytes were read. Fewer bytes than `buf` holds may be returned
    /// only at the end of the medium.
    ///
    /// Nothing is promised of the outcome. The one clause says what holds of
    /// any slice: the buffer that the caller gets back is as long as the one
    /// it lent.
    fn read_at(&mut self, buf: &mut [u8], lba: u64) -> (count: Result<usize, io::Error>)
        ensures
            final(buf)@.len() == old(buf)@.len(),
    ;
}

/// A share of one block reader. A handle and its clones read through the
/// same reader, one read at a time.
#[derive(Debug)]
#[verifier::reject_recursive_types(T)]
pub struct FileRef<T: ISO9660Reader> {
    inner: Rc<RefCell<T>>,
}

impl<T: ISO9660Reader> Clone for FileRef<T> {
    /// Another handle on the same reader.
    fn clone(&self) -> (other: FileRef<T>)
        ensures
            other == *self,
    {
        FileRef { inner: share(&self.inner) }
    }
}

impl<T: ISO9660Reader> FileRef<T> {
    /// Takes ownership of `reader` and returns the first handle on it.
    pub fn new(reader: T) -> (handle: FileRef<T>) {
        FileRef { inner: Rc::new(RefCell::new(reader)) }
    }

    /// Reads the block(s) at the logical block address `lba` through the
    /// shared reader and returns what the reader returns. A read that is
    /// asked for while another read through the same reader is under way
    /// fails with an error of kind `ResourceBusy`.
    ///
    /// One of two things happens. Either a reader of type `T` makes the
    /// read: it is handed this address and this buffer, and what it returns
    /// and leaves in the buffer is what the caller gets. So whatever `T`
    /// ensures of its own `read_at` holds of a read through a handle too.
    /// Or the reader is busy: the call fails and the buffer is as it was.
    pub fn read_at(&self, buf: &mut [u8], lba: u64) -> (count: Result<usize, io::Error>)
        ensures
            final(buf)@.len() == old(buf)@.len(),
            ({
                ||| exists|reader: &mut T, buffer: &mut [u8]|
                    {
                        &&& (*buffer)@ == old(buf)@
                        &&& (*final(buffer))@ == final(buf)@
                        &&& #[trigger] call_ensures(T::read_at, (reader, buffer, lba), count)
                    }
                ||| count is Err && final(buf)@ == old(buf)@
            }),
    {
        match self.inner.try_borrow_mut() {
            Ok(mut guard) => borrowed(&mut guard).read_at(buf, lba),
            Err(_) => Err(reader_busy()),
        }
    }
}

/// `io::Error::from` applied to `ErrorKind::ResourceBusy`; nothing is claimed of the error.
#[verifier::external_body]
fn reader_busy() -> (err: io::Error) {
    io::Error::from(io::ErrorKind::ResourceBusy)
}

} // verus!
