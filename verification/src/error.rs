//! The failures that the kernel reports to its caller.

use crate::clist::CListError;
use crate::promise::PromiseError;
use vstd::prelude::*;

verus! {

/// A fatal error of the current turn. Dead letters are no errors: they
/// travel as rejections.
#[derive(Debug, Clone, Copy, PartialEq, Eq, Structural)]
pub enum KernelError {
    /// A vat named a reference that it was never granted.
    Confinement,
    /// An identifier was registered a second time.
    Duplicate,
    /// A promise was resolved by a vat that does not decide it, or a
    /// second time.
    Unauthorized,
    /// No vat has this number.
    MissingVat,
    /// A kernel identifier names nothing live, or a reference came home
    /// to a vat that holds no name for it.
    Dangling,
    /// A promise cannot be fulfilled to another promise.
    ReferenceToPromise,
    /// An identifier space is used up.
    Exhausted,
}

/// A c-list failure, as the kernel reports it.
pub open spec fn from_clist_error(e: CListError) -> KernelError {
    match e {
        CListError::KernelPresent => KernelError::Duplicate,
        CListError::VatPresent => KernelError::Duplicate,
        CListError::Exhausted => KernelError::Exhausted,
    }
}

/// A promise table failure, as the kernel reports it.
pub open spec fn from_promise_error(e: PromiseError) -> KernelError {
    match e {
        PromiseError::Unknown => KernelError::Dangling,
        PromiseError::Resolved => KernelError::Unauthorized,
        PromiseError::ReferenceToPromise => KernelError::ReferenceToPromise,
    }
}

/// The result with its value replaced by the value's view.
pub open spec fn result_view<T: View>(r: Result<T, KernelError>) -> Result<T::V, KernelError> {
    match r {
        Ok(x) => Ok(x@),
        Err(e) => Err(e),
    }
}

pub fn clist_error(e: CListError) -> (r: KernelError)
    ensures
        r == from_clist_error(e),
{
    match e {
        CListError::KernelPresent => KernelError::Duplicate,
        CListError::VatPresent => KernelError::Duplicate,
        CListError::Exhausted => KernelError::Exhausted,
    }
}

pub fn promise_error(e: PromiseError) -> (r: KernelError)
    ensures
        r == from_promise_error(e),
{
    match e {
        PromiseError::Unknown => KernelError::Dangling,
        PromiseError::Resolved => KernelError::Unauthorized,
        PromiseError::ReferenceToPromise => KernelError::ReferenceToPromise,
    }
}

} // verus!
