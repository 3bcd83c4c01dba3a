//! Which execution backend carries out each file operation.
use vstd::prelude::*;

verus! {

/// The execution model a file handle is bound to when it is opened. It never
/// changes for the life of the handle.
#[derive(Clone, Copy, Debug, PartialEq, Eq)]
pub enum Backend {
    /// Blocking calls run on a pool of worker threads.
    Blocking,
    /// Submissions go to a kernel queue driven by one single-threaded event loop.
    QueueBound,
}

/// The operations of a file handle that depend on its backend.
#[derive(Clone, Copy, Debug, PartialEq, Eq)]
pub enum FileOp {
    ReadAt,
    ReadvAt,
    WriteAt,
    WritevAt,
    Metadata,
    TryClone,
}

/// How an operation is carried out.
#[derive(Clone, Copy, Debug, PartialEq, Eq)]
pub enum Route {
    /// Through the vectored system calls, or a query, on the raw descriptor.
    Descriptor,
    /// Through the backend's own file object.
    Native,
    /// Not offered on this backend; the operation fails fast.
    Unsupported,
}

/// The route of each operation on each backend. Vectored operations always
/// go to the raw descriptor, since the queue backend's file object offers no
/// positioned vectored calls; so does the metadata query, on a non-owning view
/// of the descriptor. Cloning is offered on the blocking backend only.
pub open spec fn route_of(backend: Backend, op: FileOp) -> Route {
    match op {
        FileOp::ReadvAt | FileOp::WritevAt | FileOp::Metadata => Route::Descriptor,
        FileOp::ReadAt | FileOp::WriteAt => match backend {
            Backend::Blocking => Route::Descriptor,
            Backend::QueueBound => Route::Native,
        },
        FileOp::TryClone => match backend {
            Backend::Blocking => Route::Native,
            Backend::QueueBound => Route::Unsupported,
        },
    }
}

/// Choose the route of `op` on a handle bound to `backend`.
pub fn route(backend: Backend, op: FileOp) -> (r: Route)
    ensures
        r == route_of(backend, op),
{
    match op {
        FileOp::ReadvAt | FileOp::WritevAt | FileOp::Metadata => Route::Descriptor,
        FileOp::ReadAt | FileOp::WriteAt => match backend {
            Backend::Blocking => Route::Descriptor,
            Backend::QueueBound => Route::Native,
        },
        FileOp::TryClone => match backend {
            Backend::Blocking => Route::Native,
            Backend::QueueBound => Route::Unsupported,
        },
    }
}

} // verus!
