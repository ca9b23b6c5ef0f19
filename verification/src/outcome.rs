use crate::errors::ShmError;
use vstd::prelude::*;

verus! {

/// Classifies the descriptor handed back by a create-or-open call.
///
/// A strictly positive descriptor is accepted; anything else is a creation
/// failure carrying the error code that was current at the time of the call.
pub fn check_create(fd: i32, errno_value: i32) -> (r: Result<i32, ShmError>)
    ensures
        fd > 0 ==> r == Ok::<i32, ShmError>(fd),
        fd <= 0 ==> r == Err::<i32, ShmError>(ShmError::CreationFailure(errno_value)),
{
    if fd > 0 {
        Ok(fd)
    } else {
        Err(ShmError::CreationFailure(errno_value))
    }
}

/// Classifies the return code of a resize (truncation) call: a negative
/// code is a resize failure, any other code is success.
pub fn check_resize(ret: i32) -> (r: Result<(), ShmError>)
    ensures
        ret >= 0 ==> r == Ok::<(), ShmError>(()),
        ret < 0 ==> r == Err::<(), ShmError>(ShmError::ResizeFailure),
{
    if ret < 0 {
        Err(ShmError::ResizeFailure)
    } else {
        Ok(())
    }
}

/// Classifies the address produced by a mapping call: an unset (zero)
/// address is a mapping failure, any other address is accepted.
pub fn check_map(addr: usize) -> (r: Result<usize, ShmError>)
    ensures
        addr != 0 ==> r == Ok::<usize, ShmError>(addr),
        addr == 0 ==> r == Err::<usize, ShmError>(ShmError::MappingFailure),
{
    if addr == 0 {
        Err(ShmError::MappingFailure)
    } else {
        Ok(addr)
    }
}

} // verus!
