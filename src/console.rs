use vstd::prelude::*;
use spin::{Mutex, MutexGuard};
use crate::writer::Writer;

verus! {

#[verifier::external_type_specification]
#[verifier::external_body]
#[verifier::reject_recursive_types(T)]
pub struct ExMutex<T: ?Sized>(Mutex<T>);

#[verifier::external_type_specification]
#[verifier::external_body]
#[verifier::reject_recursive_types(T)]
pub struct ExMutexGuard<'a, T: ?Sized + 'a>(MutexGuard<'a, T>);

/// Relies on `spin::Mutex::lock`: spins until the lock is free, then holds it
/// until the returned guard is dropped. It does not return while another
/// holder, the caller included, keeps the lock.
#[verifier::external_body]
fn acquire(console: &Mutex<Writer>) -> MutexGuard<'_, Writer> {
    console.lock()
}

/// Relies on `DerefMut` for `spin::MutexGuard`: exclusive access to the
/// writer that the held lock protects.
#[verifier::external_body]
fn guarded<'a, 'b>(guard: &'a mut MutexGuard<'b, Writer>) -> &'a mut Writer {
    &mut **guard
}

/// Writes `s` to the console's writer while holding its lock, so that no
/// other caller's writes interleave with these.
pub fn _print(console: &Mutex<Writer>, s: &str) {
    let mut guard = acquire(console);
    let writer = guarded(&mut guard);
    writer.write_string(s);
}

} // verus!
