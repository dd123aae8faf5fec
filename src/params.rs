use vstd::prelude::*;

use std::sync::atomic::{AtomicBool, AtomicU32, Ordering};

verus! {

/// The index under which the host sees the pan control.
pub const PAN_INDEX: i32 = 0;

/// The name that the host shows for a parameter index.
pub open spec fn parameter_name(index: i32) -> Seq<char> {
    if index == PAN_INDEX {
        "Amplitude"@
    } else {
        ""@
    }
}

/// The store shared between the control context, which writes the pan, and
/// the render context, which reads it and rebuilds its graph when the dirty
/// flag is up.
///
/// The pan is a normalized value in `[0, 1]`, kept as the bit pattern of an
/// IEEE-754 single-precision float so that it can live in one atomic word.
/// Both fields are lock-free atomics: another thread may write between any
/// two calls, so what a read returns is whatever was stored last, and no
/// contract here can pin it to this thread's own writes.
pub struct Parameters {
    pan: AtomicU32,
    dirty: AtomicBool,
}

impl Parameters {
    /// A store whose pan is `0.0` and whose dirty flag is up, so that the
    /// first processing cycle builds a graph.
    pub fn new() -> (r: Parameters) {
        Parameters { pan: AtomicU32::new(0), dirty: AtomicBool::new(true) }
    }

    /// The bit pattern of the pan value last written.
    pub fn get_pan(&self) -> (r: u32) {
        self.pan.load(Ordering::Relaxed)
    }

    /// Stores a pan value (no range check) and raises the dirty flag. The
    /// value is stored before the flag, so a reader that sees the flag sees
    /// this value or a later one.
    pub fn set_pan(&self, bits: u32) {
        self.pan.store(bits, Ordering::Relaxed);
        self.dirty.store(true, Ordering::Relaxed);
    }

    /// Reads and clears the dirty flag in one atomic step.
    pub fn take_dirty(&self) -> (r: bool) {
        self.dirty.swap(false, Ordering::Relaxed)
    }

    /// The host's read of a parameter: the pan for index 0, the bits of
    /// `0.0` for any other index.
    pub fn get_parameter(&self, index: i32) -> (r: u32)
        ensures
            index != PAN_INDEX ==> r == 0,
    {
        if index == PAN_INDEX {
            self.get_pan()
        } else {
            0
        }
    }

    /// The host's write of a parameter: index 0 stores the pan, any other
    /// index stores nothing; the dirty flag goes up either way.
    pub fn set_parameter(&self, index: i32, bits: u32) {
        if index == PAN_INDEX {
            self.pan.store(bits, Ordering::Relaxed);
        }
        self.dirty.store(true, Ordering::Relaxed);
    }

    /// The name of a parameter: "Amplitude" for index 0, empty otherwise.
    pub fn get_parameter_name(&self, index: i32) -> (r: String)
        ensures
            r@ == parameter_name(index),
    {
        if index == PAN_INDEX {
            "Amplitude".to_owned()
        } else {
            "".to_owned()
        }
    }
}

} // verus!
