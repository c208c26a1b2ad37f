use vstd::prelude::*;

verus! {

/// A hook on the memory bus of a machine. `id` tells the machines of a
/// linked pair apart. A hook that leaves a method out leaves the bus alone.
pub trait MemoryInterceptor {
    /// Looks at a read; what it returns is what the machine reads. As it
    /// stands here it returns `data`, which leaves the read alone.
    fn intercept_read(&mut self, id: usize, addr: u16, data: u8) -> (read: u8)
        default_ensures
            read == data,
            &*final(self) == &*old(self),
    {
        data
    }

    /// Looks at a write. Returns `false` to keep the write from happening;
    /// as it stands here it lets every write happen.
    fn intercept_write(&mut self, id: usize, addr: u16, data: u8) -> (allow: bool)
        default_ensures
            allow,
            &*final(self) == &*old(self),
    {
        true
    }

    /// Looks at the fetch of an opcode. As it stands here it does nothing.
    fn intercept_execute(&mut self, id: usize, addr: u16, opcode: u8)
        default_ensures
            &*final(self) == &*old(self),
    {
    }
}

} // verus!
