//! Progress payloads: a snapshot of one completed row of pixel bytes.

use vstd::prelude::*;

verus! {

/// The pixel bytes of one row, independent of the shared buffer's lifetime.
#[derive(Clone, Debug)]
pub struct BigBoy(pub Vec<u8>);

impl View for BigBoy {
    type V = Seq<u8>;

    open spec fn view(&self) -> Seq<u8> {
        self.0@
    }
}

impl BigBoy {
    /// Wraps row bytes as a payload body.
    pub fn from_bytes(bytes: Vec<u8>) -> (b: BigBoy)
        ensures
            b@ == bytes@,
    {
        BigBoy(bytes)
    }

    /// A copy of `bytes` padded with zeros to exactly `size` bytes; refused
    /// when `bytes` is longer than `size`.
    pub fn try_from_padded(bytes: &Vec<u8>, size: usize) -> (res: Result<BigBoy, ()>)
        ensures
            match res {
                Ok(b) => {
                    &&& bytes@.len() <= size
                    &&& b@.len() == size
                    &&& forall|i: int| 0 <= i < bytes@.len() ==> b@[i] == bytes@[i]
                    &&& forall|i: int| bytes@.len() <= i < size ==> b@[i] == 0
                },
                Err(_) => bytes@.len() > size,
            },
    {
        if bytes.len() > size {
            return Err(());
        }
        let mut out: Vec<u8> = Vec::new();
        let mut i: usize = 0;
        while i < bytes.len()
            invariant
                i <= bytes@.len() <= size,
                out@.len() == i,
                forall|j: int| 0 <= j < i ==> out@[j] == bytes@[j],
            decreases bytes@.len() - i,
        {
            out.push(bytes[i]);
            i = i + 1;
        }
        while out.len() < size
            invariant
                bytes@.len() <= out@.len() <= size,
                forall|j: int| 0 <= j < bytes@.len() ==> out@[j] == bytes@[j],
                forall|j: int| bytes@.len() <= j < out@.len() ==> out@[j] == 0,
            decreases size - out@.len(),
        {
            out.push(0);
        }
        Ok(BigBoy(out))
    }
}

/// One completed row: its index and its pixel bytes.
#[derive(Clone, Debug)]
pub struct Payload {
    pub row: usize,
    pub pixels: BigBoy,
}

} // verus!
