//! The game cartridge.

use vstd::prelude::*;

verus! {

/// The largest cartridge that is accepted, in bytes.
pub const CARTRIDGE_SIZE_IN_BYTES: usize = 38 * 1024 * 1024;

/// The byte order of a cartridge image, told by its first byte.
#[derive(Debug, Clone, Copy, PartialEq, Eq, Structural)]
pub enum CartridgeEndianness {
    /// Used by .z64 images.
    Big,
    /// Used by .n64 images.
    Little,
    /// Used by .v64 images.
    ByteSwapped,
}

/// The byte order that the first byte of an image stands for.
pub open spec fn endianness_of(first: u8) -> Result<CartridgeEndianness, ()> {
    if first == 0x80 {
        Ok(CartridgeEndianness::Big)
    } else if first == 0x40 {
        Ok(CartridgeEndianness::Little)
    } else if first == 0x37 {
        Ok(CartridgeEndianness::ByteSwapped)
    } else {
        Err(())
    }
}

/// A cartridge image.
#[derive(Debug)]
pub struct Cartridge {
    pub data: Vec<u8>,
}

impl Cartridge {
    /// A cartridge with the given content, unless the content is too large.
    pub fn from_bytes(content: Vec<u8>) -> (r: Option<Cartridge>)
        ensures
            match r {
                Some(c) => content@.len() <= CARTRIDGE_SIZE_IN_BYTES && c.data == content,
                None => content@.len() > CARTRIDGE_SIZE_IN_BYTES,
            },
    {
        if content.len() <= CARTRIDGE_SIZE_IN_BYTES {
            Some(Self { data: content })
        } else {
            None
        }
    }

    /// The byte order of the image. An empty image has none.
    pub fn endianness(&self) -> (r: Result<CartridgeEndianness, ()>)
        ensures
            r == if self.data@.len() == 0 {
                Err::<CartridgeEndianness, ()>(())
            } else {
                endianness_of(self.data@[0])
            },
    {
        if self.data.len() == 0 {
            return Err(());
        }
        match self.data[0] {
            0x80 => Ok(CartridgeEndianness::Big),
            0x40 => Ok(CartridgeEndianness::Little),
            0x37 => Ok(CartridgeEndianness::ByteSwapped),
            _ => Err(()),
        }
    }
}

} // verus!
