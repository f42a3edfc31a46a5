//! The stream reader: a sequential byte cursor over one file's contents.
use vstd::prelude::*;

use crate::DecodeError;
use crate::Endianness;
use crate::words::read_word16_be;
use crate::words::read_word16_le;
use crate::words::read_word32_be;
use crate::words::read_word32_le;
use crate::words::read_word64_be;
use crate::words::read_word64_le;
use crate::words::word16;
use crate::words::word32;
use crate::words::word64;

verus! {

/// An exclusively-owned cursor over a finite byte sequence. The view is the
/// run of bytes not yet consumed; every successful read takes from its
/// front. A read past the end fails with [`DecodeError::TruncatedInput`]
/// and consumes nothing. The file walker may also place the cursor at a
/// declared block boundary directly.
pub struct ByteSource {
    data: Vec<u8>,
    pos: usize,
}

impl View for ByteSource {
    type V = Seq<u8>;

    closed spec fn view(&self) -> Seq<u8> {
        self.data@.skip(self.pos as int)
    }
}

impl ByteSource {
    #[verifier::type_invariant]
    spec fn wf(self) -> bool {
        self.pos <= self.data@.len()
    }

    /// The whole stream, consumed and unconsumed bytes alike. Reads never
    /// change it; only the cursor moves over it.
    pub closed spec fn stream(&self) -> Seq<u8> {
        self.data@
    }

    /// Starts a cursor over the full contents of one file.
    pub fn new(data: Vec<u8>) -> (s: Self)
        ensures
            s@ == data@,
            s.stream() == data@,
    {
        let s = ByteSource { data, pos: 0 };
        proof {
            assert(s@ =~= s.data@);
        }
        s
    }

    /// How many bytes are left to read.
    pub fn bytes_remaining(&self) -> (n: usize)
        ensures
            n == self@.len(),
    {
        proof {
            use_type_invariant(&*self);
        }
        self.data.len() - self.pos
    }

    /// Reads the next byte.
    pub fn read_u8(&mut self) -> (r: Result<u8, DecodeError>)
        ensures
            final(self).stream() == old(self).stream(),
            match r {
                Ok(b) => old(self)@.len() >= 1 && b == old(self)@[0] && final(self)@ == old(self)@.skip(1),
                Err(err) => old(self)@.len() < 1 && err == DecodeError::TruncatedInput && final(self)@ == old(self)@,
            },
    {
        proof {
            use_type_invariant(&*self);
        }
        if self.pos < self.data.len() {
            let b = self.data[self.pos];
            self.pos = self.pos + 1;
            proof {
                assert(self@ =~= old(self)@.skip(1));
            }
            Ok(b)
        } else {
            Err(DecodeError::TruncatedInput)
        }
    }

    /// Reads a two-byte field in byte order `e`.
    pub fn read_u16(&mut self, e: Endianness) -> (r: Result<u16, DecodeError>)
        ensures
            final(self).stream() == old(self).stream(),
            match r {
                Ok(v) => old(self)@.len() >= 2 && v == word16(e, old(self)@.subrange(0, 2))
                    && final(self)@ == old(self)@.skip(2),
                Err(err) => old(self)@.len() < 2 && err == DecodeError::TruncatedInput && final(self)@ == old(self)@,
            },
    {
        proof {
            use_type_invariant(&*self);
        }
        if self.data.len() - self.pos >= 2 {
            let v: u16 = match e {
                Endianness::Little => read_word16_le(&self.data, self.pos),
                Endianness::Big => read_word16_be(&self.data, self.pos),
            };
            proof {
                assert(self.data@.subrange(self.pos as int, self.pos as int + 2) =~= self@.subrange(
                    0,
                    2,
                ));
            }
            self.pos = self.pos + 2;
            proof {
                assert(self@ =~= old(self)@.skip(2));
            }
            Ok(v)
        } else {
            Err(DecodeError::TruncatedInput)
        }
    }

    /// Reads a four-byte field in byte order `e`.
    pub fn read_u32(&mut self, e: Endianness) -> (r: Result<u32, DecodeError>)
        ensures
            final(self).stream() == old(self).stream(),
            match r {
                Ok(v) => old(self)@.len() >= 4 && v == word32(e, old(self)@.subrange(0, 4))
                    && final(self)@ == old(self)@.skip(4),
                Err(err) => old(self)@.len() < 4 && err == DecodeError::TruncatedInput && final(self)@ == old(self)@,
            },
    {
        proof {
            use_type_invariant(&*self);
        }
        if self.data.len() - self.pos >= 4 {
            let v: u32 = match e {
                Endianness::Little => read_word32_le(&self.data, self.pos),
                Endianness::Big => read_word32_be(&self.data, self.pos),
            };
            proof {
                assert(self.data@.subrange(self.pos as int, self.pos as int + 4) =~= self@.subrange(
                    0,
                    4,
                ));
            }
            self.pos = self.pos + 4;
            proof {
                assert(self@ =~= old(self)@.skip(4));
            }
            Ok(v)
        } else {
            Err(DecodeError::TruncatedInput)
        }
    }

    /// Reads an eight-byte field in byte order `e`.
    pub fn read_u64(&mut self, e: Endianness) -> (r: Result<u64, DecodeError>)
        ensures
            final(self).stream() == old(self).stream(),
            match r {
                Ok(v) => old(self)@.len() >= 8 && v == word64(e, old(self)@.subrange(0, 8))
                    && final(self)@ == old(self)@.skip(8),
                Err(err) => old(self)@.len() < 8 && err == DecodeError::TruncatedInput && final(self)@ == old(self)@,
            },
    {
        proof {
            use_type_invariant(&*self);
        }
        if self.data.len() - self.pos >= 8 {
            let v: u64 = match e {
                Endianness::Little => read_word64_le(&self.data, self.pos),
                Endianness::Big => read_word64_be(&self.data, self.pos),
            };
            proof {
                assert(self.data@.subrange(self.pos as int, self.pos as int + 8) =~= self@.subrange(
                    0,
                    8,
                ));
            }
            self.pos = self.pos + 8;
            proof {
                assert(self@ =~= old(self)@.skip(8));
            }
            Ok(v)
        } else {
            Err(DecodeError::TruncatedInput)
        }
    }

    /// Reads exactly `n` bytes.
    pub fn read_exact(&mut self, n: usize) -> (r: Result<Vec<u8>, DecodeError>)
        ensures
            final(self).stream() == old(self).stream(),
            match r {
                Ok(v) => old(self)@.len() >= n && v@ == old(self)@.subrange(0, n as int) && final(self)@ == old(self)@.skip(n as int),
                Err(err) => old(self)@.len() < n && err == DecodeError::TruncatedInput && final(self)@ == old(self)@,
            },
    {
        proof {
            use_type_invariant(&*self);
        }
        if self.data.len() - self.pos >= n {
            let mut v: Vec<u8> = Vec::new();
            let mut i: usize = 0;
            while i < n
                invariant
                    i <= n,
                    self == old(self),
                    self.pos + n <= self.data@.len(),
                    self.pos + n <= usize::MAX,
                    v@ =~= self.data@.subrange(self.pos as int, self.pos as int + i as int),
                decreases n - i,
            {
                v.push(self.data[self.pos + i]);
                i = i + 1;
                proof {
                    assert(v@ =~= self.data@.subrange(
                        self.pos as int,
                        self.pos as int + i as int,
                    ));
                }
            }
            proof {
                assert(v@ =~= self@.subrange(0, n as int));
            }
            self.pos = self.pos + n;
            proof {
                assert(self@ =~= old(self)@.skip(n as int));
            }
            Ok(v)
        } else {
            Err(DecodeError::TruncatedInput)
        }
    }

    /// Moves the cursor to `pos` bytes from the start of the stream. The
    /// file walker uses it to land on the next declared block boundary,
    /// which need not be where the last field walk ended.
    pub(crate) fn seek_to(&mut self, pos: usize)
        requires
            pos <= old(self).stream().len(),
        ensures
            final(self).stream() == old(self).stream(),
            final(self)@ == old(self).stream().skip(pos as int),
    {
        proof {
            use_type_invariant(&*self);
        }
        self.pos = pos;
    }
}

} // verus!
