//! A fixed-capacity FIFO of bytes: bytes are appended at the back and
//! consumed from the front, and the operations saturate instead of failing.

use vstd::prelude::*;
use vstd::string::StringSliceAdditionalSpecFns;

verus! {

/// Index of the first occurrence of `pat` in `data`; an empty pattern is
/// found at 0.
pub open spec fn first_match(data: Seq<u8>, pat: Seq<u8>) -> Option<int> {
    if pat.len() == 0 {
        Some(0)
    } else if exists|i: int| 0 <= i && i + pat.len() <= data.len() && #[trigger] data.subrange(i, i + pat.len()) == pat {
        Some(
            choose|i: int|
                0 <= i && i + pat.len() <= data.len() && #[trigger] data.subrange(i, i + pat.len()) == pat
                    && forall|j: int| 0 <= j < i ==> #[trigger] data.subrange(j, j + pat.len()) != pat,
        )
    } else {
        None
    }
}

/// A byte queue of capacity `BUF_SIZE`.
#[derive(Debug)]
pub struct FifoBuffer<const BUF_SIZE: usize> {
    buffer: [u8; BUF_SIZE],
    used: usize,
}

impl<const BUF_SIZE: usize> View for FifoBuffer<BUF_SIZE> {
    type V = Seq<u8>;

    /// The bytes held, front first.
    closed spec fn view(&self) -> Seq<u8> {
        self.buffer@.take(self.used as int)
    }
}

impl<const BUF_SIZE: usize> FifoBuffer<BUF_SIZE> {
    /// The whole storage, held bytes first, then the unused tail.
    pub closed spec fn storage(&self) -> Seq<u8> {
        self.buffer@
    }

    pub closed spec fn wf(&self) -> bool {
        self.used <= BUF_SIZE
    }

    /// The held bytes are the front of the storage, which has the capacity's length.
    pub proof fn lemma_layout(&self)
        requires
            self.wf(),
        ensures
            self.storage().len() == BUF_SIZE,
            self@.len() <= BUF_SIZE,
            self@ == self.storage().take(self@.len() as int),
    {
    }

    /// An empty buffer.
    pub fn new() -> (r: Self)
        ensures
            r.wf(),
            r@ == Seq::<u8>::empty(),
            r.storage().len() == BUF_SIZE,
    {
        FifoBuffer { buffer: [0u8; BUF_SIZE], used: 0 }
    }

    pub fn is_empty(&self) -> (r: bool)
        requires
            self.wf(),
        ensures
            r == (self@.len() == 0),
    {
        self.used == 0
    }

    pub fn is_full(&self) -> (r: bool)
        requires
            self.wf(),
        ensures
            r == (self@.len() == BUF_SIZE),
    {
        self.used == BUF_SIZE
    }

    /// Number of bytes held.
    pub fn len(&self) -> (r: usize)
        requires
            self.wf(),
        ensures
            r == self@.len(),
    {
        self.used
    }

    /// Number of bytes that still fit.
    pub fn available(&self) -> (r: usize)
        requires
            self.wf(),
        ensures
            r == BUF_SIZE - self@.len(),
    {
        BUF_SIZE - self.used
    }

    /// Drops every byte.
    pub fn clear(&mut self)
        ensures
            final(self).wf(),
            final(self)@ == Seq::<u8>::empty(),
            final(self).storage() == old(self).storage(),
    {
        self.used = 0;
    }

    /// Counts `n` more bytes of the storage as held, up to the capacity;
    /// used after filling the unused tail directly.
    pub fn advance(&mut self, n: usize)
        requires
            old(self).wf(),
        ensures
            final(self).wf(),
            final(self).storage() == old(self).storage(),
            final(self)@.len() == if old(self)@.len() + n <= BUF_SIZE {
                old(self)@.len() + n
            } else {
                BUF_SIZE as int
            },
            final(self)@ == final(self).storage().take(final(self)@.len() as int),
    {
        self.used = if n <= BUF_SIZE - self.used {
            self.used + n
        } else {
            BUF_SIZE
        };
    }

    /// Sets the number of held bytes, up to the capacity.
    pub fn set_end(&mut self, index: usize)
        ensures
            final(self).wf(),
            final(self).storage() == old(self).storage(),
            final(self)@.len() == if index <= BUF_SIZE {
                index as int
            } else {
                BUF_SIZE as int
            },
            final(self)@ == final(self).storage().take(final(self)@.len() as int),
    {
        self.used = if index <= BUF_SIZE {
            index
        } else {
            BUF_SIZE
        };
    }

    /// The unused tail of the storage, to be filled in place and then
    /// committed with `advance`.
    pub fn receive_buffer(&mut self) -> (r: &mut [u8])
        requires
            old(self).wf(),
        ensures
            r@ == old(self).storage().skip(old(self)@.len() as int),
            final(self).wf(),
            final(self)@ == old(self)@,
            final(self).storage() == old(self)@ + final(r)@,
    {
        let used = self.used;
        let whole: &mut [u8] = &mut self.buffer;
        let (_, tail) = whole.split_at_mut(used);
        tail
    }

    /// Lets `f` fill the unused tail in place and commits the number of
    /// bytes it reports, up to the room there was: the committed bytes are
    /// the first ones that `f` left in the tail.
    pub fn try_write<F>(&mut self, f: F) -> (r: usize)
        where
            F: FnOnce(&mut [u8]) -> usize,
        requires
            old(self).wf(),
            forall|tail: &mut [u8]| f.requires((tail,)),
        ensures
            final(self).wf(),
            exists|tail: &mut [u8], k: usize|
                {
                    &&& f.ensures((tail,), k)
                    &&& (*tail)@ == old(self).storage().skip(old(self)@.len() as int)
                    &&& final(tail)@.len() == BUF_SIZE - old(self)@.len()
                    &&& r == (if k < BUF_SIZE - old(self)@.len() {
                        k as int
                    } else {
                        BUF_SIZE - old(self)@.len()
                    })
                    &&& final(self)@ == old(self)@ + final(tail)@.take(r as int)
                },
    {
        let ghost before = self@;
        let available = self.receive_buffer();
        let ghost handed = available;
        let available_len = available.len();
        let reported = f(available);
        let written = if reported < available_len {
            reported
        } else {
            available_len
        };
        proof {
            assert(self.storage() == before + final(handed)@);
        }
        self.advance(written);
        proof {
            assert(self@ =~= before + final(handed)@.take(written as int));
        }
        written
    }

    /// Appends one byte; false, with nothing changed, when the buffer is full.
    pub fn add_single(&mut self, item: u8) -> (r: bool)
        requires
            old(self).wf(),
        ensures
            final(self).wf(),
            r == (old(self)@.len() < BUF_SIZE),
            r ==> final(self)@ == old(self)@.push(item),
            !r ==> final(self)@ == old(self)@,
    {
        if self.used == BUF_SIZE {
            return false;
        }
        let ghost before = self.buffer@;
        self.buffer[self.used] = item;
        self.used = self.used + 1;
        proof {
            assert(self.buffer@.take(self.used as int) =~= before.take(self.used - 1).push(item));
        }
        true
    }

    /// Appends as many bytes of `buf` as fit and returns how many.
    pub fn append(&mut self, buf: &[u8]) -> (r: usize)
        requires
            old(self).wf(),
        ensures
            final(self).wf(),
            r == if buf@.len() <= BUF_SIZE - old(self)@.len() {
                buf@.len() as int
            } else {
                BUF_SIZE - old(self)@.len()
            },
            final(self)@ == old(self)@ + buf@.take(r as int),
    {
        let room = BUF_SIZE - self.used;
        let n = if buf.len() < room {
            buf.len()
        } else {
            room
        };
        let ghost start = self@;
        let mut i: usize = 0;
        while i < n
            invariant
                self.wf(),
                n <= buf.len(),
                n <= BUF_SIZE - start.len(),
                i <= n,
                self@ == start + buf@.take(i as int),
            decreases n - i,
        {
            let ghost before = self@;
            let ok = self.add_single(buf[i]);
            proof {
                assert(buf@.take(i + 1) == buf@.take(i as int).push(buf@[i as int]));
                assert(start + buf@.take(i + 1) == (start + buf@.take(i as int)).push(buf@[i as int]));
            }
            i += 1;
        }
        n
    }

    /// The bytes held, front first.
    pub fn get_data(&self) -> (r: &[u8])
        requires
            self.wf(),
        ensures
            r@ == self@,
    {
        &self.buffer[0..self.used]
    }

    /// Drops the first `n` bytes, or all of them when fewer are held.
    pub fn pop(&mut self, n: usize)
        requires
            old(self).wf(),
        ensures
            final(self).wf(),
            final(self)@ == old(self)@.skip(if n <= old(self)@.len() {
                n as int
            } else {
                old(self)@.len() as int
            }),
    {
        let n = if n <= self.used {
            n
        } else {
            self.used
        };
        let ghost held = self@;
        let keep = self.used - n;
        let mut i: usize = 0;
        while i < keep
            invariant
                self.wf(),
                n + keep == self.used,
                held.len() == self.used,
                i <= keep,
                self.buffer@.len() == BUF_SIZE,
                forall|k: int| 0 <= k < i ==> self.buffer@[k] == held[k + n],
                forall|k: int| i + n <= k < self.used ==> self.buffer@[k] == held[k],
            decreases keep - i,
        {
            let b = self.buffer[i + n];
            self.buffer[i] = b;
            i += 1;
        }
        self.used = keep;
        proof {
            assert(self@ =~= held.skip(n as int));
        }
    }

    /// Removes and returns the first byte.
    pub fn read_single(&mut self) -> (r: Option<u8>)
        requires
            old(self).wf(),
        ensures
            final(self).wf(),
            old(self)@.len() == 0 ==> r is None && final(self)@ == old(self)@,
            old(self)@.len() > 0 ==> r == Some(old(self)@[0]) && final(self)@ == old(self)@.skip(1),
    {
        if self.used == 0 {
            return None;
        }
        let item = self.buffer[0];
        self.pop(1);
        Some(item)
    }

    /// Moves as many bytes as fit from the front of the buffer into the front
    /// of `data`, and returns how many.
    pub fn read(&mut self, data: &mut [u8]) -> (r: usize)
        requires
            old(self).wf(),
        ensures
            final(self).wf(),
            r == if old(self)@.len() <= old(data)@.len() {
                old(self)@.len() as int
            } else {
                old(data)@.len() as int
            },
            final(data)@.len() == old(data)@.len(),
            final(data)@.take(r as int) == old(self)@.take(r as int),
            final(data)@.skip(r as int) == old(data)@.skip(r as int),
            final(self)@ == old(self)@.skip(r as int),
    {
        let n = if self.used <= data.len() {
            self.used
        } else {
            data.len()
        };
        let ghost d0 = data@;
        let mut i: usize = 0;
        while i < n
            invariant
                self.wf(),
                n <= self.used,
                n <= data@.len(),
                data@.len() == d0.len(),
                i <= n,
                forall|k: int| 0 <= k < i ==> data@[k] == self@[k],
                forall|k: int| i <= k < data@.len() ==> data@[k] == d0[k],
            decreases n - i,
        {
            data[i] = self.buffer[i];
            i += 1;
        }
        proof {
            assert(data@.take(n as int) =~= self@.take(n as int));
            assert(data@.skip(n as int) =~= d0.skip(n as int));
        }
        self.pop(n);
        n
    }

    /// Index of the first occurrence of `slice` among the held bytes; an
    /// empty slice is found at 0.
    pub fn contains_slice(&self, slice: &[u8]) -> (r: Option<usize>)
        requires
            self.wf(),
        ensures
            match first_match(self@, slice@) {
                Some(i) => r is Some && r->0 as int == i,
                None => r is None,
            },
    {
        if slice.len() == 0 {
            return Some(0);
        }
        let data = self.get_data();
        if slice.len() > data.len() {
            proof {
                assert forall|i: int| 0 <= i && i + slice@.len() <= data@.len() implies #[trigger] data@.subrange(i, i + slice@.len()) != slice@ by {}
            }
            return None;
        }
        let dlen = data.len();
        let last = dlen - slice.len();
        let mut i: usize = 0;
        while i <= last
            invariant
                last < usize::MAX,
                dlen == data@.len(),
                data@ == self@,
                slice@.len() > 0,
                last + slice@.len() == data@.len(),
                i <= last + 1,
                forall|j: int| 0 <= j < i ==> #[trigger] data@.subrange(j, j + slice@.len()) != slice@,
            decreases last + 1 - i,
        {
            let mut k: usize = 0;
            let mut same = true;
            while k < slice.len()
                invariant
                    i <= last,
                    dlen == data@.len(),
                    last < usize::MAX,
                    slice@.len() > 0,
                    last + slice@.len() == data@.len(),
                    k <= slice@.len(),
                    same == forall|m: int| 0 <= m < k ==> data@[i + m] == slice@[m],
                decreases slice.len() - k,
            {
                if data[i + k] != slice[k] {
                    same = false;
                }
                k += 1;
            }
            if same {
                proof {
                    assert(data@.subrange(i as int, i + slice@.len()) =~= slice@);
                    let c = choose|c: int|
                        0 <= c && c + slice@.len() <= data@.len() && #[trigger] data@.subrange(c, c + slice@.len()) == slice@
                            && forall|j: int| 0 <= j < c ==> #[trigger] data@.subrange(j, j + slice@.len()) != slice@;
                    if c < i {
                        assert(data@.subrange(c, c + slice@.len()) != slice@);
                    }
                    if c > i {
                        assert(data@.subrange(i as int, i + slice@.len()) != slice@);
                    }
                }
                return Some(i);
            } else {
                proof {
                    let m = choose|m: int| 0 <= m < slice@.len() && data@[i + m] != slice@[m];
                    assert(data@.subrange(i as int, i + slice@.len())[m] != slice@[m]);
                }
            }
            i += 1;
        }
        proof {
            assert forall|j: int| 0 <= j && j + slice@.len() <= data@.len() implies #[trigger] data@.subrange(j, j + slice@.len()) != slice@ by {
                assert(j < i);
            }
        }
        None
    }

    /// Index of the first occurrence of the bytes of `word` among the held bytes.
    pub fn contains_str(&self, word: &str) -> (r: Option<usize>)
        requires
            self.wf(),
        ensures
            match first_match(self@, word.spec_bytes()) {
                Some(i) => r is Some && r->0 as int == i,
                None => r is None,
            },
    {
        self.contains_slice(word.as_bytes())
    }
}

} // verus!
