//! The content of a regular file, as the operations of this library see it.
//!
//! A [`FileImage`] stands for the bytes that an open file holds. It can be
//! resized like a file: cutting it keeps a prefix, and extending it appends
//! zero bytes, which take no memory until they are overwritten or read.

use vstd::prelude::*;

verus! {

/// `n` zero bytes.
pub open spec fn zeros(n: nat) -> Seq<u8> {
    Seq::new(n, |i: int| 0u8)
}

/// The content `s` after its length was set to `n`: a prefix of `s` where `n`
/// is smaller, `s` followed by zero bytes where `n` is larger.
pub open spec fn resized(s: Seq<u8>, n: nat) -> Seq<u8> {
    if n <= s.len() {
        s.take(n as int)
    } else {
        s + zeros((n - s.len()) as nat)
    }
}

/// The content `s` after `data` was written at its start: `data` replaces the
/// bytes it covers, and reaches past the end of `s` where it is longer.
pub open spec fn overwritten(s: Seq<u8>, data: Seq<u8>) -> Seq<u8> {
    if data.len() >= s.len() {
        data
    } else {
        data + s.skip(data.len() as int)
    }
}

/// The bytes of a file.
pub struct FileImage {
    /// The leading bytes of the content. Every byte behind them is zero.
    stored: Vec<u8>,
    /// Length of the content.
    len: u64,
}

impl View for FileImage {
    type V = Seq<u8>;

    closed spec fn view(&self) -> Seq<u8> {
        Seq::new(
            self.len as nat,
            |i: int|
                if i < self.stored@.len() {
                    self.stored@[i]
                } else {
                    0u8
                },
        )
    }
}

impl FileImage {
    /// Whether the image is well formed: the bytes held in memory are a part
    /// of the content. Every image that this library hands out is.
    pub closed spec fn wf(&self) -> bool {
        self.stored@.len() <= self.len
    }

    /// An image that holds exactly `bytes`.
    pub fn new(bytes: Vec<u8>) -> (image: FileImage)
        ensures
            image.wf(),
            image@ == bytes@,
    {
        let len: u64 = bytes.len() as u64;
        let image = FileImage { stored: bytes, len };
        assert(image@ =~= bytes@);
        image
    }

    /// Length of the content in bytes.
    pub fn len(&self) -> (n: u64)
        ensures
            n == self@.len(),
    {
        self.len
    }

    /// Sets the length of the content to `n` bytes, as resizing a file does.
    pub fn set_len(&mut self, n: u64)
        requires
            old(self).wf(),
        ensures
            final(self).wf(),
            final(self)@ == resized(old(self)@, n as nat),
    {
        if n < self.stored.len() as u64 {
            self.stored.truncate(n as usize);
        }
        self.len = n;
        assert(self@ =~= resized(old(self)@, n as nat));
    }

    /// Writes `data` over the start of the content. Content behind `data`
    /// stays as it was; where `data` is longer than the content, the content
    /// ends with `data`.
    pub fn write_at_start(&mut self, data: &[u8])
        requires
            old(self).wf(),
        ensures
            final(self).wf(),
            final(self)@ == overwritten(old(self)@, data@),
    {
        let count: usize = data.len();
        if self.len < count as u64 {
            self.len = count as u64;
        }
        let ghost before = old(self).stored@;
        let mut i: usize = 0;
        while i < count
            invariant
                i <= count,
                count == data@.len(),
                count <= self.len,
                self.len == if old(self).len < count {
                    count as u64
                } else {
                    old(self).len
                },
                before == old(self).stored@,
                self.stored@.len() <= self.len,
                self.stored@.len() == if before.len() < i {
                    i as int
                } else {
                    before.len() as int
                },
                forall|j: int| 0 <= j < i ==> self.stored@[j] == data@[j],
                forall|j: int| i <= j < before.len() ==> self.stored@[j] == before[j],
            decreases count - i,
        {
            if i < self.stored.len() {
                self.stored[i] = data[i];
            } else {
                self.stored.push(data[i]);
            }
            i = i + 1;
        }
        assert(self@ =~= overwritten(old(self)@, data@));
    }

    /// Copies the first `n` bytes of the content, or all of it where it holds
    /// fewer.
    pub fn read(&self, n: usize) -> (bytes: Vec<u8>)
        requires
            self.wf(),
        ensures
            bytes@ == self@.take(
                if n <= self@.len() {
                    n as int
                } else {
                    self@.len() as int
                },
            ),
    {
        let count: usize = if n as u64 <= self.len {
            n
        } else {
            self.len as usize
        };
        let mut bytes: Vec<u8> = Vec::new();
        let mut i: usize = 0;
        while i < count
            invariant
                i <= count,
                count <= self.len,
                self.stored@.len() <= self.len,
                bytes@.len() == i,
                forall|j: int| 0 <= j < i ==> bytes@[j] == self@[j],
            decreases count - i,
        {
            if i < self.stored.len() {
                bytes.push(self.stored[i]);
            } else {
                bytes.push(0u8);
            }
            i = i + 1;
        }
        assert(bytes@ =~= self@.take(count as int));
        bytes
    }

    /// Copies the whole content, unless it is too long to be held in memory.
    pub fn to_vec(&self) -> (bytes: Option<Vec<u8>>)
        requires
            self.wf(),
        ensures
            match bytes {
                Some(v) => v@ == self@,
                None => self@.len() > usize::MAX,
            },
    {
        if self.len > usize::MAX as u64 {
            None
        } else {
            let bytes = self.read(self.len as usize);
            assert(self@.take(self@.len() as int) =~= self@);
            Some(bytes)
        }
    }
}

} // verus!
