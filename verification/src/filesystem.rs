use vstd::prelude::*;

use crate::error::RTStoreError;

verus! {

/// The narrow capability the engine needs from a file system: create-read
/// sequentially, and tell the size. Callers outside this crate implement it
/// over real files; [`MemSequentialFile`] is the in-memory implementation.
pub trait SequentialFile {
    /// What the file reports as its size, for reasoning about reads.
    spec fn spec_file_size(&self) -> nat;

    /// Reads up to `buf.len()` bytes into the front of `buf` and returns how
    /// many bytes were read. The buffer keeps its length, and the file's
    /// reported size does not change.
    fn read_sequential(&mut self, buf: &mut Vec<u8>) -> (r: Result<usize, RTStoreError>)
        ensures
            final(buf)@.len() == old(buf)@.len(),
            final(self).spec_file_size() == old(self).spec_file_size(),
            r matches Ok(n) ==> n <= old(buf)@.len(),
    ;

    /// The total size of the file in bytes.
    fn get_file_size(&self) -> (r: usize)
        ensures
            r == self.spec_file_size(),
    ;
}

/// An in-memory sequential file over a byte buffer, with a read cursor.
pub struct MemSequentialFile {
    data: Vec<u8>,
    pos: usize,
}

impl MemSequentialFile {
    /// A file holding `data`, with the cursor at the front.
    pub fn new(data: Vec<u8>) -> (f: MemSequentialFile)
        ensures
            f.spec_file_size() == data@.len(),
    {
        MemSequentialFile { data, pos: 0 }
    }
}

impl SequentialFile for MemSequentialFile {
    closed spec fn spec_file_size(&self) -> nat {
        self.data@.len()
    }

    fn read_sequential(&mut self, buf: &mut Vec<u8>) -> (r: Result<usize, RTStoreError>) {
        let remaining = if self.pos >= self.data.len() {
            0
        } else {
            self.data.len() - self.pos
        };
        let n = if buf.len() < remaining {
            buf.len()
        } else {
            remaining
        };
        let mut i: usize = 0;
        while i < n
            invariant
                i <= n,
                n <= buf@.len(),
                n == 0 || self.pos + n <= self.data@.len(),
                buf@.len() == old(buf)@.len(),
                *self == *old(self),
            decreases n - i,
        {
            let b = self.data[self.pos + i];
            buf.set(i, b);
            i += 1;
        }
        self.pos = self.pos + n;
        Ok(n)
    }

    fn get_file_size(&self) -> (r: usize) {
        self.data.len()
    }
}

/// A named reader over a sequential file.
pub struct SequentialFileReader<F: SequentialFile> {
    file: F,
    filename: String,
}

impl<F: SequentialFile> SequentialFileReader<F> {
    /// The reader's file name.
    pub closed spec fn spec_name(&self) -> Seq<char> {
        self.filename@
    }

    /// The size the underlying file reports.
    pub closed spec fn spec_size(&self) -> nat {
        self.file.spec_file_size()
    }

    /// Wraps a sequential file under a name.
    pub fn new(file: F, filename: String) -> (r: Self)
        ensures
            r.spec_name() == filename@,
            r.spec_size() == file.spec_file_size(),
    {
        Self { file, filename }
    }

    /// Reads up to `buf.len()` bytes into the front of `buf`, returning how
    /// many were read; delegates to the underlying file.
    pub fn read(&mut self, buf: &mut Vec<u8>) -> (r: Result<usize, RTStoreError>)
        ensures
            final(buf)@.len() == old(buf)@.len(),
            final(self).spec_name() == old(self).spec_name(),
            final(self).spec_size() == old(self).spec_size(),
            r matches Ok(n) ==> n <= old(buf)@.len(),
    {
        self.file.read_sequential(buf)
    }

    /// The reader's file name.
    pub fn name(&self) -> (r: &str)
        ensures
            r@ == self.spec_name(),
    {
        self.filename.as_str()
    }

    /// Whether reads bypass the page cache. This reader never does.
    pub fn use_direct_io(&self) -> (r: bool)
        ensures
            r == false,
    {
        false
    }

    /// The size of the underlying file in bytes.
    pub fn file_size(&self) -> (r: usize)
        ensures
            r == self.spec_size(),
    {
        self.file.get_file_size()
    }
}

} // verus!
