//! The file reader: which way a file of a given size is read, and which bytes
//! a chunk read at an offset covers.

use vstd::prelude::*;
use vstd::slice::*;

verus! {

/// Files of at least this many bytes are read through a memory mapping.
pub const MIN_SIZE_FOR_MMAP: u64 = 1048576;

/// The way a file's bytes are brought into memory.
#[derive(Debug, Clone, Copy, PartialEq, Eq, Structural)]
pub enum ReadStrategy {
    /// The file is mapped into memory and read from the mapping.
    Mapped,
    /// The file is read through a buffer.
    Buffered,
}

/// The strategy for a file of the given size: a mapping from 1 MiB on, a
/// buffered read below.
pub open spec fn strategy_for(size: u64) -> ReadStrategy {
    if size >= MIN_SIZE_FOR_MMAP {
        ReadStrategy::Mapped
    } else {
        ReadStrategy::Buffered
    }
}

/// The number of bytes that a chunk read of `size` bytes at `offset` covers in
/// a file of `file_size` bytes: none at or behind the end of the file, and
/// otherwise `size`, cut down to what is left of the file.
pub open spec fn chunk_len(file_size: int, offset: int, size: int) -> int {
    if offset >= file_size {
        0
    } else if size <= file_size - offset {
        size
    } else {
        file_size - offset
    }
}

/// The bytes that a chunk read returns from a file image: those that
/// `chunk_len` covers, as far as the image holds them.
pub open spec fn chunk_of(image: Seq<u8>, file_size: int, offset: int, size: int) -> Seq<u8> {
    let len = chunk_len(file_size, offset, size);
    if offset >= image.len() || len <= 0 {
        Seq::empty()
    } else if offset + len <= image.len() {
        image.subrange(offset, offset + len)
    } else {
        image.subrange(offset, image.len() as int)
    }
}

/// The number of bytes to read for a chunk of `size` bytes at `offset` in a
/// file of `file_size` bytes.
pub fn clamp_chunk(file_size: u64, offset: usize, size: usize) -> (len: usize)
    ensures
        len == chunk_len(file_size as int, offset as int, size as int),
{
    let start = offset as u64;
    if start >= file_size {
        0
    } else {
        let left = file_size - start;
        if size as u64 <= left {
            size
        } else {
            left as usize
        }
    }
}

/// The part of a file image that a chunk read of `size` bytes at `offset`
/// covers, where the file is taken to have `file_size` bytes.
pub fn chunk_slice<'a>(image: &'a [u8], file_size: u64, offset: usize, size: usize) -> (chunk:
    &'a [u8])
    ensures
        chunk@ == chunk_of(image@, file_size as int, offset as int, size as int),
{
    let len = clamp_chunk(file_size, offset, size);
    if offset >= image.len() || len == 0 {
        slice_subrange(image, 0, 0)
    } else if len <= image.len() - offset {
        slice_subrange(image, offset, offset + len)
    } else {
        slice_subrange(image, offset, image.len())
    }
}

/// File reader that uses memory mapping for large files and buffered I/O for
/// small files. It holds the path and the size that the file had when the
/// reader was made.
pub struct FileReader {
    path: String,
    size: u64,
}

impl FileReader {
    /// The path of the file.
    pub closed spec fn spec_path(&self) -> Seq<char> {
        self.path@
    }

    /// The size of the file in bytes.
    pub closed spec fn spec_size(&self) -> u64 {
        self.size
    }

    /// Create a new file reader for a path and the size of the file there.
    pub fn new(path: &str, size: u64) -> (reader: FileReader)
        ensures
            reader.spec_path() == path@,
            reader.spec_size() == size,
    {
        FileReader { path: path.to_owned(), size }
    }

    /// Get the file path.
    pub fn path(&self) -> (path: &str)
        ensures
            path@ == self.spec_path(),
    {
        self.path.as_str()
    }

    /// Get the file size.
    pub fn size(&self) -> (size: u64)
        ensures
            size == self.spec_size(),
    {
        self.size
    }

    /// Determine if memory mapping should be used based on file size.
    pub fn should_use_mmap(&self) -> (mapped: bool)
        ensures
            mapped == (self.spec_size() >= MIN_SIZE_FOR_MMAP),
    {
        self.size >= MIN_SIZE_FOR_MMAP
    }

    /// The strategy by which this file is read.
    pub fn strategy(&self) -> (strategy: ReadStrategy)
        ensures
            strategy == strategy_for(self.spec_size()),
    {
        if self.should_use_mmap() {
            ReadStrategy::Mapped
        } else {
            ReadStrategy::Buffered
        }
    }

    /// The number of bytes to read for a chunk of `size` bytes at `offset`.
    pub fn chunk_len(&self, offset: usize, size: usize) -> (len: usize)
        ensures
            len == chunk_len(self.spec_size() as int, offset as int, size as int),
    {
        clamp_chunk(self.size, offset, size)
    }

    /// Read a chunk of the file from its image in memory: at most `size`
    /// bytes from `offset` on, none at or behind the end of the file.
    pub fn read_chunk(&self, image: &[u8], offset: usize, size: usize) -> (chunk: Vec<u8>)
        ensures
            chunk@ == chunk_of(image@, self.spec_size() as int, offset as int, size as int),
    {
        slice_to_vec(chunk_slice(image, self.size, offset, size))
    }
}

} // verus!
