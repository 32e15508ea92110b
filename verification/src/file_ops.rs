//! How app file reads and writes are carried out on a file's contents.
//!
//! A read copies at most the bytes between its offset and the end of the
//! file; a write past the end first extends the file with zeros up to its
//! offset. The spec functions below describe a file's contents after such
//! operations, with `File::set_len` and a positioned `write_all` as std
//! documents them.

use vstd::prelude::*;

verus! {

/// How many bytes a read of `count` bytes at `offset` gets from a file of
/// `size` bytes.
pub open spec fn read_len_spec(offset: int, count: int, size: int) -> int {
    if offset >= size {
        0
    } else if count < size - offset {
        count
    } else {
        size - offset
    }
}

/// The number of bytes a read of `count` bytes at `offset` copies out of a
/// file of `file_size` bytes: none from at or past the end, else as many as
/// asked for and available.
pub fn read_len(offset: usize, count: usize, file_size: usize) -> (n: usize)
    ensures
        n == read_len_spec(offset as int, count as int, file_size as int),
{
    if offset >= file_size {
        0
    } else if count < file_size - offset {
        count
    } else {
        file_size - offset
    }
}

/// The length a file of `size` bytes is extended to before a write at
/// `offset`, if it must be.
pub open spec fn write_extension_spec(offset: int, size: int) -> Option<int> {
    if offset > size {
        Some(offset)
    } else {
        None
    }
}

/// The length to extend a file of `current_size` bytes to before writing at
/// `offset`: `offset` itself when it lies past the end, else none.
pub fn write_extension(offset: usize, current_size: usize) -> (ext: Option<usize>)
    ensures
        match ext {
            Some(n) => write_extension_spec(offset as int, current_size as int) == Some(n as int),
            None => write_extension_spec(offset as int, current_size as int) is None,
        },
{
    if offset > current_size {
        Some(offset)
    } else {
        None
    }
}

/// `n` zero bytes.
pub open spec fn zeros(n: nat) -> Seq<u8> {
    Seq::new(n, |i: int| 0u8)
}

/// A file's contents after `File::set_len(len)`: cut to `len` bytes, or
/// extended with zeros up to `len` bytes.
pub open spec fn resized(c: Seq<u8>, len: nat) -> Seq<u8> {
    if len <= c.len() {
        c.take(len as int)
    } else {
        c + zeros((len - c.len()) as nat)
    }
}

/// A file's contents after writing `data` at `offset`, for an offset no
/// further than the end: overwriting, and growing the file where the data
/// runs past its end.
pub open spec fn overwritten(c: Seq<u8>, offset: nat, data: Seq<u8>) -> Seq<u8> {
    if offset + data.len() < c.len() {
        c.take(offset as int) + data + c.skip((offset + data.len()) as int)
    } else {
        c.take(offset as int) + data
    }
}

/// A file's contents after an app writes `data` at `offset`: extended to
/// `offset` first when it is shorter, then overwritten.
pub open spec fn after_write(c: Seq<u8>, offset: nat, data: Seq<u8>) -> Seq<u8> {
    let extended = match write_extension_spec(offset as int, c.len() as int) {
        Some(len) => resized(c, len as nat),
        None => c,
    };
    overwritten(extended, offset, data)
}

/// The bytes an app's read of `count` bytes at `offset` gets from a file
/// holding `c`.
pub open spec fn bytes_read(c: Seq<u8>, offset: nat, count: nat) -> Seq<u8> {
    if offset >= c.len() {
        Seq::empty()
    } else {
        c.subrange(offset as int, offset + read_len_spec(offset as int, count as int, c.len() as int))
    }
}

/// A read of as many bytes as were written, at the offset of the write,
/// gives back exactly the bytes written.
pub proof fn lemma_read_after_write(c: Seq<u8>, offset: nat, data: Seq<u8>)
    ensures
        bytes_read(after_write(c, offset, data), offset, data.len()) == data,
{
    let a = after_write(c, offset, data);
    lemma_write_shape(c, offset, data);
    assert(bytes_read(a, offset, data.len()) =~= data);
}

/// A write leaves the bytes before its offset as they were, fills a gap
/// between the old end and its offset with zeros, leaves the bytes after it
/// as they were, and makes the file end at the later of the old end and the
/// end of the written data.
pub proof fn lemma_write_shape(c: Seq<u8>, offset: nat, data: Seq<u8>)
    ensures
        after_write(c, offset, data).len() == if offset + data.len() > c.len() {
            offset + data.len()
        } else {
            c.len()
        },
        forall|i: int| 0 <= i < offset && i < c.len() ==> #[trigger] after_write(c, offset, data)[i] == c[i],
        forall|i: int| c.len() <= i < offset ==> #[trigger] after_write(c, offset, data)[i] == 0u8,
        forall|i: int| 0 <= i < data.len() ==> #[trigger] after_write(c, offset, data)[offset + i] == data[i],
        forall|i: int| offset + data.len() <= i < c.len() ==> #[trigger] after_write(c, offset, data)[i] == c[i],
{
    let extended = match write_extension_spec(offset as int, c.len() as int) {
        Some(len) => resized(c, len as nat),
        None => c,
    };
    assert(extended.len() >= offset);
    assert forall|i: int| 0 <= i < offset && i < c.len() implies #[trigger] after_write(c, offset, data)[i] == c[i] by {
        assert(extended[i] == c[i]);
    }
    assert forall|i: int| c.len() <= i < offset implies #[trigger] after_write(c, offset, data)[i] == 0u8 by {
        assert(extended[i] == 0u8);
    }
    assert forall|i: int| 0 <= i < data.len() implies #[trigger] after_write(c, offset, data)[offset + i] == data[i] by {
    }
    assert forall|i: int| offset + data.len() <= i < c.len() implies #[trigger] after_write(c, offset, data)[i] == c[i] by {
        assert(extended == c);
    }
}

/// A read never copies more than asked for nor anything past the end, and a
/// read at or past the end copies nothing.
pub proof fn lemma_read_bounds(c: Seq<u8>, offset: nat, count: nat)
    ensures
        bytes_read(c, offset, count).len() <= count,
        offset + bytes_read(c, offset, count).len() <= c.len() || bytes_read(c, offset, count).len() == 0,
        offset >= c.len() ==> bytes_read(c, offset, count).len() == 0,
        forall|i: int| 0 <= i < bytes_read(c, offset, count).len() ==> #[trigger] bytes_read(c, offset, count)[i] == c[offset + i],
{
}

/// After `set_len(len)` a file is `len` bytes long, keeps its bytes below
/// `len`, and is zero from its old end on.
pub proof fn lemma_resized_shape(c: Seq<u8>, len: nat)
    ensures
        resized(c, len).len() == len,
        forall|i: int| 0 <= i < len && i < c.len() ==> #[trigger] resized(c, len)[i] == c[i],
        forall|i: int| c.len() <= i < len ==> #[trigger] resized(c, len)[i] == 0u8,
{
}

/// A read starting inside the file copies as many bytes as asked for when
/// they are all there, and else everything up to the end of the file; so a
/// read of at least one byte starting inside the file copies at least one.
/// A read starting at or past the end copies nothing.
pub proof fn lemma_read_len_is_min(offset: int, count: int, size: int)
    requires
        0 <= offset,
        0 <= count,
        0 <= size,
    ensures
        offset < size && count <= size - offset ==> read_len_spec(offset, count, size) == count,
        offset < size && count > size - offset ==> read_len_spec(offset, count, size) == size - offset,
        offset < size && count > 0 ==> read_len_spec(offset, count, size) >= 1,
        offset >= size ==> read_len_spec(offset, count, size) == 0,
{
}

/// A write past the end extends the file to exactly the write's offset, and
/// a write at or before the end extends nothing.
pub proof fn lemma_write_extension_past_end(offset: int, size: int)
    ensures
        offset > size ==> write_extension_spec(offset, size) == Some(offset),
        offset <= size ==> write_extension_spec(offset, size) is None,
{
}

/// A read of the whole remainder of a file, from any offset inside it, gives
/// exactly the bytes from that offset to the end.
pub proof fn lemma_read_to_end(c: Seq<u8>, offset: nat, count: nat)
    requires
        offset < c.len(),
        count >= c.len() - offset,
    ensures
        bytes_read(c, offset, count) == c.skip(offset as int),
{
    assert(bytes_read(c, offset, count) =~= c.skip(offset as int));
}

} // verus!
