//! The byte buffer behind a characteristic or a descriptor, read and written
//! at an offset.

use vstd::prelude::*;
use crate::error::{GattError, GattErrorView, invalid_offset_detail};

verus! {

/// The offset that a request means: the one it carries, or the start.
pub open spec fn offset_of(offset: Option<u16>) -> int {
    match offset {
        Some(o) => o as int,
        None => 0,
    }
}

/// Whether a read at `offset` is served from a value of `len` bytes: the
/// offset lies inside the value, or it is the start (of an empty value too).
pub open spec fn readable(len: int, offset: int) -> bool {
    offset < len || offset == 0
}

/// What a read at `offset` returns: the bytes from there to the end.
pub open spec fn read_from(data: Seq<u8>, offset: int) -> Seq<u8> {
    data.subrange(offset, data.len() as int)
}

/// Whether writing `value_len` bytes at `offset` reaches past a value of
/// `len` bytes.
pub open spec fn grows(len: int, value_len: int, offset: int) -> bool {
    offset + value_len > len
}

/// The length of the stored value after a write.
pub open spec fn written_len(len: int, value_len: int, offset: int) -> int {
    if grows(len, value_len, offset) {
        offset + if value_len < len { len } else { value_len }
    } else {
        value_len
    }
}

/// The byte at position `i` after a write. Where the write grows the value,
/// the written bytes stand from `offset` on, the old bytes stay elsewhere and
/// zeros fill what neither covers. Where it does not, the value is cut to the
/// length of what was written: the old bytes stay below `offset` and the written
/// bytes follow as far as that length lets them.
pub open spec fn written_byte(data: Seq<u8>, value: Seq<u8>, offset: int, i: int) -> u8 {
    if grows(data.len() as int, value.len() as int, offset) {
        if offset <= i < offset + value.len() {
            value[i - offset]
        } else if i < data.len() {
            data[i]
        } else {
            0u8
        }
    } else {
        if i < offset {
            data[i]
        } else {
            value[i - offset]
        }
    }
}

/// The stored value after writing `value` at `offset` over `data`.
pub open spec fn written(data: Seq<u8>, value: Seq<u8>, offset: int) -> Seq<u8> {
    Seq::new(
        written_len(data.len() as int, value.len() as int, offset) as nat,
        |i: int| written_byte(data, value, offset, i),
    )
}

/// The value of one attribute.
#[derive(Debug)]
pub struct ValueStore {
    data: Vec<u8>,
}

impl View for ValueStore {
    type V = Seq<u8>;

    closed spec fn view(&self) -> Seq<u8> {
        self.data@
    }
}

impl ValueStore {
    /// A store that holds `data`, or nothing where none is given.
    pub fn new(data: Option<Vec<u8>>) -> (store: ValueStore)
        ensures
            store@ == match data {
                Some(d) => d@,
                None => Seq::<u8>::empty(),
            },
    {
        match data {
            Some(d) => ValueStore { data: d },
            None => ValueStore { data: Vec::new() },
        }
    }

    /// The number of bytes held.
    pub fn len(&self) -> (n: usize)
        ensures
            n == self@.len(),
    {
        self.data.len()
    }

    /// The bytes held.
    pub fn bytes(&self) -> (data: &Vec<u8>)
        ensures
            data@ == self@,
    {
        &self.data
    }

    /// Reads from `offset` (the start where none is given) to the end. An
    /// offset at or beyond the end is turned down, except the start of an
    /// empty value, which reads as nothing. The store is left as it was.
    pub fn read(&self, offset: Option<u16>) -> (result: Result<Vec<u8>, GattError>)
        ensures
            readable(self@.len() as int, offset_of(offset)) ==> result is Ok
                && result->Ok_0@ == read_from(self@, offset_of(offset)),
            !readable(self@.len() as int, offset_of(offset)) ==> result is Err
                && result->Err_0@ == GattErrorView::InvalidArgs(invalid_offset_detail()),
    {
        let start: usize = match offset {
            Some(o) => o as usize,
            None => 0,
        };
        let len = self.data.len();
        if start >= len && start != 0 {
            return Err(GattError::invalid_offset());
        }
        let mut out: Vec<u8> = Vec::new();
        let mut i: usize = start;
        while i < len
            invariant
                start <= i <= len,
                len == self.data@.len(),
                out@ == self.data@.subrange(start as int, i as int),
            decreases len - i,
        {
            out.push(self.data[i]);
            i = i + 1;
        }
        Ok(out)
    }

    /// Whether a write of `value_len` bytes at `offset` leaves a value whose
    /// length the machine can hold.
    pub fn fits(&self, value_len: usize, offset: Option<u16>) -> (ok: bool)
        ensures
            ok == (written_len(self@.len() as int, value_len as int, offset_of(offset))
                <= usize::MAX),
    {
        let start: usize = match offset {
            Some(o) => o as usize,
            None => 0,
        };
        let data_len = self.data.len();
        if start > data_len || value_len > data_len - start {
            let longer = if value_len < data_len {
                data_len
            } else {
                value_len
            };
            longer <= usize::MAX - start
        } else {
            true
        }
    }

    /// Writes `value` at `offset` (the start where none is given). A write
    /// that reaches past the end grows the value; any other cuts it to the
    /// length of `value`.
    pub fn write(&mut self, value: &[u8], offset: Option<u16>)
        requires
            written_len(old(self)@.len() as int, value@.len() as int, offset_of(offset))
                <= usize::MAX,
        ensures
            final(self)@ == written(old(self)@, value@, offset_of(offset)),
    {
        let start: usize = match offset {
            Some(o) => o as usize,
            None => 0,
        };
        let data_len = self.data.len();
        let value_len = value.len();
        let growing = start > data_len || value_len > data_len - start;
        let total: usize = if growing {
            if value_len < data_len {
                start + data_len
            } else {
                start + value_len
            }
        } else {
            value_len
        };
        let mut fresh: Vec<u8> = Vec::new();
        let mut i: usize = 0;
        while i < total
            invariant
                i <= total,
                start == offset_of(offset),
                data_len == self.data@.len(),
                value_len == value@.len(),
                growing == grows(data_len as int, value_len as int, start as int),
                total == written_len(data_len as int, value_len as int, start as int),
                fresh@.len() == i,
                forall|k: int|
                    0 <= k < i ==> fresh@[k] == written_byte(self.data@, value@, start as int, k),
            decreases total - i,
        {
            let byte: u8 = if growing {
                if i >= start && i - start < value_len {
                    value[i - start]
                } else if i < data_len {
                    self.data[i]
                } else {
                    0
                }
            } else {
                if i < start {
                    self.data[i]
                } else {
                    value[i - start]
                }
            };
            fresh.push(byte);
            i = i + 1;
        }
        self.data = fresh;
    }
}

/// Writing at the start replaces the whole value, whatever it held.
pub proof fn lemma_write_at_start_replaces(data: Seq<u8>, value: Seq<u8>)
    ensures
        written(data, value, 0) == value,
{
    assert(written(data, value, 0) =~= value);
}

/// Writing the same bytes at the start a second time leaves what the first
/// write left.
pub proof fn lemma_write_at_start_twice(data: Seq<u8>, value: Seq<u8>)
    ensures
        written(written(data, value, 0), value, 0) == written(data, value, 0),
{
    lemma_write_at_start_replaces(data, value);
    lemma_write_at_start_replaces(value, value);
}

/// Writing the same bytes at the same offset a second time leaves what the
/// first write left where the offset is the start, and nowhere else: at any
/// other offset the second write changes the length once more.
pub proof fn lemma_write_twice(data: Seq<u8>, value: Seq<u8>, offset: int)
    requires
        0 <= offset,
    ensures
        written(written(data, value, offset), value, offset) == written(data, value, offset)
            <==> offset == 0,
{
    let once = written(data, value, offset);
    let twice = written(once, value, offset);
    if offset == 0 {
        lemma_write_at_start_twice(data, value);
    } else {
        assert(once.len() != twice.len());
    }
}

/// What is written at the start of an empty value is what a read from the
/// start then returns.
pub proof fn lemma_write_then_read(value: Seq<u8>)
    ensures
        readable(written(Seq::<u8>::empty(), value, 0).len() as int, 0),
        read_from(written(Seq::<u8>::empty(), value, 0), 0) == value,
{
    lemma_write_at_start_replaces(Seq::<u8>::empty(), value);
    assert(read_from(value, 0) =~= value);
}

/// A read inside the value returns its bytes from the offset on, one for one.
pub proof fn lemma_read_is_suffix(data: Seq<u8>, offset: int)
    requires
        0 <= offset < data.len(),
    ensures
        readable(data.len() as int, offset),
        read_from(data, offset).len() == data.len() - offset,
        forall|i: int|
            0 <= i < data.len() - offset ==> read_from(data, offset)[i] == data[offset + i],
{
}

/// A write that grows the value keeps the old bytes below the offset, fills
/// with zeros from the old end to the offset, and holds the written bytes from
/// the offset on.
pub proof fn lemma_growth(data: Seq<u8>, value: Seq<u8>, offset: int)
    requires
        0 <= offset,
        grows(data.len() as int, value.len() as int, offset),
    ensures
        written(data, value, offset).len() == offset + if value.len() < data.len() {
            data.len()
        } else {
            value.len()
        },
        forall|i: int|
            0 <= i < offset && i < data.len() ==> written(data, value, offset)[i] == data[i],
        forall|i: int| data.len() <= i < offset ==> written(data, value, offset)[i] == 0u8,
        forall|i: int|
            0 <= i < value.len() ==> written(data, value, offset)[offset + i] == value[i],
{
}

/// A write that does not reach past the end leaves a value as long as what
/// was written.
pub proof fn lemma_truncation(data: Seq<u8>, value: Seq<u8>, offset: int)
    requires
        0 <= offset,
        !grows(data.len() as int, value.len() as int, offset),
    ensures
        written(data, value, offset).len() == value.len(),
        offset == 0 ==> written(data, value, offset) == value,
{
    if offset == 0 {
        assert(written(data, value, offset) =~= value);
    }
}

} // verus!
