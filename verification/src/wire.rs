//! The byte layout the game client reads: little-endian integers, one byte
//! per flag, and strings as a 7-bit length prefix followed by UTF-8 bytes.
use vstd::prelude::*;
use vstd::utf8::encode_utf8;
use vstd::string::StringSliceAdditionalSpecFns;

verus! {

/// The four little-endian bytes of an unsigned 32-bit value.
pub open spec fn le32(u: int) -> Seq<u8> {
    seq![
        (u % 256) as u8,
        ((u / 256) % 256) as u8,
        ((u / 65536) % 256) as u8,
        ((u / 16777216) % 256) as u8,
    ]
}

/// The two's-complement bytes of a signed 32-bit value.
pub open spec fn i32_bytes(v: i32) -> Seq<u8> {
    if v < 0 {
        le32(v + 4294967296)
    } else {
        le32(v as int)
    }
}

/// A flag as one byte: 1 for true, 0 for false.
pub open spec fn bool_byte(b: bool) -> u8 {
    if b {
        1
    } else {
        0
    }
}

/// The 7-bit length prefix: seven bits per byte, least significant first,
/// the high bit set on every byte but the last.
pub open spec fn length_prefix(n: nat) -> Seq<u8>
    decreases n,
{
    if n < 128 {
        seq![n as u8]
    } else {
        seq![(n % 128 + 128) as u8] + length_prefix(n / 128)
    }
}

/// A string as the client reads it.
pub open spec fn string_bytes(s: Seq<char>) -> Seq<u8> {
    length_prefix(encode_utf8(s).len()) + encode_utf8(s)
}

/// A run of strings, one after another.
pub open spec fn strings_bytes(ts: Seq<Seq<char>>) -> Seq<u8>
    decreases ts.len(),
{
    if ts.len() == 0 {
        seq![]
    } else {
        strings_bytes(ts.drop_last()) + string_bytes(ts.last())
    }
}

/// A count as written before a list: the length, capped at `i32::MAX`.
pub open spec fn capped_count(n: nat) -> i32 {
    if n > i32::MAX {
        i32::MAX
    } else {
        n as i32
    }
}

/// The quest progress record: id, task count, the tasks, then the taken,
/// completed and new flags.
pub open spec fn progress_record(id: i32, tasks: Seq<Seq<char>>, taken: bool, completed: bool, is_new: bool) -> Seq<u8> {
    i32_bytes(id) + i32_bytes(capped_count(tasks.len())) + strings_bytes(tasks) + seq![
        bool_byte(taken),
        bool_byte(completed),
        bool_byte(is_new),
    ]
}

/// The two little-endian bytes of an unsigned 16-bit value.
pub open spec fn le16(u: u16) -> Seq<u8> {
    seq![(u % 256) as u8, (u / 256) as u8]
}

/// A list of strings as the client reads it: the capped count, then each
/// string.
pub open spec fn counted_strings(ts: Seq<Seq<char>>) -> Seq<u8> {
    i32_bytes(capped_count(ts.len())) + strings_bytes(ts)
}

/// The text of each string.
pub open spec fn string_texts(v: Seq<String>) -> Seq<Seq<char>> {
    v.map_values(|s: String| s@)
}

/// Appends the little-endian bytes of a signed 32-bit value.
pub fn write_i32_le(buf: &mut Vec<u8>, v: i32)
    ensures
        final(buf)@ == old(buf)@ + i32_bytes(v),
{
    let u: u32 = if v < 0 {
        (v as i64 + 4294967296i64) as u32
    } else {
        v as u32
    };
    buf.push((u % 256) as u8);
    buf.push(((u / 256) % 256) as u8);
    buf.push(((u / 65536) % 256) as u8);
    buf.push(((u / 16777216) % 256) as u8);
    proof {
        assert(final(buf)@ =~= old(buf)@ + i32_bytes(v));
    }
}

/// Appends the little-endian bytes of an unsigned 32-bit value.
pub fn write_u32_le(buf: &mut Vec<u8>, u: u32)
    ensures
        final(buf)@ == old(buf)@ + le32(u as int),
{
    buf.push((u % 256) as u8);
    buf.push(((u / 256) % 256) as u8);
    buf.push(((u / 65536) % 256) as u8);
    buf.push(((u / 16777216) % 256) as u8);
    proof {
        assert(final(buf)@ =~= old(buf)@ + le32(u as int));
    }
}

/// Appends the little-endian bytes of an unsigned 16-bit value.
pub fn write_u16_le(buf: &mut Vec<u8>, u: u16)
    ensures
        final(buf)@ == old(buf)@ + le16(u),
{
    buf.push((u % 256) as u8);
    buf.push((u / 256) as u8);
    proof {
        assert(final(buf)@ =~= old(buf)@ + le16(u));
    }
}

/// Appends a flag as one byte.
pub fn write_bool(buf: &mut Vec<u8>, b: bool)
    ensures
        final(buf)@ == old(buf)@.push(bool_byte(b)),
{
    if b {
        buf.push(1u8);
    } else {
        buf.push(0u8);
    }
}

/// Appends the 7-bit length prefix of `n`.
pub fn write_length_prefix(buf: &mut Vec<u8>, n: usize)
    ensures
        final(buf)@ == old(buf)@ + length_prefix(n as nat),
{
    let mut v: usize = n;
    while v >= 128
        invariant
            old(buf)@ + length_prefix(n as nat) == buf@ + length_prefix(v as nat),
        decreases v,
    {
        let ghost before = buf@;
        buf.push((v % 128 + 128) as u8);
        proof {
            assert(length_prefix(v as nat) == seq![(v % 128 + 128) as u8] + length_prefix((v / 128) as nat));
            assert(before + length_prefix(v as nat) =~= buf@ + length_prefix((v / 128) as nat));
        }
        v = v / 128;
    }
    let ghost before = buf@;
    buf.push(v as u8);
    proof {
        assert(before + length_prefix(v as nat) =~= buf@);
    }
}

/// Appends a string: its UTF-8 length as a 7-bit prefix, then its bytes.
pub fn write_string(buf: &mut Vec<u8>, s: &str)
    ensures
        final(buf)@ == old(buf)@ + string_bytes(s@),
{
    let bytes = s.as_bytes();
    write_length_prefix(buf, bytes.len());
    buf.extend_from_slice(bytes);
    proof {
        assert(final(buf)@ =~= old(buf)@ + string_bytes(s@));
    }
}

/// Appends a list of strings: the count, capped at `i32::MAX`, then each
/// string.
pub fn write_counted_strings(buf: &mut Vec<u8>, list: &[String])
    ensures
        final(buf)@ == old(buf)@ + counted_strings(string_texts(list@)),
{
    let count: i32 = if list.len() > 2147483647usize {
        2147483647i32
    } else {
        list.len() as i32
    };
    write_i32_le(buf, count);
    let ghost head = buf@;
    let mut i: usize = 0;
    while i < list.len()
        invariant
            0 <= i <= list@.len(),
            buf@ == head + strings_bytes(string_texts(list@.subrange(0, i as int))),
        decreases list@.len() - i,
    {
        write_string(buf, list[i].as_str());
        proof {
            let done = string_texts(list@.subrange(0, i as int));
            let next = string_texts(list@.subrange(0, i as int + 1));
            assert(next.drop_last() =~= done);
            assert(next.last() == list@[i as int]@);
            assert(buf@ =~= head + strings_bytes(next));
        }
        i = i + 1;
    }
    proof {
        assert(list@.subrange(0, list@.len() as int) =~= list@);
        assert(buf@ =~= old(buf)@ + counted_strings(string_texts(list@)));
    }
}

/// The progress record of a quest as the client reads it.
pub fn encode_client_progress_bytes(id: i32, task_list: &[String], taken: bool, completed: bool, is_new: bool) -> (r: Vec<u8>)
    ensures
        r@ == progress_record(id, string_texts(task_list@), taken, completed, is_new),
{
    let mut buf: Vec<u8> = Vec::new();
    write_i32_le(&mut buf, id);
    write_counted_strings(&mut buf, task_list);
    write_bool(&mut buf, taken);
    write_bool(&mut buf, completed);
    write_bool(&mut buf, is_new);
    proof {
        assert(buf@ =~= progress_record(id, string_texts(task_list@), taken, completed, is_new));
    }
    buf
}

} // verus!
