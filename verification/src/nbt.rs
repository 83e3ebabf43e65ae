//! Minecraft's NBT format (big-endian named binary tags), as read from
//! `servers.dat` and a world's `level.dat`.
use vstd::prelude::*;
use crate::text::str_eq;

verus! {

/// Longest string or array accepted.
pub const NBT_MAX_LEN: usize = 1000000;

/// Deepest nesting accepted.
pub const NBT_MAX_DEPTH: u32 = 64;

/// A tag read from NBT data. Floating-point values are kept as their bits.
#[derive(Debug)]
pub enum NbtTag {
    Byte(i8),
    Short(i16),
    Int(i32),
    Long(i64),
    /// The bits of a 32-bit float.
    Float(u32),
    /// The bits of a 64-bit float.
    Double(u64),
    ByteArray(Vec<u8>),
    String(String),
    List(Vec<NbtTag>),
    /// Named tags, each name once (a later tag of the same name replaces
    /// the earlier one where it stood).
    Compound(Vec<(String, NbtTag)>),
    IntArray(Vec<i32>),
    LongArray(Vec<i64>),
}

/// Why NBT data could not be read.
#[derive(Debug, Clone, Copy, PartialEq, Eq, Structural)]
pub enum NbtError {
    /// The data ends inside a value.
    UnexpectedEnd,
    /// A string length below zero (as an unsigned size, too large).
    BadStringLength(i16),
    /// An array or list length below zero or above [`NBT_MAX_LEN`].
    BadLength(i32),
    /// Nesting deeper than [`NBT_MAX_DEPTH`].
    TooDeep,
    /// A tag type that does not exist.
    UnknownType(u8),
    /// The data does not start with a compound tag.
    RootNotCompound(u8),
}

/// The plain value of a tag.
pub enum NbtValue {
    Byte(i8),
    Short(i16),
    Int(i32),
    Long(i64),
    Float(u32),
    Double(u64),
    ByteArray(Seq<u8>),
    Str(Seq<char>),
    List(Seq<NbtValue>),
    Compound(Seq<(Seq<char>, NbtValue)>),
    IntArray(Seq<i32>),
    LongArray(Seq<i64>),
}

/// Name for the text std's `String::from_utf8_lossy` makes of some bytes
/// (invalid sequences become U+FFFD).
pub uninterp spec fn utf8_lossy_result(bytes: Seq<u8>) -> Seq<char>;

/// std's `String::from_utf8_lossy`, as an owned string.
#[verifier::external_body]
fn utf8_lossy(bytes: &[u8]) -> (r: String)
    ensures
        r@ == utf8_lossy_result(bytes@),
{
    String::from_utf8_lossy(bytes).into_owned()
}

/// The plain value of a tag.
pub open spec fn tag_view(t: NbtTag) -> NbtValue
    decreases t,
{
    match t {
        NbtTag::Byte(x) => NbtValue::Byte(x),
        NbtTag::Short(x) => NbtValue::Short(x),
        NbtTag::Int(x) => NbtValue::Int(x),
        NbtTag::Long(x) => NbtValue::Long(x),
        NbtTag::Float(x) => NbtValue::Float(x),
        NbtTag::Double(x) => NbtValue::Double(x),
        NbtTag::ByteArray(v) => NbtValue::ByteArray(v@),
        NbtTag::String(s) => NbtValue::Str(s@),
        NbtTag::List(v) => NbtValue::List(tags_view(v@)),
        NbtTag::Compound(m) => NbtValue::Compound(entries_view(m@)),
        NbtTag::IntArray(v) => NbtValue::IntArray(v@),
        NbtTag::LongArray(v) => NbtValue::LongArray(v@),
    }
}

/// The plain values of a list of tags.
pub open spec fn tags_view(s: Seq<NbtTag>) -> Seq<NbtValue>
    decreases s,
{
    if s.len() == 0 {
        Seq::empty()
    } else {
        tags_view(s.drop_last()).push(tag_view(s.last()))
    }
}

/// The plain values of named tags.
pub open spec fn entries_view(s: Seq<(String, NbtTag)>) -> Seq<(Seq<char>, NbtValue)>
    decreases s,
{
    if s.len() == 0 {
        Seq::empty()
    } else {
        entries_view(s.drop_last()).push((s.last().0@, tag_view(s.last().1)))
    }
}

/// The big-endian unsigned number in `n` bytes at `pos`.
pub open spec fn be_unsigned(b: Seq<u8>, pos: int, n: nat) -> int
    decreases n,
{
    if n == 0 {
        0
    } else {
        be_unsigned(b, pos, (n - 1) as nat) * 256 + b[pos + n - 1]
    }
}

/// A 16-bit two's complement number at `pos`.
pub open spec fn be_i16(b: Seq<u8>, pos: int) -> i16 {
    let u = be_unsigned(b, pos, 2);
    (if u >= 0x8000 { u - 0x10000 } else { u }) as i16
}

/// A 32-bit two's complement number at `pos`.
pub open spec fn be_i32(b: Seq<u8>, pos: int) -> i32 {
    let u = be_unsigned(b, pos, 4);
    (if u >= 0x8000_0000 { u - 0x1_0000_0000 } else { u }) as i32
}

/// A 64-bit two's complement number at `pos`.
pub open spec fn be_i64(b: Seq<u8>, pos: int) -> i64 {
    let u = be_unsigned(b, pos, 8);
    (if u >= 0x8000_0000_0000_0000 { u - 0x1_0000_0000_0000_0000 } else { u }) as i64
}

/// A byte as a signed number.
pub open spec fn as_i8(x: u8) -> i8 {
    (if x >= 128 { x - 256 } else { x as int }) as i8
}

/// A string: its length in two bytes (below zero refused), then that many
/// bytes of (lossily decoded) UTF-8.
pub open spec fn nbt_string(b: Seq<u8>, pos: int) -> Result<(Seq<char>, int), NbtError> {
    if pos + 2 > b.len() {
        Err(NbtError::UnexpectedEnd)
    } else {
        let len = be_i16(b, pos);
        if len < 0 {
            Err(NbtError::BadStringLength(len))
        } else if pos + 2 + len > b.len() {
            Err(NbtError::UnexpectedEnd)
        } else {
            Ok((utf8_lossy_result(b.subrange(pos + 2, pos + 2 + len)), pos + 2 + len))
        }
    }
}

/// A length of an array or list: four bytes, from 0 to [`NBT_MAX_LEN`].
pub open spec fn nbt_len(b: Seq<u8>, pos: int) -> Result<(int, int), NbtError> {
    if pos + 4 > b.len() {
        Err(NbtError::UnexpectedEnd)
    } else {
        let len = be_i32(b, pos);
        if len < 0 || len > NBT_MAX_LEN {
            Err(NbtError::BadLength(len))
        } else {
            Ok((len as int, pos + 4))
        }
    }
}

/// Index of the entry named `k`.
pub open spec fn key_index(m: Seq<(Seq<char>, NbtValue)>, k: Seq<char>) -> Option<int>
    decreases m.len(),
{
    if m.len() == 0 {
        None
    } else if m.last().0 == k {
        Some(m.len() - 1)
    } else {
        key_index(m.drop_last(), k)
    }
}

/// Named tags with `(k, v)` put in: replacing the entry named `k`, or
/// added at the end.
pub open spec fn entries_put(m: Seq<(Seq<char>, NbtValue)>, k: Seq<char>, v: NbtValue) -> Seq<(Seq<char>, NbtValue)> {
    match key_index(m, k) {
        Some(i) => m.update(i, (k, v)),
        None => m.push((k, v)),
    }
}

/// The value of a tag of type `t` at `pos`, nested `depth` deep, and where
/// it ends.
pub open spec fn nbt_payload(b: Seq<u8>, pos: int, t: u8, depth: int) -> Result<(NbtValue, int), NbtError>
    decreases 65 - depth, 2int, 0int,
{
    if depth > 64 {
        Err(NbtError::TooDeep)
    } else if t == 1 {
        if pos + 1 > b.len() {
            Err(NbtError::UnexpectedEnd)
        } else {
            Ok((NbtValue::Byte(as_i8(b[pos])), pos + 1))
        }
    } else if t == 2 {
        if pos + 2 > b.len() {
            Err(NbtError::UnexpectedEnd)
        } else {
            Ok((NbtValue::Short(be_i16(b, pos)), pos + 2))
        }
    } else if t == 3 {
        if pos + 4 > b.len() {
            Err(NbtError::UnexpectedEnd)
        } else {
            Ok((NbtValue::Int(be_i32(b, pos)), pos + 4))
        }
    } else if t == 4 {
        if pos + 8 > b.len() {
            Err(NbtError::UnexpectedEnd)
        } else {
            Ok((NbtValue::Long(be_i64(b, pos)), pos + 8))
        }
    } else if t == 5 {
        if pos + 4 > b.len() {
            Err(NbtError::UnexpectedEnd)
        } else {
            Ok((NbtValue::Float(be_unsigned(b, pos, 4) as u32), pos + 4))
        }
    } else if t == 6 {
        if pos + 8 > b.len() {
            Err(NbtError::UnexpectedEnd)
        } else {
            Ok((NbtValue::Double(be_unsigned(b, pos, 8) as u64), pos + 8))
        }
    } else if t == 7 {
        match nbt_len(b, pos) {
            Err(e) => Err(e),
            Ok((n, p)) => if p + n > b.len() {
                Err(NbtError::UnexpectedEnd)
            } else {
                Ok((NbtValue::ByteArray(b.subrange(p, p + n)), p + n))
            },
        }
    } else if t == 8 {
        match nbt_string(b, pos) {
            Err(e) => Err(e),
            Ok((s, p)) => Ok((NbtValue::Str(s), p)),
        }
    } else if t == 9 {
        if pos + 1 > b.len() {
            Err(NbtError::UnexpectedEnd)
        } else {
            match nbt_len(b, pos + 1) {
                Err(e) => Err(e),
                Ok((n, p)) => match nbt_list(b, p, b[pos], n, depth + 1, Seq::empty()) {
                    Err(e) => Err(e),
                    Ok((items, q)) => Ok((NbtValue::List(items), q)),
                },
            }
        }
    } else if t == 10 {
        match nbt_compound(b, pos, depth + 1, Seq::empty()) {
            Err(e) => Err(e),
            Ok((m, q)) => Ok((NbtValue::Compound(m), q)),
        }
    } else if t == 11 {
        match nbt_len(b, pos) {
            Err(e) => Err(e),
            Ok((n, p)) => if p + 4 * n > b.len() {
                Err(NbtError::UnexpectedEnd)
            } else {
                Ok((NbtValue::IntArray(Seq::new(n as nat, |k: int| be_i32(b, p + 4 * k))), p + 4 * n))
            },
        }
    } else if t == 12 {
        match nbt_len(b, pos) {
            Err(e) => Err(e),
            Ok((n, p)) => if p + 8 * n > b.len() {
                Err(NbtError::UnexpectedEnd)
            } else {
                Ok((NbtValue::LongArray(Seq::new(n as nat, |k: int| be_i64(b, p + 8 * k))), p + 8 * n))
            },
        }
    } else {
        Err(NbtError::UnknownType(t))
    }
}

/// `n` more items of type `t` at `pos` after `acc`, nested `depth` deep.
pub open spec fn nbt_list(
    b: Seq<u8>,
    pos: int,
    t: u8,
    n: int,
    depth: int,
    acc: Seq<NbtValue>,
) -> Result<(Seq<NbtValue>, int), NbtError>
    decreases 66 - depth, 1int, n,
{
    if n <= 0 {
        Ok((acc, pos))
    } else if depth > 64 {
        Err(NbtError::TooDeep)
    } else {
        match nbt_payload(b, pos, t, depth) {
            Err(e) => Err(e),
            Ok((v, p)) => nbt_list(b, p, t, n - 1, depth, acc.push(v)),
        }
    }
}

/// The named tags of a compound at `pos` after those in `acc`, up to and
/// past the end tag, nested `depth` deep.
pub open spec fn nbt_compound(
    b: Seq<u8>,
    pos: int,
    depth: int,
    acc: Seq<(Seq<char>, NbtValue)>,
) -> Result<(Seq<(Seq<char>, NbtValue)>, int), NbtError>
    decreases 66 - depth, 1int, b.len() - pos,
{
    if pos + 1 > b.len() || pos < 0 {
        Err(NbtError::UnexpectedEnd)
    } else if b[pos] == 0 {
        Ok((acc, pos + 1))
    } else {
        match nbt_string(b, pos + 1) {
            Err(e) => Err(e),
            Ok((name, p)) => if depth > 64 {
                Err(NbtError::TooDeep)
            } else {
                match nbt_payload(b, p, b[pos], depth) {
                    Err(e) => Err(e),
                    Ok((v, q)) => if q <= pos || q > b.len() {
                        Err(NbtError::UnexpectedEnd)
                    } else {
                        nbt_compound(b, q, depth, entries_put(acc, name, v))
                    },
                }
            },
        }
    }
}

/// A whole NBT file: a compound tag with its name.
pub open spec fn nbt_root(b: Seq<u8>) -> Result<(Seq<char>, NbtValue), NbtError> {
    if b.len() < 1 {
        Err(NbtError::UnexpectedEnd)
    } else if b[0] != 10 {
        Err(NbtError::RootNotCompound(b[0]))
    } else {
        match nbt_string(b, 1) {
            Err(e) => Err(e),
            Ok((name, p)) => match nbt_payload(b, p, 10, 0) {
                Err(e) => Err(e),
                Ok((v, _)) => Ok((name, v)),
            },
        }
    }
}

/// The plain view of a read value and where it ends.
pub open spec fn read_view(r: Result<(NbtTag, usize), NbtError>) -> Result<(NbtValue, int), NbtError> {
    match r {
        Ok((t, q)) => Ok((tag_view(t), q as int)),
        Err(e) => Err(e),
    }
}

/// The plain view of a read string and where it ends.
pub open spec fn string_read_view(r: Result<(String, usize), NbtError>) -> Result<(Seq<char>, int), NbtError> {
    match r {
        Ok((s, q)) => Ok((s@, q as int)),
        Err(e) => Err(e),
    }
}

/// The views of a list of tags, element by element.
pub proof fn lemma_tags_view(s: Seq<NbtTag>)
    ensures
        tags_view(s).len() == s.len(),
        forall|i: int| 0 <= i < s.len() ==> #[trigger] tags_view(s)[i] == tag_view(s[i]),
    decreases s.len(),
{
    if s.len() > 0 {
        lemma_tags_view(s.drop_last());
    }
}

/// The views of named tags, entry by entry.
pub proof fn lemma_entries_view(s: Seq<(String, NbtTag)>)
    ensures
        entries_view(s).len() == s.len(),
        forall|i: int| 0 <= i < s.len() ==> #[trigger] entries_view(s)[i] == (s[i].0@, tag_view(s[i].1)),
    decreases s.len(),
{
    if s.len() > 0 {
        lemma_entries_view(s.drop_last());
    }
}

/// Two bytes at `pos` as a big-endian number.
fn be2(b: &[u8], pos: usize) -> (r: u64)
    requires
        pos + 2 <= b@.len(),
    ensures
        r == be_unsigned(b@, pos as int, 2),
        r < 0x10000,
{
    proof {
        reveal_with_fuel(be_unsigned, 3);
    }
    (b[pos] as u64) * 256 + (b[pos + 1] as u64)
}

/// Four bytes at `pos` as a big-endian number.
fn be4(b: &[u8], pos: usize) -> (r: u64)
    requires
        pos + 4 <= b@.len(),
    ensures
        r == be_unsigned(b@, pos as int, 4),
        r < 0x1_0000_0000,
{
    proof {
        reveal_with_fuel(be_unsigned, 5);
    }
    let v1 = (b[pos] as u64) * 256 + (b[pos + 1] as u64);
    let v2 = v1 * 256 + (b[pos + 2] as u64);
    v2 * 256 + (b[pos + 3] as u64)
}

/// Eight bytes at `pos` as a big-endian number.
fn be8(b: &[u8], pos: usize) -> (r: u64)
    requires
        pos + 8 <= b@.len(),
    ensures
        r == be_unsigned(b@, pos as int, 8),
{
    proof {
        reveal_with_fuel(be_unsigned, 9);
    }
    let v1 = (b[pos] as u64) * 256 + (b[pos + 1] as u64);
    let v2 = v1 * 256 + (b[pos + 2] as u64);
    let v3 = v2 * 256 + (b[pos + 3] as u64);
    let v4 = v3 * 256 + (b[pos + 4] as u64);
    let v5 = v4 * 256 + (b[pos + 5] as u64);
    let v6 = v5 * 256 + (b[pos + 6] as u64);
    let v7 = v6 * 256 + (b[pos + 7] as u64);
    v7
}

/// A 16-bit number at `pos`.
fn read_i16(b: &[u8], pos: usize) -> (r: i16)
    requires
        pos + 2 <= b@.len(),
    ensures
        r == be_i16(b@, pos as int),
{
    let u = be2(b, pos);
    if u >= 0x8000 {
        ((u as i64) - 0x10000) as i16
    } else {
        u as i16
    }
}

/// A 32-bit number at `pos`.
fn read_i32(b: &[u8], pos: usize) -> (r: i32)
    requires
        pos + 4 <= b@.len(),
    ensures
        r == be_i32(b@, pos as int),
{
    let u = be4(b, pos);
    if u >= 0x8000_0000 {
        ((u as i64) - 0x1_0000_0000) as i32
    } else {
        u as i32
    }
}

/// A 64-bit number at `pos`.
fn read_i64(b: &[u8], pos: usize) -> (r: i64)
    requires
        pos + 8 <= b@.len(),
    ensures
        r == be_i64(b@, pos as int),
{
    let u = be8(b, pos);
    if u >= 0x8000_0000_0000_0000 {
        ((u as i128) - 0x1_0000_0000_0000_0000) as i64
    } else {
        u as i64
    }
}

/// The bytes from `from` up to `to`.
fn copy_bytes(b: &[u8], from: usize, to: usize) -> (r: Vec<u8>)
    requires
        from <= to <= b@.len(),
    ensures
        r@ == b@.subrange(from as int, to as int),
{
    let mut out: Vec<u8> = Vec::new();
    let mut i: usize = from;
    while i < to
        invariant
            from <= i <= to <= b@.len(),
            out@ == b@.subrange(from as int, i as int),
        decreases to - i,
    {
        out.push(b[i]);
        i = i + 1;
        assert(out@ =~= b@.subrange(from as int, i as int));
    }
    out
}

/// A string at `pos`.
fn read_string(b: &[u8], pos: usize) -> (r: Result<(String, usize), NbtError>)
    requires
        pos <= b@.len(),
    ensures
        string_read_view(r) == nbt_string(b@, pos as int),
        r matches Ok((_, q)) ==> pos + 2 <= q <= b@.len(),
{
    if b.len() - pos < 2 {
        return Err(NbtError::UnexpectedEnd);
    }
    let len = read_i16(b, pos);
    if len < 0 {
        return Err(NbtError::BadStringLength(len));
    }
    let l = len as usize;
    if b.len() - (pos + 2) < l {
        return Err(NbtError::UnexpectedEnd);
    }
    let bytes = copy_bytes(b, pos + 2, pos + 2 + l);
    Ok((utf8_lossy(bytes.as_slice()), pos + 2 + l))
}

/// A length of an array or list at `pos`.
fn read_len(b: &[u8], pos: usize) -> (r: Result<(usize, usize), NbtError>)
    requires
        pos <= b@.len(),
    ensures
        match r {
            Ok((n, q)) => nbt_len(b@, pos as int) == Ok::<(int, int), NbtError>((n as int, q as int)) && q
                == pos + 4 && n <= NBT_MAX_LEN,
            Err(e) => nbt_len(b@, pos as int) == Err::<(int, int), NbtError>(e),
        },
{
    if b.len() - pos < 4 {
        return Err(NbtError::UnexpectedEnd);
    }
    let len = read_i32(b, pos);
    if len < 0 || len > 1000000 {
        return Err(NbtError::BadLength(len));
    }
    Ok((len as usize, pos + 4))
}

/// Puts `(k, v)` into named tags: replaces the last entry named `k`, or
/// adds it at the end.
fn entries_put_exec(m: &mut Vec<(String, NbtTag)>, k: String, v: NbtTag)
    ensures
        entries_view(final(m)@) == entries_put(entries_view(old(m)@), k@, tag_view(v)),
{
    let ghost ev = entries_view(m@);
    proof {
        lemma_entries_view(m@);
    }
    let mut i: usize = m.len();
    assert(ev.take(m@.len() as int) =~= ev);
    while i > 0
        invariant
            i <= m@.len(),
            m@ == old(m)@,
            ev == entries_view(m@),
            ev.len() == m@.len(),
            forall|j: int| 0 <= j < m@.len() ==> #[trigger] ev[j] == (m@[j].0@, tag_view(m@[j].1)),
            key_index(ev, k@) == key_index(ev.take(i as int), k@),
        decreases i,
    {
        let ghost t = ev.take(i as int);
        assert(t.last() == ev[i - 1]);
        assert(t.drop_last() =~= ev.take(i - 1));
        if str_eq(m[i - 1].0.as_str(), k.as_str()) {
            assert(ev[i - 1].0 == k@);
            assert(key_index(t, k@) == Some((i - 1) as int));
            let ghost kv = k@;
            let ghost vv = tag_view(v);
            m.set(i - 1, (k, v));
            proof {
                lemma_entries_view(m@);
                assert(entries_view(m@) =~= ev.update(i - 1, (kv, vv)));
            }
            return;
        }
        i = i - 1;
    }
    assert(ev.take(0) =~= Seq::<(Seq<char>, NbtValue)>::empty());
    let ghost kv = k@;
    let ghost vv = tag_view(v);
    m.push((k, v));
    proof {
        lemma_entries_view(m@);
        assert(entries_view(m@) =~= ev.push((kv, vv)));
    }
}

/// Reads the value of a tag of type `t` at `pos`, nested `depth` deep.
fn read_payload(b: &[u8], pos: usize, t: u8, depth: u32) -> (r: Result<(NbtTag, usize), NbtError>)
    requires
        pos <= b@.len(),
        depth <= 65,
    ensures
        read_view(r) == nbt_payload(b@, pos as int, t, depth as int),
        r matches Ok((_, q)) ==> pos < q <= b@.len(),
    decreases 65 - depth,
{
    if depth > 64 {
        return Err(NbtError::TooDeep);
    }
    if t == 1 {
        if b.len() - pos < 1 {
            return Err(NbtError::UnexpectedEnd);
        }
        let x = b[pos];
        let v: i8 = if x >= 128 {
            ((x as i16) - 256) as i8
        } else {
            x as i8
        };
        return Ok((NbtTag::Byte(v), pos + 1));
    }
    if t == 2 {
        if b.len() - pos < 2 {
            return Err(NbtError::UnexpectedEnd);
        }
        return Ok((NbtTag::Short(read_i16(b, pos)), pos + 2));
    }
    if t == 3 {
        if b.len() - pos < 4 {
            return Err(NbtError::UnexpectedEnd);
        }
        return Ok((NbtTag::Int(read_i32(b, pos)), pos + 4));
    }
    if t == 4 {
        if b.len() - pos < 8 {
            return Err(NbtError::UnexpectedEnd);
        }
        return Ok((NbtTag::Long(read_i64(b, pos)), pos + 8));
    }
    if t == 5 {
        if b.len() - pos < 4 {
            return Err(NbtError::UnexpectedEnd);
        }
        return Ok((NbtTag::Float(be4(b, pos) as u32), pos + 4));
    }
    if t == 6 {
        if b.len() - pos < 8 {
            return Err(NbtError::UnexpectedEnd);
        }
        return Ok((NbtTag::Double(be8(b, pos)), pos + 8));
    }
    if t == 7 {
        let (n, p) = match read_len(b, pos) {
            Ok(x) => x,
            Err(e) => return Err(e),
        };
        if b.len() - p < n {
            return Err(NbtError::UnexpectedEnd);
        }
        let bytes = copy_bytes(b, p, p + n);
        return Ok((NbtTag::ByteArray(bytes), p + n));
    }
    if t == 8 {
        let (s, p) = match read_string(b, pos) {
            Ok(x) => x,
            Err(e) => return Err(e),
        };
        return Ok((NbtTag::String(s), p));
    }
    if t == 9 {
        if b.len() - pos < 1 {
            return Err(NbtError::UnexpectedEnd);
        }
        let item_type = b[pos];
        let (n, p) = match read_len(b, pos + 1) {
            Ok(x) => x,
            Err(e) => return Err(e),
        };
        let mut items: Vec<NbtTag> = Vec::new();
        let mut cur: usize = p;
        let mut k: usize = 0;
        assert(tags_view(items@) =~= Seq::<NbtValue>::empty());
        while k < n
            invariant
                k <= n,
                p <= cur <= b@.len(),
                p == pos + 5,
                depth <= 64,
                t == 9,
                pos + 1 <= b@.len(),
                item_type == b@[pos as int],
                nbt_len(b@, pos + 1) == Ok::<(int, int), NbtError>((n as int, p as int)),
                nbt_list(b@, p as int, item_type, n as int, depth + 1, Seq::empty()) == nbt_list(
                    b@,
                    cur as int,
                    item_type,
                    n - k,
                    depth + 1,
                    tags_view(items@),
                ),
            decreases n - k,
        {
            if depth + 1 > 64 {
                return Err(NbtError::TooDeep);
            }
            let (v, q) = match read_payload(b, cur, item_type, depth + 1) {
                Ok(x) => x,
                Err(e) => return Err(e),
            };
            let ghost before = items@;
            items.push(v);
            assert(items@.drop_last() =~= before);
            cur = q;
            k = k + 1;
        }
        return Ok((NbtTag::List(items), cur));
    }
    if t == 10 {
        let mut acc: Vec<(String, NbtTag)> = Vec::new();
        let mut cur: usize = pos;
        assert(entries_view(acc@) =~= Seq::<(Seq<char>, NbtValue)>::empty());
        loop
            invariant
                pos <= cur <= b@.len(),
                depth <= 64,
                t == 10,
                nbt_compound(b@, pos as int, depth + 1, Seq::empty()) == nbt_compound(
                    b@,
                    cur as int,
                    depth + 1,
                    entries_view(acc@),
                ),
            decreases b@.len() - cur,
        {
            if b.len() - cur < 1 {
                return Err(NbtError::UnexpectedEnd);
            }
            let child_type = b[cur];
            if child_type == 0 {
                return Ok((NbtTag::Compound(acc), cur + 1));
            }
            let (name, p) = match read_string(b, cur + 1) {
                Ok(x) => x,
                Err(e) => return Err(e),
            };
            if depth + 1 > 64 {
                return Err(NbtError::TooDeep);
            }
            let (v, q) = match read_payload(b, p, child_type, depth + 1) {
                Ok(x) => x,
                Err(e) => return Err(e),
            };
            entries_put_exec(&mut acc, name, v);
            cur = q;
        }
    }
    if t == 11 {
        let (n, p) = match read_len(b, pos) {
            Ok(x) => x,
            Err(e) => return Err(e),
        };
        if b.len() - p < 4 * n {
            return Err(NbtError::UnexpectedEnd);
        }
        let mut items: Vec<i32> = Vec::new();
        let mut k: usize = 0;
        while k < n
            invariant
                k <= n,
                n <= 1000000,
                p + 4 * n <= b.len(),
                items@ == Seq::new(k as nat, |j: int| be_i32(b@, p + 4 * j)),
            decreases n - k,
        {
            items.push(read_i32(b, p + 4 * k));
            k = k + 1;
            assert(items@ =~= Seq::new(k as nat, |j: int| be_i32(b@, p + 4 * j)));
        }
        return Ok((NbtTag::IntArray(items), p + 4 * n));
    }
    if t == 12 {
        let (n, p) = match read_len(b, pos) {
            Ok(x) => x,
            Err(e) => return Err(e),
        };
        if b.len() - p < 8 * n {
            return Err(NbtError::UnexpectedEnd);
        }
        let mut items: Vec<i64> = Vec::new();
        let mut k: usize = 0;
        while k < n
            invariant
                k <= n,
                n <= 1000000,
                p + 8 * n <= b.len(),
                items@ == Seq::new(k as nat, |j: int| be_i64(b@, p + 8 * j)),
            decreases n - k,
        {
            items.push(read_i64(b, p + 8 * k));
            k = k + 1;
            assert(items@ =~= Seq::new(k as nat, |j: int| be_i64(b@, p + 8 * j)));
        }
        return Ok((NbtTag::LongArray(items), p + 8 * n));
    }
    Err(NbtError::UnknownType(t))
}

/// The plain view of a read file.
pub open spec fn root_view(r: Result<(String, NbtTag), NbtError>) -> Result<(Seq<char>, NbtValue), NbtError> {
    match r {
        Ok((n, t)) => Ok((n@, tag_view(t))),
        Err(e) => Err(e),
    }
}

/// Reads an NBT file: a compound tag and its name. Anything after the
/// root tag is ignored.
pub fn parse_nbt(b: &[u8]) -> (r: Result<(String, NbtTag), NbtError>)
    ensures
        root_view(r) == nbt_root(b@),
{
    if b.len() < 1 {
        return Err(NbtError::UnexpectedEnd);
    }
    if b[0] != 10 {
        return Err(NbtError::RootNotCompound(b[0]));
    }
    let (name, p) = match read_string(b, 1) {
        Ok(x) => x,
        Err(e) => return Err(e),
    };
    match read_payload(b, p, 10, 0) {
        Ok((tag, _)) => Ok((name, tag)),
        Err(e) => Err(e),
    }
}

/// The tag named `key` of a compound value (none for other values).
pub open spec fn compound_get(v: NbtValue, key: Seq<char>) -> Option<NbtValue> {
    match v {
        NbtValue::Compound(m) => match key_index(m, key) {
            Some(i) => Some(m[i].1),
            None => None,
        },
        _ => None,
    }
}

/// The text of a string value.
pub open spec fn value_str(v: NbtValue) -> Option<Seq<char>> {
    match v {
        NbtValue::Str(s) => Some(s),
        _ => None,
    }
}

impl NbtTag {
    /// The tag named `key`, if this is a compound that has one.
    pub fn get(&self, key: &str) -> (r: Option<&NbtTag>)
        ensures
            match r {
                Some(t) => compound_get(tag_view(*self), key@) == Some(tag_view(*t)),
                None => compound_get(tag_view(*self), key@) is None,
            },
    {
        match self {
            NbtTag::Compound(m) => {
                let ghost ev = entries_view(m@);
                proof {
                    lemma_entries_view(m@);
                }
                let mut i: usize = m.len();
                assert(ev.take(m@.len() as int) =~= ev);
                while i > 0
                    invariant
                        i <= m@.len(),
                        ev == entries_view(m@),
                        tag_view(*self) == NbtValue::Compound(ev),
                        ev.len() == m@.len(),
                        forall|j: int| 0 <= j < m@.len() ==> #[trigger] ev[j] == (m@[j].0@, tag_view(m@[j].1)),
                        key_index(ev, key@) == key_index(ev.take(i as int), key@),
                    decreases i,
                {
                    let ghost t = ev.take(i as int);
                    assert(t.last() == ev[i - 1]);
                    assert(t.drop_last() =~= ev.take(i - 1));
                    if str_eq(m[i - 1].0.as_str(), key) {
                        assert(key_index(t, key@) == Some((i - 1) as int));
                        return Some(&m[i - 1].1);
                    }
                    i = i - 1;
                }
                assert(ev.take(0) =~= Seq::<(Seq<char>, NbtValue)>::empty());
                None
            },
            _ => None,
        }
    }

    /// The text, if this is a string tag.
    pub fn as_str(&self) -> (r: Option<&str>)
        ensures
            match r {
                Some(s) => value_str(tag_view(*self)) == Some(s@),
                None => value_str(tag_view(*self)) is None,
            },
    {
        match self {
            NbtTag::String(s) => Some(s.as_str()),
            _ => None,
        }
    }
}

} // verus!
