use vstd::prelude::*;

verus! {

/// The little-endian unsigned 16-bit value at `off`.
pub open spec fn spec_u16_at(b: Seq<u8>, off: int) -> int {
    b[off] + 0x100 * b[off + 1]
}

/// The little-endian signed 16-bit value at `off` (two's complement).
pub open spec fn spec_i16_at(b: Seq<u8>, off: int) -> int {
    if spec_u16_at(b, off) < 0x8000 {
        spec_u16_at(b, off)
    } else {
        spec_u16_at(b, off) - 0x10000
    }
}

/// The little-endian unsigned 32-bit value at `off`.
pub open spec fn spec_u32_at(b: Seq<u8>, off: int) -> int {
    b[off] + 0x100 * b[off + 1] + 0x1_0000 * b[off + 2] + 0x100_0000 * b[off + 3]
}

/// ASCII upper-casing of one byte.
pub open spec fn spec_upper(b: u8) -> u8 {
    if 97 <= b <= 122 {
        (b - 32) as u8
    } else {
        b
    }
}

/// ASCII upper-casing of a byte string.
pub open spec fn spec_upper_seq(s: Seq<u8>) -> Seq<u8> {
    s.map_values(|b: u8| spec_upper(b))
}

/// The length of the lump name stored at `off`: 8 bytes, cut at the first NUL.
pub open spec fn spec_name_len(b: Seq<u8>, off: int) -> int {
    spec_name_len_upto(b, off, 0)
}

/// Helper for `spec_name_len`: the first NUL at or after position `i` of the
/// 8-byte field, or 8 if there is none.
pub open spec fn spec_name_len_upto(b: Seq<u8>, off: int, i: int) -> int
    decreases 8 - i,
{
    if i >= 8 {
        8
    } else if b[off + i] == 0 {
        i
    } else {
        spec_name_len_upto(b, off, i + 1)
    }
}

/// The canonical (uppercased, NUL-cut) lump name stored at `off`.
pub open spec fn spec_name_at(b: Seq<u8>, off: int) -> Seq<u8> {
    spec_upper_seq(b.subrange(off, off + spec_name_len(b, off)))
}

/// Read a little-endian i16 from two bytes.
pub fn read_i16_at(file: &Vec<u8>, offset: usize) -> (r: i16)
    requires
        offset + 2 <= file@.len(),
    ensures
        r == spec_i16_at(file@, offset as int),
{
    let _len_fits = file.len();
    let lo = file[offset] as u32;
    let hi = file[offset + 1] as u32;
    let v: u32 = lo + 0x100 * hi;
    if v < 0x8000 {
        v as i16
    } else {
        (v as i32 - 0x10000) as i16
    }
}

/// Read a little-endian u16 from two bytes.
pub fn read_u16_at(file: &Vec<u8>, offset: usize) -> (r: u16)
    requires
        offset + 2 <= file@.len(),
    ensures
        r == spec_u16_at(file@, offset as int),
{
    let _len_fits = file.len();
    let lo = file[offset] as u16;
    let hi = file[offset + 1] as u16;
    lo + 0x100 * hi
}

/// Read a little-endian u32 from four bytes.
pub fn read_u32_at(file: &Vec<u8>, offset: usize) -> (r: u32)
    requires
        offset + 4 <= file@.len(),
    ensures
        r == spec_u32_at(file@, offset as int),
{
    let _len_fits = file.len();
    let b0 = file[offset] as u32;
    let b1 = file[offset + 1] as u32;
    let b2 = file[offset + 2] as u32;
    let b3 = file[offset + 3] as u32;
    b0 + 0x100 * b1 + 0x1_0000 * b2 + 0x100_0000 * b3
}

/// Upper-case one ASCII byte.
pub fn upper_byte(b: u8) -> (r: u8)
    ensures
        r == spec_upper(b),
{
    if 97 <= b && b <= 122 {
        b - 32
    } else {
        b
    }
}

/// Upper-case a byte string.
pub fn upper_bytes(s: &Vec<u8>) -> (r: Vec<u8>)
    ensures
        r@ == spec_upper_seq(s@),
{
    let mut out: Vec<u8> = Vec::new();
    let mut i: usize = 0;
    while i < s.len()
        invariant
            i <= s@.len(),
            out@.len() == i,
            forall|j: int| 0 <= j < i ==> out@[j] == spec_upper(s@[j]),
        decreases s@.len() - i,
    {
        out.push(upper_byte(s[i]));
        i = i + 1;
    }
    proof {
        assert(out@ =~= spec_upper_seq(s@));
    }
    out
}

/// Upper-casing is idempotent on byte strings.
pub proof fn lemma_upper_idempotent(s: Seq<u8>)
    ensures
        spec_upper_seq(spec_upper_seq(s)) == spec_upper_seq(s),
{
    assert(spec_upper_seq(spec_upper_seq(s)) =~= spec_upper_seq(s));
}

/// Byte-string equality.
pub fn bytes_eq(a: &Vec<u8>, b: &Vec<u8>) -> (r: bool)
    ensures
        r <==> a@ == b@,
{
    if a.len() != b.len() {
        proof {
            assert(a@ != b@);
        }
        return false;
    }
    let mut i: usize = 0;
    while i < a.len()
        invariant
            a@.len() == b@.len(),
            i <= a@.len(),
            forall|j: int| 0 <= j < i ==> a@[j] == b@[j],
        decreases a@.len() - i,
    {
        if a[i] != b[i] {
            return false;
        }
        i = i + 1;
    }
    proof {
        assert(a@ =~= b@);
    }
    true
}

/// Read the canonical lump name (8 bytes, NUL-cut, uppercased) at `offset`.
pub fn read_lump_name(file: &Vec<u8>, offset: usize) -> (r: Vec<u8>)
    requires
        offset + 8 <= file@.len(),
    ensures
        r@ == spec_name_at(file@, offset as int),
{
    let _len_fits = file.len();
    let mut out: Vec<u8> = Vec::new();
    let mut i: usize = 0;
    while i < 8
        invariant
            _len_fits == file@.len(),
            offset + 8 <= file@.len(),
            i <= 8,
            out@.len() == i,
            forall|j: int| 0 <= j < i ==> #[trigger] file@[offset + j] != 0,
            forall|j: int| 0 <= j < i ==> out@[j] == spec_upper(file@[offset + j]),
        decreases 8 - i,
    {
        let b = file[offset + i];
        if b == 0 {
            proof {
                lemma_name_len_from_nul(file@, offset as int, i as int);
                assert(out@ =~= spec_name_at(file@, offset as int));
            }
            return out;
        }
        out.push(upper_byte(b));
        i = i + 1;
    }
    proof {
        lemma_name_len_full(file@, offset as int);
        assert(out@ =~= spec_name_at(file@, offset as int));
    }
    out
}

/// If the first `i` bytes of the name field are non-NUL and byte `i` is NUL,
/// the name length is `i`.
proof fn lemma_name_len_from_nul(b: Seq<u8>, off: int, i: int)
    requires
        0 <= i < 8,
        forall|j: int| 0 <= j < i ==> #[trigger] b[off + j] != 0,
        b[off + i] == 0,
    ensures
        spec_name_len(b, off) == i,
{
    lemma_name_len_upto_step(b, off, 0, i);
}

/// If all 8 bytes of the name field are non-NUL, the name length is 8.
proof fn lemma_name_len_full(b: Seq<u8>, off: int)
    requires
        forall|j: int| 0 <= j < 8 ==> #[trigger] b[off + j] != 0,
    ensures
        spec_name_len(b, off) == 8,
{
    lemma_name_len_upto_step(b, off, 0, 8);
}

/// `spec_name_len_upto` walks from `lo` straight to the first NUL (or 8).
proof fn lemma_name_len_upto_step(b: Seq<u8>, off: int, lo: int, stop: int)
    requires
        0 <= lo <= stop <= 8,
        forall|j: int| lo <= j < stop ==> #[trigger] b[off + j] != 0,
        stop < 8 ==> b[off + stop] == 0,
    ensures
        spec_name_len_upto(b, off, lo) == stop,
    decreases stop - lo,
{
    if lo < stop {
        lemma_name_len_upto_step(b, off, lo + 1, stop);
    }
}

} // verus!
