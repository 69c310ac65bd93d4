//! The element codec: per-type rules for measuring, writing and
//! validating the encoded bytes of one element, together with the
//! little-endian `u32` records that the container's header and index
//! table are made of.

use vstd::prelude::*;

verus! {

/// The error a malformed buffer or a malformed element produces.
#[derive(Clone, Copy, Debug, PartialEq, Eq, Structural)]
pub enum ZeroVecError {
    /// A byte range failed an element type's own validation.
    ParseError,
    /// The buffer breaks the container format itself.
    VarZeroVecFormatError,
}

/// The four little-endian bytes of `x`, least significant first.
pub open spec fn spec_le32(x: u32) -> Seq<u8> {
    seq![
        (x & 0xff) as u8,
        ((x >> 8) & 0xff) as u8,
        ((x >> 16) & 0xff) as u8,
        ((x >> 24) & 0xff) as u8,
    ]
}

/// The `u32` stored little-endian in a four-byte sequence.
pub open spec fn spec_read_le32(s: Seq<u8>) -> u32
    recommends
        s.len() == 4,
{
    (s[0] as u32) | ((s[1] as u32) << 8) | ((s[2] as u32) << 16) | ((s[3] as u32) << 24)
}

/// A `u32` written little-endian reads back as itself.
pub proof fn lemma_le32_round_trip(x: u32)
    ensures
        spec_read_le32(spec_le32(x)) == x,
{
    assert(((x & 0xff) as u8) as u32 | ((((x >> 8) & 0xff) as u8) as u32) << 8 | ((((x >> 16)
        & 0xff) as u8) as u32) << 16 | ((((x >> 24) & 0xff) as u8) as u32) << 24 == x)
        by (bit_vector);
}

/// Reads the little-endian `u32` stored in `b` at `at`.
pub fn read_u32_le(b: &[u8], at: usize) -> (x: u32)
    requires
        at + 4 <= b.len(),
    ensures
        x == spec_read_le32(b@.subrange(at as int, at + 4)),
{
    let b0 = *vstd::slice::slice_index_get(b, at);
    let b1 = *vstd::slice::slice_index_get(b, at + 1);
    let b2 = *vstd::slice::slice_index_get(b, at + 2);
    let b3 = *vstd::slice::slice_index_get(b, at + 3);
    let x = (b0 as u32) | (b1 as u32) << 8 | (b2 as u32) << 16 | (b3 as u32) << 24;
    proof {
        let s = b@.subrange(at as int, at + 4);
        assert(s[0] == b0 && s[1] == b1 && s[2] == b2 && s[3] == b3);
    }
    x
}

/// Overwrites `out[at..at + 4]` with the little-endian bytes of `x`;
/// every other byte keeps its value.
pub fn write_u32_le(out: &mut Vec<u8>, at: usize, x: u32)
    requires
        at + 4 <= old(out).len(),
    ensures
        final(out)@.len() == old(out)@.len(),
        final(out)@.subrange(at as int, at + 4) == spec_le32(x),
        forall|i: int|
            0 <= i < old(out)@.len() && !(at <= i < at + 4) ==> final(out)@[i] == old(out)@[i],
{
    proof {
        assert((x & 0xff) < 256 && ((x >> 8) & 0xff) < 256 && ((x >> 16) & 0xff) < 256 && ((x
            >> 24) & 0xff) < 256) by (bit_vector);
    }
    let b0 = (x & 0xff) as u8;
    let b1 = ((x >> 8) & 0xff) as u8;
    let b2 = ((x >> 16) & 0xff) as u8;
    let b3 = ((x >> 24) & 0xff) as u8;
    out.set(at, b0);
    out.set(at + 1, b1);
    out.set(at + 2, b2);
    out.set(at + 3, b3);
    proof {
        let s = out@.subrange(at as int, at + 4);
        assert(s[0] == b0 && s[1] == b1 && s[2] == b2 && s[3] == b3);
        assert(s =~= spec_le32(x));
    }
}

/// The decode side of the element codec: which byte sequences encode a
/// value of the type, and what value they encode. Implementors fix an
/// abstract value for every valid byte sequence and a canonical byte
/// sequence for every abstract value, and the two must agree.
pub trait VarULE: View + Sized {
    /// Whether `bytes` is a valid encoding of some value.
    spec fn spec_valid(bytes: Seq<u8>) -> bool;

    /// The abstract value a valid byte sequence decodes to.
    spec fn spec_decode(bytes: Seq<u8>) -> Self::V;

    /// The canonical encoded bytes of an abstract value.
    spec fn spec_bytes(v: Self::V) -> Seq<u8>;

    /// Canonical bytes are valid and decode back to the value they came from.
    proof fn lemma_bytes_round_trip(v: Self::V)
        ensures
            Self::spec_valid(Self::spec_bytes(v)),
            Self::spec_decode(Self::spec_bytes(v)) == v,
    ;

    /// Validates a byte range and decodes the value it holds.
    fn parse_byte_slice(bytes: &[u8]) -> (r: Result<Self, ZeroVecError>)
        ensures
            r is Ok <==> Self::spec_valid(bytes@),
            r is Ok ==> r->Ok_0@ == Self::spec_decode(bytes@),
    ;

    /// Decodes a byte range already known to be valid.
    fn from_byte_slice_unchecked(bytes: &[u8]) -> (r: Self)
        requires
            Self::spec_valid(bytes@),
        ensures
            r@ == Self::spec_decode(bytes@),
    ;
}

/// The encode side of the element codec: a type whose values can be
/// written out as the encoded bytes of a `T` element.
pub trait EncodeAsVarULE<T: VarULE>: View + Sized {
    /// The bytes this value encodes to.
    spec fn spec_encoded(&self) -> Seq<u8>;

    /// What this value encodes to is a valid encoding of a `T`.
    proof fn lemma_encoded_valid(&self)
        ensures
            T::spec_valid(self.spec_encoded()),
    ;

    /// The length of this value's encoding in bytes.
    fn encode_var_ule_len(&self) -> (n: usize)
        ensures
            n == self.spec_encoded().len(),
    ;

    /// Overwrites `dst[at..at + n]` with this value's `n` encoded bytes;
    /// every other byte keeps its value.
    fn encode_var_ule_write(&self, dst: &mut Vec<u8>, at: usize)
        requires
            at + self.spec_encoded().len() <= old(dst).len(),
        ensures
            final(dst)@.len() == old(dst)@.len(),
            final(dst)@.subrange(at as int, at + self.spec_encoded().len())
                == self.spec_encoded(),
            forall|i: int|
                0 <= i < old(dst)@.len() && !(at <= i < at + self.spec_encoded().len())
                    ==> final(dst)@[i] == old(dst)@[i],
    ;
}

/// A total order on a type's abstract values, with an executable
/// three-way comparison that decides it.
pub trait TotalOrd: View + Sized {
    /// The order's `<=` relation.
    spec fn spec_le(a: Self::V, b: Self::V) -> bool;

    /// Any two values are comparable.
    proof fn lemma_le_total(a: Self::V, b: Self::V)
        ensures
            Self::spec_le(a, b) || Self::spec_le(b, a),
    ;

    /// The order is transitive.
    proof fn lemma_le_transitive(a: Self::V, b: Self::V, c: Self::V)
        requires
            Self::spec_le(a, b),
            Self::spec_le(b, c),
        ensures
            Self::spec_le(a, c),
    ;

    /// Two values below each other are the same value.
    proof fn lemma_le_antisymmetric(a: Self::V, b: Self::V)
        requires
            Self::spec_le(a, b),
            Self::spec_le(b, a),
        ensures
            a == b,
    ;

    /// Three-way comparison deciding the order.
    fn compare(&self, other: &Self) -> (o: core::cmp::Ordering)
        ensures
            match o {
                core::cmp::Ordering::Less => Self::spec_le(self@, other@) && self@ != other@,
                core::cmp::Ordering::Equal => self@ == other@,
                core::cmp::Ordering::Greater => Self::spec_le(other@, self@) && self@ != other@,
            },
    ;
}

impl VarULE for Vec<u8> {
    /// Every byte sequence is a valid byte-string element.
    open spec fn spec_valid(bytes: Seq<u8>) -> bool {
        true
    }

    open spec fn spec_decode(bytes: Seq<u8>) -> Seq<u8> {
        bytes
    }

    open spec fn spec_bytes(v: Seq<u8>) -> Seq<u8> {
        v
    }

    proof fn lemma_bytes_round_trip(v: Seq<u8>) {
    }

    fn parse_byte_slice(bytes: &[u8]) -> (r: Result<Self, ZeroVecError>) {
        Ok(vstd::slice::slice_to_vec(bytes))
    }

    fn from_byte_slice_unchecked(bytes: &[u8]) -> (r: Self) {
        vstd::slice::slice_to_vec(bytes)
    }
}

impl EncodeAsVarULE<Vec<u8>> for Vec<u8> {
    open spec fn spec_encoded(&self) -> Seq<u8> {
        self@
    }

    proof fn lemma_encoded_valid(&self) {
    }

    fn encode_var_ule_len(&self) -> (n: usize) {
        self.len()
    }

    fn encode_var_ule_write(&self, dst: &mut Vec<u8>, at: usize) {
        let n = self.len();
        let mut j: usize = 0;
        while j < n
            invariant
                n == self@.len(),
                at + n <= dst.len(),
                0 <= j <= n,
                dst@.len() == old(dst)@.len(),
                forall|k: int| 0 <= k < j ==> dst@[at + k] == self@[k],
                forall|i: int|
                    0 <= i < old(dst)@.len() && !(at <= i < at + n) ==> dst@[i] == old(dst)@[i],
            decreases n - j,
        {
            let b = *vstd::slice::slice_index_get(self.as_slice(), j);
            dst.set(at + j, b);
            j = j + 1;
        }
        proof {
            assert(dst@.subrange(at as int, at + n) =~= self@);
        }
    }
}

/// Byte strings are ordered lexicographically.
impl TotalOrd for Vec<u8> {
    open spec fn spec_le(a: Seq<u8>, b: Seq<u8>) -> bool {
        spec_lex_le(a, b)
    }

    proof fn lemma_le_total(a: Seq<u8>, b: Seq<u8>) {
        lemma_lex_le_total(a, b);
    }

    proof fn lemma_le_transitive(a: Seq<u8>, b: Seq<u8>, c: Seq<u8>) {
        lemma_lex_le_transitive(a, b, c);
    }

    proof fn lemma_le_antisymmetric(a: Seq<u8>, b: Seq<u8>) {
        lemma_lex_le_antisymmetric(a, b);
    }

    fn compare(&self, other: &Self) -> (o: core::cmp::Ordering) {
        lex_compare(self.as_slice(), other.as_slice())
    }
}

/// Lexicographic order on byte sequences: `a` is below `b` when `a` runs
/// out first or its first differing byte is smaller.
pub open spec fn spec_lex_le(a: Seq<u8>, b: Seq<u8>) -> bool
    decreases a.len(),
{
    if a.len() == 0 {
        true
    } else if b.len() == 0 {
        false
    } else if a[0] != b[0] {
        a[0] < b[0]
    } else {
        spec_lex_le(a.skip(1), b.skip(1))
    }
}

proof fn lemma_lex_le_total(a: Seq<u8>, b: Seq<u8>)
    ensures
        spec_lex_le(a, b) || spec_lex_le(b, a),
    decreases a.len(),
{
    if a.len() != 0 && b.len() != 0 && a[0] == b[0] {
        lemma_lex_le_total(a.skip(1), b.skip(1));
    }
}

proof fn lemma_lex_le_transitive(a: Seq<u8>, b: Seq<u8>, c: Seq<u8>)
    requires
        spec_lex_le(a, b),
        spec_lex_le(b, c),
    ensures
        spec_lex_le(a, c),
    decreases a.len(),
{
    if a.len() != 0 && b.len() != 0 && c.len() != 0 && a[0] == b[0] && b[0] == c[0] {
        lemma_lex_le_transitive(a.skip(1), b.skip(1), c.skip(1));
    }
}

proof fn lemma_lex_le_antisymmetric(a: Seq<u8>, b: Seq<u8>)
    requires
        spec_lex_le(a, b),
        spec_lex_le(b, a),
    ensures
        a == b,
    decreases a.len(),
{
    if a.len() != 0 && b.len() != 0 && a[0] == b[0] {
        lemma_lex_le_antisymmetric(a.skip(1), b.skip(1));
        assert(a =~= seq![a[0]].add(a.skip(1)));
        assert(b =~= seq![b[0]].add(b.skip(1)));
    }
}

/// Three-way lexicographic comparison of two byte slices.
pub fn lex_compare(a: &[u8], b: &[u8]) -> (o: core::cmp::Ordering)
    ensures
        match o {
            core::cmp::Ordering::Less => spec_lex_le(a@, b@) && a@ != b@,
            core::cmp::Ordering::Equal => a@ == b@,
            core::cmp::Ordering::Greater => spec_lex_le(b@, a@) && b@ != a@,
        },
{
    let a_len = a.len();
    let b_len = b.len();
    let mut i: usize = 0;
    while i < a_len && i < b_len
        invariant
            a_len == a@.len(),
            b_len == b@.len(),
            0 <= i <= a_len,
            0 <= i <= b_len,
            forall|k: int| 0 <= k < i ==> a@[k] == b@[k],
        decreases a_len - i,
    {
        let x = *vstd::slice::slice_index_get(a, i);
        let y = *vstd::slice::slice_index_get(b, i);
        if x < y {
            proof {
                lemma_lex_common_prefix(a@, b@, i as int);
            }
            return core::cmp::Ordering::Less;
        }
        if y < x {
            proof {
                lemma_lex_common_prefix(b@, a@, i as int);
            }
            return core::cmp::Ordering::Greater;
        }
        i = i + 1;
    }
    if a_len == b_len {
        proof {
            assert(a@ =~= b@);
        }
        core::cmp::Ordering::Equal
    } else if a_len < b_len {
        proof {
            lemma_lex_prefix_le(a@, b@, a@.len() as int);
        }
        core::cmp::Ordering::Less
    } else {
        proof {
            lemma_lex_prefix_le(b@, a@, b@.len() as int);
        }
        core::cmp::Ordering::Greater
    }
}

/// If `a` and `b` agree on their first `i` bytes and `a[i] < b[i]`,
/// then `a` comes lexicographically first.
proof fn lemma_lex_common_prefix(a: Seq<u8>, b: Seq<u8>, i: int)
    requires
        0 <= i < a.len(),
        i < b.len(),
        forall|k: int| 0 <= k < i ==> a[k] == b[k],
        a[i] < b[i],
    ensures
        spec_lex_le(a, b),
        a != b,
    decreases i,
{
    assert(a.len() != b.len() || a[i] != b[i] ==> a != b);
    if i == 0 {
    } else {
        lemma_lex_common_prefix(a.skip(1), b.skip(1), i - 1);
    }
}

/// A proper prefix comes lexicographically first.
proof fn lemma_lex_prefix_le(a: Seq<u8>, b: Seq<u8>, n: int)
    requires
        0 <= n == a.len() < b.len(),
        forall|k: int| 0 <= k < n ==> a[k] == b[k],
    ensures
        spec_lex_le(a, b),
        a != b,
    decreases n,
{
    if n != 0 {
        lemma_lex_prefix_le(a.skip(1), b.skip(1), n - 1);
    }
}

impl VarULE for u32 {
    /// A `u32` element is exactly four little-endian bytes.
    open spec fn spec_valid(bytes: Seq<u8>) -> bool {
        bytes.len() == 4
    }

    open spec fn spec_decode(bytes: Seq<u8>) -> u32 {
        spec_read_le32(bytes)
    }

    open spec fn spec_bytes(v: u32) -> Seq<u8> {
        spec_le32(v)
    }

    proof fn lemma_bytes_round_trip(v: u32) {
        lemma_le32_round_trip(v);
    }

    fn parse_byte_slice(bytes: &[u8]) -> (r: Result<Self, ZeroVecError>) {
        if bytes.len() == 4 {
            proof {
                assert(bytes@.subrange(0, 4) =~= bytes@);
            }
            Ok(read_u32_le(bytes, 0))
        } else {
            Err(ZeroVecError::ParseError)
        }
    }

    fn from_byte_slice_unchecked(bytes: &[u8]) -> (r: Self) {
        proof {
            assert(bytes@.subrange(0, 4) =~= bytes@);
        }
        read_u32_le(bytes, 0)
    }
}

impl EncodeAsVarULE<u32> for u32 {
    open spec fn spec_encoded(&self) -> Seq<u8> {
        spec_le32(*self)
    }

    proof fn lemma_encoded_valid(&self) {
    }

    fn encode_var_ule_len(&self) -> (n: usize) {
        4
    }

    fn encode_var_ule_write(&self, dst: &mut Vec<u8>, at: usize) {
        write_u32_le(dst, at, *self);
    }
}

/// Numeric order on `u32` elements.
impl TotalOrd for u32 {
    open spec fn spec_le(a: u32, b: u32) -> bool {
        a <= b
    }

    proof fn lemma_le_total(a: u32, b: u32) {
    }

    proof fn lemma_le_transitive(a: u32, b: u32, c: u32) {
    }

    proof fn lemma_le_antisymmetric(a: u32, b: u32) {
    }

    fn compare(&self, other: &Self) -> (o: core::cmp::Ordering) {
        if *self < *other {
            core::cmp::Ordering::Less
        } else if *self == *other {
            core::cmp::Ordering::Equal
        } else {
            core::cmp::Ordering::Greater
        }
    }
}

} // verus!
