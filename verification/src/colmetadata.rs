//! Column metadata as rows need it: how each column's value is framed.
use vstd::prelude::*;
use crate::utils::{le_u16, le_u32, r_u16_le, r_u32_le};

verus! {

/// How a variable-length column announces its length, with its maximum length.
#[derive(Debug, Clone, Copy, PartialEq, Eq)]
pub enum TypeInfoVarLen {
    /// One length byte.
    Byte(u8),
    /// A little-endian 16-bit length.
    Ushort(u16),
    /// A little-endian 32-bit length.
    Long(u32),
}

/// The type of a column: its type byte, the length of a fixed-length value,
/// and for a variable-length type how its length is announced.
#[derive(Debug, Clone, Copy, PartialEq, Eq)]
pub struct TypeInfo {
    pub ty: u8,
    pub fixed_len: usize,
    pub dtype_max_len: Option<TypeInfoVarLen>,
}

/// One column of a COLMETADATA token.
#[derive(Debug, Clone, Copy, PartialEq, Eq)]
pub struct ColumnData {
    pub type_info: TypeInfo,
}

impl ColumnData {
    /// The type of this column.
    pub fn ty(&self) -> (r: TypeInfo)
        ensures
            r == self.type_info,
    {
        self.type_info
    }
}

/// A COLMETADATA token held by value: its wire form and its columns.
#[derive(Debug, Clone)]
pub struct ColMetaDataToken {
    pub bytes: Vec<u8>,
    pub column_data: Vec<ColumnData>,
}

/// Column metadata owned by the session while rows of a result are read.
pub type ColMetaDataOwned = ColMetaDataToken;

/// Column metadata borrowed from its owner.
#[derive(Debug, Clone, Copy)]
pub struct ColMetaDataSpan<'a> {
    pub columns: &'a [ColumnData],
}

impl ColMetaDataToken {
    /// The wire form of the token.
    pub fn as_bytes(&self) -> (r: &[u8])
        ensures
            r@ == self.bytes@,
    {
        self.bytes.as_slice()
    }

    /// The columns, one per value of a row.
    pub fn strides_as_slice(&self) -> (r: &[ColumnData])
        ensures
            r@ == self.column_data@,
    {
        self.column_data.as_slice()
    }

    /// The columns, borrowed.
    pub fn borrow(&self) -> (r: ColMetaDataSpan<'_>)
        ensures
            r.columns@ == self.column_data@,
    {
        ColMetaDataSpan { columns: self.column_data.as_slice() }
    }
}

/// The first value of the row bytes `b` for a column of type `ti`, with the
/// number of bytes it takes (length prefix included); `None` where `b` is too short.
pub open spec fn column_value(b: Seq<u8>, ti: TypeInfo) -> Option<(Seq<u8>, int)> {
    match ti.dtype_max_len {
        None => if ti.fixed_len <= b.len() {
            Some((b.subrange(0, ti.fixed_len as int), ti.fixed_len as int))
        } else {
            None
        },
        Some(TypeInfoVarLen::Byte(_)) => if b.len() >= 1 && 1 + b[0] <= b.len() {
            Some((b.subrange(1, 1 + b[0]), 1 + b[0]))
        } else {
            None
        },
        Some(TypeInfoVarLen::Ushort(_)) => if b.len() >= 2 && 2 + le_u16(b, 0) <= b.len() {
            Some((b.subrange(2, 2 + le_u16(b, 0)), 2 + le_u16(b, 0)))
        } else {
            None
        },
        Some(TypeInfoVarLen::Long(_)) => if b.len() >= 4 && 4 + le_u32(b, 0) <= b.len() {
            Some((b.subrange(4, 4 + le_u32(b, 0)), 4 + le_u32(b, 0)))
        } else {
            None
        },
    }
}

/// Splits the first value of type `ti` off the row bytes `bytes`: the value and
/// the bytes after it, or `None` where the bytes are too short.
pub fn to_dtype_bytes<'a>(bytes: &'a [u8], ti: TypeInfo) -> (r: Option<(&'a [u8], &'a [u8])>)
    ensures
        match column_value(bytes@, ti) {
            Some((v, n)) => r matches Some((value, rest)) && value@ == v && rest@
                == bytes@.subrange(n, bytes@.len() as int),
            None => r is None,
        },
{
    let (start, len): (usize, usize) = match ti.dtype_max_len {
        None => (0, ti.fixed_len),
        Some(TypeInfoVarLen::Byte(_)) => {
            if bytes.len() < 1 {
                return None;
            }
            (1, bytes[0] as usize)
        },
        Some(TypeInfoVarLen::Ushort(_)) => {
            if bytes.len() < 2 {
                return None;
            }
            (2, r_u16_le(bytes, 0) as usize)
        },
        Some(TypeInfoVarLen::Long(_)) => {
            if bytes.len() < 4 {
                return None;
            }
            let n = r_u32_le(bytes, 0);
            if n as u64 > (bytes.len() - 4) as u64 {
                return None;
            }
            (4, n as usize)
        },
    };
    if start > bytes.len() || len > bytes.len() - start {
        return None;
    }
    Some(
        (
            vstd::slice::slice_subrange(bytes, start, start + len),
            vstd::slice::slice_subrange(bytes, start + len, bytes.len()),
        ),
    )
}


/// How a piece of the stream reads from a position on: whole, with what it
/// holds and where it ends; cut short; or not readable here.
pub enum Parsed<T> {
    Done(T, int),
    Short,
    Bad,
}

/// What a parser over a byte slice found: whole, with where it ends; cut
/// short; or not readable here.
pub enum Read<T> {
    Done(T, usize),
    Short,
    Bad,
}

/// The reading `r` is the parse `p`.
pub open spec fn read_is<T>(r: Read<T>, p: Parsed<T>) -> bool {
    match p {
        Parsed::Done(v, e) => r matches Read::Done(w, f) && w == v && f == e,
        Parsed::Short => r is Short,
        Parsed::Bad => r is Bad,
    }
}

/// The value length of a fixed-length type, -1 for other types.
pub open spec fn fixed_type_len(t: u8) -> int {
    if t == 0x1f {
        0
    } else if t == 0x30 || t == 0x32 {
        1
    } else if t == 0x34 {
        2
    } else if t == 0x38 || t == 0x3a || t == 0x3b || t == 0x7a {
        4
    } else if t == 0x3c || t == 0x3d || t == 0x3e || t == 0x7f {
        8
    } else {
        -1
    }
}

/// A type whose TYPE_INFO holds one length byte and whose values have one:
/// GUID, INTN, BITN, FLTN, MONEYN, DATETIMN, CHAR, VARCHAR, BINARY, VARBINARY.
pub open spec fn is_bytelen_type(t: u8) -> bool {
    t == 0x24 || t == 0x26 || t == 0x68 || t == 0x6d || t == 0x6e || t == 0x6f || t == 0x2f
        || t == 0x27 || t == 0x2d || t == 0x25
}

/// A time type whose TYPE_INFO holds a scale: TIMEN, DATETIME2N, DATETIMEOFFSETN.
pub open spec fn is_scaled_type(t: u8) -> bool {
    t == 0x29 || t == 0x2a || t == 0x2b
}

/// Largest value of the time type `t` with scale `scale`.
pub open spec fn scaled_max_len(t: u8, scale: u8) -> u8 {
    let base: u8 = if t == 0x29 {
        3
    } else if t == 0x2a {
        6
    } else {
        8
    };
    if scale <= 2 {
        base
    } else if scale <= 4 {
        (base + 1) as u8
    } else {
        (base + 2) as u8
    }
}

/// A binary type with a 16-bit maximum length: BIGVARBINARY, BIGBINARY.
pub open spec fn is_ushort_binary_type(t: u8) -> bool {
    t == 0xa5 || t == 0xad
}

/// A character type with a 16-bit maximum length and a collation: BIGVARCHAR,
/// BIGCHAR, NVARCHAR, NCHAR.
pub open spec fn is_ushort_char_type(t: u8) -> bool {
    t == 0xa7 || t == 0xaf || t == 0xe7 || t == 0xef
}

/// The TYPE_INFO at `off`: a fixed-length type; DATEN; a type with a length
/// byte (DECIMALN and NUMERICN add precision and scale); a time type with its
/// scale; a binary or character type with a 16-bit maximum length (and a
/// collation for characters); SQL_VARIANT with a 32-bit maximum length.
/// Types of unbounded length (a maximum of 0xFFFF, TEXT, NTEXT, IMAGE, XML,
/// UDT) and unknown types are not read here.
pub open spec fn type_info_at(b: Seq<u8>, off: int) -> Parsed<TypeInfo> {
    if off < 0 || off >= b.len() {
        Parsed::Short
    } else {
        let t = b[off];
        if fixed_type_len(t) >= 0 {
            Parsed::Done(
                TypeInfo { ty: t, fixed_len: fixed_type_len(t) as usize, dtype_max_len: None },
                off + 1,
            )
        } else if t == 0x28 {
            Parsed::Done(
                TypeInfo { ty: t, fixed_len: 0, dtype_max_len: Some(TypeInfoVarLen::Byte(3)) },
                off + 1,
            )
        } else if is_bytelen_type(t) {
            if off + 2 > b.len() {
                Parsed::Short
            } else {
                Parsed::Done(
                    TypeInfo {
                        ty: t,
                        fixed_len: 0,
                        dtype_max_len: Some(TypeInfoVarLen::Byte(b[off + 1])),
                    },
                    off + 2,
                )
            }
        } else if t == 0x6a || t == 0x6c {
            if off + 4 > b.len() {
                Parsed::Short
            } else {
                Parsed::Done(
                    TypeInfo {
                        ty: t,
                        fixed_len: 0,
                        dtype_max_len: Some(TypeInfoVarLen::Byte(b[off + 1])),
                    },
                    off + 4,
                )
            }
        } else if is_scaled_type(t) {
            if off + 2 > b.len() {
                Parsed::Short
            } else {
                Parsed::Done(
                    TypeInfo {
                        ty: t,
                        fixed_len: 0,
                        dtype_max_len: Some(TypeInfoVarLen::Byte(scaled_max_len(t, b[off + 1]))),
                    },
                    off + 2,
                )
            }
        } else if is_ushort_binary_type(t) || is_ushort_char_type(t) {
            let end = if is_ushort_binary_type(t) {
                off + 3
            } else {
                off + 8
            };
            if end > b.len() {
                Parsed::Short
            } else if le_u16(b, off + 1) == 0xffff {
                Parsed::Bad
            } else {
                Parsed::Done(
                    TypeInfo {
                        ty: t,
                        fixed_len: 0,
                        dtype_max_len: Some(TypeInfoVarLen::Ushort(le_u16(b, off + 1) as u16)),
                    },
                    end,
                )
            }
        } else if t == 0x62 {
            if off + 5 > b.len() {
                Parsed::Short
            } else {
                Parsed::Done(
                    TypeInfo {
                        ty: t,
                        fixed_len: 0,
                        dtype_max_len: Some(TypeInfoVarLen::Long(le_u32(b, off + 1) as u32)),
                    },
                    off + 5,
                )
            }
        } else {
            Parsed::Bad
        }
    }
}

/// One column description at `off`: user type, flags, TYPE_INFO and the
/// column name (a character count, then UTF-16 units).
pub open spec fn column_at(b: Seq<u8>, off: int) -> Parsed<ColumnData> {
    if off < 0 || off + 6 > b.len() {
        Parsed::Short
    } else {
        match type_info_at(b, off + 6) {
            Parsed::Done(ti, e) => if e >= b.len() || e + 1 + 2 * b[e] > b.len() {
                Parsed::Short
            } else {
                Parsed::Done(ColumnData { type_info: ti }, e + 1 + 2 * b[e])
            },
            Parsed::Short => Parsed::Short,
            Parsed::Bad => Parsed::Bad,
        }
    }
}

/// `k` column descriptions from `off` on.
pub open spec fn columns_at(b: Seq<u8>, off: int, k: nat) -> Parsed<Seq<ColumnData>>
    decreases k,
{
    if k == 0 {
        Parsed::Done(Seq::empty(), off)
    } else {
        match column_at(b, off) {
            Parsed::Done(c, e) => match columns_at(b, e, (k - 1) as nat) {
                Parsed::Done(cs, e2) => Parsed::Done(seq![c] + cs, e2),
                Parsed::Short => Parsed::Short,
                Parsed::Bad => Parsed::Bad,
            },
            Parsed::Short => Parsed::Short,
            Parsed::Bad => Parsed::Bad,
        }
    }
}

/// The COLMETADATA token at the start of `b`: the token byte, the column count
/// (0xFFFF for none) and the column descriptions.
pub open spec fn colmetadata_at(b: Seq<u8>) -> Parsed<Seq<ColumnData>> {
    if b.len() < 3 {
        Parsed::Short
    } else if le_u16(b, 1) == 0xffff {
        Parsed::Done(Seq::empty(), 3)
    } else {
        columns_at(b, 3, le_u16(b, 1) as nat)
    }
}

/// Reads the TYPE_INFO at `off`.
pub fn read_type_info(b: &[u8], off: usize) -> (r: Read<TypeInfo>)
    ensures
        read_is(r, type_info_at(b@, off as int)),
{
    if off >= b.len() {
        return Read::Short;
    }
    let t = b[off];
    let fixed: i32 = if t == 0x1f {
        0
    } else if t == 0x30 || t == 0x32 {
        1
    } else if t == 0x34 {
        2
    } else if t == 0x38 || t == 0x3a || t == 0x3b || t == 0x7a {
        4
    } else if t == 0x3c || t == 0x3d || t == 0x3e || t == 0x7f {
        8
    } else {
        -1
    };
    if fixed >= 0 {
        return Read::Done(TypeInfo { ty: t, fixed_len: fixed as usize, dtype_max_len: None }, off + 1);
    }
    let rest = b.len() - off;
    if t == 0x28 {
        Read::Done(TypeInfo { ty: t, fixed_len: 0, dtype_max_len: Some(TypeInfoVarLen::Byte(3)) }, off + 1)
    } else if t == 0x24 || t == 0x26 || t == 0x68 || t == 0x6d || t == 0x6e || t == 0x6f || t == 0x2f
        || t == 0x27 || t == 0x2d || t == 0x25 {
        if rest < 2 {
            return Read::Short;
        }
        Read::Done(
            TypeInfo { ty: t, fixed_len: 0, dtype_max_len: Some(TypeInfoVarLen::Byte(b[off + 1])) },
            off + 2,
        )
    } else if t == 0x6a || t == 0x6c {
        if rest < 4 {
            return Read::Short;
        }
        Read::Done(
            TypeInfo { ty: t, fixed_len: 0, dtype_max_len: Some(TypeInfoVarLen::Byte(b[off + 1])) },
            off + 4,
        )
    } else if t == 0x29 || t == 0x2a || t == 0x2b {
        if rest < 2 {
            return Read::Short;
        }
        let scale = b[off + 1];
        let base: u8 = if t == 0x29 {
            3
        } else if t == 0x2a {
            6
        } else {
            8
        };
        let max: u8 = if scale <= 2 {
            base
        } else if scale <= 4 {
            base + 1
        } else {
            base + 2
        };
        Read::Done(
            TypeInfo { ty: t, fixed_len: 0, dtype_max_len: Some(TypeInfoVarLen::Byte(max)) },
            off + 2,
        )
    } else if t == 0xa5 || t == 0xad || t == 0xa7 || t == 0xaf || t == 0xe7 || t == 0xef {
        let need: usize = if t == 0xa5 || t == 0xad {
            3
        } else {
            8
        };
        if rest < need {
            return Read::Short;
        }
        let max = r_u16_le(b, off + 1);
        if max == 0xffff {
            return Read::Bad;
        }
        Read::Done(
            TypeInfo { ty: t, fixed_len: 0, dtype_max_len: Some(TypeInfoVarLen::Ushort(max)) },
            off + need,
        )
    } else if t == 0x62 {
        if rest < 5 {
            return Read::Short;
        }
        Read::Done(
            TypeInfo {
                ty: t,
                fixed_len: 0,
                dtype_max_len: Some(TypeInfoVarLen::Long(r_u32_le(b, off + 1))),
            },
            off + 5,
        )
    } else {
        Read::Bad
    }
}

/// Reads one column description at `off`.
pub fn read_column(b: &[u8], off: usize) -> (r: Read<ColumnData>)
    ensures
        read_is(r, column_at(b@, off as int)),
{
    if off > b.len() || b.len() - off < 6 {
        return Read::Short;
    }
    match read_type_info(b, off + 6) {
        Read::Done(ti, e) => {
            if e >= b.len() {
                return Read::Short;
            }
            let n = b[e] as usize;
            if 1 + 2 * n > b.len() - e {
                return Read::Short;
            }
            Read::Done(ColumnData { type_info: ti }, e + 1 + 2 * n)
        },
        Read::Short => Read::Short,
        Read::Bad => Read::Bad,
    }
}

/// A TYPE_INFO that is read ends past where it starts and within `b`.
pub proof fn lemma_type_info_end(b: Seq<u8>, off: int)
    ensures
        type_info_at(b, off) matches Parsed::Done(_, e) ==> off < e <= b.len(),
{
}

proof fn lemma_columns_end(b: Seq<u8>, off: int, k: nat)
    requires
        0 <= off <= b.len(),
    ensures
        columns_at(b, off, k) matches Parsed::Done(cs, e) ==> off <= e <= b.len() && cs.len()
            == k,
    decreases k,
{
    if k > 0 {
        lemma_type_info_end(b, off + 6);
        if let Parsed::Done(c, e) = column_at(b, off) {
            lemma_columns_end(b, e, (k - 1) as nat);
        }
    }
}

/// Where a COLMETADATA token that is whole ends: past its fixed part and
/// within `b`.
pub proof fn lemma_colmetadata_end(b: Seq<u8>)
    ensures
        colmetadata_at(b) matches Parsed::Done(_, e) ==> 3 <= e <= b.len(),
{
    if b.len() >= 3 && le_u16(b, 1) != 0xffff {
        lemma_columns_end(b, 3, le_u16(b, 1) as nat);
    }
}

/// Reads the COLMETADATA token at the start of `b`.
pub fn read_colmetadata(b: &[u8]) -> (r: Read<Vec<ColumnData>>)
    ensures
        match colmetadata_at(b@) {
            Parsed::Done(cs, e) => r matches Read::Done(v, f) && v@ == cs && f == e,
            Parsed::Short => r is Short,
            Parsed::Bad => r is Bad,
        },
{
    if b.len() < 3 {
        return Read::Short;
    }
    let count = r_u16_le(b, 1);
    if count == 0xffff {
        let v: Vec<ColumnData> = Vec::new();
        assert(v@ =~= Seq::<ColumnData>::empty());
        return Read::Done(v, 3);
    }
    let k = count as usize;
    let mut acc: Vec<ColumnData> = Vec::new();
    let mut off: usize = 3;
    let mut i: usize = 0;
    proof {
        assert(acc@ + Seq::<ColumnData>::empty() =~= acc@);
    }
    while i < k
        invariant
            i <= k,
            k == le_u16(b@, 1),
            k != 0xffff,
            3 <= off <= b@.len(),
            acc@.len() == i,
            colmetadata_at(b@) == match columns_at(b@, off as int, (k - i) as nat) {
                Parsed::Done(cs, e) => Parsed::Done(acc@ + cs, e),
                Parsed::Short => Parsed::<Seq<ColumnData>>::Short,
                Parsed::Bad => Parsed::<Seq<ColumnData>>::Bad,
            },
        decreases k - i,
    {
        let ghost rest_k = (k - i) as nat;
        match read_column(b, off) {
            Read::Done(c, e) => {
                proof {
                    lemma_type_info_end(b@, off + 6);
                    lemma_columns_end(b@, e as int, (rest_k - 1) as nat);
                    match columns_at(b@, e as int, (rest_k - 1) as nat) {
                        Parsed::Done(cs, e2) => {
                            assert(acc@.push(c) + cs =~= acc@ + (seq![c] + cs));
                        },
                        _ => {},
                    }
                }
                acc.push(c);
                off = e;
                i = i + 1;
            },
            Read::Short => {
                return Read::Short;
            },
            Read::Bad => {
                return Read::Bad;
            },
        }
    }
    assert(acc@ + Seq::<ColumnData>::empty() =~= acc@);
    Read::Done(acc, off)
}


/// More bytes after a value that is whole do not change it.
pub proof fn lemma_column_value_extend(b: Seq<u8>, x: Seq<u8>, ti: TypeInfo)
    requires
        column_value(b, ti) is Some,
    ensures
        column_value(b + x, ti) == column_value(b, ti),
{
    let bx = b + x;
    let vn = column_value(b, ti)->0;
    let n = vn.1;
    assert(bx.subrange(0, n) =~= b.subrange(0, n));
    match ti.dtype_max_len {
        Some(TypeInfoVarLen::Byte(_)) => {
            assert(bx[0] == b[0]);
            assert(bx.subrange(1, n) =~= b.subrange(1, n));
        },
        Some(TypeInfoVarLen::Ushort(_)) => {
            assert(bx[0] == b[0]);
            assert(bx[1] == b[1]);
            assert(bx.subrange(2, n) =~= b.subrange(2, n));
        },
        Some(TypeInfoVarLen::Long(_)) => {
            assert(bx[0] == b[0]);
            assert(bx[1] == b[1]);
            assert(bx[2] == b[2]);
            assert(bx[3] == b[3]);
            assert(bx.subrange(4, n) =~= b.subrange(4, n));
        },
        None => {},
    }
}

/// More bytes after a TYPE_INFO that is read do not change its reading.
pub proof fn lemma_type_info_extend(b: Seq<u8>, x: Seq<u8>, off: int)
    requires
        !(type_info_at(b, off) is Short),
    ensures
        type_info_at(b + x, off) == type_info_at(b, off),
{
    let bx = b + x;
    assert(bx[off] == b[off]);
    if off + 1 < b.len() {
        assert(bx[off + 1] == b[off + 1]);
    }
    if off + 2 < b.len() {
        assert(bx[off + 2] == b[off + 2]);
    }
    if off + 3 < b.len() {
        assert(bx[off + 3] == b[off + 3]);
    }
    if off + 4 < b.len() {
        assert(bx[off + 4] == b[off + 4]);
    }
}

/// More bytes after a column description that is read do not change its reading.
pub proof fn lemma_column_extend(b: Seq<u8>, x: Seq<u8>, off: int)
    requires
        !(column_at(b, off) is Short),
    ensures
        column_at(b + x, off) == column_at(b, off),
{
    let bx = b + x;
    lemma_type_info_extend(b, x, off + 6);
    if let Parsed::Done(ti, e) = type_info_at(b, off + 6) {
        assert(bx[e] == b[e]);
    }
}

/// More bytes after column descriptions that are read do not change their reading.
pub proof fn lemma_columns_extend(b: Seq<u8>, x: Seq<u8>, off: int, k: nat)
    requires
        !(columns_at(b, off, k) is Short),
    ensures
        columns_at(b + x, off, k) == columns_at(b, off, k),
    decreases k,
{
    if k > 0 {
        lemma_column_extend(b, x, off);
        if let Parsed::Done(c, e) = column_at(b, off) {
            lemma_columns_extend(b, x, e, (k - 1) as nat);
        }
    }
}

/// More bytes after a COLMETADATA token that is read do not change its reading.
pub proof fn lemma_colmetadata_extend(b: Seq<u8>, x: Seq<u8>)
    requires
        !(colmetadata_at(b) is Short),
    ensures
        colmetadata_at(b + x) == colmetadata_at(b),
{
    let bx = b + x;
    assert(bx[1] == b[1]);
    assert(bx[2] == b[2]);
    if le_u16(b, 1) != 0xffff {
        lemma_columns_extend(b, x, 3, le_u16(b, 1) as nat);
    }
}

} // verus!
