//! The hash grouping kernel: partitions the rows of a block by the
//! values of a set of group-by columns. Two rows land in the same group
//! exactly when their values in every group-by column are equal, with a
//! missing value equal to a missing value — the key-purposes reading of
//! null, not the SQL comparison one. Each group also carries a stable
//! byte serialization of its key, length-prefixed for variable-width
//! types so that equal bytes mean equal values.

use vstd::prelude::*;
use vstd::string::StrSliceExecFns;

use crate::block::DataBlock;
use crate::columns::seq_dv_eq;
use crate::columns::DataColumn;
use crate::error::ErrorCode;
use crate::error::ErrorKind;
use crate::schema::field_index;
use crate::values::dv_eq;
use crate::values::val_equal;
use crate::values::DataType;
use crate::values::DataValue;

verus! {

/// The `n` low bytes of `x`, least significant first.
pub open spec fn le_bytes(x: u64, n: nat) -> Seq<u8> {
    Seq::new(n, |i: int| ((x >> ((8 * i) as u64)) & 0xff) as u8)
}

/// The byte serialization of one string, each character as four
/// little-endian bytes of its code point.
pub open spec fn chars_bytes(cs: Seq<char>) -> Seq<u8>
    decreases cs.len(),
{
    if cs.len() == 0 {
        Seq::empty()
    } else {
        chars_bytes(cs.drop_last()) + le_bytes(cs.last() as u64, 4)
    }
}

/// Which types may serve as group keys.
pub open spec fn spec_group_key_type_ok(t: DataType) -> bool {
    t.spec_is_comparable() || t == DataType::Null
}

pub fn group_key_type_ok(t: &DataType) -> (r: bool)
    ensures
        r == spec_group_key_type_ok(*t),
{
    t.is_comparable() || matches!(t, DataType::Null)
}

/// The byte serialization of one scalar: a presence byte, then for a
/// present value its fixed-width little-endian payload, or an 8-byte
/// length prefix followed by the payload for variable-width types.
pub open spec fn encode_value(v: DataValue) -> Seq<u8> {
    if v.spec_is_null() {
        seq![0u8]
    } else {
        seq![1u8] + (match v {
            DataValue::Boolean(Some(b)) => seq![
                if b {
                    1u8
                } else {
                    0u8
                },
            ],
            DataValue::Int8(Some(x)) => le_bytes(x as u64, 1),
            DataValue::Int16(Some(x)) => le_bytes(x as u64, 2),
            DataValue::Int32(Some(x)) => le_bytes(x as u64, 4),
            DataValue::Int64(Some(x)) => le_bytes(x as u64, 8),
            DataValue::UInt8(Some(x)) => le_bytes(x as u64, 1),
            DataValue::UInt16(Some(x)) => le_bytes(x as u64, 2),
            DataValue::UInt32(Some(x)) => le_bytes(x as u64, 4),
            DataValue::UInt64(Some(x)) => le_bytes(x, 8),
            DataValue::Utf8(Some(s)) => le_bytes(s@.len() as u64, 8) + chars_bytes(s@),
            DataValue::Binary(Some(b)) => le_bytes(b@.len() as u64, 8) + b@,
            DataValue::Date32(Some(x)) => le_bytes(x as u64, 4),
            DataValue::Date64(Some(x)) => le_bytes(x as u64, 8),
            _ => Seq::empty(),
        })
    }
}

/// The byte serialization of a key tuple: the values' serializations
/// in order.
pub open spec fn encode_key(vals: Seq<DataValue>) -> Seq<u8>
    decreases vals.len(),
{
    if vals.len() == 0 {
        Seq::empty()
    } else {
        encode_key(vals.drop_last()) + encode_value(vals.last())
    }
}

/// Appends the `n` low bytes of `x` to `out`, least significant first.
#[verifier::loop_isolation(false)]
pub fn push_le_bytes(out: &mut Vec<u8>, x: u64, n: usize)
    requires
        n <= 8,
    ensures
        final(out)@ == old(out)@ + le_bytes(x, n as nat),
{
    for i in 0..n
        invariant
            out@ =~= old(out)@ + le_bytes(x, n as nat).subrange(0, i as int),
    {
        let shift: u64 = (8 * i) as u64;
        let byte: u8 = ((x >> shift) & 0xff) as u8;
        out.push(byte);
        proof {
            assert(le_bytes(x, n as nat)[i as int] == byte);
            assert(old(out)@ + le_bytes(x, n as nat).subrange(0, i as int) + seq![byte] =~= old(
                out,
            )@ + le_bytes(x, n as nat).subrange(0, i + 1));
        }
    }
    proof {
        assert(le_bytes(x, n as nat).subrange(0, n as int) =~= le_bytes(x, n as nat));
    }
}

/// Appends the serialization of one scalar of a supported key type.
#[verifier::loop_isolation(false)]
pub fn concat_value_to_key(v: &DataValue, out: &mut Vec<u8>)
    requires
        spec_group_key_type_ok(v.spec_data_type()),
    ensures
        final(out)@ == old(out)@ + encode_value(*v),
{
    if v.is_null() {
        out.push(0u8);
        proof {
            assert(out@ =~= old(out)@ + encode_value(*v));
        }
        return ;
    }
    out.push(1u8);
    let ghost mid = out@;
    match v {
        DataValue::Boolean(Some(b)) => {
            out.push(
                if *b {
                    1u8
                } else {
                    0u8
                },
            );
        },
        DataValue::Int8(Some(x)) => push_le_bytes(out, *x as u64, 1),
        DataValue::Int16(Some(x)) => push_le_bytes(out, *x as u64, 2),
        DataValue::Int32(Some(x)) => push_le_bytes(out, *x as u64, 4),
        DataValue::Int64(Some(x)) => push_le_bytes(out, *x as u64, 8),
        DataValue::UInt8(Some(x)) => push_le_bytes(out, *x as u64, 1),
        DataValue::UInt16(Some(x)) => push_le_bytes(out, *x as u64, 2),
        DataValue::UInt32(Some(x)) => push_le_bytes(out, *x as u64, 4),
        DataValue::UInt64(Some(x)) => push_le_bytes(out, *x, 8),
        DataValue::Utf8(Some(s)) => {
            let len = s.as_str().unicode_len();
            push_le_bytes(out, len as u64, 8);
            let ghost base = out@;
            for i in 0..len
                invariant
                    len == s@.len(),
                    out@ =~= base + chars_bytes(s@.subrange(0, i as int)),
            {
                let c = s.as_str().get_char(i);
                push_le_bytes(out, c as u64, 4);
                proof {
                    assert(s@.subrange(0, i + 1).drop_last() =~= s@.subrange(0, i as int));
                    assert(s@.subrange(0, i + 1).last() == s@[i as int]);
                    assert(base + chars_bytes(s@.subrange(0, i as int)) + le_bytes(c as u64, 4)
                        =~= base + chars_bytes(s@.subrange(0, i + 1)));
                }
            }
            proof {
                assert(s@.subrange(0, len as int) =~= s@);
            }
        },
        DataValue::Binary(Some(b)) => {
            push_le_bytes(out, b.len() as u64, 8);
            let ghost base = out@;
            let n = b.len();
            for i in 0..n
                invariant
                    out@ =~= base + b@.subrange(0, i as int),
            {
                out.push(b[i]);
                proof {
                    assert(base + b@.subrange(0, i as int) + seq![b@[i as int]] =~= base
                        + b@.subrange(0, i + 1));
                }
            }
            proof {
                assert(b@.subrange(0, n as int) =~= b@);
            }
        },
        DataValue::Date32(Some(x)) => push_le_bytes(out, *x as u64, 4),
        DataValue::Date64(Some(x)) => push_le_bytes(out, *x as u64, 8),
        _ => {
            proof {
                assert(false);
            }
        },
    }
    proof {
        assert(out@ =~= old(out)@ + encode_value(*v));
    }
}

/// The serialization of a whole key tuple.
#[verifier::loop_isolation(false)]
pub fn encode_key_bytes(vals: &Vec<DataValue>) -> (out: Vec<u8>)
    requires
        forall|i: int|
            0 <= i < vals@.len() ==> spec_group_key_type_ok(
                (#[trigger] vals@[i]).spec_data_type(),
            ),
    ensures
        out@ == encode_key(vals@),
{
    let mut out: Vec<u8> = Vec::new();
    let n = vals.len();
    for i in 0..n
        invariant
            out@ =~= encode_key(vals@.subrange(0, i as int)),
    {
        concat_value_to_key(&vals[i], &mut out);
        proof {
            assert(vals@.subrange(0, i + 1).drop_last() =~= vals@.subrange(0, i as int));
            assert(vals@.subrange(0, i + 1).last() == vals@[i as int]);
        }
    }
    proof {
        assert(vals@.subrange(0, n as int) =~= vals@);
    }
    out
}

/// One group: its serialized key, the rows that belong to it in
/// ascending order, and its key values.
#[derive(Debug)]
pub struct GroupEntry {
    pub key: Vec<u8>,
    pub indices: Vec<u32>,
    pub values: Vec<DataValue>,
}

/// The table from group key to contributing rows and key values.
#[derive(Debug)]
pub struct GroupIndicesTable {
    pub entries: Vec<GroupEntry>,
}

/// The key tuple of one row across the group-by columns.
pub open spec fn row_key(gcols: Seq<Seq<DataValue>>, r: int) -> Seq<DataValue> {
    Seq::new(gcols.len(), |c: int| gcols[c][r])
}

/// The views of the columns that the given names select from a block.
pub open spec fn group_cols(block: DataBlock, names: Seq<String>) -> Seq<Seq<DataValue>> {
    Seq::new(
        names.len(),
        |c: int| block.cols()[field_index(block.spec_schema().spec_fields(), names[c]@)]@,
    )
}

/// Whether some group of the table contains the row.
pub open spec fn row_covered(entries: Seq<GroupEntry>, r: int) -> bool {
    exists|g: int, j: int|
        0 <= g < entries.len() && 0 <= j < entries[g].indices@.len() && (
        #[trigger] entries[g].indices@[j]) == r
}

/// What the grouping kernel guarantees of a finished table: non-empty
/// groups of in-range, strictly ascending rows; every member row's key
/// equal to the group's key values; pairwise distinct group keys; every
/// row covered; and the serialized key derived from the key values.
pub open spec fn group_table_wf(
    entries: Seq<GroupEntry>,
    gcols: Seq<Seq<DataValue>>,
    rows: nat,
) -> bool {
    &&& forall|g: int| 0 <= g < entries.len() ==> (#[trigger] entries[g]).indices@.len() > 0
    &&& forall|g: int, j: int|
        0 <= g < entries.len() && 0 <= j < entries[g].indices@.len() ==> (
        #[trigger] entries[g].indices@[j]) < rows
    &&& forall|g: int, j1: int, j2: int|
        0 <= g < entries.len() && 0 <= j1 < j2 < entries[g].indices@.len()
            ==> #[trigger] entries[g].indices@[j1] < #[trigger] entries[g].indices@[j2]
    &&& forall|g: int, j: int|
        0 <= g < entries.len() && 0 <= j < entries[g].indices@.len() ==> seq_dv_eq(
            row_key(gcols, #[trigger] entries[g].indices@[j] as int),
            entries[g].values@,
        )
    &&& forall|g1: int, g2: int|
        0 <= g1 < g2 < entries.len() ==> !seq_dv_eq(
            (#[trigger] entries[g1]).values@,
            (#[trigger] entries[g2]).values@,
        )
    &&& forall|r: int| 0 <= r < rows ==> #[trigger] row_covered(entries, r)
    &&& forall|g: int|
        0 <= g < entries.len() ==> (#[trigger] entries[g]).key@ == encode_key(entries[g].values@)
}

/// One produced group: its serialized key, its key values, and the
/// sub-block holding exactly its rows.
#[derive(Debug)]
pub struct GroupBlock {
    pub key: Vec<u8>,
    pub values: Vec<DataValue>,
    pub block: DataBlock,
}

/// One produced group under a combined-hash label. The label is only a
/// label: groups are told apart by their key values, never by the hash.
#[derive(Debug)]
pub struct HashGroupBlock {
    pub hash: u64,
    pub values: Vec<DataValue>,
    pub block: DataBlock,
}

/// What `group_by` and `group_by_version` guarantee of their output,
/// relative to a witness grouping table: one output group per table
/// entry, carrying the entry's key values and a sub-block whose rows
/// are the entry's rows of the input block, in order.
pub open spec fn grouped_blocks_ok(
    t: Seq<GroupEntry>,
    values: Seq<Seq<DataValue>>,
    blocks: Seq<DataBlock>,
    src: DataBlock,
) -> bool {
    &&& values.len() == t.len()
    &&& blocks.len() == t.len()
    &&& forall|g: int| 0 <= g < t.len() ==> (#[trigger] values[g]) == t[g].values@
    &&& forall|g: int|
        0 <= g < t.len() ==> (#[trigger] blocks[g]).wf() && blocks[g].spec_rows()
            == t[g].indices@.len() && blocks[g].cols().len() == src.cols().len()
    &&& forall|g: int, c: int, j: int|
        #![trigger blocks[g].cols()[c]@[j]]
        0 <= g < t.len() && 0 <= c < src.cols().len() && 0 <= j < t[g].indices@.len() ==> dv_eq(
            blocks[g].cols()[c]@[j],
            src.cols()[c]@[t[g].indices@[j] as int],
        )
}

/// Whether the named group-by columns exist and have key-capable types.
pub open spec fn group_args_ok(block: DataBlock, names: Seq<String>) -> bool {
    forall|c: int|
        0 <= c < names.len() ==> field_index(block.spec_schema().spec_fields(), (#[trigger] names[c])@)
            >= 0 && spec_group_key_type_ok(
            block.cols()[field_index(block.spec_schema().spec_fields(), names[c]@)].spec_data_type(),
        )
}

/// The distinct key tuples met so far, and the values of the current row.
#[verifier::loop_isolation(false)]
fn row_key_values(sel: &Vec<&DataColumn>, r: usize) -> (out: Vec<DataValue>)
    requires
        forall|c: int| 0 <= c < sel@.len() ==> r < (#[trigger] sel@[c])@.len(),
    ensures
        out@.len() == sel@.len(),
        forall|c: int| 0 <= c < sel@.len() ==> dv_eq(#[trigger] out@[c], sel@[c]@[r as int]),
        forall|c: int|
            0 <= c < sel@.len() ==> (#[trigger] out@[c]).spec_data_type()
                == sel@[c]@[r as int].spec_data_type(),
{
    let mut out: Vec<DataValue> = Vec::new();
    let n = sel.len();
    for c in 0..n
        invariant
            out@.len() == c,
            forall|c2: int| 0 <= c2 < c ==> dv_eq(#[trigger] out@[c2], sel@[c2]@[r as int]),
            forall|c2: int|
                0 <= c2 < c ==> (#[trigger] out@[c2]).spec_data_type()
                    == sel@[c2]@[r as int].spec_data_type(),
    {
        let v = sel[c].get(r).duplicate();
        proof {
            crate::values::lemma_dv_eq_same_type(v, sel@[c as int]@[r as int]);
        }
        out.push(v);
    }
    out
}

/// A row covered by some group stays covered when a group is appended.
proof fn lemma_row_covered_push(entries: Seq<GroupEntry>, e: GroupEntry, r: int)
    requires
        row_covered(entries, r),
    ensures
        row_covered(entries.push(e), r),
{
    let (g, j): (int, int) = choose|g: int, j: int|
        0 <= g < entries.len() && 0 <= j < entries[g].indices@.len() && (
        #[trigger] entries[g].indices@[j]) == r;
    assert(entries.push(e)[g] == entries[g]);
    assert(entries.push(e)[g].indices@[j] == r);
}

/// The first stored key tuple equal to the current one, if any.
#[verifier::loop_isolation(false)]
fn find_key(keys: &Vec<Vec<DataValue>>, cur: &Vec<DataValue>) -> (res: Option<usize>)
    ensures
        (match res {
            Some(g) => g < keys@.len() && seq_dv_eq(keys@[g as int]@, cur@),
            None => forall|g: int| 0 <= g < keys@.len() ==> !seq_dv_eq((#[trigger] keys@[g])@, cur@),
        }),
{
    let n = keys.len();
    for g in 0..n
        invariant
            forall|g2: int| 0 <= g2 < g ==> !seq_dv_eq((#[trigger] keys@[g2])@, cur@),
    {
        if DataBlock::check_key_equal(&keys[g], cur) {
            return Some(g);
        }
    }
    None
}

impl DataBlock {
    /// Builds the mapping from group key to contributing row indices:
    /// a partition of the block's rows in which two rows share a group
    /// exactly when their group-by values are equal, null equalling
    /// null.
    #[verifier::loop_isolation(false)]
    pub fn group_by_get_indices(block: &DataBlock, column_names: &Vec<String>) -> (res: Result<
        GroupIndicesTable,
        ErrorCode,
    >)
        requires
            block.wf(),
        ensures
            (match res {
                Ok(table) => group_args_ok(*block, column_names@) && block.spec_rows() <= u32::MAX
                    && group_table_wf(
                    table.entries@,
                    group_cols(*block, column_names@),
                    block.spec_rows(),
                ),
                Err(_) => !(group_args_ok(*block, column_names@) && block.spec_rows()
                    <= u32::MAX),
            }),
    {
        broadcast use vstd::seq_lib::group_seq_properties;

        let ghost gcols = group_cols(*block, column_names@);
        let rows = block.num_rows();
        if rows > 0xffff_ffffusize {
            return Err(
                ErrorCode::bad_arguments(
                    "the block has more rows than a group can index".to_owned(),
                ),
            );
        }
        // 1. Get the group-by columns.
        let mut sel: Vec<&DataColumn> = Vec::new();
        let ncols = column_names.len();
        for c in 0..ncols
            invariant
                sel@.len() == c,
                forall|c2: int|
                    0 <= c2 < c ==> field_index(
                        block.spec_schema().spec_fields(),
                        (#[trigger] column_names@[c2])@,
                    ) >= 0,
                forall|c2: int| 0 <= c2 < c ==> (#[trigger] sel@[c2])@ == gcols[c2],
                forall|c2: int|
                    0 <= c2 < c ==> spec_group_key_type_ok((#[trigger] sel@[c2]).spec_data_type()),
                forall|c2: int| 0 <= c2 < c ==> (#[trigger] sel@[c2])@.len() == rows,
                forall|c2: int| 0 <= c2 < c ==> (#[trigger] sel@[c2]).wf(),
                forall|c2: int|
                    0 <= c2 < c ==> (#[trigger] sel@[c2]).spec_data_type() == block.cols()[
                        field_index(block.spec_schema().spec_fields(), column_names@[c2]@)
                    ].spec_data_type(),
        {
            let col = match block.try_column_by_name(&column_names[c]) {
                Ok(col) => col,
                Err(e) => {
                    proof {
                        assert(!group_args_ok(*block, column_names@));
                    }
                    return Err(e);
                },
            };
            proof {
                crate::schema::lemma_field_index_valid(
                    block.spec_schema().spec_fields(),
                    column_names@[c as int]@,
                );
            }
            let ct = col.data_type();
            if !group_key_type_ok(&ct) {
                proof {
                    assert(!group_args_ok(*block, column_names@));
                }
                return Err(
                    ErrorCode::bad_data_value_type(
                        "this column type cannot serve as a group key".to_owned(),
                    ),
                );
            }
            sel.push(col);
        }
        // 2. One pass over the rows: assign each row the number of its
        // group, discovering the distinct key tuples in order and
        // remembering each one's first row.
        let mut keyvecs: Vec<Vec<DataValue>> = Vec::new();
        let mut firstrow: Vec<usize> = Vec::new();
        let mut gids: Vec<usize> = Vec::new();
        for r in 0..rows
            invariant
                gids@.len() == r,
                firstrow@.len() == keyvecs@.len(),
                forall|r2: int| 0 <= r2 < r ==> (#[trigger] gids@[r2]) < keyvecs@.len(),
                forall|r2: int|
                    0 <= r2 < r ==> seq_dv_eq(
                        row_key(gcols, r2),
                        keyvecs@[(#[trigger] gids@[r2]) as int]@,
                    ),
                forall|g1: int, g2: int|
                    0 <= g1 < g2 < keyvecs@.len() ==> !seq_dv_eq(
                        (#[trigger] keyvecs@[g1])@,
                        (#[trigger] keyvecs@[g2])@,
                    ),
                forall|g: int|
                    0 <= g < keyvecs@.len() ==> (#[trigger] firstrow@[g]) < r && gids@[firstrow@[g] as int]
                        == g,
                forall|g: int| 0 <= g < keyvecs@.len() ==> (#[trigger] keyvecs@[g])@.len() == ncols,
                forall|g: int, c: int|
                    0 <= g < keyvecs@.len() && 0 <= c < ncols ==> spec_group_key_type_ok(
                        (#[trigger] keyvecs@[g]@[c]).spec_data_type(),
                    ),
        {
            let cur = row_key_values(&sel, r);
            proof {
                assert(seq_dv_eq(cur@, row_key(gcols, r as int))) by {
                    assert(row_key(gcols, r as int).len() == ncols);
                    assert forall|c: int| 0 <= c < ncols implies dv_eq(
                        #[trigger] cur@[c],
                        row_key(gcols, r as int)[c],
                    ) by {
                        assert(gcols[c] == sel@[c]@);
                    }
                }
                assert(seq_dv_eq(row_key(gcols, r as int), cur@)) by {
                    crate::columns::lemma_seq_dv_eq_symm(cur@, row_key(gcols, r as int));
                }
                assert forall|c: int| 0 <= c < ncols implies spec_group_key_type_ok(
                    (#[trigger] cur@[c]).spec_data_type(),
                ) by {
                    assert(cur@[c].spec_data_type() == sel@[c]@[r as int].spec_data_type());
                    crate::columns::lemma_column_element_type(*sel@[c], r as int);
                }
            }
            match find_key(&keyvecs, &cur) {
                Some(g) => {
                    proof {
                        crate::columns::lemma_seq_dv_eq_symm(keyvecs@[g as int]@, cur@);
                        crate::columns::lemma_seq_dv_eq_trans(
                            row_key(gcols, r as int),
                            cur@,
                            keyvecs@[g as int]@,
                        );
                    }
                    gids.push(g);
                },
                None => {
                    let g = keyvecs.len();
                    keyvecs.push(cur);
                    firstrow.push(r);
                    proof {
                        crate::columns::lemma_seq_dv_eq_refl(keyvecs@[g as int]@);
                    }
                    gids.push(g);
                },
            }
        }
        // 3. Gather each group's rows, in ascending order.
        let ghost keyseq = keyvecs@;
        let ng = keyvecs.len();
        let mut keyrest = keyvecs;
        let mut entries: Vec<GroupEntry> = Vec::new();
        for g in 0..ng
            invariant
                keyrest@ =~= keyseq.skip(g as int),
                entries@.len() == g,
                forall|g2: int| 0 <= g2 < g ==> (#[trigger] entries@[g2]).values@ == keyseq[g2]@,
                forall|g2: int|
                    0 <= g2 < g ==> (#[trigger] entries@[g2]).key@ == encode_key(keyseq[g2]@),
                forall|g2: int| 0 <= g2 < g ==> (#[trigger] entries@[g2]).indices@.len() > 0,
                forall|g2: int, j: int|
                    0 <= g2 < g && 0 <= j < entries@[g2].indices@.len() ==> (
                    #[trigger] entries@[g2].indices@[j]) < rows,
                forall|g2: int, j1: int, j2: int|
                    0 <= g2 < g && 0 <= j1 < j2 < entries@[g2].indices@.len()
                        ==> #[trigger] entries@[g2].indices@[j1]
                        < #[trigger] entries@[g2].indices@[j2],
                forall|g2: int, j: int|
                    0 <= g2 < g && 0 <= j < entries@[g2].indices@.len() ==> gids@[(
                    #[trigger] entries@[g2].indices@[j]) as int] == g2,
                forall|r2: int|
                    0 <= r2 < rows && (#[trigger] gids@[r2]) < g ==> row_covered(entries@, r2),
        {
            let vals = keyrest.remove(0);
            proof {
                assert(keyseq.skip(g as int)[0] == keyseq[g as int]);
                assert(keyseq.skip(g as int).remove(0) =~= keyseq.skip(g + 1));
            }
            let mut idxs: Vec<u32> = Vec::new();
            for r in 0..rows
                invariant
                    forall|j: int|
                        0 <= j < idxs@.len() ==> (#[trigger] idxs@[j]) < r && gids@[idxs@[j] as int]
                            == g,
                    forall|j1: int, j2: int|
                        0 <= j1 < j2 < idxs@.len() ==> #[trigger] idxs@[j1] < #[trigger] idxs@[j2],
                    forall|r2: int|
                        0 <= r2 < r && (#[trigger] gids@[r2]) == g ==> idxs@.contains(r2 as u32),
            {
                if gids[r] == g {
                    idxs.push(r as u32);
                    proof {
                        assert(idxs@[idxs@.len() - 1] == r as u32);
                    }
                }

            }
            proof {
                let fr = firstrow@[g as int] as int;
                assert(gids@[fr] == g);
                assert(idxs@.contains(fr as u32));
                assert(idxs@.len() > 0);
            }
            let key = encode_key_bytes(&vals);
            let ghost entries0 = entries@;
            entries.push(GroupEntry { key, indices: idxs, values: vals });
            proof {
                assert forall|r2: int|
                    0 <= r2 < rows && (#[trigger] gids@[r2]) < g + 1 implies row_covered(
                    entries@,
                    r2,
                ) by {
                    if gids@[r2] < g {
                        lemma_row_covered_push(entries0, entries@[g as int], r2);
                        assert(entries0.push(entries@[g as int]) =~= entries@);
                    } else {
                        let j = choose|j: int|
                            0 <= j < entries@[g as int].indices@.len() && (
                            #[trigger] entries@[g as int].indices@[j]) == r2 as u32;
                        assert(row_covered(entries@, r2));
                    }
                }
            }
        }
        let table = GroupIndicesTable { entries };
        proof {
            assert forall|c: int| 0 <= c < column_names@.len() implies field_index(
                block.spec_schema().spec_fields(),
                (#[trigger] column_names@[c])@,
            ) >= 0 && spec_group_key_type_ok(
                block.cols()[field_index(block.spec_schema().spec_fields(), column_names@[c]@)].spec_data_type(),
            ) by {
                assert(sel@[c].spec_data_type() == block.cols()[field_index(
                    block.spec_schema().spec_fields(),
                    column_names@[c]@,
                )].spec_data_type());
            }
            assert forall|r: int| 0 <= r < rows implies #[trigger] row_covered(
                table.entries@,
                r,
            ) by {
                assert(gids@[r] < ng);
            }
            assert forall|g: int, j: int|
                0 <= g < table.entries@.len() && 0 <= j
                    < table.entries@[g].indices@.len() implies seq_dv_eq(
                row_key(gcols, #[trigger] table.entries@[g].indices@[j] as int),
                table.entries@[g].values@,
            ) by {
                let r2 = table.entries@[g].indices@[j] as int;
                assert(gids@[r2] == g);
                assert(seq_dv_eq(row_key(gcols, r2), keyseq[g]@));
            }
        }
        Ok(table)
    }


    /// Groups the block's rows by the named columns and slices the
    /// block into one sub-block per group.
    #[verifier::loop_isolation(false)]
    pub fn group_by(block: &DataBlock, column_names: &Vec<String>) -> (res: Result<
        Vec<GroupBlock>,
        ErrorCode,
    >)
        requires
            block.wf(),
        ensures
            (match res {
                Ok(out) => group_args_ok(*block, column_names@) && block.spec_rows() <= u32::MAX
                    && (exists|t: Seq<GroupEntry>|
                    {
                        &&& #[trigger] group_table_wf(
                            t,
                            group_cols(*block, column_names@),
                            block.spec_rows(),
                        )
                        &&& grouped_blocks_ok(
                            t,
                            Seq::new(out@.len() as nat, |g: int| out@[g].values@),
                            Seq::new(out@.len() as nat, |g: int| out@[g].block),
                            *block,
                        )
                        &&& out@.len() == t.len()
                        &&& forall|g: int| 0 <= g < t.len() ==> (#[trigger] out@[g]).key@ == t[g].key@
                    }),
                Err(_) => !(group_args_ok(*block, column_names@) && block.spec_rows()
                    <= u32::MAX),
            }),
    {
        let table = match Self::group_by_get_indices(block, column_names) {
            Ok(table) => table,
            Err(e) => {
                return Err(e);
            },
        };
        let ghost tseq = table.entries@;
        let ng = table.entries.len();
        let mut rest = table.entries;
        let mut out: Vec<GroupBlock> = Vec::new();
        for g in 0..ng
            invariant
                rest@ =~= tseq.skip(g as int),
                out@.len() == g,
                forall|g2: int|
                    0 <= g2 < g ==> (#[trigger] out@[g2]).key@ == tseq[g2].key@ && out@[g2].values@
                        == tseq[g2].values@,
                forall|g2: int|
                    0 <= g2 < g ==> (#[trigger] out@[g2]).block.wf() && out@[g2].block.spec_rows()
                        == tseq[g2].indices@.len() && out@[g2].block.cols().len()
                        == block.cols().len(),
                forall|g2: int, c: int, j: int|
                    #![trigger out@[g2].block.cols()[c]@[j]]
                    0 <= g2 < g && 0 <= c < block.cols().len() && 0 <= j < tseq[g2].indices@.len()
                        ==> dv_eq(
                        out@[g2].block.cols()[c]@[j],
                        block.cols()[c]@[tseq[g2].indices@[j] as int],
                    ),
        {
            let entry = rest.remove(0);
            proof {
                assert(tseq.skip(g as int)[0] == tseq[g as int]);
                assert(tseq.skip(g as int).remove(0) =~= tseq.skip(g + 1));
            }
            let taken = match Self::block_take_by_indices(block, &entry.indices) {
                Ok(b) => b,
                Err(e) => {
                    proof {
                        assert(false);
                    }
                    return Err(e);
                },
            };
            out.push(GroupBlock { key: entry.key, values: entry.values, block: taken });
        }
        proof {
            assert(grouped_blocks_ok(
                tseq,
                Seq::new(out@.len() as nat, |g: int| out@[g].values@),
                Seq::new(out@.len() as nat, |g: int| out@[g].block),
                *block,
            ));
        }
        Ok(out)
    }

    /// Groups the block's rows by the named columns, labelling each
    /// group with a combined hash of its key values. The hash only
    /// labels: groups are identified by comparing the actual key
    /// values, so two keys that collide in the hash are never merged.
    #[verifier::loop_isolation(false)]
    pub fn group_by_version(
        block: &DataBlock,
        column_names: &Vec<String>,
        hash_group_names: &Vec<String>,
    ) -> (res: Result<Vec<HashGroupBlock>, ErrorCode>)
        requires
            block.wf(),
        ensures
            (match res {
                Ok(out) => group_args_ok(*block, column_names@) && block.spec_rows() <= u32::MAX
                    && (forall|c: int|
                    0 <= c < hash_group_names@.len() ==> field_index(
                        block.spec_schema().spec_fields(),
                        (#[trigger] hash_group_names@[c])@,
                    ) >= 0) && (exists|t: Seq<GroupEntry>|
                    {
                        &&& #[trigger] group_table_wf(
                            t,
                            group_cols(*block, column_names@),
                            block.spec_rows(),
                        )
                        &&& grouped_blocks_ok(
                            t,
                            Seq::new(out@.len() as nat, |g: int| out@[g].values@),
                            Seq::new(out@.len() as nat, |g: int| out@[g].block),
                            *block,
                        )
                        &&& out@.len() == t.len()
                    }),
                Err(_) => !(group_args_ok(*block, column_names@) && block.spec_rows() <= u32::MAX
                    && (forall|c: int|
                    0 <= c < hash_group_names@.len() ==> field_index(
                        block.spec_schema().spec_fields(),
                        (#[trigger] hash_group_names@[c])@,
                    ) >= 0)),
            }),
    {
        let nhash = hash_group_names.len();
        for c in 0..nhash
            invariant
                forall|c2: int|
                    0 <= c2 < c ==> field_index(
                        block.spec_schema().spec_fields(),
                        (#[trigger] hash_group_names@[c2])@,
                    ) >= 0,
        {
            match block.try_column_by_name(&hash_group_names[c]) {
                Ok(_) => {},
                Err(e) => {
                    return Err(e);
                },
            }
        }
        let table = match Self::group_by_get_indices(block, column_names) {
            Ok(table) => table,
            Err(e) => {
                return Err(e);
            },
        };
        let hasher = crate::rowhash::RowHasher::new();
        let ghost tseq = table.entries@;
        let ng = table.entries.len();
        let mut rest = table.entries;
        let mut out: Vec<HashGroupBlock> = Vec::new();
        for g in 0..ng
            invariant
                rest@ =~= tseq.skip(g as int),
                out@.len() == g,
                forall|g2: int| 0 <= g2 < g ==> (#[trigger] out@[g2]).values@ == tseq[g2].values@,
                forall|g2: int|
                    0 <= g2 < g ==> (#[trigger] out@[g2]).block.wf() && out@[g2].block.spec_rows()
                        == tseq[g2].indices@.len() && out@[g2].block.cols().len()
                        == block.cols().len(),
                forall|g2: int, c: int, j: int|
                    #![trigger out@[g2].block.cols()[c]@[j]]
                    0 <= g2 < g && 0 <= c < block.cols().len() && 0 <= j < tseq[g2].indices@.len()
                        ==> dv_eq(
                        out@[g2].block.cols()[c]@[j],
                        block.cols()[c]@[tseq[g2].indices@[j] as int],
                    ),
        {
            let entry = rest.remove(0);
            proof {
                assert(tseq.skip(g as int)[0] == tseq[g as int]);
                assert(tseq.skip(g as int).remove(0) =~= tseq.skip(g + 1));
            }
            let hash: u64 = crate::rowhash::combine_hashes(hasher.hash_bytes(&entry.key), 0);
            let taken = match Self::block_take_by_indices(block, &entry.indices) {
                Ok(b) => b,
                Err(e) => {
                    proof {
                        assert(false);
                    }
                    return Err(e);
                },
            };
            out.push(HashGroupBlock { hash, values: entry.values, block: taken });
        }
        proof {
            assert(grouped_blocks_ok(
                tseq,
                Seq::new(out@.len() as nat, |g: int| out@[g].values@),
                Seq::new(out@.len() as nat, |g: int| out@[g].block),
                *block,
            ));
        }
        Ok(out)
    }

    /// Whether two key tuples agree in every position, a missing value
    /// agreeing with a missing value.
    pub fn check_key_equal(first: &Vec<DataValue>, second: &Vec<DataValue>) -> (r: bool)
        ensures
            r == seq_dv_eq(first@, second@),
    {
        if first.len() != second.len() {
            return false;
        }
        let n = first.len();
        for i in 0..n
            invariant
                n == first@.len() && n == second@.len(),
                forall|j: int| 0 <= j < i ==> dv_eq(#[trigger] first@[j], second@[j]),
        {
            if !val_equal(&first[i], &second[i]) {
                return false;
            }
        }
        true
    }
}

} // verus!
