use vstd::prelude::*;

use crate::columnar::{batch_wf, ColumnArray, ColumnArrayV, RecordBatch, RecordBatchV};
use crate::row_codec::{CellKind, Data, DataV};

verus! {

/// A value capped at the largest `u64`.
pub open spec fn cap64(n: nat) -> u64 {
    if n > u64::MAX {
        u64::MAX
    } else {
        n as u64
    }
}

/// The bytes one cell of a fixed-width tag occupies in the in-memory model:
/// the width of its carrier.
pub open spec fn kind_width(k: CellKind) -> nat {
    match k {
        CellKind::Bool => 1,
        CellKind::Int8 => 1,
        CellKind::UInt8 => 1,
        CellKind::Int16 => 2,
        CellKind::UInt16 => 2,
        CellKind::Int32 => 4,
        CellKind::UInt32 => 4,
        CellKind::Int64 => 8,
        CellKind::UInt64 => 8,
        CellKind::Varchar => 0,
        CellKind::Date => 4,
        CellKind::Timestamp => 8,
    }
}

/// The characters the string cells of a column hold, in all.
pub open spec fn varchar_bytes(cells: Seq<DataV>) -> nat
    decreases cells.len(),
{
    if cells.len() == 0 {
        0
    } else {
        varchar_bytes(cells.drop_last()) + match cells.last() {
            DataV::Varchar(s) => s.len(),
            _ => 0,
        }
    }
}

/// The approximate in-memory footprint of one column array: its cell count
/// times its carrier width, or the total text held for string columns.
pub open spec fn array_footprint(c: ColumnArrayV) -> nat {
    if c.kind == CellKind::Varchar {
        varchar_bytes(c.cells)
    } else {
        c.cells.len() * kind_width(c.kind)
    }
}

/// The approximate in-memory footprint of a whole batch: the sum of its
/// columns' footprints.
pub open spec fn batch_footprint(cols: Seq<ColumnArrayV>) -> nat
    decreases cols.len(),
{
    if cols.len() == 0 {
        0
    } else {
        batch_footprint(cols.drop_last()) + array_footprint(cols.last())
    }
}

impl ColumnArray {
    /// The approximate in-memory footprint of the array, saturating at the
    /// largest `u64`.
    pub fn get_array_memory_size(&self) -> (r: u64)
        ensures
            r == cap64(array_footprint(self@)),
    {
        match self {
            ColumnArray::Bool(v) => v.len() as u64,
            ColumnArray::Int8(v) => v.len() as u64,
            ColumnArray::UInt8(v) => v.len() as u64,
            ColumnArray::Int16(v) => scaled_size(v.len(), 2),
            ColumnArray::UInt16(v) => scaled_size(v.len(), 2),
            ColumnArray::Int32(v) => scaled_size(v.len(), 4),
            ColumnArray::Int64(v) => scaled_size(v.len(), 8),
            ColumnArray::UInt64(v) => scaled_size(v.len(), 8),
            ColumnArray::Date(v) => scaled_size(v.len(), 4),
            ColumnArray::TimestampMills(v) => scaled_size(v.len(), 8),
            ColumnArray::Str(v) => {
                let n = v.len();
                let ghost cells = self@.cells;
                let mut acc: u64 = 0;
                let mut i: usize = 0;
                proof {
                    assert(cells.take(0) =~= Seq::<DataV>::empty());
                }
                while i < n
                    invariant
                        i <= n,
                        acc == cap64(varchar_bytes(cells.take(i as int))),
                    decreases n - i,
                {
                    let l = v[i].as_str().unicode_len() as u64;
                    proof {
                        assert(cells.take(i as int + 1).drop_last() =~= cells.take(i as int));
                        assert(cells.take(i as int + 1).last() == cells[i as int]);
                        assert(cells[i as int] == DataV::Varchar(v@[i as int]@));
                    }
                    acc = acc.saturating_add(l);
                    i += 1;
                }
                proof {
                    assert(cells.take(n as int) =~= cells);
                }
                acc
            },
        }
    }
}

/// A length capped via a checked product with a small constant width.
fn scaled_size(len: usize, width: u64) -> (r: u64)
    ensures
        r == cap64(len as nat * width as nat),
{
    match (len as u64).checked_mul(width) {
        Some(x) => x,
        None => u64::MAX,
    }
}

/// Mathematical value of a [`PartitionedFile`].
#[verifier::ext_equal]
pub struct PartitionedFileV {
    pub path: Seq<char>,
    pub size: u64,
    pub partition_values: Seq<DataV>,
}

/// A virtual file descriptor handed to the query planner: an in-memory slice
/// of data described as if it were an addressable file partition. No
/// physical location is ever assigned here, and no byte range is carried.
pub struct PartitionedFile {
    pub path: String,
    pub size: u64,
    pub partition_values: Vec<Data>,
}

impl View for PartitionedFile {
    type V = PartitionedFileV;

    open spec fn view(&self) -> PartitionedFileV {
        PartitionedFileV {
            path: self.path@,
            size: self.size,
            partition_values: self.partition_values@.map_values(|d: Data| d@),
        }
    }
}

/// The descriptor of row `r` of a batch: an empty path, the whole batch's
/// footprint as its size (size approximates batch cost, not row cost), and
/// one value per column extracted at that row.
pub open spec fn descriptor_of(b: RecordBatchV, r: int) -> PartitionedFileV {
    PartitionedFileV {
        path: Seq::empty(),
        size: cap64(batch_footprint(b.columns)),
        partition_values: Seq::new(b.columns.len() as nat, |c: int| b.columns[c].cells[r]),
    }
}

/// One descriptor per row of the batch, in row order.
pub open spec fn batch_descriptors(b: RecordBatchV) -> Seq<PartitionedFileV> {
    Seq::new(b.row_count, |r: int| descriptor_of(b, r))
}

/// One descriptor per row of every batch: batch order, then row order.
pub open spec fn all_descriptors(bs: Seq<RecordBatchV>) -> Seq<PartitionedFileV>
    decreases bs.len(),
{
    if bs.len() == 0 {
        Seq::empty()
    } else {
        batch_descriptors(bs.first()) + all_descriptors(bs.drop_first())
    }
}

proof fn lemma_all_descriptors_take_succ(bs: Seq<RecordBatchV>, i: int)
    requires
        0 <= i < bs.len(),
    ensures
        all_descriptors(bs.take(i + 1)) == all_descriptors(bs.take(i)) + batch_descriptors(bs[i]),
    decreases i,
{
    if i == 0 {
        assert(bs.take(0) =~= Seq::<RecordBatchV>::empty());
        assert(bs.take(1).drop_first() =~= Seq::<RecordBatchV>::empty());
        assert(bs.take(1).first() == bs[0]);
        assert(all_descriptors(bs.take(1)) == batch_descriptors(bs[0]) + all_descriptors(
            Seq::empty(),
        ));
        assert(all_descriptors(bs.take(0)) + batch_descriptors(bs[0]) =~= batch_descriptors(bs[0])
            + all_descriptors(Seq::empty()));
    } else {
        let t = bs.drop_first();
        lemma_all_descriptors_take_succ(t, i - 1);
        assert(bs.take(i + 1).first() == bs[0]);
        assert(bs.take(i + 1).drop_first() =~= t.take(i));
        assert(bs.take(i).first() == bs[0]);
        assert(bs.take(i).drop_first() =~= t.take(i - 1));
        assert(all_descriptors(bs.take(i + 1)) == batch_descriptors(bs[0]) + (all_descriptors(
            t.take(i - 1),
        ) + batch_descriptors(t[i - 1])));
        assert(batch_descriptors(bs[0]) + (all_descriptors(t.take(i - 1)) + batch_descriptors(
            t[i - 1],
        )) =~= (batch_descriptors(bs[0]) + all_descriptors(t.take(i - 1))) + batch_descriptors(
            t[i - 1],
        ));
        assert(bs[i] == t[i - 1]);
    }
}

/// Converts finalized columnar batches into the query planner's listing of
/// per-row virtual file descriptors, one per row, in batch order then row
/// order; see [`descriptor_of`] for what each carries. Touches no physical
/// storage.
pub fn batches_to_paths(batches: &Vec<RecordBatch>) -> (r: Vec<PartitionedFile>)
    requires
        forall|b: int| 0 <= b < batches@.len() ==> batch_wf((#[trigger] batches@[b])@),
    ensures
        r@.map_values(|p: PartitionedFile| p@) == all_descriptors(
            batches@.map_values(|b: RecordBatch| b@),
        ),
{
    let ghost bsv = batches@.map_values(|b: RecordBatch| b@);
    let mut out: Vec<PartitionedFile> = Vec::new();
    proof {
        assert(bsv.take(0) =~= Seq::<RecordBatchV>::empty());
        assert(out@.map_values(|p: PartitionedFile| p@) =~= all_descriptors(bsv.take(0)));
    }
    let nb = batches.len();
    let mut bi: usize = 0;
    while bi < nb
        invariant
            bi <= nb,
            out@.map_values(|p: PartitionedFile| p@) == all_descriptors(bsv.take(bi as int)),
        decreases nb - bi,
    {
        let batch = &batches[bi];
        proof {
            assert(bsv[bi as int] == batch@);
            assert(batch_wf(batch@));
        }
        let nrows = batch.num_rows();
        let ncols = batch.columns().len();
        // The size every descriptor of this batch carries: the whole batch's
        // footprint, capped.
        let mut size: u64 = 0;
        let ghost colsv = batch@.columns;
        proof {
            assert(colsv.take(0) =~= Seq::<ColumnArrayV>::empty());
        }
        let mut ci: usize = 0;
        while ci < ncols
            invariant
                ci <= ncols,
                ncols == colsv.len(),
                size == cap64(batch_footprint(colsv.take(ci as int))),
            decreases ncols - ci,
        {
            let s = batch.column(ci).get_array_memory_size();
            proof {
                assert(colsv.take(ci as int + 1).drop_last() =~= colsv.take(ci as int));
                assert(colsv.take(ci as int + 1).last() == colsv[ci as int]);
            }
            size = size.saturating_add(s);
            ci += 1;
        }
        proof {
            assert(colsv.take(ncols as int) =~= colsv);
        }
        let ghost base = out@.map_values(|p: PartitionedFile| p@);
        let mut row: usize = 0;
        while row < nrows
            invariant
                row <= nrows,
                out@.map_values(|p: PartitionedFile| p@) == base + Seq::new(
                    row as nat,
                    |r2: int| descriptor_of(bsv[bi as int], r2),
                ),
            decreases nrows - row,
        {
            let mut partition_values: Vec<Data> = Vec::new();
            let mut col: usize = 0;
            while col < ncols
                invariant
                    col <= ncols,
                    partition_values@.len() == col,
                    forall|c: int|
                        0 <= c < col ==> (#[trigger] partition_values@[c])@
                            == colsv[c].cells[row as int],
                decreases ncols - col,
            {
                let d = batch.column(col).value_at(row);
                partition_values.push(d);
                col += 1;
            }
            let ghost prev = out@.map_values(|p: PartitionedFile| p@);
            let p = PartitionedFile { path: String::new(), size, partition_values };
            proof {
                assert(p@ =~= descriptor_of(bsv[bi as int], row as int)) by {
                    assert(p@.partition_values =~= Seq::new(
                        colsv.len() as nat,
                        |c: int| colsv[c].cells[row as int],
                    ));
                }
            }
            let ghost pv = p@;
            out.push(p);
            proof {
                assert(out@.map_values(|p2: PartitionedFile| p2@) =~= prev.push(pv));
                assert(out@.map_values(|p2: PartitionedFile| p2@) =~= base + Seq::new(
                    row as nat + 1,
                    |r2: int| descriptor_of(bsv[bi as int], r2),
                ));
            }
            row += 1;
        }
        proof {
            assert(Seq::new(bsv[bi as int].row_count, |r2: int| descriptor_of(bsv[bi as int], r2))
                =~= Seq::new(nrows as nat, |r2: int| descriptor_of(bsv[bi as int], r2)));
            lemma_all_descriptors_take_succ(bsv, bi as int);
        }
        bi += 1;
    }
    proof {
        assert(bsv.take(nb as int) =~= bsv);
    }
    out
}

} // verus!
