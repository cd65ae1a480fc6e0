use vstd::prelude::*;

verus! {

/// Bytes in one logical row: `width` pixels of `channels` bytes each.
pub open spec fn row_bytes(width: nat, channels: nat) -> nat {
    width * channels
}

/// Byte `x` of row `y` in a plane whose rows start `stride` bytes apart.
pub open spec fn pixel_byte(data: Seq<u8>, stride: nat, y: int, x: int) -> u8 {
    data[y * stride + x]
}

/// The first `height` rows of a plane laid out `stride` bytes apart, each cut
/// to its first `row` bytes and concatenated with no padding in between.
pub open spec fn packed_rows(data: Seq<u8>, stride: nat, row: nat, height: nat) -> Seq<u8>
    decreases height,
{
    if height == 0 {
        Seq::empty()
    } else {
        let start = (height - 1) * stride;
        packed_rows(data, stride, row, (height - 1) as nat) + data.subrange(
            start as int,
            start + row,
        )
    }
}

/// A packed buffer holds exactly `row * height` bytes.
pub proof fn lemma_packed_len(data: Seq<u8>, stride: nat, row: nat, height: nat)
    requires
        row <= stride,
        height == 0 || (height - 1) * stride + row <= data.len(),
    ensures
        packed_rows(data, stride, row, height).len() == row * height,
    decreases height,
{
    if height > 0 {
        let h1 = (height - 1) as nat;
        if h1 > 0 {
            assert((h1 - 1) * stride + row <= h1 * stride) by (nonlinear_arith)
                requires
                    h1 > 0,
                    row <= stride,
            ;
            assert(h1 * stride <= (height - 1) * stride);
        }
        lemma_packed_len(data, stride, row, h1);
        assert(row * h1 + row == row * height) by (nonlinear_arith)
            requires
                h1 + 1 == height,
        ;
    }
}

/// Byte `i` of a packed buffer is byte `i % row` of row `i / row` of the plane.
pub proof fn lemma_packed_index(data: Seq<u8>, stride: nat, row: nat, height: nat, i: int)
    requires
        row <= stride,
        height == 0 || (height - 1) * stride + row <= data.len(),
        0 <= i < row * height,
    ensures
        packed_rows(data, stride, row, height).len() == row * height,
        packed_rows(data, stride, row, height)[i] == data[(i / row as int) * stride + i % row as int],
    decreases height,
{
    lemma_packed_len(data, stride, row, height);
    let h1 = (height - 1) as nat;
    assert(height > 0 && row > 0) by (nonlinear_arith)
        requires
            0 <= i < row * height,
    ;
    assert(row * h1 + row == row * height) by (nonlinear_arith)
        requires
            h1 + 1 == height,
    ;
    if h1 > 0 {
        assert((h1 - 1) * stride + row <= h1 * stride) by (nonlinear_arith)
            requires
                h1 > 0,
                row <= stride,
        ;
    }
    lemma_packed_len(data, stride, row, h1);
    if i < row * h1 {
        lemma_packed_index(data, stride, row, h1, i);
    } else {
        let j = i - row * h1;
        assert(h1 * row == row * h1) by (nonlinear_arith);
        vstd::arithmetic::div_mod::lemma_fundamental_div_mod_converse(i, row as int, h1 as int, j);
    }
}

/// Padding never reaches a packed buffer: when every logical byte of row `y`
/// holds `markers[y]`, the packed buffer is `row * height` bytes long and its
/// rows are exactly the marker rows, in order, with nothing between them.
pub proof fn lemma_packed_marker_rows(
    data: Seq<u8>,
    stride: nat,
    row: nat,
    height: nat,
    markers: Seq<u8>,
)
    requires
        row < stride,
        data.len() == stride * height,
        markers.len() == height,
        forall|y: int, x: int|
            0 <= y < height && 0 <= x < row ==> #[trigger] pixel_byte(data, stride, y, x)
                == markers[y],
    ensures
        packed_rows(data, stride, row, height).len() == row * height,
        forall|y: int, x: int|
            0 <= y < height && 0 <= x < row ==> #[trigger] pixel_byte(
                packed_rows(data, stride, row, height),
                row,
                y,
                x,
            ) == markers[y],
{
    if height > 0 {
        assert((height - 1) * stride + row <= stride * height) by (nonlinear_arith)
            requires
                height > 0,
                row <= stride,
        ;
    }
    lemma_packed_len(data, stride, row, height);
    assert forall|y: int, x: int| 0 <= y < height && 0 <= x < row implies #[trigger] pixel_byte(
        packed_rows(data, stride, row, height),
        row,
        y,
        x,
    ) == markers[y] by {
        let i = y * row + x;
        assert(0 <= i < row * height) by (nonlinear_arith)
            requires
                0 <= y < height,
                0 <= x < row,
                i == y * row + x,
        ;
        lemma_packed_index(data, stride, row, height, i);
        vstd::arithmetic::div_mod::lemma_fundamental_div_mod_converse(i, row as int, y, x);
        assert(pixel_byte(data, stride, y, x) == markers[y]);
    }
}

/// Rows laid out back to back (stride equal to the row size) pack to the
/// plane itself.
pub proof fn lemma_packed_contiguous(data: Seq<u8>, row: nat, height: nat)
    requires
        data.len() >= row * height,
    ensures
        packed_rows(data, row, row, height) == data.subrange(0, (row * height) as int),
    decreases height,
{
    if height > 0 {
        let h1 = (height - 1) as nat;
        assert(row * h1 + row == row * height) by (nonlinear_arith)
            requires
                h1 + 1 == height,
        ;
        assert(h1 * row == row * h1) by (nonlinear_arith);
        lemma_packed_contiguous(data, row, h1);
        assert(packed_rows(data, row, row, height) =~= data.subrange(0, (row * height) as int));
    } else {
        assert(row * height == 0) by (nonlinear_arith)
            requires
                height == 0,
        ;
        assert(packed_rows(data, row, row, height) =~= data.subrange(0, (row * height) as int));
    }
}

/// Copies the first `height` rows of a plane whose rows start `stride` bytes
/// apart into a buffer with no padding: each row keeps its first
/// `width * channels` bytes and drops the rest.
pub fn repack_plane(data: &[u8], stride: usize, width: u32, height: u32, channels: u32) -> (r: Vec<
    u8,
>)
    requires
        row_bytes(width as nat, channels as nat) <= stride,
        data@.len() == stride * height,
    ensures
        r@ == packed_rows(data@, stride as nat, row_bytes(width as nat, channels as nat), height as nat),
        r@.len() == width * height * channels,
        stride == row_bytes(width as nat, channels as nat) ==> r@ == data@,
{
    let ghost row_n = row_bytes(width as nat, channels as nat);
    let ghost h = height as nat;
    let row: usize = (width as usize) * (channels as usize);
    let n: usize = data.len();
    proof {
        if h > 0 {
            assert((h - 1) * stride + row_n <= stride * h) by (nonlinear_arith)
                requires
                    h > 0,
                    row_n <= stride,
            ;
        }
        lemma_packed_len(data@, stride as nat, row_n, h);
        assert(row_n * h == width * height * channels) by (nonlinear_arith)
            requires
                row_n == width * channels,
                h == height,
        ;
    }
    if stride == row {
        proof {
            lemma_packed_contiguous(data@, row_n, h);
            assert(row_n * h == stride * height) by (nonlinear_arith)
                requires
                    row_n == stride,
                    h == height,
            ;
            assert(data@.subrange(0, (row_n * h) as int) =~= data@);
        }
        return vstd::slice::slice_to_vec(data);
    }
    let mut out: Vec<u8> = Vec::new();
    let mut y: usize = 0;
    let mut offset: usize = 0;
    while y < height as usize
        invariant
            row == row_n,
            row <= stride,
            n == data@.len(),
            data@.len() == stride * height,
            y <= height,
            offset == y * stride,
            out@ == packed_rows(data@, stride as nat, row_n, y as nat),
        decreases height - y,
    {
        proof {
            assert(offset + stride <= stride * height) by (nonlinear_arith)
                requires
                    offset == y * stride,
                    y < height,
            ;
        }
        let ghost before = out@;
        let mut x: usize = 0;
        while x < row
            invariant
                row <= stride,
                n == data@.len(),
                offset + stride <= data@.len(),
                x <= row,
                out@ == before + data@.subrange(offset as int, offset + x),
            decreases row - x,
        {
            out.push(data[offset + x]);
            x += 1;
            proof {
                assert(out@ =~= before + data@.subrange(offset as int, offset + x));
            }
        }
        proof {
            assert((y + 1) * stride == y * stride + stride) by (nonlinear_arith);
            assert(((y + 1) - 1) as nat == y as nat);
        }
        y += 1;
        offset += stride;
    }
    out
}

} // verus!
