use vstd::prelude::*;

verus! {

/// ASCII decimal digits of `n`, most significant first, without leading zeros.
pub open spec fn decimal(n: nat) -> Seq<u8>
    decreases n,
{
    if n < 10 {
        seq![(48 + n) as u8]
    } else {
        decimal(n / 10).push((48 + n % 10) as u8)
    }
}

/// The header of a binary (P6) PPM image of `width` by `height` pixels with 255 as the
/// largest channel value: `P6\n<width> <height>\n255\n`.
pub open spec fn ppm_header_spec(width: nat, height: nat) -> Seq<u8> {
    seq![80u8, 54u8, 10u8] + decimal(width) + seq![32u8] + decimal(height) + seq![
        10u8,
        50u8,
        53u8,
        53u8,
        10u8,
    ]
}

/// The rows laid end to end, first row first.
pub open spec fn concat_rows(rows: Seq<Seq<u8>>) -> Seq<u8>
    decreases rows.len(),
{
    if rows.len() == 0 {
        Seq::empty()
    } else {
        concat_rows(rows.drop_last()) + rows.last()
    }
}

/// Appends the decimal digits of `n` to `out`.
pub fn push_decimal(out: &mut Vec<u8>, n: u64)
    ensures
        final(out)@ == old(out)@ + decimal(n as nat),
    decreases n,
{
    if n < 10 {
        out.push((48 + n) as u8);
    } else {
        push_decimal(out, n / 10);
        out.push((48 + n % 10) as u8);
    }
}

/// The P6 header for an image of `width` by `height` pixels.
pub fn ppm_header(width: u64, height: u64) -> (r: Vec<u8>)
    ensures
        r@ == ppm_header_spec(width as nat, height as nat),
{
    let mut r: Vec<u8> = Vec::new();
    r.push(80u8);
    r.push(54u8);
    r.push(10u8);
    push_decimal(&mut r, width);
    r.push(32u8);
    push_decimal(&mut r, height);
    r.push(10u8);
    r.push(50u8);
    r.push(53u8);
    r.push(53u8);
    r.push(10u8);
    assert(r@ =~= ppm_header_spec(width as nat, height as nat));
    r
}

/// A whole P6 image: the header for `width` by `height` pixels, then the rows in order,
/// whatever order they were computed in.
pub fn assemble_image(width: u64, height: u64, rows: &Vec<Vec<u8>>) -> (r: Vec<u8>)
    ensures
        r@ == ppm_header_spec(width as nat, height as nat) + concat_rows(
            rows@.map_values(|row: Vec<u8>| row@),
        ),
{
    let mut out = ppm_header(width, height);
    let ghost head = out@;
    let mut i: usize = 0;
    while i < rows.len()
        invariant
            i <= rows@.len(),
            out@ == head + concat_rows(rows@.subrange(0, i as int).map_values(|row: Vec<u8>| row@)),
        decreases rows@.len() - i,
    {
        let row = &rows[i];
        let mut j: usize = 0;
        let ghost before = out@;
        while j < row.len()
            invariant
                j <= row@.len(),
                out@ == before + row@.subrange(0, j as int),
            decreases row@.len() - j,
        {
            out.push(row[j]);
            j += 1;
            assert(out@ =~= before + row@.subrange(0, j as int));
        }
        assert(row@.subrange(0, j as int) =~= row@);
        let ghost done = rows@.subrange(0, i + 1).map_values(|row: Vec<u8>| row@);
        assert(done.drop_last() =~= rows@.subrange(0, i as int).map_values(|row: Vec<u8>| row@));
        assert(done.last() == row@);
        i += 1;
        assert(out@ =~= head + concat_rows(rows@.subrange(0, i as int).map_values(|row: Vec<u8>| row@)));
    }
    assert(rows@.subrange(0, i as int) =~= rows@);
    out
}

} // verus!
