//! The render target: a rectangular grid of pixels addressed `(x, y)` with
//! `(0, 0)` top-left, and its serialization to a plain-text PPM image.
//!
//! The grid is generic in its pixel type; the renderer writes whatever colour
//! representation its numeric layer uses. Serialization works on a grid of
//! [`Rgb`] pixels, whose components are already scaled to `0..=255`.

use vstd::prelude::*;

verus! {

/// A rectangular pixel grid addressed `(x, y)` with `(0, 0)` top-left,
/// stored row-major.
pub struct Canvas<T> {
    width: usize,
    length: usize,
    grid: Vec<T>,
}

impl<T: Copy> Canvas<T> {
    /// The rows of the grid, top to bottom; each row runs left to right.
    pub closed spec fn view(&self) -> Seq<Seq<T>> {
        Seq::new(
            self.length as nat,
            |h: int| Seq::new(self.width as nat, |w: int| self.grid@[h * self.width + w]),
        )
    }

    pub closed spec fn spec_width(&self) -> usize {
        self.width
    }

    pub closed spec fn spec_length(&self) -> usize {
        self.length
    }

    /// The backing store covers the whole rectangle.
    pub closed spec fn wf(&self) -> bool {
        self.grid@.len() == self.width * self.length && self.width * self.length <= usize::MAX
    }

    /// A grid of `width` columns and `length` rows, every pixel set to
    /// `fill`.
    pub fn new(width: usize, length: usize, fill: T) -> (r: Canvas<T>)
        requires
            width * length <= usize::MAX,
        ensures
            r.wf(),
            r.spec_width() == width,
            r.spec_length() == length,
            r@.len() == length,
            forall|h: int| 0 <= h < length ==> (#[trigger] r@[h]).len() == width,
            forall|h: int, w: int|
                0 <= h < length && 0 <= w < width ==> #[trigger] r@[h][w] == fill,
    {
        let n = width * length;
        let mut grid: Vec<T> = Vec::new();
        let mut i: usize = 0;
        while i < n
            invariant
                0 <= i <= n,
                grid@.len() == i,
                forall|k: int| 0 <= k < i ==> #[trigger] grid@[k] == fill,
            decreases n - i,
        {
            grid.push(fill);
            i += 1;
        }
        let r = Canvas { width, length, grid };
        proof {
            assert forall|h: int, w: int|
                0 <= h < length && 0 <= w < width implies #[trigger] r@[h][w] == fill by {
                lemma_row_major_bound(width as int, length as int, w, h);
            }
        }
        r
    }

    pub fn width(&self) -> (r: usize)
        ensures
            r == self.spec_width(),
    {
        self.width
    }

    pub fn length(&self) -> (r: usize)
        ensures
            r == self.spec_length(),
    {
        self.length
    }

    /// Sets the pixel in column `width`, row `height`.
    pub fn write_pixel(&mut self, width: usize, height: usize, color: T)
        requires
            old(self).wf(),
            width < old(self).spec_width(),
            height < old(self).spec_length(),
        ensures
            final(self).wf(),
            final(self).spec_width() == old(self).spec_width(),
            final(self).spec_length() == old(self).spec_length(),
            final(self)@ == old(self)@.update(
                height as int,
                old(self)@[height as int].update(width as int, color),
            ),
    {
        proof {
            lemma_row_major_bound(
                self.width as int,
                self.length as int,
                width as int,
                height as int,
            );
        }
        let idx = height * self.width + width;
        self.grid[idx] = color;
        proof {
            assert forall|h: int| 0 <= h < self.length implies self@[h] =~= old(self)@.update(
                height as int,
                old(self)@[height as int].update(width as int, color),
            )[h] by {
                assert forall|w: int| 0 <= w < self.width implies self@[h][w] == old(self)@.update(
                    height as int,
                    old(self)@[height as int].update(width as int, color),
                )[h][w] by {
                    lemma_row_major_bound(self.width as int, self.length as int, w, h);
                    if h != height || w != width {
                        lemma_row_major_distinct(
                            self.width as int,
                            self.length as int,
                            width as int,
                            height as int,
                            w,
                            h,
                        );
                    }
                }
            }
            assert(self@ =~= old(self)@.update(
                height as int,
                old(self)@[height as int].update(width as int, color),
            ));
        }
    }

    /// The pixel in column `width`, row `height`.
    pub fn pixel_at(&self, width: usize, height: usize) -> (r: T)
        requires
            self.wf(),
            width < self.spec_width(),
            height < self.spec_length(),
        ensures
            r == self@[height as int][width as int],
    {
        proof {
            lemma_row_major_bound(
                self.width as int,
                self.length as int,
                width as int,
                height as int,
            );
        }
        let idx = height * self.width + width;
        self.grid[idx]
    }
}

/// A row-major index stays within a `width * length` store.
proof fn lemma_row_major_bound(width: int, length: int, w: int, h: int)
    requires
        0 <= w < width,
        0 <= h < length,
    ensures
        0 <= h * width + w < width * length,
{
    assert(h * width + w < (h + 1) * width) by (nonlinear_arith)
        requires
            0 <= w < width,
    ;
    assert((h + 1) * width <= length * width) by (nonlinear_arith)
        requires
            h + 1 <= length,
            width >= 0,
    ;
    assert(length * width == width * length) by (nonlinear_arith);
    assert(h * width + w >= 0) by (nonlinear_arith)
        requires
            h >= 0,
            width >= 0,
            w >= 0,
    ;
}

/// Distinct grid cells have distinct row-major indices.
proof fn lemma_row_major_distinct(width: int, length: int, w0: int, h0: int, w1: int, h1: int)
    requires
        0 <= w0 < width,
        0 <= h0 < length,
        0 <= w1 < width,
        0 <= h1 < length,
        (w0 != w1 || h0 != h1),
    ensures
        h0 * width + w0 != h1 * width + w1,
{
    if h0 == h1 {
    } else {
        assert(h0 * width + w0 != h1 * width + w1) by (nonlinear_arith)
            requires
                0 <= w0 < width,
                0 <= w1 < width,
                h0 != h1,
        ;
    }
}

/// One pixel of the serialized image: red, green and blue components already
/// scaled to `0..=255`.
#[derive(Debug, Clone, Copy, PartialEq, Eq, Structural)]
pub struct Rgb {
    pub red: u8,
    pub green: u8,
    pub blue: u8,
}

/// The decimal digit character for `d`, expected below ten.
pub open spec fn spec_digit(d: nat) -> char {
    if d == 0 {
        '0'
    } else if d == 1 {
        '1'
    } else if d == 2 {
        '2'
    } else if d == 3 {
        '3'
    } else if d == 4 {
        '4'
    } else if d == 5 {
        '5'
    } else if d == 6 {
        '6'
    } else if d == 7 {
        '7'
    } else if d == 8 {
        '8'
    } else {
        '9'
    }
}

/// `n` written in decimal, most significant digit first, without leading
/// zeros (zero itself is the single digit `0`).
pub open spec fn spec_decimal(n: nat) -> Seq<char>
    decreases n,
{
    if n < 10 {
        seq![spec_digit(n)]
    } else {
        spec_decimal(n / 10).push(spec_digit(n % 10))
    }
}

/// A number below one hundred has at most two decimal digits.
proof fn lemma_decimal_len2(n: nat)
    requires
        n < 100,
    ensures
        spec_decimal(n).len() <= 2,
{
    reveal_with_fuel(spec_decimal, 3);
}

/// A number below one thousand has at most three decimal digits.
proof fn lemma_decimal_len3(n: nat)
    requires
        n < 1000,
    ensures
        spec_decimal(n).len() <= 3,
{
    if n >= 10 {
        lemma_decimal_len2(n / 10);
    }
    reveal_with_fuel(spec_decimal, 2);
}

/// A pixel's chunk is at most twelve characters.
proof fn lemma_pixel_chunk_len(p: Rgb)
    ensures
        spec_pixel_chunk(p).len() <= 12,
{
    lemma_decimal_len3(p.red as nat);
    lemma_decimal_len3(p.green as nat);
    lemma_decimal_len3(p.blue as nat);
}

/// One pixel's contribution to its row: the three components in decimal,
/// each followed by a single space.
pub open spec fn spec_pixel_chunk(p: Rgb) -> Seq<char> {
    spec_decimal(p.red as nat) + seq![' '] + spec_decimal(p.green as nat) + seq![' ']
        + spec_decimal(p.blue as nat) + seq![' ']
}

/// A pending line is flushed by dropping its trailing separator (it is
/// either empty or ends in exactly one space) and ending the line.
pub open spec fn spec_flush_line(buf: Seq<char>) -> Seq<char> {
    if buf.len() > 0 {
        buf.drop_last().push('\n')
    } else {
        seq!['\n']
    }
}

/// The text of one pixel row, wrapped so that no line runs past 70
/// characters: each pixel's chunk joins the pending line `buf`, flushing it
/// first whenever the chunk would push it past 70.
pub open spec fn spec_row_text(row: Seq<Rgb>, buf: Seq<char>) -> Seq<char>
    decreases row.len(),
{
    if row.len() == 0 {
        spec_flush_line(buf)
    } else {
        let chunk = spec_pixel_chunk(row.first());
        if buf.len() + chunk.len() > 70 {
            spec_flush_line(buf) + spec_row_text(row.drop_first(), chunk)
        } else {
            spec_row_text(row.drop_first(), buf + chunk)
        }
    }
}

/// The pixel rows of the image, top to bottom, each starting on a fresh
/// line.
pub open spec fn spec_rows_text(rows: Seq<Seq<Rgb>>) -> Seq<char>
    decreases rows.len(),
{
    if rows.len() == 0 {
        Seq::empty()
    } else {
        spec_row_text(rows.first(), Seq::empty()) + spec_rows_text(rows.drop_first())
    }
}

/// The serialized plain-text image: the magic number `P3`, the dimensions,
/// the maximal component value 255, then the pixel rows; every line,
/// including the last, ends in a newline.
pub open spec fn spec_ppm(rows: Seq<Seq<Rgb>>, width: nat, length: nat) -> Seq<char> {
    seq!['P', '3', '\n'] + spec_decimal(width) + seq![' '] + spec_decimal(length) + seq![
        '\n',
        '2',
        '5',
        '5',
        '\n',
    ] + spec_rows_text(rows)
}

/// The decimal digit character for `d`.
fn digit_char(d: u8) -> (r: char)
    requires
        d < 10,
    ensures
        r == spec_digit(d as nat),
{
    match d {
        0 => '0',
        1 => '1',
        2 => '2',
        3 => '3',
        4 => '4',
        5 => '5',
        6 => '6',
        7 => '7',
        8 => '8',
        _ => '9',
    }
}

/// Appends `n` in decimal to `out`.
fn push_decimal(out: &mut Vec<char>, n: usize)
    ensures
        final(out)@ == old(out)@ + spec_decimal(n as nat),
    decreases n,
{
    if n >= 10 {
        push_decimal(out, n / 10);
    }
    out.push(digit_char((n % 10) as u8));
    proof {
        assert(out@ =~= old(out)@ + spec_decimal(n as nat));
    }
}

/// Appends one pixel's chunk to `out`.
fn push_pixel(out: &mut Vec<char>, p: Rgb)
    ensures
        final(out)@ == old(out)@ + spec_pixel_chunk(p),
{
    push_decimal(out, p.red as usize);
    out.push(' ');
    push_decimal(out, p.green as usize);
    out.push(' ');
    push_decimal(out, p.blue as usize);
    out.push(' ');
    proof {
        assert(out@ =~= old(out)@ + spec_pixel_chunk(p));
    }
}

/// Relies on `String`'s `FromIterator<char>` implementation: collecting
/// characters yields the string of exactly those characters in order.
#[verifier::external_body]
fn chars_to_string(chars: Vec<char>) -> (r: String)
    ensures
        r@ == chars@,
{
    chars.into_iter().collect()
}

impl Canvas<Rgb> {
    /// Serializes the canvas as a plain-text PPM image; see [`spec_ppm`].
    pub fn to_ppm(&self) -> (r: String)
        requires
            self.wf(),
        ensures
            r@ == spec_ppm(self@, self.spec_width() as nat, self.spec_length() as nat),
    {
        let mut out: Vec<char> = Vec::new();
        out.push('P');
        out.push('3');
        out.push('\n');
        push_decimal(&mut out, self.width());
        out.push(' ');
        push_decimal(&mut out, self.length());
        out.push('\n');
        out.push('2');
        out.push('5');
        out.push('5');
        out.push('\n');
        let ghost header = out@;
        proof {
            assert(header =~= seq!['P', '3', '\n'] + spec_decimal(self.spec_width() as nat)
                + seq![' '] + spec_decimal(self.spec_length() as nat) + seq![
                '\n',
                '2',
                '5',
                '5',
                '\n',
            ]);
            assert(self@.take(0) =~= Seq::<Seq<Rgb>>::empty());
        }
        let length = self.length();
        let width = self.width();
        let mut h: usize = 0;
        while h < length
            invariant
                0 <= h <= length,
                self.wf(),
                length == self.spec_length(),
                width == self.spec_width(),
                out@ == header + spec_rows_text(self@.take(h as int)),
            decreases length - h,
        {
            let ghost row = self@[h as int];
            let ghost out_row_start = out@;
            let mut buf: Vec<char> = Vec::new();
            let mut w: usize = 0;
            proof {
                assert(row.skip(0) =~= row);
            }
            while w < width
                invariant
                    0 <= w <= width,
                    self.wf(),
                    length == self.spec_length(),
                    width == self.spec_width(),
                    h < length,
                    row == self@[h as int],
                    row.len() == width,
                    buf@.len() <= 70,
                    out@ + spec_row_text(row.skip(w as int), buf@) == out_row_start
                        + spec_row_text(row, Seq::<char>::empty()),
                decreases width - w,
            {
                let p = self.pixel_at(w, h);
                let mut chunk: Vec<char> = Vec::new();
                push_pixel(&mut chunk, p);
                proof {
                    lemma_pixel_chunk_len(p);
                    assert(row.skip(w as int).first() == row[w as int]);
                    assert(row.skip(w as int).drop_first() =~= row.skip(w + 1));
                }
                let ghost out_before = out@;
                let ghost buf_before = buf@;
                if buf.len() + chunk.len() > 70 {
                    if buf.len() > 0 {
                        let _ = buf.pop();
                    }
                    out.append(&mut buf);
                    out.push('\n');
                    proof {
                        assert(out@ =~= out_before + spec_flush_line(buf_before));
                    }
                }
                buf.append(&mut chunk);
                proof {
                    assert(out@ + spec_row_text(row.skip(w + 1), buf@) =~= out_row_start
                        + spec_row_text(row, Seq::<char>::empty()));
                }
                w += 1;
            }
            proof {
                assert(row.skip(width as int) =~= Seq::<Rgb>::empty());
            }
            let ghost out_before = out@;
            let ghost buf_before = buf@;
            if buf.len() > 0 {
                let _ = buf.pop();
            }
            out.append(&mut buf);
            out.push('\n');
            proof {
                assert(out@ =~= out_before + spec_flush_line(buf_before));
                assert(out@ =~= out_row_start + spec_row_text(row, Seq::<char>::empty()));
                assert(self@.take(h + 1) =~= self@.take(h as int).push(row));
                lemma_rows_text_push(self@.take(h as int), row);
                assert(header + (spec_rows_text(self@.take(h as int)) + spec_row_text(
                    row,
                    Seq::<char>::empty(),
                )) =~= (header + spec_rows_text(self@.take(h as int))) + spec_row_text(
                    row,
                    Seq::<char>::empty(),
                ));
                assert(out@ =~= header + spec_rows_text(self@.take(h + 1)));
            }
            h += 1;
        }
        proof {
            assert(self@.take(length as int) =~= self@);
        }
        chars_to_string(out)
    }
}

/// Appending one more row appends exactly that row's text.
proof fn lemma_rows_text_push(rows: Seq<Seq<Rgb>>, row: Seq<Rgb>)
    ensures
        spec_rows_text(rows.push(row)) == spec_rows_text(rows) + spec_row_text(
            row,
            Seq::<char>::empty(),
        ),
    decreases rows.len(),
{
    if rows.len() == 0 {
        assert(rows.push(row).drop_first() =~= rows);
        assert(rows.push(row).first() == row);
        assert(spec_rows_text(rows.push(row)) =~= spec_rows_text(rows) + spec_row_text(
            row,
            Seq::<char>::empty(),
        ));
    } else {
        assert(rows.push(row).first() == rows.first());
        assert(rows.push(row).drop_first() =~= rows.drop_first().push(row));
        lemma_rows_text_push(rows.drop_first(), row);
        assert(spec_rows_text(rows.push(row)) =~= spec_rows_text(rows) + spec_row_text(
            row,
            Seq::<char>::empty(),
        ));
    }
}

} // verus!
