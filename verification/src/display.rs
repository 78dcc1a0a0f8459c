//! A pixel display driven by a numeric command stream.
//!
//! The display holds a colour matrix, a cursor, and its boundaries.  A
//! command stream is a sequence of numbers scanned position by position:
//! `1 x y` moves the cursor, `2 c` paints the cursor's pixel with colour
//! `c` (`1` to `3`, taken modulo 256 first).  An argument position that a
//! previous command has consumed is skipped; an unknown command number is
//! ignored and does not consume arguments.

use vstd::arithmetic::mul::lemma_mul_inequality;
use vstd::arithmetic::mul::lemma_mul_is_commutative;
use vstd::arithmetic::mul::lemma_mul_is_distributive_add_other_way;
use vstd::arithmetic::mul::lemma_mul_ordering;
use vstd::pervasive::unreached;
use vstd::prelude::*;

verus! {

/// A colour grid with one byte per position `(x, y)`,
/// `0 <= x <= width`, `0 <= y <= height`, stored row by row.
#[derive(Debug)]
pub struct Matrix {
    width: u32,
    height: u32,
    cells: Vec<u8>,
}

impl Matrix {
    /// The largest column index.
    pub closed spec fn spec_width(&self) -> u32 {
        self.width
    }

    /// The largest column index.
    #[verifier::when_used_as_spec(spec_width)]
    pub fn width(&self) -> (w: u32)
        ensures
            w == self.spec_width(),
    {
        self.width
    }

    /// The largest row index.
    pub closed spec fn spec_height(&self) -> u32 {
        self.height
    }

    /// The largest row index.
    #[verifier::when_used_as_spec(spec_height)]
    pub fn height(&self) -> (h: u32)
        ensures
            h == self.spec_height(),
    {
        self.height
    }

    /// The stored colours, row by row.
    pub closed spec fn cells_view(self) -> Seq<u8> {
        self.cells@
    }

    /// Where position `(x, y)` lies in the row-by-row store.
    pub open spec fn cell_index(self, x: int, y: int) -> int {
        y * (self.spec_width() + 1) + x
    }

    /// The store covers every position of the grid.
    pub closed spec fn well_formed(self) -> bool {
        self.cells@.len() == (self.width + 1) * (self.height + 1)
    }

    /// The colour at position `(x, y)`.
    pub open spec fn colour_at(self, x: int, y: int) -> u8 {
        self.cells_view()[self.cell_index(x, y)]
    }

    /// Makes a grid with every position set to the default colour.
    pub fn new(max_width: u32, max_height: u32, default_colour: u8) -> (m: Matrix)
        requires
            (max_width + 1) * (max_height + 1) <= usize::MAX,
        ensures
            m.well_formed(),
            m.spec_width() == max_width,
            m.spec_height() == max_height,
            m.cells_view() == Seq::new(
                ((max_width + 1) * (max_height + 1)) as nat,
                |i: int| default_colour,
            ),
    {
        proof {
            assert((max_width + 1) * (max_height + 1) >= max_width + 1) by (nonlinear_arith);
            assert((max_width + 1) * (max_height + 1) >= max_height + 1) by (nonlinear_arith);
        }
        let total: usize = (max_width as usize + 1) * (max_height as usize + 1);
        let mut cells: Vec<u8> = Vec::new();
        let mut i: usize = 0;
        while i < total
            invariant
                i <= total,
                cells@.len() == i,
                forall|k: int| 0 <= k < i ==> cells@[k] == default_colour,
            decreases total - i,
        {
            cells.push(default_colour);
            i = i + 1;
        }
        let m = Matrix { width: max_width, height: max_height, cells };
        proof {
            assert(m.cells_view() =~= Seq::new(
                ((max_width + 1) * (max_height + 1)) as nat,
                |i: int| default_colour,
            ));
        }
        m
    }

    /// The colour at position `(x, y)`.
    pub fn colour(&self, x: u64, y: u64) -> (c: u8)
        requires
            self.well_formed(),
            x <= self.spec_width(),
            y <= self.spec_height(),
        ensures
            c == self.colour_at(x as int, y as int),
    {
        proof {
            broadcast use vstd::std_specs::vec::axiom_spec_len;

            let wp = self.width as int + 1;
            let hp = self.height as int + 1;
            assert(vstd::std_specs::vec::spec_vec_len(&self.cells) == self.cells@.len());
            lemma_mul_ordering(wp, hp);
            lemma_mul_inequality(y as int, self.height as int, wp);
            lemma_mul_is_distributive_add_other_way(wp, self.height as int, 1);
            lemma_mul_is_commutative(wp, hp);
            assert((y as int) * wp + (x as int) < wp * hp);
            assert((y as usize as int) * ((self.width as usize as int) + 1) == (y as int) * wp);
        }
        let index: usize = (y as usize) * (self.width as usize + 1) + (x as usize);
        self.cells[index]
    }

    /// Paints position `(x, y)` with the given colour, leaving every
    /// other position as it was.
    pub fn set_colour(&mut self, x: u64, y: u64, colour: u8)
        requires
            old(self).well_formed(),
            x <= old(self).spec_width(),
            y <= old(self).spec_height(),
        ensures
            final(self).well_formed(),
            final(self).spec_width() == old(self).spec_width(),
            final(self).spec_height() == old(self).spec_height(),
            final(self).cells_view() == old(self).cells_view().update(
                old(self).cell_index(x as int, y as int),
                colour,
            ),
    {
        proof {
            broadcast use vstd::std_specs::vec::axiom_spec_len;

            let wp = self.width as int + 1;
            let hp = self.height as int + 1;
            assert(vstd::std_specs::vec::spec_vec_len(&self.cells) == self.cells@.len());
            lemma_mul_ordering(wp, hp);
            lemma_mul_inequality(y as int, self.height as int, wp);
            lemma_mul_is_distributive_add_other_way(wp, self.height as int, 1);
            lemma_mul_is_commutative(wp, hp);
            assert((y as int) * wp + (x as int) < wp * hp);
            assert((y as usize as int) * ((self.width as usize as int) + 1) == (y as int) * wp);
        }
        let index: usize = (y as usize) * (self.width as usize + 1) + (x as usize);
        self.cells.set(index, colour);
    }
}

impl PartialEq for Matrix {
    /// Two grids are equal when their dimensions and every stored colour
    /// agree.
    fn eq(&self, other: &Matrix) -> (r: bool) {
        if self.width != other.width || self.height != other.height {
            return false;
        }
        if self.cells.len() != other.cells.len() {
            return false;
        }
        let mut i: usize = 0;
        while i < self.cells.len()
            invariant
                i <= self.cells@.len(),
                self.cells@.len() == other.cells@.len(),
                forall|k: int| 0 <= k < i ==> self.cells@[k] == other.cells@[k],
            decreases self.cells@.len() - i,
        {
            if self.cells[i] != other.cells[i] {
                return false;
            }
            i = i + 1;
        }
        proof {
            assert(self.cells@ =~= other.cells@);
        }
        true
    }
}

impl vstd::std_specs::cmp::PartialEqSpecImpl for Matrix {
    open spec fn obeys_eq_spec() -> bool {
        true
    }

    open spec fn eq_spec(&self, other: &Matrix) -> bool {
        self.spec_width() == other.spec_width() && self.spec_height() == other.spec_height()
            && self.cells_view() == other.cells_view()
    }
}

/// A display: the current cursor, the boundaries commands are checked
/// against, and the colour matrix itself.
pub struct Display {
    /// The cursor the next paint command applies to.
    pub current_pixel: (u64, u64),
    /// The largest legal cursor position, `(width, height)`.
    pub boundaries: (u32, u32),
    /// The pixels.
    pub matrix: Matrix,
}

impl Display {
    /// The boundaries match the matrix and the cursor lies within them.
    pub open spec fn well_formed(self) -> bool {
        &&& self.matrix.well_formed()
        &&& self.boundaries.0 == self.matrix.spec_width()
        &&& self.boundaries.1 == self.matrix.spec_height()
        &&& self.current_pixel.0 <= self.boundaries.0
        &&& self.current_pixel.1 <= self.boundaries.1
    }
}

/// Makes a display of the given dimensions, fully painted with the
/// default colour, with the cursor at the origin.
pub fn create_display(max_width: u32, max_height: u32, default_colour: u8) -> (d: Display)
    requires
        (max_width + 1) * (max_height + 1) <= usize::MAX,
    ensures
        d.well_formed(),
        d.current_pixel == (0u64, 0u64),
        d.boundaries == (max_width, max_height),
        d.matrix.cells_view() == Seq::new(
            ((max_width + 1) * (max_height + 1)) as nat,
            |i: int| default_colour,
        ),
{
    Display {
        current_pixel: (0, 0),
        boundaries: (max_width, max_height),
        matrix: Matrix::new(max_width, max_height, default_colour),
    }
}

/// Whether the scan of the command stream from position `idx` on, with
/// argument positions before `offset` already consumed, never moves the
/// cursor out of `(w, h)`, never paints with a colour outside `1..=3`
/// (after the byte cast), and never runs past the end for an argument.
pub open spec fn valid_commands_from(s: Seq<u64>, idx: int, offset: int, w: int, h: int) -> bool
    decreases s.len() - idx,
{
    if idx < 0 || idx >= s.len() {
        true
    } else if idx < offset {
        valid_commands_from(s, idx + 1, offset, w, h)
    } else if s[idx] == 1 {
        &&& idx + 2 < s.len()
        &&& s[idx + 1] <= w
        &&& s[idx + 2] <= h
        &&& valid_commands_from(s, idx + 1, offset + 3, w, h)
    } else if s[idx] == 2 {
        &&& idx + 1 < s.len()
        &&& 1 <= (s[idx + 1] as u8) <= 3
        &&& valid_commands_from(s, idx + 1, offset + 2, w, h)
    } else {
        valid_commands_from(s, idx + 1, offset, w, h)
    }
}

/// The cursor and the cells after scanning the command stream from
/// position `idx` on, with argument positions before `offset` already
/// consumed, starting from cursor `cur` and cells `cells` on a grid of
/// row length `w + 1`.
pub open spec fn run_commands_from(
    s: Seq<u64>,
    idx: int,
    offset: int,
    cur: (u64, u64),
    cells: Seq<u8>,
    w: int,
) -> ((u64, u64), Seq<u8>)
    decreases s.len() - idx,
{
    if idx < 0 || idx >= s.len() {
        (cur, cells)
    } else if idx < offset {
        run_commands_from(s, idx + 1, offset, cur, cells, w)
    } else if s[idx] == 1 {
        run_commands_from(s, idx + 1, offset + 3, (s[idx + 1], s[idx + 2]), cells, w)
    } else if s[idx] == 2 {
        run_commands_from(
            s,
            idx + 1,
            offset + 2,
            cur,
            cells.update((cur.1 as int) * (w + 1) + (cur.0 as int), s[idx + 1] as u8),
            w,
        )
    } else {
        run_commands_from(s, idx + 1, offset, cur, cells, w)
    }
}

/// Runs the command stream against the display: the final cursor and
/// pixels are exactly what the scan of the stream yields.
pub fn process_commands(display: &mut Display, input: Vec<u64>)
    requires
        old(display).well_formed(),
        input@.len() <= usize::MAX - 3,
        valid_commands_from(
            input@,
            0,
            0,
            old(display).boundaries.0 as int,
            old(display).boundaries.1 as int,
        ),
    ensures
        final(display).well_formed(),
        final(display).boundaries == old(display).boundaries,
        ({
            let end = run_commands_from(
                input@,
                0,
                0,
                old(display).current_pixel,
                old(display).matrix.cells_view(),
                old(display).boundaries.0 as int,
            );
            &&& final(display).current_pixel == end.0
            &&& final(display).matrix.cells_view() == end.1
        }),
{
    let ghost s = input@;
    let ghost w = old(display).boundaries.0 as int;
    let ghost h = old(display).boundaries.1 as int;
    let ghost end = run_commands_from(
        s,
        0,
        0,
        old(display).current_pixel,
        old(display).matrix.cells_view(),
        w,
    );
    let mut offset: usize = 0;
    let mut idx: usize = 0;
    while idx < input.len()
        invariant
            display.well_formed(),
            display.boundaries == old(display).boundaries,
            s == input@,
            w == display.boundaries.0 as int,
            h == display.boundaries.1 as int,
            s.len() <= usize::MAX - 3,
            idx <= s.len(),
            offset <= s.len() + 2,
            valid_commands_from(s, idx as int, offset as int, w, h),
            end == run_commands_from(
                s,
                idx as int,
                offset as int,
                display.current_pixel,
                display.matrix.cells_view(),
                w,
            ),
        decreases s.len() - idx,
    {
        if idx >= offset {
            let command = input[idx];
            match command {
                1u64 => {
                    let x = input[idx + 1];
                    let y = input[idx + 2];
                    display.current_pixel = (x, y);
                    offset = offset + 3;
                }
                2u64 => {
                    #[verifier::truncate]
                    let colour = input[idx + 1] as u8;
                    let cx = display.current_pixel.0;
                    let cy = display.current_pixel.1;
                    display.matrix.set_colour(cx, cy, colour);
                    offset = offset + 2;
                }
                _ => {},
            }
        }
        idx = idx + 1;
    }
    proof {
        assert(end == (display.current_pixel, display.matrix.cells_view()));
    }
}

/// Whether the command stream passes every check that the scan makes:
/// the runtime test that callers make before running untrusted input.
pub fn commands_valid(input: &Vec<u64>, max_width: u32, max_height: u32) -> (b: bool)
    requires
        input@.len() <= usize::MAX - 3,
    ensures
        b == valid_commands_from(input@, 0, 0, max_width as int, max_height as int),
{
    let ghost s = input@;
    let ghost w = max_width as int;
    let ghost h = max_height as int;
    let mut offset: usize = 0;
    let mut idx: usize = 0;
    while idx < input.len()
        invariant
            s == input@,
            w == max_width as int,
            h == max_height as int,
            s.len() <= usize::MAX - 3,
            idx <= s.len(),
            offset <= s.len() + 2,
            valid_commands_from(s, 0, 0, w, h) == valid_commands_from(
                s,
                idx as int,
                offset as int,
                w,
                h,
            ),
        decreases s.len() - idx,
    {
        if idx >= offset {
            let command = input[idx];
            match command {
                1u64 => {
                    if idx + 2 >= input.len() {
                        return false;
                    }
                    let x = input[idx + 1];
                    let y = input[idx + 2];
                    if x > max_width as u64 || y > max_height as u64 {
                        return false;
                    }
                    offset = offset + 3;
                }
                2u64 => {
                    if idx + 1 >= input.len() {
                        return false;
                    }
                    #[verifier::truncate]
                    let colour = input[idx + 1] as u8;
                    if colour > 3 || colour < 1 {
                        return false;
                    }
                    offset = offset + 2;
                }
                _ => {},
            }
        }
        idx = idx + 1;
    }
    true
}

/// An ASCII blank: a separator the dimension line may use.
pub open spec fn is_space(c: char) -> bool {
    c == ' ' || c == '\t' || c == '\n' || c == '\r'
}

/// An ASCII decimal digit.
pub open spec fn is_digit(c: char) -> bool {
    '0' as u32 <= c as u32 && c as u32 <= '9' as u32
}

/// The numeric value of a decimal digit.
pub open spec fn digit_val(c: char) -> int {
    c as u32 - '0' as u32
}

/// The first position at or after `i` that does not hold a blank.
pub open spec fn skip_spaces(s: Seq<char>, i: int) -> int
    decreases s.len() - i,
{
    if 0 <= i < s.len() && is_space(s[i]) {
        skip_spaces(s, i + 1)
    } else {
        i
    }
}

/// The first position at or after `i` that does not hold a digit.
pub open spec fn skip_digits(s: Seq<char>, i: int) -> int
    decreases s.len() - i,
{
    if 0 <= i < s.len() && is_digit(s[i]) {
        skip_digits(s, i + 1)
    } else {
        i
    }
}

/// The value of the digits at positions `i` (inclusive) to `j`
/// (exclusive), read as one decimal number.
pub open spec fn num_val(s: Seq<char>, i: int, j: int) -> int
    decreases j - i,
{
    if i >= j {
        0
    } else {
        num_val(s, i, j - 1) * 10 + digit_val(s[j - 1])
    }
}

/// What the dimension line denotes: exactly two decimal numbers in
/// range, made of ASCII digits and separated and surrounded by ASCII
/// blanks only; anything else denotes nothing.
pub open spec fn parse_two_numbers(s: Seq<char>) -> Option<(u32, u32)> {
    let i0 = skip_spaces(s, 0);
    let j0 = skip_digits(s, i0);
    let i1 = skip_spaces(s, j0);
    let j1 = skip_digits(s, i1);
    let i2 = skip_spaces(s, j1);
    if {
        &&& i0 < j0
        &&& (j0 == s.len() || is_space(s[j0]))
        &&& i1 < j1
        &&& (j1 == s.len() || is_space(s[j1]))
        &&& i2 == s.len()
        &&& num_val(s, i0, j0) <= u32::MAX
        &&& num_val(s, i1, j1) <= u32::MAX
    } {
        Some((num_val(s, i0, j0) as u32, num_val(s, i1, j1) as u32))
    } else {
        None
    }
}

/// Whether the character is an ASCII blank.
fn space_char(c: char) -> (b: bool)
    ensures
        b == is_space(c),
{
    c == ' ' || c == '\t' || c == '\n' || c == '\r'
}

/// Whether the character is an ASCII decimal digit.
fn digit_char(c: char) -> (b: bool)
    ensures
        b == is_digit(c),
{
    let u = c as u32;
    '0' as u32 <= u && u <= '9' as u32
}

/// Walks past the blanks starting at `from`.
fn scan_spaces(input: &str, from: usize) -> (r: usize)
    requires
        from <= input@.len(),
    ensures
        from <= r <= input@.len(),
        r == skip_spaces(input@, from as int),
{
    let len = input.unicode_len();
    let mut j = from;
    while j < len && space_char(input.get_char(j))
        invariant
            from <= j <= len,
            len == input@.len(),
            skip_spaces(input@, from as int) == skip_spaces(input@, j as int),
        decreases len - j,
    {
        j = j + 1;
    }
    proof {
        assert(skip_spaces(input@, j as int) == j);
    }
    j
}

/// Walks past the digit run starting at `from` and reads its value:
/// the run's end, and the value unless it exceeds the 32-bit range.
fn scan_number(input: &str, from: usize) -> (r: (usize, Option<u32>))
    requires
        from <= input@.len(),
    ensures
        from <= r.0 <= input@.len(),
        r.0 == skip_digits(input@, from as int),
        r.1 is Some <==> num_val(input@, from as int, r.0 as int) <= u32::MAX,
        r.1 is Some ==> r.1->0 == num_val(input@, from as int, r.0 as int),
{
    let len = input.unicode_len();
    let mut j = from;
    let mut val: u32 = 0;
    let mut too_big = false;
    while j < len && digit_char(input.get_char(j))
        invariant
            from <= j <= len,
            len == input@.len(),
            skip_digits(input@, from as int) == skip_digits(input@, j as int),
            !too_big ==> val == num_val(input@, from as int, j as int),
            too_big ==> num_val(input@, from as int, j as int) > u32::MAX,
        decreases len - j,
    {
        let c = input.get_char(j);
        let d = c as u32 - '0' as u32;
        if too_big {
        } else if val > (u32::MAX - d) / 10 {
            too_big = true;
        } else {
            val = val * 10 + d;
        }
        j = j + 1;
        proof {
            assert(num_val(input@, from as int, j as int) == num_val(
                input@,
                from as int,
                j - 1,
            ) * 10 + digit_val(input@[j - 1]));
        }
    }
    proof {
        assert(skip_digits(input@, j as int) == j);
    }
    if too_big {
        (j, None)
    } else {
        (j, Some(val))
    }
}

/// Reads the dimension line: `Some` with the two numbers exactly when
/// the line holds two decimal numbers in range, separated and
/// surrounded by blanks only, and `None` otherwise.
pub fn try_parse_dimensions(input: &str) -> (r: Option<(u32, u32)>)
    ensures
        r == parse_two_numbers(input@),
{
    let len = input.unicode_len();
    let i0 = scan_spaces(input, 0);
    let (j0, v0) = scan_number(input, i0);
    if j0 == i0 {
        return None;
    }
    if j0 < len && !space_char(input.get_char(j0)) {
        return None;
    }
    let i1 = scan_spaces(input, j0);
    let (j1, v1) = scan_number(input, i1);
    if j1 == i1 {
        return None;
    }
    if j1 < len && !space_char(input.get_char(j1)) {
        return None;
    }
    let i2 = scan_spaces(input, j1);
    if i2 != len {
        return None;
    }
    match (v0, v1) {
        (Some(a), Some(b)) => Some((a, b)),
        _ => None,
    }
}

/// Reads a dimension line already known to be well formed, as
/// `parse_two_numbers` states it.
pub fn parse_dimensions(input: &str) -> (r: (u32, u32))
    requires
        parse_two_numbers(input@) is Some,
    ensures
        Some(r) == parse_two_numbers(input@),
{
    match try_parse_dimensions(input) {
        Some(dims) => dims,
        None => unreached(),
    }
}

} // verus!

