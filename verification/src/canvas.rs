//! Colours, and the canvas of pixels that a render fills.
use crate::fixed::Fixed;
use vstd::prelude::*;
use vstd::std_specs::cmp::PartialEqSpecImpl;
use vstd::std_specs::ops::AddSpecImpl;
use vstd::std_specs::ops::MulSpecImpl;
use vstd::std_specs::ops::SubSpecImpl;
use vstd::string::StringExecFns;

verus! {

/// Tolerance, in raw units, below which two channels count as equal.
pub const COLOUR_EPSILON: i64 = 10_000;

/// Largest level of a channel in the written image.
pub const MAX_LEVEL: i32 = 255;

#[derive(Debug, Clone, Copy)]
pub struct Colour {
    pub red: Fixed,
    pub green: Fixed,
    pub blue: Fixed,
}

/// The character of a decimal digit.
pub open spec fn digit_char(d: int) -> char {
    if d == 0 {
        '0'
    } else if d == 1 {
        '1'
    } else if d == 2 {
        '2'
    } else if d == 3 {
        '3'
    } else if d == 4 {
        '4'
    } else if d == 5 {
        '5'
    } else if d == 6 {
        '6'
    } else if d == 7 {
        '7'
    } else if d == 8 {
        '8'
    } else {
        '9'
    }
}

/// The decimal numeral of `n`, without leading zeros.
pub open spec fn decimal(n: nat) -> Seq<char>
    decreases n,
{
    if n < 10 {
        seq![digit_char(n as int)]
    } else {
        decimal(n / 10).push(digit_char((n % 10) as int))
    }
}

/// The level from 0 to 255 of a channel: the channel times 255, rounded
/// toward zero, and held within the bounds.
pub open spec fn level(comp: Fixed) -> int {
    let v = comp.times(Fixed::from_int_spec(MAX_LEVEL as int)).trunc_spec();
    if v > MAX_LEVEL {
        MAX_LEVEL as int
    } else if v < 0 {
        0
    } else {
        v
    }
}

fn digit_text(d: usize) -> (s: &'static str)
    requires
        d < 10,
    ensures
        s@ == seq![digit_char(d as int)],
{
    proof {
        reveal_strlit("0");
        reveal_strlit("1");
        reveal_strlit("2");
        reveal_strlit("3");
        reveal_strlit("4");
        reveal_strlit("5");
        reveal_strlit("6");
        reveal_strlit("7");
        reveal_strlit("8");
        reveal_strlit("9");
    }
    let s = if d == 0 {
        "0"
    } else if d == 1 {
        "1"
    } else if d == 2 {
        "2"
    } else if d == 3 {
        "3"
    } else if d == 4 {
        "4"
    } else if d == 5 {
        "5"
    } else if d == 6 {
        "6"
    } else if d == 7 {
        "7"
    } else if d == 8 {
        "8"
    } else {
        "9"
    };
    assert(s@ =~= seq![digit_char(d as int)]);
    s
}

/// Appends the decimal numeral of `n` to `out`.
pub fn append_decimal(out: &mut String, n: usize)
    ensures
        final(out)@ == old(out)@ + decimal(n as nat),
    decreases n,
{
    if n >= 10 {
        append_decimal(out, n / 10);
    }
    out.append(digit_text(n % 10));
    assert(final(out)@ =~= old(out)@ + decimal(n as nat));
}

impl Colour {
    pub open spec fn black_spec() -> Colour {
        Colour { red: Fixed::zero_spec(), green: Fixed::zero_spec(), blue: Fixed::zero_spec() }
    }

    pub open spec fn white_spec() -> Colour {
        Colour { red: Fixed::one_spec(), green: Fixed::one_spec(), blue: Fixed::one_spec() }
    }

    /// Channel-wise sum.
    pub open spec fn plus(self, o: Colour) -> Colour {
        Colour {
            red: o.red.plus(self.red),
            green: o.green.plus(self.green),
            blue: o.blue.plus(self.blue),
        }
    }

    /// Channel-wise difference.
    pub open spec fn minus(self, o: Colour) -> Colour {
        Colour {
            red: self.red.minus(o.red),
            green: self.green.minus(o.green),
            blue: self.blue.minus(o.blue),
        }
    }

    /// Every channel multiplied by `k`.
    pub open spec fn scaled(self, k: Fixed) -> Colour {
        Colour { red: k.times(self.red), green: k.times(self.green), blue: k.times(self.blue) }
    }

    /// Channel-wise product.
    pub open spec fn blend(self, o: Colour) -> Colour {
        Colour {
            red: self.red.times(o.red),
            green: self.green.times(o.green),
            blue: self.blue.times(o.blue),
        }
    }

    /// Every channel of `self` is within the tolerance of that of `o`.
    pub open spec fn approx(self, o: Colour) -> bool {
        let eps = Fixed { raw: COLOUR_EPSILON };
        self.blue.within(o.blue, eps) && self.green.within(o.green, eps) && self.red.within(
            o.red,
            eps,
        )
    }

    /// The line of the written image for this colour: the three levels
    /// separated by spaces, and a line feed.
    pub open spec fn text(self) -> Seq<char> {
        decimal(level(self.red) as nat) + seq![' '] + decimal(level(self.green) as nat) + seq![' ']
            + decimal(level(self.blue) as nat) + seq!['\n']
    }

    pub fn new(red: Fixed, green: Fixed, blue: Fixed) -> (r: Colour)
        ensures
            r == (Colour { red, green, blue }),
    {
        Colour { red, green, blue }
    }

    pub fn component_transform(comp: Fixed) -> (r: i32)
        ensures
            r == level(comp),
            0 <= r <= MAX_LEVEL,
    {
        let scaled: i64 = (comp * Fixed::from_int(255)).trunc();
        if scaled > 255 {
            MAX_LEVEL
        } else if scaled < 0 {
            0
        } else {
            scaled as i32
        }
    }

    pub fn black() -> (r: Colour)
        ensures
            r == Colour::black_spec(),
    {
        Colour::new(Fixed::zero(), Fixed::zero(), Fixed::zero())
    }

    pub fn white() -> (r: Colour)
        ensures
            r == Colour::white_spec(),
    {
        Colour::new(Fixed::one(), Fixed::one(), Fixed::one())
    }

    /// Appends the colour's line of the written image to `out`.
    pub fn append_text(&self, out: &mut String)
        ensures
            final(out)@ == old(out)@ + self.text(),
    {
        proof {
            reveal_strlit(" ");
            reveal_strlit("\n");
        }
        append_decimal(out, Colour::component_transform(self.red) as usize);
        out.append(" ");
        append_decimal(out, Colour::component_transform(self.green) as usize);
        out.append(" ");
        append_decimal(out, Colour::component_transform(self.blue) as usize);
        out.append("\n");
        assert(final(out)@ =~= old(out)@ + self.text());
    }

    pub fn to_string(&self) -> (r: String)
        ensures
            r@ == self.text(),
    {
        let mut out = String::new();
        self.append_text(&mut out);
        assert(out@ =~= self.text());
        out
    }
}

impl PartialEq for Colour {
    fn eq(&self, other: &Self) -> (r: bool) {
        let eps = Fixed::from_raw(COLOUR_EPSILON);
        self.blue.is_within(other.blue, eps) && self.green.is_within(other.green, eps)
            && self.red.is_within(other.red, eps)
    }
}

impl PartialEqSpecImpl for Colour {
    open spec fn obeys_eq_spec() -> bool {
        true
    }

    open spec fn eq_spec(&self, other: &Colour) -> bool {
        self.approx(*other)
    }
}

impl core::ops::Add for Colour {
    type Output = Colour;

    fn add(self, other: Colour) -> (r: Colour) {
        Colour::new(other.red + self.red, other.green + self.green, other.blue + self.blue)
    }
}

impl AddSpecImpl for Colour {
    open spec fn obeys_add_spec() -> bool {
        true
    }

    open spec fn add_req(self, other: Colour) -> bool {
        true
    }

    open spec fn add_spec(self, other: Colour) -> Colour {
        self.plus(other)
    }
}

impl core::ops::Sub for Colour {
    type Output = Colour;

    fn sub(self, other: Colour) -> (r: Colour) {
        Colour::new(self.red - other.red, self.green - other.green, self.blue - other.blue)
    }
}

impl SubSpecImpl for Colour {
    open spec fn obeys_sub_spec() -> bool {
        true
    }

    open spec fn sub_req(self, other: Colour) -> bool {
        true
    }

    open spec fn sub_spec(self, other: Colour) -> Colour {
        self.minus(other)
    }
}

impl core::ops::Mul<Fixed> for Colour {
    type Output = Colour;

    fn mul(self, other: Fixed) -> (r: Colour) {
        Colour::new(other * self.red, other * self.green, other * self.blue)
    }
}

impl MulSpecImpl<Fixed> for Colour {
    open spec fn obeys_mul_spec() -> bool {
        true
    }

    open spec fn mul_req(self, other: Fixed) -> bool {
        true
    }

    open spec fn mul_spec(self, other: Fixed) -> Colour {
        self.scaled(other)
    }
}

impl core::ops::Mul<Colour> for Colour {
    type Output = Colour;

    fn mul(self, other: Colour) -> (r: Colour) {
        Colour::new(self.red * other.red, self.green * other.green, self.blue * other.blue)
    }
}

impl MulSpecImpl<Colour> for Colour {
    open spec fn obeys_mul_spec() -> bool {
        true
    }

    open spec fn mul_req(self, other: Colour) -> bool {
        true
    }

    open spec fn mul_spec(self, other: Colour) -> Colour {
        self.blend(other)
    }
}

pub struct Canvas {
    pub width: usize,
    pub height: usize,
    pub pixels: Vec<Vec<Colour>>,
}

/// The lines of the first `n` pixels of a row, one after the other.
pub open spec fn row_text(row: Seq<Colour>, n: nat) -> Seq<char>
    decreases n,
{
    if n == 0 {
        Seq::<char>::empty()
    } else {
        row_text(row, (n - 1) as nat) + row[n - 1].text()
    }
}

/// The lines of the first `n` rows, one row after the other.
pub open spec fn rows_text(rows: Seq<Vec<Colour>>, n: nat) -> Seq<char>
    decreases n,
{
    if n == 0 {
        Seq::<char>::empty()
    } else {
        rows_text(rows, (n - 1) as nat) + row_text(rows[n - 1]@, rows[n - 1]@.len())
    }
}

impl Canvas {
    /// `height` rows of `width` pixels each.
    pub open spec fn wf(self) -> bool {
        &&& self.pixels@.len() == self.height
        &&& forall|y: int| 0 <= y < self.height ==> (#[trigger] self.pixels@[y])@.len() == self.width
    }

    /// The pixel in column `x` of row `y`.
    pub open spec fn pixel(self, x: int, y: int) -> Colour {
        self.pixels@[y]@[x]
    }

    /// The head of the written image: the format's name, the two
    /// dimensions and the largest level.
    pub open spec fn header_text(self) -> Seq<char> {
        seq!['P', '3', '\n'] + decimal(self.width as nat) + seq![' '] + decimal(self.height as nat)
            + seq!['\n', '2', '5', '5', '\n']
    }

    /// The body of the written image: one line for each pixel, row by row.
    pub open spec fn pixel_text(self) -> Seq<char> {
        rows_text(self.pixels@, self.pixels@.len())
    }

    pub fn new(width: usize, height: usize) -> (r: Canvas)
        ensures
            r.wf(),
            r.width == width,
            r.height == height,
            forall|x: int, y: int|
                0 <= x < width && 0 <= y < height ==> r.pixel(x, y) == Colour::black_spec(),
    {
        let mut pixels: Vec<Vec<Colour>> = Vec::new();
        let mut y: usize = 0;
        while y < height
            invariant
                y <= height,
                pixels@.len() == y,
                forall|j: int| 0 <= j < y ==> (#[trigger] pixels@[j])@.len() == width,
                forall|i: int, j: int|
                    0 <= i < width && 0 <= j < y ==> pixels@[j]@[i] == Colour::black_spec(),
            decreases height - y,
        {
            let mut row: Vec<Colour> = Vec::new();
            let mut x: usize = 0;
            while x < width
                invariant
                    x <= width,
                    row@.len() == x,
                    forall|i: int| 0 <= i < x ==> row@[i] == Colour::black_spec(),
                decreases width - x,
            {
                row.push(Colour::black());
                x = x + 1;
            }
            pixels.push(row);
            y = y + 1;
        }
        Canvas { width, height, pixels }
    }

    pub fn pixel_at(&self, x: usize, y: usize) -> (r: &Colour)
        requires
            self.wf(),
            x < self.width,
            y < self.height,
        ensures
            *r == self.pixel(x as int, y as int),
    {
        &self.pixels[y][x]
    }

    pub fn write_pixel(&mut self, at: (usize, usize), colour: Colour)
        requires
            old(self).wf(),
            at.0 < old(self).width,
            at.1 < old(self).height,
        ensures
            final(self).wf(),
            final(self).width == old(self).width,
            final(self).height == old(self).height,
            final(self).pixel(at.0 as int, at.1 as int) == colour,
            forall|x: int, y: int|
                0 <= x < old(self).width && 0 <= y < old(self).height && !(x == at.0 && y == at.1)
                    ==> final(self).pixel(x, y) == old(self).pixel(x, y),
    {
        let (x, y) = at;
        self.pixels[y][x] = colour;
    }

    pub fn ppm_header(&self) -> (r: String)
        ensures
            r@ == self.header_text(),
    {
        proof {
            reveal_strlit("P3\n");
            reveal_strlit(" ");
            reveal_strlit("\n255\n");
        }
        let mut out = String::new();
        out.append("P3\n");
        append_decimal(&mut out, self.width);
        out.append(" ");
        append_decimal(&mut out, self.height);
        out.append("\n255\n");
        assert(out@ =~= self.header_text());
        out
    }

    pub fn ppm_pixel_data(&self) -> (r: String)
        ensures
            r@ == self.pixel_text(),
    {
        let mut out = String::new();
        let mut y: usize = 0;
        while y < self.pixels.len()
            invariant
                y <= self.pixels@.len(),
                out@ == rows_text(self.pixels@, y as nat),
            decreases self.pixels@.len() - y,
        {
            let row = &self.pixels[y];
            let ghost before = out@;
            let mut x: usize = 0;
            while x < row.len()
                invariant
                    x <= row@.len(),
                    out@ == before + row_text(row@, x as nat),
                decreases row@.len() - x,
            {
                row[x].append_text(&mut out);
                x = x + 1;
                assert(out@ =~= before + row_text(row@, x as nat));
            }
            y = y + 1;
        }
        out
    }
}

} // verus!
