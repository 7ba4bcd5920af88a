//! The rendered frame: its size, its pixel order, and its encodings.
use vstd::prelude::*;

use crate::decimal::{decimal, push_decimal};

verus! {

/// Whether `s` holds exactly the characters of `w`.
fn same_text(s: &str, w: &str) -> (r: bool)
    ensures
        r == (s@ == w@),
{
    let n = s.unicode_len();
    if n != w.unicode_len() {
        return false;
    }
    let mut i: usize = 0;
    while i < n
        invariant
            n == s@.len(),
            n == w@.len(),
            i <= n,
            forall|k: int| 0 <= k < i ==> s@[k] == w@[k],
        decreases n - i,
    {
        if s.get_char(i) != w.get_char(i) {
            return false;
        }
        i = i + 1;
    }
    assert(s@ =~= w@);
    true
}

/// File format of a saved image.
#[derive(Clone, Copy, Debug, PartialEq, Eq, Structural)]
pub enum Format {
    Png,
    Ppm,
}

/// The name of a format, which is also its file extension.
pub open spec fn format_name(f: Format) -> Seq<char> {
    match f {
        Format::Png => seq!['p', 'n', 'g'],
        Format::Ppm => seq!['p', 'p', 'm'],
    }
}

/// The format named by `s`, if any.
pub open spec fn format_named(s: Seq<char>) -> Option<Format> {
    if s == format_name(Format::Png) {
        Some(Format::Png)
    } else if s == format_name(Format::Ppm) {
        Some(Format::Ppm)
    } else {
        None
    }
}

/// A format's name reads back as that format.
pub proof fn lemma_format_name_round_trip(f: Format)
    ensures
        format_named(format_name(f)) == Some(f),
{
    assert(format_name(Format::Png) != format_name(Format::Ppm)) by {
        assert(format_name(Format::Png)[1] != format_name(Format::Ppm)[1]);
    }
}

impl Format {
    /// Reads a format from its name: `png` or `ppm`.
    pub fn parse(s: &str) -> (r: Option<Format>)
        ensures
            r == format_named(s@),
    {
        proof {
            reveal_strlit("png");
            reveal_strlit("ppm");
            assert("png"@ =~= format_name(Format::Png));
            assert("ppm"@ =~= format_name(Format::Ppm));
        }
        if same_text(s, "png") {
            Some(Format::Png)
        } else if same_text(s, "ppm") {
            Some(Format::Ppm)
        } else {
            None
        }
    }

    /// The format's name, used as the file extension.
    pub fn name(&self) -> (r: String)
        ensures
            r@ == format_name(*self),
    {
        proof {
            reveal_strlit("png");
            reveal_strlit("ppm");
            assert("png"@ =~= format_name(Format::Png));
            assert("ppm"@ =~= format_name(Format::Ppm));
        }
        match self {
            Format::Png => String::from_str("png"),
            Format::Ppm => String::from_str("ppm"),
        }
    }
}

/// Frame size of a rendered image.
#[derive(Clone, Copy, Debug, PartialEq, Eq, Structural)]
pub enum Resolution {
    /// 720×480 (3:2)
    P480,
    /// 1280×720 (16:9), HD Ready
    P720,
    /// 1920×1080 (16:9), Full HD
    P1080,
    /// 3840×2160 (16:9), Ultra HD
    P2160,
}

/// Width and height, in pixels, of a resolution.
pub open spec fn dimensions_of(r: Resolution) -> (u32, u32) {
    match r {
        Resolution::P480 => (720, 480),
        Resolution::P720 => (1280, 720),
        Resolution::P1080 => (1920, 1080),
        Resolution::P2160 => (3840, 2160),
    }
}

/// The resolution named by `s`: its height, alone or followed by `p`.
pub open spec fn resolution_named(s: Seq<char>) -> Option<Resolution> {
    if s == seq!['4', '8', '0', 'p'] || s == seq!['4', '8', '0'] {
        Some(Resolution::P480)
    } else if s == seq!['7', '2', '0', 'p'] || s == seq!['7', '2', '0'] {
        Some(Resolution::P720)
    } else if s == seq!['1', '0', '8', '0', 'p'] || s == seq!['1', '0', '8', '0'] {
        Some(Resolution::P1080)
    } else if s == seq!['2', '1', '6', '0', 'p'] || s == seq!['2', '1', '6', '0'] {
        Some(Resolution::P2160)
    } else {
        None
    }
}

impl Resolution {
    /// Reads a resolution from its name, such as `1080p` or `1080`.
    pub fn parse(s: &str) -> (r: Option<Resolution>)
        ensures
            r == resolution_named(s@),
    {
        proof {
            reveal_strlit("480p");
            assert("480p"@ =~= seq!['4', '8', '0', 'p']);
            reveal_strlit("480");
            assert("480"@ =~= seq!['4', '8', '0']);
            reveal_strlit("720p");
            assert("720p"@ =~= seq!['7', '2', '0', 'p']);
            reveal_strlit("720");
            assert("720"@ =~= seq!['7', '2', '0']);
            reveal_strlit("1080p");
            assert("1080p"@ =~= seq!['1', '0', '8', '0', 'p']);
            reveal_strlit("1080");
            assert("1080"@ =~= seq!['1', '0', '8', '0']);
            reveal_strlit("2160p");
            assert("2160p"@ =~= seq!['2', '1', '6', '0', 'p']);
            reveal_strlit("2160");
            assert("2160"@ =~= seq!['2', '1', '6', '0']);
        }
        if same_text(s, "480p") || same_text(s, "480") {
            Some(Resolution::P480)
        } else if same_text(s, "720p") || same_text(s, "720") {
            Some(Resolution::P720)
        } else if same_text(s, "1080p") || same_text(s, "1080") {
            Some(Resolution::P1080)
        } else if same_text(s, "2160p") || same_text(s, "2160") {
            Some(Resolution::P2160)
        } else {
            None
        }
    }

    /// Width and height in pixels.
    pub fn dimensions(&self) -> (r: (u32, u32))
        ensures
            r == dimensions_of(*self),
    {
        match self {
            Resolution::P480 => (720, 480),
            Resolution::P720 => (1280, 720),
            Resolution::P1080 => (1920, 1080),
            Resolution::P2160 => (3840, 2160),
        }
    }
}

/// The name under which a frame of height `height`, rendered with
/// `sampling` samples per pixel, is saved in `format`: `480p@64.png`.
pub open spec fn file_name_of(height: nat, sampling: nat, format: Format) -> Seq<char> {
    decimal(height) + seq!['p', '@'] + decimal(sampling) + seq!['.'] + format_name(format)
}

/// The line of plain PPM text for pixel `p` of `rgb`: its three channels in
/// decimal, separated by spaces.
pub open spec fn ppm_pixel(rgb: Seq<u8>, p: int) -> Seq<char> {
    decimal(rgb[3 * p] as nat) + seq![' '] + decimal(rgb[3 * p + 1] as nat) + seq![' ']
        + decimal(rgb[3 * p + 2] as nat) + seq!['\n']
}

/// The lines of the first `n` pixels of `rgb`.
pub open spec fn ppm_pixels(rgb: Seq<u8>, n: nat) -> Seq<char>
    decreases n,
{
    if n == 0 {
        Seq::empty()
    } else {
        ppm_pixels(rgb, (n - 1) as nat) + ppm_pixel(rgb, n - 1)
    }
}

/// A plain (`P3`) PPM file: magic number, width and height, the largest
/// channel value 255, then one line per pixel.
pub open spec fn ppm_text(width: nat, height: nat, rgb: Seq<u8>) -> Seq<char> {
    seq!['P', '3', '\n'] + decimal(width) + seq![' '] + decimal(height) + seq!['\n', '2', '5', '5', '\n']
        + ppm_pixels(rgb, rgb.len() / 3)
}

#[verifier::external_type_specification]
#[verifier::external_body]
pub struct ExEncodingError(png::EncodingError);

/// The bytes of the 8-bit RGB PNG file that the png crate's encoder writes
/// for a `width` × `height` frame with pixel bytes `rgb`.
pub uninterp spec fn png_rgb8(width: u32, height: u32, rgb: Seq<u8>) -> Seq<u8>;

/// Relies on png::Encoder (new, set_color, set_depth, write_header) and
/// png::Writer::write_image_data: they write the PNG file of the frame into
/// memory, and refuse a zero width or height and a pixel buffer whose
/// length is not three bytes per pixel.
#[verifier::external_body]
fn encode_rgb8(width: u32, height: u32, rgb: &[u8]) -> (r: Result<Vec<u8>, png::EncodingError>)
    requires
        3 * width * height <= usize::MAX,
    ensures
        r matches Ok(bytes) ==> bytes@ == png_rgb8(width, height, rgb@),
        width == 0 || height == 0 || rgb@.len() != 3 * width * height ==> r is Err,
{
    let mut bytes = Vec::new();
    let mut encoder = png::Encoder::new(&mut bytes, width, height);
    encoder.set_color(png::ColorType::Rgb);
    encoder.set_depth(png::BitDepth::Eight);
    encoder.write_header()?.write_image_data(rgb)?;
    Ok(bytes)
}

/// Why a frame could not be encoded.
#[derive(Debug)]
pub enum SaveError {
    /// The frame is not complete: it holds `actual` bytes, not `expected`.
    Incomplete { expected: usize, actual: usize },
    /// The PNG encoder failed.
    Encoding(png::EncodingError),
}

/// Largest width of any resolution.
pub const MAX_WIDTH: u32 = 3840;

/// Largest height of any resolution.
pub const MAX_HEIGHT: u32 = 2160;

/// A frame of a given size, rendered with a given number of samples per
/// pixel, and its pixels so far: 8-bit RGB, row after row from the top row
/// down, each row from left to right.
pub struct Image {
    width: u32,
    height: u32,
    sampling: u32,
    buffer: Vec<u8>,
}

impl Image {
    #[verifier::type_invariant]
    spec fn inv(self) -> bool {
        &&& 1 <= self.width <= MAX_WIDTH
        &&& 1 <= self.height <= MAX_HEIGHT
        &&& self.buffer@.len() % 3 == 0
    }

    /// Width in pixels.
    pub closed spec fn spec_width(&self) -> u32 {
        self.width
    }

    /// Height in pixels.
    pub closed spec fn spec_height(&self) -> u32 {
        self.height
    }

    /// Samples per pixel.
    pub closed spec fn spec_sampling(&self) -> u32 {
        self.sampling
    }

    /// The RGB bytes rendered so far.
    pub closed spec fn pixels(&self) -> Seq<u8> {
        self.buffer@
    }

    /// An empty frame of the given resolution.
    pub fn new(resolution: Resolution, sampling: u32) -> (r: Image)
        ensures
            (r.spec_width(), r.spec_height()) == dimensions_of(resolution),
            r.spec_sampling() == sampling,
            r.pixels() == Seq::<u8>::empty(),
    {
        let (width, height) = resolution.dimensions();
        Image { width, height, sampling, buffer: Vec::new() }
    }

    pub fn width(&self) -> (r: u32)
        ensures
            r == self.spec_width(),
            1 <= r <= MAX_WIDTH,
    {
        proof {
            use_type_invariant(self);
        }
        self.width
    }

    pub fn height(&self) -> (r: u32)
        ensures
            r == self.spec_height(),
            1 <= r <= MAX_HEIGHT,
    {
        proof {
            use_type_invariant(self);
        }
        self.height
    }

    pub fn sampling(&self) -> (r: u32)
        ensures
            r == self.spec_sampling(),
    {
        self.sampling
    }

    pub fn buffer(&self) -> (r: &Vec<u8>)
        ensures
            r@ == self.pixels(),
            r@.len() % 3 == 0,
    {
        proof {
            use_type_invariant(self);
        }
        &self.buffer
    }

    /// The pixel coordinates `(column, row)` in the order in which the
    /// buffer holds them: rows from the top one (`height - 1`) down to row
    /// 0, each from column 0 to the right.
    pub fn pixel_order(&self) -> (r: Vec<(u32, u32)>)
        ensures
            r@.len() == self.spec_width() * self.spec_height(),
            forall|row: int, col: int|
                0 <= row < self.spec_height() && 0 <= col < self.spec_width() ==> #[trigger] r@[row
                    * self.spec_width() + col] == (col as u32, (self.spec_height() - 1 - row) as u32),
    {
        proof {
            use_type_invariant(self);
        }
        let w = self.width;
        let h = self.height;
        let mut r: Vec<(u32, u32)> = Vec::new();
        let mut row: u32 = 0;
        while row < h
            invariant
                1 <= w <= MAX_WIDTH,
                1 <= h <= MAX_HEIGHT,
                row <= h,
                r@.len() == row * w,
                forall|y: int, x: int|
                    0 <= y < row && 0 <= x < w ==> #[trigger] r@[y * w + x] == (x as u32, (h - 1 - y) as u32),
            decreases h - row,
        {
            let mut col: u32 = 0;
            while col < w
                invariant
                    1 <= w <= MAX_WIDTH,
                    1 <= h <= MAX_HEIGHT,
                    row < h,
                    col <= w,
                    r@.len() == row * w + col,
                    forall|y: int, x: int|
                        0 <= y < row && 0 <= x < w ==> #[trigger] r@[y * w + x] == (x as u32, (h - 1 - y) as u32),
                    forall|x: int| 0 <= x < col ==> #[trigger] r@[row * w + x] == (x as u32, (h - 1 - row) as u32),
                decreases w - col,
            {
                proof {
                    assert(row * w + col < MAX_WIDTH * MAX_HEIGHT) by (nonlinear_arith)
                        requires row < h, h <= MAX_HEIGHT, col < w, w <= MAX_WIDTH;
                }
                let ghost before = r@;
                r.push((col, h - 1 - row));
                proof {
                    assert forall|y: int, x: int| 0 <= y < row && 0 <= x < w implies #[trigger] r@[y * w + x] == (x as u32, (h - 1 - y) as u32) by {
                        assert(y * w + x < row * w) by (nonlinear_arith)
                            requires 0 <= y < row, 0 <= x < w;
                        assert(r@[y * w + x] == before[y * w + x]);
                    }
                }
                col = col + 1;
            }
            proof {
                assert((row + 1) * w == row * w + w) by (nonlinear_arith);
            }
            row = row + 1;
        }
        assert(r@.len() == w * h) by (nonlinear_arith)
            requires r@.len() == row * w, row == h;
        r
    }

    /// The name under which this frame is saved in `format`.
    pub fn file_name(&self, format: Format) -> (r: String)
        ensures
            r@ == file_name_of(self.spec_height() as nat, self.spec_sampling() as nat, format),
    {
        proof {
            reveal_strlit("p@");
            reveal_strlit(".");
            assert("p@"@ =~= seq!['p', '@']);
            assert("."@ =~= seq!['.']);
        }
        let mut r = String::new();
        push_decimal(&mut r, self.height);
        r.append("p@");
        push_decimal(&mut r, self.sampling);
        r.append(".");
        let name = format.name();
        r.append(name.as_str());
        assert(r@ =~= file_name_of(self.spec_height() as nat, self.spec_sampling() as nat, format));
        r
    }

    /// The frame as a plain PPM file.
    pub fn ppm(&self) -> (r: String)
        ensures
            r@ == ppm_text(self.spec_width() as nat, self.spec_height() as nat, self.pixels()),
    {
        proof {
            use_type_invariant(self);
            reveal_strlit("P3\n");
            reveal_strlit(" ");
            reveal_strlit("\n");
            reveal_strlit("\n255\n");
            assert("P3\n"@ =~= seq!['P', '3', '\n']);
            assert(" "@ =~= seq![' ']);
            assert("\n"@ =~= seq!['\n']);
            assert("\n255\n"@ =~= seq!['\n', '2', '5', '5', '\n']);
        }
        let rgb = &self.buffer;
        let mut r = String::new();
        r.append("P3\n");
        push_decimal(&mut r, self.width);
        r.append(" ");
        push_decimal(&mut r, self.height);
        r.append("\n255\n");
        let ghost head = r@;
        assert(head =~= seq!['P', '3', '\n'] + decimal(self.width as nat) + seq![' '] + decimal(
            self.height as nat,
        ) + seq!['\n', '2', '5', '5', '\n']);
        let len = rgb.len();
        let n = len / 3;
        assert(rgb@.len() == 3 * n);
        let mut p: usize = 0;
        let mut q: usize = 0;
        while p < n
            invariant
                rgb@.len() == 3 * n,
                len == rgb@.len(),
                p <= n,
                q == 3 * p,
                " "@ == seq![' '],
                "\n"@ == seq!['\n'],
                r@ == head + ppm_pixels(rgb@, p as nat),
            decreases n - p,
        {
            let ghost before = r@;
            let (red, green, blue) = (rgb[q], rgb[q + 1], rgb[q + 2]);
            push_decimal(&mut r, red as u32);
            r.append(" ");
            push_decimal(&mut r, green as u32);
            r.append(" ");
            push_decimal(&mut r, blue as u32);
            r.append("\n");
            assert(r@ =~= before + ppm_pixel(rgb@, p as int));
            assert(ppm_pixels(rgb@, (p + 1) as nat) == ppm_pixels(rgb@, p as nat) + ppm_pixel(
                rgb@,
                p as int,
            ));
            assert(r@ =~= head + ppm_pixels(rgb@, (p + 1) as nat));
            p = p + 1;
            q = q + 3;
        }
        r
    }

    /// The complete frame as a PNG file (8-bit RGB).
    pub fn png(&self) -> (r: Result<Vec<u8>, SaveError>)
        ensures
            self.pixels().len() != 3 * self.spec_width() * self.spec_height() <==> r matches Err(
                SaveError::Incomplete { .. },
            ),
            r matches Err(SaveError::Incomplete { expected, actual }) ==> expected == 3
                * self.spec_width() * self.spec_height() && actual == self.pixels().len(),
            r matches Ok(bytes) ==> bytes@ == png_rgb8(
                self.spec_width(),
                self.spec_height(),
                self.pixels(),
            ),
    {
        proof {
            use_type_invariant(self);
            assert(3 * self.width * self.height <= 3 * MAX_WIDTH * MAX_HEIGHT) by (nonlinear_arith)
                requires self.width <= MAX_WIDTH, self.height <= MAX_HEIGHT;
        }
        let expected = 3 * (self.width as usize) * (self.height as usize);
        if self.buffer.len() != expected {
            return Err(SaveError::Incomplete { expected, actual: self.buffer.len() });
        }
        match encode_rgb8(self.width, self.height, self.buffer.as_slice()) {
            Ok(bytes) => Ok(bytes),
            Err(e) => Err(SaveError::Encoding(e)),
        }
    }

    /// Appends rendered pixels, three bytes (red, green, blue) each.
    pub fn append_pixels(&mut self, rgb: &Vec<u8>)
        requires
            rgb@.len() % 3 == 0,
        ensures
            final(self).pixels() == old(self).pixels() + rgb@,
            final(self).spec_width() == old(self).spec_width(),
            final(self).spec_height() == old(self).spec_height(),
            final(self).spec_sampling() == old(self).spec_sampling(),
    {
        proof {
            use_type_invariant(&*self);
        }
        let mut buffer = self.buffer.clone();
        assert(buffer@ =~= old(self).buffer@);
        let mut i: usize = 0;
        while i < rgb.len()
            invariant
                i <= rgb@.len(),
                rgb@.len() % 3 == 0,
                i % 3 == 0,
                buffer@ == old(self).buffer@ + rgb@.subrange(0, i as int),
            decreases rgb@.len() - i,
        {
            buffer.push(rgb[i]);
            buffer.push(rgb[i + 1]);
            buffer.push(rgb[i + 2]);
            i = i + 3;
            assert(buffer@ =~= old(self).buffer@ + rgb@.subrange(0, i as int));
        }
        assert(rgb@.subrange(0, rgb@.len() as int) =~= rgb@);
        self.buffer = buffer;
    }
}

} // verus!
