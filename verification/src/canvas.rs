//! Canvas for rendering the poster: a premultiplied pixel buffer together
//! with the geographic projection, and PNG encoding of the finished image.
use vstd::prelude::*;
use vstd::string::{StrSliceExecFns, StringExecFns};
use crate::colors::hex_color_spec;
use crate::errors::AppError;
use crate::geometry::Bounds;
use crate::projection::{
    establish_projection, geo_to_screen, geo_to_screen_centi, coord_in_range, project_x_spec,
    project_y_spec, project_x_centi_spec, project_y_centi_spec, projection_for, Projection,
};
use crate::raster::{opaque, Pixel, PixelBuffer, pixel_wf};

verus! {

/// Canvas width of a poster: 12 inches at 300 DPI.
pub const POSTER_WIDTH: u32 = 3600;

/// Canvas height of a poster: 16 inches at 300 DPI.
pub const POSTER_HEIGHT: u32 = 4800;

/// The PNG encoding of a premultiplied RGBA image. The bytes returned by
/// the encoder depend on the pixels and dimensions alone.
pub uninterp spec fn png_encoding(width: u32, height: u32, data: Seq<u8>) -> Seq<u8>;

/// Relies on `tiny_skia::Pixmap::from_vec` and `tiny_skia::Pixmap::encode_png`:
/// the data is wrapped as a premultiplied RGBA pixmap of the given size and
/// encoded as PNG, deterministically. For nonzero sides within this
/// library's canvas limit and a byte length matching the size, both calls
/// succeed: `from_vec` rejects a zero side, a length mismatch, or a row
/// length whose four-byte form overflows a 32-bit signed count — impossible
/// below the limit — and `encode_png` writes into a vector, whose writer
/// cannot fail, with parameters any such pixmap admits.
#[verifier::external_body]
fn encode_png_rgba(width: u32, height: u32, data: Vec<u8>) -> (r: Result<Vec<u8>, String>)
    ensures
        r matches Ok(v) ==> v@ == png_encoding(width, height, data@),
        1 <= width <= 100000 && 1 <= height <= 100000 && data@.len() == 4 * (width * height)
            ==> r is Ok,
{
    let size = match tiny_skia::IntSize::from_wh(width, height) {
        Some(s) => s,
        None => return Err("invalid canvas size".to_string()),
    };
    let pixmap = match tiny_skia::Pixmap::from_vec(data, size) {
        Some(p) => p,
        None => return Err("pixel buffer does not match canvas size".to_string()),
    };
    pixmap.encode_png().map_err(|e| e.to_string())
}

impl PixelBuffer {
    /// The buffer's pixels flattened to RGBA bytes, row-major.
    pub fn to_rgba_bytes(&self) -> (r: Vec<u8>)
        ensures
            r@.len() == 4 * self.data@.len(),
            forall|i: int|
                0 <= i < self.data@.len() ==> r@[4 * i] == (#[trigger] self.data@[i]).r && r@[4 * i
                    + 1] == self.data@[i].g && r@[4 * i + 2] == self.data@[i].b && r@[4 * i + 3]
                    == self.data@[i].a,
    {
        let mut out: Vec<u8> = Vec::new();
        let mut i: usize = 0;
        let n = self.data.len();
        while i < n
            invariant
                i <= n,
                n == self.data@.len(),
                out@.len() == 4 * i,
                forall|j: int|
                    0 <= j < i ==> out@[4 * j] == (#[trigger] self.data@[j]).r && out@[4 * j + 1]
                        == self.data@[j].g && out@[4 * j + 2] == self.data@[j].b && out@[4 * j + 3]
                        == self.data@[j].a,
            decreases n - i,
        {
            let p = self.data[i];
            out.push(p.r);
            out.push(p.g);
            out.push(p.b);
            out.push(p.a);
            i = i + 1;
        }
        out
    }

    /// Rebuild a buffer from RGBA bytes: `None` when the length does not
    /// match the size or some pixel is not premultiplied.
    pub fn from_rgba_bytes(width: usize, height: usize, bytes: &Vec<u8>) -> (r: Option<
        PixelBuffer,
    >)
        requires
            1 <= width <= 100000,
            1 <= height <= 100000,
            width * height <= 100000000,
        ensures
            r matches Some(b) ==> {
                &&& b.wf()
                &&& b.width == width
                &&& b.height == height
                &&& bytes@.len() == 4 * b.data@.len()
                &&& forall|i: int|
                    0 <= i < b.data@.len() ==> (#[trigger] b.data@[i]) == (Pixel {
                        r: bytes@[4 * i],
                        g: bytes@[4 * i + 1],
                        b: bytes@[4 * i + 2],
                        a: bytes@[4 * i + 3],
                    })
            },
            r is None ==> bytes@.len() != 4 * (width * height) || exists|i: int|
                0 <= i < width * height && !pixel_wf(
                    Pixel {
                        r: #[trigger] bytes@[4 * i],
                        g: bytes@[4 * i + 1],
                        b: bytes@[4 * i + 2],
                        a: bytes@[4 * i + 3],
                    },
                ),
    {
        let n = width * height;
        if bytes.len() != 4 * n {
            return None;
        }
        let mut data: Vec<Pixel> = Vec::new();
        let mut i: usize = 0;
        while i < n
            invariant
                i <= n,
                n == width * height <= 100000000,
                bytes@.len() == 4 * n,
                data@.len() == i,
                forall|j: int|
                    0 <= j < i ==> (#[trigger] data@[j]) == (Pixel {
                        r: bytes@[4 * j],
                        g: bytes@[4 * j + 1],
                        b: bytes@[4 * j + 2],
                        a: bytes@[4 * j + 3],
                    }),
                forall|j: int| 0 <= j < i ==> pixel_wf(#[trigger] data@[j]),
            decreases n - i,
        {
            let p = Pixel {
                r: bytes[4 * i],
                g: bytes[4 * i + 1],
                b: bytes[4 * i + 2],
                a: bytes[4 * i + 3],
            };
            if p.r > p.a || p.g > p.a || p.b > p.a {
                return None;
            }
            data.push(p);
            i = i + 1;
        }
        Some(PixelBuffer { width, height, data })
    }
}

/// Canvas for rendering the poster.
pub struct Canvas {
    pub buffer: PixelBuffer,
    pub projection: Projection,
}

impl Canvas {
    pub open spec fn wf(self) -> bool {
        &&& self.buffer.wf()
        &&& self.projection.wf()
        &&& self.projection.width == self.buffer.width
        &&& self.projection.height == self.buffer.height
    }

    /// Create a new canvas with the specified dimensions: transparent
    /// pixels and a unit transform. Sizes the buffer cannot hold are
    /// rejected the way a failed pixmap allocation is.
    pub fn new(width: u32, height: u32) -> (r: Result<Self, AppError>)
        ensures
            1 <= width <= 10000 && 1 <= height <= 10000 ==> (r matches Ok(c) && {
                &&& c.wf()
                &&& c.buffer.width == width
                &&& c.buffer.height == height
                &&& forall|i: int|
                    0 <= i < c.buffer.data@.len() ==> (#[trigger] c.buffer.data@[i])
                        == crate::raster::transparent()
            }),
            !(1 <= width <= 10000 && 1 <= height <= 10000) ==> (r matches Err(e)
                && e matches AppError::Rendering(m) && m@ == "Failed to create pixmap"@),
    {
        if width < 1 || width > 10000 || height < 1 || height > 10000 {
            return Err(AppError::Rendering(String::from_str("Failed to create pixmap")));
        }
        let w = width as usize;
        let h = height as usize;
        proof {
            assert(w * h <= 100000000) by (nonlinear_arith)
                requires
                    w <= 10000 && h <= 10000,
            ;
        }
        let buffer = PixelBuffer::new(w, h);
        let projection = crate::projection::Projection::initial(width as i64, height as i64);
        Ok(Canvas { buffer, projection })
    }

    /// Create a poster-sized canvas.
    pub fn poster() -> (r: Result<Self, AppError>)
        ensures
            r matches Ok(c) && c.wf() && c.buffer.width == 3600 && c.buffer.height == 4800,
    {
        Self::new(POSTER_WIDTH, POSTER_HEIGHT)
    }

    /// Fill the entire canvas with a color.
    pub fn fill_background(&mut self, hex_color: &str)
        requires
            old(self).wf(),
        ensures
            final(self).wf(),
            final(self).projection == old(self).projection,
            final(self).buffer.width == old(self).buffer.width,
            final(self).buffer.height == old(self).buffer.height,
            match hex_color_spec(hex_color@) {
                Some(c) => forall|i: int|
                    0 <= i < final(self).buffer.data@.len() ==> final(self).buffer.data@[i]
                        == opaque(c.0, c.1, c.2),
                None => final(self).buffer.data@ == old(self).buffer.data@,
            },
    {
        self.buffer.fill_background(hex_color);
    }

    /// Set the coordinate transform based on geographic bounds.
    pub fn set_geo_transform(&mut self, bounds: &Bounds)
        requires
            old(self).wf(),
            bounds.wf(),
        ensures
            final(self).wf(),
            final(self).buffer == old(self).buffer,
            final(self).projection == projection_for(
                *bounds,
                old(self).buffer.width as int,
                old(self).buffer.height as int,
            ),
    {
        self.projection = establish_projection(
            bounds,
            self.buffer.width as i64,
            self.buffer.height as i64,
        );
    }

    /// Convert geographic coordinates to screen coordinates, in pixels.
    pub fn geo_to_screen(&self, lat: i64, lon: i64) -> (r: (i64, i64))
        requires
            self.wf(),
            coord_in_range(self.projection, lat as int, lon as int),
        ensures
            r.0 == project_x_spec(self.projection, lon as int),
            r.1 == project_y_spec(self.projection, lat as int),
    {
        geo_to_screen(&self.projection, lat, lon)
    }

    /// Convert geographic coordinates to screen coordinates, in hundredths
    /// of a pixel.
    pub fn geo_to_screen_centi(&self, lat: i64, lon: i64) -> (r: (i64, i64))
        requires
            self.wf(),
            coord_in_range(self.projection, lat as int, lon as int),
        ensures
            r.0 == project_x_centi_spec(self.projection, lon as int),
            r.1 == project_y_centi_spec(self.projection, lat as int),
    {
        geo_to_screen_centi(&self.projection, lat, lon)
    }

    /// Get PNG data as bytes: encoding a well-formed canvas always
    /// succeeds.
    pub fn to_png_bytes(&self) -> (r: Result<Vec<u8>, AppError>)
        requires
            self.wf(),
        ensures
            r is Ok,
            r matches Ok(v) ==> ({
                let flat = Seq::new(
                    4 * self.buffer.data@.len(),
                    |i: int|
                        {
                            let p = self.buffer.data@[i / 4];
                            if i % 4 == 0 {
                                p.r
                            } else if i % 4 == 1 {
                                p.g
                            } else if i % 4 == 2 {
                                p.b
                            } else {
                                p.a
                            }
                        },
                );
                v@ == png_encoding(self.buffer.width as u32, self.buffer.height as u32, flat)
            }),
    {
        let bytes = self.buffer.to_rgba_bytes();
        let ghost flat = Seq::new(
            4 * self.buffer.data@.len(),
            |i: int|
                {
                    let p = self.buffer.data@[i / 4];
                    if i % 4 == 0 {
                        p.r
                    } else if i % 4 == 1 {
                        p.g
                    } else if i % 4 == 2 {
                        p.b
                    } else {
                        p.a
                    }
                },
        );
        proof {
            assert forall|i: int| 0 <= i < flat.len() implies bytes@[i] == flat[i] by {
                let j = i / 4;
                assert(i == 4 * j + i % 4);
            }
            assert(bytes@ =~= flat);
        }
        match encode_png_rgba(self.buffer.width as u32, self.buffer.height as u32, bytes) {
            Ok(v) => Ok(v),
            Err(m) => {
                let mut msg = String::from_str("Failed to encode PNG: ");
                msg.append(m.as_str());
                proof {
                    reveal_strlit("Failed to encode PNG: ");
                }
                Err(AppError::Rendering(msg))
            },
        }
    }
}

} // verus!
