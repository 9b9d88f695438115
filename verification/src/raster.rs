//! The rasterizer: every cell's biome colour, written into an RGB image.
//!
//! The pixels live in an `image::ImageBuffer`. Verus does not look inside
//! it: what it holds has a name here, and each call into it stands behind a
//! small function whose contract is taken on trust from the crate's source.

use vstd::prelude::*;
use crate::biome::{biome_color, biome_of, classify, color_to_array, get_biome_color, Color};
use crate::grid::{
    cell_index, get_id_from_pos, in_grid, lemma_cell_of_index, CELL_COUNT, HEIGHT, WIDTH,
};

verus! {

/// An RGB image of eight bits per channel, held by `image::ImageBuffer`.
#[verifier::external_body]
pub struct Image {
    buffer: image::ImageBuffer<image::Rgb<u8>, Vec<u8>>,
}

/// Number of columns of the buffer.
pub uninterp spec fn image_width(img: Image) -> nat;

/// Number of rows of the buffer.
pub uninterp spec fn image_height(img: Image) -> nat;

/// The bytes of the buffer: three per pixel, red first, the pixels of a row
/// side by side and the rows one after another.
pub uninterp spec fn image_bytes(img: Image) -> Seq<u8>;

impl View for Image {
    type V = Seq<Color>;

    /// The pixels, the rows one after another.
    open spec fn view(&self) -> Seq<Color> {
        Seq::new(
            image_width(*self) * image_height(*self),
            |i: int|
                Color {
                    r: image_bytes(*self)[3 * i],
                    g: image_bytes(*self)[3 * i + 1],
                    b: image_bytes(*self)[3 * i + 2],
                },
        )
    }
}

impl Image {
    /// Where the bytes of pixel `(x, y)` start.
    pub open spec fn offset(self, x: int, y: int) -> int {
        3 * (y * image_width(self) + x)
    }

    /// The colour of pixel `(x, y)`.
    pub open spec fn pixel_at(self, x: int, y: int) -> Color {
        self@[y * image_width(self) + x]
    }

    /// Whether the buffer holds exactly the bytes of its pixels.
    pub open spec fn well_formed(self) -> bool {
        image_bytes(self).len() == 3 * image_width(self) * image_height(self)
    }

    /// `image::ImageBuffer::new`: a buffer of the given size whose bytes are
    /// all zero. It panics when the number of bytes does not fit `usize`,
    /// which the precondition rules out.
    #[verifier::external_body]
    fn blank(width: u32, height: u32) -> (img: Image)
        requires
            3 * width * height <= usize::MAX,
        ensures
            image_width(img) == width,
            image_height(img) == height,
            image_bytes(img) == Seq::new((3 * width * height) as nat, |i: int| 0u8),
    {
        Image { buffer: image::ImageBuffer::new(width, height) }
    }

    /// `image::ImageBuffer::put_pixel`: overwrites the three bytes of pixel
    /// `(x, y)` and nothing else. It panics outside the image, which the
    /// precondition rules out.
    #[verifier::external_body]
    fn put(&mut self, x: u32, y: u32, channels: [u8; 3])
        requires
            x < image_width(*old(self)),
            y < image_height(*old(self)),
        ensures
            image_width(*final(self)) == image_width(*old(self)),
            image_height(*final(self)) == image_height(*old(self)),
            image_bytes(*final(self)) == image_bytes(*old(self)).update(
                old(self).offset(x as int, y as int),
                channels[0],
            ).update(old(self).offset(x as int, y as int) + 1, channels[1]).update(
                old(self).offset(x as int, y as int) + 2,
                channels[2],
            ),
    {
        self.buffer.put_pixel(x, y, image::Rgb(channels))
    }

    /// `image::ImageBuffer::get_pixel`: the three bytes of pixel `(x, y)`.
    /// It panics outside the image, which the precondition rules out.
    #[verifier::external_body]
    fn get(&self, x: u32, y: u32) -> (channels: [u8; 3])
        requires
            x < image_width(*self),
            y < image_height(*self),
        ensures
            channels[0] == image_bytes(*self)[self.offset(x as int, y as int)],
            channels[1] == image_bytes(*self)[self.offset(x as int, y as int) + 1],
            channels[2] == image_bytes(*self)[self.offset(x as int, y as int) + 2],
    {
        self.buffer.get_pixel(x, y).0
    }

    /// `image::ImageBuffer::dimensions`: width, then height.
    #[verifier::external_body]
    fn size(&self) -> (dimensions: (u32, u32))
        ensures
            dimensions.0 == image_width(*self),
            dimensions.1 == image_height(*self),
    {
        self.buffer.dimensions()
    }

    /// `image::ImageBuffer::into_raw`: hands out the bytes.
    #[verifier::external_body]
    fn raw(self) -> (bytes: Vec<u8>)
        ensures
            bytes@ == image_bytes(self),
    {
        self.buffer.into_raw()
    }

    /// Number of columns.
    pub fn width(&self) -> (width: u32)
        ensures
            width == image_width(*self),
    {
        self.size().0
    }

    /// Number of rows.
    pub fn height(&self) -> (height: u32)
        ensures
            height == image_height(*self),
    {
        self.size().1
    }

    /// The colour of pixel `(x, y)`, or nothing outside the image.
    pub fn pixel(&self, x: u32, y: u32) -> (color: Option<Color>)
        ensures
            color == if x < image_width(*self) && y < image_height(*self) {
                Some(self.pixel_at(x as int, y as int))
            } else {
                None
            },
    {
        let (width, height) = self.size();
        if x < width && y < height {
            let channels = self.get(x, y);
            assert(0 <= y * width + x < width * height) by (nonlinear_arith)
                requires
                    0 <= x < width,
                    0 <= y < height,
            ;
            Some(Color { r: channels[0], g: channels[1], b: channels[2] })
        } else {
            None
        }
    }

    /// The bytes of the image: three per pixel, red first, row after row.
    pub fn into_raw(self) -> (bytes: Vec<u8>)
        ensures
            bytes@ == image_bytes(self),
    {
        self.raw()
    }
}

/// Whether `img` shows the map with the given elevation and moisture: it has
/// the size of the grid, and every pixel has the colour of the biome of the
/// cell at the same place.
pub open spec fn is_raster_of(img: Image, elevation: Seq<i32>, moisture: Seq<i32>) -> bool {
    &&& image_width(img) == WIDTH
    &&& image_height(img) == HEIGHT
    &&& img.well_formed()
    &&& img@.len() == CELL_COUNT
    &&& forall|i: int|
        0 <= i < CELL_COUNT ==> #[trigger] img@[i] == biome_color(
            biome_of(elevation[i] as int, moisture[i] as int),
        )
}

/// The image of a map: every cell is classified by its elevation and its
/// moisture, and its pixel gets the colour of the biome. No pixel is left
/// as it was made.
pub fn rasterize(elevation: &Vec<i32>, moisture: &Vec<i32>) -> (img: Image)
    requires
        elevation.len() == CELL_COUNT,
        moisture.len() == CELL_COUNT,
    ensures
        is_raster_of(img, elevation@, moisture@),
{
    let mut img = Image::blank(WIDTH as u32, HEIGHT as u32);
    for x in 0..WIDTH
        invariant
            elevation.len() == CELL_COUNT,
            moisture.len() == CELL_COUNT,
            image_width(img) == WIDTH,
            image_height(img) == HEIGHT,
            img.well_formed(),
            forall|u: int, v: int|
                0 <= u < x && 0 <= v < HEIGHT ==> #[trigger] img.pixel_at(u, v) == biome_color(
                    biome_of(
                        elevation[cell_index(u, v)] as int,
                        moisture[cell_index(u, v)] as int,
                    ),
                ),
    {
        for y in 0..HEIGHT
            invariant
                0 <= x < WIDTH,
                elevation.len() == CELL_COUNT,
                moisture.len() == CELL_COUNT,
                image_width(img) == WIDTH,
                image_height(img) == HEIGHT,
                img.well_formed(),
                forall|u: int, v: int|
                    0 <= u < x && 0 <= v < HEIGHT ==> #[trigger] img.pixel_at(u, v)
                        == biome_color(
                        biome_of(
                            elevation[cell_index(u, v)] as int,
                            moisture[cell_index(u, v)] as int,
                        ),
                    ),
                forall|v: int|
                    0 <= v < y ==> #[trigger] img.pixel_at(x as int, v) == biome_color(
                        biome_of(
                            elevation[cell_index(x as int, v)] as int,
                            moisture[cell_index(x as int, v)] as int,
                        ),
                    ),
        {
            let id = get_id_from_pos(x, y);
            let biome = classify(elevation[id], moisture[id]);
            let color = get_biome_color(biome);
            let ghost before = img;
            img.put(x as u32, y as u32, color_to_array(color));
            assert forall|u: int, v: int| in_grid(u, v) && !(u == x && v == y) implies (
            #[trigger] img.pixel_at(u, v)) == before.pixel_at(u, v) by {}
        }
    }
    assert forall|i: int| 0 <= i < CELL_COUNT implies #[trigger] img@[i] == biome_color(
        biome_of(elevation[i] as int, moisture[i] as int),
    ) by {
        lemma_cell_of_index(i);
        assert(img@[i] == img.pixel_at(i % (WIDTH as int), i / (WIDTH as int)));
    }
    img
}

} // verus!
